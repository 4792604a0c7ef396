//! Paths that depend on the environment, as lists of components. The first
//! component starts the path and each further one is joined to it.

use vstd::prelude::*;

verus! {

#[derive(Debug, Clone, PartialEq, Eq)]
pub enum PathPart {
    /// The value of an environment variable.
    Var(String),
    /// A fixed component.
    Name(String),
}

/// The model of a component.
pub enum Part {
    Var(Seq<char>),
    Name(Seq<char>),
}

impl View for PathPart {
    type V = Part;

    open spec fn view(&self) -> Part {
        match self {
            PathPart::Var(s) => Part::Var(s@),
            PathPart::Name(s) => Part::Name(s@),
        }
    }
}

/// The model of a path.
pub open spec fn parts(path: Seq<PathPart>) -> Seq<Part> {
    path.map_values(|p: PathPart| p@)
}

pub fn var_part(s: &str) -> (r: PathPart)
    ensures
        r@ == Part::Var(s@),
{
    PathPart::Var(s.to_owned())
}

pub fn name_part(s: &str) -> (r: PathPart)
    ensures
        r@ == Part::Name(s@),
{
    PathPart::Name(s.to_owned())
}

/// Where a kind of user file is kept: below the directory that its own variable
/// names, else in a place below the home directory, else below the current
/// directory.
pub open spec fn user_dir(
    own_var: Seq<char>,
    own_set: bool,
    home_set: bool,
    below_home: Seq<char>,
) -> Seq<Part> {
    if own_set {
        seq![Part::Var(own_var)]
    } else if home_set {
        seq![Part::Var("HOME"@), Part::Name(below_home)]
    } else {
        seq![Part::Name("."@)]
    }
}

pub fn find_user_dir(own_var: &str, own_set: bool, home_set: bool, below_home: &str) -> (r: Vec<
    PathPart,
>)
    ensures
        parts(r@) == user_dir(own_var@, own_set, home_set, below_home@),
{
    let mut out: Vec<PathPart> = Vec::new();
    if own_set {
        out.push(var_part(own_var));
    } else if home_set {
        out.push(var_part("HOME"));
        out.push(name_part(below_home));
    } else {
        out.push(name_part("."));
    }
    assert(parts(out@) == user_dir(own_var@, own_set, home_set, below_home@));
    out
}

/// A user directory is that of its own variable where this is set, whatever else
/// is; else the one below the home directory; else the current directory.
pub proof fn the_own_variable_comes_first(
    own_var: Seq<char>,
    below_home: Seq<char>,
    home_set: bool,
    path: Seq<PathPart>,
    i: int,
)
    ensures
        user_dir(own_var, true, home_set, below_home) == seq![Part::Var(own_var)],
        user_dir(own_var, false, true, below_home) == seq![
            Part::Var("HOME"@),
            Part::Name(below_home),
        ],
        user_dir(own_var, false, false, below_home) == seq![Part::Name("."@)],
        parts(path).len() == path.len(),
        0 <= i < path.len() ==> match path[i] {
            PathPart::Var(s) => parts(path)[i] == Part::Var(s@),
            PathPart::Name(s) => parts(path)[i] == Part::Name(s@),
        },
{
}

/// The parts of a path are made as they are told apart, and a user directory is
/// found as `the_own_variable_comes_first` says.
pub proof fn parts_are_made_as_told(
    s: &str,
    var: PathPart,
    name: PathPart,
    own_var: &str,
    own_set: bool,
    home_set: bool,
    below_home: &str,
    dir: Vec<PathPart>,
)
    requires
        call_ensures(var_part, (s,), var),
        call_ensures(name_part, (s,), name),
        call_ensures(find_user_dir, (own_var, own_set, home_set, below_home), dir),
    ensures
        var is Var && var->Var_0@ == s@,
        name is Name && name->Name_0@ == s@,
        parts(dir@) == user_dir(own_var@, own_set, home_set, below_home@),
{
}

} // verus!
