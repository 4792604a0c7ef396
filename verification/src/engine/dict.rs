//! Hunspell `.dic` loader.
//!
//! The format is well documented but trivial in the parts that matter here:
//! - first line is a count (skipped if it parses as integer);
//! - each subsequent line is `word/FLAGS` or just `word`;
//! - blank lines and BOM-prefixed first line are tolerated;
//! - the morphological flags after the slash are stripped and the result is
//!   lowercased. Affixes are not expanded: for layout detection, base forms +
//!   common forms are good enough.
//!
//! A word that a file spells in ASCII capitals only ("NS") is an acronym; every
//! other word is a natural one. A dictionary knows both and tells them apart.

use vstd::hash_set::StringHashSet;
use vstd::prelude::*;
use vstd::string::StrSliceExecFns;

use crate::text;
use crate::text::{
    chars_of, is_ascii_upper, is_white_space, parse_unsigned, to_lower, trim, trim_range,
};

verus! {

/// A word list that can be asked about single words.
pub trait Dict: Send + Sync {
    /// The list holds the word, whatever its case.
    spec fn knows(&self, word: Seq<char>) -> bool;

    /// The list holds the word other than as an acronym.
    spec fn knows_naturally(&self, word: Seq<char>) -> bool;

    /// How many different words the list holds.
    spec fn size(&self) -> nat;

    fn lookup(&self, word: &str) -> (r: bool)
        ensures
            r == self.knows(word@),
    ;

    fn lookup_natural(&self, word: &str) -> (r: bool)
        ensures
            r == self.knows_naturally(word@),
    ;

    fn len(&self) -> (r: usize)
        ensures
            r == self.size(),
    ;

    fn is_empty(&self) -> (r: bool)
        ensures
            r == (self.size() == 0),
    {
        self.len() == 0
    }
}

/// A word spelled in ASCII capitals only.
pub open spec fn acronym(word: Seq<char>) -> bool {
    word.len() > 0 && forall|i: int|
        0 <= i < word.len() ==> text::ascii_upper(#[trigger] word[i])
}

pub fn is_acronym(word: &str) -> (r: bool)
    ensures
        r == acronym(word@),
{
    let chars = chars_of(word);
    let mut i: usize = 0;
    while i < chars.len()
        invariant
            i <= chars.len(),
            chars@ == word@,
            forall|j: int| 0 <= j < i ==> text::ascii_upper(#[trigger] word@[j]),
        decreases chars.len() - i,
    {
        if !is_ascii_upper(chars[i]) {
            assert(!text::ascii_upper(word@[i as int]));
            return false;
        }
        i = i + 1;
    }
    chars.len() > 0
}

// ---------------------------------------------------------------------------
// One line of a file
// ---------------------------------------------------------------------------

/// The byte order mark.
pub const BOM: char = '\u{FEFF}';

/// A line without the byte order mark in front of it.
pub open spec fn without_bom(line: Seq<char>) -> Seq<char> {
    if line.len() > 0 && line[0] == BOM {
        line.drop_first()
    } else {
        line
    }
}

pub fn strip_bom(s: &str) -> (r: &str)
    ensures
        r@ == without_bom(s@),
{
    let chars = chars_of(s);
    if chars.len() > 0 && chars[0] == BOM {
        s.substring_char(1, chars.len())
    } else {
        s
    }
}

/// The word on a line: what stands in front of the first slash, up to the first
/// white space. Blank lines and comments hold none.
pub open spec fn line_word(line: Seq<char>) -> Option<Seq<char>> {
    let t = text::trimmed(line);
    let word = text::until_space(t.take(text::find_char(t, '/')));
    if t.len() == 0 || t[0] == '#' || word.len() == 0 {
        None
    } else {
        Some(word)
    }
}

pub fn parse_dic_line(line: &str) -> (r: Option<&str>)
    ensures
        match r {
            Some(w) => line_word(line@) == Some(w@),
            None => line_word(line@) is None,
        },
{
    let chars = chars_of(line);
    let (a, b) = trim_range(chars.as_slice());
    let ghost t = text::trimmed(line@);
    let ghost upto = t.take(text::find_char(t, '/'));
    proof {
        text::find_char_bounds(t, '/');
        text::trimmed_has_bare_ends(line@);
    }
    if a == b || chars[a] == '#' {
        assert(a < b ==> t[0] == chars@[a as int]);
        return None;
    }
    let mut e: usize = a;
    while e < b && chars[e] != '/' && !is_white_space(chars[e])
        invariant
            a <= e <= b <= chars.len(),
            t == chars@.subrange(a as int, b as int),
            forall|j: int| a <= j < e ==> chars@[j] != '/',
            forall|j: int|
                a <= j < e ==> !text::white_space(#[trigger] chars@[j]),
        decreases b - e,
    {
        e = e + 1;
    }
    proof {
        let k = text::find_char(t, '/');
        assert(k >= e - a) by {
            if k < e - a {
                assert(t[k] == chars@[a + k]);
            }
        }
        assert forall|j: int| 0 <= j < e - a implies !text::white_space(
            #[trigger] upto[j],
        ) by {
            assert(upto[j] == chars@[a + j]);
        }
        assert(e - a < upto.len() ==> text::white_space(upto[e - a])) by {
            if e - a < upto.len() {
                assert(upto[e - a] == t[e - a]);
                assert(t[e - a] == chars@[e as int]);
            }
        }
        text::until_space_is(upto, e - a);
        assert(upto.take(e - a) == chars@.subrange(a as int, e as int));
    }
    if e == a {
        return None;
    }
    Some(line.substring_char(a, e))
}

/// The word that line number `i` of a file contributes. A number on the first
/// line is a count, not a word.
pub open spec fn file_word(i: int, line: Seq<char>) -> Option<Seq<char>> {
    let bare = without_bom(line);
    if i == 0 && text::unsigned_value(text::trimmed(bare), usize::MAX as nat) is Some {
        None
    } else {
        line_word(bare)
    }
}

// ---------------------------------------------------------------------------
// Word sets
// ---------------------------------------------------------------------------

/// The lowercase forms of the words of a file.
pub open spec fn file_words(lines: Seq<Seq<char>>) -> Set<Seq<char>>
    decreases lines.len(),
{
    if lines.len() == 0 {
        Set::empty()
    } else {
        let before = file_words(lines.drop_last());
        match file_word(lines.len() - 1, lines.last()) {
            Some(w) => before.insert(text::lower_text(w)),
            None => before,
        }
    }
}

/// The lowercase forms of those words of a file that are no acronyms.
pub open spec fn file_natural_words(lines: Seq<Seq<char>>) -> Set<Seq<char>>
    decreases lines.len(),
{
    if lines.len() == 0 {
        Set::empty()
    } else {
        let before = file_natural_words(lines.drop_last());
        match file_word(lines.len() - 1, lines.last()) {
            Some(w) => if acronym(w) {
                before
            } else {
                before.insert(text::lower_text(w))
            },
            None => before,
        }
    }
}

/// A set of words together with the lowercase forms of further ones.
pub open spec fn with_words(set: Set<Seq<char>>, more: Seq<Seq<char>>) -> Set<Seq<char>>
    decreases more.len(),
{
    if more.len() == 0 {
        set
    } else {
        with_words(set, more.drop_last()).insert(text::lower_text(more.last()))
    }
}

/// The views of a sequence of string slices.
pub open spec fn str_views(v: Seq<&str>) -> Seq<Seq<char>> {
    v.map_values(|s: &str| s@)
}

pub struct HunspellDict {
    words: StringHashSet,
    natural: StringHashSet,
}

impl Default for HunspellDict {
    fn default() -> (r: HunspellDict)
        ensures
            r.words() == Set::<Seq<char>>::empty(),
            r.natural_words() == Set::<Seq<char>>::empty(),
            r.wf(),
    {
        HunspellDict { words: StringHashSet::new(), natural: StringHashSet::new() }
    }
}

impl HunspellDict {
    /// The lowercase forms of all words.
    pub closed spec fn words(&self) -> Set<Seq<char>> {
        self.words@
    }

    /// The lowercase forms of the words that are not only acronyms.
    pub closed spec fn natural_words(&self) -> Set<Seq<char>> {
        self.natural@
    }

    /// Every natural word is a word.
    pub open spec fn wf(&self) -> bool {
        self.natural_words().subset_of(self.words())
    }

    pub fn empty() -> (r: HunspellDict)
        ensures
            r.words() == Set::<Seq<char>>::empty(),
            r.natural_words() == Set::<Seq<char>>::empty(),
            r.wf(),
    {
        HunspellDict::default()
    }

    /// The dictionary that the lines of a `.dic` file make.
    pub fn load(lines: &Vec<String>) -> (r: HunspellDict)
        ensures
            r.words() == file_words(text::views(lines@)),
            r.natural_words() == file_natural_words(text::views(lines@)),
            r.wf(),
    {
        let mut d = HunspellDict::empty();
        let ghost all = text::views(lines@);
        let mut i: usize = 0;
        while i < lines.len()
            invariant
                i <= lines.len(),
                all == text::views(lines@),
                d.words() == file_words(all.take(i as int)),
                d.natural_words() == file_natural_words(all.take(i as int)),
                d.wf(),
            decreases lines.len() - i,
        {
            let line = strip_bom(lines[i].as_str());
            proof {
                assert(all.take(i + 1).drop_last() == all.take(i as int));
                assert(all.take(i + 1).last() == all[i as int]);
            }
            let count: bool = i == 0 && parse_unsigned(trim(line), usize::MAX as u64).is_some();
            if !count {
                match parse_dic_line(line) {
                    Some(word) => {
                        d.words.insert(to_lower(word));
                        if !is_acronym(word) {
                            d.natural.insert(to_lower(word));
                        }
                    },
                    None => {},
                }
            }
            i = i + 1;
        }
        assert(all.take(i as int) == all);
        d
    }

    /// Load if the file could be read; otherwise the dictionary is empty and
    /// auto-detection will be weak.
    pub fn load_or_warn(lines: Option<&Vec<String>>) -> (r: HunspellDict)
        ensures
            r.wf(),
            match lines {
                Some(ls) => {
                    &&& r.words() == file_words(text::views(ls@))
                    &&& r.natural_words() == file_natural_words(text::views(ls@))
                },
                None => {
                    &&& r.words() == Set::<Seq<char>>::empty()
                    &&& r.natural_words() == Set::<Seq<char>>::empty()
                },
            },
    {
        match lines {
            Some(ls) => HunspellDict::load(ls),
            None => HunspellDict::empty(),
        }
    }

    /// Adds words by hand. They count as natural words however they are
    /// spelled.
    pub fn add_words(&mut self, ws: &[&str])
        ensures
            final(self).words() == with_words(old(self).words(), str_views(ws@)),
            final(self).natural_words() == with_words(old(self).natural_words(), str_views(ws@)),
            old(self).wf() ==> final(self).wf(),
    {
        let ghost all = str_views(ws@);
        let ghost words0 = self.words();
        let ghost natural0 = self.natural_words();
        let mut i: usize = 0;
        assert(all.take(0) == Seq::<Seq<char>>::empty());
        while i < ws.len()
            invariant
                i <= ws.len(),
                all == str_views(ws@),
                self.words() == with_words(words0, all.take(i as int)),
                self.natural_words() == with_words(natural0, all.take(i as int)),
                old(self).wf() ==> self.wf(),
            decreases ws.len() - i,
        {
            proof {
                assert(all.take(i + 1).drop_last() == all.take(i as int));
                assert(all.take(i + 1).last() == all[i as int]);
            }
            self.words.insert(to_lower(ws[i]));
            self.natural.insert(to_lower(ws[i]));
            i = i + 1;
        }
        assert(all.take(i as int) == all);
    }
}

impl Dict for HunspellDict {
    open spec fn knows(&self, word: Seq<char>) -> bool {
        self.words().contains(text::lower_text(word))
    }

    open spec fn knows_naturally(&self, word: Seq<char>) -> bool {
        self.natural_words().contains(text::lower_text(word))
    }

    open spec fn size(&self) -> nat {
        self.words().len()
    }

    fn lookup(&self, word: &str) -> (r: bool) {
        self.words.contains(to_lower(word).as_str())
    }

    fn lookup_natural(&self, word: &str) -> (r: bool) {
        self.natural.contains(to_lower(word).as_str())
    }

    fn len(&self) -> (r: usize) {
        self.words.len()
    }
}

// ---------------------------------------------------------------------------
// Laws
// ---------------------------------------------------------------------------

/// Line number `i` contributes the word `w`.
pub open spec fn contributes(i: int, line: Seq<char>, w: Seq<char>) -> bool {
    file_word(i, line) matches Some(v) && text::lower_text(v) == w
}

/// Line number `i` contributes the word `w`, and spells it otherwise than in
/// capitals only.
pub open spec fn contributes_naturally(i: int, line: Seq<char>, w: Seq<char>) -> bool {
    file_word(i, line) matches Some(v) && !acronym(v) && text::lower_text(v) == w
}

/// A file contributes exactly the lowercase forms of the words on its lines.
pub proof fn file_words_are_the_words_on_its_lines(lines: Seq<Seq<char>>, w: Seq<char>)
    ensures
        file_words(lines).contains(w) <==> exists|i: int|
            0 <= i < lines.len() && #[trigger] contributes(i, lines[i], w),
    decreases lines.len(),
{
    if lines.len() > 0 {
        let rest = lines.drop_last();
        file_words_are_the_words_on_its_lines(rest, w);
        let n = lines.len() - 1;
        assert(contributes(n, lines[n], w) == contributes(n, lines.last(), w));
        if exists|i: int| 0 <= i < rest.len() && #[trigger] contributes(i, rest[i], w) {
            let i = choose|i: int| 0 <= i < rest.len() && #[trigger] contributes(i, rest[i], w);
            assert(contributes(i, lines[i], w));
        }
        if exists|i: int| 0 <= i < lines.len() && #[trigger] contributes(i, lines[i], w) {
            let i = choose|i: int| 0 <= i < lines.len() && #[trigger] contributes(i, lines[i], w);
            if i < n {
                assert(contributes(i, rest[i], w));
            }
        }
    }
}

/// What is natural about a file is what some line spells otherwise than as an
/// acronym.
pub proof fn file_natural_words_are_spelled_naturally(lines: Seq<Seq<char>>, w: Seq<char>)
    ensures
        file_natural_words(lines).contains(w) <==> exists|i: int|
            0 <= i < lines.len() && #[trigger] contributes_naturally(i, lines[i], w),
    decreases lines.len(),
{
    if lines.len() > 0 {
        let rest = lines.drop_last();
        file_natural_words_are_spelled_naturally(rest, w);
        let n = lines.len() - 1;
        assert(contributes_naturally(n, lines[n], w) == contributes_naturally(n, lines.last(), w));
        if exists|i: int| 0 <= i < rest.len() && #[trigger] contributes_naturally(i, rest[i], w) {
            let i = choose|i: int|
                0 <= i < rest.len() && #[trigger] contributes_naturally(i, rest[i], w);
            assert(contributes_naturally(i, lines[i], w));
        }
        if exists|i: int| 0 <= i < lines.len() && #[trigger] contributes_naturally(i, lines[i], w) {
            let i = choose|i: int|
                0 <= i < lines.len() && #[trigger] contributes_naturally(i, lines[i], w);
            if i < n {
                assert(contributes_naturally(i, rest[i], w));
            }
        }
    }
}

/// Adding words makes each of them known and forgets none.
pub proof fn added_words_are_known(set: Set<Seq<char>>, more: Seq<Seq<char>>, w: Seq<char>)
    ensures
        with_words(set, more).contains(w) <==> set.contains(w) || exists|i: int|
            0 <= i < more.len() && text::lower_text(#[trigger] more[i]) == w,
    decreases more.len(),
{
    if more.len() > 0 {
        let rest = more.drop_last();
        added_words_are_known(set, rest, w);
        let n = more.len() - 1;
        assert(more[n] == more.last());
        if exists|i: int| 0 <= i < rest.len() && text::lower_text(#[trigger] rest[i]) == w {
            let i = choose|i: int|
                0 <= i < rest.len() && text::lower_text(#[trigger] rest[i]) == w;
            assert(more[i] == rest[i]);
        }
        if exists|i: int| 0 <= i < more.len() && text::lower_text(#[trigger] more[i]) == w {
            let i = choose|i: int|
                0 <= i < more.len() && text::lower_text(#[trigger] more[i]) == w;
            if i < n {
                assert(rest[i] == more[i]);
            }
        }
    }
}

/// Lookup does not depend on case: words with one lowercase form are known
/// together.
pub proof fn lookup_ignores_case(d: HunspellDict, a: Seq<char>, b: Seq<char>)
    requires
        text::lower_text(a) == text::lower_text(b),
    ensures
        d.knows(a) == d.knows(b),
        d.knows_naturally(a) == d.knows_naturally(b),
{
}

/// ASCII words that differ in case only are known together.
pub proof fn lookup_ignores_ascii_case(d: HunspellDict, a: Seq<char>, b: Seq<char>)
    requires
        text::ascii_text(a),
        text::ascii_text(b),
        text::same_ignoring_ascii_case(a, b),
    ensures
        d.knows(a) == d.knows(b),
        d.knows_naturally(a) == d.knows_naturally(b),
{
    assert(text::lower_text(a) == text::lower_text(b));
}

/// What is known naturally is known.
pub proof fn natural_words_are_known(d: HunspellDict, word: Seq<char>)
    requires
        d.wf(),
    ensures
        d.knows_naturally(word) ==> d.knows(word),
{
}

/// The word on a line is the longest beginning of the trimmed line without a
/// slash and without white space, whatever letters that consists of. There is
/// none only on an empty line, on a comment and on a line that begins with a
/// slash.
pub proof fn the_word_is_the_longest_beginning(line: Seq<char>)
    ensures
        ({
            let t = text::trimmed(line);
            match line_word(line) {
                None => t.len() == 0 || t[0] == '#' || t[0] == '/',
                Some(w) => {
                    &&& t.len() > 0 && t[0] != '#' && t[0] != '/'
                    &&& 0 < w.len() <= t.len()
                    &&& w == t.take(w.len() as int)
                    &&& forall|i: int|
                        0 <= i < w.len() ==> t[i] != '/' && !text::white_space(#[trigger] t[i])
                    &&& w.len() < t.len() ==> t[w.len() as int] == '/' || text::white_space(
                        t[w.len() as int],
                    )
                },
            }
        }),
{
    let t = text::trimmed(line);
    text::trimmed_has_bare_ends(line);
    text::find_char_bounds(t, '/');
    let k = text::find_char(t, '/');
    let upto = t.take(k);
    let w = text::until_space(upto);
    until_space_cuts(upto);
    if t.len() > 0 {
        assert(!text::white_space(t[0]));
        if t[0] != '/' {
            assert(k > 0);
            assert(upto[0] == t[0]);
            assert(w.len() > 0);
        } else {
            assert(k == 0) by {
                if k > 0 {
                    assert(t[0] != '/');
                }
            }
        }
        assert(upto.take(w.len() as int) == t.take(w.len() as int));
        assert forall|i: int| 0 <= i < w.len() implies t[i] != '/' && !text::white_space(
            #[trigger] t[i],
        ) by {
            assert(upto[i] == t[i]);
        }
        if w.len() < t.len() && w.len() < upto.len() {
            assert(upto[w.len() as int] == t[w.len() as int]);
        }
    }
}

proof fn until_space_cuts(s: Seq<char>)
    ensures
        ({
            let w = text::until_space(s);
            &&& w.len() <= s.len()
            &&& w == s.take(w.len() as int)
            &&& forall|i: int| 0 <= i < w.len() ==> !text::white_space(#[trigger] s[i])
            &&& w.len() < s.len() ==> text::white_space(s[w.len() as int])
        }),
    decreases s.len(),
{
    let w = text::until_space(s);
    if s.len() > 0 && !text::white_space(s[0]) {
        let t = s.drop_first();
        until_space_cuts(t);
        let v = text::until_space(t);
        assert(w.len() == v.len() + 1);
        assert forall|i: int| 0 <= i < w.len() implies !text::white_space(#[trigger] s[i]) && w[i]
            == s[i] by {
            if i > 0 {
                assert(t[i - 1] == s[i]);
                assert(v[i - 1] == t[i - 1]);
            }
        }
        assert(w == s.take(w.len() as int));
        if w.len() < s.len() {
            assert(t[v.len() as int] == s[w.len() as int]);
        }
    }
}

/// The acronyms are the words of the letters from A to Z.
pub proof fn acronyms_are_capitals(word: Seq<char>)
    ensures
        acronym(word) <==> word.len() > 0 && forall|i: int|
            0 <= i < word.len() ==> 65 <= (#[trigger] word[i]) as u32 <= 90,
{
    if acronym(word) {
        assert forall|i: int| 0 <= i < word.len() implies 65 <= (#[trigger] word[i]) as u32
            <= 90 by {
            assert(text::ascii_upper(word[i]));
        }
    } else if word.len() > 0 && forall|i: int|
        0 <= i < word.len() ==> 65 <= (#[trigger] word[i]) as u32 <= 90 {
        assert forall|i: int| 0 <= i < word.len() implies text::ascii_upper(#[trigger] word[i]) by {}
    }
}

/// Every line of a file contributes the word on it, a byte order mark in front
/// left aside. Only a number on the first line does not count.
pub proof fn every_line_contributes_its_word(i: int, line: Seq<char>, bare: Seq<char>)
    requires
        line == bare && (bare.len() == 0 || bare[0] != '\u{FEFF}') || line == seq!['\u{FEFF}']
            + bare,
    ensures
        i != 0 ==> file_word(i, line) == line_word(bare),
        text::unsigned_value(text::trimmed(bare), usize::MAX as nat) is None ==> file_word(i, line)
            == line_word(bare),
        text::unsigned_value(text::trimmed(bare), usize::MAX as nat) is Some ==> file_word(0, line)
            is None,
{
    if line == seq!['\u{FEFF}'] + bare {
        assert(line[0] == '\u{FEFF}');
        assert(line.drop_first() == bare);
    }
}

/// A listed word is found, however it is asked for and whatever its letters are:
/// if a line holds `w`, alone or with a slash or white space behind it, then every
/// word with the same lowercase form is known, and known as a natural word unless
/// `w` is an acronym.
pub proof fn listed_words_are_found(
    d: HunspellDict,
    lines: Seq<Seq<char>>,
    i: int,
    w: Seq<char>,
    behind: Seq<char>,
    asked: Seq<char>,
)
    requires
        d.words() == file_words(lines),
        d.natural_words() == file_natural_words(lines),
        0 <= i < lines.len(),
        text::trimmed(lines[i]) == w + behind,
        w.len() > 0,
        w[0] != '#',
        lines[i][0] != '\u{FEFF}',
        forall|k: int| 0 <= k < w.len() ==> w[k] != '/' && !text::white_space(#[trigger] w[k]),
        behind.len() > 0 ==> behind[0] == '/' || text::white_space(behind[0]),
        i == 0 ==> text::unsigned_value(w + behind, usize::MAX as nat) is None,
        text::lower_text(asked) == text::lower_text(w),
    ensures
        d.knows(asked),
        !acronym(w) ==> d.knows_naturally(asked),
{
    let line = lines[i];
    let t = text::trimmed(line);
    the_word_is_the_longest_beginning(line);
    assert(t[0] == w[0]);
    assert(w[0] != '/');
    let v = line_word(line)->0;
    assert(v.len() == w.len()) by {
        if v.len() < w.len() {
            assert(t[v.len() as int] == w[v.len() as int]);
            assert(w[v.len() as int] != '/');
        } else if v.len() > w.len() {
            assert(t[w.len() as int] == behind[0]);
            assert(t[w.len() as int] != '/');
        }
    }
    assert(v == w) by {
        assert forall|k: int| 0 <= k < w.len() implies v[k] == w[k] by {
            assert(t[k] == w[k]);
        }
        assert(v =~= w);
    }
    every_line_contributes_its_word(i, line, line);
    let low = text::lower_text(w);
    assert(contributes(i, lines[i], low));
    file_words_are_the_words_on_its_lines(lines, low);
    if !acronym(w) {
        assert(contributes_naturally(i, lines[i], low));
        file_natural_words_are_spelled_naturally(lines, low);
    }
}

/// Looking up goes by the lowercase form, for every word alike.
pub proof fn lookup_goes_by_the_lowercase_form(d: HunspellDict, word: Seq<char>)
    ensures
        d.knows(word) <==> d.words().contains(text::lower_text(word)),
        d.knows_naturally(word) <==> d.natural_words().contains(text::lower_text(word)),
        d.size() == d.words().len(),
{
}

/// What is read from a line is its longest beginning without slash and white space,
/// as `the_word_is_the_longest_beginning` says; a byte order mark goes, and nothing
/// else in front of a line does.
pub proof fn lines_give_their_words(
    line: &str,
    word: Option<&str>,
    marked: &str,
    bare: &str,
    w: &str,
    capitals: bool,
)
    requires
        call_ensures(parse_dic_line, (line,), word),
        call_ensures(strip_bom, (marked,), bare),
        call_ensures(is_acronym, (w,), capitals),
    ensures
        word is None <==> line_word(line@) is None,
        word matches Some(v) ==> line_word(line@) == Some(v@),
        marked@.len() > 0 && marked@[0] == '\u{FEFF}' ==> marked@ == seq!['\u{FEFF}'] + bare@,
        marked@.len() == 0 || marked@[0] != '\u{FEFF}' ==> bare@ == marked@,
        capitals <==> acronym(w@),
{
    if marked@.len() > 0 && marked@[0] == '\u{FEFF}' {
        assert(marked@ == seq!['\u{FEFF}'] + marked@.drop_first());
    }
}

/// A dictionary has the words of its lines, and none where they could not be read;
/// words that are added are natural ones and take nothing away.
pub proof fn dictionaries_have_the_words_of_their_lines(
    lines: &Vec<String>,
    loaded: HunspellDict,
    missing: HunspellDict,
    d: &mut HunspellDict,
    more: &[&str],
    w: Seq<char>,
    i: int,
)
    requires
        call_ensures(HunspellDict::load_or_warn, (Some(lines),), loaded),
        call_ensures(HunspellDict::load_or_warn, (None,), missing),
        call_ensures(HunspellDict::add_words, (d, more), ()),
    ensures
        loaded.words() == file_words(text::views(lines@)),
        loaded.natural_words() == file_natural_words(text::views(lines@)),
        !missing.knows(w) && !missing.knows_naturally(w),
        old(d).knows(w) ==> final(d).knows(w),
        old(d).knows_naturally(w) ==> final(d).knows_naturally(w),
        0 <= i < more@.len() ==> final(d).knows(more@[i]@) && final(d).knows_naturally(more@[i]@),
{
    let low = text::lower_text(w);
    let views = str_views(more@);
    added_words_are_known(old(d).words(), views, low);
    added_words_are_known(old(d).natural_words(), views, low);
    if 0 <= i < more@.len() {
        assert(views[i] == more@[i]@);
        added_words_are_known(old(d).words(), views, text::lower_text(views[i]));
        added_words_are_known(old(d).natural_words(), views, text::lower_text(views[i]));
    }
}

/// Looking up tells whether the dictionary has the word, whatever its case, length
/// and letters.
pub proof fn lookups_tell_what_is_known(
    d: &HunspellDict,
    word: &str,
    found: bool,
    natural: bool,
    n: usize,
    none: bool,
)
    requires
        call_ensures(<HunspellDict as Dict>::lookup, (d, word), found),
        call_ensures(<HunspellDict as Dict>::lookup_natural, (d, word), natural),
        call_ensures(<HunspellDict as Dict>::len, (d,), n),
        call_ensures(<HunspellDict as Dict>::is_empty, (d,), none),
    ensures
        found <==> d.words().contains(text::lower_text(word@)),
        natural <==> d.natural_words().contains(text::lower_text(word@)),
        n == d.words().len(),
        none <==> d.words().len() == 0,
{
}

} // verus!
