//! Local control socket. A single-line text protocol over
//! `$XDG_RUNTIME_DIR/swtchr.sock` (fallback `/tmp/swtchr-$UID.sock`).
//!
//! Commands (one per connection, terminated by newline or EOF):
//!   - `swap`: swap layout on the current Wayland selection.
//!   - `ping`: health probe; replies `ok`.
//!
//! The reply is a single line: `ok\n` on success, `err: <message>\n` on
//! failure.

use vstd::prelude::*;

use crate::paths;
use crate::paths::{name_part, var_part, PathPart};
use crate::text;
use crate::text::{
    append, append_decimal, find_line, first_word, parse_unsigned, quoted, same_text, trim,
};

verus! {

/// Cap on the length of an incoming command line, in bytes and with its line
/// feed: anything longer is malformed.
pub const MAX_LINE: usize = 64;

/// Hard ceiling on a request, in milliseconds. Keeps a stuck or hostile client
/// from holding the listener open.
pub const REQUEST_TIMEOUT_MS: u64 = 2000;

#[derive(Debug, Clone, Copy, PartialEq, Eq, Structural)]
pub enum Command {
    Swap,
    Ping,
}

/// The command that a line stands for.
pub open spec fn line_command(line: Seq<char>) -> Option<Command> {
    if text::trimmed(line) == "swap"@ {
        Some(Command::Swap)
    } else if text::trimmed(line) == "ping"@ {
        Some(Command::Ping)
    } else {
        None
    }
}

/// The line that stands for a command.
pub open spec fn command_line(cmd: Command) -> Seq<char> {
    match cmd {
        Command::Swap => "swap\n"@,
        Command::Ping => "ping\n"@,
    }
}

impl Command {
    pub fn parse(line: &str) -> (r: Option<Command>)
        ensures
            r == line_command(line@),
    {
        let word = trim(line);
        if same_text(word, "swap") {
            Some(Command::Swap)
        } else if same_text(word, "ping") {
            Some(Command::Ping)
        } else {
            None
        }
    }

    /// What a client writes to the socket to request this.
    pub fn request_line(&self) -> (r: &'static str)
        ensures
            r@ == command_line(*self),
    {
        match self {
            Command::Swap => "swap\n",
            Command::Ping => "ping\n",
        }
    }
}

/// How a connection is answered.
#[derive(Debug)]
pub enum Response {
    /// Write the reply and drop the connection.
    Refuse(String),
    /// Write the reply and close.
    Reply(String),
    /// Queue a selection swap; the reply depends on whether that worked.
    QueueSwap,
}

/// The model of a response.
pub enum Answer {
    Refuse(Seq<char>),
    Reply(Seq<char>),
    QueueSwap,
}

impl View for Response {
    type V = Answer;

    open spec fn view(&self) -> Answer {
        match self {
            Response::Refuse(s) => Answer::Refuse(s@),
            Response::Reply(s) => Answer::Reply(s@),
            Response::QueueSwap => Answer::QueueSwap,
        }
    }
}

/// A text that ends in its only line feed.
pub open spec fn single_line(s: Seq<char>) -> bool {
    &&& s.len() > 0
    &&& s.last() == '\n'
    &&& forall|i: int| 0 <= i < s.len() - 1 ==> #[trigger] s[i] != '\n'
}

/// The length of a text in UTF-8.
pub open spec fn byte_len(s: Seq<char>) -> nat {
    vstd::utf8::encode_utf8(s).len()
}

/// The answer to a line, given the quoted form of what an unknown command
/// amounts to.
pub open spec fn answer(line: Seq<char>, shown: Seq<char>) -> Answer {
    if byte_len(line) > MAX_LINE {
        Answer::Refuse("err: line too long\n"@)
    } else {
        match line_command(line) {
            Some(Command::Swap) => Answer::QueueSwap,
            Some(Command::Ping) => Answer::Reply("ok\n"@),
            None => Answer::Reply("err: unknown command: "@ + shown + "\n"@),
        }
    }
}

/// Answers a line, once the quoted form of its trimmed text is known.
pub fn answer_line(line: &str, shown: &str) -> (r: Response)
    ensures
        r@ == answer(line@, shown@),
{
    if line.as_bytes().len() > MAX_LINE {
        return Response::Refuse("err: line too long\n".to_owned());
    }
    match Command::parse(line) {
        Some(Command::Swap) => Response::QueueSwap,
        Some(Command::Ping) => Response::Reply("ok\n".to_owned()),
        None => {
            let mut out = "err: unknown command: ".to_owned();
            append(&mut out, shown);
            append(&mut out, "\n");
            Response::Reply(out)
        },
    }
}

/// Answers the line that a client sent. Whatever it was, the reply is a single
/// line.
pub fn respond(line: &str) -> (r: Response)
    ensures
        r@ == answer(line@, text::debug_form(text::trimmed(line@))),
        match r@ {
            Answer::Refuse(s) => single_line(s),
            Answer::Reply(s) => single_line(s),
            Answer::QueueSwap => true,
        },
{
    let shown = quoted(trim(line));
    proof {
        replies_are_single_lines(line@, shown@);
    }
    answer_line(line, shown.as_str())
}

/// The reply to a swap request: it tells whether the swap was queued, not how
/// it went.
pub fn swap_reply(queued: bool) -> (r: &'static str)
    ensures
        r@ == if queued {
            "ok\n"@
        } else {
            "err: service stopped\n"@
        },
        single_line(r@),
{
    proof {
        reveal_strlit("ok\n");
        reveal_strlit("err: service stopped\n");
    }
    if queued {
        "ok\n"
    } else {
        "err: service stopped\n"
    }
}

/// The user id in the text of `/proc/self/status`: the first number on the line
/// `Uid:`, which is the real user id. Zero if there is none.
pub open spec fn status_uid(status: Option<Seq<char>>) -> u32 {
    match status {
        Some(s) => match text::line_after(text::split_on(s, '\n'), "Uid:"@) {
            Some(rest) => match text::unsigned_value(
                text::until_space(text::trimmed(rest)),
                u32::MAX as nat,
            ) {
                Some(v) => v as u32,
                None => 0,
            },
            None => 0,
        },
        None => 0,
    }
}

/// Reads the user id from the text of `/proc/self/status`, if there is one.
/// Failure collapses to 0 (root), which is fine for a fallback path.
pub fn parse_uid(status: Option<&str>) -> (r: u32)
    ensures
        r == status_uid(
            match status {
                Some(s) => Some(s@),
                None => None,
            },
        ),
{
    let rest = match status {
        Some(s) => find_line(s, "Uid:"),
        None => None,
    };
    match rest {
        Some(numbers) => match parse_unsigned(
            first_word(numbers.as_str()).as_str(),
            u32::MAX as u64,
        ) {
            Some(v) => v as u32,
            None => 0,
        },
        None => 0,
    }
}

/// Default socket path: `$XDG_RUNTIME_DIR/swtchr.sock`, falling back to
/// `/tmp/swtchr-$UID.sock` if `XDG_RUNTIME_DIR` is unset. `uid` is the user id of
/// the process.
pub fn socket_path(runtime_dir_set: bool, uid: u32) -> (r: Vec<PathPart>)
    ensures
        paths::parts(r@) == if runtime_dir_set {
            seq![paths::Part::Var("XDG_RUNTIME_DIR"@), paths::Part::Name("swtchr.sock"@)]
        } else {
            seq![paths::Part::Name("/tmp/swtchr-"@ + text::decimal(uid as nat) + ".sock"@)]
        },
{
    let mut out: Vec<PathPart> = Vec::new();
    if runtime_dir_set {
        out.push(var_part("XDG_RUNTIME_DIR"));
        out.push(name_part("swtchr.sock"));
        assert(paths::parts(out@) == seq![
            paths::Part::Var("XDG_RUNTIME_DIR"@),
            paths::Part::Name("swtchr.sock"@),
        ]);
    } else {
        let mut file = "/tmp/swtchr-".to_owned();
        append_decimal(&mut file, uid);
        append(&mut file, ".sock");
        out.push(name_part(file.as_str()));
        assert(paths::parts(out@) == seq![
            paths::Part::Name("/tmp/swtchr-"@ + text::decimal(uid as nat) + ".sock"@),
        ]);
    }
    out
}

/// The protocol round-trips: the daemon reads back the command that a client
/// wrote, and never finds the line too long.
pub proof fn requests_are_understood(cmd: Command)
    ensures
        line_command(command_line(cmd)) == Some(cmd),
        byte_len(command_line(cmd)) <= MAX_LINE,
{
    reveal_strlit("swap");
    reveal_strlit("ping");
    reveal_strlit("swap\n");
    reveal_strlit("ping\n");
    let line = command_line(cmd);
    let word = line.drop_last();
    assert(line.len() == 5);
    text::trimmed_of_bare(word);
    assert(text::trim_front(line) == line);
    assert(text::trim_back(line) == text::trim_back(word));
    match cmd {
        Command::Swap => {
            assert(word == "swap"@);
        },
        Command::Ping => {
            assert(word == "ping"@);
            assert(word[0] != "swap"@[0]);
        },
    }
    vstd::utf8::is_ascii_chars_encode_utf8(line);
}

/// A ping is answered `ok` and queues nothing; only a swap request queues
/// anything.
pub proof fn only_swap_queues(line: Seq<char>, shown: Seq<char>)
    ensures
        answer(line, shown) is QueueSwap ==> line_command(line) == Some(Command::Swap),
        line_command(line) == Some(Command::Ping) && byte_len(line) <= MAX_LINE ==> answer(
            line,
            shown,
        ) == Answer::Reply("ok\n"@),
{
}

/// What is not understood is answered with a line that begins with `err:`.
pub proof fn unknown_commands_are_answered_with_an_error(line: Seq<char>, shown: Seq<char>)
    requires
        line_command(line) is None,
    ensures
        match answer(line, shown) {
            Answer::Refuse(s) => text::begins_with(s, "err:"@),
            Answer::Reply(s) => text::begins_with(s, "err:"@),
            Answer::QueueSwap => false,
        },
{
    reveal_strlit("err:");
    reveal_strlit("err: line too long\n");
    reveal_strlit("err: unknown command: ");
    let a = "err: line too long\n"@;
    let b = "err: unknown command: "@ + shown + "\n"@;
    assert(a.take(4) == "err:"@);
    assert(b.take(4) == "err:"@);
}

proof fn replies_are_single_lines(line: Seq<char>, shown: Seq<char>)
    requires
        forall|i: int| 0 <= i < shown.len() ==> #[trigger] shown[i] != '\n',
    ensures
        match answer(line, shown) {
            Answer::Refuse(s) => single_line(s),
            Answer::Reply(s) => single_line(s),
            Answer::QueueSwap => true,
        },
{
    reveal_strlit("ok\n");
    reveal_strlit("err: line too long\n");
    reveal_strlit("err: unknown command: ");
    reveal_strlit("\n");
    let a = "err: unknown command: "@;
    let b = a + shown + "\n"@;
    assert forall|i: int| 0 <= i < b.len() - 1 implies #[trigger] b[i] != '\n' by {
        if i < a.len() {
            assert(b[i] == a[i]);
        } else {
            assert(b[i] == shown[i - a.len()]);
        }
    }
}

proof fn padded_word_is_trimmed(before: Seq<char>, word: Seq<char>, after: Seq<char>)
    requires
        word.len() > 0,
        !text::white_space(word[0]),
        !text::white_space(word.last()),
        forall|i: int| 0 <= i < before.len() ==> text::white_space(#[trigger] before[i]),
        forall|i: int| 0 <= i < after.len() ==> text::white_space(#[trigger] after[i]),
    ensures
        text::trimmed(before + word + after) == word,
{
    let s = before + word + after;
    text::trimming_cuts_the_white_space_around(s);
    let t = text::trimmed(s);
    let k = choose|k: int|
        {
            &&& 0 <= k <= k + t.len() <= s.len()
            &&& t == #[trigger] s.subrange(k, k + t.len())
            &&& forall|i: int|
                0 <= i < k || k + t.len() <= i < s.len() ==> text::white_space(#[trigger] s[i])
        };
    let a = before.len() as int;
    let b = a + word.len();
    assert(s[a] == word[0]);
    assert(s[b - 1] == word.last());
    assert(k <= a && b <= k + t.len());
    assert(k == a) by {
        if k < a {
            assert(s[k] == before[k]);
            assert(t[0] == s[k]);
        }
    }
    assert(k + t.len() == b) by {
        let last = k + t.len() - 1;
        if last >= b {
            assert(s[last] == after[last - b]);
            assert(t.last() == s[last]);
        }
    }
    assert(s.subrange(a, b) == word);
}

/// A command is understood with any white space around it, and only a line that
/// holds the command and nothing else is: what stands between the white space is
/// compared letter by letter.
pub proof fn commands_may_be_padded(before: Seq<char>, word: Seq<char>, after: Seq<char>)
    requires
        word.len() > 0,
        !text::white_space(word[0]),
        !text::white_space(word.last()),
        forall|i: int| 0 <= i < before.len() ==> text::white_space(#[trigger] before[i]),
        forall|i: int| 0 <= i < after.len() ==> text::white_space(#[trigger] after[i]),
    ensures
        line_command(before + word + after) == Some(Command::Swap) <==> word == seq![
            's',
            'w',
            'a',
            'p',
        ],
        line_command(before + word + after) == Some(Command::Ping) <==> word == seq![
            'p',
            'i',
            'n',
            'g',
        ],
{
    padded_word_is_trimmed(before, word, after);
    reveal_strlit("swap");
    reveal_strlit("ping");
    assert("swap"@ == seq!['s', 'w', 'a', 'p']);
    assert("ping"@ == seq!['p', 'i', 'n', 'g']);
    assert("swap"@[0] != "ping"@[0]);
}

/// A line of white space only is no command.
pub proof fn blank_lines_are_no_commands(line: Seq<char>)
    requires
        forall|i: int| 0 <= i < line.len() ==> text::white_space(#[trigger] line[i]),
    ensures
        line_command(line) is None,
{
    text::trimming_cuts_the_white_space_around(line);
    let t = text::trimmed(line);
    let k = choose|k: int|
        {
            &&& 0 <= k <= k + t.len() <= line.len()
            &&& t == #[trigger] line.subrange(k, k + t.len())
            &&& forall|i: int|
                0 <= i < k || k + t.len() <= i < line.len() ==> text::white_space(
                    #[trigger] line[i],
                )
        };
    if t.len() > 0 {
        assert(t[0] == line[k]);
    }
    reveal_strlit("swap");
    reveal_strlit("ping");
}

/// A line of up to 64 bytes is answered by its command, and a longer one is refused
/// whatever it holds.
pub proof fn lines_are_answered_by_their_length_and_command(line: Seq<char>, shown: Seq<char>)
    ensures
        ({
            let long = vstd::utf8::encode_utf8(line).len() > 64;
            &&& long ==> answer(line, shown) == Answer::Refuse("err: line too long\n"@)
            &&& !long && line_command(line) == Some(Command::Swap) ==> answer(line, shown)
                == Answer::QueueSwap
            &&& !long && line_command(line) == Some(Command::Ping) ==> answer(line, shown)
                == Answer::Reply("ok\n"@)
            &&& !long && line_command(line) is None ==> answer(line, shown) == Answer::Reply(
                "err: unknown command: "@ + shown + "\n"@,
            )
        }),
        command_line(Command::Swap) == "swap\n"@,
        command_line(Command::Ping) == "ping\n"@,
{
}

/// A single line has one line feed, at its end.
pub proof fn a_single_line_has_one_line_feed(s: Seq<char>)
    ensures
        single_line(s) <==> s.len() > 0 && forall|i: int|
            0 <= i < s.len() ==> (#[trigger] s[i] == '\n' <==> i == s.len() - 1),
{
    if single_line(s) {
        assert forall|i: int| 0 <= i < s.len() implies (#[trigger] s[i] == '\n' <==> i == s.len()
            - 1) by {}
    }
    if s.len() > 0 && forall|i: int|
        0 <= i < s.len() ==> (#[trigger] s[i] == '\n' <==> i == s.len() - 1) {
        assert(s[s.len() - 1] == '\n');
    }
}

/// The user id is the number at the beginning of what stands behind `Uid:` on the
/// first line that begins so, whatever other numbers follow.
pub proof fn the_first_number_behind_uid_counts(
    status: Seq<char>,
    i: int,
    numbers: Seq<char>,
    k: int,
)
    requires
        0 <= i < text::split_on(status, '\n').len(),
        text::split_on(status, '\n')[i] == "Uid:"@ + numbers,
        forall|j: int, t: Seq<char>|
            0 <= j < i ==> #[trigger] text::split_on(status, '\n')[j] != #[trigger] ("Uid:"@ + t),
        0 <= k <= text::trimmed(numbers).len(),
        forall|j: int| 0 <= j < k ==> !text::white_space(#[trigger] text::trimmed(numbers)[j]),
        k < text::trimmed(numbers).len() ==> text::white_space(text::trimmed(numbers)[k]),
    ensures
        match text::unsigned_value(text::trimmed(numbers).take(k), 4294967295) {
            Some(v) => status_uid(Some(status)) == v,
            None => status_uid(Some(status)) == 0,
        },
{
    let lines = text::split_on(status, '\n');
    let p = "Uid:"@;
    text::the_first_line_with_the_prefix_decides(lines, p);
    assert(lines[i] == p + numbers);
    let rest = text::line_after(lines, p)->0;
    let m = choose|m: int|
        {
            &&& 0 <= m < lines.len()
            &&& #[trigger] lines[m] == p + rest
            &&& forall|j: int, t: Seq<char>|
                0 <= j < m ==> #[trigger] lines[j] != #[trigger] (p + t)
        };
    assert(lines[m] == p + rest);
    assert(m == i);
    assert((p + rest).skip(p.len() as int) == rest);
    assert((p + numbers).skip(p.len() as int) == numbers);
    text::until_space_is(text::trimmed(numbers), k);
    text::numbers_are_runs_of_digits(text::trimmed(numbers).take(k), 4294967295);
}

/// Without a status, or without a line for it, the user id is 0.
pub proof fn no_uid_line_means_root(status: Seq<char>)
    requires
        forall|j: int, t: Seq<char>|
            0 <= j < text::split_on(status, '\n').len() ==> #[trigger] text::split_on(
                status,
                '\n',
            )[j] != #[trigger] ("Uid:"@ + t),
    ensures
        status_uid(None) == 0,
        status_uid(Some(status)) == 0,
{
    let lines = text::split_on(status, '\n');
    let p = "Uid:"@;
    text::the_first_line_with_the_prefix_decides(lines, p);
    if text::line_after(lines, p) is Some {
        let rest = text::line_after(lines, p)->0;
        let m = choose|m: int|
            {
                &&& 0 <= m < lines.len()
                &&& #[trigger] lines[m] == p + rest
                &&& forall|j: int, t: Seq<char>|
                    0 <= j < m ==> #[trigger] lines[j] != #[trigger] (p + t)
            };
        assert(lines[m] != p + rest);
    }
}

/// What a client writes is what the daemon reads, and what the daemon writes back
/// is `ok` or an error.
pub proof fn both_ends_speak_the_same_protocol(
    cmd: &Command,
    sent: &'static str,
    line: &str,
    read: Option<Command>,
    response: Response,
    queued: bool,
    reply: &'static str,
)
    requires
        call_ensures(Command::request_line, (cmd,), sent),
        call_ensures(Command::parse, (line,), read),
        call_ensures(respond, (line,), response),
        call_ensures(swap_reply, (queued,), reply),
    ensures
        line@ == sent@ ==> read == Some(*cmd),
        line@ == sent@ && *cmd == Command::Swap ==> response is QueueSwap,
        line@ == sent@ && *cmd == Command::Ping ==> (response matches Response::Reply(s)
            && s@ == "ok\n"@),
        queued ==> reply@ == "ok\n"@,
        !queued ==> reply@ == "err: service stopped\n"@,
        read == line_command(line@),
        response@ == answer(line@, text::debug_form(text::trimmed(line@))),
        MAX_LINE == 64,
        REQUEST_TIMEOUT_MS == 2000,
{
    requests_are_understood(*cmd);
}

/// The control socket lies in the runtime directory where that is set, else in
/// /tmp with the user id in its name.
pub proof fn where_the_control_socket_lies(
    runtime_dir_set: bool,
    uid: u32,
    path: Vec<PathPart>,
    status: Option<&str>,
    id: u32,
)
    requires
        call_ensures(socket_path, (runtime_dir_set, uid), path),
        call_ensures(parse_uid, (status,), id),
    ensures
        runtime_dir_set ==> path@.len() == 2 && path@[0]@ == paths::Part::Var("XDG_RUNTIME_DIR"@)
            && path@[1]@ == paths::Part::Name("swtchr.sock"@),
        !runtime_dir_set ==> path@.len() == 1 && path@[0]@ == paths::Part::Name(
            "/tmp/swtchr-"@ + text::decimal(uid as nat) + ".sock"@,
        ),
        status is None ==> id == 0,
        status matches Some(s) ==> id == status_uid(Some(s@)),
{
    let m = paths::parts(path@);
    assert(m.len() == path@.len());
    if runtime_dir_set {
        assert(m[0] == path@[0]@ && m[1] == path@[1]@);
    } else {
        assert(m[0] == path@[0]@);
    }
}

/// The model of a response has what the response has, and a line is answered as
/// `answer` says.
pub proof fn the_model_has_what_the_response_has(
    s: String,
    line: &str,
    shown: &str,
    r: Response,
)
    requires
        call_ensures(answer_line, (line, shown), r),
    ensures
        Response::Refuse(s)@ == Answer::Refuse(s@),
        Response::Reply(s)@ == Answer::Reply(s@),
        Response::QueueSwap@ == Answer::QueueSwap,
        r@ == answer(line@, shown@),
{
}

} // verus!
