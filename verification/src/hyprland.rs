//! The text side of Hyprland's IPC.
//!
//! Two sockets, both under `$XDG_RUNTIME_DIR/hypr/$HYPRLAND_INSTANCE_SIGNATURE/`:
//! - `.socket.sock`: request/response. Used to dispatch `switchxkblayout` and
//!   to query `getoption`.
//! - `.socket2.sock`: line-delimited event stream `EVENT>>DATA\n`.

use vstd::prelude::*;

use crate::error::Error;
use crate::paths;
use crate::paths::{name_part, var_part, PathPart};
use crate::text;
use crate::text::{
    append_decimal, chars_of, find_from, find_line, len_without_newlines, same_text, string_between,
    trim,
};

verus! {

#[derive(Debug, Clone)]
pub enum HyprEvent {
    /// Layout (xkb group) changed on a specific keyboard. The payload is the
    /// human-readable layout name, forwarded raw.
    ActiveLayout { keyboard: String, layout_name: String },
    /// Active window changed: a buffer-reset signal.
    ActiveWindow,
}

/// The model of an event.
pub enum Event {
    ActiveLayout { keyboard: Seq<char>, layout_name: Seq<char> },
    ActiveWindow,
}

impl View for HyprEvent {
    type V = Event;

    open spec fn view(&self) -> Event {
        match self {
            HyprEvent::ActiveLayout { keyboard, layout_name } => Event::ActiveLayout {
                keyboard: keyboard@,
                layout_name: layout_name@,
            },
            HyprEvent::ActiveWindow => Event::ActiveWindow,
        }
    }
}

/// The position of the first `>>`, or the length of `s` if there is none.
pub open spec fn find_arrow(s: Seq<char>) -> int
    decreases s.len(),
{
    if s.len() < 2 {
        s.len() as int
    } else if s[0] == '>' && s[1] == '>' {
        0
    } else {
        1 + find_arrow(s.drop_first())
    }
}

proof fn find_arrow_is(s: Seq<char>, k: int)
    requires
        0 <= k <= s.len(),
        forall|j: int| 0 <= j < k && j + 1 < s.len() ==> !(#[trigger] s[j] == '>' && s[j + 1] == '>'),
        k < s.len() ==> k + 1 < s.len() && s[k] == '>' && s[k + 1] == '>',
    ensures
        find_arrow(s) == k,
    decreases s.len(),
{
    if s.len() >= 2 {
        let t = s.drop_first();
        if k > 0 {
            assert(!(s[0] == '>' && s[1] == '>'));
            assert forall|j: int| 0 <= j < k - 1 && j + 1 < t.len() implies !(#[trigger] t[j] == '>'
                && t[j + 1] == '>') by {
                assert(t[j] == s[j + 1]);
                assert(t[j + 1] == s[j + 2]);
            }
            if k < s.len() {
                assert(t[k - 1] == s[k]);
                assert(t[k] == s[k + 1]);
            }
            find_arrow_is(t, k - 1);
        }
    }
}

/// The event that a line of the stream stands for, if it is of interest.
pub open spec fn line_event(line: Seq<char>) -> Option<Event> {
    let s = text::without_final_newlines(line);
    let k = find_arrow(s);
    let name = s.take(k);
    let data = s.skip(k + 2);
    let comma = text::find_char(data, ',');
    if k >= s.len() {
        None
    } else if name == "activelayout"@ {
        Some(
            Event::ActiveLayout {
                keyboard: data.take(comma),
                layout_name: if comma < data.len() {
                    data.skip(comma + 1)
                } else {
                    Seq::empty()
                },
            },
        )
    } else if name == "activewindow"@ || name == "activewindowv2"@ {
        Some(Event::ActiveWindow)
    } else {
        None
    }
}

/// The value in the plain form of a `getoption` response, e.g. `str: us,ru`:
/// what stands on the first line that begins with `str: `.
pub open spec fn option_value(raw: Seq<char>, fallback: Seq<char>) -> Seq<char> {
    match text::line_after(text::split_on(raw, '\n'), "str: "@) {
        Some(rest) => text::trimmed(rest),
        None => fallback,
    }
}

fn read_option(raw: &str, fallback: &str) -> (r: String)
    ensures
        r@ == option_value(raw@, fallback@),
{
    match find_line(raw, "str: ") {
        Some(rest) => trim(rest.as_str()).to_owned(),
        None => fallback.to_owned(),
    }
}

/// Both variables that locate the sockets must be set.
fn check_session(signature_set: bool, runtime_dir_set: bool) -> (r: Result<(), Error>)
    ensures
        match r {
            Ok(_) => signature_set && runtime_dir_set,
            Err(e) => e matches Error::Evdev(m) && if !signature_set {
                m@
                    == "HYPRLAND_INSTANCE_SIGNATURE not set — is this running inside a Hyprland session?"@
            } else {
                !runtime_dir_set && m@ == "XDG_RUNTIME_DIR not set"@
            },
        },
{
    if !signature_set {
        return Err(
            Error::Evdev(
                "HYPRLAND_INSTANCE_SIGNATURE not set — is this running inside a Hyprland session?".to_owned(),
            ),
        );
    }
    if !runtime_dir_set {
        return Err(Error::Evdev("XDG_RUNTIME_DIR not set".to_owned()));
    }
    Ok(())
}

/// The path of one of the two sockets.
pub open spec fn session_socket(file: Seq<char>) -> Seq<paths::Part> {
    seq![
        paths::Part::Var("XDG_RUNTIME_DIR"@),
        paths::Part::Name("hypr"@),
        paths::Part::Var("HYPRLAND_INSTANCE_SIGNATURE"@),
        paths::Part::Name(file),
    ]
}

/// What the path of a socket is, or why there is none.
pub open spec fn socket_outcome(
    r: Result<Vec<PathPart>, Error>,
    signature_set: bool,
    runtime_dir_set: bool,
    file: Seq<char>,
) -> bool {
    match r {
        Ok(p) => signature_set && runtime_dir_set && paths::parts(p@) == session_socket(file),
        Err(e) => e matches Error::Evdev(m) && if !signature_set {
            m@
                == "HYPRLAND_INSTANCE_SIGNATURE not set — is this running inside a Hyprland session?"@
        } else {
            !runtime_dir_set && m@ == "XDG_RUNTIME_DIR not set"@
        },
    }
}

fn socket_in_session(file: &str, signature_set: bool, runtime_dir_set: bool) -> (r: Result<
    Vec<PathPart>,
    Error,
>)
    ensures
        socket_outcome(r, signature_set, runtime_dir_set, file@),
{
    match check_session(signature_set, runtime_dir_set) {
        Ok(_) => {
            let mut out: Vec<PathPart> = Vec::new();
            out.push(var_part("XDG_RUNTIME_DIR"));
            out.push(name_part("hypr"));
            out.push(var_part("HYPRLAND_INSTANCE_SIGNATURE"));
            out.push(name_part(file));
            assert(paths::parts(out@) == session_socket(file@));
            Ok(out)
        },
        Err(e) => Err(e),
    }
}

/// Hyprland's requests and responses.
pub struct HyprIpc;

impl HyprIpc {
    /// The request socket, given which variables are set.
    pub fn socket_path(signature_set: bool, runtime_dir_set: bool) -> (r: Result<
        Vec<PathPart>,
        Error,
    >)
        ensures
            socket_outcome(r, signature_set, runtime_dir_set, ".socket.sock"@),
    {
        socket_in_session(".socket.sock", signature_set, runtime_dir_set)
    }

    /// The event socket, given which variables are set.
    pub fn event_socket_path(signature_set: bool, runtime_dir_set: bool) -> (r: Result<
        Vec<PathPart>,
        Error,
    >)
        ensures
            socket_outcome(r, signature_set, runtime_dir_set, ".socket2.sock"@),
    {
        socket_in_session(".socket2.sock", signature_set, runtime_dir_set)
    }

    /// The request that pins every keyboard to layout group `idx`. An absolute
    /// index, because a relative cycle moves each keyboard independently, and
    /// keyboards that have drifted out of sync would stay so.
    pub fn switch_layout_to(idx: u32) -> (r: String)
        ensures
            r@ == "switchxkblayout all "@ + text::decimal(idx as nat),
    {
        let mut cmd = "switchxkblayout all ".to_owned();
        append_decimal(&mut cmd, idx);
        cmd
    }

    /// The request for the configured layout list.
    pub fn layouts_request() -> (r: &'static str)
        ensures
            r@ == "/getoption input:kb_layout"@,
    {
        "/getoption input:kb_layout"
    }

    /// The request for the configured variant list.
    pub fn variants_request() -> (r: &'static str)
        ensures
            r@ == "/getoption input:kb_variant"@,
    {
        "/getoption input:kb_variant"
    }

    /// The comma-separated list of layouts in a response ("us,ru"); "us" if it
    /// holds none.
    pub fn get_layouts(raw: &str) -> (r: String)
        ensures
            r@ == option_value(raw@, "us"@),
    {
        read_option(raw, "us")
    }

    /// The comma-separated list of variants in a response; empty if it holds
    /// none.
    pub fn get_variants(raw: &str) -> (r: String)
        ensures
            r@ == option_value(raw@, Seq::empty()),
    {
        proof {
            reveal_strlit("");
        }
        assert(""@ == Seq::<char>::empty());
        read_option(raw, "")
    }
}

/// Reads one line of the event stream.
pub fn parse_event(line: &str) -> (r: Option<HyprEvent>)
    ensures
        match r {
            Some(e) => line_event(line@) == Some(e@),
            None => line_event(line@) is None,
        },
{
    let chars = chars_of(line);
    let n: usize = len_without_newlines(chars.as_slice());
    let ghost s = text::without_final_newlines(line@);
    let mut k: usize = 0;
    while k < n && !(n - k >= 2 && chars[k] == '>' && chars[k + 1] == '>')
        invariant
            k <= n <= chars.len(),
            s == chars@.take(n as int),
            forall|j: int|
                0 <= j < k && j + 1 < s.len() ==> !(#[trigger] s[j] == '>' && s[j + 1] == '>'),
        decreases n - k,
    {
        k = k + 1;
    }
    proof {
        find_arrow_is(s, k as int);
    }
    if k >= n {
        return None;
    }
    let name = string_between(chars.as_slice(), 0, k);
    assert(name@ == s.take(k as int));
    if same_text(name.as_str(), "activelayout") {
        let ghost data = s.skip(k + 2);
        let body = string_between(chars.as_slice(), k + 2, n);
        assert(body@ == data);
        let payload = chars_of(body.as_str());
        assert(payload@.subrange(0, payload@.len() as int) == data);
        let comma: usize = find_from(payload.as_slice(), ',', 0);
        let keyboard = string_between(payload.as_slice(), 0, comma);
        let layout_name = if comma < payload.len() {
            string_between(payload.as_slice(), comma + 1, payload.len())
        } else {
            String::new()
        };
        assert(keyboard@ == data.take(comma as int));
        assert(comma < data.len() ==> layout_name@ == data.skip(comma + 1));
        return Some(HyprEvent::ActiveLayout { keyboard, layout_name });
    }
    if same_text(name.as_str(), "activewindow") || same_text(name.as_str(), "activewindowv2") {
        return Some(HyprEvent::ActiveWindow);
    }
    None
}

/// First wait before the event stream is connected to again, in milliseconds.
pub const FIRST_BACKOFF_MS: u64 = 200;

/// The longest such wait.
pub const MAX_BACKOFF_MS: u64 = 5000;

/// Each wait is twice the one before, up to the longest.
pub fn next_backoff(ms: u64) -> (r: u64)
    ensures
        r as int == if 2 * ms <= MAX_BACKOFF_MS {
            2 * ms
        } else {
            MAX_BACKOFF_MS as int
        },
{
    if ms <= MAX_BACKOFF_MS / 2 {
        2 * ms
    } else {
        MAX_BACKOFF_MS
    }
}

/// A layout event round-trips: written in the stream's format, it is read back
/// with the same keyboard and the same layout name.
pub proof fn layout_events_are_read_back(keyboard: Seq<char>, layout_name: Seq<char>)
    requires
        forall|i: int| 0 <= i < keyboard.len() ==> #[trigger] keyboard[i] != ',',
        layout_name.len() > 0 ==> layout_name.last() != '\n',
    ensures
        line_event("activelayout>>"@ + keyboard + ","@ + layout_name + "\n"@) == Some(
            Event::ActiveLayout { keyboard, layout_name },
        ),
{
    reveal_strlit("activelayout>>");
    reveal_strlit("activelayout");
    reveal_strlit(",");
    reveal_strlit("\n");
    let line = "activelayout>>"@ + keyboard + ","@ + layout_name + "\n"@;
    let s = "activelayout>>"@ + keyboard + ","@ + layout_name;
    assert(line.drop_last() == s);
    assert(s.last() != '\n');
    assert(text::without_final_newlines(line) == text::without_final_newlines(s));
    assert(text::without_final_newlines(s) == s);
    assert forall|j: int| 0 <= j < 12 && j + 1 < s.len() implies !(#[trigger] s[j] == '>' && s[j + 1]
        == '>') by {
        assert(s[j] == "activelayout>>"@[j]);
    }
    find_arrow_is(s, 12);
    assert(s.take(12) == "activelayout"@);
    let data = s.skip(14);
    assert(data == keyboard + ","@ + layout_name);
    text::find_char_bounds(data, ',');
    let c = text::find_char(data, ',');
    assert(data[keyboard.len() as int] == ',');
    assert(c <= keyboard.len()) by {
        if c > keyboard.len() {
            assert(data[keyboard.len() as int] != ',');
        }
    }
    assert(c == keyboard.len()) by {
        if c < keyboard.len() {
            assert(data[c] == keyboard[c]);
        }
    }
    assert(data.take(c) == keyboard);
    assert(data.skip(c + 1) == layout_name);
}

/// A line of the stream is a name, the first arrow in it, and data; line feeds at
/// its end do not count. The names activewindow and activewindowv2 announce a
/// window, the name activelayout a layout: the keyboard stands in front of the
/// first comma and the layout behind it. Any other name is of no interest.
pub proof fn lines_are_read_by_their_name(
    name: Seq<char>,
    data: Seq<char>,
    keyboard: Seq<char>,
    layout_name: Seq<char>,
    line: Seq<char>,
)
    requires
        text::without_final_newlines(line) == name + seq!['>', '>'] + data,
        forall|j: int| 0 <= j < name.len() ==> !(#[trigger] name[j] == '>' && (j + 1 == name.len()
            || name[j + 1] == '>')),
        forall|i: int| 0 <= i < keyboard.len() ==> #[trigger] keyboard[i] != ',',
    ensures
        name == "activewindow"@ || name == "activewindowv2"@ ==> line_event(line) == Some(
            Event::ActiveWindow,
        ),
        name == "activelayout"@ && data == keyboard + seq![','] + layout_name ==> line_event(line)
            == Some(Event::ActiveLayout { keyboard, layout_name }),
        name == "activelayout"@ && data == keyboard ==> line_event(line) == Some(
            Event::ActiveLayout { keyboard, layout_name: Seq::empty() },
        ),
        name != "activewindow"@ && name != "activewindowv2"@ && name != "activelayout"@
            ==> line_event(line) is None,
{
    reveal_strlit("activewindow");
    reveal_strlit("activewindowv2");
    reveal_strlit("activelayout");
    assert("activelayout"@[6] != "activewindow"@[6]);
    assert("activelayout"@[6] != "activewindowv2"@[6]);
    let s = text::without_final_newlines(line);
    let n = name.len() as int;
    assert(s[n] == '>' && s[n + 1] == '>');
    assert forall|j: int| 0 <= j < n && j + 1 < s.len() implies !(#[trigger] s[j] == '>' && s[j + 1]
        == '>') by {
        assert(s[j] == name[j]);
        if j + 1 < n {
            assert(s[j + 1] == name[j + 1]);
        }
    }
    find_arrow_is(s, n);
    assert(s.take(n) == name);
    assert(s.skip(n + 2) == data);
    text::find_char_bounds(data, ',');
    let c = text::find_char(data, ',');
    if data == keyboard + seq![','] + layout_name {
        assert(data[keyboard.len() as int] == ',');
        assert(c == keyboard.len()) by {
            if c < keyboard.len() {
                assert(data[c] == keyboard[c]);
            }
        }
        assert(data.take(c) == keyboard);
        assert(data.skip(c + 1) == layout_name);
    }
    if data == keyboard {
        assert(c == data.len()) by {
            if c < data.len() {
                assert(data[c] == keyboard[c]);
            }
        }
        assert(data.take(c) == keyboard);
    }
}

/// A line without an arrow is no event.
pub proof fn lines_without_an_arrow_are_no_events(line: Seq<char>)
    requires
        forall|j: int|
            0 <= j && j + 1 < text::without_final_newlines(line).len() ==> !(
            #[trigger] text::without_final_newlines(line)[j] == '>' && text::without_final_newlines(
                line,
            )[j + 1] == '>'),
    ensures
        line_event(line) is None,
{
    let s = text::without_final_newlines(line);
    find_arrow_is(s, s.len() as int);
}

/// The value of an option is what stands behind `str: ` on the first line that
/// begins so, without the white space around it; where no line does, it is the
/// fallback.
pub proof fn the_first_str_line_holds_the_value(
    raw: Seq<char>,
    fallback: Seq<char>,
    i: int,
    value: Seq<char>,
)
    ensures
        ({
            let lines = text::split_on(raw, '\n');
            &&& 0 <= i < lines.len() && lines[i] == "str: "@ + value && (forall|
                j: int,
                t: Seq<char>,
            |
                0 <= j < i ==> #[trigger] lines[j] != #[trigger] ("str: "@ + t)) ==> option_value(
                raw,
                fallback,
            ) == text::trimmed(value)
            &&& (forall|j: int, t: Seq<char>|
                0 <= j < lines.len() ==> #[trigger] lines[j] != #[trigger] ("str: "@ + t))
                ==> option_value(raw, fallback) == fallback
        }),
{
    let lines = text::split_on(raw, '\n');
    let p = "str: "@;
    text::the_first_line_with_the_prefix_decides(lines, p);
    if 0 <= i < lines.len() && lines[i] == p + value && (forall|j: int, t: Seq<char>|
        0 <= j < i ==> #[trigger] lines[j] != #[trigger] (p + t)) {
        assert(lines[i] == p + value);
        let rest = text::line_after(lines, p)->0;
        let k = choose|k: int|
            {
                &&& 0 <= k < lines.len()
                &&& #[trigger] lines[k] == p + rest
                &&& forall|j: int, t: Seq<char>|
                    0 <= j < k ==> #[trigger] lines[j] != #[trigger] (p + t)
            };
        assert(lines[k] == p + rest);
        assert(k == i);
        assert((p + rest).skip(p.len() as int) == rest);
        assert((p + value).skip(p.len() as int) == value);
    } else if forall|j: int, t: Seq<char>|
        0 <= j < lines.len() ==> #[trigger] lines[j] != #[trigger] (p + t) {
        if text::line_after(lines, p) is Some {
            let rest = text::line_after(lines, p)->0;
            let k = choose|k: int|
                {
                    &&& 0 <= k < lines.len()
                    &&& #[trigger] lines[k] == p + rest
                    &&& forall|j: int, t: Seq<char>|
                        0 <= j < k ==> #[trigger] lines[j] != #[trigger] (p + t)
                };
            assert(lines[k] != p + rest);
        }
    }
}

/// The path of a socket is owed exactly if both variables are set; it lies in the
/// directory of the session. Without the signature the message is about that,
/// whether or not the other variable is set.
pub proof fn sockets_need_both_variables(
    r: Result<Vec<PathPart>, Error>,
    signature_set: bool,
    runtime_dir_set: bool,
    file: Seq<char>,
)
    requires
        socket_outcome(r, signature_set, runtime_dir_set, file),
    ensures
        r is Ok <==> signature_set && runtime_dir_set,
        r matches Ok(p) ==> {
            &&& p@.len() == 4
            &&& p@[0]@ == paths::Part::Var("XDG_RUNTIME_DIR"@)
            &&& p@[1]@ == paths::Part::Name("hypr"@)
            &&& p@[2]@ == paths::Part::Var("HYPRLAND_INSTANCE_SIGNATURE"@)
            &&& p@[3]@ == paths::Part::Name(file)
        },
        r matches Err(e) ==> e matches Error::Evdev(m) && m@ == if signature_set {
            "XDG_RUNTIME_DIR not set"@
        } else {
            "HYPRLAND_INSTANCE_SIGNATURE not set — is this running inside a Hyprland session?"@
        },
{
    if r is Ok {
        let p = r->Ok_0@;
        let m = paths::parts(p);
        assert(m.len() == 4);
        assert(m[0] == p[0]@ && m[1] == p[1]@ && m[2] == p[2]@ && m[3] == p[3]@);
    }
}

/// The wait doubles each time up to five seconds, and begins at a fifth of one.
pub proof fn waits_double_up_to_the_longest(ms: u64, r: u64)
    requires
        call_ensures(next_backoff, (ms,), r),
    ensures
        ms <= 2500 ==> r == ms + ms,
        ms >= 2500 ==> r == 5000,
        FIRST_BACKOFF_MS == 200,
        MAX_BACKOFF_MS == 5000,
{
}

/// The requests, word by word, and the answers to them: a list of layouts is "us"
/// where the answer holds none, a list of variants is empty.
pub proof fn requests_word_by_word(
    idx: u32,
    switch: String,
    layouts: &'static str,
    variants: &'static str,
    raw: &str,
    layout_list: String,
    variant_list: String,
)
    requires
        call_ensures(HyprIpc::switch_layout_to, (idx,), switch),
        call_ensures(HyprIpc::layouts_request, (), layouts),
        call_ensures(HyprIpc::variants_request, (), variants),
        call_ensures(HyprIpc::get_layouts, (raw,), layout_list),
        call_ensures(HyprIpc::get_variants, (raw,), variant_list),
    ensures
        switch@ == "switchxkblayout all "@ + text::decimal(idx as nat),
        layouts@ == "/getoption input:kb_layout"@,
        variants@ == "/getoption input:kb_variant"@,
        layout_list@ == option_value(raw@, "us"@),
        variant_list@ == option_value(raw@, Seq::empty()),
{
}

/// The two sockets of a session.
pub proof fn the_sockets_of_a_session(
    signature_set: bool,
    runtime_dir_set: bool,
    requests: Result<Vec<PathPart>, Error>,
    events: Result<Vec<PathPart>, Error>,
    line: &str,
    event: Option<HyprEvent>,
)
    requires
        call_ensures(HyprIpc::socket_path, (signature_set, runtime_dir_set), requests),
        call_ensures(HyprIpc::event_socket_path, (signature_set, runtime_dir_set), events),
        call_ensures(parse_event, (line,), event),
    ensures
        requests is Ok <==> signature_set && runtime_dir_set,
        events is Ok <==> signature_set && runtime_dir_set,
        requests matches Ok(p) ==> paths::parts(p@).last() == paths::Part::Name(".socket.sock"@),
        events matches Ok(p) ==> paths::parts(p@).last() == paths::Part::Name(".socket2.sock"@),
        requests matches Ok(p) ==> events matches Ok(q) && paths::parts(p@).drop_last()
            == paths::parts(q@).drop_last(),
        line_event(line@) is Some <==> event is Some,
        event matches Some(e) ==> line_event(line@) == Some(e@),
{
    sockets_need_both_variables(requests, signature_set, runtime_dir_set, ".socket.sock"@);
    sockets_need_both_variables(events, signature_set, runtime_dir_set, ".socket2.sock"@);
    if signature_set && runtime_dir_set {
        let p = paths::parts(requests->Ok_0@);
        let q = paths::parts(events->Ok_0@);
        assert(p.drop_last() == q.drop_last());
    }
}

/// The model of an event has what the event has.
pub proof fn the_model_has_what_the_event_has(keyboard: String, layout_name: String)
    ensures
        HyprEvent::ActiveWindow@ == Event::ActiveWindow,
        (HyprEvent::ActiveLayout { keyboard, layout_name })@ == (Event::ActiveLayout {
            keyboard: keyboard@,
            layout_name: layout_name@,
        }),
{
}

} // verus!
