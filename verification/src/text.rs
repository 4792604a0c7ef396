//! Character-level helpers shared by every parser in the crate. A string is
//! modelled as the sequence of its characters.

use vstd::prelude::*;
use vstd::string::StrSliceExecFns;

verus! {

// ---------------------------------------------------------------------------
// Character classes
// ---------------------------------------------------------------------------

/// The characters with the Unicode property `White_Space`.
pub open spec fn white_space(c: char) -> bool {
    let u = c as u32;
    ||| 0x09 <= u <= 0x0d
    ||| u == 0x20 || u == 0x85 || u == 0xa0 || u == 0x1680
    ||| 0x2000 <= u <= 0x200a
    ||| u == 0x2028 || u == 0x2029 || u == 0x202f || u == 0x205f || u == 0x3000
}

/// The control characters (general category `Cc`).
pub open spec fn control(c: char) -> bool {
    let u = c as u32;
    u <= 0x1f || 0x7f <= u <= 0x9f
}

pub open spec fn ascii_digit(c: char) -> bool {
    0x30 <= c as u32 <= 0x39
}

pub open spec fn ascii_upper(c: char) -> bool {
    0x41 <= c as u32 <= 0x5a
}

pub open spec fn ascii_alphabetic(c: char) -> bool {
    ascii_upper(c) || 0x61 <= c as u32 <= 0x7a
}

/// `c` with an ASCII capital letter replaced by its small counterpart.
pub open spec fn ascii_lower(c: char) -> u32 {
    if ascii_upper(c) {
        (c as u32 + 0x20) as u32
    } else {
        c as u32
    }
}

/// Different characters have different code points.
pub proof fn code_points_differ(a: char, b: char)
    ensures
        a as u32 == b as u32 ==> a == b,
{
}

/// A character is a Unicode scalar value.
pub proof fn scalar_value(c: char)
    ensures
        0 <= c as int <= 0xd7ff || 0xe000 <= c as int <= 0x10ffff,
{
}

pub fn is_white_space(c: char) -> (r: bool)
    ensures
        r == white_space(c),
{
    let u: u32 = c as u32;
    (0x09 <= u && u <= 0x0d) || u == 0x20 || u == 0x85 || u == 0xa0 || u == 0x1680 || (0x2000 <= u
        && u <= 0x200a) || u == 0x2028 || u == 0x2029 || u == 0x202f || u == 0x205f || u == 0x3000
}

pub fn is_control(c: char) -> (r: bool)
    ensures
        r == control(c),
{
    let u: u32 = c as u32;
    u <= 0x1f || (0x7f <= u && u <= 0x9f)
}

pub fn is_ascii_digit(c: char) -> (r: bool)
    ensures
        r == ascii_digit(c),
{
    let u: u32 = c as u32;
    0x30 <= u && u <= 0x39
}

pub fn is_ascii_upper(c: char) -> (r: bool)
    ensures
        r == ascii_upper(c),
{
    let u: u32 = c as u32;
    0x41 <= u && u <= 0x5a
}

pub fn is_ascii_alphabetic(c: char) -> (r: bool)
    ensures
        r == ascii_alphabetic(c),
{
    let u: u32 = c as u32;
    (0x41 <= u && u <= 0x5a) || (0x61 <= u && u <= 0x7a)
}

fn lower_ascii(c: char) -> (r: u32)
    ensures
        r == ascii_lower(c),
{
    let u: u32 = c as u32;
    if is_ascii_upper(c) {
        u + 0x20
    } else {
        u
    }
}

// ---------------------------------------------------------------------------
// What the standard library decides
// ---------------------------------------------------------------------------

/// `String::push` appends one character at the end.
pub assume_specification[ String::push ](s: &mut String, ch: char)
    ensures
        final(s)@ == old(s)@.push(ch),
;

/// The ASCII characters.
pub open spec fn ascii(c: char) -> bool {
    (c as u32) < 0x80
}

/// A text of ASCII characters.
pub open spec fn ascii_text(s: Seq<char>) -> bool {
    forall|i: int| 0 <= i < s.len() ==> ascii(#[trigger] s[i])
}

/// An ASCII text with its capital letters made small.
pub open spec fn ascii_lower_text(s: Seq<char>) -> Seq<char> {
    s.map_values(|c: char| ascii_lower(c) as char)
}

/// The lowercase form of a text, as the Unicode tables of `str::to_lowercase`
/// give it.
pub uninterp spec fn lowercase(s: Seq<char>) -> Seq<char>;

/// `str::to_lowercase` returns the lowercase form of the text, which depends on
/// the text alone; in an ASCII text it makes the capital letters small and
/// changes nothing else.
pub assume_specification[ str::to_lowercase ](s: &str) -> (r: String)
    ensures
        r@ == lowercase(s@),
        ascii_text(s@) ==> r@ == ascii_lower_text(s@),
;

/// The lowercase form of a text.
pub open spec fn lower_text(s: Seq<char>) -> Seq<char> {
    if ascii_text(s) {
        ascii_lower_text(s)
    } else {
        lowercase(s)
    }
}

pub fn to_lower(s: &str) -> (r: String)
    ensures
        r@ == lower_text(s@),
{
    s.to_lowercase()
}

/// Whether a character has the Unicode property `Alphabetic`.
pub uninterp spec fn alphabetic(c: char) -> bool;

/// `char::is_alphabetic` tests for the Unicode property `Alphabetic`, which
/// depends on the character alone; the ASCII characters that have it are the
/// letters from A to Z in either case.
pub assume_specification[ char::is_alphabetic ](c: char) -> (r: bool)
    ensures
        r == alphabetic(c),
        ascii(c) ==> r == ascii_alphabetic(c),
;

/// The letters of every alphabet.
pub open spec fn letter(c: char) -> bool {
    if ascii(c) {
        ascii_alphabetic(c)
    } else {
        alphabetic(c)
    }
}

pub fn is_letter(c: char) -> (r: bool)
    ensures
        r == letter(c),
{
    c.is_alphabetic()
}

/// The lowercase form of one character: one character or more.
pub uninterp spec fn char_lowercase(c: char) -> Seq<char>;

/// `char::to_lowercase` yields the characters of the lowercase form one by one,
/// here collected into a string. For an ASCII character that is one character:
/// the small letter for a capital one, and the character itself for any other.
#[verifier::external_body]
pub(crate) fn lower_char(c: char) -> (r: String)
    ensures
        r@ == char_lowercase(c),
        ascii(c) ==> r@ == seq![ascii_lower(c) as char],
{
    c.to_lowercase().to_string()
}

/// The lowercase form of a character.
pub open spec fn lower(c: char) -> Seq<char> {
    if ascii(c) {
        seq![ascii_lower(c) as char]
    } else {
        char_lowercase(c)
    }
}

/// A text in quotes, escaped as the `{:?}` form of a string is.
pub uninterp spec fn debug_form(s: Seq<char>) -> Seq<char>;

/// Formats with `{:?}`: `<str as Debug>::fmt`, whose output depends on the text
/// alone. A line feed in the text is escaped, so the output holds none.
#[verifier::external_body]
pub(crate) fn quoted(s: &str) -> (r: String)
    ensures
        r@ == debug_form(s@),
        forall|i: int| 0 <= i < r@.len() ==> #[trigger] r@[i] != '\n',
{
    format!("{:?}", s)
}

/// The text of a byte string in which every malformed UTF-8 sequence is
/// replaced by U+FFFD.
pub uninterp spec fn lossy_text(bytes: Seq<u8>) -> Seq<char>;

/// `String::from_utf8_lossy` decodes UTF-8, replacing what is malformed; the
/// outcome depends on the bytes alone, and where they are well-formed it is the
/// text that they encode.
#[verifier::external_body]
pub(crate) fn decode_lossy(bytes: &[u8]) -> (r: String)
    ensures
        r@ == lossy_text(bytes@),
        vstd::utf8::valid_utf8(bytes@) ==> r@ == vstd::utf8::decode_utf8(bytes@),
{
    String::from_utf8_lossy(bytes).into_owned()
}

// ---------------------------------------------------------------------------
// Conversions and comparison
// ---------------------------------------------------------------------------

/// The characters of a string, in order.
pub fn chars_of(s: &str) -> (out: Vec<char>)
    ensures
        out@ == s@,
{
    let mut out: Vec<char> = Vec::new();
    for c in iter: s.chars()
        invariant
            iter.seq() == s@,
            out@ == s@.take(iter.index() as int),
    {
        assert(s@.take(iter.index() + 1) == s@.take(iter.index() as int).push(c));
        out.push(c);
    }
    out
}

/// The string made of the characters from `from` up to `to`.
pub fn string_between(chars: &[char], from: usize, to: usize) -> (out: String)
    requires
        from <= to <= chars.len(),
    ensures
        out@ == chars@.subrange(from as int, to as int),
{
    let mut out = String::new();
    let mut i: usize = from;
    while i < to
        invariant
            from <= i <= to <= chars.len(),
            out@ == chars@.subrange(from as int, i as int),
        decreases to - i,
    {
        out.push(chars[i]);
        i = i + 1;
    }
    out
}

/// Whether two texts are the same.
pub fn same_text(a: &str, b: &str) -> (r: bool)
    ensures
        r == (a@ == b@),
{
    let x = chars_of(a);
    let y = chars_of(b);
    if x.len() != y.len() {
        return false;
    }
    let mut i: usize = 0;
    while i < x.len()
        invariant
            i <= x.len(),
            x@.len() == y@.len(),
            x@ == a@,
            y@ == b@,
            x@.take(i as int) == y@.take(i as int),
        decreases x.len() - i,
    {
        if x[i] != y[i] {
            assert(x@[i as int] != y@[i as int]);
            return false;
        }
        i = i + 1;
    }
    assert(x@.take(i as int) == a@ && y@.take(i as int) == b@);
    true
}

/// Two texts that differ at most in the case of ASCII letters.
pub open spec fn same_ignoring_ascii_case(a: Seq<char>, b: Seq<char>) -> bool {
    &&& a.len() == b.len()
    &&& forall|i: int| 0 <= i < a.len() ==> #[trigger] ascii_lower(a[i]) == ascii_lower(b[i])
}

pub fn eq_ignore_ascii_case(a: &str, b: &str) -> (r: bool)
    ensures
        r == same_ignoring_ascii_case(a@, b@),
{
    let x = chars_of(a);
    let y = chars_of(b);
    if x.len() != y.len() {
        return false;
    }
    let mut i: usize = 0;
    while i < x.len()
        invariant
            i <= x.len(),
            x@.len() == y@.len(),
            x@ == a@,
            y@ == b@,
            forall|j: int| 0 <= j < i ==> #[trigger] ascii_lower(a@[j]) == ascii_lower(b@[j]),
        decreases x.len() - i,
    {
        if lower_ascii(x[i]) != lower_ascii(y[i]) {
            assert(ascii_lower(a@[i as int]) != ascii_lower(b@[i as int]));
            return false;
        }
        i = i + 1;
    }
    true
}

/// Appends a text to a string under construction.
pub fn append(out: &mut String, more: &str)
    ensures
        final(out)@ == old(out)@ + more@,
{
    for c in iter: more.chars()
        invariant
            iter.seq() == more@,
            out@ == old(out)@ + more@.take(iter.index() as int),
    {
        assert(more@.take(iter.index() + 1) == more@.take(iter.index() as int).push(c));
        out.push(c);
    }
}

// ---------------------------------------------------------------------------
// Trimming
// ---------------------------------------------------------------------------

/// A text without its leading white space.
pub open spec fn trim_front(s: Seq<char>) -> Seq<char>
    decreases s.len(),
{
    if s.len() > 0 && white_space(s[0]) {
        trim_front(s.drop_first())
    } else {
        s
    }
}

/// A text without its trailing white space.
pub open spec fn trim_back(s: Seq<char>) -> Seq<char>
    decreases s.len(),
{
    if s.len() > 0 && white_space(s.last()) {
        trim_back(s.drop_last())
    } else {
        s
    }
}

/// A text without the white space around it.
pub open spec fn trimmed(s: Seq<char>) -> Seq<char> {
    trim_back(trim_front(s))
}

/// Where the text without surrounding white space lies in `chars`.
pub fn trim_range(chars: &[char]) -> (r: (usize, usize))
    ensures
        r.0 <= r.1 <= chars.len(),
        chars@.subrange(r.0 as int, r.1 as int) == trimmed(chars@),
{
    let n: usize = chars.len();
    let mut a: usize = 0;
    assert(chars@.subrange(0, n as int) == chars@);
    while a < n && is_white_space(chars[a])
        invariant
            a <= n == chars.len(),
            trim_front(chars@) == trim_front(chars@.subrange(a as int, n as int)),
        decreases n - a,
    {
        let ghost rest = chars@.subrange(a as int, n as int);
        assert(rest.drop_first() == chars@.subrange(a + 1, n as int));
        a = a + 1;
    }
    let mut b: usize = n;
    while b > a && is_white_space(chars[b - 1])
        invariant
            a <= b <= n == chars.len(),
            trimmed(chars@) == trim_back(chars@.subrange(a as int, b as int)),
        decreases b - a,
    {
        let ghost rest = chars@.subrange(a as int, b as int);
        assert(rest.drop_last() == chars@.subrange(a as int, b - 1));
        b = b - 1;
    }
    (a, b)
}

/// The text without the white space around it.
pub fn trim(s: &str) -> (r: &str)
    ensures
        r@ == trimmed(s@),
{
    let chars = chars_of(s);
    let (a, b) = trim_range(chars.as_slice());
    s.substring_char(a, b)
}

/// What trimming leaves neither begins nor ends with white space.
pub proof fn trimmed_has_bare_ends(s: Seq<char>)
    ensures
        trimmed(s).len() > 0 ==> !white_space(trimmed(s)[0]) && !white_space(trimmed(s).last()),
{
    trim_front_bare(s);
    trim_back_bare(trim_front(s));
}

proof fn trim_front_bare(s: Seq<char>)
    ensures
        trim_front(s).len() > 0 ==> !white_space(trim_front(s)[0]),
    decreases s.len(),
{
    if s.len() > 0 && white_space(s[0]) {
        trim_front_bare(s.drop_first());
    }
}

proof fn trim_back_bare(s: Seq<char>)
    ensures
        trim_back(s).len() > 0 ==> !white_space(trim_back(s).last()) && trim_back(s)[0] == s[0],
    decreases s.len(),
{
    if s.len() > 0 && white_space(s.last()) {
        trim_back_bare(s.drop_last());
    }
}

/// Trimming leaves a text alone whose two ends are not white space.
pub proof fn trimmed_of_bare(s: Seq<char>)
    requires
        s.len() > 0,
        !white_space(s[0]),
        !white_space(s.last()),
    ensures
        trimmed(s) == s,
{
}

// ---------------------------------------------------------------------------
// Searching and splitting
// ---------------------------------------------------------------------------

/// The position of the first `c` in `s`, or the length of `s` if there is none.
pub open spec fn find_char(s: Seq<char>, c: char) -> int
    decreases s.len(),
{
    if s.len() == 0 || s[0] == c {
        0
    } else {
        1 + find_char(s.drop_first(), c)
    }
}

pub proof fn find_char_bounds(s: Seq<char>, c: char)
    ensures
        0 <= find_char(s, c) <= s.len(),
        find_char(s, c) < s.len() ==> s[find_char(s, c)] == c,
        forall|j: int| 0 <= j < find_char(s, c) ==> s[j] != c,
    decreases s.len(),
{
    if s.len() == 0 || s[0] == c {
    } else {
        let t = s.drop_first();
        find_char_bounds(t, c);
        assert forall|j: int| 0 <= j < find_char(s, c) implies s[j] != c by {
            if j > 0 {
                assert(t[j - 1] == s[j]);
            }
        }
    }
}

proof fn find_char_unique(s: Seq<char>, c: char, k: int)
    requires
        0 <= k <= s.len(),
        k < s.len() ==> s[k] == c,
        forall|j: int| 0 <= j < k ==> s[j] != c,
    ensures
        find_char(s, c) == k,
{
    find_char_bounds(s, c);
    let f = find_char(s, c);
    if f < k {
        assert(s[f] != c);
    } else if k < f {
        assert(s[k] != c);
    }
}

/// The position of the first `c` at or after `from`, counted from the start of
/// `chars`; the length of `chars` if there is none.
pub fn find_from(chars: &[char], c: char, from: usize) -> (r: usize)
    requires
        from <= chars.len(),
    ensures
        from <= r <= chars.len(),
        r - from == find_char(chars@.subrange(from as int, chars@.len() as int), c),
{
    let ghost rest = chars@.subrange(from as int, chars@.len() as int);
    let mut i: usize = from;
    while i < chars.len() && chars[i] != c
        invariant
            from <= i <= chars.len(),
            forall|j: int| from <= j < i ==> chars@[j] != c,
        decreases chars.len() - i,
    {
        i = i + 1;
    }
    proof {
        assert forall|j: int| 0 <= j < i - from implies rest[j] != c by {
            assert(chars@[j + from] != c);
        }
        find_char_unique(rest, c, i - from);
    }
    i
}

/// The pieces of `s` between the occurrences of `sep`: always one piece more
/// than there are separators.
pub open spec fn split_on(s: Seq<char>, sep: char) -> Seq<Seq<char>>
    decreases s.len(),
    via split_on_decreases
{
    let k = find_char(s, sep);
    if k >= s.len() {
        seq![s]
    } else {
        seq![s.take(k)] + split_on(s.skip(k + 1), sep)
    }
}

#[via_fn]
proof fn split_on_decreases(s: Seq<char>, sep: char) {
    find_char_bounds(s, sep);
}

/// The pieces of a comma-separated list, each without surrounding white space.
pub open spec fn list_items(s: Seq<char>) -> Seq<Seq<char>> {
    split_on(s, ',').map_values(|p: Seq<char>| trimmed(p))
}

proof fn split_on_len(s: Seq<char>, sep: char)
    ensures
        1 <= split_on(s, sep).len() <= s.len() + 1,
    decreases s.len(),
{
    find_char_bounds(s, sep);
    let k = find_char(s, sep);
    if k < s.len() {
        split_on_len(s.skip(k + 1), sep);
    }
}

/// A list has one item at least and at most one more than it has characters.
pub proof fn list_items_len(s: Seq<char>)
    ensures
        1 <= list_items(s).len() <= s.len() + 1,
{
    split_on_len(s, ',');
}

/// The views of a vector of strings.
pub open spec fn views(v: Seq<String>) -> Seq<Seq<char>> {
    v.map_values(|s: String| s@)
}

/// Splits a comma-separated list and trims each item.
pub fn split_list(s: &str) -> (out: Vec<String>)
    ensures
        views(out@) == list_items(s@),
{
    let chars = chars_of(s);
    let mut out: Vec<String> = Vec::new();
    let mut start: usize = 0;
    let ghost whole = split_on(s@, ',');
    assert(chars@.subrange(0, chars@.len() as int) == s@);
    loop
        invariant_except_break
            start <= chars.len(),
            chars@ == s@,
            whole == split_on(s@, ','),
            out@.len() <= whole.len(),
            whole.skip(out@.len() as int) == split_on(
                chars@.subrange(start as int, chars@.len() as int),
                ',',
            ),
            forall|j: int| 0 <= j < out@.len() ==> (#[trigger] out@[j])@ == trimmed(whole[j]),
        ensures
            out@.len() == whole.len(),
            forall|j: int| 0 <= j < out@.len() ==> (#[trigger] out@[j])@ == trimmed(whole[j]),
        decreases chars.len() - start + 1,
    {
        let ghost rest = chars@.subrange(start as int, chars@.len() as int);
        let ghost done = out@.len() as int;
        let end: usize = find_from(chars.as_slice(), ',', start);
        let piece = string_between(chars.as_slice(), start, end);
        let item = trim(piece.as_str()).to_owned();
        proof {
            assert(rest.take(end - start) == chars@.subrange(start as int, end as int));
            split_on_len(rest, ',');
            assert(whole.skip(done)[0] == whole[done]);
            assert(piece@ == whole[done]) by {
                if end - start >= rest.len() {
                    assert(rest.take(end - start) == rest);
                }
            }
            assert(whole.skip(done + 1) == whole.skip(done).skip(1));
        }
        out.push(item);
        if end >= chars.len() {
            proof {
                assert(whole.skip(done) == seq![rest]);
            }
            break;
        }
        proof {
            assert(rest.skip(end - start + 1) == chars@.subrange(end + 1, chars@.len() as int));
            let tail = split_on(rest.skip(end - start + 1), ',');
            assert(split_on(rest, ',') == seq![rest.take(end - start)] + tail);
            assert((seq![rest.take(end - start)] + tail).skip(1) == tail);
        }
        start = end + 1;
    }
    assert(views(out@) == list_items(s@));
    out
}

/// The position of the first text in a list that equals `s`.
pub open spec fn first_position(list: Seq<Seq<char>>, s: Seq<char>) -> Option<int>
    decreases list.len(),
{
    if list.len() == 0 {
        None
    } else if list[0] == s {
        Some(0)
    } else {
        match first_position(list.drop_first(), s) {
            Some(i) => Some(i + 1),
            None => None,
        }
    }
}

proof fn first_position_is(list: Seq<Seq<char>>, s: Seq<char>, k: int)
    requires
        0 <= k <= list.len(),
        forall|j: int| 0 <= j < k ==> #[trigger] list[j] != s,
        k < list.len() ==> list[k] == s,
    ensures
        first_position(list, s) == if k < list.len() {
            Some(k)
        } else {
            None
        },
    decreases k,
{
    if k > 0 {
        let rest = list.drop_first();
        assert forall|j: int| 0 <= j < k - 1 implies #[trigger] rest[j] != s by {
            assert(rest[j] == list[j + 1]);
        }
        assert(list[0] != s);
        first_position_is(rest, s, k - 1);
    }
}

/// A position that is found is one where the text stands, and the first such.
pub proof fn first_position_found(list: Seq<Seq<char>>, s: Seq<char>)
    ensures
        match first_position(list, s) {
            Some(i) => 0 <= i < list.len() && list[i] == s && forall|j: int|
                0 <= j < i ==> #[trigger] list[j] != s,
            None => forall|j: int| 0 <= j < list.len() ==> #[trigger] list[j] != s,
        },
    decreases list.len(),
{
    if list.len() > 0 && list[0] != s {
        let rest = list.drop_first();
        first_position_found(rest, s);
        assert forall|j: int| 1 <= j < list.len() implies #[trigger] list[j] == rest[j - 1] by {}
    }
}

/// The position of the first string that equals `s`.
pub fn position(list: &Vec<String>, s: &str) -> (r: Option<usize>)
    ensures
        match r {
            Some(i) => i < list@.len() && first_position(views(list@), s@) == Some(i as int),
            None => first_position(views(list@), s@) is None,
        },
{
    let ghost all = views(list@);
    let mut i: usize = 0;
    while i < list.len()
        invariant
            i <= list.len(),
            all == views(list@),
            forall|j: int| 0 <= j < i ==> #[trigger] all[j] != s@,
        decreases list.len() - i,
    {
        if same_text(list[i].as_str(), s) {
            proof {
                assert(all[i as int] == s@);
                first_position_is(all, s@, i as int);
            }
            return Some(i);
        }
        assert(all[i as int] != s@);
        i = i + 1;
    }
    proof {
        first_position_is(all, s@, i as int);
    }
    None
}

/// A text without the line feeds at its end.
pub open spec fn without_final_newlines(s: Seq<char>) -> Seq<char>
    decreases s.len(),
{
    if s.len() > 0 && s.last() == '\n' {
        without_final_newlines(s.drop_last())
    } else {
        s
    }
}

/// How many characters are left without the line feeds at the end.
pub fn len_without_newlines(chars: &[char]) -> (n: usize)
    ensures
        n <= chars.len(),
        chars@.take(n as int) == without_final_newlines(chars@),
{
    let mut n: usize = chars.len();
    assert(chars@.take(n as int) == chars@);
    while n > 0 && chars[n - 1] == '\n'
        invariant
            n <= chars.len(),
            without_final_newlines(chars@.take(n as int)) == without_final_newlines(chars@),
        decreases n,
    {
        assert(chars@.take(n as int).drop_last() == chars@.take(n - 1));
        n = n - 1;
    }
    n
}

/// Whether `s` begins with `p`.
pub open spec fn begins_with(s: Seq<char>, p: Seq<char>) -> bool {
    p.len() <= s.len() && s.take(p.len() as int) == p
}

/// Whether the characters begin with the given text.
pub fn starts_with(chars: &[char], p: &str) -> (r: bool)
    ensures
        r == begins_with(chars@, p@),
{
    let want = chars_of(p);
    if want.len() > chars.len() {
        return false;
    }
    let mut i: usize = 0;
    while i < want.len()
        invariant
            i <= want.len() <= chars.len(),
            want@ == p@,
            chars@.take(i as int) == want@.take(i as int),
        decreases want.len() - i,
    {
        if chars[i] != want[i] {
            assert(chars@.take(p@.len() as int)[i as int] != p@[i as int]);
            return false;
        }
        i = i + 1;
    }
    assert(chars@.take(p@.len() as int) == p@);
    true
}

/// What follows the prefix on the first of some lines that begins with it.
pub open spec fn line_after(lines: Seq<Seq<char>>, prefix: Seq<char>) -> Option<Seq<char>>
    decreases lines.len(),
{
    if lines.len() == 0 {
        None
    } else if begins_with(lines[0], prefix) {
        Some(lines[0].skip(prefix.len() as int))
    } else {
        line_after(lines.drop_first(), prefix)
    }
}

/// What follows the prefix on the first line of a text that begins with it.
pub fn find_line(raw: &str, prefix: &str) -> (r: Option<String>)
    ensures
        match r {
            Some(rest) => line_after(split_on(raw@, '\n'), prefix@) == Some(rest@),
            None => line_after(split_on(raw@, '\n'), prefix@) is None,
        },
{
    let chars = chars_of(raw);
    let skipped: usize = chars_of(prefix).len();
    let mut start: usize = 0;
    assert(chars@.subrange(0, chars@.len() as int) == raw@);
    loop
        invariant
            start <= chars.len(),
            skipped == prefix@.len(),
            line_after(split_on(raw@, '\n'), prefix@) == line_after(
                split_on(chars@.subrange(start as int, chars@.len() as int), '\n'),
                prefix@,
            ),
        decreases chars.len() - start,
    {
        let ghost rest = chars@.subrange(start as int, chars@.len() as int);
        let ghost pieces = split_on(rest, '\n');
        let end: usize = find_from(chars.as_slice(), '\n', start);
        let line = string_between(chars.as_slice(), start, end);
        proof {
            assert(rest.take(end - start) == chars@.subrange(start as int, end as int));
            assert(pieces[0] == line@) by {
                if end - start >= rest.len() {
                    assert(rest.take(end - start) == rest);
                }
            }
        }
        let line_chars = chars_of(line.as_str());
        if starts_with(line_chars.as_slice(), prefix) {
            let value = string_between(line_chars.as_slice(), skipped, line_chars.len());
            assert(value@ == line@.skip(skipped as int));
            return Some(value);
        }
        if end >= chars.len() {
            assert(pieces.drop_first() == Seq::<Seq<char>>::empty());
            assert(line_after(pieces.drop_first(), prefix@) is None);
            return None;
        }
        proof {
            assert(rest.skip(end - start + 1) == chars@.subrange(end + 1, chars@.len() as int));
            let tail = split_on(rest.skip(end - start + 1), '\n');
            assert(pieces == seq![rest.take(end - start)] + tail);
            assert(pieces.drop_first() == tail);
        }
        start = end + 1;
    }
}

/// The part of a text in front of its first white space.
pub open spec fn until_space(s: Seq<char>) -> Seq<char>
    decreases s.len(),
{
    if s.len() == 0 || white_space(s[0]) {
        Seq::empty()
    } else {
        seq![s[0]] + until_space(s.drop_first())
    }
}

pub proof fn until_space_is(s: Seq<char>, k: int)
    requires
        0 <= k <= s.len(),
        forall|j: int| 0 <= j < k ==> !white_space(#[trigger] s[j]),
        k < s.len() ==> white_space(s[k]),
    ensures
        until_space(s) == s.take(k),
    decreases k,
{
    if k > 0 {
        let t = s.drop_first();
        assert forall|j: int| 0 <= j < k - 1 implies !white_space(#[trigger] t[j]) by {
            assert(t[j] == s[j + 1]);
        }
        assert(!white_space(s[0]));
        until_space_is(t, k - 1);
        assert(seq![s[0]] + t.take(k - 1) == s.take(k));
    } else {
        assert(s.take(0) == Seq::<char>::empty());
    }
}

/// The first word of a text: what stands between the white space in front, if
/// there is any, and the next one.
pub fn first_word(s: &str) -> (r: String)
    ensures
        r@ == until_space(trimmed(s@)),
{
    let chars = chars_of(trim(s));
    let mut k: usize = 0;
    while k < chars.len() && !is_white_space(chars[k])
        invariant
            k <= chars.len(),
            forall|j: int| 0 <= j < k ==> !white_space(#[trigger] chars@[j]),
        decreases chars.len() - k,
    {
        k = k + 1;
    }
    proof {
        until_space_is(chars@, k as int);
        assert(chars@.take(k as int) == chars@.subrange(0, k as int));
    }
    string_between(chars.as_slice(), 0, k)
}

// ---------------------------------------------------------------------------
// Decimal numbers
// ---------------------------------------------------------------------------

/// The ASCII digit for a value below ten.
pub open spec fn digit_char(d: nat) -> char {
    (0x30 + d) as char
}

/// A number in decimal, without leading zeros.
pub open spec fn decimal(n: nat) -> Seq<char>
    decreases n,
{
    if n < 10 {
        seq![digit_char(n)]
    } else {
        decimal(n / 10).push(digit_char(n % 10))
    }
}

/// Appends a number in decimal.
pub fn append_decimal(out: &mut String, n: u32)
    ensures
        final(out)@ == old(out)@ + decimal(n as nat),
    decreases n,
{
    if n >= 10 {
        append_decimal(out, n / 10);
    }
    let d: u8 = (n % 10) as u8;
    out.push((0x30u8 + d) as char);
    assert(out@ == old(out)@ + decimal(n as nat));
}

/// The value of a run of ASCII digits.
pub open spec fn digits_value(s: Seq<char>) -> nat
    decreases s.len(),
{
    if s.len() == 0 {
        0
    } else {
        (digits_value(s.drop_last()) * 10 + (s.last() as u32 - 0x30)) as nat
    }
}

/// The digits of a number that may carry a leading plus sign.
pub open spec fn unsigned_digits(s: Seq<char>) -> Seq<char> {
    if s.len() > 0 && s[0] == '+' {
        s.drop_first()
    } else {
        s
    }
}

/// The number that a text stands for: digits, at least one, with an optional
/// plus sign in front, and no larger than `max`.
pub open spec fn unsigned_value(s: Seq<char>, max: nat) -> Option<nat> {
    let d = unsigned_digits(s);
    if d.len() > 0 && (forall|i: int| 0 <= i < d.len() ==> ascii_digit(#[trigger] d[i]))
        && digits_value(d) <= max {
        Some(digits_value(d))
    } else {
        None
    }
}

proof fn digits_value_grows(s: Seq<char>, k: int)
    requires
        0 <= k <= s.len(),
        forall|i: int| 0 <= i < s.len() ==> ascii_digit(#[trigger] s[i]),
    ensures
        digits_value(s.take(k)) <= digits_value(s),
    decreases s.len() - k,
{
    if k < s.len() {
        digits_value_grows(s, k + 1);
        assert(s.take(k + 1).drop_last() == s.take(k));
        assert(s.take(k + 1).last() == s[k]);
        assert(ascii_digit(s[k]));
    } else {
        assert(s.take(k) == s);
    }
}

/// Reads an unsigned decimal number no larger than `max`.
pub fn parse_unsigned(s: &str, max: u64) -> (r: Option<u64>)
    ensures
        match r {
            Some(v) => unsigned_value(s@, max as nat) == Some(v as nat),
            None => unsigned_value(s@, max as nat) is None,
        },
{
    let chars = chars_of(s);
    let from: usize = if chars.len() > 0 && chars[0] == '+' {
        1
    } else {
        0
    };
    let ghost d = unsigned_digits(s@);
    assert(d == chars@.subrange(from as int, chars@.len() as int));
    if from >= chars.len() {
        return None;
    }
    let mut acc: u64 = 0;
    let mut i: usize = from;
    while i < chars.len()
        invariant
            from <= i <= chars.len(),
            from < chars.len(),
            chars@ == s@,
            d == unsigned_digits(s@),
            d == chars@.subrange(from as int, chars@.len() as int),
            forall|j: int| 0 <= j < i - from ==> ascii_digit(#[trigger] d[j]),
            acc == digits_value(d.take(i - from)),
            acc <= max,
        decreases chars.len() - i,
    {
        let c = chars[i];
        assert(d[i - from] == c);
        if !is_ascii_digit(c) {
            return None;
        }
        let next: u128 = (acc as u128) * 10 + (c as u32 - 0x30) as u128;
        proof {
            assert(d.take(i - from + 1).drop_last() == d.take(i - from));
            assert(d.take(i - from + 1).last() == c);
            assert(next == digits_value(d.take(i - from + 1)));
        }
        if next > max as u128 {
            proof {
                if forall|j: int| 0 <= j < d.len() ==> ascii_digit(#[trigger] d[j]) {
                    digits_value_grows(d, i - from + 1);
                }
            }
            return None;
        }
        acc = next as u64;
        i = i + 1;
    }
    assert(d.take(i - from) == d);
    Some(acc)
}

// ---------------------------------------------------------------------------
// Laws
// ---------------------------------------------------------------------------

/// White space is the blank, the tabs and line ends, the no-break space and the
/// other spaces and separators of Unicode.
pub proof fn white_space_characters(c: char)
    ensures
        white_space(c) <==> {
            ||| c == ' ' || c == '\t' || c == '\n' || c == '\r' || c == '\u{b}' || c == '\u{c}'
            ||| c == '\u{85}' || c == '\u{a0}' || c == '\u{1680}'
            ||| c == '\u{2000}' || c == '\u{2001}' || c == '\u{2002}' || c == '\u{2003}'
            ||| c == '\u{2004}' || c == '\u{2005}' || c == '\u{2006}' || c == '\u{2007}'
            ||| c == '\u{2008}' || c == '\u{2009}' || c == '\u{200a}'
            ||| c == '\u{2028}' || c == '\u{2029}' || c == '\u{202f}' || c == '\u{205f}' || c
                == '\u{3000}'
        },
{
}

/// The control characters are the first 32 code points of ASCII and of Latin-1's
/// upper half, and DEL.
pub proof fn control_characters(c: char)
    ensures
        control(c) <==> c == '\u{7f}' || c as u32 / 32 == 0 || c as u32 / 32 == 4,
{
}

/// The ASCII classes, and how a capital letter relates to its small one.
pub proof fn ascii_classes(c: char)
    ensures
        ascii_digit(c) <==> '0' as u32 <= c as u32 <= '9' as u32,
        ascii_upper(c) <==> 'A' as u32 <= c as u32 <= 'Z' as u32,
        ascii_alphabetic(c) <==> 'A' as u32 <= c as u32 <= 'Z' as u32 || 'a' as u32 <= c as u32
            <= 'z' as u32,
        'A' as u32 <= c as u32 <= 'Z' as u32 ==> ascii_lower(c) - 'a' as u32 == c as u32
            - 'A' as u32,
        !('A' as u32 <= c as u32 <= 'Z' as u32) ==> ascii_lower(c) == c as u32,
        ascii(c) <==> c as u32 <= 127,
{
}

/// Two texts are the same but for ASCII case if they have the same length and
/// wherever they differ, one has a capital letter and the other its small one.
pub proof fn only_ascii_case_is_ignored(a: Seq<char>, b: Seq<char>)
    ensures
        same_ignoring_ascii_case(a, b) <==> a.len() == b.len() && forall|i: int|
            0 <= i < a.len() ==> {
                ||| #[trigger] a[i] == b[i]
                ||| 65 <= a[i] as u32 <= 90 && b[i] as u32 == a[i] as u32 + 32
                ||| 65 <= b[i] as u32 <= 90 && a[i] as u32 == b[i] as u32 + 32
            },
{
    if same_ignoring_ascii_case(a, b) {
        assert forall|i: int| 0 <= i < a.len() implies {
            ||| #[trigger] a[i] == b[i]
            ||| 65 <= a[i] as u32 <= 90 && b[i] as u32 == a[i] as u32 + 32
            ||| 65 <= b[i] as u32 <= 90 && a[i] as u32 == b[i] as u32 + 32
        } by {
            assert(ascii_lower(a[i]) == ascii_lower(b[i]));
            code_points_differ(a[i], b[i]);
        }
    }
    if a.len() == b.len() && forall|i: int|
        0 <= i < a.len() ==> {
            ||| #[trigger] a[i] == b[i]
            ||| 65 <= a[i] as u32 <= 90 && b[i] as u32 == a[i] as u32 + 32
            ||| 65 <= b[i] as u32 <= 90 && a[i] as u32 == b[i] as u32 + 32
        } {
        assert forall|i: int| 0 <= i < a.len() implies #[trigger] ascii_lower(a[i]) == ascii_lower(
            b[i],
        ) by {
            let same = a[i] == b[i];
        }
    }
}

/// In an ASCII text lowercasing adds 32 to the code point of each capital letter
/// and changes nothing else.
pub proof fn ascii_lowercase_is_pointwise(s: Seq<char>, i: int)
    requires
        ascii_text(s),
        0 <= i < s.len(),
    ensures
        lower_text(s).len() == s.len(),
        65 <= s[i] as u32 <= 90 ==> lower_text(s)[i] as u32 == s[i] as u32 + 32,
        !(65 <= s[i] as u32 <= 90) ==> lower_text(s)[i] == s[i],
        lower(s[i]) == seq![lower_text(s)[i]],
        letter(s[i]) <==> 65 <= s[i] as u32 <= 90 || 97 <= s[i] as u32 <= 122,
{
    assert(ascii(s[i]));
    scalar_value(s[i]);
    assert(lower_text(s)[i] == ascii_lower(s[i]) as char);
    code_points_differ(s[i], lower_text(s)[i]);
}

/// Beyond ASCII, case and letters are those of the Unicode tables.
pub proof fn other_text_goes_by_unicode(s: Seq<char>, c: char, i: int)
    requires
        0 <= i < s.len(),
        s[i] as u32 > 127,
        c as u32 > 127,
    ensures
        lower_text(s) == lowercase(s),
        lower(c) == char_lowercase(c),
        letter(c) == alphabetic(c),
{
    assert(!ascii(s[i]));
}

proof fn trim_front_cuts(s: Seq<char>)
    ensures
        trim_front(s).len() <= s.len(),
        trim_front(s) == s.skip(s.len() - trim_front(s).len()),
        forall|i: int| 0 <= i < s.len() - trim_front(s).len() ==> white_space(#[trigger] s[i]),
    decreases s.len(),
{
    if s.len() > 0 && white_space(s[0]) {
        let t = s.drop_first();
        trim_front_cuts(t);
        let r = trim_front(s);
        assert(t.skip(t.len() - r.len()) == s.skip(s.len() - r.len()));
        assert forall|i: int| 0 <= i < s.len() - r.len() implies white_space(#[trigger] s[i]) by {
            if i > 0 {
                assert(t[i - 1] == s[i]);
            }
        }
    } else {
        assert(s.skip(0) == s);
    }
}

proof fn trim_back_cuts(s: Seq<char>)
    ensures
        trim_back(s).len() <= s.len(),
        trim_back(s) == s.take(trim_back(s).len() as int),
        forall|i: int| trim_back(s).len() <= i < s.len() ==> white_space(#[trigger] s[i]),
    decreases s.len(),
{
    if s.len() > 0 && white_space(s.last()) {
        let t = s.drop_last();
        trim_back_cuts(t);
        let r = trim_back(s);
        assert(t.take(r.len() as int) == s.take(r.len() as int));
        assert forall|i: int| r.len() <= i < s.len() implies white_space(#[trigger] s[i]) by {
            if i < t.len() {
                assert(t[i] == s[i]);
            }
        }
    } else {
        assert(s.take(s.len() as int) == s);
    }
}

/// Trimming cuts white space off the two ends, all of it and nothing else.
pub proof fn trimming_cuts_the_white_space_around(s: Seq<char>)
    ensures
        exists|k: int|
            {
                &&& 0 <= k <= k + trimmed(s).len() <= s.len()
                &&& trimmed(s) == #[trigger] s.subrange(k, k + trimmed(s).len())
                &&& forall|i: int|
                    0 <= i < k || k + trimmed(s).len() <= i < s.len() ==> white_space(
                        #[trigger] s[i],
                    )
            },
        trimmed(s).len() > 0 ==> !white_space(trimmed(s)[0]) && !white_space(trimmed(s).last()),
{
    trimmed_has_bare_ends(s);
    trim_front_cuts(s);
    let f = trim_front(s);
    trim_back_cuts(f);
    let k = s.len() - f.len();
    let n = trimmed(s).len();
    assert(trimmed(s) == s.subrange(k, k + n));
    assert forall|i: int| 0 <= i < k || k + n <= i < s.len() implies white_space(
        #[trigger] s[i],
    ) by {
        if i >= k {
            assert(f[i - k] == s[i]);
        }
    }
}

/// Texts put together with a separator between them.
pub open spec fn joined(pieces: Seq<Seq<char>>, sep: char) -> Seq<char>
    decreases pieces.len(),
{
    if pieces.len() == 0 {
        Seq::empty()
    } else if pieces.len() == 1 {
        pieces[0]
    } else {
        pieces[0] + seq![sep] + joined(pieces.drop_first(), sep)
    }
}

/// Splitting undoes joining: the pieces put together again are the text, and none
/// of them holds the separator.
pub proof fn splitting_undoes_joining(s: Seq<char>, sep: char)
    ensures
        joined(split_on(s, sep), sep) == s,
        forall|i: int, j: int|
            0 <= i < split_on(s, sep).len() && 0 <= j < split_on(s, sep)[i].len()
                ==> #[trigger] split_on(s, sep)[i][j] != sep,
        split_on(s, sep).len() >= 1,
    decreases s.len(),
{
    find_char_bounds(s, sep);
    split_on_len(s, sep);
    let k = find_char(s, sep);
    let pieces = split_on(s, sep);
    if k < s.len() {
        let rest = s.skip(k + 1);
        let more = split_on(rest, sep);
        splitting_undoes_joining(rest, sep);
        split_on_len(rest, sep);
        assert(pieces == seq![s.take(k)] + more);
        assert(pieces.drop_first() == more);
        assert(s.take(k) + seq![sep] + rest == s);
        assert forall|i: int, j: int|
            0 <= i < pieces.len() && 0 <= j < pieces[i].len() implies #[trigger] pieces[i][j]
            != sep by {
            if i == 0 {
                assert(pieces[0][j] == s[j]);
            } else {
                assert(pieces[i] == more[i - 1]);
                assert(more[i - 1][j] != sep);
            }
        }
    } else {
        assert(pieces.len() == 1);
    }
}

/// The items of a list are its pieces between commas, each trimmed.
pub proof fn list_items_are_the_trimmed_pieces(s: Seq<char>)
    ensures
        list_items(s).len() == split_on(s, ',').len(),
        forall|i: int|
            0 <= i < list_items(s).len() ==> #[trigger] list_items(s)[i] == trimmed(
                split_on(s, ',')[i],
            ),
{
}

/// Only the line feeds at the end go, and all of them.
pub proof fn only_final_newlines_go(s: Seq<char>)
    ensures
        ({
            let r = without_final_newlines(s);
            &&& r.len() <= s.len()
            &&& r == s.take(r.len() as int)
            &&& r.len() > 0 ==> r.last() != '\n'
            &&& forall|i: int| r.len() <= i < s.len() ==> #[trigger] s[i] == '\n'
        }),
    decreases s.len(),
{
    let r = without_final_newlines(s);
    if s.len() > 0 && s.last() == '\n' {
        let t = s.drop_last();
        only_final_newlines_go(t);
        assert(t.take(r.len() as int) == s.take(r.len() as int));
        assert forall|i: int| r.len() <= i < s.len() implies #[trigger] s[i] == '\n' by {
            if i < t.len() {
                assert(t[i] == s[i]);
            }
        }
    } else {
        assert(s.take(s.len() as int) == s);
    }
}

/// The first line with the prefix decides, and gives what follows the prefix.
pub proof fn the_first_line_with_the_prefix_decides(lines: Seq<Seq<char>>, prefix: Seq<char>)
    ensures
        match line_after(lines, prefix) {
            Some(rest) => exists|i: int|
                {
                    &&& 0 <= i < lines.len()
                    &&& #[trigger] lines[i] == prefix + rest
                    &&& forall|j: int, t: Seq<char>|
                        0 <= j < i ==> #[trigger] lines[j] != #[trigger] (prefix + t)
                },
            None => forall|j: int, t: Seq<char>|
                0 <= j < lines.len() ==> #[trigger] lines[j] != #[trigger] (prefix + t),
        },
    decreases lines.len(),
{
    if lines.len() > 0 {
        let first = lines[0];
        let rest = lines.drop_first();
        the_first_line_with_the_prefix_decides(rest, prefix);
        if begins_with(first, prefix) {
            let t = first.skip(prefix.len() as int);
            assert(first =~= prefix + t);
            assert(line_after(lines, prefix) == Some(t));
            assert(lines[0] == prefix + t);
        } else {
            assert forall|t: Seq<char>| first != #[trigger] (prefix + t) by {
                if first == prefix + t {
                    assert(first.take(prefix.len() as int) =~= prefix);
                }
            }
            match line_after(lines, prefix) {
                Some(r) => {
                    let i = choose|i: int|
                        {
                            &&& 0 <= i < rest.len()
                            &&& #[trigger] rest[i] == prefix + r
                            &&& forall|j: int, t: Seq<char>|
                                0 <= j < i ==> #[trigger] rest[j] != #[trigger] (prefix + t)
                        };
                    assert(lines[i + 1] == prefix + r);
                    assert forall|j: int, t: Seq<char>| 0 <= j < i + 1 implies #[trigger] lines[j]
                        != #[trigger] (prefix + t) by {
                        if j > 0 {
                            assert(rest[j - 1] == lines[j]);
                        }
                    }
                },
                None => {
                    assert forall|j: int, t: Seq<char>| 0 <= j < lines.len() implies #[trigger] lines[j]
                        != #[trigger] (prefix + t) by {
                        if j > 0 {
                            assert(rest[j - 1] == lines[j]);
                        }
                    }
                },
            }
        }
    }
}

/// A digit more multiplies the value by ten and adds the digit.
pub proof fn digits_are_decimal(s: Seq<char>, c: char)
    requires
        48 <= c as u32 <= 57,
    ensures
        digits_value(Seq::empty()) == 0,
        digits_value(s.push(c)) == 10 * digits_value(s) + (c as u32 - 48),
{
    scalar_value(c);
    assert(s.push(c).drop_last() == s);
    assert(s.push(c).last() == c);
}

/// One character or more, each between '0' and '9'.
pub open spec fn run_of_digits(d: Seq<char>) -> bool {
    d.len() > 0 && forall|i: int| 0 <= i < d.len() ==> 48 <= (#[trigger] d[i]) as u32 <= 57
}

/// A number is a run of digits, with or without a plus sign in front, and within
/// the limit; nothing else is.
pub proof fn numbers_are_runs_of_digits(s: Seq<char>, max: nat)
    ensures
        s.len() > 0 && s[0] == '+' ==> unsigned_value(s, max) == if run_of_digits(s.skip(1))
            && digits_value(s.skip(1)) <= max {
            Some(digits_value(s.skip(1)))
        } else {
            None
        },
        s.len() == 0 || s[0] != '+' ==> unsigned_value(s, max) == if run_of_digits(s)
            && digits_value(s) <= max {
            Some(digits_value(s))
        } else {
            None
        },
{
    let d = unsigned_digits(s);
    assert(s.len() > 0 ==> s.skip(1) == s.drop_first());
    if run_of_digits(d) {
        assert forall|i: int| 0 <= i < d.len() implies ascii_digit(#[trigger] d[i]) by {}
    }
    if forall|i: int| 0 <= i < d.len() ==> ascii_digit(#[trigger] d[i]) {
        assert forall|i: int| 0 <= i < d.len() implies 48 <= (#[trigger] d[i]) as u32 <= 57 by {
            assert(ascii_digit(d[i]));
        }
    }
}

/// A number that is written in decimal is read back, and has no leading zero.
pub proof fn decimal_is_read_back(n: nat)
    ensures
        unsigned_value(decimal(n), n) == Some(n),
        decimal(n).len() > 0,
        n > 0 ==> decimal(n)[0] != '0',
{
    decimal_digits(n);
    let d = decimal(n);
    assert(ascii_digit(d[0]));
    assert(unsigned_digits(d) == d);
}

proof fn decimal_digits(n: nat)
    ensures
        digits_value(decimal(n)) == n,
        decimal(n).len() > 0,
        n > 0 ==> decimal(n)[0] != '0',
        forall|i: int| 0 <= i < decimal(n).len() ==> ascii_digit(#[trigger] decimal(n)[i]),
    decreases n,
{
    reveal_with_fuel(digits_value, 2);
    let last = digit_char(n % 10);
    assert(last as u32 == 48 + n % 10);
    scalar_value(last);
    if n < 10 {
        assert(decimal(n).drop_last().len() == 0);
        assert(decimal(n).last() == digit_char(n));
    } else {
        decimal_digits(n / 10);
        let d = decimal(n / 10);
        assert(decimal(n) == d.push(last));
        digits_are_decimal(d, last);
        assert forall|i: int| 0 <= i < decimal(n).len() implies ascii_digit(
            #[trigger] decimal(n)[i],
        ) by {
            if i < d.len() {
                assert(decimal(n)[i] == d[i]);
            }
        }
    }
}

/// A number below ten is written with one digit, without anything in front of it.
pub proof fn small_numbers_have_one_digit(n: nat)
    requires
        n < 10,
    ensures
        decimal(n).len() == 1,
        decimal(n)[0] as u32 == 48 + n,
{
}

} // verus!
