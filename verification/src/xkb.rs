//! Decoding evdev keycodes through a keymap.
//!
//! Note the +8 offset: evdev keycodes are 0..247 while xkb expects 8..255.
//!
//! The compiled keymap and its modifier state belong to libxkbcommon and live
//! with the program that links it. This module holds everything around them:
//! the layout list and the active layout, which calls a key event amounts to,
//! what the answers mean, and how whole words are run through a layout in
//! either direction.

use std::collections::HashMap;

use vstd::prelude::*;

use crate::error::Error;
use crate::input::KeyKind;
use crate::text;
use crate::text::{append, chars_of, find_from, is_control, split_list, string_between, trim};

verus! {

// ---------------------------------------------------------------------------
// Keysyms
// ---------------------------------------------------------------------------

pub const KEYSYM_SHIFT_L: u32 = 0xffe1;

pub const KEYSYM_SHIFT_R: u32 = 0xffe2;

pub const KEYSYM_CONTROL_L: u32 = 0xffe3;

pub const KEYSYM_CONTROL_R: u32 = 0xffe4;

pub const KEYSYM_CAPS_LOCK: u32 = 0xffe5;

pub const KEYSYM_SHIFT_LOCK: u32 = 0xffe6;

pub const KEYSYM_META_L: u32 = 0xffe7;

pub const KEYSYM_META_R: u32 = 0xffe8;

pub const KEYSYM_ALT_L: u32 = 0xffe9;

pub const KEYSYM_ALT_R: u32 = 0xffea;

pub const KEYSYM_SUPER_L: u32 = 0xffeb;

pub const KEYSYM_SUPER_R: u32 = 0xffec;

pub const KEYSYM_HYPER_L: u32 = 0xffed;

pub const KEYSYM_HYPER_R: u32 = 0xffee;

pub const KEYSYM_NUM_LOCK: u32 = 0xff7f;

pub const KEYSYM_ISO_LEVEL3_SHIFT: u32 = 0xfe03;

pub const KEYSYM_ISO_LEVEL5_SHIFT: u32 = 0xfe11;

pub const KEYSYM_HOME: u32 = 0xff50;

pub const KEYSYM_LEFT: u32 = 0xff51;

pub const KEYSYM_UP: u32 = 0xff52;

pub const KEYSYM_RIGHT: u32 = 0xff53;

pub const KEYSYM_DOWN: u32 = 0xff54;

pub const KEYSYM_PAGE_UP: u32 = 0xff55;

pub const KEYSYM_PAGE_DOWN: u32 = 0xff56;

pub const KEYSYM_END: u32 = 0xff57;

pub const KEYSYM_ESCAPE: u32 = 0xff1b;

/// The shifts, controls, locks, metas, alts, supers and hypers, which are
/// numbered in one row, and the locks and shifts beside them.
pub open spec fn modifier_keysym(sym: u32) -> bool {
    0xffe1 <= sym <= 0xffee || sym == 0xff7f || sym == 0xfe03 || sym == 0xfe11
}

/// The arrows, Home, End and the page keys, which are numbered in one row, and
/// Escape.
pub open spec fn navigation_keysym(sym: u32) -> bool {
    0xff50 <= sym <= 0xff57 || sym == 0xff1b
}

pub fn is_modifier_keysym(sym: u32) -> (r: bool)
    ensures
        r == modifier_keysym(sym),
{
    sym == KEYSYM_SHIFT_L || sym == KEYSYM_SHIFT_R || sym == KEYSYM_CONTROL_L || sym
        == KEYSYM_CONTROL_R || sym == KEYSYM_ALT_L || sym == KEYSYM_ALT_R || sym == KEYSYM_META_L
        || sym == KEYSYM_META_R || sym == KEYSYM_SUPER_L || sym == KEYSYM_SUPER_R || sym
        == KEYSYM_HYPER_L || sym == KEYSYM_HYPER_R || sym == KEYSYM_CAPS_LOCK || sym
        == KEYSYM_SHIFT_LOCK || sym == KEYSYM_NUM_LOCK || sym == KEYSYM_ISO_LEVEL3_SHIFT || sym
        == KEYSYM_ISO_LEVEL5_SHIFT
}

pub fn is_navigation_keysym(sym: u32) -> (r: bool)
    ensures
        r == navigation_keysym(sym),
{
    sym == KEYSYM_LEFT || sym == KEYSYM_RIGHT || sym == KEYSYM_UP || sym == KEYSYM_DOWN || sym
        == KEYSYM_HOME || sym == KEYSYM_END || sym == KEYSYM_PAGE_UP || sym == KEYSYM_PAGE_DOWN
        || sym == KEYSYM_ESCAPE
}

/// A key is never both a modifier and a navigation key.
pub proof fn modifiers_do_not_navigate(sym: u32)
    ensures
        !(modifier_keysym(sym) && navigation_keysym(sym)),
{
}

// ---------------------------------------------------------------------------
// One key
// ---------------------------------------------------------------------------

#[derive(Debug, Clone)]
pub struct Decoded {
    pub utf8: Option<String>,
    pub keysym: u32,
    pub is_modifier: bool,
    pub is_navigation: bool,
}

impl Default for Decoded {
    fn default() -> (r: Decoded)
        ensures
            r.utf8 is None,
            r.keysym == 0,
            !r.is_modifier,
            !r.is_navigation,
    {
        Decoded { utf8: None, keysym: 0, is_modifier: false, is_navigation: false }
    }
}

/// The text that a key contributes: none for a release, none if it is empty.
pub open spec fn key_text(kind: KeyKind, text: Seq<char>) -> Option<Seq<char>> {
    if kind == KeyKind::Release || text.len() == 0 {
        None
    } else {
        Some(text)
    }
}

impl Decoded {
    /// The text as a sequence of characters, if there is any.
    pub open spec fn text(self) -> Option<Seq<char>> {
        match self.utf8 {
            Some(s) => Some(s@),
            None => None,
        }
    }

    /// What a key means, given the text and the keysym that the keymap has for
    /// it.
    pub open spec fn means(self, kind: KeyKind, text: Seq<char>, keysym: u32) -> bool {
        &&& self.text() == key_text(kind, text)
        &&& self.keysym == keysym
        &&& self.is_modifier == modifier_keysym(keysym)
        &&& self.is_navigation == navigation_keysym(keysym)
    }
}

/// What there is to say of a key that was pressed.
#[derive(Debug, Clone, Copy, PartialEq, Eq, Structural)]
pub enum PressKind {
    /// It has a text.
    Printable,
    Modifier,
    Navigation,
    NonPrintable,
}

/// Sorts a press for a log of decoded keys: a text counts most.
pub fn press_kind(d: &Decoded) -> (r: PressKind)
    ensures
        r == if d.utf8 is Some {
            PressKind::Printable
        } else if d.is_modifier {
            PressKind::Modifier
        } else if d.is_navigation {
            PressKind::Navigation
        } else {
            PressKind::NonPrintable
        },
{
    if d.utf8.is_some() {
        PressKind::Printable
    } else if d.is_modifier {
        PressKind::Modifier
    } else if d.is_navigation {
        PressKind::Navigation
    } else {
        PressKind::NonPrintable
    }
}

/// The calls on a keymap state that one key event amounts to, in this order:
/// read the text if it is wanted, read the keysym, pass on the change of the
/// key if there is one (`true` for down).
#[derive(Debug, Clone, Copy, PartialEq, Eq, Structural)]
pub struct KeyCall {
    pub xkb_keycode: u32,
    pub wants_text: bool,
    pub change: Option<bool>,
}

/// A repeat reads the key and changes nothing; a press reads the text before
/// the key goes down, so that the key does not affect its own text; a release
/// contributes no text.
pub fn key_call(evdev_keycode: u32, kind: KeyKind) -> (r: KeyCall)
    requires
        evdev_keycode <= u32::MAX - 8,
    ensures
        r.xkb_keycode == evdev_keycode + 8,
        r.wants_text == (kind != KeyKind::Release),
        r.change == match kind {
            KeyKind::Press => Some(true),
            KeyKind::Release => Some(false),
            KeyKind::Repeat => None::<bool>,
        },
{
    KeyCall {
        xkb_keycode: evdev_keycode + 8,
        wants_text: match kind {
            KeyKind::Release => false,
            _ => true,
        },
        change: match kind {
            KeyKind::Press => Some(true),
            KeyKind::Release => Some(false),
            KeyKind::Repeat => None,
        },
    }
}

// ---------------------------------------------------------------------------
// The layouts
// ---------------------------------------------------------------------------

/// The configured layouts and the one that is active.
#[derive(Debug)]
pub struct XkbState {
    layouts: Vec<String>,
    variants: Vec<String>,
    active: u32,
}

/// The layout mask to put on a keymap state that is freshly made: no modifier
/// depressed but those given, nothing latched, and one locked layout.
#[derive(Debug, Clone, Copy, PartialEq, Eq, Structural)]
pub struct LayoutMask {
    pub depressed_mods: u32,
    pub locked_layout: u32,
}

impl XkbState {
    /// The names of the layouts.
    pub closed spec fn names(&self) -> Seq<Seq<char>> {
        text::views(self.layouts@)
    }

    /// The variants, one per layout where given.
    pub closed spec fn variant_names(&self) -> Seq<Seq<char>> {
        text::views(self.variants@)
    }

    /// The index of the active layout.
    pub closed spec fn active(&self) -> u32 {
        self.active
    }

    /// There is a layout at least, and indices fit.
    pub open spec fn wf(&self) -> bool {
        1 <= self.names().len() < u32::MAX
    }

    /// The layout that comes after the one with the given index, cyclically.
    pub open spec fn next_index(&self, idx: u32) -> u32 {
        ((idx + 1) % (self.names().len() as int)) as u32
    }

    /// The name of the layout with the given index; empty if there is none.
    pub open spec fn name_at(&self, idx: u32) -> Seq<char> {
        if idx < self.names().len() {
            self.names()[idx as int]
        } else {
            Seq::empty()
        }
    }

    /// Takes the layout list, once it is known whether its keymap compiles.
    pub fn new(layouts: &str, variants: &str, compiled: bool) -> (r: Result<XkbState, Error>)
        requires
            layouts@.len() < u32::MAX - 1,
        ensures
            match r {
                Ok(s) => {
                    &&& compiled
                    &&& s.names() == text::list_items(layouts@)
                    &&& s.variant_names() == text::list_items(variants@)
                    &&& s.active() == 0
                    &&& s.wf()
                },
                Err(e) => {
                    &&& !compiled
                    &&& e matches Error::XkbCompile { layout, variant }
                    &&& layout@ == layouts@
                    &&& variant@ == variants@
                },
            },
    {
        if !compiled {
            return Err(
                Error::XkbCompile { layout: layouts.to_owned(), variant: variants.to_owned() },
            );
        }
        proof {
            text::list_items_len(layouts@);
        }
        Ok(XkbState { layouts: split_list(layouts), variants: split_list(variants), active: 0 })
    }

    pub fn layouts(&self) -> (r: &Vec<String>)
        ensures
            text::views(r@) == self.names(),
    {
        &self.layouts
    }

    pub fn variants(&self) -> (r: &Vec<String>)
        ensures
            text::views(r@) == self.variant_names(),
    {
        &self.variants
    }

    pub fn active_index(&self) -> (r: u32)
        ensures
            r == self.active(),
    {
        self.active
    }

    /// How many layouts there are.
    pub fn count(&self) -> (r: u32)
        requires
            self.wf(),
        ensures
            r == self.names().len(),
    {
        self.layouts.len() as u32
    }

    /// The layout after the one with the given index, cyclically.
    pub fn index_after(&self, idx: u32) -> (r: u32)
        requires
            self.wf(),
            idx < u32::MAX,
        ensures
            r == self.next_index(idx),
            r < self.names().len(),
    {
        (idx + 1) % self.count()
    }

    /// The name of the layout with the given index; empty if there is none.
    pub fn layout_name(&self, idx: u32) -> (r: &str)
        ensures
            r@ == self.name_at(idx),
    {
        if (idx as usize) < self.layouts.len() {
            self.layouts[idx as usize].as_str()
        } else {
            proof {
                reveal_strlit("");
            }
            assert(""@ == Seq::<char>::empty());
            ""
        }
    }

    /// Lock the active layout to `idx`. The keymap state is to be made anew, with
    /// the mask that is returned: transient modifiers are forgotten. For layout
    /// events of the compositor, not for the keystroke hot path.
    pub fn set_active_layout(&mut self, idx: u32) -> (r: LayoutMask)
        ensures
            final(self).active() == idx,
            final(self).names() == old(self).names(),
            final(self).variant_names() == old(self).variant_names(),
            r == (LayoutMask { depressed_mods: 0, locked_layout: idx }),
    {
        self.active = idx;
        LayoutMask { depressed_mods: 0, locked_layout: idx }
    }

    /// What a key means, once its text and its keysym have been read.
    pub fn process(&self, kind: KeyKind, text: String, keysym: u32) -> (r: Decoded)
        ensures
            r.means(kind, text@, keysym),
    {
        let has_text: bool = match kind {
            KeyKind::Release => false,
            _ => !text.as_str().is_empty(),
        };
        Decoded {
            utf8: if has_text {
                Some(text)
            } else {
                None
            },
            keysym,
            is_modifier: is_modifier_keysym(keysym),
            is_navigation: is_navigation_keysym(keysym),
        }
    }
}

/// The other layout is always a configured one and, where there are two at
/// least, never the one it is counted from.
pub proof fn next_layout_differs(s: XkbState, idx: u32)
    requires
        s.wf(),
        idx < s.names().len(),
    ensures
        s.next_index(idx) < s.names().len(),
        s.names().len() >= 2 ==> s.next_index(idx) != idx,
        s.names().len() == 2 ==> s.next_index(s.next_index(idx)) == idx,
{
    let n = s.names().len() as int;
    if idx + 1 < n {
        vstd::arithmetic::div_mod::lemma_small_mod((idx + 1) as nat, n as nat);
    } else {
        vstd::arithmetic::div_mod::lemma_mod_self_0(n);
    }
    if n == 2 {
        vstd::arithmetic::div_mod::lemma_small_mod(1, 2);
    }
}

// ---------------------------------------------------------------------------
// Words through a layout
// ---------------------------------------------------------------------------

/// One key event to run through a keymap state; the text of the kept ones makes
/// up the word.
#[derive(Debug, Clone, Copy, PartialEq, Eq, Structural)]
pub struct KeyStep {
    pub keycode: u32,
    pub kind: KeyKind,
    pub kept: bool,
}

/// KEY_LEFTSHIFT (evdev)
pub const SHIFT_KC: u32 = 42;

/// What brings shift from `held` to `want`.
pub open spec fn shift_steps(held: bool, want: bool) -> Seq<KeyStep> {
    if want && !held {
        seq![KeyStep { keycode: SHIFT_KC, kind: KeyKind::Press, kept: false }]
    } else if !want && held {
        seq![KeyStep { keycode: SHIFT_KC, kind: KeyKind::Release, kept: false }]
    } else {
        Seq::empty()
    }
}

/// A press whose text is kept, and its release.
pub open spec fn stroke_steps(kc: u32) -> Seq<KeyStep> {
    seq![
        KeyStep { keycode: kc, kind: KeyKind::Press, kept: true },
        KeyStep { keycode: kc, kind: KeyKind::Release, kept: false },
    ]
}

/// The key events that type a run of positions, shift being `held` at first and
/// let go at the end.
pub open spec fn decode_steps(entries: Seq<(u32, bool)>, held: bool) -> Seq<KeyStep>
    decreases entries.len(),
{
    if entries.len() == 0 {
        shift_steps(held, false)
    } else {
        shift_steps(held, entries[0].1) + stroke_steps(entries[0].0) + decode_steps(
            entries.drop_first(),
            entries[0].1,
        )
    }
}

/// The key events to run through a state that has just been locked to a layout,
/// to learn what the given positions would produce there.
pub fn decode_script(entries: &Vec<(u32, bool)>) -> (r: Vec<KeyStep>)
    ensures
        r@ == decode_steps(entries@, false),
{
    let mut out: Vec<KeyStep> = Vec::new();
    let mut shift_held: bool = false;
    let mut i: usize = 0;
    assert(entries@.skip(0) == entries@);
    assert(out@ + decode_steps(entries@, false) == decode_steps(entries@, false));
    while i < entries.len()
        invariant
            i <= entries.len(),
            out@ + decode_steps(entries@.skip(i as int), shift_held) == decode_steps(
                entries@,
                false,
            ),
        decreases entries.len() - i,
    {
        let (kc, shift) = entries[i];
        let ghost before = out@;
        let ghost rest = entries@.skip(i as int);
        assert(rest[0] == entries@[i as int]);
        assert(rest.drop_first() == entries@.skip(i + 1));
        let ghost change = shift_steps(shift_held, shift);
        if shift && !shift_held {
            out.push(KeyStep { keycode: SHIFT_KC, kind: KeyKind::Press, kept: false });
        } else if !shift && shift_held {
            out.push(KeyStep { keycode: SHIFT_KC, kind: KeyKind::Release, kept: false });
        }
        assert(out@ == before + change);
        out.push(KeyStep { keycode: kc, kind: KeyKind::Press, kept: true });
        out.push(KeyStep { keycode: kc, kind: KeyKind::Release, kept: false });
        proof {
            let tail = decode_steps(rest.drop_first(), shift);
            assert(out@ == before + change + stroke_steps(kc));
            assert(before + (change + stroke_steps(kc) + tail) == out@ + tail);
        }
        shift_held = shift;
        i = i + 1;
    }
    assert(entries@.skip(i as int) == Seq::<(u32, bool)>::empty());
    if shift_held {
        out.push(KeyStep { keycode: SHIFT_KC, kind: KeyKind::Release, kept: false });
    }
    assert(out@ == decode_steps(entries@, false));
    out
}

/// The texts of the kept steps, one after the other.
pub open spec fn kept_text(steps: Seq<KeyStep>, outcomes: Seq<Decoded>) -> Seq<char>
    decreases steps.len(),
{
    if steps.len() == 0 {
        Seq::empty()
    } else {
        let before = kept_text(steps.drop_last(), outcomes.take(steps.len() - 1));
        match outcomes[steps.len() - 1].text() {
            Some(s) => if steps.last().kept {
                before + s
            } else {
                before
            },
            None => before,
        }
    }
}

/// What a sequence of `(keycode, shift)` produces in a layout, given what each
/// event of its script meant there. Answers "what would these positional keys
/// look like in the OTHER layout?"
pub fn decode_through_layout(entries: &Vec<(u32, bool)>, outcomes: &Vec<Decoded>) -> (r: String)
    requires
        outcomes@.len() == decode_steps(entries@, false).len(),
    ensures
        r@ == kept_text(decode_steps(entries@, false), outcomes@),
{
    let script = decode_script(entries);
    let mut out = String::new();
    let mut i: usize = 0;
    while i < script.len()
        invariant
            i <= script.len(),
            script@.len() == outcomes@.len(),
            out@ == kept_text(script@.take(i as int), outcomes@.take(i as int)),
        decreases script.len() - i,
    {
        proof {
            assert(script@.take(i + 1).drop_last() == script@.take(i as int));
            assert(outcomes@.take(i + 1).take(i as int) == outcomes@.take(i as int));
            assert(script@.take(i + 1).last() == script@[i as int]);
            assert(outcomes@.take(i + 1)[i as int] == outcomes@[i as int]);
        }
        match &outcomes[i].utf8 {
            Some(s) => {
                if script[i].kept {
                    append(&mut out, s.as_str());
                }
            },
            None => {},
        }
        i = i + 1;
    }
    assert(script@.take(i as int) == script@);
    assert(outcomes@.take(i as int) == outcomes@);
    out
}

/// The positions that a script types: its kept presses, each with the shift
/// state that the other events have left behind.
pub open spec fn positions_typed(steps: Seq<KeyStep>, held: bool) -> Seq<(u32, bool)>
    decreases steps.len(),
{
    if steps.len() == 0 {
        Seq::empty()
    } else if steps[0].kept {
        seq![(steps[0].keycode, held)] + positions_typed(steps.drop_first(), held)
    } else if steps[0].keycode == SHIFT_KC {
        positions_typed(steps.drop_first(), steps[0].kind == KeyKind::Press)
    } else {
        positions_typed(steps.drop_first(), held)
    }
}

/// Whether shift is down after the steps of a script.
pub open spec fn shift_after(steps: Seq<KeyStep>, held: bool) -> bool
    decreases steps.len(),
{
    if steps.len() == 0 {
        held
    } else if steps[0].keycode == SHIFT_KC {
        shift_after(steps.drop_first(), steps[0].kind == KeyKind::Press)
    } else {
        shift_after(steps.drop_first(), held)
    }
}

/// A script types exactly the positions it was made for, in order and with the
/// right shift state, and lets go of shift at the end.
pub proof fn script_types_its_entries(entries: Seq<(u32, bool)>, held: bool)
    requires
        forall|i: int| 0 <= i < entries.len() ==> (#[trigger] entries[i]).0 != SHIFT_KC,
    ensures
        positions_typed(decode_steps(entries, held), held) == entries,
        !shift_after(decode_steps(entries, held), held),
    decreases entries.len(),
{
    reveal_with_fuel(positions_typed, 4);
    reveal_with_fuel(shift_after, 4);
    let all = decode_steps(entries, held);
    if entries.len() == 0 {
        if held {
            assert(all.drop_first().len() == 0);
        }
        assert(positions_typed(all, held) == entries);
    } else {
        let (kc, shift) = entries[0];
        assert(entries[0].0 != SHIFT_KC);
        let rest = entries.drop_first();
        assert forall|i: int| 0 <= i < rest.len() implies (#[trigger] rest[i]).0 != SHIFT_KC by {
            assert(rest[i] == entries[i + 1]);
        }
        script_types_its_entries(rest, shift);
        let tail = decode_steps(rest, shift);
        let strokes = stroke_steps(kc) + tail;
        assert(strokes.drop_first().drop_first() == tail);
        assert(strokes[0] == stroke_steps(kc)[0]);
        assert(strokes.drop_first()[0] == stroke_steps(kc)[1]);
        assert(positions_typed(strokes, shift) == seq![(kc, shift)] + positions_typed(tail, shift));
        assert(seq![(kc, shift)] + rest == entries);
        if held != shift {
            assert(all.drop_first() == strokes);
            assert(all[0] == shift_steps(held, shift)[0]);
        } else {
            assert(all == strokes);
        }
    }
}

/// The outcomes of some key events are those of a keyboard on which the text of a
/// key depends on the key and on whether shift is down, as `keys` gives it. Shift
/// is down from a press of the shift key to its release, where these are not kept
/// themselves.
pub open spec fn answers(
    steps: Seq<KeyStep>,
    held: bool,
    outcomes: Seq<Decoded>,
    keys: spec_fn(u32, bool) -> Seq<char>,
) -> bool
    decreases steps.len(),
{
    &&& outcomes.len() == steps.len()
    &&& steps.len() > 0 ==> {
        &&& steps[0].kept ==> outcomes[0].text() == key_text(
            KeyKind::Press,
            keys(steps[0].keycode, held),
        )
        &&& answers(
            steps.drop_first(),
            if !steps[0].kept && steps[0].keycode == SHIFT_KC {
                steps[0].kind == KeyKind::Press
            } else {
                held
            },
            outcomes.drop_first(),
            keys,
        )
    }
}

/// The texts of some positions, one after the other, each by itself.
pub open spec fn keys_text(
    positions: Seq<(u32, bool)>,
    keys: spec_fn(u32, bool) -> Seq<char>,
) -> Seq<char>
    decreases positions.len(),
{
    if positions.len() == 0 {
        Seq::empty()
    } else {
        keys(positions[0].0, positions[0].1) + keys_text(positions.drop_first(), keys)
    }
}

pub proof fn keys_text_concat(
    a: Seq<(u32, bool)>,
    b: Seq<(u32, bool)>,
    keys: spec_fn(u32, bool) -> Seq<char>,
)
    ensures
        keys_text(a + b, keys) == keys_text(a, keys) + keys_text(b, keys),
    decreases a.len(),
{
    if a.len() == 0 {
        assert(a + b == b);
        assert(keys_text(a, keys) + keys_text(b, keys) == keys_text(b, keys));
    } else {
        assert((a + b).drop_first() == a.drop_first() + b);
        assert((a + b)[0] == a[0]);
        keys_text_concat(a.drop_first(), b, keys);
        let first = keys(a[0].0, a[0].1);
        let x = keys_text(a.drop_first(), keys);
        let y = keys_text(b, keys);
        assert(first + (x + y) == (first + x) + y);
    }
}

/// What one outcome adds to the decoded text.
spec fn kept_part(step: KeyStep, outcome: Decoded) -> Seq<char> {
    match outcome.text() {
        Some(s) => if step.kept {
            s
        } else {
            Seq::empty()
        },
        None => Seq::empty(),
    }
}

proof fn kept_text_from_the_front(steps: Seq<KeyStep>, outcomes: Seq<Decoded>)
    requires
        steps.len() > 0,
        outcomes.len() == steps.len(),
    ensures
        kept_text(steps, outcomes) == kept_part(steps[0], outcomes[0]) + kept_text(
            steps.drop_first(),
            outcomes.drop_first(),
        ),
    decreases steps.len(),
{
    let n = steps.len() - 1;
    let last = kept_part(steps.last(), outcomes[n]);
    let before = kept_text(steps.drop_last(), outcomes.take(n));
    assert(before + Seq::<char>::empty() == before);
    assert(kept_text(steps, outcomes) == before + last);
    let part = kept_part(steps[0], outcomes[0]);
    if n == 0 {
        assert(before == Seq::<char>::empty());
        assert(kept_text(steps.drop_first(), outcomes.drop_first()) == Seq::<char>::empty());
        assert(before + last == part + Seq::<char>::empty());
    } else {
        kept_text_from_the_front(steps.drop_last(), outcomes.take(n));
        let rest = steps.drop_first();
        let more = outcomes.drop_first();
        assert(steps.drop_last().drop_first() == rest.drop_last());
        assert(outcomes.take(n).drop_first() == more.take(n - 1));
        assert(rest.last() == steps.last());
        assert(more[n - 1] == outcomes[n]);
        let middle = kept_text(rest.drop_last(), more.take(n - 1));
        assert(middle + Seq::<char>::empty() == middle);
        assert(kept_text(rest, more) == middle + last);
        assert((part + middle) + last == part + (middle + last));
    }
}

proof fn kept_text_is_the_text_typed(
    steps: Seq<KeyStep>,
    held: bool,
    outcomes: Seq<Decoded>,
    keys: spec_fn(u32, bool) -> Seq<char>,
)
    requires
        answers(steps, held, outcomes, keys),
    ensures
        kept_text(steps, outcomes) == keys_text(positions_typed(steps, held), keys),
    decreases steps.len(),
{
    if steps.len() > 0 {
        kept_text_from_the_front(steps, outcomes);
        let rest = steps.drop_first();
        let next = if !steps[0].kept && steps[0].keycode == SHIFT_KC {
            steps[0].kind == KeyKind::Press
        } else {
            held
        };
        kept_text_is_the_text_typed(rest, next, outcomes.drop_first(), keys);
        let tail = positions_typed(rest, next);
        let text = keys_text(tail, keys);
        if steps[0].kept {
            let all = seq![(steps[0].keycode, held)] + tail;
            assert(all.drop_first() == tail);
            assert(kept_part(steps[0], outcomes[0]) == keys(steps[0].keycode, held));
        } else {
            assert(Seq::<char>::empty() + text == text);
        }
    }
}

/// Each position is decoded on its own shift flag only: what a run comes to is
/// the texts of its positions, one after the other.
pub proof fn decoding_is_keywise(
    entries: Seq<(u32, bool)>,
    outcomes: Seq<Decoded>,
    keys: spec_fn(u32, bool) -> Seq<char>,
)
    requires
        forall|i: int| 0 <= i < entries.len() ==> (#[trigger] entries[i]).0 != SHIFT_KC,
        answers(decode_steps(entries, false), false, outcomes, keys),
    ensures
        kept_text(decode_steps(entries, false), outcomes) == keys_text(entries, keys),
{
    script_types_its_entries(entries, false);
    kept_text_is_the_text_typed(decode_steps(entries, false), false, outcomes, keys);
}

/// Decoding a joined run is the two decodings joined, and an empty run comes to
/// nothing: no shift leaks from one entry, or one run, to the next.
pub proof fn decoding_joins(
    a: Seq<(u32, bool)>,
    b: Seq<(u32, bool)>,
    outcomes_a: Seq<Decoded>,
    outcomes_b: Seq<Decoded>,
    outcomes_ab: Seq<Decoded>,
    keys: spec_fn(u32, bool) -> Seq<char>,
)
    requires
        forall|i: int| 0 <= i < a.len() ==> (#[trigger] a[i]).0 != SHIFT_KC,
        forall|i: int| 0 <= i < b.len() ==> (#[trigger] b[i]).0 != SHIFT_KC,
        answers(decode_steps(a, false), false, outcomes_a, keys),
        answers(decode_steps(b, false), false, outcomes_b, keys),
        answers(decode_steps(a + b, false), false, outcomes_ab, keys),
    ensures
        kept_text(decode_steps(a + b, false), outcomes_ab) == kept_text(
            decode_steps(a, false),
            outcomes_a,
        ) + kept_text(decode_steps(b, false), outcomes_b),
        a.len() == 0 ==> kept_text(decode_steps(a, false), outcomes_a) == Seq::<char>::empty(),
{
    decoding_is_keywise(a, outcomes_a, keys);
    decoding_is_keywise(b, outcomes_b, keys);
    assert forall|i: int| 0 <= i < (a + b).len() implies (#[trigger] (a + b)[i]).0 != SHIFT_KC by {
        if i < a.len() {
            assert((a + b)[i] == a[i]);
        } else {
            assert((a + b)[i] == b[i - a.len()]);
        }
    }
    decoding_is_keywise(a + b, outcomes_ab, keys);
    keys_text_concat(a, b, keys);
}

// ---------------------------------------------------------------------------
// Characters back to positions
// ---------------------------------------------------------------------------

/// How many keycodes of the main block are asked for their text: 1..=83 covers
/// letters, digits and punctuation in evdev.
pub const PROBED_KEYCODES: u32 = 83;

/// The position that probe number `i` asks for: the whole block without shift
/// first, and then with it.
pub open spec fn probe(i: int) -> (u32, bool) {
    if i < 83 {
        ((i + 1) as u32, false)
    } else {
        ((i - 82) as u32, true)
    }
}

/// All probes in order.
pub open spec fn probes() -> Seq<(u32, bool)> {
    Seq::new(166, |i: int| probe(i))
}

pub fn char_map_probes() -> (r: Vec<(u32, bool)>)
    ensures
        r@ == probes(),
{
    let mut out: Vec<(u32, bool)> = Vec::new();
    let mut kc: u32 = 1;
    while kc <= PROBED_KEYCODES
        invariant
            1 <= kc <= 84,
            out@ == Seq::new((kc - 1) as nat, |i: int| probe(i)),
        decreases 84 - kc,
    {
        out.push((kc, false));
        kc = kc + 1;
    }
    kc = 1;
    while kc <= PROBED_KEYCODES
        invariant
            1 <= kc <= 84,
            out@ == Seq::new((kc + 82) as nat, |i: int| probe(i)),
        decreases 84 - kc,
    {
        out.push((kc, true));
        kc = kc + 1;
    }
    out
}

/// The mask under which the probes with or without shift are made: shift itself
/// is a bit of the modifier mask.
pub fn probe_mask(shift_mod: u32, shifted: bool, layout_idx: u32) -> (r: LayoutMask)
    ensures
        r == (LayoutMask {
            depressed_mods: if shifted {
                1u32 << (shift_mod % 32)
            } else {
                0
            },
            locked_layout: layout_idx,
        }),
{
    LayoutMask {
        depressed_mods: if shifted {
            1u32 << (shift_mod % 32)
        } else {
            0
        },
        locked_layout: layout_idx,
    }
}

/// Probe number `i` yields the character `ch`: it is the first of the text
/// found there, and no control character.
pub open spec fn yields(texts: Seq<Seq<char>>, i: int, ch: char) -> bool {
    texts[i].len() > 0 && texts[i][0] == ch && !text::control(ch)
}

/// The first probe to yield a character is number `i`.
pub open spec fn first_yields(texts: Seq<Seq<char>>, i: int, ch: char) -> bool {
    &&& 0 <= i < texts.len()
    &&& yields(texts, i, ch)
    &&& forall|j: int| 0 <= j < i ==> !#[trigger] yields(texts, j, ch)
}

/// Reverse map: character to `(evdev keycode, shift)` in one layout.
#[derive(Debug)]
pub struct CharMap {
    map: HashMap<u32, (u32, bool)>,
}

impl View for CharMap {
    type V = spec_fn(char) -> Option<(u32, bool)>;

    /// Where a character is found.
    closed spec fn view(&self) -> spec_fn(char) -> Option<(u32, bool)> {
        |ch: char|
            if self.map@.contains_key(ch as u32) {
                Some(self.map@[ch as u32])
            } else {
                None
            }
    }
}

impl CharMap {
    /// Where a character is found.
    pub open spec fn at(self, ch: char) -> Option<(u32, bool)> {
        self@(ch)
    }

    /// The map holds what the probed texts say: a character is found where a
    /// probe yields it first, and nowhere if none does.
    pub open spec fn reflects(self, texts: Seq<Seq<char>>) -> bool {
        forall|ch: char|
            match #[trigger] self.at(ch) {
                Some(p) => exists|i: int| #[trigger] first_yields(texts, i, ch) && p == probe(i),
                None => forall|i: int| 0 <= i < texts.len() ==> !#[trigger] yields(texts, i, ch),
            }
    }

    pub fn get(&self, ch: &char) -> (r: Option<&(u32, bool)>)
        ensures
            match r {
                Some(p) => self.at(*ch) == Some(*p),
                None => self.at(*ch) is None,
            },
    {
        let key: u32 = *ch as u32;
        self.map.get(&key)
    }
}

/// Builds the reverse map of a layout from the texts of its probes. Earlier
/// probes win, which biases toward the unshifted form when both reach the same
/// character. AltGr layers are not probed; en/ru don't need them.
pub fn build_char_map(texts: &Vec<String>) -> (r: CharMap)
    requires
        texts@.len() == probes().len(),
    ensures
        r.reflects(text::views(texts@)),
{
    let positions = char_map_probes();
    let ghost all = text::views(texts@);
    let mut m = CharMap { map: HashMap::new() };
    let mut i: usize = 0;
    assert(m.reflects(all.take(0)));
    while i < texts.len()
        invariant
            i <= texts.len(),
            texts@.len() == probes().len(),
            positions@ == probes(),
            all == text::views(texts@),
            m.reflects(all.take(i as int)),
        decreases texts.len() - i,
    {
        let chars = chars_of(texts[i].as_str());
        let ghost seen = all.take(i as int);
        let ghost next = all.take(i + 1);
        let ghost before = m;
        assert(next[i as int] == chars@);
        assert forall|j: int, ch: char| 0 <= j < i implies #[trigger] yields(next, j, ch) == yields(
            seen,
            j,
            ch,
        ) by {}
        if chars.len() > 0 && !is_control(chars[0]) {
            let key: u32 = chars[0] as u32;
            if !m.map.contains_key(&key) {
                m.map.insert(key, positions[i]);
            }
        }
        proof {
            assert forall|ch: char|
                match #[trigger] m.at(ch) {
                    Some(p) => exists|k: int| #[trigger] first_yields(next, k, ch) && p == probe(k),
                    None => forall|k: int| 0 <= k < next.len() ==> !#[trigger] yields(next, k, ch),
                } by {
                match before.at(ch) {
                    Some(p) => {
                        let k = choose|k: int| #[trigger] first_yields(seen, k, ch) && p == probe(k);
                        assert(first_yields(next, k, ch));
                        assert(m.at(ch) == Some(p));
                    },
                    None => {
                        assert forall|j: int| 0 <= j < i implies !#[trigger] yields(
                            next,
                            j,
                            ch,
                        ) by {
                            assert(!yields(seen, j, ch));
                        }
                        if yields(next, i as int, ch) {
                            assert(first_yields(next, i as int, ch));
                            assert(positions@[i as int] == probe(i as int));
                            assert(m.at(ch) == Some(probe(i as int)));
                        } else {
                            text::code_points_differ(ch, chars@[0]);
                            assert(m.at(ch) is None);
                        }
                    },
                }
            }
        }
        i = i + 1;
    }
    assert(all.take(i as int) == all);
    m
}

/// The reverse map is sound: the key it gives for a character does produce a
/// text that begins with it.
pub proof fn mapped_key_produces_its_char(m: CharMap, texts: Seq<Seq<char>>, ch: char)
    requires
        m.reflects(texts),
        texts.len() == probes().len(),
    ensures
        m.at(ch) matches Some(p) ==> exists|i: int|
            0 <= i < texts.len() && probes()[i] == p && #[trigger] yields(texts, i, ch),
{
    if m.at(ch) is Some {
        let p = m.at(ch)->0;
        let i = choose|i: int| #[trigger] first_yields(texts, i, ch) && p == probe(i);
        assert(yields(texts, i, ch));
        assert(probes()[i] == p);
    }
}

/// The number of the probe that asks for a position.
pub open spec fn probe_number(kc: u32, shift: bool) -> int {
    if shift {
        kc + 82
    } else {
        kc - 1
    }
}

/// The keyboard that the probed texts describe.
pub open spec fn probed_keys(texts: Seq<Seq<char>>) -> spec_fn(u32, bool) -> Seq<char> {
    |kc: u32, shift: bool| texts[probe_number(kc, shift)]
}

/// A character that some key produces without shift is never mapped to a
/// shifted key.
pub proof fn unshifted_form_wins(m: CharMap, texts: Seq<Seq<char>>, ch: char, i: int)
    requires
        m.reflects(texts),
        texts.len() == probes().len(),
        0 <= i < 83,
        yields(texts, i, ch),
    ensures
        m.at(ch) matches Some(p) && !p.1,
{
    match m.at(ch) {
        Some(p) => {
            let k = choose|k: int| #[trigger] first_yields(texts, k, ch) && p == probe(k);
            assert(k <= i);
        },
        None => {
            assert(!yields(texts, i, ch));
        },
    }
}

// ---------------------------------------------------------------------------
// A single layout with its variant
// ---------------------------------------------------------------------------

/// The first layout of a list, split into its name and the variant that stands
/// in parentheses behind it.
pub open spec fn first_layout(s: Seq<char>) -> (Seq<char>, Seq<char>) {
    let first = text::trimmed(s.take(text::find_char(s, ',')));
    let k = text::find_char(first, '(');
    if k + 1 < first.len() && first.last() == ')' {
        (first.take(k), first.subrange(k + 1, first.len() - 1))
    } else {
        (first, Seq::empty())
    }
}

pub fn parse_layout(s: &str) -> (r: (String, String))
    ensures
        (r.0@, r.1@) == first_layout(s@),
{
    let chars = chars_of(s);
    assert(chars@.subrange(0, chars@.len() as int) == s@);
    let comma: usize = find_from(chars.as_slice(), ',', 0);
    let head = string_between(chars.as_slice(), 0, comma);
    assert(head@ == s@.take(text::find_char(s@, ',')));
    let first = chars_of(trim(head.as_str()));
    let n: usize = first.len();
    assert(first@.subrange(0, n as int) == first@);
    let k: usize = find_from(first.as_slice(), '(', 0);
    if k < n && k + 1 < n && first[n - 1] == ')' {
        (
            string_between(first.as_slice(), 0, k),
            string_between(first.as_slice(), k + 1, n - 1),
        )
    } else {
        (string_between(first.as_slice(), 0, n), String::new())
    }
}

/// The keysyms that count as modifiers are Shift, Control, Caps Lock, Shift Lock,
/// Meta, Alt, Super and Hyper of either side, Num Lock and the two ISO level
/// shifts; those that move the cursor are Home, the arrows, the page keys, End and
/// Escape.
pub proof fn the_keysyms_by_number(sym: u32)
    ensures
        modifier_keysym(sym) <==> sym == 0xffe1 || sym == 0xffe2 || sym == 0xffe3 || sym == 0xffe4
            || sym == 0xffe5 || sym == 0xffe6 || sym == 0xffe7 || sym == 0xffe8 || sym == 0xffe9
            || sym == 0xffea || sym == 0xffeb || sym == 0xffec || sym == 0xffed || sym == 0xffee
            || sym == 0xff7f || sym == 0xfe03 || sym == 0xfe11,
        navigation_keysym(sym) <==> sym == 0xff50 || sym == 0xff51 || sym == 0xff52 || sym == 0xff53
            || sym == 0xff54 || sym == 0xff55 || sym == 0xff56 || sym == 0xff57 || sym == 0xff1b,
{
}

/// A press and a repeat have the text that the keymap has for the key, whatever it
/// is, and a release has none; an empty text is none.
pub proof fn keys_have_the_text_of_the_keymap(
    d: Decoded,
    kind: KeyKind,
    text: Seq<char>,
    keysym: u32,
)
    requires
        d.means(kind, text, keysym),
    ensures
        kind == KeyKind::Release || text.len() == 0 ==> d.utf8 is None,
        kind != KeyKind::Release && text.len() > 0 ==> d.utf8 is Some && d.utf8->0@ == text,
        d.text() is Some <==> d.utf8 is Some,
        d.utf8 matches Some(s) ==> d.text() == Some(s@),
        d.text() == key_text(kind, text),
        d.keysym == keysym,
        d.is_modifier == modifier_keysym(keysym),
        d.is_navigation == navigation_keysym(keysym),
{
}

/// The layout after a layout is the one with the next index, and after the last
/// one comes the first.
pub proof fn the_next_layout_is_one_further(s: XkbState, idx: u32)
    requires
        s.wf(),
        idx < s.names().len(),
    ensures
        idx + 1 < s.names().len() ==> s.next_index(idx) == idx + 1,
        idx + 1 == s.names().len() ==> s.next_index(idx) == 0,
{
    let n = s.names().len() as int;
    if idx + 1 < n {
        vstd::arithmetic::div_mod::lemma_small_mod((idx + 1) as nat, n as nat);
    } else {
        vstd::arithmetic::div_mod::lemma_mod_self_0(n);
    }
}

/// Indices past the last layout go round: an index and the same index plus the
/// number of layouts have the same successor.
pub proof fn indices_go_round(s: XkbState, idx: u32)
    requires
        s.wf(),
        idx + s.names().len() < u32::MAX,
    ensures
        s.next_index((idx + s.names().len()) as u32) == s.next_index(idx),
{
    let n = s.names().len() as int;
    vstd::arithmetic::div_mod::lemma_mod_add_multiples_vanish(idx + 1, n);
    assert((n + (idx + 1)) % n == (idx + 1) % n);
}

/// The name of a layout is the item of the list at its index.
pub proof fn layouts_are_named_by_index(s: XkbState, idx: u32)
    ensures
        idx < s.names().len() ==> s.name_at(idx) == s.names()[idx as int],
        idx >= s.names().len() ==> s.name_at(idx).len() == 0,
{
}

/// Decoding goes key by key: shift is pressed or let go where the next key needs
/// it, the key is pressed for its text and released, and at the end shift is let
/// go.
pub proof fn decoding_goes_key_by_key(entries: Seq<(u32, bool)>, held: bool)
    ensures
        entries.len() == 0 && !held ==> decode_steps(entries, held).len() == 0,
        entries.len() == 0 && held ==> decode_steps(entries, held) == seq![
            KeyStep { keycode: 42, kind: KeyKind::Release, kept: false },
        ],
        entries.len() > 0 ==> ({
            let (kc, shift) = entries[0];
            let strokes = seq![
                KeyStep { keycode: kc, kind: KeyKind::Press, kept: true },
                KeyStep { keycode: kc, kind: KeyKind::Release, kept: false },
            ] + decode_steps(entries.skip(1), shift);
            decode_steps(entries, held) == if held == shift {
                strokes
            } else {
                seq![
                    KeyStep {
                        keycode: 42,
                        kind: if shift {
                            KeyKind::Press
                        } else {
                            KeyKind::Release
                        },
                        kept: false,
                    },
                ] + strokes
            }
        }),
{
    if entries.len() > 0 {
        assert(entries.skip(1) == entries.drop_first());
    }
}

/// The decoded text grows by the text of each kept event, all of it, and by
/// nothing else.
pub proof fn kept_texts_are_joined(
    steps: Seq<KeyStep>,
    outcomes: Seq<Decoded>,
    step: KeyStep,
    outcome: Decoded,
)
    requires
        outcomes.len() == steps.len(),
    ensures
        kept_text(Seq::empty(), Seq::empty()) == Seq::<char>::empty(),
        step.kept && outcome.utf8 is Some ==> kept_text(steps.push(step), outcomes.push(outcome))
            == kept_text(steps, outcomes) + outcome.utf8->0@,
        !step.kept || outcome.utf8 is None ==> kept_text(steps.push(step), outcomes.push(outcome))
            == kept_text(steps, outcomes),
{
    assert(steps.push(step).drop_last() == steps);
    assert(steps.push(step).last() == step);
    assert(outcomes.push(outcome).take(steps.len() as int) == outcomes);
    assert(outcomes.push(outcome)[steps.len() as int] == outcome);
}

/// The probes ask for the keys 1 to 83, first without and then with shift.
pub proof fn the_probes_by_number(i: int)
    requires
        0 <= i < 166,
    ensures
        probes().len() == 166,
        i < 83 ==> probes()[i] == ((i + 1) as u32, false),
        i >= 83 ==> probes()[i] == ((i - 82) as u32, true),
{
}

/// A character is mapped to the first key whose text begins with it, the keys 1 to
/// 83 taken without shift first and then with it. One that no key has, or that is
/// a control character, is not mapped.
pub proof fn the_first_key_with_a_character_wins(
    m: CharMap,
    texts: Seq<Seq<char>>,
    ch: char,
    i: int,
)
    requires
        m.reflects(texts),
        texts.len() == 166,
    ensures
        0 <= i < 166 && texts[i].len() > 0 && texts[i][0] == ch && !text::control(ch) && (forall|
            j: int,
        |
            0 <= j < i ==> (#[trigger] texts[j]).len() == 0 || texts[j][0] != ch) ==> m.at(ch)
            == if i < 83 {
            Some(((i + 1) as u32, false))
        } else {
            Some(((i - 82) as u32, true))
        },
        (forall|j: int| 0 <= j < 166 ==> (#[trigger] texts[j]).len() == 0 || texts[j][0] != ch)
            ==> m.at(ch) is None,
        text::control(ch) ==> m.at(ch) is None,
{
    match m.at(ch) {
        Some(p) => {
            let k = choose|k: int| #[trigger] first_yields(texts, k, ch) && p == probe(k);
            assert(yields(texts, k, ch));
            assert(texts[k].len() > 0 && texts[k][0] == ch);
            if 0 <= i < 166 && texts[i].len() > 0 && texts[i][0] == ch && !text::control(ch) && (
            forall|j: int| 0 <= j < i ==> (#[trigger] texts[j]).len() == 0 || texts[j][0] != ch) {
                assert(yields(texts, i, ch));
                assert(k <= i);
                assert(k >= i);
            }
        },
        None => {
            if 0 <= i < 166 && texts[i].len() > 0 && texts[i][0] == ch && !text::control(ch) {
                assert(yields(texts, i, ch));
            }
        },
    }
}

/// The first layout of a list is what stands in front of the first comma, without
/// the white space around it. Where it ends in a variant in parentheses, name and
/// variant are what stands in front of the first parenthesis and between it and
/// the last one; where it does not, it is all name.
pub proof fn a_variant_stands_in_parentheses(
    first: Seq<char>,
    rest: Seq<char>,
    name: Seq<char>,
    variant: Seq<char>,
)
    requires
        forall|i: int| 0 <= i < first.len() ==> #[trigger] first[i] != ',',
        rest.len() > 0 ==> rest[0] == ',',
        forall|i: int| 0 <= i < name.len() ==> #[trigger] name[i] != '(',
    ensures
        text::trimmed(first) == name + seq!['('] + variant + seq![')'] ==> first_layout(
            first + rest,
        ) == (name, variant),
        text::trimmed(first) == name ==> first_layout(first + rest) == (name, Seq::<char>::empty()),
        text::trimmed(first).len() > 0 && text::trimmed(first).last() != ')' ==> first_layout(
            first + rest,
        ) == (text::trimmed(first), Seq::<char>::empty()),
{
    let s = first + rest;
    text::find_char_bounds(s, ',');
    let c = text::find_char(s, ',');
    assert(c == first.len()) by {
        if c < first.len() {
            assert(s[c] == first[c]);
        } else if c > first.len() {
            assert(s[first.len() as int] == rest[0]);
        }
    }
    assert(s.take(c) == first);
    let t = text::trimmed(first);
    text::find_char_bounds(t, '(');
    let k = text::find_char(t, '(');
    if t == name + seq!['('] + variant + seq![')'] {
        assert(t[name.len() as int] == '(');
        assert(k == name.len()) by {
            if k < name.len() {
                assert(t[k] == name[k]);
            }
        }
        assert(t.last() == ')');
        assert(t.take(k) == name);
        assert(t.subrange(k + 1, t.len() - 1) == variant);
    }
    if t == name {
        assert(k == t.len()) by {
            if k < t.len() {
                assert(t[k] == name[k]);
            }
        }
    }
}

/// A key is asked for under its number plus eight. A press reads the text and goes
/// down, a release reads no text and goes up, a repeat reads the text and moves
/// nothing.
pub proof fn how_a_key_is_asked_for(kc: u32, kind: KeyKind, r: KeyCall)
    requires
        call_ensures(key_call, (kc, kind), r),
    ensures
        r.xkb_keycode == kc + 8,
        kind == KeyKind::Press ==> r.wants_text && r.change == Some(true),
        kind == KeyKind::Release ==> !r.wants_text && r.change == Some(false),
        kind == KeyKind::Repeat ==> r.wants_text && r.change is None,
{
}

/// Only what has no text counts as a modifier or as a navigation key in the log.
pub proof fn text_counts_most(d: &Decoded, r: PressKind)
    requires
        call_ensures(press_kind, (d,), r),
    ensures
        r == PressKind::Printable <==> d.utf8 is Some,
        r == PressKind::Modifier <==> d.utf8 is None && d.is_modifier,
        r == PressKind::Navigation <==> d.utf8 is None && !d.is_modifier && d.is_navigation,
{
}

/// Locking a layout makes it the active one, forgets the modifiers and leaves the
/// lists alone.
pub proof fn locking_makes_a_layout_active(s: &mut XkbState, idx: u32, r: LayoutMask)
    requires
        call_ensures(XkbState::set_active_layout, (s, idx), r),
    ensures
        final(s).active() == idx,
        r.locked_layout == idx,
        r.depressed_mods == 0,
        final(s).names() == old(s).names(),
        final(s).variant_names() == old(s).variant_names(),
{
}

/// A layout list is taken exactly if its keymap compiles; its items are the layouts
/// and the first one is active. What was rejected stands in the error.
pub proof fn layouts_are_taken_if_they_compile(
    layouts: &str,
    variants: &str,
    compiled: bool,
    r: Result<XkbState, Error>,
)
    requires
        call_ensures(XkbState::new, (layouts, variants, compiled), r),
    ensures
        r is Ok <==> compiled,
        r matches Ok(s) ==> s.names() == text::list_items(layouts@) && s.variant_names()
            == text::list_items(variants@) && s.active() == 0,
        r matches Err(e) ==> e matches Error::XkbCompile { layout, variant } && layout@ == layouts@
            && variant@ == variants@,
{
}

/// Without shift no modifier is depressed, and with it the bit of shift alone; the
/// layout is the one that is asked about.
pub proof fn probes_depress_shift_only(shift_mod: u32, shifted: bool, idx: u32, r: LayoutMask)
    requires
        call_ensures(probe_mask, (shift_mod, shifted, idx), r),
    ensures
        r.locked_layout == idx,
        !shifted ==> r.depressed_mods == 0,
        shifted && shift_mod == 0 ==> r.depressed_mods == 1,
        shifted && shift_mod < 32 ==> r.depressed_mods == 1u32 << shift_mod,
        shifted ==> r.depressed_mods == 1u32 << (shift_mod % 32),
{
    assert(1u32 << 0 == 1u32) by (bit_vector);
    if shift_mod < 32 {
        assert(shift_mod % 32 == shift_mod);
    }
}

/// What the functions of this module give back, for every input: the keys to ask
/// for, the text that they come to, the reverse map, and a layout with its variant.
pub proof fn words_go_through_a_layout_and_back(
    entries: &Vec<(u32, bool)>,
    outcomes: &Vec<Decoded>,
    script: Vec<KeyStep>,
    decoded: String,
    asked: Vec<(u32, bool)>,
    texts: &Vec<String>,
    map: CharMap,
    list: &str,
    layout: (String, String),
)
    requires
        call_ensures(decode_script, (entries,), script),
        call_ensures(decode_through_layout, (entries, outcomes), decoded),
        call_ensures(char_map_probes, (), asked),
        call_ensures(build_char_map, (texts,), map),
        call_ensures(parse_layout, (list,), layout),
    ensures
        script@ == decode_steps(entries@, false),
        decoded@ == kept_text(script@, outcomes@),
        asked@.len() == 166,
        asked@[0] == (1u32, false) && asked@[82] == (83u32, false) && asked@[83] == (1u32, true)
            && asked@[165] == (83u32, true),
        map.reflects(text::views(texts@)),
        layout.0@ == first_layout(list@).0 && layout.1@ == first_layout(list@).1,
{
}

/// Keys are understood by the text and the keysym of the keymap; layouts are found
/// by index, the one after the last being the first; characters are found where the
/// map has them.
pub proof fn keys_layouts_and_characters_are_found(
    s: &XkbState,
    kind: KeyKind,
    text: String,
    keysym: u32,
    decoded: Decoded,
    idx: u32,
    next: u32,
    name: &str,
    n: u32,
    map: &CharMap,
    ch: &char,
    found: Option<&(u32, bool)>,
)
    requires
        s.wf(),
        idx < s.names().len(),
        call_ensures(XkbState::process, (s, kind, text, keysym), decoded),
        call_ensures(XkbState::index_after, (s, idx), next),
        call_ensures(XkbState::layout_name, (s, idx), name),
        call_ensures(XkbState::count, (s,), n),
        call_ensures(CharMap::get, (map, ch), found),
    ensures
        decoded.means(kind, text@, keysym),
        next == if idx + 1 < s.names().len() {
            idx + 1
        } else {
            0
        },
        name@ == s.names()[idx as int],
        n == s.names().len(),
        found is Some <==> map.at(*ch) is Some,
        found matches Some(p) ==> map.at(*ch) == Some(*p),
{
    the_next_layout_is_one_further(*s, idx);
}

} // verus!
