//! What the virtual keyboard types. A script is the list of things to do with
//! the injection device, in order: send key changes, wait, have the compositor
//! switch its layout. Each item ends in an event frame of its own; a failure in
//! one leaves the rest undone.

use vstd::prelude::*;

use crate::engine::state::WordEntry;
use crate::error::Error;
use crate::text;
use crate::text::{append, append_decimal};

verus! {

/// One key going down (1) or up (0).
#[derive(Debug, Clone, Copy, PartialEq, Eq, Structural)]
pub struct KeyChange {
    pub code: u16,
    pub value: i32,
}

#[derive(Debug, Clone, Copy, PartialEq, Eq, Structural)]
pub enum Step {
    /// Send one key change in a frame of its own.
    Emit(KeyChange),
    /// Send two key changes in one frame.
    EmitBoth(KeyChange, KeyChange),
    /// Wait this many microseconds.
    Pause(u64),
    /// Have the compositor pin every keyboard to this layout.
    SwitchLayout(u32),
}

/// Why a script cannot be carried through: a keycode that no event can hold.
#[derive(Debug, Clone, Copy, PartialEq, Eq, Structural)]
pub enum Fault {
    /// The keycode of a typed key.
    Keycode(u32),
    /// The keycode that ended an earlier word.
    PrevBoundary(u32),
    /// The keycode that ended the word.
    Boundary(u32),
}

/// The error message for a fault.
pub open spec fn fault_text(f: Fault) -> Seq<char> {
    match f {
        Fault::Keycode(kc) => "keycode "@ + text::decimal(kc as nat) + " out of range for uinput"@,
        Fault::PrevBoundary(kc) => "prev boundary kc "@ + text::decimal(kc as nat)
            + " out of range"@,
        Fault::Boundary(kc) => "boundary kc "@ + text::decimal(kc as nat) + " out of range"@,
    }
}

impl Fault {
    pub fn to_error(&self) -> (r: Error)
        ensures
            r matches Error::Evdev(m) && m@ == fault_text(*self),
    {
        let mut m = String::new();
        match self {
            Fault::Keycode(kc) => {
                append(&mut m, "keycode ");
                append_decimal(&mut m, *kc);
                append(&mut m, " out of range for uinput");
            },
            Fault::PrevBoundary(kc) => {
                append(&mut m, "prev boundary kc ");
                append_decimal(&mut m, *kc);
                append(&mut m, " out of range");
            },
            Fault::Boundary(kc) => {
                append(&mut m, "boundary kc ");
                append_decimal(&mut m, *kc);
                append(&mut m, " out of range");
            },
        }
        assert(m@ == fault_text(*self));
        Error::Evdev(m)
    }
}

/// A script: steps to carry out and, if they end in a fault, that fault.
#[derive(Debug)]
pub struct Script {
    pub steps: Vec<Step>,
    pub fault: Option<Fault>,
}

/// The model of a script.
#[verifier::ext_equal]
pub struct ScriptView {
    pub steps: Seq<Step>,
    pub fault: Option<Fault>,
}

impl View for Script {
    type V = ScriptView;

    open spec fn view(&self) -> ScriptView {
        ScriptView { steps: self.steps@, fault: self.fault }
    }
}

/// A script without a fault.
pub open spec fn plain(steps: Seq<Step>) -> ScriptView {
    ScriptView { steps, fault: None }
}

/// Two scripts one after the other: after a fault nothing more is done.
pub open spec fn chain(a: ScriptView, b: ScriptView) -> ScriptView {
    if a.fault is Some {
        a
    } else {
        ScriptView { steps: a.steps + b.steps, fault: b.fault }
    }
}

/// Pause between batched emissions. Without it, very fast streams of synthetic
/// events occasionally race the focused client's input handling.
pub const INTER_EVENT_PAUSE_US: u64 = 800;

pub const KEY_BACKSPACE: u16 = 14;

pub const KEY_LEFTSHIFT: u16 = 42;

pub const KEY_RIGHTSHIFT: u16 = 54;

pub open spec fn down(code: u16) -> Step {
    Step::Emit(KeyChange { code, value: 1 })
}

pub open spec fn up(code: u16) -> Step {
    Step::Emit(KeyChange { code, value: 0 })
}

/// A key tap. Press and release stand in separate frames: some clients drop a
/// key event when both land in the same frame.
pub open spec fn tap(code: u16) -> Seq<Step> {
    seq![down(code), Step::Pause(INTER_EVENT_PAUSE_US), up(code), Step::Pause(INTER_EVENT_PAUSE_US)]
}

/// `n` taps on backspace.
pub open spec fn backspace_taps(n: nat) -> Seq<Step>
    decreases n,
{
    if n == 0 {
        Seq::empty()
    } else {
        backspace_taps((n - 1) as nat) + tap(KEY_BACKSPACE)
    }
}

/// What brings the injected shift key from `held` to `want`.
pub open spec fn shift_change(held: bool, want: bool) -> Seq<Step> {
    if want && !held {
        seq![down(KEY_LEFTSHIFT)]
    } else if !want && held {
        seq![up(KEY_LEFTSHIFT)]
    } else {
        Seq::empty()
    }
}

/// Typing a run of keys, shift being `held` at first and let go at the end.
pub open spec fn typing(entries: Seq<WordEntry>, held: bool) -> ScriptView
    decreases entries.len(),
{
    if entries.len() == 0 {
        plain(shift_change(held, false))
    } else {
        let e = entries[0];
        if e.keycode > u16::MAX {
            ScriptView { steps: Seq::empty(), fault: Some(Fault::Keycode(e.keycode)) }
        } else {
            chain(
                plain(shift_change(held, e.shift) + tap(e.keycode as u16)),
                typing(entries.drop_first(), e.shift),
            )
        }
    }
}

/// Both shift keys are let go, in case the user holds one when typing starts.
pub open spec fn release_shifts() -> Seq<Step> {
    seq![
        Step::EmitBoth(
            KeyChange { code: KEY_LEFTSHIFT, value: 0 },
            KeyChange { code: KEY_RIGHTSHIFT, value: 0 },
        ),
        Step::Pause(INTER_EVENT_PAUSE_US),
    ]
}

/// Replaying a previously typed run of keys.
pub open spec fn replay(entries: Seq<WordEntry>) -> ScriptView {
    chain(plain(release_shifts()), typing(entries, false))
}

/// A tap on a key whose code may be too large.
pub open spec fn checked_tap(kc: u32, fault: Fault) -> ScriptView {
    if kc > u16::MAX {
        ScriptView { steps: Seq::empty(), fault: Some(fault) }
    } else {
        plain(tap(kc as u16))
    }
}

/// Chaining scripts is associative.
pub proof fn chain_assoc(a: ScriptView, b: ScriptView, c: ScriptView)
    ensures
        chain(chain(a, b), c) == chain(a, chain(b, c)),
{
    assert(chain(chain(a, b), c).steps == chain(a, chain(b, c)).steps);
}

impl Script {
    pub fn new() -> (r: Script)
        ensures
            r@ == plain(Seq::empty()),
    {
        Script { steps: Vec::new(), fault: None }
    }

    /// Adds a step, unless the script has already ended in a fault.
    pub fn step(&mut self, s: Step)
        ensures
            final(self)@ == chain(old(self)@, plain(seq![s])),
    {
        if self.fault.is_none() {
            self.steps.push(s);
        }
        assert(self@ == chain(old(self)@, plain(seq![s])));
    }

    /// Ends the script in a fault, unless it has already.
    fn fail(&mut self, f: Fault)
        ensures
            final(self)@ == chain(
                old(self)@,
                ScriptView { steps: Seq::empty(), fault: Some(f) },
            ),
    {
        if self.fault.is_none() {
            self.fault = Some(f);
        }
        assert(self@ == chain(old(self)@, ScriptView { steps: Seq::empty(), fault: Some(f) }));
    }

    /// Adds a key tap.
    pub fn press_release(&mut self, keycode: u16)
        ensures
            final(self)@ == chain(old(self)@, plain(tap(keycode))),
    {
        self.step(Step::Emit(KeyChange { code: keycode, value: 1 }));
        self.step(Step::Pause(INTER_EVENT_PAUSE_US));
        self.step(Step::Emit(KeyChange { code: keycode, value: 0 }));
        self.step(Step::Pause(INTER_EVENT_PAUSE_US));
        assert(self@ == chain(old(self)@, plain(tap(keycode))));
    }

    /// Adds a tap on the key `kc`, or the fault if no event can hold it.
    pub fn press_release_checked(&mut self, kc: u32, fault: Fault)
        ensures
            final(self)@ == chain(old(self)@, checked_tap(kc, fault)),
    {
        if kc > u16::MAX as u32 {
            self.fail(fault);
        } else {
            self.press_release(kc as u16);
        }
    }

    /// Adds `n` taps on backspace.
    pub fn backspaces(&mut self, n: usize)
        ensures
            final(self)@ == chain(old(self)@, plain(backspace_taps(n as nat))),
    {
        let mut i: usize = 0;
        assert(self@ == chain(old(self)@, plain(backspace_taps(0))));
        while i < n
            invariant
                i <= n,
                self@ == chain(old(self)@, plain(backspace_taps(i as nat))),
            decreases n - i,
        {
            let ghost before = self@;
            self.press_release(KEY_BACKSPACE);
            i = i + 1;
            proof {
                chain_assoc(
                    old(self)@,
                    plain(backspace_taps((i - 1) as nat)),
                    plain(tap(KEY_BACKSPACE)),
                );
                assert(chain(
                    plain(backspace_taps((i - 1) as nat)),
                    plain(tap(KEY_BACKSPACE)),
                ) == plain(backspace_taps(i as nat)));
            }
        }
    }

    fn shift_to(&mut self, held: bool, want: bool)
        ensures
            final(self)@ == chain(old(self)@, plain(shift_change(held, want))),
    {
        if want && !held {
            self.step(Step::Emit(KeyChange { code: KEY_LEFTSHIFT, value: 1 }));
        } else if !want && held {
            self.step(Step::Emit(KeyChange { code: KEY_LEFTSHIFT, value: 0 }));
        } else {
            assert(self@ == chain(old(self)@, plain(Seq::empty())));
        }
    }

    /// Adds the replay of a previously typed run of keys, with shift around
    /// those that need it. The layout must have been switched before.
    pub fn replay_entries(&mut self, entries: &Vec<WordEntry>)
        ensures
            final(self)@ == chain(old(self)@, replay(entries@)),
    {
        self.step(
            Step::EmitBoth(
                KeyChange { code: KEY_LEFTSHIFT, value: 0 },
                KeyChange { code: KEY_RIGHTSHIFT, value: 0 },
            ),
        );
        self.step(Step::Pause(INTER_EVENT_PAUSE_US));
        let ghost start = old(self)@;
        proof {
            assert(self@ == chain(start, plain(release_shifts())));
            chain_assoc(start, plain(release_shifts()), typing(entries@, false));
            assert(entries@.skip(0) == entries@);
        }
        let mut held: bool = false;
        let mut i: usize = 0;
        while i < entries.len()
            invariant
                i <= entries.len(),
                start == old(self)@,
                chain(self@, typing(entries@.skip(i as int), held)) == chain(
                    start,
                    replay(entries@),
                ),
            decreases entries.len() - i,
        {
            let e = entries[i];
            let ghost rest = entries@.skip(i as int);
            let ghost before = self@;
            proof {
                assert(rest[0] == e);
                assert(rest.drop_first() == entries@.skip(i + 1));
            }
            if e.keycode > u16::MAX as u32 {
                self.fail(Fault::Keycode(e.keycode));
                assert(self@ == chain(before, typing(rest, held)));
                return;
            }
            self.shift_to(held, e.shift);
            self.press_release(e.keycode as u16);
            proof {
                let a = plain(shift_change(held, e.shift));
                let b = plain(tap(e.keycode as u16));
                chain_assoc(before, a, b);
                assert(chain(a, b) == plain(shift_change(held, e.shift) + tap(e.keycode as u16)));
                chain_assoc(before, chain(a, b), typing(rest.drop_first(), e.shift));
            }
            held = e.shift;
            i = i + 1;
        }
        assert(entries@.skip(i as int) == Seq::<WordEntry>::empty());
        self.shift_to(held, false);
    }
}

/// The keycodes that the injection device registers: every key, so that replay
/// does not depend on the layout.
pub fn injector_keys() -> (r: Vec<u16>)
    ensures
        r@ == Seq::new(255, |i: int| (i + 1) as u16),
{
    let mut out: Vec<u16> = Vec::new();
    let mut kc: u16 = 1;
    while kc <= 255
        invariant
            1 <= kc <= 256,
            out@ == Seq::new((kc - 1) as nat, |i: int| (i + 1) as u16),
        decreases 256 - kc,
    {
        out.push(kc);
        kc = kc + 1;
    }
    out
}

// ---------------------------------------------------------------------------
// Laws
// ---------------------------------------------------------------------------

/// The keys that are down after a step, given those that were.
pub open spec fn keys_after_step(s: Step, held: Set<u16>) -> Set<u16> {
    match s {
        Step::Emit(k) => key_after(k, held),
        Step::EmitBoth(a, b) => key_after(b, key_after(a, held)),
        _ => held,
    }
}

pub open spec fn key_after(k: KeyChange, held: Set<u16>) -> Set<u16> {
    if k.value == 0 {
        held.remove(k.code)
    } else {
        held.insert(k.code)
    }
}

/// The keys that are down after some steps, given those that were.
pub open spec fn keys_after(steps: Seq<Step>, held: Set<u16>) -> Set<u16>
    decreases steps.len(),
{
    if steps.len() == 0 {
        held
    } else {
        keys_after(steps.drop_first(), keys_after_step(steps[0], held))
    }
}

/// The key that a key change types, if it goes down and is not shift, with
/// whether shift is down at that moment.
pub open spec fn key_typed(k: KeyChange, held: Set<u16>) -> Seq<(u16, bool)> {
    if k.value != 0 && k.code != KEY_LEFTSHIFT {
        seq![(k.code, held.contains(KEY_LEFTSHIFT))]
    } else {
        Seq::empty()
    }
}

/// The keys that a step types.
pub open spec fn step_typed(s: Step, held: Set<u16>) -> Seq<(u16, bool)> {
    match s {
        Step::Emit(k) => key_typed(k, held),
        Step::EmitBoth(a, b) => key_typed(a, held) + key_typed(b, key_after(a, held)),
        _ => Seq::empty(),
    }
}

/// The keys that some steps type, in order.
pub open spec fn keys_typed(steps: Seq<Step>, held: Set<u16>) -> Seq<(u16, bool)>
    decreases steps.len(),
{
    if steps.len() == 0 {
        Seq::empty()
    } else {
        step_typed(steps[0], held) + keys_typed(
            steps.drop_first(),
            keys_after_step(steps[0], held),
        )
    }
}

pub proof fn keys_concat(a: Seq<Step>, b: Seq<Step>, held: Set<u16>)
    ensures
        keys_after(a + b, held) == keys_after(b, keys_after(a, held)),
        keys_typed(a + b, held) == keys_typed(a, held) + keys_typed(b, keys_after(a, held)),
    decreases a.len(),
{
    if a.len() == 0 {
        assert(a + b == b);
        assert(keys_typed(a, held) + keys_typed(b, held) == keys_typed(b, held));
    } else {
        assert((a + b).drop_first() == a.drop_first() + b);
        let next = keys_after_step(a[0], held);
        keys_concat(a.drop_first(), b, next);
        let one = step_typed(a[0], held);
        let rest = keys_typed(a.drop_first(), next);
        let tail = keys_typed(b, keys_after(a.drop_first(), next));
        assert((one + rest) + tail == one + (rest + tail));
    }
}

/// A tap types its key once and leaves it up.
pub proof fn tap_types_one_key(code: u16, held: Set<u16>)
    requires
        code != KEY_LEFTSHIFT,
    ensures
        keys_after(tap(code), held) == held.remove(code),
        keys_typed(tap(code), held) == seq![(code, held.contains(KEY_LEFTSHIFT))],
{
    let t = tap(code);
    reveal_with_fuel(keys_after, 5);
    reveal_with_fuel(keys_typed, 5);
    let t1 = t.drop_first();
    let t2 = t1.drop_first();
    let t3 = t2.drop_first();
    assert(t1[0] == Step::Pause(INTER_EVENT_PAUSE_US));
    assert(t2[0] == up(code));
    assert(t3[0] == Step::Pause(INTER_EVENT_PAUSE_US));
    assert(t3.drop_first().len() == 0);
    assert(held.insert(code).remove(code) == held.remove(code));
}

/// `n` backspaces type the backspace key `n` times, without shift, and leave
/// it up.
pub proof fn backspaces_delete_n(n: nat)
    ensures
        keys_after(backspace_taps(n), Set::empty()) == Set::<u16>::empty(),
        keys_typed(backspace_taps(n), Set::empty()) == Seq::new(
            n,
            |i: int| (KEY_BACKSPACE, false),
        ),
    decreases n,
{
    let none = Set::<u16>::empty();
    if n > 0 {
        let m = (n - 1) as nat;
        backspaces_delete_n(m);
        keys_concat(backspace_taps(m), tap(KEY_BACKSPACE), none);
        tap_types_one_key(KEY_BACKSPACE, none);
        assert(none.remove(KEY_BACKSPACE) == none);
        assert(keys_typed(backspace_taps(n), none) == Seq::new(
            n,
            |i: int| (KEY_BACKSPACE, false),
        ));
    } else {
        assert(keys_typed(backspace_taps(n), none) == Seq::new(
            0,
            |i: int| (KEY_BACKSPACE, false),
        ));
    }
}

/// The keys of a run as the injector types them.
pub open spec fn typed_positions(entries: Seq<WordEntry>) -> Seq<(u16, bool)> {
    entries.map_values(|e: WordEntry| (e.keycode as u16, e.shift))
}

/// Keys that an event can hold and that are not shift itself.
pub open spec fn typeable(entries: Seq<WordEntry>) -> bool {
    forall|i: int|
        0 <= i < entries.len() ==> (#[trigger] entries[i]).keycode <= u16::MAX
            && entries[i].keycode != KEY_LEFTSHIFT
}

/// What is down when only shift may be.
pub open spec fn shift_only(held: bool) -> Set<u16> {
    if held {
        Set::<u16>::empty().insert(KEY_LEFTSHIFT)
    } else {
        Set::empty()
    }
}

proof fn shift_change_works(held: bool, want: bool)
    ensures
        keys_after(shift_change(held, want), shift_only(held)) == shift_only(want),
        keys_typed(shift_change(held, want), shift_only(held)) == Seq::<(u16, bool)>::empty(),
{
    reveal_with_fuel(keys_after, 2);
    reveal_with_fuel(keys_typed, 2);
    let s = shift_change(held, want);
    if held != want {
        assert(s.drop_first().len() == 0);
    }
    assert(Set::<u16>::empty().insert(KEY_LEFTSHIFT).remove(KEY_LEFTSHIFT) == Set::<u16>::empty());
}

proof fn typing_works(entries: Seq<WordEntry>, held: bool)
    requires
        typeable(entries),
    ensures
        typing(entries, held).fault is None,
        keys_after(typing(entries, held).steps, shift_only(held)) == Set::<u16>::empty(),
        keys_typed(typing(entries, held).steps, shift_only(held)) == typed_positions(entries),
    decreases entries.len(),
{
    if entries.len() == 0 {
        shift_change_works(held, false);
        assert(typed_positions(entries) == Seq::<(u16, bool)>::empty());
    } else {
        let e = entries[0];
        let rest = entries.drop_first();
        assert forall|i: int| 0 <= i < rest.len() implies (#[trigger] rest[i]).keycode <= u16::MAX
            && rest[i].keycode != KEY_LEFTSHIFT by {
            assert(rest[i] == entries[i + 1]);
        }
        typing_works(rest, e.shift);
        let change = shift_change(held, e.shift);
        let key = tap(e.keycode as u16);
        shift_change_works(held, e.shift);
        tap_types_one_key(e.keycode as u16, shift_only(e.shift));
        assert(shift_only(e.shift).remove(e.keycode as u16) == shift_only(e.shift));
        keys_concat(change, key, shift_only(held));
        keys_concat(change + key, typing(rest, e.shift).steps, shift_only(held));
        assert(typed_positions(entries) == seq![(e.keycode as u16, e.shift)] + typed_positions(
            rest,
        ));
        assert(Seq::<(u16, bool)>::empty() + seq![(e.keycode as u16, e.shift)] == seq![
            (e.keycode as u16, e.shift),
        ]);
    }
}

/// Replaying a run types the same physical keys in the same order, each with
/// the shift state it was typed with, and leaves no key down, whichever shift
/// keys were down before.
pub proof fn replay_types_the_same_keys(entries: Seq<WordEntry>, held: Set<u16>)
    requires
        typeable(entries),
        held.subset_of(set![KEY_LEFTSHIFT, KEY_RIGHTSHIFT]),
    ensures
        replay(entries).fault is None,
        keys_typed(replay(entries).steps, held) == typed_positions(entries),
        keys_after(replay(entries).steps, held) == Set::<u16>::empty(),
{
    let first = release_shifts();
    reveal_with_fuel(keys_after, 3);
    reveal_with_fuel(keys_typed, 3);
    assert(first.drop_first()[0] == Step::Pause(INTER_EVENT_PAUSE_US));
    assert(first.drop_first().drop_first().len() == 0);
    assert(held.remove(KEY_LEFTSHIFT).remove(KEY_RIGHTSHIFT) == Set::<u16>::empty());
    assert(keys_after(first, held) == Set::<u16>::empty());
    assert(keys_typed(first, held) == Seq::<(u16, bool)>::empty());
    typing_works(entries, false);
    keys_concat(first, typing(entries, false).steps, held);
    assert(Seq::<(u16, bool)>::empty() + typed_positions(entries) == typed_positions(entries));
}

/// The layouts that some steps switch to, in order.
pub open spec fn switches(steps: Seq<Step>) -> Seq<u32>
    decreases steps.len(),
{
    if steps.len() == 0 {
        Seq::empty()
    } else {
        let before = switches(steps.drop_last());
        match steps.last() {
            Step::SwitchLayout(idx) => before.push(idx),
            _ => before,
        }
    }
}

pub proof fn switches_concat(a: Seq<Step>, b: Seq<Step>)
    ensures
        switches(a + b) == switches(a) + switches(b),
    decreases b.len(),
{
    if b.len() == 0 {
        assert(a + b == a);
        assert(switches(a) + switches(b) == switches(a));
    } else {
        assert((a + b).drop_last() == a + b.drop_last());
        assert((a + b).last() == b.last());
        switches_concat(a, b.drop_last());
        let x = switches(a);
        let y = switches(b.drop_last());
        match b.last() {
            Step::SwitchLayout(idx) => {
                assert((x + y).push(idx) == x + y.push(idx));
            },
            _ => {},
        }
    }
}

/// Steps none of which switches the layout.
proof fn no_switches(steps: Seq<Step>)
    requires
        forall|i: int| 0 <= i < steps.len() ==> (#[trigger] steps[i]) !is SwitchLayout,
    ensures
        switches(steps) == Seq::<u32>::empty(),
    decreases steps.len(),
{
    if steps.len() > 0 {
        let t = steps.drop_last();
        assert forall|i: int| 0 <= i < t.len() implies (#[trigger] t[i]) !is SwitchLayout by {
            assert(t[i] == steps[i]);
        }
        assert(steps[steps.len() - 1] !is SwitchLayout);
        no_switches(t);
    }
}

/// Backspaces leave the layout alone.
pub proof fn backspaces_keep_the_layout(n: nat)
    ensures
        switches(backspace_taps(n)) == Seq::<u32>::empty(),
    decreases n,
{
    if n > 0 {
        let m = (n - 1) as nat;
        backspaces_keep_the_layout(m);
        no_switches(tap(KEY_BACKSPACE));
        switches_concat(backspace_taps(m), tap(KEY_BACKSPACE));
    }
}

/// A tap leaves the layout alone.
pub proof fn taps_keep_the_layout(kc: u32, fault: Fault)
    ensures
        switches(checked_tap(kc, fault).steps) == Seq::<u32>::empty(),
{
    no_switches(checked_tap(kc, fault).steps);
}

proof fn typing_keeps_the_layout(entries: Seq<WordEntry>, held: bool)
    ensures
        switches(typing(entries, held).steps) == Seq::<u32>::empty(),
    decreases entries.len(),
{
    if entries.len() == 0 {
        no_switches(shift_change(held, false));
    } else if entries[0].keycode <= u16::MAX {
        let e = entries[0];
        let first = shift_change(held, e.shift) + tap(e.keycode as u16);
        no_switches(first);
        typing_keeps_the_layout(entries.drop_first(), e.shift);
        switches_concat(first, typing(entries.drop_first(), e.shift).steps);
    }
}

/// Replaying leaves the layout alone.
pub proof fn replay_keeps_the_layout(entries: Seq<WordEntry>)
    ensures
        switches(replay(entries).steps) == Seq::<u32>::empty(),
{
    no_switches(release_shifts());
    typing_keeps_the_layout(entries, false);
    switches_concat(release_shifts(), typing(entries, false).steps);
}

/// A tap is four steps: the key goes down, 800 microseconds, the key goes up, 800
/// microseconds. Press and release never share a frame.
pub proof fn a_tap_step_by_step(code: u16, kc: u32, fault: Fault)
    ensures
        tap(code) == seq![
            Step::Emit(KeyChange { code, value: 1 }),
            Step::Pause(800),
            Step::Emit(KeyChange { code, value: 0 }),
            Step::Pause(800),
        ],
        kc <= 65535 ==> checked_tap(kc, fault).fault is None && checked_tap(kc, fault).steps == tap(
            kc as u16,
        ),
        kc > 65535 ==> checked_tap(kc, fault).fault == Some(fault) && checked_tap(
            kc,
            fault,
        ).steps.len() == 0,
{
}

/// Backspaces are taps on the key 14, as many as asked for.
pub proof fn backspaces_are_taps(n: nat)
    ensures
        backspace_taps(0).len() == 0,
        backspace_taps(n + 1) == backspace_taps(n) + tap(14),
        backspace_taps(n).len() == 4 * n,
    decreases n,
{
    if n > 0 {
        backspaces_are_taps((n - 1) as nat);
    }
}

/// A script goes on after another one exactly if that has no fault; nothing of
/// either is lost.
pub proof fn scripts_stop_at_a_fault(a: ScriptView, b: ScriptView, steps: Seq<Step>)
    ensures
        plain(steps).steps == steps,
        plain(steps).fault is None,
        a.fault is Some ==> chain(a, b) == a,
        a.fault is None ==> chain(a, b).steps == a.steps + b.steps && chain(a, b).fault == b.fault,
{
}

/// Typing goes key by key: the left shift (42) goes down or up where the next key
/// needs it, the key is tapped, and at the end shift goes up. A keycode over 65535
/// ends it with nothing more sent.
pub proof fn typing_goes_key_by_key(entries: Seq<WordEntry>, held: bool)
    ensures
        entries.len() == 0 ==> typing(entries, held).fault is None && typing(entries, held).steps
            == if held {
            seq![Step::Emit(KeyChange { code: 42, value: 0 })]
        } else {
            Seq::empty()
        },
        entries.len() > 0 && entries[0].keycode > 65535 ==> typing(entries, held).fault == Some(
            Fault::Keycode(entries[0].keycode),
        ) && typing(entries, held).steps.len() == 0,
        entries.len() > 0 && entries[0].keycode <= 65535 ==> ({
            let e = entries[0];
            let rest = typing(entries.skip(1), e.shift);
            let stroke = tap(e.keycode as u16) + rest.steps;
            &&& typing(entries, held).fault == rest.fault
            &&& held == e.shift ==> typing(entries, held).steps == stroke
            &&& !held && e.shift ==> typing(entries, held).steps == seq![
                Step::Emit(KeyChange { code: 42, value: 1 }),
            ] + stroke
            &&& held && !e.shift ==> typing(entries, held).steps == seq![
                Step::Emit(KeyChange { code: 42, value: 0 }),
            ] + stroke
        }),
{
    if entries.len() > 0 {
        assert(entries.skip(1) == entries.drop_first());
        assert(typing(entries, held).steps == if entries[0].keycode > 65535 {
            Seq::empty()
        } else {
            shift_change(held, entries[0].shift) + tap(entries[0].keycode as u16) + typing(
                entries.drop_first(),
                entries[0].shift,
            ).steps
        });
    }
}

/// A replay lets go of both shifts (42 and 54) in one frame, waits for 800
/// microseconds and types the keys.
pub proof fn a_replay_lets_go_of_both_shifts(entries: Seq<WordEntry>)
    ensures
        replay(entries).fault == typing(entries, false).fault,
        replay(entries).steps == seq![
            Step::EmitBoth(KeyChange { code: 42, value: 0 }, KeyChange { code: 54, value: 0 }),
            Step::Pause(800),
        ] + typing(entries, false).steps,
{
}

/// A run is typed to its end exactly if no keycode in it is over 65535; else the
/// first such keycode is the fault.
pub proof fn the_first_large_keycode_is_the_fault(entries: Seq<WordEntry>, held: bool, i: int)
    ensures
        (forall|j: int| 0 <= j < entries.len() ==> (#[trigger] entries[j]).keycode <= 65535)
            ==> typing(entries, held).fault is None,
        0 <= i < entries.len() && entries[i].keycode > 65535 && (forall|j: int|
            0 <= j < i ==> (#[trigger] entries[j]).keycode <= 65535) ==> typing(entries, held).fault
            == Some(Fault::Keycode(entries[i].keycode)),
    decreases entries.len(),
{
    if entries.len() > 0 {
        let rest = entries.drop_first();
        the_first_large_keycode_is_the_fault(rest, entries[0].shift, i - 1);
        assert forall|j: int| 0 <= j < rest.len() implies #[trigger] rest[j] == entries[j + 1] by {}
        if i > 0 && i < entries.len() {
            assert(rest[i - 1] == entries[i]);
        }
    }
}

/// The message for a fault names the keycode in decimal.
pub proof fn faults_name_the_keycode(kc: u32)
    ensures
        fault_text(Fault::Keycode(kc)) == "keycode "@ + text::decimal(kc as nat)
            + " out of range for uinput"@,
        fault_text(Fault::PrevBoundary(kc)) == "prev boundary kc "@ + text::decimal(kc as nat)
            + " out of range"@,
        fault_text(Fault::Boundary(kc)) == "boundary kc "@ + text::decimal(kc as nat)
            + " out of range"@,
{
}

/// The injection device registers the keys 1 to 255, each once.
pub proof fn the_injector_registers_every_key(r: Vec<u16>, i: int)
    requires
        call_ensures(injector_keys, (), r),
    ensures
        r@.len() == 255,
        0 <= i < 255 ==> r@[i] == i + 1,
{
}

/// What is added to a script comes behind what is there, and nothing comes behind a
/// fault.
pub proof fn steps_are_added_at_the_end(s: &mut Script, step: Step)
    requires
        call_ensures(Script::step, (s, step), ()),
    ensures
        old(s).fault is Some ==> final(s)@ == old(s)@,
        old(s).fault is None ==> final(s).fault is None && final(s).steps@ == old(s).steps@.push(
            step,
        ),
{
    assert(old(s).steps@ + seq![step] == old(s).steps@.push(step));
}

/// A tap, some backspaces and a replay are added to a script as they are.
pub proof fn taps_and_replays_are_added_as_they_are(
    a: &mut Script,
    code: u16,
    b: &mut Script,
    n: usize,
    c: &mut Script,
    entries: &Vec<WordEntry>,
    d: &mut Script,
    kc: u32,
    fault: Fault,
)
    requires
        call_ensures(Script::press_release, (a, code), ()),
        call_ensures(Script::backspaces, (b, n), ()),
        call_ensures(Script::replay_entries, (c, entries), ()),
        call_ensures(Script::press_release_checked, (d, kc, fault), ()),
    ensures
        final(a)@ == chain(old(a)@, plain(tap(code))),
        final(b)@ == chain(old(b)@, plain(backspace_taps(n as nat))),
        final(c)@ == chain(old(c)@, replay(entries@)),
        final(d)@ == chain(old(d)@, checked_tap(kc, fault)),
{
}

/// A fault is reported with the message for it, and the model of a script has its
/// steps and its fault.
pub proof fn faults_are_reported(f: &Fault, r: Error, s: Script)
    requires
        call_ensures(Fault::to_error, (f,), r),
    ensures
        r is Evdev,
        r->Evdev_0@ == fault_text(*f),
        s@.steps == s.steps@,
        s@.fault == s.fault,
{
}

} // verus!
