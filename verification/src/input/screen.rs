//! What a focused client makes of the keys it receives, for the statements about
//! whole scripts: a text with the cursor at its end, the layout that the client
//! reads keys in, and whether shift is down.

use vstd::prelude::*;

use crate::engine::state;
use crate::engine::state::WordEntry;
use crate::input::injector;
use crate::input::injector::{KeyChange, Step};
use crate::xkb;
use crate::xkb::Decoded;

verus! {

/// The model of a focused client.
#[verifier::ext_equal]
pub struct Screen {
    pub text: Seq<char>,
    pub layout: u32,
    pub shift: bool,
}

/// The text after one more key, given the text that each key has in each layout,
/// without and with shift. Backspace takes one character away.
pub open spec fn after_key(
    text: Seq<char>,
    layout: u32,
    key: (u16, bool),
    keys: spec_fn(u32, u16, bool) -> Seq<char>,
) -> Seq<char> {
    if key.0 != injector::KEY_BACKSPACE {
        text + keys(layout, key.0, key.1)
    } else if text.len() > 0 {
        text.drop_last()
    } else {
        text
    }
}

/// The text after some more keys.
pub open spec fn after_keys(
    text: Seq<char>,
    layout: u32,
    typed: Seq<(u16, bool)>,
    keys: spec_fn(u32, u16, bool) -> Seq<char>,
) -> Seq<char>
    decreases typed.len(),
{
    if typed.len() == 0 {
        text
    } else {
        after_keys(after_key(text, layout, typed[0], keys), layout, typed.drop_first(), keys)
    }
}

/// The client after a key change.
pub open spec fn after_change(
    s: Screen,
    k: KeyChange,
    keys: spec_fn(u32, u16, bool) -> Seq<char>,
) -> Screen {
    if k.code == injector::KEY_LEFTSHIFT {
        Screen { shift: k.value != 0, ..s }
    } else if k.value != 0 {
        Screen { text: after_key(s.text, s.layout, (k.code, s.shift), keys), ..s }
    } else {
        s
    }
}

/// The client after a step of a script.
pub open spec fn after_step(
    s: Screen,
    step: Step,
    keys: spec_fn(u32, u16, bool) -> Seq<char>,
) -> Screen {
    match step {
        Step::Emit(k) => after_change(s, k, keys),
        Step::EmitBoth(a, b) => after_change(after_change(s, a, keys), b, keys),
        Step::Pause(_) => s,
        Step::SwitchLayout(idx) => Screen { layout: idx, ..s },
    }
}

/// The client after some steps of a script.
pub open spec fn after_steps(
    s: Screen,
    steps: Seq<Step>,
    keys: spec_fn(u32, u16, bool) -> Seq<char>,
) -> Screen
    decreases steps.len(),
{
    if steps.len() == 0 {
        s
    } else {
        after_steps(after_step(s, steps[0], keys), steps.drop_first(), keys)
    }
}

/// The text that some keys produce.
pub open spec fn typed_text(
    layout: u32,
    typed: Seq<(u16, bool)>,
    keys: spec_fn(u32, u16, bool) -> Seq<char>,
) -> Seq<char>
    decreases typed.len(),
{
    if typed.len() == 0 {
        Seq::empty()
    } else {
        keys(layout, typed[0].0, typed[0].1) + typed_text(layout, typed.drop_first(), keys)
    }
}

/// None of some keys is backspace.
pub open spec fn no_backspace(typed: Seq<(u16, bool)>) -> bool {
    forall|i: int| 0 <= i < typed.len() ==> (#[trigger] typed[i]).0 != injector::KEY_BACKSPACE
}

pub proof fn after_steps_concat(
    s: Screen,
    a: Seq<Step>,
    b: Seq<Step>,
    keys: spec_fn(u32, u16, bool) -> Seq<char>,
)
    ensures
        after_steps(s, a + b, keys) == after_steps(after_steps(s, a, keys), b, keys),
    decreases a.len(),
{
    if a.len() == 0 {
        assert(a + b == b);
    } else {
        assert((a + b).drop_first() == a.drop_first() + b);
        assert((a + b)[0] == a[0]);
        after_steps_concat(after_step(s, a[0], keys), a.drop_first(), b, keys);
    }
}

proof fn after_keys_concat(
    text: Seq<char>,
    layout: u32,
    a: Seq<(u16, bool)>,
    b: Seq<(u16, bool)>,
    keys: spec_fn(u32, u16, bool) -> Seq<char>,
)
    ensures
        after_keys(text, layout, a + b, keys) == after_keys(
            after_keys(text, layout, a, keys),
            layout,
            b,
            keys,
        ),
    decreases a.len(),
{
    if a.len() == 0 {
        assert(a + b == b);
    } else {
        assert((a + b).drop_first() == a.drop_first() + b);
        assert((a + b)[0] == a[0]);
        after_keys_concat(
            after_key(text, layout, a[0], keys),
            layout,
            a.drop_first(),
            b,
            keys,
        );
    }
}

pub proof fn typed_text_concat(
    layout: u32,
    a: Seq<(u16, bool)>,
    b: Seq<(u16, bool)>,
    keys: spec_fn(u32, u16, bool) -> Seq<char>,
)
    ensures
        typed_text(layout, a + b, keys) == typed_text(layout, a, keys) + typed_text(
            layout,
            b,
            keys,
        ),
    decreases a.len(),
{
    if a.len() == 0 {
        assert(a + b == b);
        assert(typed_text(layout, a, keys) + typed_text(layout, b, keys) == typed_text(
            layout,
            b,
            keys,
        ));
    } else {
        assert((a + b).drop_first() == a.drop_first() + b);
        assert((a + b)[0] == a[0]);
        typed_text_concat(layout, a.drop_first(), b, keys);
        let first = keys(layout, a[0].0, a[0].1);
        let x = typed_text(layout, a.drop_first(), keys);
        let y = typed_text(layout, b, keys);
        assert(first + (x + y) == (first + x) + y);
    }
}

/// Keys other than backspace add what they produce.
proof fn keys_add_their_text(
    text: Seq<char>,
    layout: u32,
    typed: Seq<(u16, bool)>,
    keys: spec_fn(u32, u16, bool) -> Seq<char>,
)
    requires
        no_backspace(typed),
    ensures
        after_keys(text, layout, typed, keys) == text + typed_text(layout, typed, keys),
    decreases typed.len(),
{
    if typed.len() == 0 {
        assert(text + typed_text(layout, typed, keys) == text);
    } else {
        let rest = typed.drop_first();
        assert forall|i: int| 0 <= i < rest.len() implies (#[trigger] rest[i]).0
            != injector::KEY_BACKSPACE by {
            assert(rest[i] == typed[i + 1]);
        }
        assert(typed[0].0 != injector::KEY_BACKSPACE);
        let first = keys(layout, typed[0].0, typed[0].1);
        keys_add_their_text(text + first, layout, rest, keys);
        let x = typed_text(layout, rest, keys);
        assert((text + first) + x == text + (first + x));
    }
}

/// As many backspaces as a tail has characters take the tail away.
proof fn backspaces_take_the_tail(
    before: Seq<char>,
    tail: Seq<char>,
    layout: u32,
    keys: spec_fn(u32, u16, bool) -> Seq<char>,
)
    ensures
        after_keys(
            before + tail,
            layout,
            Seq::new(tail.len(), |i: int| (injector::KEY_BACKSPACE, false)),
            keys,
        ) == before,
    decreases tail.len(),
{
    let typed = Seq::new(tail.len(), |i: int| (injector::KEY_BACKSPACE, false));
    if tail.len() == 0 {
        assert(before + tail == before);
    } else {
        let less = tail.drop_last();
        assert((before + tail).drop_last() == before + less);
        assert(typed.drop_first() == Seq::new(
            less.len(),
            |i: int| (injector::KEY_BACKSPACE, false),
        ));
        backspaces_take_the_tail(before, less, layout, keys);
    }
}

/// Steps that leave the layout alone do to a client what the keys do that they
/// type.
proof fn steps_type_their_keys(
    s: Screen,
    steps: Seq<Step>,
    held: Set<u16>,
    keys: spec_fn(u32, u16, bool) -> Seq<char>,
)
    requires
        injector::switches(steps) == Seq::<u32>::empty(),
        s.shift == held.contains(injector::KEY_LEFTSHIFT),
    ensures
        after_steps(s, steps, keys) == (Screen {
            text: after_keys(s.text, s.layout, injector::keys_typed(steps, held), keys),
            layout: s.layout,
            shift: injector::keys_after(steps, held).contains(injector::KEY_LEFTSHIFT),
        }),
    decreases steps.len(),
{
    if steps.len() > 0 {
        let first = seq![steps[0]];
        let rest = steps.drop_first();
        assert(first + rest == steps);
        injector::switches_concat(first, rest);
        reveal_with_fuel(injector::switches, 2);
        assert(first.drop_last().len() == 0);
        assert(first.last() == steps[0]);
        assert(injector::switches(first).len() == 0);
        assert(steps[0] !is SwitchLayout);
        assert(injector::switches(rest) == Seq::<u32>::empty());
        let next = injector::keys_after_step(steps[0], held);
        let one = injector::step_typed(steps[0], held);
        let s1 = after_step(s, steps[0], keys);
        step_types_its_keys(s, steps[0], held, keys);
        steps_type_their_keys(s1, rest, next, keys);
        after_keys_concat(s.text, s.layout, one, injector::keys_typed(rest, next), keys);
    }
}

proof fn change_types_its_key(
    s: Screen,
    k: KeyChange,
    held: Set<u16>,
    keys: spec_fn(u32, u16, bool) -> Seq<char>,
)
    requires
        s.shift == held.contains(injector::KEY_LEFTSHIFT),
    ensures
        after_change(s, k, keys) == (Screen {
            text: after_keys(s.text, s.layout, injector::key_typed(k, held), keys),
            layout: s.layout,
            shift: injector::key_after(k, held).contains(injector::KEY_LEFTSHIFT),
        }),
{
    reveal_with_fuel(after_keys, 2);
    let typed = injector::key_typed(k, held);
    if typed.len() > 0 {
        assert(typed.drop_first().len() == 0);
    }
}

proof fn step_types_its_keys(
    s: Screen,
    step: Step,
    held: Set<u16>,
    keys: spec_fn(u32, u16, bool) -> Seq<char>,
)
    requires
        step !is SwitchLayout,
        s.shift == held.contains(injector::KEY_LEFTSHIFT),
    ensures
        after_step(s, step, keys) == (Screen {
            text: after_keys(s.text, s.layout, injector::step_typed(step, held), keys),
            layout: s.layout,
            shift: injector::keys_after_step(step, held).contains(injector::KEY_LEFTSHIFT),
        }),
{
    match step {
        Step::Emit(k) => {
            change_types_its_key(s, k, held, keys);
        },
        Step::EmitBoth(a, b) => {
            change_types_its_key(s, a, held, keys);
            let between = injector::key_after(a, held);
            change_types_its_key(after_change(s, a, keys), b, between, keys);
            after_keys_concat(
                s.text,
                s.layout,
                injector::key_typed(a, held),
                injector::key_typed(b, between),
                keys,
            );
        },
        _ => {},
    }
}

/// Steps that press backspace as often as a tail has characters and leave the
/// layout alone take the tail off the screen.
pub proof fn deleting(
    s: Screen,
    before: Seq<char>,
    tail: Seq<char>,
    steps: Seq<Step>,
    keys: spec_fn(u32, u16, bool) -> Seq<char>,
)
    requires
        s.text == before + tail,
        !s.shift,
        injector::switches(steps) == Seq::<u32>::empty(),
        injector::keys_typed(steps, Set::empty()) == Seq::new(
            tail.len(),
            |i: int| (injector::KEY_BACKSPACE, false),
        ),
        injector::keys_after(steps, Set::empty()) == Set::<u16>::empty(),
    ensures
        after_steps(s, steps, keys) == (Screen { text: before, ..s }),
{
    steps_type_their_keys(s, steps, Set::empty(), keys);
    backspaces_take_the_tail(before, tail, s.layout, keys);
}

/// Steps that type keys other than backspace and leave the layout alone add the
/// text of those keys to the screen.
pub proof fn retyping(
    s: Screen,
    steps: Seq<Step>,
    keys: spec_fn(u32, u16, bool) -> Seq<char>,
)
    requires
        !s.shift,
        injector::switches(steps) == Seq::<u32>::empty(),
        no_backspace(injector::keys_typed(steps, Set::empty())),
        injector::keys_after(steps, Set::empty()) == Set::<u16>::empty(),
    ensures
        after_steps(s, steps, keys) == (Screen {
            text: s.text + typed_text(
                s.layout,
                injector::keys_typed(steps, Set::empty()),
                keys,
            ),
            ..s
        }),
{
    steps_type_their_keys(s, steps, Set::empty(), keys);
    keys_add_their_text(s.text, s.layout, injector::keys_typed(steps, Set::empty()), keys);
}

/// The text of each position in one layout.
pub open spec fn in_layout(
    layout: u32,
    keys: spec_fn(u32, u16, bool) -> Seq<char>,
) -> spec_fn(u32, bool) -> Seq<char> {
    |kc: u32, shift: bool| keys(layout, kc as u16, shift)
}

proof fn typed_text_is_keywise(
    layout: u32,
    entries: Seq<WordEntry>,
    keys: spec_fn(u32, u16, bool) -> Seq<char>,
)
    ensures
        typed_text(layout, injector::typed_positions(entries), keys) == xkb::keys_text(
            state::word_positions(entries),
            in_layout(layout, keys),
        ),
    decreases entries.len(),
{
    if entries.len() > 0 {
        let rest = entries.drop_first();
        typed_text_is_keywise(layout, rest, keys);
        assert(injector::typed_positions(entries).drop_first() == injector::typed_positions(rest));
        assert(state::word_positions(entries).drop_first() == state::word_positions(rest));
    }
}

/// What decoding finds for a word is what typing its keys produces.
pub proof fn decoding_foretells_typing(
    layout: u32,
    entries: Seq<WordEntry>,
    outcomes: Seq<Decoded>,
    keys: spec_fn(u32, u16, bool) -> Seq<char>,
)
    requires
        injector::typeable(entries),
        xkb::answers(
            xkb::decode_steps(state::word_positions(entries), false),
            false,
            outcomes,
            in_layout(layout, keys),
        ),
    ensures
        xkb::kept_text(xkb::decode_steps(state::word_positions(entries), false), outcomes)
            == typed_text(layout, injector::typed_positions(entries), keys),
{
    let positions = state::word_positions(entries);
    assert forall|i: int| 0 <= i < positions.len() implies (#[trigger] positions[i]).0
        != xkb::SHIFT_KC by {
        assert(entries[i].keycode != injector::KEY_LEFTSHIFT);
    }
    xkb::decoding_is_keywise(positions, outcomes, in_layout(layout, keys));
    typed_text_is_keywise(layout, entries, keys);
}

} // verus!
