//! What holds of the service as a whole.

use vstd::prelude::*;

use crate::engine::detector;
use crate::engine::detector::Verdict;
use crate::engine::dict::Dict;
use crate::engine::state;
use crate::engine::state::{ModState, StateView, TokenView, WordEntry};
use crate::input::injector;
use crate::input::injector::{Fault, Step};
use crate::input::screen;
use crate::input::screen::Screen;
use crate::input::KeyKind;
use crate::service;
use crate::service::{Action, KeyClass, Service};
use crate::xkb;
use crate::xkb::Decoded;

verus! {

// ---------------------------------------------------------------------------
// Conversion
// ---------------------------------------------------------------------------

/// A key that can be tapped and is not shift itself.
pub open spec fn tappable(kc: u32) -> bool {
    kc <= u16::MAX && kc != injector::KEY_LEFTSHIFT
}

/// Tokens whose keys can all be typed.
pub open spec fn all_typeable(q: Seq<TokenView>) -> bool {
    forall|i: int|
        0 <= i < q.len() ==> injector::typeable((#[trigger] q[i]).entries) && tappable(
            q[i].boundary_kc,
        )
}

/// The keys of a word and of the boundary behind it.
pub open spec fn word_keys(entries: Seq<WordEntry>, boundary_kc: u32) -> Seq<(u16, bool)> {
    injector::typed_positions(entries).push((boundary_kc as u16, false))
}

/// The keys of some tokens, each with its boundary.
pub open spec fn token_keys(q: Seq<TokenView>) -> Seq<(u16, bool)>
    decreases q.len(),
{
    if q.len() == 0 {
        Seq::empty()
    } else {
        token_keys(q.drop_last()) + word_keys(q.last().entries, q.last().boundary_kc)
    }
}

proof fn boundary_typed(kc: u32, fault: Fault)
    requires
        tappable(kc),
    ensures
        injector::checked_tap(kc, fault).fault is None,
        injector::keys_after(injector::checked_tap(kc, fault).steps, Set::empty()) == Set::<
            u16,
        >::empty(),
        injector::keys_typed(injector::checked_tap(kc, fault).steps, Set::empty()) == seq![
            (kc as u16, false),
        ],
{
    let none = Set::<u16>::empty();
    injector::tap_types_one_key(kc as u16, none);
    assert(none.remove(kc as u16) == none);
}

proof fn tokens_typed(q: Seq<TokenView>)
    requires
        all_typeable(q),
    ensures
        service::tokens_script(q).fault is None,
        injector::keys_after(service::tokens_script(q).steps, Set::empty()) == Set::<u16>::empty(),
        injector::keys_typed(service::tokens_script(q).steps, Set::empty()) == token_keys(q),
        token_keys(q).len() == service::screen_len(q),
    decreases q.len(),
{
    let none = Set::<u16>::empty();
    if q.len() > 0 {
        let rest = q.drop_last();
        let t = q.last();
        assert forall|i: int| 0 <= i < rest.len() implies injector::typeable(
            (#[trigger] rest[i]).entries,
        ) && tappable(rest[i].boundary_kc) by {
            assert(rest[i] == q[i]);
        }
        assert(q[q.len() - 1] == t);
        tokens_typed(rest);
        let fault = Fault::PrevBoundary(t.boundary_kc);
        injector::replay_types_the_same_keys(t.entries, none);
        boundary_typed(t.boundary_kc, fault);
        let word = injector::replay(t.entries).steps;
        let end = injector::checked_tap(t.boundary_kc, fault).steps;
        injector::keys_concat(word, end, none);
        injector::keys_concat(service::tokens_script(rest).steps, word + end, none);
        assert(injector::typed_positions(t.entries) + seq![(t.boundary_kc as u16, false)]
            == word_keys(t.entries, t.boundary_kc));
    }
}

proof fn retyping_types(q: Seq<TokenView>, entries: Seq<WordEntry>, boundary_kc: u32)
    requires
        all_typeable(q),
        injector::typeable(entries),
        tappable(boundary_kc),
    ensures
        ({
            let script = service::retyping(q, entries, boundary_kc);
            &&& script.fault is None
            &&& injector::keys_typed(script.steps, Set::empty()) == token_keys(q) + word_keys(
                entries,
                boundary_kc,
            )
            &&& injector::keys_after(script.steps, Set::empty()) == Set::<u16>::empty()
        }),
{
    let none = Set::<u16>::empty();
    let tokens = service::tokens_script(q).steps;
    let word = injector::replay(entries).steps;
    let pause = seq![Step::Pause(service::BOUNDARY_SETTLE_US)];
    let fault = Fault::Boundary(boundary_kc);
    let end = injector::checked_tap(boundary_kc, fault).steps;
    tokens_typed(q);
    injector::replay_types_the_same_keys(entries, none);
    boundary_typed(boundary_kc, fault);
    reveal_with_fuel(injector::keys_after, 2);
    reveal_with_fuel(injector::keys_typed, 2);
    assert(pause.drop_first().len() == 0);
    assert(injector::keys_after(pause, none) == none);
    assert(injector::keys_typed(pause, none) == Seq::<(u16, bool)>::empty());
    injector::keys_concat(pause, end, none);
    injector::keys_concat(word, pause + end, none);
    injector::keys_concat(tokens, word + (pause + end), none);
    let last = seq![(boundary_kc as u16, false)];
    assert(Seq::<(u16, bool)>::empty() + last == last);
    assert(injector::typed_positions(entries) + last == word_keys(entries, boundary_kc));
}

/// Switching types nothing.
proof fn switching_types_nothing(target: u32)
    ensures
        ({
            let switch = seq![
                Step::SwitchLayout(target),
                Step::Pause(crate::selection::SWITCH_SETTLE_US),
            ];
            &&& injector::keys_after(switch, Set::empty()) == Set::<u16>::empty()
            &&& injector::keys_typed(switch, Set::empty()) == Seq::<(u16, bool)>::empty()
            &&& injector::switches(switch) == seq![target]
        }),
{
    let none = Set::<u16>::empty();
    let switch = seq![Step::SwitchLayout(target), Step::Pause(crate::selection::SWITCH_SETTLE_US)];
    reveal_with_fuel(injector::keys_after, 3);
    reveal_with_fuel(injector::keys_typed, 3);
    reveal_with_fuel(injector::switches, 3);
    assert(switch.drop_first()[0] == switch[1]);
    assert(switch.drop_first().drop_first().len() == 0);
    assert(injector::keys_typed(switch, none) == Seq::<(u16, bool)>::empty());
    assert(switch.drop_last().drop_last().len() == 0);
    assert(switch.drop_last().last() == switch[0]);
    assert(injector::switches(switch) == seq![target]);
}

/// A conversion retypes exactly what it deletes: it presses backspace once for
/// every key that it types afterwards, and what it types is the keys of the
/// tokens and of the word, each with its shift state and each followed by its
/// boundary. Nothing stays down.
pub proof fn conversion_retypes_what_it_deletes(
    q: Seq<TokenView>,
    entries: Seq<WordEntry>,
    boundary_kc: u32,
    target: u32,
)
    requires
        all_typeable(q),
        injector::typeable(entries),
        tappable(boundary_kc),
    ensures
        ({
            let script = service::conversion(q, entries, boundary_kc, target);
            let retyped = token_keys(q) + word_keys(entries, boundary_kc);
            &&& script.fault is None
            &&& injector::keys_typed(script.steps, Set::empty()) == Seq::new(
                retyped.len(),
                |i: int| (injector::KEY_BACKSPACE, false),
            ) + retyped
            &&& injector::keys_after(script.steps, Set::empty()) == Set::<u16>::empty()
        }),
{
    let none = Set::<u16>::empty();
    let retyped = token_keys(q) + word_keys(entries, boundary_kc);
    let n = service::screen_len(q) + entries.len() + 1;
    let back = injector::backspace_taps(n);
    let switch = seq![Step::SwitchLayout(target), Step::Pause(crate::selection::SWITCH_SETTLE_US)];
    let tail = service::retyping(q, entries, boundary_kc).steps;
    tokens_typed(q);
    assert(retyped.len() == n);
    injector::backspaces_delete_n(n);
    switching_types_nothing(target);
    retyping_types(q, entries, boundary_kc);
    injector::keys_concat(back, switch, none);
    let deleted = injector::keys_typed(back, none);
    assert(deleted + Seq::<(u16, bool)>::empty() == deleted);
    injector::keys_concat(back + switch, tail, none);
}

/// A conversion does on the screen what it is for. Where every key had put one
/// character there, it takes away the tokens and the word with their boundaries
/// and leaves in their place what the same keys produce in the target layout; for
/// the word that is the text that the detector was asked about.
pub proof fn conversion_shows_the_judged_text(
    s: Screen,
    before: Seq<char>,
    tail: Seq<char>,
    q: Seq<TokenView>,
    entries: Seq<WordEntry>,
    boundary_kc: u32,
    target: u32,
    outcomes: Seq<Decoded>,
    keys: spec_fn(u32, u16, bool) -> Seq<char>,
)
    requires
        all_typeable(q),
        injector::typeable(entries),
        tappable(boundary_kc),
        screen::no_backspace(token_keys(q) + word_keys(entries, boundary_kc)),
        s.text == before + tail,
        tail.len() == service::screen_len(q) + entries.len() + 1,
        !s.shift,
        xkb::answers(
            xkb::decode_steps(state::word_positions(entries), false),
            false,
            outcomes,
            screen::in_layout(target, keys),
        ),
    ensures
        screen::after_steps(
            s,
            service::conversion(q, entries, boundary_kc, target).steps,
            keys,
        ) == (Screen {
            text: before + (screen::typed_text(target, token_keys(q), keys) + (xkb::kept_text(
                xkb::decode_steps(state::word_positions(entries), false),
                outcomes,
            ) + keys(target, boundary_kc as u16, false))),
            layout: target,
            shift: false,
        }),
{
    let n = service::screen_len(q) + entries.len() + 1;
    let back = injector::backspace_taps(n);
    let switch = seq![Step::SwitchLayout(target), Step::Pause(crate::selection::SWITCH_SETTLE_US)];
    let rest = service::retyping(q, entries, boundary_kc).steps;
    let retyped = token_keys(q) + word_keys(entries, boundary_kc);
    injector::backspaces_delete_n(n);
    injector::backspaces_keep_the_layout(n);
    screen::deleting(s, before, tail, back, keys);
    let cleared = Screen { text: before, ..s };
    let switched = Screen { text: before, layout: target, shift: false };
    reveal_with_fuel(screen::after_steps, 3);
    assert(switch.drop_first()[0] == switch[1]);
    assert(switch.drop_first().drop_first().len() == 0);
    assert(screen::after_steps(cleared, switch, keys) == switched);
    retyping_types(q, entries, boundary_kc);
    retyping_keeps_the_layout(q, entries, boundary_kc);
    screen::retyping(switched, rest, keys);
    screen::after_steps_concat(s, back, switch, keys);
    screen::after_steps_concat(s, back + switch, rest, keys);
    screen::decoding_foretells_typing(target, entries, outcomes, keys);
    let word = injector::typed_positions(entries);
    let last = seq![(boundary_kc as u16, false)];
    assert(word_keys(entries, boundary_kc) == word + last);
    screen::typed_text_concat(target, word, last, keys);
    screen::typed_text_concat(target, token_keys(q), word + last, keys);
    reveal_with_fuel(screen::typed_text, 2);
    assert(last.drop_first().len() == 0);
    let end = keys(target, boundary_kc as u16, false);
    assert(end + Seq::<char>::empty() == end);
}

/// Keys that an event can hold.
pub open spec fn fits_events(entries: Seq<WordEntry>) -> bool {
    forall|i: int| 0 <= i < entries.len() ==> (#[trigger] entries[i]).keycode <= u16::MAX
}

proof fn remembered_entries_are_typeable(entries: Seq<WordEntry>)
    requires
        service::typed_entries(entries),
        fits_events(entries),
    ensures
        injector::typeable(entries),
{
    assert forall|i: int| 0 <= i < entries.len() implies (#[trigger] entries[i]).keycode <= u16::MAX
        && entries[i].keycode != injector::KEY_LEFTSHIFT by {
        assert(service::typing_key(entries[i].keycode));
    }
}

/// Whatever a service remembers can be retyped: where all keycodes came from
/// events, the script that converts the word in progress carries through, and
/// retypes the waiting tokens and the word as `conversion_retypes_what_it_deletes`
/// says.
pub proof fn a_conversion_carries_through(s: Service, boundary_kc: u32, now: u64)
    requires
        s.wf(),
        fits_events(s.state@.buffer),
        forall|i: int|
            0 <= i < s.state@.prev_tokens.len() ==> fits_events(
                (#[trigger] s.state@.prev_tokens[i]).entries,
            ) && tappable(s.state@.prev_tokens[i].boundary_kc),
        tappable(boundary_kc),
    ensures
        ({
            let q = s.retro_tokens_now(now);
            let script = s.conversion_now(boundary_kc, now);
            let retyped = token_keys(q) + word_keys(s.state@.buffer, boundary_kc);
            &&& script.fault is None
            &&& injector::keys_typed(script.steps, Set::empty()) == Seq::new(
                retyped.len(),
                |i: int| (injector::KEY_BACKSPACE, false),
            ) + retyped
        }),
{
    let all = s.state@.prev_tokens;
    let window = s.cfg.detector.retro_window_ms;
    let layout = s.xkb.active();
    let q = service::retro_tokens(all, now, window, layout);
    remembered_entries_are_typeable(s.state@.buffer);
    assert forall|i: int| 0 <= i < q.len() implies injector::typeable((#[trigger] q[i]).entries)
        && tappable(q[i].boundary_kc) by {
        stale_tokens_are_left_alone(all, now, window, layout, i);
        let k = choose|k: int| 0 <= k < all.len() && all[k] == q[i];
        assert(service::typed_entries(all[k].entries));
        remembered_entries_are_typeable(q[i].entries);
    }
    conversion_retypes_what_it_deletes(q, s.state@.buffer, boundary_kc, s.other_layout());
}

proof fn remembered_keys_are_no_backspaces(entries: Seq<WordEntry>, boundary_kc: u32)
    requires
        service::typed_entries(entries),
        fits_events(entries),
        tappable(boundary_kc),
        boundary_kc != service::BACKSPACE_KC,
    ensures
        screen::no_backspace(word_keys(entries, boundary_kc)),
{
    let typed = word_keys(entries, boundary_kc);
    assert forall|i: int| 0 <= i < typed.len() implies (#[trigger] typed[i]).0
        != injector::KEY_BACKSPACE by {
        if i < entries.len() {
            assert(service::typing_key(entries[i].keycode));
            assert(entries[i].keycode <= u16::MAX);
            assert(typed[i] == injector::typed_positions(entries)[i]);
        }
    }
}

proof fn token_keys_are_no_backspaces(q: Seq<TokenView>)
    requires
        forall|i: int|
            0 <= i < q.len() ==> {
                &&& service::typed_entries((#[trigger] q[i]).entries)
                &&& fits_events(q[i].entries)
                &&& tappable(q[i].boundary_kc)
                &&& q[i].boundary_kc != service::BACKSPACE_KC
            },
    ensures
        screen::no_backspace(token_keys(q)),
    decreases q.len(),
{
    if q.len() > 0 {
        let rest = q.drop_last();
        assert forall|i: int| 0 <= i < rest.len() implies {
            &&& service::typed_entries((#[trigger] rest[i]).entries)
            &&& fits_events(rest[i].entries)
            &&& tappable(rest[i].boundary_kc)
            &&& rest[i].boundary_kc != service::BACKSPACE_KC
        } by {
            assert(rest[i] == q[i]);
        }
        token_keys_are_no_backspaces(rest);
        assert(q[q.len() - 1] == q.last());
        remembered_keys_are_no_backspaces(q.last().entries, q.last().boundary_kc);
        let a = token_keys(rest);
        let b = word_keys(q.last().entries, q.last().boundary_kc);
        assert forall|i: int| 0 <= i < (a + b).len() implies (#[trigger] (a + b)[i]).0
            != injector::KEY_BACKSPACE by {
            if i < a.len() {
                assert((a + b)[i] == a[i]);
            } else {
                assert((a + b)[i] == b[i - a.len()]);
            }
        }
    }
}

/// The conversion of a service does on the screen what it is for. Where all
/// keycodes came from events, no word was ended by backspace and every key had put
/// one character on the screen, the waiting tokens that are recent enough and the
/// word in progress are replaced by what the same keys produce in the other
/// layout; for the word that is the text that the detector was asked about.
pub proof fn the_service_shows_the_judged_text(
    svc: Service,
    boundary_kc: u32,
    now: u64,
    s: Screen,
    before: Seq<char>,
    tail: Seq<char>,
    outcomes: Seq<Decoded>,
    keys: spec_fn(u32, u16, bool) -> Seq<char>,
)
    requires
        svc.wf(),
        fits_events(svc.state@.buffer),
        forall|i: int|
            0 <= i < svc.state@.prev_tokens.len() ==> {
                &&& fits_events((#[trigger] svc.state@.prev_tokens[i]).entries)
                &&& tappable(svc.state@.prev_tokens[i].boundary_kc)
                &&& svc.state@.prev_tokens[i].boundary_kc != service::BACKSPACE_KC
            },
        tappable(boundary_kc),
        boundary_kc != service::BACKSPACE_KC,
        s.text == before + tail,
        tail.len() == service::screen_len(svc.retro_tokens_now(now))
            + svc.state@.buffer.len() + 1,
        !s.shift,
        xkb::answers(
            xkb::decode_steps(state::word_positions(svc.state@.buffer), false),
            false,
            outcomes,
            screen::in_layout(svc.other_layout(), keys),
        ),
    ensures
        screen::after_steps(s, svc.conversion_now(boundary_kc, now).steps, keys) == (Screen {
            text: before + (screen::typed_text(
                svc.other_layout(),
                token_keys(svc.retro_tokens_now(now)),
                keys,
            ) + (xkb::kept_text(
                xkb::decode_steps(state::word_positions(svc.state@.buffer), false),
                outcomes,
            ) + keys(svc.other_layout(), boundary_kc as u16, false))),
            layout: svc.other_layout(),
            shift: false,
        }),
{
    let all = svc.state@.prev_tokens;
    let window = svc.cfg.detector.retro_window_ms;
    let layout = svc.xkb.active();
    let q = svc.retro_tokens_now(now);
    let entries = svc.state@.buffer;
    remembered_entries_are_typeable(entries);
    assert forall|i: int| 0 <= i < q.len() implies {
        &&& service::typed_entries((#[trigger] q[i]).entries)
        &&& fits_events(q[i].entries)
        &&& tappable(q[i].boundary_kc)
        &&& q[i].boundary_kc != service::BACKSPACE_KC
    } by {
        stale_tokens_are_left_alone(all, now, window, layout, i);
        let k = choose|k: int| 0 <= k < all.len() && all[k] == q[i];
        assert(service::typed_entries(all[k].entries));
    }
    assert forall|i: int| 0 <= i < q.len() implies injector::typeable((#[trigger] q[i]).entries)
        && tappable(q[i].boundary_kc) by {
        remembered_entries_are_typeable(q[i].entries);
    }
    token_keys_are_no_backspaces(q);
    remembered_keys_are_no_backspaces(entries, boundary_kc);
    let a = token_keys(q);
    let b = word_keys(entries, boundary_kc);
    assert forall|i: int| 0 <= i < (a + b).len() implies (#[trigger] (a + b)[i]).0
        != injector::KEY_BACKSPACE by {
        if i < a.len() {
            assert((a + b)[i] == a[i]);
        } else {
            assert((a + b)[i] == b[i - a.len()]);
        }
    }
    conversion_shows_the_judged_text(
        s,
        before,
        tail,
        q,
        entries,
        boundary_kc,
        svc.other_layout(),
        outcomes,
        keys,
    );
}

/// The keys that are judged are the keys that are replayed: decoding a word
/// through the other layout types its positions, and so does the replay.
pub proof fn the_replay_types_what_was_judged(entries: Seq<WordEntry>)
    requires
        injector::typeable(entries),
    ensures
        ({
            let judged = xkb::positions_typed(
                xkb::decode_steps(state::word_positions(entries), false),
                false,
            );
            let replayed = injector::keys_typed(injector::replay(entries).steps, Set::empty());
            &&& judged == state::word_positions(entries)
            &&& replayed == judged.map_values(|p: (u32, bool)| (p.0 as u16, p.1))
        }),
{
    let positions = state::word_positions(entries);
    assert forall|i: int| 0 <= i < positions.len() implies (#[trigger] positions[i]).0
        != xkb::SHIFT_KC by {
        assert(entries[i].keycode != injector::KEY_LEFTSHIFT);
    }
    xkb::script_types_its_entries(positions, false);
    injector::replay_types_the_same_keys(entries, Set::empty());
    assert(injector::typed_positions(entries) == positions.map_values(
        |p: (u32, bool)| (p.0 as u16, p.1),
    ));
}

proof fn tokens_keep_the_layout(q: Seq<TokenView>)
    ensures
        injector::switches(service::tokens_script(q).steps) == Seq::<u32>::empty(),
    decreases q.len(),
{
    if q.len() > 0 {
        let t = q.last();
        tokens_keep_the_layout(q.drop_last());
        let fault = Fault::PrevBoundary(t.boundary_kc);
        injector::replay_keeps_the_layout(t.entries);
        injector::taps_keep_the_layout(t.boundary_kc, fault);
        injector::switches_concat(
            injector::replay(t.entries).steps,
            injector::checked_tap(t.boundary_kc, fault).steps,
        );
        injector::switches_concat(
            service::tokens_script(q.drop_last()).steps,
            injector::chain(
                injector::replay(t.entries),
                injector::checked_tap(t.boundary_kc, fault),
            ).steps,
        );
    }
}

proof fn retyping_keeps_the_layout(
    q: Seq<TokenView>,
    entries: Seq<WordEntry>,
    boundary_kc: u32,
)
    ensures
        injector::switches(service::retyping(q, entries, boundary_kc).steps) == Seq::<u32>::empty(),
{
    let fault = Fault::Boundary(boundary_kc);
    let pause = injector::plain(seq![Step::Pause(service::BOUNDARY_SETTLE_US)]);
    let end = injector::checked_tap(boundary_kc, fault);
    let word = injector::replay(entries);
    let tokens = service::tokens_script(q);
    reveal_with_fuel(injector::switches, 2);
    assert(pause.steps.drop_last().len() == 0);
    assert(injector::switches(pause.steps) == Seq::<u32>::empty());
    injector::taps_keep_the_layout(boundary_kc, fault);
    injector::replay_keeps_the_layout(entries);
    tokens_keep_the_layout(q);
    injector::switches_concat(pause.steps, end.steps);
    injector::switches_concat(word.steps, injector::chain(pause, end).steps);
    injector::switches_concat(
        tokens.steps,
        injector::chain(word, injector::chain(pause, end)).steps,
    );
}

/// A conversion switches the layout once, to its target: after the last
/// backspace and before the first key is retyped.
pub proof fn conversion_switches_once(
    q: Seq<TokenView>,
    entries: Seq<WordEntry>,
    boundary_kc: u32,
    target: u32,
)
    ensures
        ({
            let steps = service::conversion(q, entries, boundary_kc, target).steps;
            let n = injector::backspace_taps(service::screen_len(q) + entries.len() + 1).len();
            &&& injector::switches(steps) == seq![target]
            &&& n < steps.len()
            &&& steps[n as int] == Step::SwitchLayout(target)
            &&& steps.take(n as int) == injector::backspace_taps(
                service::screen_len(q) + entries.len() + 1,
            )
        }),
{
    let back = injector::backspace_taps(service::screen_len(q) + entries.len() + 1);
    let switch = seq![Step::SwitchLayout(target), Step::Pause(crate::selection::SWITCH_SETTLE_US)];
    let tail = service::retyping(q, entries, boundary_kc).steps;
    injector::backspaces_keep_the_layout(service::screen_len(q) + entries.len() + 1);
    switching_types_nothing(target);
    retyping_keeps_the_layout(q, entries, boundary_kc);
    injector::switches_concat(back, switch);
    injector::switches_concat(back + switch, tail);
    assert(Seq::<u32>::empty() + seq![target] == seq![target]);
    assert(seq![target] + Seq::<u32>::empty() == seq![target]);
    assert((back + switch + tail).take(back.len() as int) == back);
}

/// With two layouts a conversion goes to the other one, and the next conversion
/// comes back.
pub proof fn conversions_toggle(before: Service, after: Service)
    requires
        before.wf(),
        after.wf(),
        before.xkb.names().len() == 2,
        after.same_apart_from_layout(&before),
        after.xkb.active() == before.other_layout(),
    ensures
        after.xkb.active() != before.xkb.active(),
        after.other_layout() == before.xkb.active(),
{
    xkb::next_layout_differs(before.xkb, before.xkb.active());
}

// ---------------------------------------------------------------------------
// Waiting tokens
// ---------------------------------------------------------------------------

/// Only recent tokens that were typed in the same layout are converted along,
/// and they all wait in the queue.
pub proof fn stale_tokens_are_left_alone(
    q: Seq<TokenView>,
    now: u64,
    window_ms: u64,
    layout: u32,
    i: int,
)
    requires
        0 <= i < service::retro_tokens(q, now, window_ms, layout).len(),
    ensures
        ({
            let t = service::retro_tokens(q, now, window_ms, layout)[i];
            service::retro_fixable(t, now, window_ms, layout) && q.contains(t)
        }),
    decreases q.len(),
{
    if q.len() > 0 {
        let rest = q.drop_last();
        let before = service::retro_tokens(rest, now, window_ms, layout);
        assert(q[q.len() - 1] == q.last());
        if i < before.len() {
            stale_tokens_are_left_alone(rest, now, window_ms, layout, i);
            let t = before[i];
            let k = choose|k: int| 0 <= k < rest.len() && rest[k] == t;
            assert(q[k] == t);
            assert(service::retro_tokens(q, now, window_ms, layout)[i] == t);
        }
    }
}

/// A short token that has just been put aside is converted along with the next
/// word, if that is converted within the window and in the same layout.
pub proof fn fresh_tokens_are_converted_along(
    q: Seq<TokenView>,
    t: TokenView,
    now: u64,
    window_ms: u64,
    layout: u32,
)
    requires
        service::retro_fixable(t, now, window_ms, layout),
    ensures
        ({
            let converted = service::retro_tokens(
                state::newest_tokens(q.push(t)),
                now,
                window_ms,
                layout,
            );
            converted.len() > 0 && converted.last() == t
        }),
{
    state::queue_is_bounded(q, t);
}

// ---------------------------------------------------------------------------
// Keys
// ---------------------------------------------------------------------------

/// A hotkey (Ctrl/Alt/Super + X) is never taken for typing: it leaves no word in
/// progress and nothing that waits, and nothing is evaluated.
pub proof fn hotkeys_flush(s: Service, kc: u32, now: u64, text: Seq<char>, keysym: u32)
    requires
        !ModState::tracks(kc),
        s.state.mods.command_held(),
    ensures
        ({
            let o = s.event_outcome(KeyKind::Press, kc, now, text, keysym);
            &&& o.state.buffer.len() == 0
            &&& o.state.prev_tokens.len() == 0
            &&& o.action is Done
        }),
{
    state::modifier_event_touches_its_key_only(s.state.mods, kc, true, kc);
}

/// A watched modifier never enters the word: whatever its key, it types nothing.
pub proof fn modifiers_type_nothing(
    s: Service,
    kind: KeyKind,
    kc: u32,
    now: u64,
    text: Seq<char>,
    keysym: u32,
)
    requires
        ModState::tracks(kc),
    ensures
        ({
            let o = s.event_outcome(kind, kc, now, text, keysym);
            &&& o.state == service::event_seen(
                s.state@,
                kind,
                kc,
                now,
                s.cfg.general.idle_reset_ms,
            )
            &&& o.action is Done
        }),
{
}

/// Releases and repeats type nothing either.
pub proof fn releases_and_repeats_type_nothing(
    s: Service,
    kind: KeyKind,
    kc: u32,
    now: u64,
    text: Seq<char>,
    keysym: u32,
)
    requires
        kind != KeyKind::Press,
    ensures
        ({
            let o = s.event_outcome(kind, kc, now, text, keysym);
            &&& o.state == service::event_seen(
                s.state@,
                kind,
                kc,
                now,
                s.cfg.general.idle_reset_ms,
            )
            &&& o.action is Done
        }),
{
}

/// A held key stays held while it repeats: only presses and releases move the
/// modifiers, and each moves those of its own key alone.
pub proof fn repeats_keep_the_modifiers(
    s: StateView,
    kind: KeyKind,
    kc: u32,
    now: u64,
    idle_reset_ms: u64,
    other: u32,
)
    ensures
        ({
            let seen = service::event_seen(s, kind, kc, now, idle_reset_ms);
            &&& kind == KeyKind::Repeat ==> seen.mods == s.mods
            &&& kind != KeyKind::Repeat && ModState::tracks(kc) ==> seen.mods.down(kc) == (kind
                == KeyKind::Press)
            &&& other != kc ==> seen.mods.down(other) == s.mods.down(other)
        }),
{
    state::modifier_event_touches_its_key_only(s.mods, kc, kind == KeyKind::Press, other);
}

/// A pause drops the word in progress, and nothing else: tokens that wait for a
/// later fix have a window of their own.
pub proof fn a_pause_drops_the_word_only(
    s: StateView,
    kind: KeyKind,
    kc: u32,
    now: u64,
    idle_reset_ms: u64,
)
    ensures
        ({
            let seen = service::event_seen(s, kind, kc, now, idle_reset_ms);
            &&& service::paused(s, now, idle_reset_ms) ==> seen.buffer.len() == 0
            &&& !service::paused(s, now, idle_reset_ms) ==> seen.buffer == s.buffer
            &&& seen.prev_tokens == s.prev_tokens
            &&& seen.layout_idx == s.layout_idx
            &&& seen.replaying == s.replaying
        }),
{
}

/// Backspace takes back exactly the last letter.
pub proof fn backspace_undoes_a_letter(s: Service, before: StateView, kc: u32, ch: char)
    ensures
        ({
            let typed = s.key_outcome(before, kc, KeyClass::Letter(ch)).state;
            let erased = s.key_outcome(typed, service::BACKSPACE_KC, KeyClass::Erase).state;
            erased == before
        }),
{
    let e = service::entry_now(before, ch, kc);
    assert(before.buffer.push(e).drop_last() == before.buffer);
}

/// The word in progress is what the letters typed say, in order.
pub proof fn letters_spell_the_word(s: Service, before: StateView, kc: u32, ch: char)
    ensures
        ({
            let after = s.key_outcome(before, kc, KeyClass::Letter(ch)).state;
            &&& state::word_text(after.buffer) == state::word_text(before.buffer).push(ch)
            &&& state::word_positions(after.buffer) == state::word_positions(before.buffer).push(
                (kc, before.mods.shift_held()),
            )
        }),
{
    let e = service::entry_now(before, ch, kc);
    let after = before.buffer.push(e);
    assert(state::word_text(after) == state::word_text(before.buffer).push(ch));
    assert(state::word_positions(after) == state::word_positions(before.buffer).push(
        (kc, before.mods.shift_held()),
    ));
}

/// A key evaluates a word only where there is one and another layout to go to,
/// and the keys that are then decoded are those of the word.
pub proof fn only_words_are_evaluated(
    s: Service,
    kind: KeyKind,
    kc: u32,
    now: u64,
    text: Seq<char>,
    keysym: u32,
)
    ensures
        ({
            let o = s.event_outcome(kind, kc, now, text, keysym);
            o.action matches Action::Evaluate { boundary_kc, layout, positions } ==> {
                &&& kind == KeyKind::Press
                &&& boundary_kc == kc
                &&& layout == s.other_layout()
                &&& s.several_layouts()
                &&& o.state.buffer.len() > 0
                &&& positions == state::word_positions(o.state.buffer)
            }
        }),
{
}

// ---------------------------------------------------------------------------
// Words
// ---------------------------------------------------------------------------

/// A natural word of the current language is left alone, whatever its keys come
/// to in the other layout.
pub proof fn natural_words_are_left_alone(s: Service, swapped: Seq<char>, swap_outweighs: bool)
    requires
        s.wf(),
        s.dictionary(s.xkb.active()).knows_naturally(state::word_text(s.state@.buffer)),
        !detector::unsuitable(state::word_text(s.state@.buffer)),
    ensures
        s.word_verdict(swapped, swap_outweighs) == Verdict::Correct,
{
}

/// A word of two characters or more that the current language does not know and
/// the other one does is converted.
pub proof fn words_of_the_other_language_are_converted(
    s: Service,
    swapped: Seq<char>,
    swap_outweighs: bool,
)
    requires
        s.wf(),
        s.state@.buffer.len() >= 2,
        !detector::unsuitable(state::word_text(s.state@.buffer)),
        !s.dictionary(s.xkb.active()).knows(state::word_text(s.state@.buffer)),
        s.dictionary(s.other_layout()).knows(swapped),
    ensures
        s.word_verdict(swapped, swap_outweighs) == Verdict::MisLayout,
{
}

/// A layout without a dictionary knows no word.
pub proof fn other_layouts_know_nothing(s: Service, idx: u32, word: Seq<char>)
    requires
        s.wf(),
        s.xkb.name_at(idx) != "us"@,
        s.xkb.name_at(idx) != "ru"@,
    ensures
        !s.dictionary(idx).knows(word),
        !s.dictionary(idx).knows_naturally(word),
{
}

} // verus!
