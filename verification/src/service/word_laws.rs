//! What becomes of finished words, of waiting tokens and of the messages that are
//! no keys.

use vstd::prelude::*;

use crate::engine::detector;
use crate::engine::detector::Verdict;
use crate::engine::dict;
use crate::engine::dict::Dict;
use crate::engine::lang_score;
use crate::engine::state;
use crate::engine::state::{StateView, TokenView, WordEntry};
use crate::hyprland::HyprEvent;
use crate::input::injector;
use crate::input::injector::{Fault, KeyChange, Step};
use crate::input::KeyKind;
use crate::service;
use crate::service::{CoreMsg, Polled, Service};
use crate::text;
use crate::xkb;
use crate::xkb::LayoutMask;

verus! {

// ---------------------------------------------------------------------------
// Waiting tokens
// ---------------------------------------------------------------------------

/// Less than the window has gone by since the token was finished, and it was typed
/// in the layout.
pub open spec fn recent(t: TokenView, now: u64, window_ms: u64, layout: u32) -> bool {
    &&& if now > t.finished_at {
        now - t.finished_at < window_ms * 1_000_000
    } else {
        0 < window_ms
    }
    &&& t.layout_idx_when_typed == layout
}

/// The waiting tokens that are converted along are all those that are recent and
/// of the active layout, whatever their entries and boundaries are, in the order in
/// which they wait, and no others.
pub proof fn recent_tokens_are_converted_along(
    q: Seq<TokenView>,
    now: u64,
    window_ms: u64,
    layout: u32,
    i: int,
)
    ensures
        service::retro_tokens(q, now, window_ms, layout) == q.filter(
            |t: TokenView| recent(t, now, window_ms, layout),
        ),
        0 <= i < q.len() && recent(q[i], now, window_ms, layout) ==> service::retro_tokens(
            q,
            now,
            window_ms,
            layout,
        ).contains(q[i]),
        0 <= i < q.len() && !recent(q[i], now, window_ms, layout) ==> !service::retro_tokens(
            q,
            now,
            window_ms,
            layout,
        ).contains(q[i]),
    decreases q.len(),
{
    reveal(Seq::filter);
    let all = service::retro_tokens(q, now, window_ms, layout);
    if q.len() > 0 {
        let rest = q.drop_last();
        let before = service::retro_tokens(rest, now, window_ms, layout);
        recent_tokens_are_converted_along(rest, now, window_ms, layout, i);
        assert(q[q.len() - 1] == q.last());
        if recent(q.last(), now, window_ms, layout) {
            assert(all == before.push(q.last()));
            assert(all[before.len() as int] == q.last());
        }
        if 0 <= i < q.len() {
            if recent(q[i], now, window_ms, layout) {
                if i < rest.len() {
                    assert(rest[i] == q[i]);
                    let k = choose|k: int| 0 <= k < before.len() && before[k] == q[i];
                    assert(all[k] == q[i]);
                }
            } else if all.contains(q[i]) {
                let k = choose|k: int| 0 <= k < all.len() && all[k] == q[i];
                service::laws::stale_tokens_are_left_alone(q, now, window_ms, layout, k);
            }
        }
    }
}

/// A token takes up one character for each of its keys and one for its boundary.
pub proof fn tokens_take_up_their_keys_and_boundaries(q: Seq<TokenView>, t: TokenView)
    ensures
        service::screen_len(Seq::empty()) == 0,
        service::screen_len(q.push(t)) == service::screen_len(q) + t.entries.len() + 1,
{
    assert(q.push(t).drop_last() == q);
}

/// Tokens are retyped one after the other, each with its boundary: all of it, up to
/// the first keycode over 65535.
pub proof fn tokens_are_retyped_in_order(q: Seq<TokenView>, t: TokenView)
    ensures
        service::tokens_script(Seq::empty()) == injector::plain(Seq::empty()),
        ({
            let before = service::tokens_script(q);
            let word = injector::replay(t.entries);
            let all = service::tokens_script(q.push(t));
            &&& before.fault is Some ==> all == before
            &&& before.fault is None && word.fault is Some ==> all.fault == word.fault && all.steps
                == before.steps + word.steps
            &&& before.fault is None && word.fault is None && t.boundary_kc > 65535 ==> all.fault
                == Some(Fault::PrevBoundary(t.boundary_kc)) && all.steps == before.steps
                + word.steps
            &&& before.fault is None && word.fault is None && t.boundary_kc <= 65535
                ==> all.fault is None && all.steps == before.steps + word.steps + injector::tap(
                t.boundary_kc as u16,
            )
        }),
{
    assert(q.push(t).drop_last() == q);
    let before = service::tokens_script(q);
    let word = injector::replay(t.entries);
    let all = service::tokens_script(q.push(t));
    if before.fault is None && word.fault is None {
        if t.boundary_kc > 65535 {
            assert(word.steps + Seq::<Step>::empty() == word.steps);
        } else {
            let end = injector::tap(t.boundary_kc as u16);
            assert(before.steps + (word.steps + end) == before.steps + word.steps + end);
        }
    }
}

// ---------------------------------------------------------------------------
// Conversion
// ---------------------------------------------------------------------------

/// A conversion, step by step: a backspace for every character of the tokens, of
/// the word and for its boundary; the switch and a wait of 40 ms; the tokens; the
/// word; a wait of 50 ms; the boundary key.
pub proof fn a_conversion_step_by_step(
    q: Seq<TokenView>,
    entries: Seq<WordEntry>,
    boundary_kc: u32,
    target: u32,
)
    requires
        service::tokens_script(q).fault is None,
        injector::replay(entries).fault is None,
        boundary_kc <= 65535,
    ensures
        ({
            let script = service::conversion(q, entries, boundary_kc, target);
            let code = boundary_kc as u16;
            &&& script.fault is None
            &&& script.steps == injector::backspace_taps(
                service::screen_len(q) + entries.len() + 1,
            ) + seq![Step::SwitchLayout(target), Step::Pause(40000)] + service::tokens_script(
                q,
            ).steps + injector::replay(entries).steps + seq![
                Step::Pause(50000),
                Step::Emit(KeyChange { code, value: 1 }),
                Step::Pause(800),
                Step::Emit(KeyChange { code, value: 0 }),
                Step::Pause(800),
            ]
        }),
{
    let code = boundary_kc as u16;
    let back = injector::backspace_taps(service::screen_len(q) + entries.len() + 1);
    let switch = seq![Step::SwitchLayout(target), Step::Pause(40000)];
    let tokens = service::tokens_script(q).steps;
    let word = injector::replay(entries).steps;
    let end = seq![
        Step::Pause(50000),
        Step::Emit(KeyChange { code, value: 1 }),
        Step::Pause(800),
        Step::Emit(KeyChange { code, value: 0 }),
        Step::Pause(800),
    ];
    assert(seq![Step::Pause(50000)] + injector::tap(code) == end);
    let script = service::conversion(q, entries, boundary_kc, target);
    assert(script.steps == (back + switch) + (tokens + (word + end)));
    assert(script.steps == back + switch + tokens + word + end);
}

/// A conversion comes to its end exactly if no keycode in it is over 65535. A fault
/// in the tokens comes before one in the word, and that before the boundary's; what
/// stands in front of the fault is done.
pub proof fn a_conversion_ends_at_the_first_fault(
    q: Seq<TokenView>,
    entries: Seq<WordEntry>,
    boundary_kc: u32,
    target: u32,
)
    ensures
        ({
            let f = service::conversion(q, entries, boundary_kc, target).fault;
            let tokens = service::tokens_script(q).fault;
            let word = injector::replay(entries).fault;
            &&& tokens is Some ==> f == tokens
            &&& tokens is None && word is Some ==> f == word
            &&& tokens is None && word is None && boundary_kc > 65535 ==> f == Some(
                Fault::Boundary(boundary_kc),
            )
            &&& tokens is None && word is None && boundary_kc <= 65535 ==> f is None
        }),
        ({
            let steps = service::conversion(q, entries, boundary_kc, target).steps;
            let head = injector::backspace_taps(service::screen_len(q) + entries.len() + 1) + seq![
                Step::SwitchLayout(target),
                Step::Pause(40000),
            ];
            let tokens = service::tokens_script(q);
            let word = injector::replay(entries);
            &&& tokens.fault is Some ==> steps == head + tokens.steps
            &&& tokens.fault is None && word.fault is Some ==> steps == head + tokens.steps
                + word.steps
            &&& tokens.fault is None && word.fault is None && boundary_kc > 65535 ==> steps == head
                + tokens.steps + word.steps + seq![Step::Pause(50000)]
        }),
{
    let steps = service::conversion(q, entries, boundary_kc, target).steps;
    let head = injector::backspace_taps(service::screen_len(q) + entries.len() + 1) + seq![
        Step::SwitchLayout(target),
        Step::Pause(40000),
    ];
    let tokens = service::tokens_script(q);
    let word = injector::replay(entries);
    if tokens.fault is None {
        if word.fault is Some {
            assert(head + (tokens.steps + word.steps) == head + tokens.steps + word.steps);
        } else if boundary_kc > 65535 {
            let pause = seq![Step::Pause(50000)];
            assert(pause + Seq::<Step>::empty() == pause);
            assert(head + (tokens.steps + (word.steps + pause)) == head + tokens.steps + word.steps
                + pause);
        }
    }
}

/// The conversion of a service is that of the word in progress and of the recent
/// tokens of the active layout, to the next layout. Meanwhile the state is marked
/// as replaying, no token waits, and the word is still there.
pub proof fn a_service_converts_its_word(s: Service, boundary_kc: u32, now: u64)
    ensures
        s.conversion_now(boundary_kc, now) == service::conversion(
            s.state@.prev_tokens.filter(
                |t: TokenView|
                    recent(t, now, s.cfg.detector.retro_window_ms, s.xkb.active()),
            ),
            s.state@.buffer,
            boundary_kc,
            s.other_layout(),
        ),
        s.converting() == (StateView {
            prev_tokens: Seq::empty(),
            replaying: true,
            ..s.state@
        }),
{
    recent_tokens_are_converted_along(
        s.state@.prev_tokens,
        now,
        s.cfg.detector.retro_window_ms,
        s.xkb.active(),
        0,
    );
}

/// The other layout of a service is the one with the next index, and after the last
/// one the first.
pub proof fn the_other_layout_is_the_next(s: Service)
    requires
        s.wf(),
    ensures
        s.xkb.active() + 1 < s.xkb.names().len() ==> s.other_layout() == s.xkb.active() + 1,
        s.xkb.active() + 1 == s.xkb.names().len() ==> s.other_layout() == 0,
        s.several_layouts() <==> s.xkb.names().len() >= 2,
{
    xkb::the_next_layout_is_one_further(s.xkb, s.xkb.active());
}

// ---------------------------------------------------------------------------
// Verdicts
// ---------------------------------------------------------------------------

/// A word is judged by the dictionaries of the active and of the other layout, and
/// by the letters where both forms have a score. It is converted exactly if it has
/// neither digit nor white space and either the current dictionary knows it only as
/// an acronym of two or three letters whose swapped form is a natural word; or the
/// current dictionary does not know it, it has two characters or more, however
/// many, and the other dictionary knows the swapped form or the letters outweigh
/// it.
pub proof fn which_words_are_converted(s: Service, swapped: Seq<char>, swap_outweighs: bool)
    ensures
        ({
            let word = state::word_text(s.state@.buffer);
            let cur = s.dictionary(s.xkb.active());
            let other = s.dictionary(s.other_layout());
            let plain_word = forall|i: int|
                0 <= i < word.len() ==> !(48 <= (#[trigger] word[i]) as u32 <= 57)
                    && !text::white_space(word[i]);
            let scored = lang_score::layout_score(word, s.xkb.name_at(s.xkb.active())) is Some
                && lang_score::layout_score(swapped, s.xkb.name_at(s.other_layout())) is Some;
            &&& s.word_verdict(swapped, swap_outweighs) == Verdict::MisLayout <==> plain_word && {
                ||| cur.knows(word) && !cur.knows_naturally(word) && other.knows_naturally(swapped)
                    && 2 <= word.len() <= 3
                ||| !cur.knows(word) && word.len() >= 2 && (other.knows(swapped) || swap_outweighs
                    && scored)
            }
            &&& s.word_verdict(swapped, swap_outweighs) == Verdict::Correct <==> plain_word
                && cur.knows(word) && !(!cur.knows_naturally(word) && other.knows_naturally(swapped)
                && 2 <= word.len() <= 3)
        }),
{
    let word = state::word_text(s.state@.buffer);
    let cur = s.dictionary(s.xkb.active());
    let other = s.dictionary(s.other_layout());
    detector::the_verdict_in_full(
        word,
        cur.knows(word),
        cur.knows_naturally(word),
        other.knows(swapped),
        other.knows_naturally(swapped),
        swap_outweighs && detector::comparable(
            word,
            swapped,
            s.xkb.name_at(s.xkb.active()),
            s.xkb.name_at(s.other_layout()),
        ),
    );
}

/// What becomes of a judged word. A word that is converted stays until the replay
/// is done. A word that nothing is known of waits for a later fix if it is shorter
/// than the shortest word of the settings: it becomes the newest of at most three
/// tokens, with all its keys. Any other word goes, and takes the waiting tokens
/// with it.
pub proof fn what_becomes_of_a_judged_word(s: Service, boundary_kc: u32, now: u64)
    ensures
        s.after_verdict(Verdict::MisLayout, boundary_kc, now) == (StateView {
            prev_tokens: Seq::empty(),
            replaying: true,
            ..s.state@
        }),
        s.after_verdict(Verdict::Correct, boundary_kc, now) == (StateView {
            buffer: Seq::empty(),
            prev_tokens: Seq::empty(),
            ..s.state@
        }),
        s.state@.buffer.len() >= s.cfg.detector.min_word_len ==> s.after_verdict(
            Verdict::Unknown,
            boundary_kc,
            now,
        ) == (StateView { buffer: Seq::empty(), prev_tokens: Seq::empty(), ..s.state@ }),
        s.state@.buffer.len() < s.cfg.detector.min_word_len ==> ({
            let st = s.after_verdict(Verdict::Unknown, boundary_kc, now);
            let q = s.state@.prev_tokens;
            let token = TokenView {
                entries: s.state@.buffer,
                boundary_kc,
                finished_at: now,
                layout_idx_when_typed: s.xkb.active(),
            };
            &&& st == (StateView {
                buffer: Seq::empty(),
                prev_tokens: st.prev_tokens,
                ..s.state@
            })
            &&& q.len() < 3 ==> st.prev_tokens == q.push(token)
            &&& q.len() == 3 ==> st.prev_tokens == seq![q[1], q[2], token]
        }),
{
    let q = s.state@.prev_tokens;
    state::the_queue_holds_the_newest_three(q.push(s.finished_token(boundary_kc, now)));
}

/// The dictionary of a layout goes by its name: us has the English words, ru the
/// Russian ones, and any other none.
pub proof fn dictionaries_go_by_the_layout_name(s: Service, idx: u32)
    ensures
        s.xkb.name_at(idx) == "us"@ ==> s.dictionary(idx) == s.en,
        s.xkb.name_at(idx) == "ru"@ ==> s.dictionary(idx) == s.ru,
        s.xkb.name_at(idx) != "us"@ && s.xkb.name_at(idx) != "ru"@ ==> s.dictionary(idx)
            == s.empty_dict,
{
    reveal_strlit("us");
    reveal_strlit("ru");
    assert("us"@[0] != "ru"@[0]);
}

/// A word list that could be read has the words of its lines, and one that could
/// not has none.
pub proof fn lists_have_the_words_of_their_lines(lines: &Vec<String>)
    ensures
        service::list_words(None) == Set::<Seq<char>>::empty(),
        service::list_natural_words(None) == Set::<Seq<char>>::empty(),
        service::list_words(Some(lines)) == dict::file_words(text::views(lines@)),
        service::list_natural_words(Some(lines)) == dict::file_natural_words(text::views(lines@)),
{
}

// ---------------------------------------------------------------------------
// Other messages
// ---------------------------------------------------------------------------

/// The compositor's names for the layouts, in any case and with any white space
/// around them: English and English (US) stand for us, Russian and Russian (RU)
/// for ru, and every other name for nothing.
pub proof fn layouts_by_the_compositors_names(names: Seq<Seq<char>>, name: Seq<char>)
    ensures
        ({
            let t = text::trimmed(name);
            let english = text::same_ignoring_ascii_case(t, "English"@)
                || text::same_ignoring_ascii_case(t, "English (US)"@);
            let russian = text::same_ignoring_ascii_case(t, "Russian"@)
                || text::same_ignoring_ascii_case(t, "Russian (RU)"@);
            &&& english ==> service::named_layout(names, name) == text::first_position(
                names,
                "us"@,
            )
            &&& russian ==> service::named_layout(names, name) == text::first_position(
                names,
                "ru"@,
            )
            &&& !english && !russian ==> service::named_layout(names, name) is None
        }),
{
    reveal_strlit("English");
    reveal_strlit("English (US)");
    reveal_strlit("Russian");
    reveal_strlit("Russian (RU)");
    let t = text::trimmed(name);
    text::only_ascii_case_is_ignored(t, "English"@);
    text::only_ascii_case_is_ignored(t, "English (US)"@);
    text::only_ascii_case_is_ignored(t, "Russian"@);
    text::only_ascii_case_is_ignored(t, "Russian (RU)"@);
    if text::same_ignoring_ascii_case(t, "English"@) || text::same_ignoring_ascii_case(
        t,
        "English (US)"@,
    ) {
        assert(t[0] == 'E' || t[0] as u32 == 101);
    }
    if text::same_ignoring_ascii_case(t, "Russian"@) || text::same_ignoring_ascii_case(
        t,
        "Russian (RU)"@,
    ) {
        assert(t[0] == 'R' || t[0] as u32 == 114);
    }
}

/// A layout event of the compositor makes a configured layout the active one and
/// has it locked, with no modifier depressed, and keeps the word and the waiting
/// tokens; one that names no configured layout changes nothing.
pub proof fn layout_events_are_followed(
    before: Service,
    after: Service,
    keyboard: String,
    layout_name: String,
)
    requires
        after.follows(&before, HyprEvent::ActiveLayout { keyboard, layout_name }),
    ensures
        match service::named_layout(before.xkb.names(), layout_name@) {
            Some(i) => {
                &&& after.xkb.active() == i
                &&& after.state@ == (StateView { layout_idx: i as u32, ..before.state@ })
                &&& after.xkb.names() == before.xkb.names()
                &&& before.lock_for(HyprEvent::ActiveLayout { keyboard, layout_name }) == Some(
                    LayoutMask { depressed_mods: 0, locked_layout: i as u32 },
                )
            },
            None => {
                &&& after.xkb == before.xkb
                &&& after.state@ == before.state@
                &&& before.lock_for(HyprEvent::ActiveLayout { keyboard, layout_name }) is None
            },
        },
        after.cfg == before.cfg && after.en == before.en && after.ru == before.ru
            && after.empty_dict == before.empty_dict,
        after.layouts_csv == before.layouts_csv && after.variants_csv == before.variants_csv,
        after.xkb.variant_names() == before.xkb.variant_names(),
{
}

/// Another window forgets the word and everything that waits, and nothing else.
pub proof fn another_window_forgets_the_word(before: Service, after: Service)
    requires
        after.follows(&before, HyprEvent::ActiveWindow),
    ensures
        after.state@ == (StateView {
            buffer: Seq::empty(),
            prev_tokens: Seq::empty(),
            ..before.state@
        }),
        before.lock_for(HyprEvent::ActiveWindow) is None,
        after.xkb == before.xkb && after.cfg == before.cfg && after.en == before.en && after.ru
            == before.ru && after.empty_dict == before.empty_dict,
        after.layouts_csv == before.layouts_csv && after.variants_csv == before.variants_csv,
{
}

/// The setting of a service is everything but its word state.
pub proof fn the_setting_is_everything_else(a: Service, b: Service)
    ensures
        a.same_setting(&b) ==> a == (Service { state: a.state, ..b }),
        a.same_apart_from_layout(&b) ==> a.cfg == b.cfg && a.en == b.en && a.ru == b.ru
            && a.empty_dict == b.empty_dict && a.layouts_csv == b.layouts_csv && a.variants_csv
            == b.variants_csv && a.xkb.names() == b.xkb.names() && a.xkb.variant_names()
            == b.xkb.variant_names(),
{
}

/// While the modifiers of a hotkey are waited for, a press or a release moves the
/// modifiers of its key and nothing else, and a repeat, another request to swap and
/// an empty queue change nothing.
pub proof fn waiting_keys_move_the_modifiers_only(
    before: Service,
    after: Service,
    polled: Polled,
)
    requires
        after.absorbs(&before, polled),
        !(polled matches Polled::Message(CoreMsg::Hypr(_))),
    ensures
        after.same_setting(&before),
        match polled {
            Polled::Message(CoreMsg::Key(ev)) => match ev.kind {
                KeyKind::Press => after.state@ == (StateView {
                    mods: before.state.mods.after(ev.keycode, true),
                    ..before.state@
                }),
                KeyKind::Release => after.state@ == (StateView {
                    mods: before.state.mods.after(ev.keycode, false),
                    ..before.state@
                }),
                KeyKind::Repeat => after.state@ == before.state@,
            },
            _ => after.state@ == before.state@,
        },
{
}

/// An event of the compositor is followed during the wait as at any other time.
pub proof fn waiting_follows_the_compositor(before: Service, after: Service, ev: HyprEvent)
    ensures
        after.absorbs(&before, Polled::Message(CoreMsg::Hypr(ev))) <==> after.follows(&before, ev),
{
}

/// What holds of a service between any two messages: the active layout is a
/// configured one and the state agrees with the keymap about it, at most three
/// tokens wait, and no modifier and no backspace is remembered as a typed key.
pub proof fn what_holds_between_messages(s: Service, i: int, j: int)
    requires
        s.wf(),
    ensures
        s.xkb.names() == text::list_items(s.layouts_csv@),
        s.xkb.active() < s.xkb.names().len(),
        s.state.layout_idx == s.xkb.active(),
        s.state@.prev_tokens.len() <= 3,
        0 <= i < s.state@.buffer.len() ==> service::key_laws::no_modifier_key(
            s.state@.buffer[i].keycode,
        ) && s.state@.buffer[i].keycode != 14,
        0 <= j < s.state@.prev_tokens.len() && 0 <= i < s.state@.prev_tokens[j].entries.len()
            ==> service::key_laws::no_modifier_key(s.state@.prev_tokens[j].entries[i].keycode)
            && s.state@.prev_tokens[j].entries[i].keycode != 14,
        s.empty_dict.words() == Set::<Seq<char>>::empty(),
{
    if 0 <= i < s.state@.buffer.len() {
        assert(service::typing_key(s.state@.buffer[i].keycode));
    }
    if 0 <= j < s.state@.prev_tokens.len() && 0 <= i < s.state@.prev_tokens[j].entries.len() {
        assert(service::typed_entries(s.state@.prev_tokens[j].entries));
        assert(service::typing_key(s.state@.prev_tokens[j].entries[i].keycode));
    }
}

/// The time that has gone by is the difference, and none if the clock stands
/// earlier; a pause is longer than the idle limit in milliseconds, and there is none
/// before the first event.
pub proof fn pauses_are_longer_than_the_limit(s: StateView, now: u64, then: u64, idle_ms: u64)
    ensures
        now >= then ==> service::elapsed(now, then) == now - then,
        now <= then ==> service::elapsed(now, then) == 0,
        s.last_event_at is None ==> !service::paused(s, now, idle_ms),
        s.last_event_at == Some(then) ==> (service::paused(s, now, idle_ms) <==> now > then && now
            - then > idle_ms * 1_000_000),
{
}

} // verus!
