//! On-demand layout swap for selected text.
//!
//! Flow:
//!   1. read the Wayland primary selection (text the user has highlighted right
//!      now);
//!   2. detect the source layout from the dominant script (cyrillic → ru,
//!      latin → us);
//!   3. reverse-map every char to (keycode, shift) in the source layout;
//!   4. switch Hyprland to the target layout;
//!   5. send Backspace: this deletes the active selection in one shot;
//!   6. replay the keycodes: same physical positions, new layout, so the
//!      output is the swapped string.

use vstd::prelude::*;

use crate::engine::state;
use crate::engine::state::WordEntry;
use crate::input::injector;
use crate::input::injector::{Script, Step};
use crate::input::screen;
use crate::input::screen::Screen;
use crate::text;
use crate::text::{
    chars_of, decode_lossy, is_ascii_alphabetic, len_without_newlines, position, string_between,
};
use crate::xkb;
use crate::xkb::{CharMap, Decoded, XkbState};

verus! {

/// What the user has highlighted, from the outcome of `wl-paste`: a failure
/// means that the selection is empty. A well-formed text is read as it is, apart
/// from line feeds at its end.
pub fn read_primary_selection(success: bool, stdout: &[u8]) -> (r: String)
    ensures
        r@ == if success {
            text::without_final_newlines(text::lossy_text(stdout@))
        } else {
            Seq::empty()
        },
        success && vstd::utf8::valid_utf8(stdout@) ==> r@ == text::without_final_newlines(
            vstd::utf8::decode_utf8(stdout@),
        ),
{
    if !success {
        return String::new();
    }
    let decoded = decode_lossy(stdout);
    strip_newlines(decoded.as_str())
}

/// A text without the line feeds at its end.
pub fn strip_newlines(s: &str) -> (r: String)
    ensures
        r@ == text::without_final_newlines(s@),
{
    let chars = chars_of(s);
    let n: usize = len_without_newlines(chars.as_slice());
    assert(chars@.subrange(0, n as int) == chars@.take(n as int));
    string_between(chars.as_slice(), 0, n)
}

/// The Cyrillic block and its supplement.
pub open spec fn cyrillic(c: char) -> bool {
    0x0400 <= c as u32 <= 0x052f
}

/// How many characters of a text are Cyrillic.
pub open spec fn cyrillic_count(s: Seq<char>) -> nat
    decreases s.len(),
{
    if s.len() == 0 {
        0
    } else {
        cyrillic_count(s.drop_last()) + if cyrillic(s.last()) {
            1nat
        } else {
            0nat
        }
    }
}

/// How many characters of a text are ASCII letters.
pub open spec fn latin_count(s: Seq<char>) -> nat
    decreases s.len(),
{
    if s.len() == 0 {
        0
    } else {
        latin_count(s.drop_last()) + if text::ascii_alphabetic(s.last()) {
            1nat
        } else {
            0nat
        }
    }
}

/// The layout code of the dominant script; none if neither script wins.
pub open spec fn dominant_layout(s: Seq<char>) -> Option<Seq<char>> {
    if cyrillic_count(s) > latin_count(s) {
        Some("ru"@)
    } else if latin_count(s) > cyrillic_count(s) {
        Some("us"@)
    } else {
        None
    }
}

/// The index of the layout that a text was typed in, by its dominant script.
pub open spec fn source_layout(s: Seq<char>, layouts: Seq<Seq<char>>) -> Option<int> {
    match dominant_layout(s) {
        Some(code) => text::first_position(layouts, code),
        None => None,
    }
}

/// Pick the layout the text was typed in, by counting the dominant script.
/// Returns `None` when neither script wins: there's no swap to make.
pub fn detect_source_layout(text: &str, layouts: &Vec<String>) -> (r: Option<u32>)
    requires
        layouts@.len() <= u32::MAX,
    ensures
        match r {
            Some(i) => source_layout(text@, text::views(layouts@)) == Some(i as int) && i
                < layouts@.len(),
            None => source_layout(text@, text::views(layouts@)) is None,
        },
{
    let chars = chars_of(text);
    let mut cy: usize = 0;
    let mut la: usize = 0;
    let mut i: usize = 0;
    while i < chars.len()
        invariant
            i <= chars.len(),
            chars@ == text@,
            cy <= i,
            la <= i,
            cy == cyrillic_count(text@.take(i as int)),
            la == latin_count(text@.take(i as int)),
        decreases chars.len() - i,
    {
        proof {
            assert(text@.take(i + 1).drop_last() == text@.take(i as int));
            assert(text@.take(i + 1).last() == text@[i as int]);
        }
        let u: u32 = chars[i] as u32;
        if (0x0400 <= u && u <= 0x04ff) || (0x0500 <= u && u <= 0x052f) {
            cy = cy + 1;
        } else if is_ascii_alphabetic(chars[i]) {
            la = la + 1;
        }
        i = i + 1;
    }
    assert(text@.take(i as int) == text@);
    let target = if cy > la {
        "ru"
    } else if la > cy {
        "us"
    } else {
        return None;
    };
    match position(layouts, target) {
        Some(p) => Some(p as u32),
        None => None,
    }
}

/// The entry of a character that is found at the given position.
pub open spec fn entry_for(ch: char, position: (u32, bool)) -> WordEntry {
    WordEntry { ch, keycode: position.0, shift: position.1 }
}

/// The positions of a text under a reverse map. Characters without a key there
/// are dropped.
pub open spec fn mapped_entries(s: Seq<char>, map: spec_fn(char) -> Option<(u32, bool)>) -> Seq<WordEntry>
    decreases s.len(),
{
    if s.len() == 0 {
        Seq::empty()
    } else {
        let before = mapped_entries(s.drop_last(), map);
        match map(s.last()) {
            Some(p) => before.push(entry_for(s.last(), p)),
            None => before,
        }
    }
}

/// Reverse-map each char of `text` to a positional `WordEntry`. Chars without a
/// keycode in the layout are dropped: there's nothing useful to inject for
/// them.
pub fn text_to_entries(text: &str, map: &CharMap) -> (r: Vec<WordEntry>)
    ensures
        r@ == mapped_entries(text@, map@),
{
    let chars = chars_of(text);
    let mut out: Vec<WordEntry> = Vec::new();
    let mut i: usize = 0;
    while i < chars.len()
        invariant
            i <= chars.len(),
            chars@ == text@,
            out@ == mapped_entries(text@.take(i as int), map@),
        decreases chars.len() - i,
    {
        proof {
            assert(text@.take(i + 1).drop_last() == text@.take(i as int));
            assert(text@.take(i + 1).last() == text@[i as int]);
        }
        let ch = chars[i];
        match map.get(&ch) {
            Some(p) => {
                out.push(WordEntry { ch, keycode: p.0, shift: p.1 });
            },
            None => {},
        }
        i = i + 1;
    }
    assert(text@.take(i as int) == text@);
    out
}

/// From which layout to which a selection is swapped: nowhere when it is empty,
/// its script is ambiguous, or only one layout is configured.
pub open spec fn swap_direction(s: Seq<char>, xkb: XkbState) -> Option<(int, u32)> {
    if s.len() == 0 || xkb.names().len() < 2 {
        None
    } else {
        match source_layout(s, xkb.names()) {
            Some(i) => Some((i, xkb.next_index(i as u32))),
            None => None,
        }
    }
}

/// The source and the target layout of a selection swap, if there is one to
/// make.
pub fn plan_swap(text: &str, xkb: &XkbState) -> (r: Option<(u32, u32)>)
    requires
        xkb.wf(),
    ensures
        match r {
            Some(d) => {
                &&& swap_direction(text@, *xkb) == Some((d.0 as int, d.1))
                &&& d.0 < xkb.names().len()
                &&& d.1 < xkb.names().len()
            },
            None => swap_direction(text@, *xkb) is None,
        },
{
    if text.is_empty() {
        return None;
    }
    if xkb.count() < 2 {
        return None;
    }
    match detect_source_layout(text, xkb.layouts()) {
        Some(source_idx) => Some((source_idx, xkb.index_after(source_idx))),
        None => None,
    }
}

/// Wait after a layout switch: Hyprland needs a moment to broadcast the change
/// before replayed keys are decoded under it.
pub const SWITCH_SETTLE_US: u64 = 40000;

/// Wait after the selection has been deleted.
pub const DELETE_SETTLE_US: u64 = 20000;

/// Replacing the selection: switch, delete it with one backspace, type the keys.
pub open spec fn replacement(entries: Seq<WordEntry>, target: u32) -> injector::ScriptView {
    injector::chain(
        injector::plain(
            seq![Step::SwitchLayout(target), Step::Pause(SWITCH_SETTLE_US)] + injector::tap(
                injector::KEY_BACKSPACE,
            ) + seq![Step::Pause(DELETE_SETTLE_US)],
        ),
        injector::replay(entries),
    )
}

/// The script that replaces the selection, unless there is nothing to type.
pub fn swap_selection(entries: &Vec<WordEntry>, target: u32) -> (r: Option<Script>)
    ensures
        match r {
            Some(s) => entries@.len() > 0 && s@ == replacement(entries@, target),
            None => entries@.len() == 0,
        },
{
    if entries.len() == 0 {
        return None;
    }
    let mut s = Script::new();
    s.step(Step::SwitchLayout(target));
    s.step(Step::Pause(SWITCH_SETTLE_US));
    s.backspaces(1);
    s.step(Step::Pause(DELETE_SETTLE_US));
    proof {
        reveal_with_fuel(injector::backspace_taps, 2);
        assert(s@.steps == seq![Step::SwitchLayout(target), Step::Pause(SWITCH_SETTLE_US)]
            + injector::tap(injector::KEY_BACKSPACE) + seq![Step::Pause(DELETE_SETTLE_US)]);
    }
    s.replay_entries(entries);
    Some(s)
}

proof fn entry_appended(entries: Seq<WordEntry>, e: WordEntry)
    ensures
        entries.push(e).len() == entries.len() + 1,
        forall|i: int|
            0 <= i < entries.len() ==> (#[trigger] entries.push(e)[i]) == entries[i],
        entries.push(e)[entries.len() as int] == e,
        state::word_text(entries.push(e)) == state::word_text(entries).push(e.ch),
{
    assert(state::word_text(entries.push(e)) == state::word_text(entries).push(e.ch));
}

/// Every character that the map holds survives, in order: a text of mapped
/// characters is kept whole.
pub proof fn mapped_text_is_kept(s: Seq<char>, map: spec_fn(char) -> Option<(u32, bool)>)
    requires
        forall|i: int| 0 <= i < s.len() ==> map(#[trigger] s[i]) is Some,
    ensures
        state::word_text(mapped_entries(s, map)) == s,
    decreases s.len(),
{
    if s.len() > 0 {
        let t = s.drop_last();
        assert forall|i: int| 0 <= i < t.len() implies map(#[trigger] t[i]) is Some by {
            assert(t[i] == s[i]);
        }
        mapped_text_is_kept(t, map);
        assert(map(s[s.len() - 1]) is Some);
        text::scalar_value(s.last());
        entry_appended(mapped_entries(t, map), entry_for(s.last(), map(s.last())->0));
        assert(t.push(s.last()) == s);
    } else {
        assert(state::word_text(mapped_entries(s, map)) == s);
    }
}

/// Every entry is the map's own position for its character.
pub proof fn entries_come_from_the_map(s: Seq<char>, map: spec_fn(char) -> Option<(u32, bool)>, i: int)
    requires
        0 <= i < mapped_entries(s, map).len(),
    ensures
        ({
            let e = mapped_entries(s, map)[i];
            map(e.ch) == Some((e.keycode, e.shift)) && s.contains(e.ch)
        }),
    decreases s.len(),
{
    if s.len() > 0 {
        let t = s.drop_last();
        assert(s[s.len() - 1] == s.last());
        if map(s.last()) is Some {
            text::scalar_value(s.last());
            entry_appended(mapped_entries(t, map), entry_for(s.last(), map(s.last())->0));
        }
        if i < mapped_entries(t, map).len() {
            entries_come_from_the_map(t, map, i);
            let e = mapped_entries(t, map)[i];
            let k = choose|k: int| 0 <= k < t.len() && t[k] == e.ch;
            assert(s[k] == e.ch);
        }
    }
}

/// What is replayed is what the selection was typed with: the key of every entry
/// produces its character in the layout that was probed.
pub proof fn entries_type_their_characters(
    s: Seq<char>,
    map: CharMap,
    texts: Seq<Seq<char>>,
    i: int,
)
    requires
        map.reflects(texts),
        texts.len() == xkb::probes().len(),
        0 <= i < mapped_entries(s, map@).len(),
    ensures
        ({
            let e = mapped_entries(s, map@)[i];
            exists|j: int|
                0 <= j < texts.len() && xkb::probes()[j] == (e.keycode, e.shift)
                    && #[trigger] xkb::yields(texts, j, e.ch)
        }),
{
    entries_come_from_the_map(s, map@, i);
    let e = mapped_entries(s, map@)[i];
    assert(map.at(e.ch) == Some((e.keycode, e.shift)));
    xkb::mapped_key_produces_its_char(map, texts, e.ch);
}

/// The characters of a text that have a key.
pub open spec fn with_keys(s: Seq<char>, map: spec_fn(char) -> Option<(u32, bool)>) -> Seq<char>
    decreases s.len(),
{
    if s.len() == 0 {
        Seq::empty()
    } else if map(s.last()) is Some {
        with_keys(s.drop_last(), map).push(s.last())
    } else {
        with_keys(s.drop_last(), map)
    }
}

/// Reverse mapping drops the characters without a key and keeps all others, in
/// order.
pub proof fn only_unmapped_characters_are_dropped(
    s: Seq<char>,
    map: spec_fn(char) -> Option<(u32, bool)>,
)
    ensures
        state::word_text(mapped_entries(s, map)) == with_keys(s, map),
    decreases s.len(),
{
    if s.len() > 0 {
        only_unmapped_characters_are_dropped(s.drop_last(), map);
        if map(s.last()) is Some {
            text::scalar_value(s.last());
            entry_appended(
                mapped_entries(s.drop_last(), map),
                entry_for(s.last(), map(s.last())->0),
            );
        }
    } else {
        assert(state::word_text(mapped_entries(s, map)) == with_keys(s, map));
    }
}

proof fn entry_texts_are_their_characters(
    entries: Seq<WordEntry>,
    keys: spec_fn(u32, bool) -> Seq<char>,
)
    requires
        forall|i: int|
            0 <= i < entries.len() ==> keys(
                (#[trigger] entries[i]).keycode,
                entries[i].shift,
            ) == seq![entries[i].ch],
    ensures
        xkb::keys_text(state::word_positions(entries), keys) == state::word_text(entries),
    decreases entries.len(),
{
    let positions = state::word_positions(entries);
    if entries.len() > 0 {
        let rest = entries.drop_first();
        assert forall|i: int| 0 <= i < rest.len() implies keys(
            (#[trigger] rest[i]).keycode,
            rest[i].shift,
        ) == seq![rest[i].ch] by {
            assert(rest[i] == entries[i + 1]);
        }
        entry_texts_are_their_characters(rest, keys);
        assert(positions.drop_first() == state::word_positions(rest));
        let e = entries[0];
        assert(keys(e.keycode, e.shift) == seq![e.ch]);
        assert(state::word_text(entries) == seq![e.ch] + state::word_text(rest));
    } else {
        assert(state::word_text(entries) == Seq::<char>::empty());
    }
}

/// Decoding in the source layout undoes the reverse mapping: it gives back the
/// text without the characters that have no key there. The map is that of a
/// layout in which no key of the main block has more than one character and the
/// shift key has none, and the decoding is done on the same layout.
pub proof fn decoding_undoes_the_reverse_mapping(
    s: Seq<char>,
    map: CharMap,
    texts: Seq<Seq<char>>,
    outcomes: Seq<Decoded>,
)
    requires
        map.reflects(texts),
        texts.len() == xkb::probes().len(),
        forall|j: int| 0 <= j < texts.len() ==> (#[trigger] texts[j]).len() <= 1,
        texts[xkb::probe_number(xkb::SHIFT_KC, false)].len() == 0,
        texts[xkb::probe_number(xkb::SHIFT_KC, true)].len() == 0,
        xkb::answers(
            xkb::decode_steps(state::word_positions(mapped_entries(s, map@)), false),
            false,
            outcomes,
            xkb::probed_keys(texts),
        ),
    ensures
        xkb::kept_text(
            xkb::decode_steps(state::word_positions(mapped_entries(s, map@)), false),
            outcomes,
        ) == with_keys(s, map@),
{
    let entries = mapped_entries(s, map@);
    let positions = state::word_positions(entries);
    let keys = xkb::probed_keys(texts);
    assert forall|i: int| 0 <= i < entries.len() implies keys(
        (#[trigger] entries[i]).keycode,
        entries[i].shift,
    ) == seq![entries[i].ch] && entries[i].keycode != xkb::SHIFT_KC by {
        let e = entries[i];
        entries_type_their_characters(s, map, texts, i);
        let j = choose|j: int|
            0 <= j < texts.len() && xkb::probes()[j] == (e.keycode, e.shift)
                && #[trigger] xkb::yields(texts, j, e.ch);
        assert(xkb::probes()[j] == xkb::probe(j));
        assert(xkb::probe_number(e.keycode, e.shift) == j);
        assert(texts[j].len() == 1);
        assert(texts[j] == seq![e.ch]);
    }
    assert forall|i: int| 0 <= i < positions.len() implies (#[trigger] positions[i]).0
        != xkb::SHIFT_KC by {
        assert(entries[i].keycode != xkb::SHIFT_KC);
    }
    entry_texts_are_their_characters(entries, keys);
    xkb::decoding_is_keywise(positions, outcomes, keys);
    only_unmapped_characters_are_dropped(s, map@);
}

/// A swap goes from a layout of the dominant script to a different one.
pub proof fn swap_changes_layout(s: Seq<char>, xkb: XkbState)
    requires
        xkb.wf(),
    ensures
        swap_direction(s, xkb) matches Some(d) ==> {
            &&& 0 <= d.0 < xkb.names().len()
            &&& d.1 < xkb.names().len()
            &&& d.1 != d.0
            &&& dominant_layout(s) == Some(xkb.names()[d.0])
        },
{
    if swap_direction(s, xkb) is Some {
        let code = dominant_layout(s)->0;
        text::first_position_found(xkb.names(), code);
        let i = text::first_position(xkb.names(), code)->0;
        crate::xkb::next_layout_differs(xkb, i as u32);
    }
}

/// Replacing a selection switches the layout first, deletes with a single
/// backspace, and types the keys of the selection; nothing stays down.
pub proof fn replacement_deletes_and_retypes(entries: Seq<WordEntry>, target: u32)
    requires
        injector::typeable(entries),
    ensures
        ({
            let script = replacement(entries, target);
            &&& script.fault is None
            &&& script.steps[0] == Step::SwitchLayout(target)
            &&& injector::switches(script.steps) == seq![target]
            &&& injector::keys_typed(script.steps, Set::empty()) == seq![
                (injector::KEY_BACKSPACE, false),
            ] + injector::typed_positions(entries)
            &&& injector::keys_after(script.steps, Set::empty()) == Set::<u16>::empty()
        }),
{
    let none = Set::<u16>::empty();
    let empty = Seq::<(u16, bool)>::empty();
    let switch = seq![Step::SwitchLayout(target), Step::Pause(SWITCH_SETTLE_US)];
    let tap = injector::tap(injector::KEY_BACKSPACE);
    let pause = seq![Step::Pause(DELETE_SETTLE_US)];
    let word = injector::replay(entries).steps;
    let back = seq![(injector::KEY_BACKSPACE, false)];
    reveal_with_fuel(injector::keys_after, 3);
    reveal_with_fuel(injector::keys_typed, 3);
    reveal_with_fuel(injector::switches, 3);
    assert(switch.drop_first()[0] == switch[1]);
    assert(switch.drop_first().drop_first().len() == 0);
    assert(injector::keys_after(switch, none) == none);
    assert(injector::keys_typed(switch, none) == empty);
    assert(switch.drop_last().drop_last().len() == 0);
    assert(switch.drop_last().last() == switch[0]);
    assert(injector::switches(switch) == seq![target]);
    assert(pause.drop_first().len() == 0);
    assert(injector::keys_after(pause, none) == none);
    assert(injector::keys_typed(pause, none) == empty);
    assert(pause.drop_last().len() == 0);
    assert(injector::switches(pause) == Seq::<u32>::empty());
    injector::tap_types_one_key(injector::KEY_BACKSPACE, none);
    assert(none.remove(injector::KEY_BACKSPACE) == none);
    injector::backspaces_keep_the_layout(1);
    reveal_with_fuel(injector::backspace_taps, 2);
    assert(injector::backspace_taps(1) == tap);
    injector::replay_types_the_same_keys(entries, none);
    injector::replay_keeps_the_layout(entries);
    injector::keys_concat(switch, tap, none);
    injector::keys_concat(switch + tap, pause, none);
    injector::keys_concat(switch + tap + pause, word, none);
    injector::switches_concat(switch, tap);
    injector::switches_concat(switch + tap, pause);
    injector::switches_concat(switch + tap + pause, word);
    assert(empty + back == back);
    assert(back + empty == back);
    assert(seq![target] + Seq::<u32>::empty() == seq![target]);
}

/// Replacing a selection leaves the swapped string on the screen. The selection
/// goes with the one backspace, so that it counts as one character, and in its
/// place stands what the keys of its characters produce in the target layout.
pub proof fn the_selection_becomes_the_swapped_string(
    s: Screen,
    before: Seq<char>,
    selected: char,
    entries: Seq<WordEntry>,
    target: u32,
    keys: spec_fn(u32, u16, bool) -> Seq<char>,
)
    requires
        injector::typeable(entries),
        screen::no_backspace(injector::typed_positions(entries)),
        s.text == before.push(selected),
        !s.shift,
    ensures
        screen::after_steps(s, replacement(entries, target).steps, keys) == (Screen {
            text: before + screen::typed_text(
                target,
                injector::typed_positions(entries),
                keys,
            ),
            layout: target,
            shift: false,
        }),
{
    let none = Set::<u16>::empty();
    let switch = seq![Step::SwitchLayout(target), Step::Pause(SWITCH_SETTLE_US)];
    let tap = injector::tap(injector::KEY_BACKSPACE);
    let pause = seq![Step::Pause(DELETE_SETTLE_US)];
    let word = injector::replay(entries).steps;
    let tail = seq![selected];
    let switched = Screen { layout: target, ..s };
    let cleared = Screen { text: before, layout: target, shift: false };
    reveal_with_fuel(screen::after_steps, 3);
    assert(switch.drop_first()[0] == switch[1]);
    assert(switch.drop_first().drop_first().len() == 0);
    assert(screen::after_steps(s, switch, keys) == switched);
    reveal_with_fuel(injector::backspace_taps, 2);
    assert(injector::backspace_taps(1) == tap);
    injector::backspaces_delete_n(1);
    injector::backspaces_keep_the_layout(1);
    text::scalar_value(selected);
    assert(before.push(selected) == before + tail);
    screen::deleting(switched, before, tail, tap, keys);
    assert(pause.drop_first().len() == 0);
    assert(screen::after_steps(cleared, pause, keys) == cleared);
    injector::replay_types_the_same_keys(entries, none);
    injector::replay_keeps_the_layout(entries);
    screen::retyping(cleared, word, keys);
    screen::after_steps_concat(s, switch, tap, keys);
    screen::after_steps_concat(s, switch + tap, pause, keys);
    screen::after_steps_concat(s, switch + tap + pause, word, keys);
}

/// Every character from U+0400 to U+052F adds one to the Cyrillic count, capitals
/// as well as small letters, and no other does; every letter from A to Z and from
/// a to z adds one to the Latin count, and no other character does.
pub proof fn every_letter_of_a_script_counts(s: Seq<char>)
    ensures
        cyrillic_count(s) == s.filter(|c: char| 0x400 <= c as u32 <= 0x52f).len(),
        latin_count(s) == s.filter(
            |c: char| 65 <= c as u32 <= 90 || 97 <= c as u32 <= 122,
        ).len(),
    decreases s.len(),
{
    reveal(Seq::filter);
    if s.len() > 0 {
        every_letter_of_a_script_counts(s.drop_last());
    }
}

/// The counts of two texts add up.
pub proof fn counts_add_up(a: Seq<char>, b: Seq<char>)
    ensures
        cyrillic_count(a + b) == cyrillic_count(a) + cyrillic_count(b),
        latin_count(a + b) == latin_count(a) + latin_count(b),
    decreases b.len(),
{
    if b.len() == 0 {
        assert(a + b == a);
    } else {
        assert((a + b).drop_last() == a + b.drop_last());
        assert((a + b).last() == b.last());
        counts_add_up(a, b.drop_last());
    }
}

proof fn whole_text_counts(s: Seq<char>)
    ensures
        (forall|i: int| 0 <= i < s.len() ==> 0x400 <= (#[trigger] s[i]) as u32 <= 0x52f)
            ==> cyrillic_count(s) == s.len() && latin_count(s) == 0,
        (forall|i: int|
            0 <= i < s.len() ==> 65 <= (#[trigger] s[i]) as u32 <= 90 || 97 <= s[i] as u32 <= 122)
            ==> latin_count(s) == s.len() && cyrillic_count(s) == 0,
    decreases s.len(),
{
    if s.len() > 0 {
        let t = s.drop_last();
        whole_text_counts(t);
        assert(s[s.len() - 1] == s.last());
        assert forall|i: int| 0 <= i < t.len() implies #[trigger] t[i] == s[i] by {}
    }
}

/// A text of letters of one script only has the layout of that script, wherever
/// it is configured: ru for the letters А to Я and а to я with Ё and ё, us for
/// the letters A to Z and a to z. Capitals make no difference.
pub proof fn a_text_in_one_script_has_its_layout(s: Seq<char>, layouts: Seq<Seq<char>>, at: int)
    requires
        s.len() > 0,
        0 <= at < layouts.len(),
    ensures
        (forall|i: int|
            0 <= i < s.len() ==> 0x410 <= (#[trigger] s[i]) as u32 <= 0x44f || s[i] == 'Ё' || s[i]
                == 'ё') && layouts[at] == "ru"@ && (forall|j: int|
            0 <= j < at ==> #[trigger] layouts[j] != "ru"@) ==> source_layout(s, layouts) == Some(
            at,
        ),
        (forall|i: int|
            0 <= i < s.len() ==> 65 <= (#[trigger] s[i]) as u32 <= 90 || 97 <= s[i] as u32 <= 122)
            && layouts[at] == "us"@ && (forall|j: int|
            0 <= j < at ==> #[trigger] layouts[j] != "us"@) ==> source_layout(s, layouts) == Some(
            at,
        ),
{
    whole_text_counts(s);
    text::first_position_found(layouts, "ru"@);
    text::first_position_found(layouts, "us"@);
    if forall|i: int|
        0 <= i < s.len() ==> 0x410 <= (#[trigger] s[i]) as u32 <= 0x44f || s[i] == 'Ё' || s[i]
            == 'ё' {
        assert forall|i: int| 0 <= i < s.len() implies 0x400 <= (#[trigger] s[i]) as u32
            <= 0x52f by {}
    }
}

/// The script with more characters decides: the source layout is the first one
/// with the code ru or us. With a tie, or where that layout is not configured,
/// there is none.
pub proof fn the_script_with_more_characters_decides(s: Seq<char>, layouts: Seq<Seq<char>>)
    ensures
        ({
            let cy = s.filter(|c: char| 0x400 <= c as u32 <= 0x52f).len();
            let la = s.filter(|c: char| 65 <= c as u32 <= 90 || 97 <= c as u32 <= 122).len();
            let code = if cy > la {
                "ru"@
            } else {
                "us"@
            };
            match source_layout(s, layouts) {
                Some(i) => {
                    &&& cy != la
                    &&& 0 <= i < layouts.len()
                    &&& layouts[i] == code
                    &&& forall|j: int| 0 <= j < i ==> #[trigger] layouts[j] != code
                },
                None => cy == la || forall|j: int|
                    0 <= j < layouts.len() ==> #[trigger] layouts[j] != code,
            }
        }),
{
    every_letter_of_a_script_counts(s);
    text::first_position_found(layouts, "ru"@);
    text::first_position_found(layouts, "us"@);
}

/// A swap is made exactly if something is selected, there are two layouts at
/// least and the script tells the source; it goes to the layout after the source,
/// from the last one to the first.
pub proof fn a_swap_goes_to_the_next_layout(s: Seq<char>, xkb: XkbState)
    requires
        xkb.wf(),
    ensures
        ({
            let n = xkb.names().len();
            match source_layout(s, xkb.names()) {
                Some(i) => if s.len() == 0 || n == 0 || n == 1 {
                    swap_direction(s, xkb) is None
                } else if i + 1 < n {
                    swap_direction(s, xkb) == Some((i, (i + 1) as u32))
                } else {
                    swap_direction(s, xkb) == Some((i, 0u32))
                },
                None => swap_direction(s, xkb) is None,
            }
        }),
{
    if source_layout(s, xkb.names()) is Some {
        let i = source_layout(s, xkb.names())->0;
        text::first_position_found(xkb.names(), "ru"@);
        text::first_position_found(xkb.names(), "us"@);
        xkb::the_next_layout_is_one_further(xkb, i as u32);
    }
}

/// Each character is looked up by itself: the entries of a longer text are those
/// of the shorter one and, if the map has the character, one more.
pub proof fn characters_are_mapped_one_by_one(
    s: Seq<char>,
    ch: char,
    map: spec_fn(char) -> Option<(u32, bool)>,
)
    ensures
        mapped_entries(Seq::empty(), map) == Seq::<WordEntry>::empty(),
        map(ch) is None ==> mapped_entries(s.push(ch), map) == mapped_entries(s, map),
        map(ch) matches Some(p) ==> mapped_entries(s.push(ch), map) == mapped_entries(s, map).push(
            WordEntry { ch, keycode: p.0, shift: p.1 },
        ),
{
    assert(s.push(ch).drop_last() == s);
    assert(s.push(ch).last() == ch);
}

/// Replacing a selection, step by step: the switch and a wait of 40 ms, one
/// backspace and a wait of 20 ms, the keys.
pub proof fn a_replacement_waits_for_the_switch(entries: Seq<WordEntry>, target: u32)
    ensures
        replacement(entries, target).fault == injector::replay(entries).fault,
        replacement(entries, target).steps == seq![
            Step::SwitchLayout(target),
            Step::Pause(40000),
            Step::Emit(injector::KeyChange { code: 14, value: 1 }),
            Step::Pause(800),
            Step::Emit(injector::KeyChange { code: 14, value: 0 }),
            Step::Pause(800),
            Step::Pause(20000),
        ] + injector::replay(entries).steps,
{
}

/// A selection that could not be read is empty; a well-formed one is read as it is,
/// apart from line feeds at its end.
pub proof fn selections_are_read_as_they_are(
    success: bool,
    stdout: &[u8],
    r: String,
    s: &str,
    stripped: String,
)
    requires
        call_ensures(read_primary_selection, (success, stdout), r),
        call_ensures(strip_newlines, (s,), stripped),
    ensures
        !success ==> r@.len() == 0,
        success ==> r@ == text::without_final_newlines(text::lossy_text(stdout@)),
        success && vstd::utf8::valid_utf8(stdout@) ==> ({
            let all = vstd::utf8::decode_utf8(stdout@);
            &&& r@.len() <= all.len()
            &&& r@ == all.take(r@.len() as int)
            &&& r@.len() > 0 ==> r@.last() != '\n'
            &&& forall|i: int| r@.len() <= i < all.len() ==> #[trigger] all[i] == '\n'
        }),
        stripped@ == text::without_final_newlines(s@),
{
    if success && vstd::utf8::valid_utf8(stdout@) {
        text::only_final_newlines_go(vstd::utf8::decode_utf8(stdout@));
    }
}

/// The layout that a text is found to be in: the one of its dominant script, as
/// `the_script_with_more_characters_decides` says, and from there the swap goes to
/// the next one.
pub proof fn texts_are_swapped_by_their_script(
    s: &str,
    layouts: &Vec<String>,
    found: Option<u32>,
    xkb: &XkbState,
    plan: Option<(u32, u32)>,
)
    requires
        call_ensures(detect_source_layout, (s, layouts), found),
        call_ensures(plan_swap, (s, xkb), plan),
    ensures
        found is Some <==> source_layout(s@, text::views(layouts@)) is Some,
        found matches Some(i) ==> source_layout(s@, text::views(layouts@)) == Some(i as int),
        plan is Some <==> swap_direction(s@, *xkb) is Some,
        plan matches Some(d) ==> swap_direction(s@, *xkb) == Some((d.0 as int, d.1)),
{
}

/// Something is typed in place of the selection exactly if it has a character with
/// a key.
pub proof fn a_selection_without_keys_is_left_alone(
    s: &str,
    map: &CharMap,
    entries: Vec<WordEntry>,
    target: u32,
    script: Option<Script>,
)
    requires
        call_ensures(text_to_entries, (s, map), entries),
        call_ensures(swap_selection, (&entries, target), script),
    ensures
        script is None <==> forall|i: int| 0 <= i < s@.len() ==> map@(#[trigger] s@[i]) is None,
        script matches Some(made) ==> made@ == replacement(mapped_entries(s@, map@), target),
{
    no_entries_without_keys(s@, map@);
}

proof fn no_entries_without_keys(s: Seq<char>, map: spec_fn(char) -> Option<(u32, bool)>)
    ensures
        mapped_entries(s, map).len() == 0 <==> forall|i: int|
            0 <= i < s.len() ==> map(#[trigger] s[i]) is None,
    decreases s.len(),
{
    if s.len() > 0 {
        let t = s.drop_last();
        no_entries_without_keys(t, map);
        assert(s[s.len() - 1] == s.last());
        assert forall|i: int| 0 <= i < t.len() implies #[trigger] t[i] == s[i] by {}
        if forall|i: int| 0 <= i < t.len() ==> map(#[trigger] t[i]) is None {
            assert forall|i: int| 0 <= i < s.len() && map(s.last()) is None implies map(
                #[trigger] s[i],
            ) is None by {
                if i < t.len() {
                    assert(t[i] == s[i]);
                }
            }
        }
        if forall|i: int| 0 <= i < s.len() ==> map(#[trigger] s[i]) is None {
            assert forall|i: int| 0 <= i < t.len() implies map(#[trigger] t[i]) is None by {
                assert(s[i] == t[i]);
            }
        }
    }
}

} // verus!
