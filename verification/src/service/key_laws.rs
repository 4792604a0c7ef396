//! What each key does to the word in progress.

use vstd::prelude::*;

use crate::engine::dict::Dict;
use crate::engine::state;
use crate::engine::state::{ModState, StateView, WordEntry};
use crate::input::KeyKind;
use crate::service;
use crate::service::{Action, Outcome, Service};
use crate::text;
use crate::xkb;

verus! {

/// The word in progress when an event comes in: what was typed before, unless
/// more than the idle limit has gone by since the event before.
pub open spec fn word_before(s: Service, now: u64) -> Seq<WordEntry> {
    match s.state@.last_event_at {
        Some(prev) => if now > prev && now - prev > s.cfg.general.idle_reset_ms * 1_000_000 {
            Seq::empty()
        } else {
            s.state@.buffer
        },
        None => s.state@.buffer,
    }
}

/// Neither Ctrl nor Alt nor Super is held.
pub open spec fn no_command(m: ModState) -> bool {
    !m.ctrl_l && !m.ctrl_r && !m.alt_l && !m.alt_r && !m.super_l && !m.super_r
}

/// None of the eight modifier keys.
pub open spec fn no_modifier_key(kc: u32) -> bool {
    kc != 42 && kc != 54 && kc != 29 && kc != 97 && kc != 56 && kc != 100 && kc != 125 && kc != 126
}

/// Neither space nor Tab nor Enter, of either kind, nor backspace.
pub open spec fn no_special_key(kc: u32) -> bool {
    kc != 57 && kc != 15 && kc != 28 && kc != 96 && kc != 14
}

/// One of the eight punctuation characters.
pub open spec fn punctuation_mark(c: char) -> bool {
    c == '.' || c == ',' || c == ';' || c == ':' || c == '!' || c == '?' || c == '\'' || c == '"'
}

/// The key types: it is pressed without Ctrl, Alt or Super, and its keysym is
/// neither that of a modifier nor one that moves the cursor.
pub open spec fn types(s: Service, kc: u32, keysym: u32) -> bool {
    &&& no_command(s.state.mods)
    &&& no_modifier_key(kc)
    &&& !xkb::modifier_keysym(keysym)
    &&& !xkb::navigation_keysym(keysym)
}

/// The entry that a typed key makes.
pub open spec fn typed_entry(s: Service, ch: char, kc: u32) -> WordEntry {
    WordEntry { ch, keycode: kc, shift: s.state.mods.shift_l || s.state.mods.shift_r }
}

/// The outcome is that the word in progress is evaluated, with the key `kc` as its
/// boundary, if there is one and a layout to go to; else no word is left.
pub open spec fn ends_the_word(s: Service, o: Outcome, kc: u32, word: Seq<WordEntry>) -> bool {
    if word.len() > 0 && s.xkb.names().len() >= 2 {
        &&& o.action == Action::Evaluate {
            boundary_kc: kc,
            layout: s.other_layout(),
            positions: state::word_positions(word),
        }
        &&& o.state.buffer == word
    } else {
        o.action is Done && o.state.buffer.len() == 0
    }
}

/// What every event does, whatever it means: its time is noted, a press is counted,
/// a press or a release moves the modifiers of its key, and the active layout and
/// the replay mark stay.
pub proof fn every_event_is_noted(
    s: Service,
    kind: KeyKind,
    kc: u32,
    now: u64,
    text: Seq<char>,
    keysym: u32,
)
    ensures
        ({
            let o = s.event_outcome(kind, kc, now, text, keysym).state;
            &&& o.last_event_at == Some(now)
            &&& o.layout_idx == s.state.layout_idx
            &&& o.replaying == s.state.replaying
            &&& kind == KeyKind::Press ==> o.mods == s.state.mods.after(kc, true)
            &&& kind == KeyKind::Release ==> o.mods == s.state.mods.after(kc, false)
            &&& kind == KeyKind::Repeat ==> o.mods == s.state.mods
            &&& kind != KeyKind::Press ==> o.seq == s.state.seq
            &&& kind == KeyKind::Press && s.state.seq < u64::MAX ==> o.seq == s.state.seq + 1
            &&& kind == KeyKind::Press && s.state.seq == u64::MAX ==> o.seq == 0
        }),
{
}

/// Only presses do anything to the word: a release or a repeat leaves it as the
/// pause has, and the waiting tokens too.
pub proof fn only_presses_touch_the_word(
    s: Service,
    kind: KeyKind,
    kc: u32,
    now: u64,
    text: Seq<char>,
    keysym: u32,
)
    requires
        kind == KeyKind::Release || kind == KeyKind::Repeat,
    ensures
        ({
            let o = s.event_outcome(kind, kc, now, text, keysym);
            &&& o.action is Done
            &&& o.state.buffer == word_before(s, now)
            &&& o.state.prev_tokens == s.state@.prev_tokens
        }),
{
}

/// Space, Tab and both Enter keys end the word, whatever text the keymap has for
/// them: a word in progress is evaluated, with that key as its boundary and with
/// its own positions. The waiting tokens stay.
pub proof fn space_tab_and_enter_end_the_word(
    s: Service,
    kc: u32,
    now: u64,
    text: Seq<char>,
    keysym: u32,
)
    requires
        kc == 57 || kc == 15 || kc == 28 || kc == 96,
        no_command(s.state.mods),
        !xkb::modifier_keysym(keysym),
        !xkb::navigation_keysym(keysym),
    ensures
        ({
            let o = s.event_outcome(KeyKind::Press, kc, now, text, keysym);
            let word = word_before(s, now);
            &&& word.len() > 0 && s.xkb.names().len() >= 2 ==> o.action == Action::Evaluate {
                boundary_kc: kc,
                layout: s.other_layout(),
                positions: state::word_positions(word),
            } && o.state.buffer == word
            &&& word.len() == 0 || s.xkb.names().len() < 2 ==> o.action is Done
                && o.state.buffer.len() == 0
            &&& o.state.prev_tokens == s.state@.prev_tokens
        }),
{
}

/// A letter joins the word: any text that begins with neither a control character
/// nor is a single punctuation mark, from any key but the four that hold
/// punctuation in the other layout.
pub proof fn letters_join_the_word(s: Service, kc: u32, now: u64, text: Seq<char>, keysym: u32)
    requires
        types(s, kc, keysym),
        no_special_key(kc),
        kc != 39 && kc != 40 && kc != 51 && kc != 52,
        text.len() > 0,
        !text::control(text[0]),
        text.len() > 1 || !punctuation_mark(text[0]),
    ensures
        ({
            let o = s.event_outcome(KeyKind::Press, kc, now, text, keysym);
            &&& o.action is Done
            &&& o.state.buffer == word_before(s, now).push(typed_entry(s, text[0], kc))
            &&& o.state.prev_tokens == s.state@.prev_tokens
        }),
{
}

/// Backspace takes the last character of the word back, and nothing of a word that
/// is empty.
pub proof fn backspace_shortens_the_word(
    s: Service,
    now: u64,
    text: Seq<char>,
    keysym: u32,
)
    requires
        types(s, 14, keysym),
    ensures
        ({
            let o = s.event_outcome(KeyKind::Press, 14, now, text, keysym);
            let word = word_before(s, now);
            &&& o.action is Done
            &&& word.len() == 0 ==> o.state.buffer.len() == 0
            &&& word.len() > 0 ==> o.state.buffer == word.take(word.len() - 1)
            &&& o.state.prev_tokens == s.state@.prev_tokens
        }),
{
    let word = word_before(s, now);
    if word.len() > 0 {
        assert(word.drop_last() == word.take(word.len() - 1));
    }
}

/// Cursor motion forgets the word and everything that waits, whatever the key.
pub proof fn cursor_motion_forgets_everything(
    s: Service,
    kc: u32,
    now: u64,
    text: Seq<char>,
    keysym: u32,
)
    requires
        no_modifier_key(kc),
        xkb::navigation_keysym(keysym),
    ensures
        ({
            let o = s.event_outcome(KeyKind::Press, kc, now, text, keysym);
            &&& o.action is Done
            &&& o.state.buffer.len() == 0
            &&& o.state.prev_tokens.len() == 0
        }),
{
    xkb::modifiers_do_not_navigate(keysym);
}

/// Any key with Ctrl, Alt or Super, other than a modifier key, forgets the word and
/// everything that waits.
pub proof fn hotkeys_forget_everything(
    s: Service,
    kc: u32,
    now: u64,
    text: Seq<char>,
    keysym: u32,
)
    requires
        !no_command(s.state.mods),
        no_modifier_key(kc),
    ensures
        ({
            let o = s.event_outcome(KeyKind::Press, kc, now, text, keysym);
            &&& o.action is Done
            &&& o.state.buffer.len() == 0
            &&& o.state.prev_tokens.len() == 0
        }),
{
}

/// A modifier leaves the word alone: each of the eight modifier keys, whatever is
/// held, and without Ctrl, Alt and Super any key with the keysym of a modifier.
pub proof fn modifiers_leave_the_word_alone(
    s: Service,
    kc: u32,
    now: u64,
    text: Seq<char>,
    keysym: u32,
)
    requires
        !no_modifier_key(kc) || no_command(s.state.mods) && xkb::modifier_keysym(keysym),
    ensures
        ({
            let o = s.event_outcome(KeyKind::Press, kc, now, text, keysym);
            &&& o.action is Done
            &&& o.state.buffer == word_before(s, now)
            &&& o.state.prev_tokens == s.state@.prev_tokens
        }),
{
}

/// Keys without text, and keys whose text begins with a control character, leave
/// the word alone.
pub proof fn keys_without_text_leave_the_word_alone(
    s: Service,
    kc: u32,
    now: u64,
    text: Seq<char>,
    keysym: u32,
)
    requires
        types(s, kc, keysym),
        no_special_key(kc),
        text.len() == 0 || text::control(text[0]),
    ensures
        ({
            let o = s.event_outcome(KeyKind::Press, kc, now, text, keysym);
            &&& o.action is Done
            &&& o.state.buffer == word_before(s, now)
            &&& o.state.prev_tokens == s.state@.prev_tokens
        }),
{
}

/// A punctuation mark may be a letter of the other layout: with a word in progress
/// and a layout to go to, the word and the key are to be tried there. Else it ends
/// the word.
pub proof fn punctuation_is_tried_in_the_other_layout(
    s: Service,
    kc: u32,
    now: u64,
    mark: char,
    keysym: u32,
)
    requires
        types(s, kc, keysym),
        no_special_key(kc),
        punctuation_mark(mark),
    ensures
        ({
            let o = s.event_outcome(KeyKind::Press, kc, now, seq![mark], keysym);
            let word = word_before(s, now);
            let e = typed_entry(s, mark, kc);
            &&& word.len() > 0 && s.xkb.names().len() >= 2 ==> o.action == Action::TryPunct {
                entry: e,
                layout: s.other_layout(),
                positions: state::word_positions(word).push((kc, e.shift)),
            } && o.state.buffer == word
            &&& word.len() == 0 || s.xkb.names().len() < 2 ==> o.action is Done
                && o.state.buffer.len() == 0
            &&& o.state.prev_tokens == s.state@.prev_tokens
        }),
{
    text::scalar_value(mark);
    assert(seq![mark][0] == mark);
}

/// On the keys of semicolon, apostrophe, comma and dot a letter joins the word if
/// that makes it a word of the current language; else the key ends the word.
pub proof fn letters_on_punctuation_keys_need_a_word(
    s: Service,
    kc: u32,
    now: u64,
    text: Seq<char>,
    keysym: u32,
)
    requires
        types(s, kc, keysym),
        kc == 39 || kc == 40 || kc == 51 || kc == 52,
        text.len() > 0,
        !text::control(text[0]),
        text.len() > 1 || !punctuation_mark(text[0]),
    ensures
        ({
            let o = s.event_outcome(KeyKind::Press, kc, now, text, keysym);
            let word = word_before(s, now);
            let longer = state::word_text(word).push(text[0]);
            &&& word.len() > 0 && s.dictionary(s.xkb.active()).knows(longer) ==> o.action is Done
                && o.state.buffer == word.push(typed_entry(s, text[0], kc))
            &&& word.len() == 0 || !s.dictionary(s.xkb.active()).knows(longer) ==> ends_the_word(
                s,
                o,
                kc,
                word,
            )
            &&& o.state.prev_tokens == s.state@.prev_tokens
        }),
{
}

/// A punctuation key that was tried is a letter exactly if there is a word in
/// progress and a layout to go to, and the dictionary of that layout has what the
/// keys come to there.
pub proof fn a_tried_key_needs_a_word_of_the_other_language(
    s: Service,
    st: StateView,
    swapped: &str,
)
    ensures
        s.completes_other(st, Some(swapped)) <==> st.buffer.len() > 0 && s.xkb.names().len() >= 2
            && s.dictionary(s.other_layout()).knows(swapped@),
        !s.completes_other(st, None),
{
}

/// The end of a word: it is to be evaluated in the other layout with all its keys;
/// without another layout it is forgotten; and without a word nothing happens.
/// Nothing else changes.
pub proof fn the_end_of_a_word(s: Service, st: StateView, kc: u32)
    ensures
        ends_the_word(s, s.at_boundary(st, kc), kc, st.buffer),
        s.at_boundary(st, kc).state == (StateView {
            buffer: s.at_boundary(st, kc).state.buffer,
            ..st
        }),
{
}

/// A typed character stands at the end of the word; nothing else changes.
pub proof fn a_typed_character_stands_at_the_end(st: StateView, e: WordEntry, ch: char, kc: u32)
    ensures
        service::typed(st, e).action is Done,
        service::typed(st, e).state == (StateView { buffer: st.buffer.push(e), ..st }),
        service::entry_now(st, ch, kc) == (WordEntry {
            ch,
            keycode: kc,
            shift: st.mods.shift_l || st.mods.shift_r,
        }),
{
}

/// A letter on a punctuation key is taken for typing exactly if there is a word in
/// progress and it becomes a word of the current language.
pub proof fn typing_goes_on_for_words_of_the_current_language(s: Service, st: StateView, ch: char)
    ensures
        s.completes_current(st, ch) <==> st.buffer.len() > 0 && s.dictionary(s.xkb.active()).knows(
            state::word_text(st.buffer).push(ch),
        ),
{
}

/// The kinds of keys and marks, by number and by character: what counts as the end
/// of a word, as a key with punctuation and as a mark does so in every state.
pub proof fn keys_and_marks_by_number(kc: u32, s: Seq<char>)
    ensures
        service::boundary_keycode(kc) <==> kc == 15 || kc == 28 || kc == 57 || kc == 96,
        service::punctuation_keycode(kc) <==> kc == 39 || kc == 40 || kc == 51 || kc == 52,
        service::punctuation(s) <==> s.len() == 1 && punctuation_mark(s[0]),
        service::typing_key(kc) <==> no_modifier_key(kc) && kc != 14,
{
}

} // verus!
