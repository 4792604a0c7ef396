//! The decisions of the service loop. A `Service` owns the word state, the
//! layouts and the dictionaries; producers (keyboard readers, compositor
//! listener, control socket) feed it one message at a time, so no locking is
//! needed. What has to be done outside (decode keys through a keymap, run a
//! script on the injector, wait) is returned to the caller, who hands back the
//! outcome.

use vstd::prelude::*;

pub mod key_laws;
pub mod laws;
pub mod operation_laws;
pub mod word_laws;

use crate::config::Config;
use crate::engine::detector;
use crate::engine::detector::{classify, fallback_scores, Verdict};
use crate::engine::dict;
use crate::engine::dict::{Dict, HunspellDict};
use crate::engine::lang_score;
use crate::engine::state;
use crate::engine::state::{
    copy_entries, positions_of, CoreState, ModState, PrevToken, StateView, TokenView,
    WordEntry,
};
use crate::error::Error;
use crate::hyprland::HyprEvent;
use crate::input::injector;
use crate::input::injector::{Fault, Script, ScriptView, Step};
use crate::input::{KeyEvent, KeyKind};
use crate::selection::SWITCH_SETTLE_US;
use crate::text;
use crate::text::{chars_of, eq_ignore_ascii_case, is_control, position, same_text, trim};
use crate::xkb;
use crate::xkb::{Decoded, LayoutMask, XkbState};

verus! {

#[derive(Debug)]
pub enum CoreMsg {
    Key(KeyEvent),
    Hypr(HyprEvent),
    /// Triggered by the control socket. Swap layout on whatever is selected.
    SwapSelection,
}

// ---------------------------------------------------------------------------
// Kinds of keys
// ---------------------------------------------------------------------------

/// KEY_SPACE, KEY_TAB, KEY_ENTER and KEY_KPENTER.
pub open spec fn boundary_keycode(kc: u32) -> bool {
    kc == 57 || kc == 15 || kc == 28 || kc == 96
}

/// evdev keycodes that hard-terminate a word regardless of layout.
pub fn is_boundary_keycode(kc: u32) -> (r: bool)
    ensures
        r == boundary_keycode(kc),
{
    kc == 57 || kc == 15 || kc == 28 || kc == 96
}

/// A single punctuation character.
pub open spec fn punctuation(s: Seq<char>) -> bool {
    s.len() == 1 && (s[0] == '.' || s[0] == ',' || s[0] == ';' || s[0] == ':' || s[0] == '!' || s[0]
        == '?' || s[0] == '\'' || s[0] == '"')
}

pub fn is_punct_char(s: &str) -> (r: bool)
    ensures
        r == punctuation(s@),
{
    let chars = chars_of(s);
    chars.len() == 1 && (chars[0] == '.' || chars[0] == ',' || chars[0] == ';' || chars[0] == ':'
        || chars[0] == '!' || chars[0] == '?' || chars[0] == '\'' || chars[0] == '"')
}

/// KEY_SEMICOLON, KEY_APOSTROPHE, KEY_COMMA and KEY_DOT.
pub open spec fn punctuation_keycode(kc: u32) -> bool {
    kc == 39 || kc == 40 || kc == 51 || kc == 52
}

/// Punct-position keycodes that produce a *letter* in RU JCUKEN (and so
/// `is_punct_char` on the decoded text misses them). Without this, typing a URL
/// like `github.com` while RU is active stays as one buffered token: `KEY_DOT`
/// outputs «ю», never triggers a boundary, never reaches the detector. KEY_SLASH
/// is excluded: it produces "/" in EN and "." in RU, both already handled by
/// `is_punct_char`.
pub fn is_punct_keycode(kc: u32) -> (r: bool)
    ensures
        r == punctuation_keycode(kc),
{
    kc == 39 || kc == 40 || kc == 51 || kc == 52
}

/// KEY_BACKSPACE
pub const BACKSPACE_KC: u32 = 14;

/// What a key event means for the word in progress.
#[derive(Debug, Clone, Copy, PartialEq, Eq, Structural)]
pub enum KeyClass {
    /// Nothing: a release or a repeat, a modifier, a key without text.
    Quiet,
    /// A hotkey or cursor motion: what was typed before does not belong with
    /// what comes.
    Flush,
    /// The end of a word.
    Boundary,
    /// One character is taken back.
    Erase,
    /// Punctuation in the current layout.
    Punct(char),
    /// A letter, at a position that holds punctuation in the other layout.
    PunctPosition(char),
    /// Any other character.
    Letter(char),
}

/// What an event means, given the modifiers that are held and what the keymap
/// says of the key.
pub open spec fn class_of(
    kind: KeyKind,
    kc: u32,
    mods: ModState,
    text: Option<Seq<char>>,
    is_modifier: bool,
    is_navigation: bool,
) -> KeyClass {
    if kind != KeyKind::Press {
        KeyClass::Quiet
    } else if mods.command_held() {
        if ModState::tracks(kc) {
            KeyClass::Quiet
        } else {
            KeyClass::Flush
        }
    } else if ModState::tracks(kc) || is_modifier {
        KeyClass::Quiet
    } else if is_navigation {
        KeyClass::Flush
    } else if boundary_keycode(kc) {
        KeyClass::Boundary
    } else if kc == BACKSPACE_KC {
        KeyClass::Erase
    } else {
        match text {
            Some(s) => if s.len() == 0 || text::control(s[0]) {
                KeyClass::Quiet
            } else if punctuation(s) {
                KeyClass::Punct(s[0])
            } else if punctuation_keycode(kc) {
                KeyClass::PunctPosition(s[0])
            } else {
                KeyClass::Letter(s[0])
            },
            None => KeyClass::Quiet,
        }
    }
}

/// What an event means for the word in progress. `is_mod` tells whether the
/// key is one of the watched modifiers.
pub fn key_class(
    kind: KeyKind,
    kc: u32,
    mods: &ModState,
    is_mod: bool,
    decoded: &Decoded,
) -> (r: KeyClass)
    requires
        is_mod == ModState::tracks(kc),
    ensures
        r == class_of(
            kind,
            kc,
            *mods,
            decoded.text(),
            decoded.is_modifier,
            decoded.is_navigation,
        ),
{
    match kind {
        KeyKind::Press => {},
        _ => {
            return KeyClass::Quiet;
        },
    }
    if mods.any_command_modifier() {
        // Hotkeys (Ctrl/Alt/Super + X) reset the buffer; nothing is done
        // mid-hotkey.
        return if is_mod {
            KeyClass::Quiet
        } else {
            KeyClass::Flush
        };
    }
    if is_mod || decoded.is_modifier {
        return KeyClass::Quiet;
    }
    if decoded.is_navigation {
        return KeyClass::Flush;
    }
    if is_boundary_keycode(kc) {
        return KeyClass::Boundary;
    }
    if kc == BACKSPACE_KC {
        return KeyClass::Erase;
    }
    match &decoded.utf8 {
        Some(s) => {
            let chars = chars_of(s.as_str());
            if chars.len() == 0 || is_control(chars[0]) {
                KeyClass::Quiet
            } else if is_punct_char(s.as_str()) {
                KeyClass::Punct(chars[0])
            } else if is_punct_keycode(kc) {
                KeyClass::PunctPosition(chars[0])
            } else {
                KeyClass::Letter(chars[0])
            }
        },
        None => KeyClass::Quiet,
    }
}

// ---------------------------------------------------------------------------
// Layout names
// ---------------------------------------------------------------------------

/// The xkb layout code behind a layout name of the compositor. The names are
/// the canonical xkb names from `evdev.lst`.
pub open spec fn layout_code(name: Seq<char>) -> Option<Seq<char>> {
    let t = text::trimmed(name);
    if text::same_ignoring_ascii_case(t, "English (US)"@) || text::same_ignoring_ascii_case(
        t,
        "English"@,
    ) {
        Some("us"@)
    } else if text::same_ignoring_ascii_case(t, "Russian"@) || text::same_ignoring_ascii_case(
        t,
        "Russian (RU)"@,
    ) {
        Some("ru"@)
    } else {
        None
    }
}

/// The index of the layout that the compositor calls by the given name.
pub open spec fn named_layout(names: Seq<Seq<char>>, name: Seq<char>) -> Option<int> {
    match layout_code(name) {
        Some(code) => text::first_position(names, code),
        None => None,
    }
}

/// Map the compositor's layout name (e.g. "English (US)" or "Russian") back to
/// a layout *index* in the keymap.
pub fn layout_index(xkb: &XkbState, hyprland_name: &str) -> (r: Option<u32>)
    requires
        xkb.wf(),
    ensures
        match r {
            Some(i) => named_layout(xkb.names(), hyprland_name@) == Some(i as int) && i
                < xkb.names().len(),
            None => named_layout(xkb.names(), hyprland_name@) is None,
        },
{
    let trimmed = trim(hyprland_name);
    let code = if eq_ignore_ascii_case(trimmed, "English (US)") || eq_ignore_ascii_case(
        trimmed,
        "English",
    ) {
        "us"
    } else if eq_ignore_ascii_case(trimmed, "Russian") || eq_ignore_ascii_case(
        trimmed,
        "Russian (RU)",
    ) {
        "ru"
    } else {
        return None;
    };
    let layouts = xkb.layouts();
    assert(text::views(layouts@).len() == layouts@.len());
    match position(layouts, code) {
        Some(i) => Some(i as u32),
        None => None,
    }
}

/// The layout list to work with: what the compositor reports, or the configured
/// one if it reports nothing.
pub fn choose_layouts(reported: Option<&str>, default_layout: &str) -> (r: String)
    ensures
        r@ == match reported {
            Some(s) => if s@.len() > 0 {
                s@
            } else {
                default_layout@
            },
            None => default_layout@,
        },
{
    match reported {
        Some(s) => if !s.is_empty() {
            s.to_owned()
        } else {
            default_layout.to_owned()
        },
        None => default_layout.to_owned(),
    }
}

// ---------------------------------------------------------------------------
// The service
// ---------------------------------------------------------------------------

pub struct Service {
    pub cfg: Config,
    pub state: CoreState,
    pub xkb: XkbState,
    /// Words for the layout "us".
    pub en: HunspellDict,
    /// Words for the layout "ru".
    pub ru: HunspellDict,
    /// Stands in for any other layout.
    pub empty_dict: HunspellDict,
    pub layouts_csv: String,
    pub variants_csv: String,
}

/// A key that can put a character on the screen: neither a watched modifier nor
/// backspace.
pub open spec fn typing_key(kc: u32) -> bool {
    !ModState::tracks(kc) && kc != BACKSPACE_KC
}

/// Entries that hold typed characters.
pub open spec fn typed_entries(entries: Seq<WordEntry>) -> bool {
    forall|i: int| 0 <= i < entries.len() ==> typing_key((#[trigger] entries[i]).keycode)
}

impl Service {
    /// What holds between any two messages: the active layout is a configured
    /// one and the state agrees with the keymap about it, the queue of waiting
    /// tokens is bounded, and only typed characters are remembered.
    pub open spec fn wf(&self) -> bool {
        &&& self.xkb.wf()
        &&& self.xkb.names() == text::list_items(self.layouts_csv@)
        &&& self.xkb.active() < self.xkb.names().len()
        &&& self.state.layout_idx == self.xkb.active()
        &&& self.state@.prev_tokens.len() <= state::MAX_PREV_TOKENS
        &&& typed_entries(self.state@.buffer)
        &&& forall|i: int|
            0 <= i < self.state@.prev_tokens.len() ==> typed_entries(
                (#[trigger] self.state@.prev_tokens[i]).entries,
            )
        &&& self.en.wf()
        &&& self.ru.wf()
        &&& self.empty_dict.words() == Set::<Seq<char>>::empty()
        &&& self.empty_dict.natural_words() == Set::<Seq<char>>::empty()
    }

    /// There is a layout to switch to.
    pub open spec fn several_layouts(&self) -> bool {
        self.xkb.names().len() >= 2
    }

    /// The layout to switch to.
    pub open spec fn other_layout(&self) -> u32 {
        self.xkb.next_index(self.xkb.active())
    }

    /// The dictionary of a layout.
    pub open spec fn dictionary(&self, idx: u32) -> HunspellDict {
        if self.xkb.name_at(idx) == "us"@ {
            self.en
        } else if self.xkb.name_at(idx) == "ru"@ {
            self.ru
        } else {
            self.empty_dict
        }
    }

    /// Everything but the word state is as in `other`.
    pub open spec fn same_setting(&self, other: &Service) -> bool {
        &&& self.cfg == other.cfg
        &&& self.xkb == other.xkb
        &&& self.en == other.en
        &&& self.ru == other.ru
        &&& self.empty_dict == other.empty_dict
        &&& self.layouts_csv == other.layouts_csv
        &&& self.variants_csv == other.variants_csv
    }

    /// Everything but the word state and the active layout is as in `other`.
    pub open spec fn same_apart_from_layout(&self, other: &Service) -> bool {
        &&& self.cfg == other.cfg
        &&& self.xkb.names() == other.xkb.names()
        &&& self.xkb.variant_names() == other.xkb.variant_names()
        &&& self.en == other.en
        &&& self.ru == other.ru
        &&& self.empty_dict == other.empty_dict
        &&& self.layouts_csv == other.layouts_csv
        &&& self.variants_csv == other.variants_csv
    }

    /// Puts the service together: the layout list and the variants as chosen,
    /// whether their keymap compiles, and the lines of the two word lists, where
    /// they could be read.
    pub fn build(
        cfg: Config,
        layouts_csv: String,
        variants_csv: String,
        compiled: bool,
        en_lines: Option<&Vec<String>>,
        ru_lines: Option<&Vec<String>>,
    ) -> (r: Result<Service, Error>)
        requires
            layouts_csv@.len() < u32::MAX - 1,
        ensures
            match r {
                Ok(s) => {
                    &&& compiled
                    &&& s.wf()
                    &&& s.cfg == cfg
                    &&& s.layouts_csv == layouts_csv
                    &&& s.variants_csv == variants_csv
                    &&& s.xkb.variant_names() == text::list_items(variants_csv@)
                    &&& s.xkb.active() == 0
                    &&& s.state@ == state::fresh_state()
                    &&& s.en.words() == dict::with_words(
                        list_words(en_lines),
                        text::views(cfg.dictionaries.extra_words@),
                    )
                    &&& s.en.natural_words() == dict::with_words(
                        list_natural_words(en_lines),
                        text::views(cfg.dictionaries.extra_words@),
                    )
                    &&& s.ru.words() == dict::with_words(
                        list_words(ru_lines),
                        text::views(cfg.dictionaries.extra_words@),
                    )
                    &&& s.ru.natural_words() == dict::with_words(
                        list_natural_words(ru_lines),
                        text::views(cfg.dictionaries.extra_words@),
                    )
                },
                Err(e) => {
                    &&& !compiled
                    &&& e matches Error::XkbCompile { layout, variant }
                    &&& layout@ == layouts_csv@
                    &&& variant@ == variants_csv@
                },
            },
    {
        let xkb = match XkbState::new(layouts_csv.as_str(), variants_csv.as_str(), compiled) {
            Ok(x) => x,
            Err(e) => {
                return Err(e);
            },
        };
        let mut en = HunspellDict::load_or_warn(en_lines);
        let mut ru = HunspellDict::load_or_warn(ru_lines);
        add_extra_words(&mut en, &cfg.dictionaries.extra_words);
        add_extra_words(&mut ru, &cfg.dictionaries.extra_words);
        Ok(
            Service {
                cfg,
                state: CoreState::new(),
                xkb,
                en,
                ru,
                empty_dict: HunspellDict::empty(),
                layouts_csv,
                variants_csv,
            },
        )
    }

    pub fn dict_for_layout(&self, idx: u32) -> (r: &HunspellDict)
        ensures
            *r == self.dictionary(idx),
    {
        let name = self.xkb.layout_name(idx);
        if same_text(name, "us") {
            &self.en
        } else if same_text(name, "ru") {
            &self.ru
        } else {
            &self.empty_dict
        }
    }
}

/// The words of a list, if it could be read.
pub open spec fn list_words(lines: Option<&Vec<String>>) -> Set<Seq<char>> {
    match lines {
        Some(ls) => dict::file_words(text::views(ls@)),
        None => Set::empty(),
    }
}

/// The natural words of a list, if it could be read.
pub open spec fn list_natural_words(lines: Option<&Vec<String>>) -> Set<Seq<char>> {
    match lines {
        Some(ls) => dict::file_natural_words(text::views(ls@)),
        None => Set::empty(),
    }
}

fn add_extra_words(d: &mut HunspellDict, extra: &Vec<String>)
    ensures
        final(d).words() == dict::with_words(old(d).words(), text::views(extra@)),
        final(d).natural_words() == dict::with_words(old(d).natural_words(), text::views(extra@)),
        old(d).wf() ==> final(d).wf(),
{
    let mut slices: Vec<&str> = Vec::new();
    let mut i: usize = 0;
    while i < extra.len()
        invariant
            i <= extra.len(),
            dict::str_views(slices@) == text::views(extra@).take(i as int),
        decreases extra.len() - i,
    {
        let ghost before = slices@;
        slices.push(extra[i].as_str());
        assert(dict::str_views(slices@) == dict::str_views(before).push(extra@[i as int]@));
        assert(text::views(extra@).take(i + 1) == text::views(extra@).take(i as int).push(
            extra@[i as int]@,
        ));
        i = i + 1;
    }
    assert(text::views(extra@).take(i as int) == text::views(extra@));
    d.add_words(slices.as_slice());
}

// ---------------------------------------------------------------------------
// Keys
// ---------------------------------------------------------------------------

/// What the caller has to do after a key.
#[derive(Debug)]
pub enum KeyAction {
    Done,
    /// Decode the positions through the layout and call `finish_punct` with the
    /// entry and the outcome.
    TryPunct { entry: WordEntry, layout: u32, positions: Vec<(u32, bool)> },
    /// Decode the positions through the layout and call `auto_evaluate` with
    /// the boundary and the outcome.
    Evaluate { boundary_kc: u32, layout: u32, positions: Vec<(u32, bool)> },
}

/// The model of what the caller has to do.
pub enum Action {
    Done,
    TryPunct { entry: WordEntry, layout: u32, positions: Seq<(u32, bool)> },
    Evaluate { boundary_kc: u32, layout: u32, positions: Seq<(u32, bool)> },
}

impl View for KeyAction {
    type V = Action;

    open spec fn view(&self) -> Action {
        match self {
            KeyAction::Done => Action::Done,
            KeyAction::TryPunct { entry, layout, positions } => Action::TryPunct {
                entry: *entry,
                layout: *layout,
                positions: positions@,
            },
            KeyAction::Evaluate { boundary_kc, layout, positions } => Action::Evaluate {
                boundary_kc: *boundary_kc,
                layout: *layout,
                positions: positions@,
            },
        }
    }
}

/// The state after an event and what is to be done next.
pub struct Outcome {
    pub state: StateView,
    pub action: Action,
}

/// The time from one instant to another, zero if they are the other way round.
pub open spec fn elapsed(now: u64, then: u64) -> int {
    if now >= then {
        now - then
    } else {
        0
    }
}

pub const NS_PER_MS: u128 = 1_000_000;

/// More than `ms` milliseconds have gone by.
fn longer_than(now: u64, then: u64, ms: u64) -> (r: bool)
    ensures
        r == (elapsed(now, then) > ms * NS_PER_MS),
{
    let gone: u64 = if now >= then {
        now - then
    } else {
        0
    };
    (gone as u128) > (ms as u128) * NS_PER_MS
}

/// Fewer than `ms` milliseconds have gone by.
fn shorter_than(now: u64, then: u64, ms: u64) -> (r: bool)
    ensures
        r == (elapsed(now, then) < ms * NS_PER_MS),
{
    let gone: u64 = if now >= then {
        now - then
    } else {
        0
    };
    (gone as u128) < (ms as u128) * NS_PER_MS
}

/// The user has paused for longer than the idle limit.
pub open spec fn paused(s: StateView, now: u64, idle_reset_ms: u64) -> bool {
    s.last_event_at matches Some(prev) && elapsed(now, prev) > idle_reset_ms * NS_PER_MS
}

/// The state after any key event, before its meaning is looked at: a pause has
/// dropped the word in progress, a press or a release has moved the modifiers,
/// and a press has been counted. A repeat moves no modifier: the key is still
/// held. Waiting tokens outlive a pause: they have a window of their own.
pub open spec fn event_seen(
    s: StateView,
    kind: KeyKind,
    kc: u32,
    now: u64,
    idle_reset_ms: u64,
) -> StateView {
    StateView {
        buffer: if paused(s, now, idle_reset_ms) {
            Seq::empty()
        } else {
            s.buffer
        },
        last_event_at: Some(now),
        mods: if kind == KeyKind::Repeat {
            s.mods
        } else {
            s.mods.after(kc, kind == KeyKind::Press)
        },
        seq: if kind != KeyKind::Press {
            s.seq
        } else if s.seq == u64::MAX {
            0
        } else {
            (s.seq + 1) as u64
        },
        ..s
    }
}

/// The entry for a character that the key `kc` has produced.
pub open spec fn entry_now(s: StateView, ch: char, kc: u32) -> WordEntry {
    WordEntry { ch, keycode: kc, shift: s.mods.shift_held() }
}

/// The word in progress with one more character.
pub open spec fn typed(s: StateView, e: WordEntry) -> Outcome {
    Outcome { state: StateView { buffer: s.buffer.push(e), ..s }, action: Action::Done }
}

impl Service {
    /// What the end of a word leads to: a word in progress is to be evaluated,
    /// unless there is no other layout.
    pub open spec fn at_boundary(&self, s: StateView, kc: u32) -> Outcome {
        if s.buffer.len() == 0 {
            Outcome { state: s, action: Action::Done }
        } else if !self.several_layouts() {
            Outcome {
                state: StateView { buffer: Seq::empty(), ..s },
                action: Action::Done,
            }
        } else {
            Outcome {
                state: s,
                action: Action::Evaluate {
                    boundary_kc: kc,
                    layout: self.other_layout(),
                    positions: state::word_positions(s.buffer),
                },
            }
        }
    }

    /// The word in progress with one more letter is a word of the current
    /// language.
    pub open spec fn completes_current(&self, s: StateView, ch: char) -> bool {
        s.buffer.len() > 0 && self.dictionary(self.xkb.active()).knows(
            state::word_text(s.buffer).push(ch),
        )
    }

    /// What a key of a certain class leads to.
    pub open spec fn key_outcome(&self, s: StateView, kc: u32, class: KeyClass) -> Outcome {
        match class {
            KeyClass::Quiet => Outcome { state: s, action: Action::Done },
            KeyClass::Flush => Outcome {
                state: StateView { buffer: Seq::empty(), prev_tokens: Seq::empty(), ..s },
                action: Action::Done,
            },
            KeyClass::Boundary => self.at_boundary(s, kc),
            KeyClass::Erase => Outcome {
                state: StateView {
                    buffer: if s.buffer.len() > 0 {
                        s.buffer.drop_last()
                    } else {
                        s.buffer
                    },
                    ..s
                },
                action: Action::Done,
            },
            KeyClass::Punct(ch) => if s.buffer.len() > 0 && self.several_layouts() {
                Outcome {
                    state: s,
                    action: Action::TryPunct {
                        entry: entry_now(s, ch, kc),
                        layout: self.other_layout(),
                        positions: state::word_positions(s.buffer).push(
                            (kc, s.mods.shift_held()),
                        ),
                    },
                }
            } else {
                self.at_boundary(s, kc)
            },
            KeyClass::PunctPosition(ch) => if self.completes_current(s, ch) {
                typed(s, entry_now(s, ch, kc))
            } else {
                self.at_boundary(s, kc)
            },
            KeyClass::Letter(ch) => typed(s, entry_now(s, ch, kc)),
        }
    }

    /// What a key event leads to, given the text and the keysym that the keymap
    /// has for it.
    pub open spec fn event_outcome(
        &self,
        kind: KeyKind,
        kc: u32,
        now: u64,
        text: Seq<char>,
        keysym: u32,
    ) -> Outcome {
        let seen = event_seen(self.state@, kind, kc, now, self.cfg.general.idle_reset_ms);
        self.key_outcome(
            seen,
            kc,
            class_of(
                kind,
                kc,
                seen.mods,
                xkb::key_text(kind, text),
                xkb::modifier_keysym(keysym),
                xkb::navigation_keysym(keysym),
            ),
        )
    }

    /// A key event. `text` and `keysym` are what the keymap has for the key, at
    /// the moment `now`.
    #[verifier::rlimit(60)]
    pub fn handle_key(&mut self, ev: &KeyEvent, now: u64, text: String, keysym: u32) -> (r:
        KeyAction)
        requires
            old(self).wf(),
        ensures
            final(self).wf(),
            final(self).same_setting(old(self)),
            final(self).state@ == old(self).event_outcome(
                ev.kind,
                ev.keycode,
                now,
                text@,
                keysym,
            ).state,
            r@ == old(self).event_outcome(ev.kind, ev.keycode, now, text@, keysym).action,
            r matches KeyAction::TryPunct { entry, .. } ==> typing_key(entry.keycode),
    {
        let is_mod: bool = self.note_event(ev.kind, ev.keycode, now);
        let decoded = self.xkb.process(ev.kind, text, keysym);
        let class = key_class(ev.kind, ev.keycode, &self.state.mods, is_mod, &decoded);
        self.apply_key(ev.keycode, class)
    }

    /// What every key event changes, whatever it means. Tells whether the key is
    /// one of the watched modifiers.
    #[verifier::rlimit(60)]
    fn note_event(&mut self, kind: KeyKind, kc: u32, now: u64) -> (r: bool)
        requires
            old(self).wf(),
        ensures
            final(self).wf(),
            final(self).same_setting(old(self)),
            final(self).state@ == event_seen(
                old(self).state@,
                kind,
                kc,
                now,
                old(self).cfg.general.idle_reset_ms,
            ),
            r == ModState::tracks(kc),
    {
        let idle: bool = match self.state.last_event_at {
            Some(prev) => longer_than(now, prev, self.cfg.general.idle_reset_ms),
            None => false,
        };
        if idle && !self.state.buffer.is_empty() {
            self.state.buffer.clear();
        }
        self.state.last_event_at = Some(now);
        let pressed: bool = match kind {
            KeyKind::Press => true,
            _ => false,
        };
        let mut mods = self.state.mods;
        let is_mod: bool = mods.update(kc, pressed);
        match kind {
            KeyKind::Repeat => {},
            _ => {
                self.state.mods = mods;
            },
        }
        if pressed {
            self.state.seq = self.state.seq.wrapping_add(1);
        }
        assert(self.state@ == event_seen(
            old(self).state@,
            kind,
            kc,
            now,
            old(self).cfg.general.idle_reset_ms,
        ));
        is_mod
    }

    /// Carries out what a key means.
    #[verifier::rlimit(60)]
    fn apply_key(&mut self, kc: u32, class: KeyClass) -> (r: KeyAction)
        requires
            old(self).wf(),
            class is Punct || class is PunctPosition || class is Letter ==> typing_key(kc),
        ensures
            final(self).wf(),
            final(self).same_setting(old(self)),
            final(self).state@ == old(self).key_outcome(old(self).state@, kc, class).state,
            r@ == old(self).key_outcome(old(self).state@, kc, class).action,
            r matches KeyAction::TryPunct { entry, .. } ==> entry.keycode == kc,
    {
        match class {
            KeyClass::Quiet => KeyAction::Done,
            KeyClass::Flush => {
                self.state.clear_word();
                self.state.clear_tokens();
                KeyAction::Done
            },
            KeyClass::Boundary => self.on_word_boundary(kc),
            KeyClass::Erase => {
                self.state.buffer.pop();
                KeyAction::Done
            },
            KeyClass::Punct(ch) => {
                // Punctuation usually ends a word, but on the EN/RU pair several
                // keys produce punctuation in EN and a Cyrillic letter in RU
                // (`;`→ж, `,`→б, `.`→ю, `'`→э). If the buffer's swap-form *plus*
                // this key would complete a known word in the other layout, the
                // user is mid-word.
                let entry = WordEntry { ch, keycode: kc, shift: self.state.mods.shift() };
                if !self.state.buffer.is_empty() && self.xkb.count() >= 2 {
                    let layout: u32 = self.xkb.index_after(self.xkb.active_index());
                    let mut positions = positions_of(&self.state.buffer.entries);
                    positions.push((kc, entry.shift));
                    KeyAction::TryPunct { entry, layout, positions }
                } else {
                    self.on_word_boundary(kc)
                }
            },
            KeyClass::PunctPosition(ch) => {
                // If the buffer with this letter is a real word in the *current*
                // dictionary, it is legit typing. Otherwise the key is taken for
                // real punctuation in the user's intended layout (URL case:
                // `github` typed as `пшерги`, and `.` as «ю»).
                if self.letter_completes_current_lang_word(ch) {
                    self.type_char(ch, kc);
                    KeyAction::Done
                } else {
                    self.on_word_boundary(kc)
                }
            },
            KeyClass::Letter(ch) => {
                self.type_char(ch, kc);
                KeyAction::Done
            },
        }
    }

    fn type_char(&mut self, ch: char, kc: u32)
        requires
            old(self).wf(),
            typing_key(kc),
        ensures
            final(self).wf(),
            final(self).same_setting(old(self)),
            final(self).state@ == typed(
                old(self).state@,
                entry_now(old(self).state@, ch, kc),
            ).state,
    {
        let shift: bool = self.state.mods.shift();
        self.state.buffer.push(WordEntry { ch, keycode: kc, shift });
    }

    /// Whether the buffer's current-layout text plus this letter is a complete
    /// word in the current dictionary: the signal to keep typing instead of
    /// firing a boundary.
    pub fn letter_completes_current_lang_word(&self, ch: char) -> (r: bool)
        ensures
            r == self.completes_current(self.state@, ch),
    {
        if self.state.buffer.is_empty() {
            return false;
        }
        let mut word = self.state.buffer.text();
        word.push(ch);
        self.dict_for_layout(self.xkb.active_index()).lookup(word.as_str())
    }

    /// Word-boundary handling: a word in progress goes to the detector.
    pub fn on_word_boundary(&mut self, boundary_kc: u32) -> (r: KeyAction)
        requires
            old(self).wf(),
        ensures
            final(self).wf(),
            final(self).same_setting(old(self)),
            final(self).state@ == old(self).at_boundary(old(self).state@, boundary_kc).state,
            r@ == old(self).at_boundary(old(self).state@, boundary_kc).action,
            r !is TryPunct,
    {
        if self.state.buffer.is_empty() {
            return KeyAction::Done;
        }
        if self.xkb.count() < 2 {
            self.state.clear_word();
            return KeyAction::Done;
        }
        KeyAction::Evaluate {
            boundary_kc,
            layout: self.xkb.index_after(self.xkb.active_index()),
            positions: positions_of(&self.state.buffer.entries),
        }
    }

    /// Whether a punctuation key is a letter that finishes a word of the other
    /// language, given what the word in progress and the key come to there, if
    /// that could be decoded.
    pub open spec fn completes_other(&self, s: StateView, swapped: Option<&str>) -> bool {
        &&& s.buffer.len() > 0
        &&& self.several_layouts()
        &&& swapped matches Some(w) && self.dictionary(self.other_layout()).knows(w@)
    }

    /// The hypothesis "this punctuation key is actually a letter in the other
    /// layout, finishing a word the user is typing". True only when the swapped
    /// form is a complete word in the other dictionary; otherwise the key is
    /// real punctuation.
    pub fn punct_completes_other_lang_word(&self, swapped: Option<&str>) -> (r: bool)
        requires
            self.wf(),
        ensures
            r == self.completes_other(self.state@, swapped),
    {
        if self.state.buffer.is_empty() || self.xkb.count() < 2 {
            return false;
        }
        match swapped {
            Some(w) => self.dict_for_layout(self.xkb.index_after(self.xkb.active_index())).lookup(
                w,
            ),
            None => false,
        }
    }

    /// Goes on after `TryPunct`.
    pub fn finish_punct(&mut self, entry: WordEntry, swapped: Option<&str>) -> (r: KeyAction)
        requires
            old(self).wf(),
            typing_key(entry.keycode),
        ensures
            final(self).wf(),
            final(self).same_setting(old(self)),
            ({
                let o = if old(self).completes_other(old(self).state@, swapped) {
                    typed(old(self).state@, entry)
                } else {
                    old(self).at_boundary(old(self).state@, entry.keycode)
                };
                final(self).state@ == o.state && r@ == o.action
            }),
            r !is TryPunct,
    {
        if self.punct_completes_other_lang_word(swapped) {
            self.state.buffer.push(entry);
            return KeyAction::Done;
        }
        self.on_word_boundary(entry.keycode)
    }
}

// ---------------------------------------------------------------------------
// Words
// ---------------------------------------------------------------------------

/// A word that is to be retyped in another layout: the caller runs the script,
/// and then calls `finish_replay` with the target and whether it went well.
#[derive(Debug)]
pub struct Conversion {
    pub target: u32,
    pub script: Script,
}

/// Wait before the boundary key is typed again. The focused client needs time to
/// render the replayed letters; without enough margin the trailing space lands
/// too early and gets dropped.
pub const BOUNDARY_SETTLE_US: u64 = 50000;

/// A waiting token that is recent enough and was typed in the given layout.
pub open spec fn retro_fixable(t: TokenView, now: u64, window_ms: u64, layout: u32) -> bool {
    elapsed(now, t.finished_at) < window_ms * NS_PER_MS && t.layout_idx_when_typed == layout
}

/// The waiting tokens that are converted along with a word, in order.
pub open spec fn retro_tokens(
    q: Seq<TokenView>,
    now: u64,
    window_ms: u64,
    layout: u32,
) -> Seq<TokenView>
    decreases q.len(),
{
    if q.len() == 0 {
        Seq::empty()
    } else {
        let before = retro_tokens(q.drop_last(), now, window_ms, layout);
        if retro_fixable(q.last(), now, window_ms, layout) {
            before.push(q.last())
        } else {
            before
        }
    }
}

/// How many characters some tokens take up on the screen, each with the boundary
/// behind it.
pub open spec fn screen_len(q: Seq<TokenView>) -> nat
    decreases q.len(),
{
    if q.len() == 0 {
        0
    } else {
        screen_len(q.drop_last()) + q.last().entries.len() + 1
    }
}

/// Retyping some tokens, each with its boundary.
pub open spec fn tokens_script(q: Seq<TokenView>) -> ScriptView
    decreases q.len(),
{
    if q.len() == 0 {
        injector::plain(Seq::empty())
    } else {
        injector::chain(
            tokens_script(q.drop_last()),
            injector::chain(
                injector::replay(q.last().entries),
                injector::checked_tap(q.last().boundary_kc, Fault::PrevBoundary(q.last().boundary_kc)),
            ),
        )
    }
}

/// Retyping a word with its boundary, and the tokens in front of it.
pub open spec fn retyping(q: Seq<TokenView>, entries: Seq<WordEntry>, boundary_kc: u32) -> ScriptView {
    injector::chain(
        tokens_script(q),
        injector::chain(
            injector::replay(entries),
            injector::chain(
                injector::plain(seq![Step::Pause(BOUNDARY_SETTLE_US)]),
                injector::checked_tap(boundary_kc, Fault::Boundary(boundary_kc)),
            ),
        ),
    )
}

/// Converting a word and the tokens in front of it: backspace through all of it,
/// switch the layout, wait until the switch has got round, retype.
pub open spec fn conversion(
    q: Seq<TokenView>,
    entries: Seq<WordEntry>,
    boundary_kc: u32,
    target: u32,
) -> ScriptView {
    injector::chain(
        injector::plain(
            injector::backspace_taps(screen_len(q) + entries.len() + 1) + seq![
                Step::SwitchLayout(target),
                Step::Pause(SWITCH_SETTLE_US),
            ],
        ),
        retyping(q, entries, boundary_kc),
    )
}

proof fn backspaces_add(a: nat, b: nat)
    ensures
        injector::backspace_taps(a) + injector::backspace_taps(b) == injector::backspace_taps(a + b),
    decreases b,
{
    let taps = injector::tap(injector::KEY_BACKSPACE);
    if b > 0 {
        let c = (b - 1) as nat;
        backspaces_add(a, c);
        assert((a + b - 1) as nat == a + c);
        assert(injector::backspace_taps(a) + (injector::backspace_taps(c) + taps) == (
        injector::backspace_taps(a) + injector::backspace_taps(c)) + taps);
    } else {
        assert(injector::backspace_taps(a) + injector::backspace_taps(0)
            == injector::backspace_taps(a));
    }
}

fn more_backspaces(script: &mut Script, n: usize, Ghost(so_far): Ghost<nat>)
    requires
        old(script)@ == injector::plain(injector::backspace_taps(so_far)),
    ensures
        final(script)@ == injector::plain(injector::backspace_taps(so_far + n as nat)),
{
    script.backspaces(n);
    proof {
        backspaces_add(so_far, n as nat);
    }
}

fn is_retro_fixable(t: &PrevToken, now: u64, window_ms: u64, layout: u32) -> (r: bool)
    ensures
        r == retro_fixable(t@, now, window_ms, layout),
{
    shorter_than(now, t.finished_at, window_ms) && t.layout_idx_when_typed == layout
}

/// The views of a queue of tokens.
pub open spec fn token_views(q: Seq<PrevToken>) -> Seq<TokenView> {
    q.map_values(|t: PrevToken| t@)
}

proof fn one_more_token(q: Seq<TokenView>, i: int, now: u64, window_ms: u64, layout: u32)
    requires
        0 <= i < q.len(),
    ensures
        ({
            let before = retro_tokens(q.take(i), now, window_ms, layout);
            let after = retro_tokens(q.take(i + 1), now, window_ms, layout);
            if retro_fixable(q[i], now, window_ms, layout) {
                &&& after == before.push(q[i])
                &&& screen_len(after) == screen_len(before) + q[i].entries.len() + 1
                &&& tokens_script(after) == injector::chain(
                    tokens_script(before),
                    injector::chain(
                        injector::replay(q[i].entries),
                        injector::checked_tap(
                            q[i].boundary_kc,
                            Fault::PrevBoundary(q[i].boundary_kc),
                        ),
                    ),
                )
            } else {
                after == before
            }
        }),
{
    assert(q.take(i + 1).drop_last() == q.take(i));
    assert(q.take(i + 1).last() == q[i]);
    let before = retro_tokens(q.take(i), now, window_ms, layout);
    assert(before.push(q[i]).drop_last() == before);
}

/// Adds the backspaces for the tokens that are converted along.
fn delete_tokens(q: &Vec<PrevToken>, now: u64, window_ms: u64, layout: u32) -> (script: Script)
    ensures
        script@ == injector::plain(
            injector::backspace_taps(
                screen_len(retro_tokens(token_views(q@), now, window_ms, layout)),
            ),
        ),
{
    let ghost all = token_views(q@);
    let mut script = Script::new();
    let mut i: usize = 0;
    assert(all.take(0) == Seq::<TokenView>::empty());
    assert(script@ == injector::plain(injector::backspace_taps(0)));
    while i < q.len()
        invariant
            i <= q.len(),
            all == token_views(q@),
            script@ == injector::plain(
                injector::backspace_taps(
                    screen_len(retro_tokens(all.take(i as int), now, window_ms, layout)),
                ),
            ),
        decreases q.len() - i,
    {
        let ghost n = screen_len(retro_tokens(all.take(i as int), now, window_ms, layout));
        proof {
            one_more_token(all, i as int, now, window_ms, layout);
            assert(all[i as int] == q@[i as int]@);
        }
        if is_retro_fixable(&q[i], now, window_ms, layout) {
            more_backspaces(&mut script, q[i].entries.len(), Ghost(n));
            more_backspaces(&mut script, 1, Ghost(n + q@[i as int].entries@.len()));
        }
        i = i + 1;
    }
    assert(all.take(i as int) == all);
    script
}

/// Adds the retyping of the tokens that are converted along.
fn retype_tokens(script: &mut Script, q: &Vec<PrevToken>, now: u64, window_ms: u64, layout: u32)
    ensures
        final(script)@ == injector::chain(
            old(script)@,
            tokens_script(retro_tokens(token_views(q@), now, window_ms, layout)),
        ),
{
    let ghost all = token_views(q@);
    let ghost start = script@;
    let mut i: usize = 0;
    assert(all.take(0) == Seq::<TokenView>::empty());
    assert(script@ == injector::chain(start, injector::plain(Seq::empty())));
    while i < q.len()
        invariant
            i <= q.len(),
            all == token_views(q@),
            start == old(script)@,
            script@ == injector::chain(
                start,
                tokens_script(retro_tokens(all.take(i as int), now, window_ms, layout)),
            ),
        decreases q.len() - i,
    {
        let ghost before = retro_tokens(all.take(i as int), now, window_ms, layout);
        let ghost t = all[i as int];
        proof {
            one_more_token(all, i as int, now, window_ms, layout);
            assert(t == q@[i as int]@);
        }
        if is_retro_fixable(&q[i], now, window_ms, layout) {
            script.replay_entries(&q[i].entries);
            let kc: u32 = q[i].boundary_kc;
            script.press_release_checked(kc, Fault::PrevBoundary(kc));
            proof {
                let done = tokens_script(before);
                let word = injector::replay(t.entries);
                let end = injector::checked_tap(kc, Fault::PrevBoundary(kc));
                injector::chain_assoc(start, done, word);
                injector::chain_assoc(start, injector::chain(done, word), end);
                injector::chain_assoc(done, word, end);
            }
        }
        i = i + 1;
    }
    assert(all.take(i as int) == all);
}

impl Service {
    /// The state while a word is being converted.
    pub open spec fn converting(&self) -> StateView {
        StateView { prev_tokens: Seq::empty(), replaying: true, ..self.state@ }
    }

    /// The waiting tokens that are converted along with the word in progress.
    pub open spec fn retro_tokens_now(&self, now: u64) -> Seq<TokenView> {
        retro_tokens(
            self.state@.prev_tokens,
            now,
            self.cfg.detector.retro_window_ms,
            self.xkb.active(),
        )
    }

    /// The script that converts the word in progress.
    pub open spec fn conversion_now(&self, boundary_kc: u32, now: u64) -> ScriptView {
        conversion(
            self.retro_tokens_now(now),
            self.state@.buffer,
            boundary_kc,
            self.other_layout(),
        )
    }

    /// Convert the word in progress to the other layout: backspace through the
    /// typed text and its boundary, switch layout, replay through the new
    /// layout, re-emit the boundary key. Recent short tokens sitting in the same
    /// wrong layout get included in the same backspace sweep.
    #[verifier::rlimit(60)]
    pub fn auto_replay(&mut self, boundary_kc: u32, now: u64) -> (r: Conversion)
        requires
            old(self).wf(),
        ensures
            final(self).wf(),
            final(self).same_setting(old(self)),
            final(self).state@ == old(self).converting(),
            r.target == old(self).other_layout(),
            r.script@ == old(self).conversion_now(boundary_kc, now),
    {
        let current: u32 = self.xkb.active_index();
        let target: u32 = self.xkb.index_after(current);
        let window_ms: u64 = self.cfg.detector.retro_window_ms;
        let ghost q = retro_tokens(self.state@.prev_tokens, now, window_ms, current);
        let ghost entries = self.state@.buffer;
        let n: usize = self.state.buffer.len();
        let mut script = delete_tokens(&self.state.prev_tokens, now, window_ms, current);
        more_backspaces(&mut script, n, Ghost(screen_len(q)));
        more_backspaces(&mut script, 1, Ghost(screen_len(q) + n as nat));
        script.step(Step::SwitchLayout(target));
        script.step(Step::Pause(SWITCH_SETTLE_US));
        let ghost head = script@;
        assert(head == injector::plain(
            injector::backspace_taps(screen_len(q) + entries.len() + 1) + seq![
                Step::SwitchLayout(target),
                Step::Pause(SWITCH_SETTLE_US),
            ],
        ));
        retype_tokens(&mut script, &self.state.prev_tokens, now, window_ms, current);
        script.replay_entries(&self.state.buffer.entries);
        script.step(Step::Pause(BOUNDARY_SETTLE_US));
        script.press_release_checked(boundary_kc, Fault::Boundary(boundary_kc));
        proof {
            let a = tokens_script(q);
            let b = injector::replay(entries);
            let c = injector::plain(seq![Step::Pause(BOUNDARY_SETTLE_US)]);
            let d = injector::checked_tap(boundary_kc, Fault::Boundary(boundary_kc));
            injector::chain_assoc(head, a, b);
            injector::chain_assoc(head, injector::chain(a, b), c);
            injector::chain_assoc(head, injector::chain(injector::chain(a, b), c), d);
            injector::chain_assoc(injector::chain(a, b), c, d);
            injector::chain_assoc(a, b, injector::chain(c, d));
        }
        self.state.clear_tokens();
        self.state.replaying = true;
        Conversion { target, script }
    }

    /// The caller has run the script of a conversion, or failed to. After a
    /// success the keymap is to be locked to the new layout with the mask that
    /// is returned; the compositor's layout event will confirm it shortly.
    pub fn finish_replay(&mut self, target: u32, done: bool) -> (r: Option<LayoutMask>)
        requires
            old(self).wf(),
            target < old(self).xkb.names().len(),
        ensures
            final(self).wf(),
            final(self).same_apart_from_layout(old(self)),
            done ==> {
                &&& final(self).xkb.active() == target
                &&& final(self).state@ == (StateView {
                    replaying: false,
                    layout_idx: target,
                    buffer: Seq::empty(),
                    ..old(self).state@
                })
                &&& r == Some(LayoutMask { depressed_mods: 0, locked_layout: target })
            },
            !done ==> {
                &&& final(self).same_setting(old(self))
                &&& final(self).state@ == (StateView { replaying: false, ..old(self).state@ })
                &&& r is None
            },
    {
        self.state.replaying = false;
        if !done {
            return None;
        }
        let mask = self.xkb.set_active_layout(target);
        self.state.layout_idx = target;
        self.state.buffer.clear();
        Some(mask)
    }
}

impl Service {
    /// The detector's verdict on the word in progress, given what its keys come
    /// to in the other layout and whether the letters of that outweigh it.
    pub open spec fn word_verdict(&self, swapped: Seq<char>, swap_outweighs: bool) -> Verdict {
        let word = state::word_text(self.state@.buffer);
        let cur = self.dictionary(self.xkb.active());
        let other = self.dictionary(self.other_layout());
        detector::verdict(
            word,
            cur.knows(word),
            cur.knows_naturally(word),
            other.knows(swapped),
            other.knows_naturally(swapped),
            swap_outweighs && detector::comparable(
                word,
                swapped,
                self.xkb.name_at(self.xkb.active()),
                self.xkb.name_at(self.other_layout()),
            ),
        )
    }

    /// The word in progress as a token that waits for a later fix.
    pub open spec fn finished_token(&self, boundary_kc: u32, now: u64) -> TokenView {
        TokenView {
            entries: self.state@.buffer,
            boundary_kc,
            finished_at: now,
            layout_idx_when_typed: self.xkb.active(),
        }
    }

    /// The state after a verdict on the word in progress.
    pub open spec fn after_verdict(&self, v: Verdict, boundary_kc: u32, now: u64) -> StateView {
        let s = self.state@;
        match v {
            Verdict::MisLayout => self.converting(),
            Verdict::Unknown => if s.buffer.len() < self.cfg.detector.min_word_len {
                StateView {
                    buffer: Seq::empty(),
                    prev_tokens: state::newest_tokens(
                        s.prev_tokens.push(self.finished_token(boundary_kc, now)),
                    ),
                    ..s
                }
            } else {
                StateView { buffer: Seq::empty(), prev_tokens: Seq::empty(), ..s }
            },
            Verdict::Correct => StateView { buffer: Seq::empty(), prev_tokens: Seq::empty(), ..s },
        }
    }

    /// The scores of the word in progress and of what its keys come to in the
    /// other layout; none if one of them has no score.
    pub fn word_scores(&self, swapped: &str) -> (r: Option<(Vec<Option<u32>>, Vec<Option<u32>>)>)
        requires
            self.wf(),
        ensures
            ({
                let word = state::word_text(self.state@.buffer);
                let cur_lang = self.xkb.name_at(self.xkb.active());
                let other_lang = self.xkb.name_at(self.other_layout());
                &&& r is Some == detector::comparable(word, swapped@, cur_lang, other_lang)
                &&& r matches Some(p) ==> {
                    &&& lang_score::layout_score(word, cur_lang) == Some(p.0@)
                    &&& lang_score::layout_score(swapped@, other_lang) == Some(p.1@)
                }
            }),
    {
        let current: u32 = self.xkb.active_index();
        let other: u32 = self.xkb.index_after(current);
        let word = self.state.buffer.text();
        fallback_scores(
            word.as_str(),
            swapped,
            self.xkb.layout_name(current),
            self.xkb.layout_name(other),
        )
    }

    /// Goes on after `Evaluate`: judges the word in progress. `swapped` is what
    /// its keys come to in the other layout, if the keymap for that could be
    /// compiled.
    #[verifier::rlimit(60)]
    pub fn auto_evaluate(
        &mut self,
        boundary_kc: u32,
        swapped: Option<&str>,
        swap_outweighs: bool,
        now: u64,
    ) -> (r: Result<Option<Conversion>, Error>)
        requires
            old(self).wf(),
        ensures
            final(self).wf(),
            final(self).same_setting(old(self)),
            if !old(self).several_layouts() {
                &&& r matches Ok(None)
                &&& final(self).state@ == (StateView {
                    buffer: Seq::empty(),
                    ..old(self).state@
                })
            } else {
                match swapped {
                    None => {
                        &&& r matches Err(Error::XkbCompile { layout, variant })
                        &&& layout@ == old(self).layouts_csv@
                        &&& variant@ == old(self).variants_csv@
                        &&& final(self).state@ == old(self).state@
                    },
                    Some(w) => {
                        let v = old(self).word_verdict(w@, swap_outweighs);
                        &&& final(self).state@ == old(self).after_verdict(v, boundary_kc, now)
                        &&& match r {
                            Ok(Some(c)) => {
                                &&& v == Verdict::MisLayout
                                &&& c.target == old(self).other_layout()
                                &&& c.script@ == old(self).conversion_now(boundary_kc, now)
                            },
                            Ok(None) => v != Verdict::MisLayout,
                            Err(_) => false,
                        }
                    },
                }
            },
    {
        if self.xkb.count() < 2 {
            self.state.clear_word();
            return Ok(None);
        }
        let swapped_text = match swapped {
            Some(w) => w,
            None => {
                return Err(
                    Error::XkbCompile {
                        layout: self.layouts_csv.as_str().to_owned(),
                        variant: self.variants_csv.as_str().to_owned(),
                    },
                );
            },
        };
        let current: u32 = self.xkb.active_index();
        let other: u32 = self.xkb.index_after(current);
        let current_text = self.state.buffer.text();
        let verdict = classify(
            current_text.as_str(),
            swapped_text,
            self.dict_for_layout(current),
            self.dict_for_layout(other),
            self.xkb.layout_name(current),
            self.xkb.layout_name(other),
            swap_outweighs,
        );
        let was_short: bool = self.state.buffer.len() < self.cfg.detector.min_word_len;
        match verdict {
            Verdict::MisLayout => Ok(Some(self.auto_replay(boundary_kc, now))),
            Verdict::Unknown if was_short => {
                // Stash for a possible retro-fix when a following word fires
                // MisLayout. Only short Unknowns: they're the ones the detector
                // deliberately abstained on; longer Unknowns are likely
                // intentional gibberish.
                let token = PrevToken {
                    entries: copy_entries(&self.state.buffer.entries),
                    boundary_kc,
                    finished_at: now,
                    layout_idx_when_typed: current,
                };
                assert(token@ == self.finished_token(boundary_kc, now));
                self.state.push_prev_token(token);
                self.state.clear_word();
                Ok(None)
            },
            _ => {
                // Known, or Unknown and not short. Neither qualifies as a
                // retro-fix candidate, and the latter breaks the chain.
                self.state.clear_tokens();
                self.state.clear_word();
                Ok(None)
            },
        }
    }
}

// ---------------------------------------------------------------------------
// Other messages
// ---------------------------------------------------------------------------

/// What the caller has to do with a message.
#[derive(Debug)]
pub enum MsgAction {
    Done,
    /// Read the text and the keysym of the key and call `handle_key`.
    DecodeKey(KeyEvent),
    /// Make the keymap state anew with this mask.
    LockLayout(LayoutMask),
    /// Swap the selection, once no command modifier is held.
    SwapSelection { wait: bool },
}

impl Service {
    /// The state and the active layout after an event of the compositor. A
    /// layout that is not configured changes nothing.
    pub open spec fn follows(&self, before: &Service, ev: HyprEvent) -> bool {
        match ev {
            HyprEvent::ActiveLayout { keyboard: _, layout_name } => match named_layout(
                before.xkb.names(),
                layout_name@,
            ) {
                Some(i) => {
                    &&& self.same_apart_from_layout(before)
                    &&& self.xkb.active() == i
                    &&& self.state@ == (StateView { layout_idx: i as u32, ..before.state@ })
                },
                None => self.same_setting(before) && self.state@ == before.state@,
            },
            HyprEvent::ActiveWindow => {
                &&& self.same_setting(before)
                &&& self.state@ == (StateView {
                    buffer: Seq::empty(),
                    prev_tokens: Seq::empty(),
                    ..before.state@
                })
            },
        }
    }

    /// The mask for the keymap state after an event of the compositor, if it
    /// names a configured layout.
    pub open spec fn lock_for(&self, ev: HyprEvent) -> Option<LayoutMask> {
        match ev {
            HyprEvent::ActiveLayout { keyboard: _, layout_name } => match named_layout(
                self.xkb.names(),
                layout_name@,
            ) {
                Some(i) => Some(LayoutMask { depressed_mods: 0, locked_layout: i as u32 }),
                None => None,
            },
            HyprEvent::ActiveWindow => None,
        }
    }

    /// An event of the compositor. A new layout is to be locked in the keymap
    /// with the mask that is returned.
    pub fn handle_hypr(&mut self, ev: &HyprEvent) -> (r: Option<LayoutMask>)
        requires
            old(self).wf(),
        ensures
            final(self).wf(),
            final(self).follows(old(self), *ev),
            r == old(self).lock_for(*ev),
    {
        match ev {
            HyprEvent::ActiveLayout { keyboard: _, layout_name } => match layout_index(
                &self.xkb,
                layout_name.as_str(),
            ) {
                Some(idx) => {
                    let mask = self.xkb.set_active_layout(idx);
                    self.state.layout_idx = idx;
                    Some(mask)
                },
                None => None,
            },
            HyprEvent::ActiveWindow => {
                self.state.clear_word();
                self.state.clear_tokens();
                None
            },
        }
    }

    /// Takes a message. A key is handed back to be decoded. A request to swap
    /// the selection drops any word in progress: it is a deliberate user action
    /// and overrides pending auto-detection state.
    pub fn handle_msg(&mut self, msg: CoreMsg) -> (r: MsgAction)
        requires
            old(self).wf(),
        ensures
            final(self).wf(),
            match msg {
                CoreMsg::Key(ev) => {
                    &&& final(self).same_setting(old(self))
                    &&& final(self).state@ == old(self).state@
                    &&& r == MsgAction::DecodeKey(ev)
                },
                CoreMsg::Hypr(ev) => {
                    &&& final(self).follows(old(self), ev)
                    &&& r == match old(self).lock_for(ev) {
                        Some(mask) => MsgAction::LockLayout(mask),
                        None => MsgAction::Done,
                    }
                },
                CoreMsg::SwapSelection => {
                    &&& final(self).same_setting(old(self))
                    &&& final(self).state@ == (StateView {
                        buffer: Seq::empty(),
                        prev_tokens: Seq::empty(),
                        ..old(self).state@
                    })
                    &&& r == MsgAction::SwapSelection { wait: old(self).state.mods.command_held() }
                },
            },
    {
        match msg {
            CoreMsg::Key(ev) => MsgAction::DecodeKey(ev),
            CoreMsg::Hypr(ev) => match self.handle_hypr(&ev) {
                Some(mask) => MsgAction::LockLayout(mask),
                None => MsgAction::Done,
            },
            CoreMsg::SwapSelection => MsgAction::SwapSelection { wait: self.swap_selection() },
        }
    }

    /// Takes notice of a request to swap the layout on whatever the user has
    /// highlighted. Tells whether a command modifier has to be let go first.
    pub fn swap_selection(&mut self) -> (wait: bool)
        requires
            old(self).wf(),
        ensures
            final(self).wf(),
            final(self).same_setting(old(self)),
            final(self).state@ == (StateView {
                buffer: Seq::empty(),
                prev_tokens: Seq::empty(),
                ..old(self).state@
            }),
            wait == old(self).state.mods.command_held(),
    {
        self.state.clear_word();
        self.state.clear_tokens();
        self.state.mods.any_command_modifier()
    }
}

// ---------------------------------------------------------------------------
// Selection swap
// ---------------------------------------------------------------------------

/// The longest wait for the user to let go of the modifiers of a hotkey.
pub const MODIFIER_WAIT_MS: u64 = 400;

/// How long to wait before an empty message queue is looked at again.
pub const POLL_PAUSE_MS: u64 = 5;

/// What was found in the message queue.
#[derive(Debug)]
pub enum Polled {
    Message(CoreMsg),
    Empty,
    Closed,
}

/// Whether the wait is over, and the mask for the keymap state if the layout has
/// changed meanwhile.
#[derive(Debug)]
pub struct WaitStep {
    pub over: bool,
    pub lock: Option<LayoutMask>,
}

/// How an attempt to swap the selection has ended.
#[derive(Debug, Clone, Copy, PartialEq, Eq, Structural)]
pub enum SwapEnd {
    /// Something failed on the way.
    Failed,
    /// There was nothing to swap.
    Idle,
    /// The selection was retyped in this layout.
    Swapped(u32),
}

impl Service {
    /// What a message that comes in during the wait does: keys only move the
    /// modifiers, and another request to swap is dropped.
    pub open spec fn absorbs(&self, before: &Service, polled: Polled) -> bool {
        match polled {
            Polled::Message(CoreMsg::Key(ev)) => {
                &&& self.same_setting(before)
                &&& self.state@ == (StateView {
                    mods: if ev.kind == KeyKind::Repeat {
                        before.state.mods
                    } else {
                        before.state.mods.after(ev.keycode, ev.kind == KeyKind::Press)
                    },
                    ..before.state@
                })
            },
            Polled::Message(CoreMsg::Hypr(ev)) => self.follows(before, ev),
            _ => self.same_setting(before) && self.state@ == before.state@,
        }
    }

    /// One round of the wait until no command modifier (Ctrl/Alt/Super) is held,
    /// or `max_wait_ms` have gone by since `started`. A letter that is injected
    /// while the trigger's modifier is physically held would combine with it.
    /// The pending messages have to be taken during the wait, otherwise the
    /// release event sits in the queue.
    #[verifier::rlimit(60)]
    pub fn wait_for_modifier_release(
        &mut self,
        polled: Polled,
        started: u64,
        now: u64,
        max_wait_ms: u64,
    ) -> (r: WaitStep)
        requires
            old(self).wf(),
        ensures
            final(self).wf(),
            final(self).absorbs(old(self), polled),
            r.over == (polled is Closed || !final(self).state.mods.command_held() || elapsed(
                now,
                started,
            ) >= max_wait_ms * NS_PER_MS),
            r.lock == match polled {
                Polled::Message(CoreMsg::Hypr(ev)) => old(self).lock_for(ev),
                _ => None,
            },
    {
        let mut lock: Option<LayoutMask> = None;
        match &polled {
            Polled::Message(CoreMsg::Key(ev)) => {
                match ev.kind {
                    KeyKind::Press => {
                        self.state.mods.update(ev.keycode, true);
                    },
                    KeyKind::Release => {
                        self.state.mods.update(ev.keycode, false);
                    },
                    KeyKind::Repeat => {},
                }
            },
            Polled::Message(CoreMsg::Hypr(ev)) => {
                lock = self.handle_hypr(ev);
            },
            Polled::Message(CoreMsg::SwapSelection) => {},
            Polled::Empty => {},
            Polled::Closed => {
                return WaitStep { over: true, lock };
            },
        }
        let over: bool = !self.state.mods.any_command_modifier() || !shorter_than(
            now,
            started,
            max_wait_ms,
        );
        WaitStep { over, lock }
    }

    /// The injection that replaces the selection begins.
    pub fn start_swap(&mut self)
        requires
            old(self).wf(),
        ensures
            final(self).wf(),
            final(self).same_setting(old(self)),
            final(self).state@ == (StateView { replaying: true, ..old(self).state@ }),
    {
        self.state.replaying = true;
    }

    /// The attempt to swap the selection has ended. After a success the keymap
    /// is to be locked to the new layout with the mask that is returned.
    pub fn finish_swap(&mut self, end: SwapEnd) -> (r: Option<LayoutMask>)
        requires
            old(self).wf(),
            end matches SwapEnd::Swapped(target) ==> target < old(self).xkb.names().len(),
        ensures
            final(self).wf(),
            match end {
                SwapEnd::Swapped(target) => {
                    &&& final(self).same_apart_from_layout(old(self))
                    &&& final(self).xkb.active() == target
                    &&& final(self).state@ == (StateView {
                        replaying: false,
                        layout_idx: target,
                        ..old(self).state@
                    })
                    &&& r == Some(LayoutMask { depressed_mods: 0, locked_layout: target })
                },
                _ => {
                    &&& final(self).same_setting(old(self))
                    &&& final(self).state@ == (StateView { replaying: false, ..old(self).state@ })
                    &&& r is None
                },
            },
    {
        self.state.replaying = false;
        match end {
            SwapEnd::Swapped(target) => {
                let mask = self.xkb.set_active_layout(target);
                self.state.layout_idx = self.xkb.active_index();
                Some(mask)
            },
            SwapEnd::Idle => {
                self.state.layout_idx = self.xkb.active_index();
                None
            },
            SwapEnd::Failed => None,
        }
    }
}

} // verus!
