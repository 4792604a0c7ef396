//! The parts that need a keyboard. It is simulated: two layouts, US and Russian,
//! with the characters that xkb gives the keys of the main block.

use swtchr::config::Config;
use swtchr::engine::{Dict, WordEntry};
use swtchr::error::Error;
use swtchr::hyprland::HyprEvent;
use swtchr::input::injector::{Fault, KeyChange, Script, Step};
use swtchr::input::{DeviceId, KeyEvent, KeyKind};
use swtchr::selection::{
    detect_source_layout, plan_swap, read_primary_selection, strip_newlines, swap_selection,
    text_to_entries,
};
use swtchr::service::{
    choose_layouts, is_boundary_keycode, is_punct_char, is_punct_keycode, layout_index, CoreMsg,
    KeyAction, MsgAction, Polled, Service, SwapEnd, MODIFIER_WAIT_MS,
};
use swtchr::xkb::{
    build_char_map, char_map_probes, decode_script, decode_through_layout, key_call, parse_layout,
    press_kind, probe_mask, CharMap, Decoded, LayoutMask, PressKind, XkbState, KEYSYM_CONTROL_L,
    KEYSYM_ESCAPE, KEYSYM_LEFT, KEYSYM_SHIFT_L,
};

// ---------------------------------------------------------------------------
// The simulated keyboard
// ---------------------------------------------------------------------------

const ROWS: [(u32, &str, &str, &str, &str); 7] = [
    (2, "1234567890-=", "!@#$%^&*()_+", "1234567890-=", "!\"№;%:?*()_+"),
    (16, "qwertyuiop[]", "QWERTYUIOP{}", "йцукенгшщзхъ", "ЙЦУКЕНГШЩЗХЪ"),
    (30, "asdfghjkl;'", "ASDFGHJKL:\"", "фывапролджэ", "ФЫВАПРОЛДЖЭ"),
    (41, "`", "~", "ё", "Ё"),
    (43, "\\", "|", "\\", "/"),
    (44, "zxcvbnm,./", "ZXCVBNM<>?", "ячсмитьбю.", "ЯЧСМИТЬБЮ,"),
    (57, " ", " ", " ", " "),
];

fn key_text(layout: &str, kc: u32, shift: bool) -> String {
    match kc {
        1 => return "\u{1b}".to_string(),
        14 => return "\u{8}".to_string(),
        15 => return "\t".to_string(),
        28 => return "\r".to_string(),
        _ => {}
    }
    for (first, us, us_shift, ru, ru_shift) in ROWS {
        let row = match (layout == "ru", shift) {
            (false, false) => us,
            (false, true) => us_shift,
            (true, false) => ru,
            (true, true) => ru_shift,
        };
        if kc >= first {
            if let Some(c) = row.chars().nth((kc - first) as usize) {
                return c.to_string();
            }
        }
    }
    String::new()
}

fn key_sym(kc: u32) -> u32 {
    match kc {
        1 => KEYSYM_ESCAPE,
        29 => KEYSYM_CONTROL_L,
        42 | 54 => KEYSYM_SHIFT_L,
        105 => KEYSYM_LEFT,
        _ => 0x1000000 + kc,
    }
}

/// A keymap state: a layout and whether shift is down.
struct Keys {
    layout: String,
    shift: bool,
}

impl Keys {
    fn new(layout: &str) -> Keys {
        Keys { layout: layout.to_string(), shift: false }
    }

    fn process(&mut self, xkb: &XkbState, kc: u32, kind: KeyKind) -> Decoded {
        let call = key_call(kc, kind);
        assert_eq!(call.xkb_keycode, kc + 8);
        let text = if call.wants_text { key_text(&self.layout, kc, self.shift) } else { String::new() };
        if kc == 42 {
            if let Some(down) = call.change {
                self.shift = down;
            }
        }
        xkb.process(kind, text, key_sym(kc))
    }
}

/// What some positions come to in a layout.
fn decode(xkb: &XkbState, layout: &str, positions: &Vec<(u32, bool)>) -> String {
    let mut keys = Keys::new(layout);
    let outcomes: Vec<Decoded> = decode_script(positions)
        .iter()
        .map(|s| keys.process(xkb, s.keycode, s.kind))
        .collect();
    assert!(!keys.shift);
    decode_through_layout(positions, &outcomes)
}

fn char_map(layout: &str) -> CharMap {
    let texts: Vec<String> = char_map_probes()
        .iter()
        .map(|(kc, shift)| key_text(layout, *kc, *shift))
        .collect();
    build_char_map(&texts)
}

fn us_ru() -> XkbState {
    XkbState::new("us,ru", ",", true).unwrap()
}

fn ghbdtn() -> Vec<(u32, bool)> {
    vec![(34, false), (35, false), (48, false), (32, false), (20, false), (49, false)]
}

// ---------------------------------------------------------------------------
// Decoding
// ---------------------------------------------------------------------------

/// evdev keycode for KEY_A is 30; +8 = 38, mapping to "a" in US layout.
#[test]
fn decodes_a_in_us_layout() {
    let s = XkbState::new("us", "", true).unwrap();
    let d = Keys::new("us").process(&s, 30, KeyKind::Press);
    assert_eq!(d.utf8.as_deref(), Some("a"));
    assert!(!d.is_modifier);
    assert!(!d.is_navigation);
    assert_eq!(press_kind(&d), PressKind::Printable);
}

#[test]
fn shift_changes_case() {
    let s = XkbState::new("us", "", true).unwrap();
    let mut keys = Keys::new("us");
    let d_shift = keys.process(&s, 42, KeyKind::Press); // KEY_LEFTSHIFT
    assert!(d_shift.is_modifier);
    assert!(d_shift.utf8.is_none());
    assert_eq!(press_kind(&d_shift), PressKind::Modifier);
    let d_a = keys.process(&s, 30, KeyKind::Press);
    assert_eq!(d_a.utf8.as_deref(), Some("A"));
}

#[test]
fn ru_layout_produces_cyrillic() {
    let s = XkbState::new("ru", "", true).unwrap();
    let d = Keys::new(s.layout_name(0)).process(&s, 30, KeyKind::Press);
    assert_eq!(d.utf8.as_deref(), Some("ф"));
}

#[test]
fn arrow_classified_as_navigation() {
    let s = XkbState::new("us", "", true).unwrap();
    let d = Keys::new("us").process(&s, 105, KeyKind::Press); // KEY_LEFT
    assert!(d.is_navigation);
    assert_eq!(press_kind(&d), PressKind::Navigation);
    assert_eq!(press_kind(&Decoded::default()), PressKind::NonPrintable);
}

#[test]
fn multi_layout_switching() {
    let mut s = us_ru();
    assert_eq!(s.layouts(), &["us".to_string(), "ru".to_string()]);
    assert_eq!(s.active_index(), 0);
    let mut keys = Keys::new(s.layout_name(s.active_index()));
    assert_eq!(keys.process(&s, 30, KeyKind::Press).utf8.as_deref(), Some("a"));
    keys.process(&s, 30, KeyKind::Release);
    let mask = s.set_active_layout(1);
    assert_eq!(mask, LayoutMask { depressed_mods: 0, locked_layout: 1 });
    assert_eq!(s.active_index(), 1);
    let mut keys = Keys::new(s.layout_name(mask.locked_layout));
    assert_eq!(keys.process(&s, 30, KeyKind::Press).utf8.as_deref(), Some("ф"));
}

#[test]
fn releases_have_no_text_and_repeats_do() {
    let s = us_ru();
    let mut keys = Keys::new("us");
    assert_eq!(keys.process(&s, 30, KeyKind::Release).utf8, None);
    assert_eq!(keys.process(&s, 30, KeyKind::Repeat).utf8.as_deref(), Some("a"));
    assert_eq!(key_call(30, KeyKind::Press).change, Some(true));
    assert_eq!(key_call(30, KeyKind::Release).change, Some(false));
    assert_eq!(key_call(30, KeyKind::Repeat).change, None);
    assert!(!key_call(30, KeyKind::Release).wants_text);
}

#[test]
fn a_keymap_that_does_not_compile_is_an_error() {
    match XkbState::new("xx", "yy", false) {
        Err(Error::XkbCompile { layout, variant }) => {
            assert_eq!(layout, "xx");
            assert_eq!(variant, "yy");
        }
        other => panic!("{other:?}"),
    }
}

#[test]
fn layouts_are_trimmed_and_cycle() {
    let s = XkbState::new(" us , ru,de", " , phonetic", true).unwrap();
    assert_eq!(s.layouts(), &["us", "ru", "de"]);
    assert_eq!(s.variants(), &["", "phonetic"]);
    assert_eq!(s.count(), 3);
    assert_eq!(s.index_after(0), 1);
    assert_eq!(s.index_after(2), 0);
    assert_eq!(s.layout_name(1), "ru");
    assert_eq!(s.layout_name(3), "");
}

/// "ghbdtn" in US layout maps positionally to "привет" in RU layout.
/// keycodes: g=34, h=35, b=48, d=32, t=20, n=49.
#[test]
fn decode_ghbdtn_through_ru_yields_privet() {
    let s = us_ru();
    assert_eq!(decode(&s, s.layout_name(1), &ghbdtn()), "привет");
}

/// And the inverse: "ghbdtn" in US.
#[test]
fn decode_ghbdtn_through_us_yields_ghbdtn() {
    let s = us_ru();
    assert_eq!(decode(&s, s.layout_name(0), &ghbdtn()), "ghbdtn");
}

#[test]
fn decoding_keeps_shift() {
    let s = us_ru();
    assert_eq!(decode(&s, "ru", &vec![(34, true), (35, true), (48, false)]), "ПРи");
    assert_eq!(decode(&s, "ru", &Vec::new()), "");
    let script = decode_script(&vec![(34, true)]);
    let kinds: Vec<(u32, KeyKind, bool)> = script.iter().map(|s| (s.keycode, s.kind, s.kept)).collect();
    assert_eq!(
        kinds,
        vec![
            (42, KeyKind::Press, false),
            (34, KeyKind::Press, true),
            (34, KeyKind::Release, false),
            (42, KeyKind::Release, false),
        ]
    );
}

#[test]
fn char_map_us_basic_letters() {
    let m = char_map("us");
    assert_eq!(m.get(&'a'), Some(&(30, false)));
    assert_eq!(m.get(&'A'), Some(&(30, true)));
    assert_eq!(m.get(&'h'), Some(&(35, false)));
}

#[test]
fn char_map_ru_letters() {
    let m = char_map("ru");
    // р is on US 'h' (kc 35), у is on US 'e' (kc 18), д is on US 'l' (kc 38).
    assert_eq!(m.get(&'р'), Some(&(35, false)));
    assert_eq!(m.get(&'у'), Some(&(18, false)));
    assert_eq!(m.get(&'д'), Some(&(38, false)));
}

/// Round-trip: take "руддщ", reverse-map under RU, decode positions through
/// US: should yield "hello". Same physical keys, swapped layout.
#[test]
fn round_trip_ru_to_us() {
    let m = char_map("ru");
    let entries: Vec<(u32, bool)> = "руддщ".chars().map(|c| *m.get(&c).unwrap()).collect();
    assert_eq!(decode(&us_ru(), "us", &entries), "hello");
}

#[test]
fn decoding_joins_runs() {
    let s = us_ru();
    let a = vec![(34, true), (35, false)];
    let b = vec![(48, true), (32, true)];
    let ab: Vec<(u32, bool)> = a.iter().chain(b.iter()).copied().collect();
    assert_eq!(decode(&s, "ru", &a), "Пр");
    assert_eq!(decode(&s, "ru", &b), "ИВ");
    assert_eq!(decode(&s, "ru", &ab), "ПрИВ");
}

#[test]
fn decoding_undoes_the_reverse_mapping() {
    let s = us_ru();
    for (layout, text, kept) in [
        ("us", "Hello, World! я", "Hello, World! "),
        ("ru", "Привет, Мир? abc", "Привет, Мир? "),
    ] {
        let entries = text_to_entries(text, &char_map(layout));
        let positions: Vec<(u32, bool)> = entries.iter().map(|e| (e.keycode, e.shift)).collect();
        assert_eq!(decode(&s, layout, &positions), kept);
    }
}

#[test]
fn the_unshifted_key_wins_and_control_characters_have_none() {
    let m = char_map("us");
    // Space is the same with and without shift.
    assert_eq!(m.get(&' '), Some(&(57, false)));
    assert_eq!(m.get(&'\t'), None);
    assert_eq!(m.get(&'\r'), None);
    assert_eq!(m.get(&'ф'), None);
    assert_eq!(char_map_probes().len(), 166);
    assert_eq!(char_map_probes()[0], (1, false));
    assert_eq!(char_map_probes()[82], (83, false));
    assert_eq!(char_map_probes()[83], (1, true));
    assert_eq!(char_map_probes()[165], (83, true));
}

#[test]
fn probe_masks() {
    assert_eq!(probe_mask(0, true, 1), LayoutMask { depressed_mods: 1, locked_layout: 1 });
    assert_eq!(probe_mask(3, true, 0), LayoutMask { depressed_mods: 8, locked_layout: 0 });
    assert_eq!(probe_mask(3, false, 2), LayoutMask { depressed_mods: 0, locked_layout: 2 });
}

#[test]
fn a_layout_with_its_variant() {
    let parts = |s: &str| parse_layout(s);
    assert_eq!(parts("us(intl),ru"), ("us".to_string(), "intl".to_string()));
    assert_eq!(parts(" us ,ru"), ("us".to_string(), String::new()));
    assert_eq!(parts("us(intl"), ("us(intl".to_string(), String::new()));
    assert_eq!(parts("us()"), ("us".to_string(), String::new()));
    assert_eq!(parts(""), (String::new(), String::new()));
    assert_eq!(parts("("), ("(".to_string(), String::new()));
}

// ---------------------------------------------------------------------------
// Selections
// ---------------------------------------------------------------------------

fn layouts() -> Vec<String> {
    vec!["us".to_string(), "ru".to_string()]
}

#[test]
fn detects_ru_from_cyrillic() {
    assert_eq!(detect_source_layout("привет", &layouts()), Some(1));
}

#[test]
fn detects_us_from_latin() {
    assert_eq!(detect_source_layout("hello world", &layouts()), Some(0));
}

#[test]
fn ambiguous_returns_none() {
    assert_eq!(detect_source_layout("123 !!!", &layouts()), None);
    assert_eq!(detect_source_layout("", &layouts()), None);
    // Equal counts: abstain.
    assert_eq!(detect_source_layout("ab фы", &layouts()), None);
}

#[test]
fn mixed_picks_dominant_script() {
    assert_eq!(detect_source_layout("hello мир привет", &layouts()), Some(1));
    assert_eq!(detect_source_layout("hello world мир", &layouts()), Some(0));
}

#[test]
fn missing_target_layout_returns_none() {
    let only_us = vec!["us".to_string()];
    assert_eq!(detect_source_layout("привет", &only_us), None);
}

#[test]
fn text_to_entries_round_trips_via_us_decode() {
    // Source "руддщ" under RU → keycodes that, under US, type "hello".
    let entries = text_to_entries("руддщ", &char_map("ru"));
    assert_eq!(entries.len(), 5);
    let positions: Vec<(u32, bool)> = entries.iter().map(|e| (e.keycode, e.shift)).collect();
    assert_eq!(decode(&us_ru(), "us", &positions), "hello");
}

#[test]
fn unmappable_chars_dropped() {
    // Cyrillic char in *US* source layout has no keycode: should be skipped.
    let entries = text_to_entries("hi я", &char_map("us"));
    assert!(entries.iter().any(|e| e.ch == 'h'));
    assert!(entries.iter().any(|e| e.ch == 'i'));
    assert!(!entries.iter().any(|e| e.ch == 'я'));
    let kept: String = entries.iter().map(|e| e.ch).collect();
    assert_eq!(kept, "hi ");
}

#[test]
fn selections_are_decoded_and_stripped() {
    assert_eq!(read_primary_selection(true, "привет\n\n".as_bytes()), "привет");
    assert_eq!(read_primary_selection(true, b"a\xffb"), "a\u{fffd}b");
    assert_eq!(read_primary_selection(false, b"ignored"), "");
    assert_eq!(read_primary_selection(true, b""), "");
    assert_eq!(strip_newlines("a\nb\r\n"), "a\nb\r");
}

#[test]
fn swap_directions() {
    let xkb = us_ru();
    assert_eq!(plan_swap("ghbdtn", &xkb), Some((0, 1)));
    assert_eq!(plan_swap("руддщ", &xkb), Some((1, 0)));
    assert_eq!(plan_swap("", &xkb), None);
    assert_eq!(plan_swap("123", &xkb), None);
    let one = XkbState::new("us", "", true).unwrap();
    assert_eq!(plan_swap("ghbdtn", &one), None);
    let reversed = XkbState::new("de,ru,us", "", true).unwrap();
    assert_eq!(plan_swap("hello", &reversed), Some((2, 0)));
}

#[test]
fn the_selection_is_deleted_once_and_retyped() {
    let entries = text_to_entries("ghbdtn", &char_map("us"));
    let script = swap_selection(&entries, 1).unwrap();
    assert_eq!(script.fault, None);
    assert_eq!(script.steps[0], Step::SwitchLayout(1));
    assert_eq!(script.steps[1], Step::Pause(40000));
    assert_eq!(script.steps[2], Step::Emit(KeyChange { code: 14, value: 1 }));
    assert_eq!(script.steps[6], Step::Pause(20000));
    assert!(swap_selection(&Vec::new(), 1).is_none());
    // On the screen the selection goes with the one backspace.
    let mut screen = Screen { text: "xS".to_string(), layout: 0, shift: false };
    screen.run(&script);
    assert_eq!(screen.text, "xпривет");
    assert_eq!(screen.layout, 1);
}

// ---------------------------------------------------------------------------
// The service
// ---------------------------------------------------------------------------

#[test]
fn boundary_keycodes() {
    assert!(is_boundary_keycode(57)); // space
    assert!(is_boundary_keycode(28)); // enter
    assert!(is_boundary_keycode(15)); // tab
    assert!(!is_boundary_keycode(30)); // a
    assert!(is_boundary_keycode(96)); // keypad enter
}

#[test]
fn punct_strings() {
    assert!(is_punct_char("."));
    assert!(is_punct_char(","));
    assert!(!is_punct_char("a"));
    for s in [";", ":", "!", "?", "'", "\""] {
        assert!(is_punct_char(s));
    }
    assert!(!is_punct_char(""));
    assert!(!is_punct_char(".."));
    assert!(!is_punct_char("/"));
}

#[test]
fn punct_keycodes_cover_ru_letter_positions() {
    assert!(is_punct_keycode(39)); // ; / ж
    assert!(is_punct_keycode(40)); // ' / э
    assert!(is_punct_keycode(51)); // , / б
    assert!(is_punct_keycode(52)); // . / ю
    // Letter keys must not be treated as punct positions.
    assert!(!is_punct_keycode(30)); // KEY_A
    assert!(!is_punct_keycode(57)); // KEY_SPACE: handled as boundary keycode separately
    // KEY_SLASH outputs real punct in both layouts.
    assert!(!is_punct_keycode(53));
}

#[test]
fn layout_index_matches_us() {
    let xkb = us_ru();
    assert_eq!(layout_index(&xkb, "English (US)"), Some(0));
    assert_eq!(layout_index(&xkb, "Russian"), Some(1));
}

#[test]
fn layout_index_does_not_substring_match() {
    let xkb = us_ru();
    assert_eq!(layout_index(&xkb, "Russian"), Some(1));
    assert_eq!(layout_index(&xkb, "Belarusian"), None);
    assert_eq!(layout_index(&xkb, "Russian (phonetic)"), None);
}

#[test]
fn layout_index_unknown_returns_none() {
    let xkb = us_ru();
    assert_eq!(layout_index(&xkb, "German"), None);
}

#[test]
fn layout_index_handles_reversed_order() {
    let xkb = XkbState::new("ru,us", ",", true).unwrap();
    assert_eq!(layout_index(&xkb, "Russian"), Some(0));
    assert_eq!(layout_index(&xkb, "English (US)"), Some(1));
}

#[test]
fn layout_names_ignore_case_and_space() {
    let xkb = us_ru();
    assert_eq!(layout_index(&xkb, " english\n"), Some(0));
    assert_eq!(layout_index(&xkb, "RUSSIAN (ru)"), Some(1));
    let one = XkbState::new("us", "", true).unwrap();
    assert_eq!(layout_index(&one, "Russian"), None);
}

#[test]
fn reported_layouts_win_unless_empty() {
    assert_eq!(choose_layouts(Some("us,ru"), "de"), "us,ru");
    assert_eq!(choose_layouts(Some(""), "de"), "de");
    assert_eq!(choose_layouts(None, "de"), "de");
}

/// What the focused client shows, and the layout it reads keys in.
struct Screen {
    text: String,
    layout: u32,
    shift: bool,
}

impl Screen {
    fn layout_name(&self) -> &'static str {
        if self.layout == 1 {
            "ru"
        } else {
            "us"
        }
    }

    fn key(&mut self, k: &KeyChange) {
        if k.code == 42 {
            self.shift = k.value != 0;
        } else if k.value != 0 && k.code != 54 {
            if k.code == 14 {
                self.text.pop();
            } else {
                let typed = key_text(self.layout_name(), k.code as u32, self.shift);
                self.text.push_str(&typed);
            }
        }
    }

    fn run(&mut self, script: &Script) {
        for s in &script.steps {
            match s {
                Step::Emit(k) => self.key(k),
                Step::EmitBoth(a, b) => {
                    self.key(a);
                    self.key(b);
                }
                Step::Pause(_) => {}
                Step::SwitchLayout(idx) => self.layout = *idx,
            }
        }
    }
}

const MS: u64 = 1_000_000;

/// A user at a keyboard, with the service between.
struct Desk {
    service: Service,
    screen: Screen,
    now: u64,
    conversions: usize,
    fail: bool,
}

fn words(list: &[&str]) -> Vec<String> {
    list.iter().map(|w| w.to_string()).collect()
}

fn build(layouts: &str, en: &[&str], ru: &[&str]) -> Service {
    let mut cfg = Config::defaults("ru.txt".to_string());
    cfg.dictionaries.extra_words = words(&["Tmux"]);
    Service::build(
        cfg,
        layouts.to_string(),
        ",".to_string(),
        true,
        Some(&words(en)),
        Some(&words(ru)),
    )
    .unwrap()
}

fn desk() -> Desk {
    desk_with("us,ru")
}

fn desk_with(layouts: &str) -> Desk {
    Desk {
        service: build(
            layouts,
            &["hello", "the", "github", "NS"],
            &["привет", "ты", "люблю", "лю", "дом"],
        ),
        screen: Screen { text: String::new(), layout: 0, shift: false },
        now: 1000 * MS,
        conversions: 0,
        fail: false,
    }
}

fn weight(score: &[Option<u32>]) -> f32 {
    let sum: f32 = score
        .iter()
        .map(|f| match f {
            Some(h) => (*h as f32 / 100.0).ln(),
            None => -4.6,
        })
        .sum();
    sum / score.len() as f32
}

impl Desk {
    fn event(&mut self, kc: u32, kind: KeyKind) -> KeyAction {
        let ev = KeyEvent {
            kind,
            keycode: kc,
            timestamp: 0,
            device: DeviceId("kbd".to_string()),
        };
        let layout = self.screen.layout_name();
        let held = self.screen.shift;
        let text = if kind == KeyKind::Release { String::new() } else { key_text(layout, kc, held) };
        if kind == KeyKind::Press {
            self.screen.key(&KeyChange { code: kc as u16, value: 1 });
        } else if kind == KeyKind::Release {
            self.screen.key(&KeyChange { code: kc as u16, value: 0 });
        }
        let now = self.now;
        self.service.handle_key(&ev, now, text, key_sym(kc))
    }

    fn follow(&mut self, action: KeyAction) {
        let next = match action {
            KeyAction::TryPunct { entry, layout, positions } => {
                let name = self.service.xkb.layout_name(layout).to_string();
                let swapped = decode(&self.service.xkb, &name, &positions);
                self.service.finish_punct(entry, Some(&swapped))
            }
            other => other,
        };
        if let KeyAction::Evaluate { boundary_kc, layout, positions } = next {
            let name = self.service.xkb.layout_name(layout).to_string();
            let swapped = decode(&self.service.xkb, &name, &positions);
            let outweighs = match self.service.word_scores(&swapped) {
                Some((a, b)) => weight(&b) - weight(&a) > 1.0,
                None => false,
            };
            let now = self.now;
            let verdict = self.service.auto_evaluate(boundary_kc, Some(&swapped), outweighs, now);
            if let Some(c) = verdict.unwrap() {
                assert!(self.service.state.replaying);
                assert_eq!(c.script.fault, None);
                if self.fail {
                    assert_eq!(self.service.finish_replay(c.target, false), None);
                    return;
                }
                self.screen.run(&c.script);
                self.conversions += 1;
                let mask = self.service.finish_replay(c.target, true).unwrap();
                assert_eq!(mask.locked_layout, self.screen.layout);
            }
        }
        assert!(!self.service.state.replaying);
    }

    fn tap(&mut self, kc: u32) {
        let action = self.event(kc, KeyKind::Press);
        self.follow(action);
        let up = self.event(kc, KeyKind::Release);
        assert!(matches!(up, KeyAction::Done));
        self.now += 100 * MS;
    }

    /// Types the keys that say `text` on a US keyboard.
    fn type_us(&mut self, text: &str) {
        let map = char_map("us");
        for ch in text.chars() {
            let (kc, shift) = *map.get(&ch).unwrap();
            if shift {
                self.event(42, KeyKind::Press);
            }
            self.tap(kc);
            if shift {
                self.event(42, KeyKind::Release);
            }
        }
    }

    fn buffer(&self) -> String {
        self.service.state.buffer.text()
    }

    fn message(&mut self, msg: CoreMsg) -> MsgAction {
        self.service.handle_msg(msg)
    }
}

#[test]
fn a_word_in_the_wrong_layout_is_retyped() {
    let mut d = desk();
    d.type_us("ghbdtn");
    assert_eq!(d.buffer(), "ghbdtn");
    d.type_us(" ");
    assert_eq!(d.screen.text, "привет ");
    assert_eq!(d.screen.layout, 1);
    assert_eq!(d.service.xkb.active_index(), 1);
    assert_eq!(d.service.state.layout_idx, 1);
    assert_eq!(d.buffer(), "");
    // And back again.
    d.type_us("hello ");
    assert_eq!(d.screen.text, "привет hello ");
    assert_eq!(d.service.xkb.active_index(), 0);
    assert_eq!(d.conversions, 2);
}

#[test]
fn capitals_survive_the_conversion() {
    let mut d = desk();
    d.type_us("Ghbdtn ");
    assert_eq!(d.screen.text, "Привет ");
    assert!(!d.screen.shift);
}

#[test]
fn correct_words_stay() {
    let mut d = desk();
    d.type_us("hello the tmux ");
    assert_eq!(d.screen.text, "hello the tmux ");
    assert_eq!(d.conversions, 0);
    assert_eq!(d.buffer(), "");
}

#[test]
fn a_short_word_in_front_is_converted_along() {
    let mut d = desk();
    d.type_us("d ");
    assert_eq!(d.screen.text, "d ");
    assert_eq!(d.service.state.prev_tokens.len(), 1);
    d.type_us("ghbdtn ");
    assert_eq!(d.screen.text, "в привет ");
    assert!(d.service.state.prev_tokens.is_empty());
}

#[test]
fn a_chain_of_short_words_is_converted_along() {
    let mut d = desk();
    d.type_us("f d e ghbdtn ");
    assert_eq!(d.screen.text, "а в у привет ");
    // A fourth one is out of reach.
    let mut d = desk();
    d.type_us("b f d e ghbdtn ");
    assert_eq!(d.screen.text, "b а в у привет ");
}

#[test]
fn a_stale_short_word_is_left_alone() {
    let mut d = desk();
    d.type_us("d ");
    d.now += 1500 * MS;
    d.type_us("ghbdtn ");
    assert_eq!(d.screen.text, "d привет ");
}

#[test]
fn a_short_word_of_another_layout_is_left_alone() {
    let mut d = desk();
    d.type_us("d ");
    d.message(CoreMsg::Hypr(HyprEvent::ActiveLayout {
        keyboard: "kbd".to_string(),
        layout_name: "Russian".to_string(),
    }));
    d.screen.layout = 1;
    d.type_us("hello ");
    assert_eq!(d.screen.text, "d hello ");
}

#[test]
fn a_known_word_breaks_the_chain() {
    let mut d = desk();
    d.type_us("d hello ");
    assert!(d.service.state.prev_tokens.is_empty());
    d.type_us("ghbdtn ");
    assert_eq!(d.screen.text, "d hello привет ");
}

#[test]
fn a_long_unknown_word_breaks_the_chain() {
    let mut d = desk();
    d.type_us("d abc");
    d.type_us(" ghbdtn ");
    assert_eq!(d.screen.text, "d abc привет ");
}

#[test]
fn an_acronym_yields_to_a_natural_word() {
    let mut d = desk();
    d.type_us("ns ");
    assert_eq!(d.screen.text, "ты ");
}

#[test]
fn the_letter_statistics_decide_on_unknown_words() {
    let mut d = desk();
    d.type_us("ltgkjq ");
    assert_eq!(d.screen.text, "деплой ");
}

#[test]
fn a_pause_drops_the_word() {
    let mut d = desk();
    d.type_us("gh");
    d.now += 800 * MS;
    d.type_us("bdtn ");
    assert_eq!(d.screen.text, "ghbdtn ");
    assert_eq!(d.conversions, 0);
    // A shorter one does not.
    let mut d = desk();
    d.type_us("gh");
    d.now += 700 * MS;
    d.type_us("bdtn ");
    assert_eq!(d.screen.text, "привет ");
}

#[test]
fn backspace_takes_a_letter_back() {
    let mut d = desk();
    d.type_us("ghx");
    d.tap(14);
    assert_eq!(d.buffer(), "gh");
    d.type_us("bdtn ");
    assert_eq!(d.screen.text, "привет ");
    d.tap(14);
    assert_eq!(d.buffer(), "");
}

#[test]
fn hotkeys_flush_the_word() {
    let mut d = desk();
    d.type_us("d gh");
    d.event(29, KeyKind::Press);
    assert_eq!(d.buffer(), "gh");
    let action = d.event(46, KeyKind::Press);
    assert!(matches!(action, KeyAction::Done));
    assert_eq!(d.buffer(), "");
    assert!(d.service.state.prev_tokens.is_empty());
    d.event(46, KeyKind::Release);
    d.event(29, KeyKind::Release);
    d.type_us("x");
    assert_eq!(d.buffer(), "x");
}

#[test]
fn navigation_flushes_the_word() {
    let mut d = desk();
    d.type_us("d gh");
    d.event(105, KeyKind::Press);
    assert_eq!(d.buffer(), "");
    assert!(d.service.state.prev_tokens.is_empty());
    d.type_us("gh");
    d.event(1, KeyKind::Press);
    assert_eq!(d.buffer(), "");
}

#[test]
fn repeats_and_releases_type_nothing() {
    let mut d = desk();
    d.type_us("g");
    let seq = d.service.state.seq;
    d.event(34, KeyKind::Repeat);
    d.event(34, KeyKind::Release);
    assert_eq!(d.buffer(), "g");
    assert_eq!(d.service.state.seq, seq);
}

#[test]
fn a_repeating_modifier_stays_held() {
    // Ctrl, Alt, Super and Shift, left and right.
    for kc in [29, 97, 56, 100, 125, 126, 42, 54] {
        let mut d = desk();
        d.type_us("d g");
        d.event(kc, KeyKind::Press);
        let held = d.service.state.mods;
        let seq = d.service.state.seq;
        for _ in 0..3 {
            assert!(matches!(d.event(kc, KeyKind::Repeat), KeyAction::Done));
        }
        assert_eq!(d.service.state.mods, held);
        assert_eq!(d.service.state.mods.any_command_modifier(), kc != 42 && kc != 54);
        assert_eq!(d.service.state.seq, seq);
        assert_eq!(d.buffer(), "g");
        assert_eq!(d.service.state.prev_tokens.len(), 1);
        d.event(kc, KeyKind::Release);
        assert!(!d.service.state.mods.any_command_modifier());
        assert!(!d.service.state.mods.shift());
    }
}

#[test]
fn a_hotkey_after_a_repeating_modifier_is_a_hotkey() {
    let mut d = desk();
    d.event(56, KeyKind::Press);
    d.event(56, KeyKind::Repeat);
    let action = d.event(30, KeyKind::Press);
    assert!(matches!(action, KeyAction::Done));
    assert_eq!(d.buffer(), "");
    assert!(matches!(d.message(CoreMsg::SwapSelection), MsgAction::SwapSelection { wait: true }));
    // A repeat of a key that is not held makes no modifier either.
    let mut d = desk();
    d.event(29, KeyKind::Repeat);
    assert!(!d.service.state.mods.any_command_modifier());
}

#[test]
fn a_repeating_shift_keeps_capitals() {
    let mut d = desk();
    d.event(42, KeyKind::Press);
    d.event(42, KeyKind::Repeat);
    d.tap(34);
    d.event(42, KeyKind::Release);
    assert_eq!(d.buffer(), "G");
    assert!(d.service.state.buffer.entries[0].shift);
}

#[test]
fn presses_are_counted_and_wrap() {
    let mut d = desk();
    d.service.state.seq = u64::MAX;
    d.type_us("g");
    assert_eq!(d.service.state.seq, 0);
}

#[test]
fn punctuation_that_finishes_a_russian_word_is_kept() {
    // "k.,k." are the keys of "люблю"; "k." alone is a word of the list, and
    // the last key completes the whole.
    let mut d = desk();
    d.type_us("k.");
    assert_eq!(d.buffer(), "k.");
    d.type_us(" ");
    assert_eq!(d.screen.text, "лю ");
}

#[test]
fn real_punctuation_ends_a_word() {
    let mut d = desk();
    d.type_us("ghbdtn,");
    // The comma is retyped as the same key: a letter in the other layout.
    assert_eq!(d.screen.text, "приветб");
    let mut d = desk();
    d.type_us("hello.");
    assert_eq!(d.screen.text, "hello.");
    assert_eq!(d.buffer(), "");
}

#[test]
fn a_letter_on_a_punctuation_key_is_kept_in_a_word() {
    let mut d = desk();
    d.service.finish_replay(1, true);
    d.screen.layout = 1;
    // "лю" is a word: «ю» stands on the dot key.
    d.type_us("k.");
    assert_eq!(d.buffer(), "лю");
    // "пшерги" are the keys of "github"; the dot key ends the word there.
    let mut d = desk();
    d.service.finish_replay(1, true);
    d.screen.layout = 1;
    d.type_us("github.");
    assert_eq!(d.screen.text, "github.");
}

#[test]
fn one_layout_converts_nothing() {
    let mut d = desk_with("us");
    d.type_us("ghbdtn ");
    assert_eq!(d.screen.text, "ghbdtn ");
    assert_eq!(d.buffer(), "");
    d.type_us("ghbdtn");
    assert!(d.service.auto_evaluate(57, None, true, 0).unwrap().is_none());
    assert_eq!(d.buffer(), "");
}

#[test]
fn other_layouts_have_no_words() {
    let s = build("us,de", &["hello"], &["привет"]);
    assert!(s.dict_for_layout(0).lookup("hello"));
    assert!(s.dict_for_layout(1).is_empty());
    assert!(s.dict_for_layout(7).is_empty());
    let s = build("us,ru", &["hello"], &["привет"]);
    assert!(s.dict_for_layout(1).lookup("привет"));
    assert!(s.dict_for_layout(1).lookup("tmux"));
    assert!(!s.dict_for_layout(1).lookup("hello"));
}

#[test]
fn a_failed_replay_changes_no_layout() {
    let mut d = desk();
    d.fail = true;
    d.type_us("ghbdtn");
    let action = d.event(57, KeyKind::Press);
    d.follow(action);
    assert_eq!(d.service.xkb.active_index(), 0);
    assert!(!d.service.state.replaying);
    assert_eq!(d.buffer(), "ghbdtn");
}

#[test]
fn a_keymap_failure_leaves_the_word() {
    let mut d = desk();
    d.type_us("ghbdtn");
    match d.service.auto_evaluate(57, None, false, 0) {
        Err(Error::XkbCompile { layout, variant }) => {
            assert_eq!(layout, "us,ru");
            assert_eq!(variant, ",");
        }
        other => panic!("{other:?}"),
    }
    assert_eq!(d.buffer(), "ghbdtn");
    // A punctuation key that cannot be decoded is real punctuation.
    let entry = WordEntry { ch: '.', keycode: 52, shift: false };
    assert!(matches!(
        d.service.finish_punct(entry, None),
        KeyAction::Evaluate { boundary_kc: 52, layout: 1, .. }
    ));
}

#[test]
fn a_keycode_that_no_event_can_hold_is_a_fault() {
    let mut s = build("us,ru", &["the"], &["привет"]);
    for (ch, kc) in [('g', 34), ('h', 70000)] {
        s.state.buffer.push(WordEntry { ch, keycode: kc, shift: false });
    }
    let c = s.auto_evaluate(57, Some("привет"), false, 0).unwrap().unwrap();
    assert_eq!(c.script.fault, Some(Fault::Keycode(70000)));
    s.state.buffer.clear();
    s.state.buffer.push(WordEntry { ch: 'g', keycode: 34, shift: false });
    s.state.buffer.push(WordEntry { ch: 'h', keycode: 35, shift: false });
    let c = s.auto_replay(70001, 0);
    assert_eq!(c.script.fault, Some(Fault::Boundary(70001)));
}

#[test]
fn a_keymap_that_does_not_compile_stops_the_service() {
    let cfg = Config::defaults("ru.txt".to_string());
    match Service::build(cfg, "xx".to_string(), "".to_string(), false, None, None) {
        Err(Error::XkbCompile { layout, .. }) => assert_eq!(layout, "xx"),
        _ => panic!("built"),
    }
}

#[test]
fn layout_events_are_followed() {
    let mut d = desk();
    let named = |name: &str| {
        CoreMsg::Hypr(HyprEvent::ActiveLayout {
            keyboard: "kbd".to_string(),
            layout_name: name.to_string(),
        })
    };
    match d.message(named("Russian")) {
        MsgAction::LockLayout(mask) => assert_eq!(mask.locked_layout, 1),
        other => panic!("{other:?}"),
    }
    assert_eq!(d.service.xkb.active_index(), 1);
    assert_eq!(d.service.state.layout_idx, 1);
    assert!(matches!(d.message(named("German")), MsgAction::Done));
    assert_eq!(d.service.xkb.active_index(), 1);
}

#[test]
fn a_focus_change_flushes_the_word() {
    let mut d = desk();
    d.type_us("d gh");
    assert!(matches!(d.message(CoreMsg::Hypr(HyprEvent::ActiveWindow)), MsgAction::Done));
    assert_eq!(d.buffer(), "");
    assert!(d.service.state.prev_tokens.is_empty());
}

#[test]
fn keys_are_handed_back_to_be_decoded() {
    let mut d = desk();
    let ev = KeyEvent {
        kind: KeyKind::Press,
        keycode: 30,
        timestamp: 5,
        device: DeviceId("kbd".to_string()),
    };
    match d.message(CoreMsg::Key(ev)) {
        MsgAction::DecodeKey(ev) => assert_eq!((ev.keycode, ev.timestamp), (30, 5)),
        other => panic!("{other:?}"),
    }
    assert_eq!(d.buffer(), "");
}

#[test]
fn a_swap_waits_for_the_modifiers() {
    let mut d = desk();
    d.type_us("d gh");
    assert!(matches!(d.message(CoreMsg::SwapSelection), MsgAction::SwapSelection { wait: false }));
    assert_eq!(d.buffer(), "");
    assert!(d.service.state.prev_tokens.is_empty());

    let key = |kc: u32, kind: KeyKind| {
        Polled::Message(CoreMsg::Key(KeyEvent {
            kind,
            keycode: kc,
            timestamp: 0,
            device: DeviceId("kbd".to_string()),
        }))
    };
    d.event(125, KeyKind::Press);
    assert!(matches!(d.message(CoreMsg::SwapSelection), MsgAction::SwapSelection { wait: true }));
    let started = d.now;
    let mut wait = |polled: Polled, after_ms: u64| {
        d.service.wait_for_modifier_release(polled, started, started + after_ms * MS, MODIFIER_WAIT_MS)
    };
    assert!(!wait(Polled::Empty, 5).over);
    assert!(!wait(key(125, KeyKind::Repeat), 6).over);
    assert!(!wait(key(30, KeyKind::Press), 7).over);
    assert!(!wait(Polled::Message(CoreMsg::SwapSelection), 8).over);
    let step = wait(
        Polled::Message(CoreMsg::Hypr(HyprEvent::ActiveLayout {
            keyboard: "kbd".to_string(),
            layout_name: "Russian".to_string(),
        })),
        9,
    );
    assert!(!step.over);
    assert_eq!(step.lock, Some(LayoutMask { depressed_mods: 0, locked_layout: 1 }));
    assert!(!wait(Polled::Empty, 399).over);
    assert!(wait(Polled::Empty, 400).over);
    assert!(wait(Polled::Closed, 10).over);
    assert!(wait(key(125, KeyKind::Release), 11).over);
    assert_eq!(d.service.xkb.active_index(), 1);
}

#[test]
fn a_swap_follows_the_selection() {
    let mut d = desk();
    d.service.swap_selection();
    d.service.start_swap();
    assert!(d.service.state.replaying);
    assert_eq!(d.service.finish_swap(SwapEnd::Failed), None);
    assert!(!d.service.state.replaying);
    assert_eq!(d.service.xkb.active_index(), 0);
    d.service.start_swap();
    assert_eq!(d.service.finish_swap(SwapEnd::Idle), None);
    assert_eq!(d.service.state.layout_idx, 0);
    d.service.start_swap();
    let mask = d.service.finish_swap(SwapEnd::Swapped(1)).unwrap();
    assert_eq!(mask.locked_layout, 1);
    assert_eq!(d.service.state.layout_idx, 1);
    assert_eq!(d.service.xkb.active_index(), 1);
}
