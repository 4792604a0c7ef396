use swtchr::engine::state::{copy_entries, positions_of, text_of, MAX_PREV_TOKENS};
use swtchr::engine::{CoreState, ModState, PrevToken, WordBuffer, WordEntry};
use swtchr::input::{DeviceId, KeyEvent, KeyKind};

fn entry(ch: char, keycode: u32, shift: bool) -> WordEntry {
    WordEntry { ch, keycode, shift }
}

#[test]
fn modstate_tracks_shift() {
    let mut m = ModState::default();
    assert!(!m.shift());
    assert!(m.update(ModState::KEY_LEFTSHIFT, true));
    assert!(m.shift());
    assert!(m.update(ModState::KEY_LEFTSHIFT, false));
    assert!(!m.shift());
}

#[test]
fn modstate_ignores_letters() {
    let mut m = ModState::default();
    assert!(!m.update(30, true)); // KEY_A
    assert!(!m.shift());
}

#[test]
fn each_modifier_has_its_own_slot() {
    let keys = [
        ModState::KEY_LEFTSHIFT,
        ModState::KEY_RIGHTSHIFT,
        ModState::KEY_LEFTCTRL,
        ModState::KEY_RIGHTCTRL,
        ModState::KEY_LEFTALT,
        ModState::KEY_RIGHTALT,
        ModState::KEY_LEFTMETA,
        ModState::KEY_RIGHTMETA,
    ];
    for (i, kc) in keys.iter().enumerate() {
        let mut m = ModState::default();
        assert!(m.update(*kc, true));
        assert_eq!(m.shift(), i < 2);
        assert_eq!(m.ctrl(), i == 2 || i == 3);
        assert_eq!(m.alt(), i == 4 || i == 5);
        assert_eq!(m.meta(), i >= 6);
        assert_eq!(m.any_command_modifier(), i >= 2);
        assert!(m.update(*kc, false));
        assert_eq!(m, ModState::default());
    }
}

#[test]
fn letting_go_of_one_shift_keeps_the_other() {
    let mut m = ModState::default();
    m.update(ModState::KEY_LEFTSHIFT, true);
    m.update(ModState::KEY_RIGHTSHIFT, true);
    m.update(ModState::KEY_LEFTSHIFT, false);
    assert!(m.shift());
}

#[test]
fn buffer_pushes_pops_and_clears() {
    let mut b = WordBuffer::default();
    assert!(b.is_empty());
    assert_eq!(b.pop(), None);
    b.push(entry('H', 35, true));
    b.push(entry('i', 23, false));
    assert_eq!(b.len(), 2);
    assert_eq!(b.text(), "Hi");
    assert_eq!(positions_of(&b.entries), vec![(35, true), (23, false)]);
    assert_eq!(text_of(&b.entries), "Hi");
    assert_eq!(copy_entries(&b.entries), b.entries);
    assert_eq!(b.pop(), Some(entry('i', 23, false)));
    assert_eq!(b.text(), "H");
    b.clear();
    assert!(b.is_empty());
    assert_eq!(b.text(), "");
}

#[test]
fn a_new_state_is_blank() {
    let s = CoreState::new();
    assert!(s.buffer.is_empty());
    assert_eq!(s.layout_idx, 0);
    assert_eq!(s.last_event_at, None);
    assert!(!s.replaying);
    assert_eq!(s.seq, 0);
    assert!(s.prev_tokens.is_empty());
}

#[test]
fn the_oldest_token_leaves_a_full_queue() {
    let mut s = CoreState::new();
    for kc in 0..5u32 {
        s.push_prev_token(PrevToken {
            entries: vec![entry('d', 32, false)],
            boundary_kc: kc,
            finished_at: 7,
            layout_idx_when_typed: 0,
        });
        assert!(s.prev_tokens.len() <= MAX_PREV_TOKENS);
    }
    let left: Vec<u32> = s.prev_tokens.iter().map(|t| t.boundary_kc).collect();
    assert_eq!(left, vec![2, 3, 4]);
    s.buffer.push(entry('d', 32, false));
    s.clear_tokens();
    assert!(s.prev_tokens.is_empty());
    assert_eq!(s.buffer.len(), 1);
    s.clear_word();
    assert!(s.buffer.is_empty());
}

#[test]
fn since_is_never_negative() {
    let at = |timestamp: u128| KeyEvent {
        kind: KeyKind::Press,
        keycode: 30,
        timestamp,
        device: DeviceId("kbd".to_string()),
    };
    assert_eq!(at(2_500_000_000).since(&at(1_000_000_000)), 1_500_000_000);
    assert_eq!(at(1_000_000_000).since(&at(2_500_000_000)), 0);
}
