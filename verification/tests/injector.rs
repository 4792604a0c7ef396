use swtchr::engine::WordEntry;
use swtchr::error::Error;
use swtchr::input::injector::{
    injector_keys, Fault, KeyChange, Script, Step, INTER_EVENT_PAUSE_US,
};
use swtchr::input::reader::{
    enumerate_keyboards, injector_name, key_kind, looks_like_keyboard, FoundDevice, KeySupport,
};
use swtchr::input::KeyKind;

fn entry(keycode: u32, shift: bool) -> WordEntry {
    WordEntry { ch: 'x', keycode, shift }
}

fn emit(code: u16, value: i32) -> Step {
    Step::Emit(KeyChange { code, value })
}

fn pause() -> Step {
    Step::Pause(INTER_EVENT_PAUSE_US)
}

fn both_shifts_up() -> Step {
    Step::EmitBoth(KeyChange { code: 42, value: 0 }, KeyChange { code: 54, value: 0 })
}

#[test]
fn a_tap_has_two_frames() {
    let mut s = Script::new();
    s.press_release(57);
    assert_eq!(s.steps, vec![emit(57, 1), pause(), emit(57, 0), pause()]);
    assert_eq!(s.fault, None);
    assert_eq!(INTER_EVENT_PAUSE_US, 800);
}

#[test]
fn backspaces_tap_n_times() {
    let mut s = Script::new();
    s.backspaces(0);
    assert!(s.steps.is_empty());
    s.backspaces(3);
    assert_eq!(s.steps.len(), 12);
    assert_eq!(s.steps.iter().filter(|x| **x == emit(14, 1)).count(), 3);
    assert_eq!(s.steps.iter().filter(|x| **x == emit(14, 0)).count(), 3);
}

#[test]
fn replay_puts_shift_around_the_keys_that_need_it() {
    let mut s = Script::new();
    s.replay_entries(&vec![entry(35, true), entry(23, true), entry(30, false)]);
    assert_eq!(
        s.steps,
        vec![
            both_shifts_up(),
            pause(),
            emit(42, 1),
            emit(35, 1),
            pause(),
            emit(35, 0),
            pause(),
            emit(23, 1),
            pause(),
            emit(23, 0),
            pause(),
            emit(42, 0),
            emit(30, 1),
            pause(),
            emit(30, 0),
            pause(),
        ]
    );
}

#[test]
fn replay_lets_go_of_shift_at_the_end() {
    let mut s = Script::new();
    s.replay_entries(&vec![entry(35, true)]);
    assert_eq!(s.steps.last(), Some(&emit(42, 0)));
    let mut none = Script::new();
    none.replay_entries(&Vec::new());
    assert_eq!(none.steps, vec![both_shifts_up(), pause()]);
}

#[test]
fn a_fault_ends_the_script() {
    let mut s = Script::new();
    s.replay_entries(&vec![entry(30, false), entry(65536, false), entry(31, false)]);
    assert_eq!(s.fault, Some(Fault::Keycode(65536)));
    let before = s.steps.len();
    assert_eq!(before, 6);
    s.press_release(57);
    s.step(Step::SwitchLayout(1));
    s.press_release_checked(70000, Fault::Boundary(70000));
    assert_eq!(s.steps.len(), before);
    assert_eq!(s.fault, Some(Fault::Keycode(65536)));
}

#[test]
fn checked_taps() {
    let mut s = Script::new();
    s.press_release_checked(65535, Fault::Boundary(65535));
    assert_eq!(s.steps.len(), 4);
    assert_eq!(s.fault, None);
    s.press_release_checked(65536, Fault::PrevBoundary(65536));
    assert_eq!(s.fault, Some(Fault::PrevBoundary(65536)));
}

#[test]
fn fault_messages() {
    let text = |f: Fault| match f.to_error() {
        Error::Evdev(m) => m,
        other => panic!("{other:?}"),
    };
    assert_eq!(text(Fault::Keycode(65536)), "keycode 65536 out of range for uinput");
    assert_eq!(text(Fault::PrevBoundary(70000)), "prev boundary kc 70000 out of range");
    assert_eq!(text(Fault::Boundary(70001)), "boundary kc 70001 out of range");
}

#[test]
fn every_key_is_registered() {
    let keys = injector_keys();
    assert_eq!(keys.len(), 255);
    assert_eq!(keys[0], 1);
    assert_eq!(keys[254], 255);
}

fn keyboard(name: &str) -> FoundDevice {
    FoundDevice {
        name: name.to_string(),
        keys: Some(KeySupport { a: true, z: true, space: true }),
    }
}

#[test]
fn keyboards_need_letters_and_space() {
    assert!(looks_like_keyboard(Some(KeySupport { a: true, z: true, space: true })));
    assert!(!looks_like_keyboard(Some(KeySupport { a: false, z: true, space: true })));
    assert!(!looks_like_keyboard(Some(KeySupport { a: true, z: false, space: true })));
    assert!(!looks_like_keyboard(Some(KeySupport { a: true, z: true, space: false })));
    assert!(!looks_like_keyboard(None));
}

#[test]
fn the_injector_is_never_read() {
    let found = vec![
        keyboard("AT keyboard"),
        keyboard("swtchr-virtual"),
        FoundDevice { name: "mouse".to_string(), keys: None },
        keyboard("Noisy keyboard"),
        keyboard("USB keyboard"),
    ];
    assert_eq!(injector_name(), "swtchr-virtual");
    assert_eq!(enumerate_keyboards(&found, &vec!["Noisy keyboard".to_string()]).unwrap(), vec![0, 4]);
    assert_eq!(enumerate_keyboards(&found, &Vec::new()).unwrap(), vec![0, 3, 4]);
}

#[test]
fn no_keyboard_at_all_is_an_error() {
    let found = vec![keyboard("swtchr-virtual")];
    assert!(matches!(enumerate_keyboards(&found, &Vec::new()), Err(Error::NoKeyboards)));
    assert!(matches!(enumerate_keyboards(&Vec::new(), &Vec::new()), Err(Error::NoKeyboards)));
}

#[test]
fn event_values() {
    assert_eq!(key_kind(0), Some(KeyKind::Release));
    assert_eq!(key_kind(1), Some(KeyKind::Press));
    assert_eq!(key_kind(2), Some(KeyKind::Repeat));
    assert_eq!(key_kind(3), None);
    assert_eq!(key_kind(-1), None);
}
