use swtchr::engine::dict::{is_acronym, parse_dic_line, strip_bom};
use swtchr::engine::{Dict, HunspellDict};

fn lines(s: &str) -> Vec<String> {
    s.lines().map(|l| l.to_string()).collect()
}

#[test]
fn parses_minimal_dic() {
    let d = HunspellDict::load(&lines("3\nhello\nworld/MS\nrust\n"));
    assert!(d.lookup("hello"));
    assert!(d.lookup("Hello"));
    assert!(d.lookup("world"));
    assert!(d.lookup("rust"));
    assert!(!d.lookup("nope"));
    assert_eq!(d.len(), 3);
}

#[test]
fn handles_bom_and_blank_lines() {
    let d = HunspellDict::load(&lines("\u{FEFF}2\n\nфыва\nпривет/A\n"));
    assert!(d.lookup("привет"));
    assert!(d.lookup("Привет"));
    assert!(d.lookup("фыва"));
}

#[test]
fn ignores_comments_and_count_only_first_line() {
    let d = HunspellDict::load(&lines("100\n# a comment\nfoo\n42\nbar\n"));
    assert!(d.lookup("foo"));
    // Plain numbers further in are words; only the very first numeric line is
    // a count.
    assert!(d.lookup("42"));
    assert!(!d.lookup("100"));
    assert!(d.lookup("bar"));
}

#[test]
fn empty_dict_lookups_false() {
    let d = HunspellDict::empty();
    assert!(!d.lookup("anything"));
    assert!(d.is_empty());
    assert!(HunspellDict::default().is_empty());
}

#[test]
fn add_words_works() {
    let mut d = HunspellDict::empty();
    d.add_words(&["systemd", "Tmux"]);
    assert!(d.lookup("systemd"));
    assert!(d.lookup("tmux"));
}

#[test]
fn missing_file_returns_empty_via_or_warn() {
    let path = std::path::Path::new("/nonexistent/nope.dic");
    let found = if path.exists() { Some(lines("3\nhello\n")) } else { None };
    let d = HunspellDict::load_or_warn(found.as_ref());
    assert!(d.is_empty());
}

#[test]
fn a_readable_list_is_loaded_via_or_warn() {
    let d = HunspellDict::load_or_warn(Some(&lines("hello\n")));
    assert!(d.lookup("HELLO"));
    assert_eq!(d.len(), 1);
    assert!(!d.is_empty());
}

#[test]
fn first_word_survives_when_the_first_line_is_no_count() {
    let d = HunspellDict::load(&lines("hello\nworld\n"));
    assert!(d.lookup("hello"));
    // A signed count is a number too; one that does not fit is not.
    assert!(HunspellDict::load(&lines("+3\n")).is_empty());
    assert!(!HunspellDict::load(&lines("99999999999999999999999\n")).is_empty());
    assert!(!HunspellDict::load(&lines("-3\n")).is_empty());
}

#[test]
fn acronyms_are_known_but_not_natural() {
    let d = HunspellDict::load(&lines("the\nNS\nVS\nvs\nМЫ\n"));
    assert!(d.lookup("ns"));
    assert!(!d.lookup_natural("ns"));
    // Spelled both ways, it is a natural word.
    assert!(d.lookup_natural("vs"));
    assert!(d.lookup_natural("The"));
    // Only ASCII capitals make an acronym.
    assert!(d.lookup_natural("мы"));
    assert_eq!(d.len(), 4);
}

#[test]
fn added_words_are_natural_however_they_are_spelled() {
    let mut d = HunspellDict::load(&lines("NS\n"));
    d.add_words(&["NS", "AI"]);
    assert!(d.lookup_natural("ns"));
    assert!(d.lookup_natural("ai"));
    assert_eq!(d.len(), 2);
}

#[test]
fn every_ascii_spelling_is_found() {
    let d = HunspellDict::load(&lines("it's-OK_2\n"));
    assert!(d.lookup("IT'S-ok_2"));
    assert!(d.lookup_natural("it's-ok_2"));
    assert!(!d.lookup("its-ok_2"));
}

#[test]
fn acronym_spelling() {
    assert!(is_acronym("NS"));
    assert!(!is_acronym("Ns"));
    assert!(!is_acronym("N1"));
    assert!(!is_acronym("МЫ"));
    assert!(!is_acronym(""));
}

#[test]
fn dic_lines() {
    assert_eq!(parse_dic_line("word/FLAGS"), Some("word"));
    assert_eq!(parse_dic_line("  word  po:noun/x "), Some("word"));
    assert_eq!(parse_dic_line("# comment"), None);
    assert_eq!(parse_dic_line("   "), None);
    assert_eq!(parse_dic_line("/MS"), None);
    assert_eq!(parse_dic_line("привет\u{a0}x"), Some("привет"));
    assert_eq!(strip_bom("\u{FEFF}2"), "2");
    assert_eq!(strip_bom("2\u{FEFF}"), "2\u{FEFF}");
}
