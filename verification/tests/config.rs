use swtchr::config::{
    default_data_dir, default_ru_dictionary, Config, Dictionaries, Found, DEFAULT_SCORE_DELTA_BITS,
};
use swtchr::error::Error;
use swtchr::paths::PathPart;

fn ru() -> String {
    "/home/u/.local/share/swtchr/dicts/ru_top200k.txt".to_string()
}

fn show(path: &[PathPart]) -> Vec<String> {
    path.iter()
        .map(|p| match p {
            PathPart::Var(v) => format!("${v}"),
            PathPart::Name(n) => n.to_string(),
        })
        .collect()
}

#[test]
fn defaults_validate() {
    Config::defaults(ru()).validate().unwrap();
}

#[test]
fn missing_file_returns_default_via_load_or_default() {
    let path = "/nonexistent/swtchr.toml";
    let found = if std::path::Path::new(path).exists() {
        Found::Unusable(Error::Io("exists".to_string()))
    } else {
        Found::Missing
    };
    let c = Config::load_or_default(path, found, ru()).unwrap();
    assert_eq!(c.general.idle_reset_ms, 800);
}

#[test]
fn default_values() {
    let c = Config::defaults(ru());
    assert_eq!(c.general.quiet_ms, 25);
    assert_eq!(c.general.default_layout, "us,ru");
    assert_eq!(c.languages.enabled, vec!["en", "ru"]);
    assert_eq!(c.dictionaries.en, "/usr/share/hunspell/en_US-large.dic");
    assert_eq!(c.dictionaries.ru, ru());
    assert!(c.dictionaries.extra_words.is_empty());
    assert_eq!(c.detector.min_word_len, 3);
    assert_eq!(f32::from_bits(c.detector.min_score_delta_bits), 1.0);
    assert_eq!(DEFAULT_SCORE_DELTA_BITS, 1.0_f32.to_bits());
    assert_eq!(c.detector.retro_window_ms, 1500);
    assert!(c.detector.blacklist.is_empty());
    assert!(!c.detector.fallback_unicode_input);
    assert!(c.devices.ignore.is_empty());
    assert!(c.devices.also_watch_mice);
    assert_eq!(Dictionaries::defaults("x".to_string()).ru, "x");
}

#[test]
fn missing_file_is_an_error_for_load() {
    match Config::load("/nonexistent/swtchr.toml", Found::Missing) {
        Err(Error::ConfigMissing(p)) => assert_eq!(p, "/nonexistent/swtchr.toml"),
        other => panic!("{other:?}"),
    }
}

#[test]
fn a_broken_file_is_an_error_either_way() {
    let broken = || Found::Unusable(Error::ConfigParse("line 1".to_string()));
    assert!(matches!(Config::load("c", broken()), Err(Error::ConfigParse(m)) if m == "line 1"));
    assert!(
        matches!(Config::load_or_default("c", broken(), ru()), Err(Error::ConfigParse(m)) if m == "line 1")
    );
    let unread = Found::Unusable(Error::Io("denied".to_string()));
    assert!(matches!(Config::load_or_default("c", unread, ru()), Err(Error::Io(m)) if m == "denied"));
}

#[test]
fn senseless_settings_are_refused() {
    let mut c = Config::defaults(ru());
    c.detector.min_word_len = 0;
    assert!(
        matches!(c.validate(), Err(Error::Config(m)) if m == "detector.min_word_len must be > 0")
    );
    c.languages.enabled.clear();
    assert!(matches!(c.validate(), Err(Error::Config(m)) if m == "languages.enabled is empty"));
    assert!(
        matches!(Config::load("c", Found::Parsed(c)), Err(Error::Config(m)) if m == "languages.enabled is empty")
    );
}

#[test]
fn a_parsed_file_is_kept() {
    let mut c = Config::defaults(ru());
    c.general.idle_reset_ms = 1500;
    let got = Config::load_or_default("c", Found::Parsed(c), "other".to_string()).unwrap();
    assert_eq!(got.general.idle_reset_ms, 1500);
    assert_eq!(got.dictionaries.ru, ru());
}

#[test]
fn default_paths() {
    assert_eq!(
        show(&Config::default_path(true, true)),
        vec!["$XDG_CONFIG_HOME", "swtchr", "config.toml"]
    );
    assert_eq!(
        show(&Config::default_path(false, true)),
        vec!["$HOME", ".config", "swtchr", "config.toml"]
    );
    assert_eq!(
        show(&Config::default_path(false, false)),
        vec![".", "swtchr", "config.toml"]
    );
    assert_eq!(
        show(&default_data_dir(false, true)),
        vec!["$HOME", ".local/share", "swtchr"]
    );
    assert_eq!(
        show(&default_ru_dictionary(true, false)),
        vec!["$XDG_DATA_HOME", "swtchr", "dicts", "ru_top200k.txt"]
    );
}
