//! The settings of the daemon and their defaults.

use vstd::prelude::*;

use crate::error::Error;
use crate::paths;
use crate::paths::{find_user_dir, name_part, PathPart};
use crate::text;

verus! {

#[derive(Debug, Clone)]
pub struct Config {
    pub general: General,
    pub hotkeys: Hotkeys,
    pub languages: Languages,
    pub dictionaries: Dictionaries,
    pub detector: Detector,
    pub devices: Devices,
}

#[derive(Debug, Clone)]
pub struct General {
    pub quiet_ms: u64,
    /// Drop the word buffer after this long with no typing.
    pub idle_reset_ms: u64,
    pub default_layout: String,
}

#[derive(Debug, Clone)]
pub struct Hotkeys {}

#[derive(Debug, Clone)]
pub struct Languages {
    pub enabled: Vec<String>,
}

#[derive(Debug, Clone)]
pub struct Dictionaries {
    /// Path of the English word list.
    pub en: String,
    /// Path of the Russian word list.
    pub ru: String,
    pub extra_words: Vec<String>,
}

#[derive(Debug, Clone)]
pub struct Detector {
    pub min_word_len: usize,
    /// The IEEE 754 single-precision bits of the delta by which the letters of
    /// the swapped form must outweigh those of the typed one.
    pub min_score_delta_bits: u32,
    pub retro_window_ms: u64,
    pub blacklist: Vec<String>,
    pub fallback_unicode_input: bool,
}

#[derive(Debug, Clone)]
pub struct Devices {
    /// Names of devices that are not read.
    pub ignore: Vec<String>,
    pub also_watch_mice: bool,
}

/// The bits of 1.0: catches anglicism/slang cases (deploy/каво/че) without
/// firing on real 3–4 letter English words.
pub const DEFAULT_SCORE_DELTA_BITS: u32 = 0x3f80_0000;

impl Default for General {
    fn default() -> (r: General)
        ensures
            r.quiet_ms == 25,
            r.idle_reset_ms == 800,
            r.default_layout@ == "us,ru"@,
    {
        General { quiet_ms: 25, idle_reset_ms: 800, default_layout: "us,ru".to_owned() }
    }
}

impl Default for Hotkeys {
    fn default() -> (r: Hotkeys)
        ensures
            r == (Hotkeys {  }),
    {
        Hotkeys {  }
    }
}

impl Default for Languages {
    fn default() -> (r: Languages)
        ensures
            text::views(r.enabled@) == seq!["en"@, "ru"@],
    {
        let mut enabled: Vec<String> = Vec::new();
        enabled.push("en".to_owned());
        enabled.push("ru".to_owned());
        assert(text::views(enabled@) == seq!["en"@, "ru"@]);
        Languages { enabled }
    }
}

impl Default for Detector {
    fn default() -> (r: Detector)
        ensures
            r.min_word_len == 3,
            r.min_score_delta_bits == DEFAULT_SCORE_DELTA_BITS,
            r.retro_window_ms == 1500,
            r.blacklist@.len() == 0,
            !r.fallback_unicode_input,
    {
        Detector {
            min_word_len: 3,
            min_score_delta_bits: DEFAULT_SCORE_DELTA_BITS,
            retro_window_ms: 1500,
            blacklist: Vec::new(),
            fallback_unicode_input: false,
        }
    }
}

impl Default for Devices {
    fn default() -> (r: Devices)
        ensures
            r.ignore@.len() == 0,
            r.also_watch_mice,
    {
        Devices { ignore: Vec::new(), also_watch_mice: true }
    }
}

impl Dictionaries {
    /// The default word lists, given where the Russian one is kept.
    pub fn defaults(ru: String) -> (r: Dictionaries)
        ensures
            r.en@ == "/usr/share/hunspell/en_US-large.dic"@,
            r.ru == ru,
            r.extra_words@.len() == 0,
    {
        Dictionaries {
            en: "/usr/share/hunspell/en_US-large.dic".to_owned(),
            ru,
            extra_words: Vec::new(),
        }
    }
}

/// Where the daemon keeps its data.
pub open spec fn data_dir(data_home_set: bool, home_set: bool) -> Seq<paths::Part> {
    paths::user_dir("XDG_DATA_HOME"@, data_home_set, home_set, ".local/share"@).push(
        paths::Part::Name("swtchr"@),
    )
}

/// Where the daemon keeps its data, given which of `XDG_DATA_HOME` and `HOME`
/// are set.
pub fn default_data_dir(data_home_set: bool, home_set: bool) -> (r: Vec<PathPart>)
    ensures
        paths::parts(r@) == data_dir(data_home_set, home_set),
{
    let mut out = find_user_dir("XDG_DATA_HOME", data_home_set, home_set, ".local/share");
    out.push(name_part("swtchr"));
    assert(paths::parts(out@) == data_dir(data_home_set, home_set));
    out
}

/// Where the Russian word list is kept by default.
pub fn default_ru_dictionary(data_home_set: bool, home_set: bool) -> (r: Vec<PathPart>)
    ensures
        paths::parts(r@) == data_dir(data_home_set, home_set).push(
            paths::Part::Name("dicts"@),
        ).push(paths::Part::Name("ru_top200k.txt"@)),
{
    let mut out = default_data_dir(data_home_set, home_set);
    out.push(name_part("dicts"));
    out.push(name_part("ru_top200k.txt"));
    assert(paths::parts(out@) == data_dir(data_home_set, home_set).push(
        paths::Part::Name("dicts"@),
    ).push(paths::Part::Name("ru_top200k.txt"@)));
    out
}

/// What has been found out about a configuration file.
#[derive(Debug)]
pub enum Found {
    /// There is no such file.
    Missing,
    /// It could not be read or does not parse.
    Unusable(Error),
    /// It parses.
    Parsed(Config),
}

impl Config {
    /// The default settings, given where the Russian word list is kept.
    pub fn defaults(ru: String) -> (r: Config)
        ensures
            r.is_default(ru@),
    {
        Config {
            general: General::default(),
            hotkeys: Hotkeys::default(),
            languages: Languages::default(),
            dictionaries: Dictionaries::defaults(ru),
            detector: Detector::default(),
            devices: Devices::default(),
        }
    }

    /// Every setting has its default value.
    pub open spec fn is_default(self, ru: Seq<char>) -> bool {
        &&& self.general.quiet_ms == 25
        &&& self.general.idle_reset_ms == 800
        &&& self.general.default_layout@ == "us,ru"@
        &&& text::views(self.languages.enabled@) == seq!["en"@, "ru"@]
        &&& self.dictionaries.en@ == "/usr/share/hunspell/en_US-large.dic"@
        &&& self.dictionaries.ru@ == ru
        &&& self.dictionaries.extra_words@.len() == 0
        &&& self.detector.min_word_len == 3
        &&& self.detector.min_score_delta_bits == DEFAULT_SCORE_DELTA_BITS
        &&& self.detector.retro_window_ms == 1500
        &&& self.detector.blacklist@.len() == 0
        &&& !self.detector.fallback_unicode_input
        &&& self.devices.ignore@.len() == 0
        &&& self.devices.also_watch_mice
    }

    /// Where the configuration file is kept, given which of `XDG_CONFIG_HOME`
    /// and `HOME` are set.
    pub fn default_path(config_home_set: bool, home_set: bool) -> (r: Vec<PathPart>)
        ensures
            paths::parts(r@) == paths::user_dir(
                "XDG_CONFIG_HOME"@,
                config_home_set,
                home_set,
                ".config"@,
            ).push(paths::Part::Name("swtchr"@)).push(paths::Part::Name("config.toml"@)),
    {
        let mut out = find_user_dir("XDG_CONFIG_HOME", config_home_set, home_set, ".config");
        out.push(name_part("swtchr"));
        out.push(name_part("config.toml"));
        assert(paths::parts(out@) == paths::user_dir(
            "XDG_CONFIG_HOME"@,
            config_home_set,
            home_set,
            ".config"@,
        ).push(paths::Part::Name("swtchr"@)).push(paths::Part::Name("config.toml"@)));
        out
    }

    /// Why settings make no sense, if they do not.
    pub open spec fn complaint(self) -> Option<Seq<char>> {
        if self.languages.enabled@.len() == 0 {
            Some("languages.enabled is empty"@)
        } else if self.detector.min_word_len == 0 {
            Some("detector.min_word_len must be > 0"@)
        } else {
            None
        }
    }

    pub fn validate(&self) -> (r: Result<(), Error>)
        ensures
            match r {
                Ok(_) => self.complaint() is None,
                Err(e) => e matches Error::Config(m) && self.complaint() == Some(m@),
            },
    {
        if self.languages.enabled.len() == 0 {
            return Err(Error::Config("languages.enabled is empty".to_owned()));
        }
        if self.detector.min_word_len == 0 {
            return Err(Error::Config("detector.min_word_len must be > 0".to_owned()));
        }
        Ok(())
    }

    /// What loading the file at `path` comes to.
    pub fn load(path: &str, found: Found) -> (r: Result<Config, Error>)
        ensures
            match found {
                Found::Missing => r matches Err(Error::ConfigMissing(p)) && p@ == path@,
                Found::Unusable(e) => r == Err::<Config, Error>(e),
                Found::Parsed(c) => match r {
                    Ok(got) => got == c && c.complaint() is None,
                    Err(e) => e matches Error::Config(m) && c.complaint() == Some(m@),
                },
            },
    {
        match found {
            Found::Missing => Err(Error::ConfigMissing(path.to_owned())),
            Found::Unusable(e) => Err(e),
            Found::Parsed(c) => match c.validate() {
                Ok(_) => Ok(c),
                Err(e) => Err(e),
            },
        }
    }

    /// As `load`, but a file that is not there stands for the defaults.
    pub fn load_or_default(path: &str, found: Found, ru: String) -> (r: Result<Config, Error>)
        ensures
            match found {
                Found::Missing => r matches Ok(c) && c.is_default(ru@),
                Found::Unusable(Error::ConfigMissing(_)) => r matches Ok(c) && c.is_default(ru@),
                Found::Unusable(e) => r == Err::<Config, Error>(e),
                Found::Parsed(c) => match r {
                    Ok(got) => got == c && c.complaint() is None,
                    Err(e) => e matches Error::Config(m) && c.complaint() == Some(m@),
                },
            },
    {
        match Config::load(path, found) {
            Ok(c) => Ok(c),
            Err(Error::ConfigMissing(_)) => Ok(Config::defaults(ru)),
            Err(e) => Err(e),
        }
    }
}

/// The default settings are valid.
pub proof fn defaults_are_valid(c: Config, ru: Seq<char>)
    requires
        c.is_default(ru),
    ensures
        c.complaint() is None,
{
    assert(text::views(c.languages.enabled@).len() == 2);
}

/// Settings are rejected exactly if no language is enabled or the shortest word
/// has no length, and the message says which; nothing else about them matters.
pub proof fn settings_need_a_language_and_a_length(c: Config)
    ensures
        c.complaint() is None <==> c.languages.enabled@.len() >= 1 && c.detector.min_word_len >= 1,
        c.languages.enabled@.len() == 0 ==> c.complaint() == Some("languages.enabled is empty"@),
        c.languages.enabled@.len() >= 1 && c.detector.min_word_len == 0 ==> c.complaint() == Some(
            "detector.min_word_len must be > 0"@,
        ),
{
}

/// The default of every setting.
pub proof fn the_defaults_by_value(c: Config, ru: Seq<char>)
    requires
        c.is_default(ru),
    ensures
        c.general.quiet_ms == 25 && c.general.idle_reset_ms == 800,
        c.general.default_layout@ == "us,ru"@,
        c.languages.enabled@.len() == 2,
        c.languages.enabled@[0]@ == "en"@ && c.languages.enabled@[1]@ == "ru"@,
        c.dictionaries.en@ == "/usr/share/hunspell/en_US-large.dic"@,
        c.dictionaries.ru@ == ru,
        c.dictionaries.extra_words@.len() == 0,
        c.detector.min_word_len == 3 && c.detector.retro_window_ms == 1500,
        c.detector.min_score_delta_bits == 1065353216,
        c.detector.blacklist@.len() == 0 && !c.detector.fallback_unicode_input,
        c.devices.ignore@.len() == 0 && c.devices.also_watch_mice,
{
    let views = text::views(c.languages.enabled@);
    assert(views.len() == 2);
    assert(views[0] == "en"@ && views[1] == "ru"@);
}

/// Data is kept in swtchr below the user's data directory.
pub proof fn data_is_kept_below_the_data_directory(home_set: bool)
    ensures
        data_dir(true, home_set) == seq![
            paths::Part::Var("XDG_DATA_HOME"@),
            paths::Part::Name("swtchr"@),
        ],
        data_dir(false, true) == seq![
            paths::Part::Var("HOME"@),
            paths::Part::Name(".local/share"@),
            paths::Part::Name("swtchr"@),
        ],
        data_dir(false, false) == seq![paths::Part::Name("."@), paths::Part::Name("swtchr"@)],
{
}

/// A file that is missing is an error where it must be there, and stands for the
/// defaults where it need not; one that parses is taken exactly if it makes sense,
/// as it is.
pub proof fn a_missing_file_stands_for_the_defaults(
    path: &str,
    found: Found,
    ru: String,
    strict: Result<Config, Error>,
    lenient: Result<Config, Error>,
)
    requires
        call_ensures(Config::load, (path, found), strict),
        call_ensures(Config::load_or_default, (path, found, ru), lenient),
    ensures
        found is Missing ==> strict is Err && strict->Err_0 is ConfigMissing,
        found is Missing ==> lenient is Ok && lenient->Ok_0.is_default(ru@),
        found matches Found::Parsed(c) ==> {
            &&& strict is Ok <==> c.complaint() is None
            &&& lenient is Ok <==> c.complaint() is None
            &&& strict matches Ok(got) ==> got == c
            &&& lenient matches Ok(got) ==> got == c
        },
        found matches Found::Unusable(e) ==> {
            &&& strict == Err::<Config, Error>(e)
            &&& !(e is ConfigMissing) ==> lenient == Err::<Config, Error>(e)
        },
{
}

/// Where the configuration file and the Russian word list are kept.
pub proof fn where_files_are_kept(
    own_set: bool,
    home_set: bool,
    settings: Vec<PathPart>,
    words: Vec<PathPart>,
    data: Vec<PathPart>,
)
    requires
        call_ensures(Config::default_path, (own_set, home_set), settings),
        call_ensures(default_ru_dictionary, (own_set, home_set), words),
        call_ensures(default_data_dir, (own_set, home_set), data),
    ensures
        own_set ==> paths::parts(settings@) == seq![
            paths::Part::Var("XDG_CONFIG_HOME"@),
            paths::Part::Name("swtchr"@),
            paths::Part::Name("config.toml"@),
        ],
        !own_set && home_set ==> paths::parts(settings@) == seq![
            paths::Part::Var("HOME"@),
            paths::Part::Name(".config"@),
            paths::Part::Name("swtchr"@),
            paths::Part::Name("config.toml"@),
        ],
        !own_set && !home_set ==> paths::parts(settings@) == seq![
            paths::Part::Name("."@),
            paths::Part::Name("swtchr"@),
            paths::Part::Name("config.toml"@),
        ],
        paths::parts(data@) == data_dir(own_set, home_set),
        paths::parts(words@) == data_dir(own_set, home_set) + seq![
            paths::Part::Name("dicts"@),
            paths::Part::Name("ru_top200k.txt"@),
        ],
{
}

/// The defaults that are made are the defaults, and settings are rejected with the
/// complaint about them.
pub proof fn complaints_are_reported(
    ru: String,
    made: Config,
    c: &Config,
    r: Result<(), Error>,
)
    requires
        call_ensures(Config::defaults, (ru,), made),
        call_ensures(Config::validate, (c,), r),
    ensures
        made.is_default(ru@),
        r is Ok <==> c.languages.enabled@.len() > 0 && c.detector.min_word_len > 0,
        r matches Err(e) ==> e matches Error::Config(m) && c.complaint() == Some(m@),
{
}

} // verus!
