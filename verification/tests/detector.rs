use swtchr::engine::detector::fallback_scores;
use swtchr::engine::lang_score::{letters_of, lookup, score, score_en, score_ru, Alphabet};
use swtchr::engine::{classify, Dict, HunspellDict, Verdict};

/// What a letter weighs that is not in the table.
const UNSEEN_LP: f32 = -4.6;

/// The mean logarithm of the frequencies of a score.
fn weight(score: &[Option<u32>]) -> f32 {
    let mut sum = 0.0_f32;
    for f in score {
        sum += match f {
            Some(hundredths) => (*hundredths as f32 / 100.0).ln(),
            None => UNSEEN_LP,
        };
    }
    sum / score.len() as f32
}

fn weight_en(word: &str) -> f32 {
    weight(&score_en(word).unwrap())
}

fn weight_ru(word: &str) -> f32 {
    weight(&score_ru(word).unwrap())
}

fn approx(a: f32, b: f32, eps: f32) -> bool {
    (a - b).abs() < eps
}

fn judge<C: Dict, O: Dict>(
    current: &str,
    swapped: &str,
    cur: &C,
    other: &O,
    cur_lang: &str,
    other_lang: &str,
    min_score_delta: f32,
) -> Verdict {
    let outweighs = match fallback_scores(current, swapped, cur_lang, other_lang) {
        Some((a, b)) => weight(&b) - weight(&a) > min_score_delta,
        None => false,
    };
    classify(current, swapped, cur, other, cur_lang, other_lang, outweighs)
}

fn classify_default<C: Dict, O: Dict>(
    current: &str,
    swapped: &str,
    cur: &C,
    other: &O,
    cur_lang: &str,
    other_lang: &str,
) -> Verdict {
    judge(current, swapped, cur, other, cur_lang, other_lang, 1.0)
}

fn dict(words: &[&str]) -> HunspellDict {
    let mut d = HunspellDict::empty();
    d.add_words(words);
    d
}

/// A dictionary that goes through the loader's natural/acronym classification.
fn dict_raw(words: &[&str]) -> HunspellDict {
    let lines: Vec<String> = words.iter().map(|w| w.to_string()).collect();
    HunspellDict::load(&lines)
}

#[test]
fn ok_when_word_in_current_dict() {
    let en = dict(&["hello", "world"]);
    let ru = dict(&["привет", "мир"]);
    let v = classify_default("hello", "руддщ", &en, &ru, "us", "ru");
    assert_eq!(v, Verdict::Correct);
}

#[test]
fn mislayout_when_swap_in_other_dict() {
    let en = dict(&["hello"]);
    let ru = dict(&["привет"]);
    let v = classify_default("ghbdtn", "привет", &en, &ru, "us", "ru");
    assert_eq!(v, Verdict::MisLayout);
}

#[test]
fn unknown_when_too_short_and_neither_lang_dominates() {
    let en = dict(&["a"]);
    let ru = dict(&["я"]);
    // "a" is in the en dict: a known short word is left alone.
    let v = classify_default("a", "ф", &en, &ru, "us", "ru");
    assert_eq!(v, Verdict::Correct);
}

#[test]
fn unknown_when_neither_dict_knows_no_score_signal() {
    // Two equally implausible strings: the fallback should not fire.
    let en = HunspellDict::empty();
    let ru = HunspellDict::empty();
    let v = classify_default("abc", "фис", &en, &ru, "us", "ru");
    assert_eq!(v, Verdict::Unknown);
}

#[test]
fn unknown_when_contains_digits() {
    let en = dict(&["hello"]);
    let ru = dict(&["привет"]);
    let v = classify_default("ab12cd", "фи12ыа", &en, &ru, "us", "ru");
    assert_eq!(v, Verdict::Unknown);
}

#[test]
fn ambiguous_both_known_returns_ok() {
    let en = dict(&["test"]);
    let ru = dict(&["test", "тест"]);
    let v = classify_default("test", "тест", &en, &ru, "us", "ru");
    assert_eq!(v, Verdict::Correct);
}

#[test]
fn empty_other_dict_does_not_force_mislayout() {
    // "ghbdtn" actually scores fairly high under EN unigram freqs (its letters
    // are individually common), so the stat fallback abstains.
    let en = dict(&["hello"]);
    let ru = HunspellDict::empty();
    let v = classify_default("ghbdtn", "привет", &en, &ru, "us", "ru");
    assert_eq!(v, Verdict::Unknown);
}

#[test]
fn case_insensitive_lookup() {
    let en = dict(&["hello"]);
    let ru = dict(&["привет"]);
    assert_eq!(
        classify_default("Hello", "Руддщ", &en, &ru, "us", "ru"),
        Verdict::Correct
    );
    assert_eq!(
        classify_default("GHBDTN", "ПРИВЕТ", &en, &ru, "us", "ru"),
        Verdict::MisLayout
    );
}

#[test]
fn anglicism_deploy_caught_by_stat_fallback() {
    // Neither dict knows "деплой" nor its Latin swap "ltgkjq".
    let en = dict(&["the", "and", "deploy"]);
    let ru = dict(&["привет"]);
    let v = classify_default("ltgkjq", "деплой", &en, &ru, "us", "ru");
    assert_eq!(v, Verdict::MisLayout);
}

#[test]
fn slang_kavo_caught_by_stat_fallback() {
    let en = HunspellDict::empty();
    let ru = dict(&["кого"]); // standard form is "кого"; "каво" is colloquial and absent
    let v = classify_default("rfdj", "каво", &en, &ru, "us", "ru");
    assert_eq!(v, Verdict::MisLayout);
}

#[test]
fn slang_che_short_caught_by_stat_fallback() {
    let en = HunspellDict::empty();
    let ru = HunspellDict::empty();
    let v = classify_default("xt", "че", &en, &ru, "us", "ru");
    assert_eq!(v, Verdict::MisLayout);
}

#[test]
fn one_char_never_acted_on() {
    let en = HunspellDict::empty();
    let ru = HunspellDict::empty();
    let v = classify_default("d", "в", &en, &ru, "us", "ru");
    assert_eq!(v, Verdict::Unknown);
}

#[test]
fn high_threshold_blocks_borderline_cases() {
    let en = HunspellDict::empty();
    let ru = HunspellDict::empty();
    // Threshold of 5.0 is unreachable for any real word pair.
    let v = judge("ghbdtn", "привет", &en, &ru, "us", "ru", 5.0);
    assert_eq!(v, Verdict::Unknown);
}

#[test]
fn unsupported_lang_disables_stat_fallback() {
    let en = HunspellDict::empty();
    let ru = HunspellDict::empty();
    let v = judge("ghbdtn", "привет", &en, &ru, "de", "fr", 1.5);
    assert_eq!(v, Verdict::Unknown);
    // Not even a claim that the swapped form weighs more changes that.
    assert_eq!(classify("ghbdtn", "привет", &en, &ru, "de", "fr", true), Verdict::Unknown);
    assert_eq!(classify("ghbdtn", "привет", &en, &ru, "us", "fr", true), Verdict::Unknown);
    assert_eq!(classify("ghbdtn", "привет", &en, &ru, "us", "ru", true), Verdict::MisLayout);
}

#[test]
fn two_char_dict_match_fires_mislayout() {
    let en = dict(&["the", "and"]);
    let ru = dict(&["ты", "привет"]);
    let v = classify_default("ns", "ты", &en, &ru, "us", "ru");
    assert_eq!(v, Verdict::MisLayout);
}

#[test]
fn two_char_dict_match_other_direction() {
    let en = dict(&["the", "and"]);
    let ru = dict(&["на", "привет"]);
    let v = classify_default("yf", "на", &en, &ru, "us", "ru");
    assert_eq!(v, Verdict::MisLayout);
}

#[test]
fn acronym_only_match_yields_to_natural_swap() {
    let en = dict_raw(&["the", "NS", "VS"]);
    let ru = dict_raw(&["ты", "мы"]);
    assert_eq!(
        classify_default("ns", "ты", &en, &ru, "us", "ru"),
        Verdict::MisLayout
    );
    assert_eq!(
        classify_default("vs", "мы", &en, &ru, "us", "ru"),
        Verdict::MisLayout
    );
}

#[test]
fn natural_short_word_keeps_ok_even_with_acronym_swap_hit() {
    let en = dict_raw(&["the", "is"]);
    let ru = dict_raw(&["шы"]);
    assert_eq!(
        classify_default("is", "шы", &en, &ru, "us", "ru"),
        Verdict::Correct
    );
}

#[test]
fn acronym_only_match_without_natural_swap_stays_ok() {
    let en = dict_raw(&["the", "AS"]);
    let ru = dict_raw(&["привет"]);
    assert_eq!(
        classify_default("as", "фы", &en, &ru, "us", "ru"),
        Verdict::Correct
    );
}

#[test]
fn the_tie_break_ends_at_three_characters() {
    let en = dict_raw(&["NSA", "NASA"]);
    let ru = dict_raw(&["тыф", "тфыф"]);
    assert_eq!(classify_default("nsa", "тыф", &en, &ru, "us", "ru"), Verdict::MisLayout);
    assert_eq!(classify_default("nasa", "тфыф", &en, &ru, "us", "ru"), Verdict::Correct);
}

#[test]
fn known_words_with_spaces_are_not_judged() {
    let en = dict(&["a b"]);
    let ru = HunspellDict::empty();
    assert_eq!(classify_default("a b", "ф и", &en, &ru, "us", "ru"), Verdict::Unknown);
}

#[test]
fn nothing_is_acted_on_without_evidence() {
    let none = HunspellDict::empty();
    assert_eq!(classify("ghbdtn", "привет", &none, &none, "us", "ru", false), Verdict::Unknown);
}

#[test]
fn english_word_scores_higher_than_swap_in_russian() {
    let en = weight_en("hello");
    let ru = weight_ru("руддщ");
    assert!(en > ru, "en={en} ru={ru}");
}

#[test]
fn russian_word_scores_higher_than_latin_swap() {
    let typed_en = weight_en("ckjdj");
    let intended_ru = weight_ru("слово");
    assert!(intended_ru - typed_en > 1.5, "ru={intended_ru} en={typed_en}");
}

#[test]
fn anglicism_deploy_triggers_stat_signal() {
    let typed_en = weight_en("ltgkjq");
    let intended_ru = weight_ru("деплой");
    assert!(intended_ru - typed_en > 1.0);
}

#[test]
fn slang_kavo_triggers_stat_signal() {
    let typed_en = weight_en("rfdj");
    let intended_ru = weight_ru("каво");
    assert!(intended_ru - typed_en > 1.0);
}

#[test]
fn short_preposition_v_has_signal() {
    let v_en = weight_en("d");
    let v_ru = weight_ru("в");
    assert!(v_ru > v_en);
}

#[test]
fn returns_none_for_unsupported_layout() {
    assert!(score("hello", "de").is_none());
}

#[test]
fn returns_none_for_no_alpha_chars() {
    assert!(score_en("123").is_none());
    assert!(score_ru("...").is_none());
}

#[test]
fn mean_is_length_invariant() {
    let one = weight_en("e");
    let many = weight_en("eeeee");
    assert!(approx(one, many, 1e-4));
}

#[test]
fn yo_normalised_to_e() {
    let yo = weight_ru("ё");
    let ye = weight_ru("е");
    assert!(approx(yo, ye, 1e-4));
}

#[test]
fn scores_are_exact() {
    assert_eq!(score("Hi!", "us"), Some(vec![Some(609), Some(697)]));
    assert_eq!(score("Hi!", "gb"), Some(vec![Some(609), Some(697)]));
    assert_eq!(score("Hi!", "en"), Some(vec![Some(609), Some(697)]));
    assert_eq!(score("Ёж", "ru"), Some(vec![Some(845), Some(94)]));
    // Letters of the other alphabet have no frequency.
    assert_eq!(score_en("aф"), Some(vec![Some(817), None]));
    assert_eq!(score_ru("фa"), Some(vec![Some(26), None]));
    assert!(approx(weight_en("aф"), (8.17_f32.ln() - 4.6) / 2.0, 1e-5));
    assert_eq!(lookup(Alphabet::English, 'z'), Some(7));
    assert_eq!(lookup(Alphabet::Russian, 'ъ'), Some(4));
    assert_eq!(lookup(Alphabet::English, 'ъ'), None);
    assert_eq!(lookup(Alphabet::English, 'Z'), None);
}

#[test]
fn ascii_scores_see_letters_only() {
    let plain = score_en("hello");
    assert_eq!(plain, Some(vec![Some(609), Some(1270), Some(403), Some(403), Some(751)]));
    assert_eq!(score_en("HeLLo"), plain);
    assert_eq!(score_en("1h-e_l.l o!@[`{~\n"), plain);
    let all: String = (0u8..128).map(char::from).collect();
    let score = score_en(&all).unwrap();
    assert_eq!(score.len(), 52);
    assert!(score.iter().all(|f| matches!(f, Some(x) if 7 <= *x && *x <= 1270)));
    let none: String = all.chars().filter(|c| !c.is_ascii_alphabetic()).collect();
    assert_eq!(score_en(&none), None);
    assert_eq!(score_ru(&none), None);
    let small: Vec<char> = ('a'..='z').chain('a'..='z').collect();
    assert_eq!(letters_of(&all), small);
}

#[test]
fn letters_are_lowered_one_by_one() {
    assert_eq!(letters_of("A-b 1ß"), vec!['a', 'b', 'ß']);
    // A capital with a two-character lowercase form contributes its letter; the
    // combining dot is none.
    assert_eq!(letters_of("İ"), vec!['i']);
    assert_eq!(letters_of("Привет"), vec!['п', 'р', 'и', 'в', 'е', 'т']);
}

#[test]
fn fallback_scores_need_both_sides() {
    assert!(fallback_scores("ghbdtn", "привет", "us", "de").is_none());
    assert!(fallback_scores("...", "ююю", "us", "ru").is_none());
    let (a, b) = fallback_scores("d", "в", "us", "ru").unwrap();
    assert_eq!(a, vec![Some(425)]);
    assert_eq!(b, vec![Some(454)]);
}
