//! Per-letter frequency scorer used as a fallback when neither dictionary
//! recognises a word. The detector compares the score a word would receive in
//! its currently-typed language against the score the swap-form receives in
//! the other language; a large positive delta means the swap is much more
//! plausible as native text than what the user actually typed.
//!
//! Unigram (single-letter) frequencies are used rather than bigrams. They are
//! smaller, deterministic, and, because EN and RU use disjoint alphabets in a
//! two-layout setup, already provide a strong signal: a word in the "wrong"
//! alphabet decays each summand toward the smoothing floor, while a plausible
//! word in the right alphabet sums high-frequency letters.
//!
//! Frequencies are taken from standard published letter-frequency tables, here
//! in hundredths of a percent of the corpus. A score is the list of the
//! frequencies of the word's letters; its weight is the mean of their
//! logarithms, which makes words of different lengths directly comparable.
//! Non-alphabetic characters are skipped entirely. A letter that is not in the
//! table has no frequency and weighs in with a fixed penalty.

use vstd::prelude::*;

use crate::text;
use crate::text::{chars_of, is_letter, lower_char, same_text};

verus! {

/// A language with a frequency table.
#[derive(Debug, Clone, Copy, PartialEq, Eq, Structural)]
pub enum Alphabet {
    English,
    Russian,
}

/// English letter frequencies. Only the relative ordering matters.
pub open spec fn en_frequency(c: char) -> Option<u32> {
    match c {
        'e' => Some(1270),
        't' => Some(905),
        'a' => Some(817),
        'o' => Some(751),
        'i' => Some(697),
        'n' => Some(675),
        's' => Some(633),
        'h' => Some(609),
        'r' => Some(599),
        'd' => Some(425),
        'l' => Some(403),
        'c' => Some(278),
        'u' => Some(276),
        'm' => Some(241),
        'w' => Some(236),
        'f' => Some(223),
        'g' => Some(202),
        'y' => Some(197),
        'p' => Some(193),
        'b' => Some(149),
        'v' => Some(98),
        'k' => Some(77),
        'j' => Some(15),
        'x' => Some(15),
        'q' => Some(10),
        'z' => Some(7),
        _ => None,
    }
}

/// Russian letter frequencies.
pub open spec fn ru_frequency(c: char) -> Option<u32> {
    match c {
        'о' => Some(1097),
        'е' => Some(845),
        'а' => Some(801),
        'и' => Some(735),
        'н' => Some(670),
        'т' => Some(626),
        'с' => Some(547),
        'р' => Some(473),
        'в' => Some(454),
        'л' => Some(440),
        'к' => Some(349),
        'м' => Some(321),
        'д' => Some(298),
        'п' => Some(281),
        'у' => Some(262),
        'я' => Some(201),
        'ы' => Some(190),
        'ь' => Some(174),
        'г' => Some(170),
        'з' => Some(165),
        'б' => Some(159),
        'ч' => Some(144),
        'й' => Some(121),
        'х' => Some(97),
        'ж' => Some(94),
        'ш' => Some(73),
        'ю' => Some(64),
        'ц' => Some(48),
        'щ' => Some(36),
        'э' => Some(32),
        'ф' => Some(26),
        'ъ' => Some(4),
        _ => None,
    }
}

/// The frequency of a letter. 'ё' counts as 'е', so that its low standalone
/// frequency doesn't penalise a word that legitimately uses it.
pub open spec fn frequency(alphabet: Alphabet, c: char) -> Option<u32> {
    match alphabet {
        Alphabet::English => en_frequency(c),
        Alphabet::Russian => ru_frequency(if c == 'ё' { 'е' } else { c }),
    }
}

/// The frequency of a letter, if the table of the language holds it.
pub fn lookup(alphabet: Alphabet, c: char) -> (r: Option<u32>)
    ensures
        r == frequency(alphabet, c),
{
    match alphabet {
        Alphabet::English => match c {
            'e' => Some(1270),
            't' => Some(905),
            'a' => Some(817),
            'o' => Some(751),
            'i' => Some(697),
            'n' => Some(675),
            's' => Some(633),
            'h' => Some(609),
            'r' => Some(599),
            'd' => Some(425),
            'l' => Some(403),
            'c' => Some(278),
            'u' => Some(276),
            'm' => Some(241),
            'w' => Some(236),
            'f' => Some(223),
            'g' => Some(202),
            'y' => Some(197),
            'p' => Some(193),
            'b' => Some(149),
            'v' => Some(98),
            'k' => Some(77),
            'j' => Some(15),
            'x' => Some(15),
            'q' => Some(10),
            'z' => Some(7),
            _ => None,
        },
        Alphabet::Russian => {
            let c = if c == 'ё' {
                'е'
            } else {
                c
            };
            match c {
                'о' => Some(1097),
                'е' => Some(845),
                'а' => Some(801),
                'и' => Some(735),
                'н' => Some(670),
                'т' => Some(626),
                'с' => Some(547),
                'р' => Some(473),
                'в' => Some(454),
                'л' => Some(440),
                'к' => Some(349),
                'м' => Some(321),
                'д' => Some(298),
                'п' => Some(281),
                'у' => Some(262),
                'я' => Some(201),
                'ы' => Some(190),
                'ь' => Some(174),
                'г' => Some(170),
                'з' => Some(165),
                'б' => Some(159),
                'ч' => Some(144),
                'й' => Some(121),
                'х' => Some(97),
                'ж' => Some(94),
                'ш' => Some(73),
                'ю' => Some(64),
                'ц' => Some(48),
                'щ' => Some(36),
                'э' => Some(32),
                'ф' => Some(26),
                'ъ' => Some(4),
                _ => None,
            }
        },
    }
}

/// A text with every character replaced by its lowercase form.
pub open spec fn lowered(s: Seq<char>) -> Seq<char>
    decreases s.len(),
{
    if s.len() == 0 {
        Seq::empty()
    } else {
        lowered(s.drop_last()) + text::lower(s.last())
    }
}

/// The letters among some characters.
pub open spec fn only_letters(s: Seq<char>) -> Seq<char>
    decreases s.len(),
{
    if s.len() == 0 {
        Seq::empty()
    } else if text::letter(s.last()) {
        only_letters(s.drop_last()).push(s.last())
    } else {
        only_letters(s.drop_last())
    }
}

/// The letters of a word in lowercase.
pub open spec fn letters(word: Seq<char>) -> Seq<char> {
    only_letters(lowered(word))
}

/// The frequencies of a run of letters.
pub open spec fn frequencies(alphabet: Alphabet, ls: Seq<char>) -> Seq<Option<u32>> {
    ls.map_values(|c: char| frequency(alphabet, c))
}

/// The score of a word whose letters are given: none without letters.
pub open spec fn letters_score(alphabet: Alphabet, ls: Seq<char>) -> Option<Seq<Option<u32>>> {
    if ls.len() == 0 {
        None
    } else {
        Some(frequencies(alphabet, ls))
    }
}

/// The language that an xkb layout code stands for.
pub open spec fn layout_alphabet(layout: Seq<char>) -> Option<Alphabet> {
    if layout == "us"@ || layout == "gb"@ || layout == "en"@ {
        Some(Alphabet::English)
    } else if layout == "ru"@ {
        Some(Alphabet::Russian)
    } else {
        None
    }
}

/// The score of a word under an xkb layout code.
pub open spec fn layout_score(word: Seq<char>, layout: Seq<char>) -> Option<Seq<Option<u32>>> {
    match layout_alphabet(layout) {
        Some(a) => letters_score(a, letters(word)),
        None => None,
    }
}

/// The view of a score.
pub open spec fn score_view(r: Option<Vec<Option<u32>>>) -> Option<Seq<Option<u32>>> {
    match r {
        Some(v) => Some(v@),
        None => None,
    }
}

proof fn only_letters_concat(a: Seq<char>, b: Seq<char>)
    ensures
        only_letters(a + b) == only_letters(a) + only_letters(b),
    decreases b.len(),
{
    if b.len() == 0 {
        assert(a + b == a);
        assert(only_letters(a) + only_letters(b) == only_letters(a));
    } else {
        assert((a + b).drop_last() == a + b.drop_last());
        only_letters_concat(a, b.drop_last());
    }
}

proof fn lowered_concat(a: Seq<char>, b: Seq<char>)
    ensures
        lowered(a + b) == lowered(a) + lowered(b),
    decreases b.len(),
{
    if b.len() == 0 {
        assert(a + b == a);
        assert(lowered(a) + lowered(b) == lowered(a));
    } else {
        assert((a + b).drop_last() == a + b.drop_last());
        lowered_concat(a, b.drop_last());
        assert(lowered(a) + (lowered(b.drop_last()) + text::lower(b.last())) == (lowered(a)
            + lowered(b.drop_last())) + text::lower(b.last()));
    }
}

/// The letters of a word, in lowercase and in order; everything else is
/// skipped.
pub fn letters_of(word: &str) -> (r: Vec<char>)
    ensures
        r@ == letters(word@),
{
    let chars = chars_of(word);
    let mut out: Vec<char> = Vec::new();
    let mut i: usize = 0;
    while i < chars.len()
        invariant
            i <= chars.len(),
            chars@ == word@,
            out@ == letters(word@.take(i as int)),
        decreases chars.len() - i,
    {
        let low = lower_char(chars[i]);
        let lows = chars_of(low.as_str());
        let ghost before = out@;
        let mut j: usize = 0;
        while j < lows.len()
            invariant
                j <= lows.len(),
                out@ == before + only_letters(lows@.take(j as int)),
            decreases lows.len() - j,
        {
            proof {
                assert(lows@.take(j + 1).drop_last() == lows@.take(j as int));
                assert(lows@.take(j + 1).last() == lows@[j as int]);
            }
            if is_letter(lows[j]) {
                out.push(lows[j]);
            }
            j = j + 1;
        }
        proof {
            assert(lows@.take(j as int) == lows@);
            assert(word@.take(i + 1).drop_last() == word@.take(i as int));
            only_letters_concat(lowered(word@.take(i as int)), lows@);
        }
        i = i + 1;
    }
    assert(word@.take(i as int) == word@);
    out
}

/// The score of a word whose letters are given.
pub fn score_letters(alphabet: Alphabet, ls: &Vec<char>) -> (r: Option<Vec<Option<u32>>>)
    ensures
        score_view(r) == letters_score(alphabet, ls@),
{
    if ls.len() == 0 {
        return None;
    }
    let mut out: Vec<Option<u32>> = Vec::new();
    let mut i: usize = 0;
    while i < ls.len()
        invariant
            i <= ls.len(),
            out@ == frequencies(alphabet, ls@).take(i as int),
        decreases ls.len() - i,
    {
        out.push(lookup(alphabet, ls[i]));
        i = i + 1;
    }
    assert(frequencies(alphabet, ls@).take(i as int) == frequencies(alphabet, ls@));
    Some(out)
}

pub fn score_en(word: &str) -> (r: Option<Vec<Option<u32>>>)
    ensures
        score_view(r) == letters_score(Alphabet::English, letters(word@)),
{
    score_letters(Alphabet::English, &letters_of(word))
}

pub fn score_ru(word: &str) -> (r: Option<Vec<Option<u32>>>)
    ensures
        score_view(r) == letters_score(Alphabet::Russian, letters(word@)),
{
    score_letters(Alphabet::Russian, &letters_of(word))
}

/// Score a word against an xkb layout code. Returns `None` for unsupported
/// layouts (callers should treat that as "no statistical signal available").
pub fn score(word: &str, xkb_layout: &str) -> (r: Option<Vec<Option<u32>>>)
    ensures
        score_view(r) == layout_score(word@, xkb_layout@),
{
    if same_text(xkb_layout, "us") || same_text(xkb_layout, "gb") || same_text(xkb_layout, "en") {
        score_en(word)
    } else if same_text(xkb_layout, "ru") {
        score_ru(word)
    } else {
        None
    }
}

/// A score is made letter by letter: what two texts score together is what
/// each scores, one after the other. Repeating a word therefore repeats its
/// frequencies and leaves their mean alone.
pub proof fn score_is_letterwise(alphabet: Alphabet, a: Seq<char>, b: Seq<char>)
    ensures
        frequencies(alphabet, letters(a + b)) == frequencies(alphabet, letters(a)) + frequencies(
            alphabet,
            letters(b),
        ),
{
    lowered_concat(a, b);
    only_letters_concat(lowered(a), lowered(b));
}

/// 'ё' scores as 'е' does.
pub proof fn yo_scores_as_ye()
    ensures
        frequency(Alphabet::Russian, 'ё') == frequency(Alphabet::Russian, 'е'),
        frequency(Alphabet::Russian, 'ё') is Some,
{
}

/// The two tables are disjoint: no letter has a frequency in both languages.
pub proof fn alphabets_are_disjoint(c: char)
    ensures
        frequency(Alphabet::English, c) is None || frequency(Alphabet::Russian, c) is None,
{
}

/// The letters of an ASCII text, made small.
pub open spec fn small_letters(s: Seq<char>) -> Seq<char>
    decreases s.len(),
{
    if s.len() == 0 {
        Seq::empty()
    } else if text::ascii_alphabetic(s.last()) {
        small_letters(s.drop_last()).push(text::ascii_lower(s.last()) as char)
    } else {
        small_letters(s.drop_last())
    }
}

/// A small ASCII letter.
pub open spec fn small_letter(c: char) -> bool {
    0x61 <= c as u32 <= 0x7a
}

proof fn one_small_letter(c: char)
    requires
        text::ascii(c),
    ensures
        only_letters(text::lower(c)) == if text::ascii_alphabetic(c) {
            seq![text::ascii_lower(c) as char]
        } else {
            Seq::empty()
        },
        text::ascii_alphabetic(c) ==> small_letter(text::ascii_lower(c) as char),
{
    reveal_with_fuel(only_letters, 2);
    let low = text::lower(c);
    assert(low.len() == 1);
    assert(low.drop_last().len() == 0);
    assert(low.last() == text::ascii_lower(c) as char);
    assert(only_letters(low.drop_last()) == Seq::<char>::empty());
}

/// Of an ASCII text only the letters count, and their case does not.
pub proof fn ascii_letters_are_small_letters(s: Seq<char>)
    requires
        text::ascii_text(s),
    ensures
        letters(s) == small_letters(s),
        forall|i: int| 0 <= i < letters(s).len() ==> small_letter(#[trigger] letters(s)[i]),
    decreases s.len(),
{
    if s.len() > 0 {
        let t = s.drop_last();
        assert forall|i: int| 0 <= i < t.len() implies text::ascii(#[trigger] t[i]) by {
            assert(t[i] == s[i]);
        }
        ascii_letters_are_small_letters(t);
        assert(text::ascii(s[s.len() - 1]));
        one_small_letter(s.last());
        only_letters_concat(lowered(t), text::lower(s.last()));
        assert(letters(s) == letters(t) + only_letters(text::lower(s.last())));
        assert(letters(s) == small_letters(s));
    }
}

/// The score of an ASCII word depends on its letters alone: changing the case of
/// letters, and putting in or taking out anything that is no letter, leaves it as
/// it is.
pub proof fn score_sees_letters_only(alphabet: Alphabet, a: Seq<char>, b: Seq<char>)
    requires
        text::ascii_text(a),
        text::ascii_text(b),
        small_letters(a) == small_letters(b),
    ensures
        letters_score(alphabet, letters(a)) == letters_score(alphabet, letters(b)),
{
    ascii_letters_are_small_letters(a);
    ascii_letters_are_small_letters(b);
}

proof fn small_letters_concat(a: Seq<char>, b: Seq<char>)
    ensures
        small_letters(a + b) == small_letters(a) + small_letters(b),
    decreases b.len(),
{
    if b.len() == 0 {
        assert(a + b == a);
        assert(small_letters(a) + small_letters(b) == small_letters(a));
    } else {
        assert((a + b).drop_last() == a + b.drop_last());
        assert((a + b).last() == b.last());
        small_letters_concat(a, b.drop_last());
        assert(small_letters(a + b) == small_letters(a) + small_letters(b));
    }
}

proof fn no_small_letters(s: Seq<char>)
    ensures
        small_letters(s).len() == 0 <==> forall|i: int|
            0 <= i < s.len() ==> !text::ascii_alphabetic(#[trigger] s[i]),
    decreases s.len(),
{
    if s.len() > 0 {
        let t = s.drop_last();
        no_small_letters(t);
        assert(forall|i: int| 0 <= i < t.len() ==> t[i] == s[i]);
        assert(s[s.len() - 1] == s.last());
        if forall|i: int| 0 <= i < s.len() ==> !text::ascii_alphabetic(#[trigger] s[i]) {
            assert forall|i: int| 0 <= i < t.len() implies !text::ascii_alphabetic(
                #[trigger] t[i],
            ) by {
                assert(t[i] == s[i]);
            }
        } else if !text::ascii_alphabetic(s.last()) {
            let i = choose|i: int| 0 <= i < s.len() && text::ascii_alphabetic(#[trigger] s[i]);
            assert(t[i] == s[i]);
        }
    }
}

/// Digits and punctuation do not count, wherever they stand.
pub proof fn score_skips_other_characters(
    alphabet: Alphabet,
    a: Seq<char>,
    skipped: Seq<char>,
    b: Seq<char>,
)
    requires
        text::ascii_text(a),
        text::ascii_text(skipped),
        text::ascii_text(b),
        forall|i: int| 0 <= i < skipped.len() ==> !text::ascii_alphabetic(#[trigger] skipped[i]),
    ensures
        letters_score(alphabet, letters(a + skipped + b)) == letters_score(
            alphabet,
            letters(a + b),
        ),
{
    no_small_letters(skipped);
    small_letters_concat(a, skipped);
    small_letters_concat(a + skipped, b);
    small_letters_concat(a, b);
    assert(small_letters(a) + small_letters(skipped) == small_letters(a));
    score_sees_letters_only(alphabet, a + skipped + b, a + b);
}

proof fn small_letters_ignore_case(a: Seq<char>, b: Seq<char>)
    requires
        text::same_ignoring_ascii_case(a, b),
    ensures
        small_letters(a) == small_letters(b),
    decreases a.len(),
{
    if a.len() > 0 {
        let n = a.len() - 1;
        assert(text::ascii_lower(a[n]) == text::ascii_lower(b[n]));
        let x = a.drop_last();
        let y = b.drop_last();
        assert forall|i: int| 0 <= i < x.len() implies #[trigger] text::ascii_lower(x[i])
            == text::ascii_lower(y[i]) by {
            assert(text::ascii_lower(a[i]) == text::ascii_lower(b[i]));
        }
        small_letters_ignore_case(x, y);
    }
}

/// Case does not count.
pub proof fn score_ignores_case(alphabet: Alphabet, a: Seq<char>, b: Seq<char>)
    requires
        text::ascii_text(a),
        text::ascii_text(b),
        text::same_ignoring_ascii_case(a, b),
    ensures
        letters_score(alphabet, letters(a)) == letters_score(alphabet, letters(b)),
{
    small_letters_ignore_case(a, b);
    score_sees_letters_only(alphabet, a, b);
}

/// An ASCII word has a score exactly if it has a letter.
pub proof fn a_score_needs_a_letter(alphabet: Alphabet, s: Seq<char>)
    requires
        text::ascii_text(s),
    ensures
        letters_score(alphabet, letters(s)) is None <==> forall|i: int|
            0 <= i < s.len() ==> !text::ascii_alphabetic(#[trigger] s[i]),
{
    ascii_letters_are_small_letters(s);
    no_small_letters(s);
}

/// Every letter of an ASCII word has an English frequency, between that of the
/// rarest letter and that of the commonest.
pub proof fn english_frequencies_are_bounded(s: Seq<char>, i: int)
    requires
        text::ascii_text(s),
        0 <= i < letters(s).len(),
    ensures
        frequencies(Alphabet::English, letters(s))[i] matches Some(f) && 7 <= f <= 1270,
{
    ascii_letters_are_small_letters(s);
    let c = letters(s)[i];
    assert(small_letter(c));
    small_letters_have_frequencies(c);
}

proof fn small_letters_have_frequencies(c: char)
    requires
        small_letter(c),
    ensures
        en_frequency(c) matches Some(f) && 7 <= f <= 1270,
{
}

/// The English table, in alphabetical order: hundredths of a percent.
pub proof fn english_table()
    ensures
        en_frequency('a') == Some(817u32) && en_frequency('b') == Some(149u32) && en_frequency('c')
            == Some(278u32) && en_frequency('d') == Some(425u32) && en_frequency('e') == Some(
            1270u32,
        ) && en_frequency('f') == Some(223u32) && en_frequency('g') == Some(202u32)
            && en_frequency('h') == Some(609u32) && en_frequency('i') == Some(697u32)
            && en_frequency('j') == Some(15u32) && en_frequency('k') == Some(77u32)
            && en_frequency('l') == Some(403u32) && en_frequency('m') == Some(241u32),
        en_frequency('n') == Some(675u32) && en_frequency('o') == Some(751u32) && en_frequency('p')
            == Some(193u32) && en_frequency('q') == Some(10u32) && en_frequency('r') == Some(
            599u32,
        ) && en_frequency('s') == Some(633u32) && en_frequency('t') == Some(905u32)
            && en_frequency('u') == Some(276u32) && en_frequency('v') == Some(98u32)
            && en_frequency('w') == Some(236u32) && en_frequency('x') == Some(15u32)
            && en_frequency('y') == Some(197u32) && en_frequency('z') == Some(7u32),
{
}

/// The Russian table, in alphabetical order: hundredths of a percent.
pub proof fn russian_table()
    ensures
        ru_frequency('а') == Some(801u32) && ru_frequency('б') == Some(159u32) && ru_frequency('в')
            == Some(454u32) && ru_frequency('г') == Some(170u32) && ru_frequency('д') == Some(
            298u32,
        ) && ru_frequency('е') == Some(845u32) && ru_frequency('ж') == Some(94u32)
            && ru_frequency('з') == Some(165u32) && ru_frequency('и') == Some(735u32)
            && ru_frequency('й') == Some(121u32) && ru_frequency('к') == Some(349u32)
            && ru_frequency('л') == Some(440u32) && ru_frequency('м') == Some(321u32)
            && ru_frequency('н') == Some(670u32) && ru_frequency('о') == Some(1097u32)
            && ru_frequency('п') == Some(281u32),
        ru_frequency('р') == Some(473u32) && ru_frequency('с') == Some(547u32) && ru_frequency('т')
            == Some(626u32) && ru_frequency('у') == Some(262u32) && ru_frequency('ф') == Some(
            26u32,
        ) && ru_frequency('х') == Some(97u32) && ru_frequency('ц') == Some(48u32)
            && ru_frequency('ч') == Some(144u32) && ru_frequency('ш') == Some(73u32)
            && ru_frequency('щ') == Some(36u32) && ru_frequency('ъ') == Some(4u32)
            && ru_frequency('ы') == Some(190u32) && ru_frequency('ь') == Some(174u32)
            && ru_frequency('э') == Some(32u32) && ru_frequency('ю') == Some(64u32)
            && ru_frequency('я') == Some(201u32),
{
}

/// A frequency is that of the table of the language, and only the small letters of
/// the two alphabets have one: a to z, and а to я with ё, which counts as е.
pub proof fn frequencies_are_those_of_the_tables(c: char)
    ensures
        frequency(Alphabet::English, c) == en_frequency(c),
        frequency(Alphabet::English, c) is Some <==> 0x61 <= c as u32 <= 0x7a,
        c != 'ё' ==> frequency(Alphabet::Russian, c) == ru_frequency(c),
        frequency(Alphabet::Russian, 'ё') == ru_frequency('е'),
        frequency(Alphabet::Russian, c) is Some <==> 0x430 <= c as u32 <= 0x44f || c == 'ё',
{
}

/// The letters among some characters are all those that are letters, in order.
pub proof fn only_letters_keeps_every_letter(s: Seq<char>)
    ensures
        only_letters(s) == s.filter(|c: char| text::letter(c)),
    decreases s.len(),
{
    reveal(Seq::filter);
    if s.len() > 0 {
        only_letters_keeps_every_letter(s.drop_last());
    }
}

/// The letters of a text are found part by part, and those of a single character
/// are the letters of its lowercase form: every character counts, wherever it
/// stands.
pub proof fn letters_are_found_part_by_part(a: Seq<char>, b: Seq<char>, c: char)
    ensures
        letters(a + b) == letters(a) + letters(b),
        letters(Seq::empty()) == Seq::<char>::empty(),
        letters(seq![c]) == text::lower(c).filter(|l: char| text::letter(l)),
{
    lowered_concat(a, b);
    only_letters_concat(lowered(a), lowered(b));
    reveal_with_fuel(lowered, 2);
    text::scalar_value(c);
    let one = seq![c];
    assert(one.drop_last().len() == 0);
    assert(one.last() == c);
    assert(Seq::<char>::empty() + text::lower(c) == text::lower(c));
    assert(lowered(one) == text::lower(c));
    only_letters_keeps_every_letter(text::lower(c));
    assert(lowered(Seq::<char>::empty()) == Seq::<char>::empty());
}

/// The score of a word under a layout is the frequencies of all its letters, one
/// each and in order: in English for us, gb and en, in Russian for ru. There is
/// none for any other layout, nor for a word without a letter.
pub proof fn a_score_holds_every_letter(word: Seq<char>, layout: Seq<char>, i: int)
    ensures
        ({
            let english = layout == "us"@ || layout == "gb"@ || layout == "en"@;
            let ls = letters(word);
            let alphabet = if english {
                Alphabet::English
            } else {
                Alphabet::Russian
            };
            match layout_score(word, layout) {
                Some(fs) => {
                    &&& english || layout == "ru"@
                    &&& fs.len() == ls.len() > 0
                    &&& 0 <= i < ls.len() ==> fs[i] == frequency(alphabet, ls[i])
                },
                None => !english && layout != "ru"@ || ls.len() == 0,
            }
        }),
        letters_score(Alphabet::English, letters(word)) == layout_score(word, "us"@),
        letters_score(Alphabet::Russian, letters(word)) == layout_score(word, "ru"@),
{
    reveal_strlit("us");
    reveal_strlit("gb");
    reveal_strlit("en");
    reveal_strlit("ru");
    assert("ru"@[0] != "us"@[0]);
    assert("ru"@[0] != "gb"@[0]);
    assert("ru"@[0] != "en"@[0]);
}

/// A word is scored in the language of its layout: English for us, gb and en,
/// Russian for ru.
pub proof fn words_are_scored_in_the_language_of_the_layout(
    word: &str,
    layout: &str,
    r: Option<Vec<Option<u32>>>,
    en: Option<Vec<Option<u32>>>,
    ru: Option<Vec<Option<u32>>>,
)
    requires
        call_ensures(score, (word, layout), r),
        call_ensures(score_en, (word,), en),
        call_ensures(score_ru, (word,), ru),
    ensures
        score_view(r) == layout_score(word@, layout@),
        layout@ == "us"@ || layout@ == "gb"@ || layout@ == "en"@ ==> score_view(r) == score_view(en),
        layout@ == "ru"@ ==> score_view(r) == score_view(ru),
        r is Some <==> score_view(r) is Some,
        r matches Some(v) ==> score_view(r) == Some(v@),
        en is Some <==> letters(word@).len() > 0,
        ru is Some <==> letters(word@).len() > 0,
{
    a_score_holds_every_letter(word@, "us"@, 0);
    a_score_holds_every_letter(word@, "ru"@, 0);
    reveal_strlit("us");
    reveal_strlit("gb");
    reveal_strlit("en");
    reveal_strlit("ru");
    assert("ru"@[0] != "us"@[0]);
    assert("ru"@[0] != "gb"@[0]);
    assert("ru"@[0] != "en"@[0]);
}

} // verus!
