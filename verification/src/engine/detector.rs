//! Layout-mismatch detector. Given a finished word in two forms, what the user
//! actually typed in the *current* layout and what those same physical keys
//! would have produced in the *other* layout, it returns a verdict on whether
//! to leave the word alone or trigger a layout switch + replay.
//!
//! Two paths share a 2-char hard floor:
//!   1. Dictionary path. If the current text is in the current dictionary, the
//!      current layout is trusted; if the swapped text is in the other
//!      dictionary (and the current one is not known), the verdict is
//!      `MisLayout`. Fires from 2 chars: a hit in the *other* dictionary is
//!      strong enough evidence to act on short common function words ("ты",
//!      "на", "то").
//!      Special case for short tokens: a current-side match that exists only
//!      as an all-uppercase ASCII acronym ("NS", "VS") is treated as a weak
//!      hit and yields to a natural-word match on the swap side. Without
//!      this, lowercase Russian function words typed in EN never swap
//!      because the EN dictionary's abbreviations shadow them.
//!   2. Statistical fallback. When neither dictionary recognises the word,
//!      the weights of the letter frequencies of the two forms in their
//!      languages decide, if both can be scored. The caller compares them.

use vstd::prelude::*;

use crate::engine::dict::Dict;
use crate::engine::lang_score;
use crate::engine::lang_score::score;
use crate::text;
use crate::text::{chars_of, is_ascii_digit, is_white_space};

verus! {

#[derive(Debug, Clone, Copy, PartialEq, Eq, Structural)]
pub enum Verdict {
    /// Word looks correct (or there is not enough confidence to act).
    Correct,
    /// Word should be retyped in the *other* layout.
    MisLayout,
    /// Word too short, contains digits or spaces, or the detector is otherwise
    /// abstaining.
    Unknown,
}

/// Absolute minimum length for any swap action. Below this, the detector
/// abstains regardless of evidence quality: single-char tokens are too
/// ambiguous.
pub const MIN_ACTION_LEN: usize = 2;

/// Token length at or below which the acronym-shadowing tie-break applies.
pub const SHORT_TIEBREAK_LEN: usize = 3;

/// A word with a digit or white space in it is no candidate at all.
pub open spec fn unsuitable(word: Seq<char>) -> bool {
    exists|i: int|
        0 <= i < word.len() && (text::ascii_digit(#[trigger] word[i]) || text::white_space(word[i]))
}

/// The verdict on a word, given what the two dictionaries say of its two forms
/// and whether the letters of the swapped form weigh enough more.
pub open spec fn verdict(
    word: Seq<char>,
    known: bool,
    natural: bool,
    swap_known: bool,
    swap_natural: bool,
    swap_outweighs: bool,
) -> Verdict {
    if unsuitable(word) {
        Verdict::Unknown
    } else if known {
        if MIN_ACTION_LEN <= word.len() <= SHORT_TIEBREAK_LEN && !natural && swap_natural {
            Verdict::MisLayout
        } else {
            Verdict::Correct
        }
    } else if word.len() >= MIN_ACTION_LEN && (swap_known || swap_outweighs) {
        Verdict::MisLayout
    } else {
        Verdict::Unknown
    }
}

fn has_digit_or_space(chars: &Vec<char>) -> (r: bool)
    ensures
        r == unsuitable(chars@),
{
    let mut i: usize = 0;
    while i < chars.len()
        invariant
            i <= chars.len(),
            forall|j: int|
                0 <= j < i ==> !text::ascii_digit(#[trigger] chars@[j]) && !text::white_space(
                    chars@[j],
                ),
        decreases chars.len() - i,
    {
        if is_ascii_digit(chars[i]) || is_white_space(chars[i]) {
            assert(text::ascii_digit(chars@[i as int]) || text::white_space(chars@[i as int]));
            return true;
        }
        i = i + 1;
    }
    false
}

/// Both forms of a word can be scored in their languages.
pub open spec fn comparable(
    current: Seq<char>,
    swapped: Seq<char>,
    cur_lang: Seq<char>,
    other_lang: Seq<char>,
) -> bool {
    lang_score::layout_score(current, cur_lang) is Some && lang_score::layout_score(
        swapped,
        other_lang,
    ) is Some
}

/// The scores of the two forms, for the caller to weigh against each other; none
/// if one of them has no score.
pub fn fallback_scores(
    current_text: &str,
    swapped_text: &str,
    cur_lang: &str,
    other_lang: &str,
) -> (r: Option<(Vec<Option<u32>>, Vec<Option<u32>>)>)
    ensures
        r is Some == comparable(current_text@, swapped_text@, cur_lang@, other_lang@),
        r matches Some(p) ==> {
            &&& lang_score::layout_score(current_text@, cur_lang@) == Some(p.0@)
            &&& lang_score::layout_score(swapped_text@, other_lang@) == Some(p.1@)
        },
{
    match (score(current_text, cur_lang), score(swapped_text, other_lang)) {
        (Some(a), Some(b)) => Some((a, b)),
        _ => None,
    }
}

/// Judges a finished word. `swap_outweighs` tells whether the weight of the
/// swapped form's score exceeds that of the current form's by more than the
/// configured delta; it counts only where both forms have a score.
pub fn classify<C: Dict, O: Dict>(
    current_text: &str,
    swapped_text: &str,
    cur_dict: &C,
    other_dict: &O,
    cur_lang: &str,
    other_lang: &str,
    swap_outweighs: bool,
) -> (r: Verdict)
    ensures
        r == verdict(
            current_text@,
            cur_dict.knows(current_text@),
            cur_dict.knows_naturally(current_text@),
            other_dict.knows(swapped_text@),
            other_dict.knows_naturally(swapped_text@),
            swap_outweighs && comparable(current_text@, swapped_text@, cur_lang@, other_lang@),
        ),
{
    let chars = chars_of(current_text);
    if has_digit_or_space(&chars) {
        return Verdict::Unknown;
    }
    let cur_known: bool = cur_dict.lookup(current_text);
    // If the current-side match exists only as an acronym and the swap form is
    // a real natural word in the other dictionary, the user almost certainly
    // typed in the wrong layout.
    if cur_known && chars.len() >= MIN_ACTION_LEN && chars.len() <= SHORT_TIEBREAK_LEN
        && !cur_dict.lookup_natural(current_text) && other_dict.lookup_natural(swapped_text) {
        return Verdict::MisLayout;
    }
    if cur_known {
        return Verdict::Correct;
    }
    if chars.len() < MIN_ACTION_LEN {
        return Verdict::Unknown;
    }
    if other_dict.lookup(swapped_text) {
        return Verdict::MisLayout;
    }
    // Only when the *other* dictionary was no help either: a dictionary hit on
    // the current side is never overridden.
    if swap_outweighs && fallback_scores(
        current_text,
        swapped_text,
        cur_lang,
        other_lang,
    ).is_some() {
        return Verdict::MisLayout;
    }
    Verdict::Unknown
}

/// A token of fewer than two characters is never acted on, whatever the
/// evidence.
pub proof fn short_tokens_are_never_acted_on(
    word: Seq<char>,
    known: bool,
    natural: bool,
    swap_known: bool,
    swap_natural: bool,
    swap_outweighs: bool,
)
    requires
        word.len() < 2,
    ensures
        verdict(word, known, natural, swap_known, swap_natural, swap_outweighs)
            != Verdict::MisLayout,
{
}

/// A natural word of the current language is left alone, and so is any known
/// word of more than three characters: neither the other dictionary nor the
/// letter statistics override it.
pub proof fn known_words_are_left_alone(
    word: Seq<char>,
    natural: bool,
    swap_known: bool,
    swap_natural: bool,
    swap_outweighs: bool,
)
    requires
        !unsuitable(word),
        natural || word.len() > 3,
    ensures
        verdict(word, true, natural, swap_known, swap_natural, swap_outweighs) == Verdict::Correct,
{
}

/// An unknown word of two characters or more is converted as soon as the other
/// dictionary knows its swapped form.
pub proof fn other_dictionary_decides(
    word: Seq<char>,
    natural: bool,
    swap_natural: bool,
    swap_outweighs: bool,
)
    requires
        !unsuitable(word),
        word.len() >= 2,
    ensures
        verdict(word, false, natural, true, swap_natural, swap_outweighs) == Verdict::MisLayout,
{
}

/// A language without a frequency table switches the statistical fallback off.
pub proof fn unsupported_languages_have_no_fallback(
    current: Seq<char>,
    swapped: Seq<char>,
    cur_lang: Seq<char>,
    other_lang: Seq<char>,
)
    requires
        lang_score::layout_alphabet(cur_lang) is None || lang_score::layout_alphabet(
            other_lang,
        ) is None,
    ensures
        !comparable(current, swapped, cur_lang, other_lang),
{
}

/// The detector never acts without evidence for the swapped form: it is a word
/// of the other language, or its letters outweigh those that were typed.
pub proof fn no_action_without_evidence(
    word: Seq<char>,
    known: bool,
    natural: bool,
    swap_known: bool,
    swap_natural: bool,
    swap_outweighs: bool,
)
    requires
        verdict(word, known, natural, swap_known, swap_natural, swap_outweighs)
            == Verdict::MisLayout,
    ensures
        swap_known || swap_natural || swap_outweighs,
        !unsuitable(word),
        word.len() >= 2,
{
}

/// Judging a word, in full. A word with a digit or white space is not judged. Of
/// the others a word that the current dictionary knows is correct, unless it has
/// two or three characters, is known as an acronym only and its swapped form is a
/// natural word; one that it does not know is in the wrong layout exactly if it
/// has two characters or more, however many, and the other dictionary knows its
/// swapped form or the letters outweigh it.
pub proof fn the_verdict_in_full(
    word: Seq<char>,
    known: bool,
    natural: bool,
    swap_known: bool,
    swap_natural: bool,
    swap_outweighs: bool,
)
    ensures
        ({
            let v = verdict(word, known, natural, swap_known, swap_natural, swap_outweighs);
            let judged = forall|i: int|
                0 <= i < word.len() ==> !(48 <= (#[trigger] word[i]) as u32 <= 57)
                    && !text::white_space(word[i]);
            let yields = (word.len() == 2 || word.len() == 3) && !natural && swap_natural;
            let evidence = word.len() != 0 && word.len() != 1 && (swap_known || swap_outweighs);
            &&& v == Verdict::MisLayout <==> judged && (if known {
                yields
            } else {
                evidence
            })
            &&& v == Verdict::Correct <==> judged && known && !yields
            &&& v == Verdict::Unknown <==> !judged || !known && !evidence
        }),
{
    let judged = forall|i: int|
        0 <= i < word.len() ==> !(48 <= (#[trigger] word[i]) as u32 <= 57) && !text::white_space(
            word[i],
        );
    assert(judged == !unsuitable(word)) by {
        if unsuitable(word) {
            let i = choose|i: int|
                0 <= i < word.len() && (text::ascii_digit(#[trigger] word[i]) || text::white_space(
                    word[i],
                ));
            assert(48 <= word[i] as u32 <= 57 || text::white_space(word[i]));
        } else {
            assert forall|i: int| 0 <= i < word.len() implies !(48 <= (#[trigger] word[i]) as u32
                <= 57) && !text::white_space(word[i]) by {
                assert(!text::ascii_digit(word[i]));
            }
        }
    }
}

/// The letter statistics decide on words of every length: a word of two
/// characters or more, without digits and white space, that the current
/// dictionary does not know is in the wrong layout whenever both forms have a
/// score and the swapped one outweighs it.
pub proof fn the_statistics_decide_at_every_length(
    word: Seq<char>,
    swapped: Seq<char>,
    cur_lang: Seq<char>,
    other_lang: Seq<char>,
    natural: bool,
    swap_known: bool,
    swap_natural: bool,
)
    requires
        word.len() >= 2,
        forall|i: int|
            0 <= i < word.len() ==> !(48 <= (#[trigger] word[i]) as u32 <= 57)
                && !text::white_space(word[i]),
        lang_score::layout_score(word, cur_lang) is Some,
        lang_score::layout_score(swapped, other_lang) is Some,
    ensures
        verdict(
            word,
            false,
            natural,
            swap_known,
            swap_natural,
            comparable(word, swapped, cur_lang, other_lang),
        ) == Verdict::MisLayout,
{
    the_verdict_in_full(word, false, natural, swap_known, swap_natural, true);
}

/// Both forms are compared exactly if each has a language with a table and a
/// letter at least.
pub proof fn scores_are_compared_where_both_exist(
    current: Seq<char>,
    swapped: Seq<char>,
    cur_lang: Seq<char>,
    other_lang: Seq<char>,
)
    ensures
        comparable(current, swapped, cur_lang, other_lang) <==> {
            &&& cur_lang == "us"@ || cur_lang == "gb"@ || cur_lang == "en"@ || cur_lang == "ru"@
            &&& other_lang == "us"@ || other_lang == "gb"@ || other_lang == "en"@ || other_lang
                == "ru"@
            &&& lang_score::letters(current).len() > 0
            &&& lang_score::letters(swapped).len() > 0
        },
{
}

/// Judging asks both dictionaries and, where both forms have a score, the letters,
/// for words of every length. Of a word without digits and white space the verdict
/// is that it is in the wrong layout exactly if the current dictionary does not
/// know it, it has two characters or more, and the other dictionary knows its
/// swapped form or the letters of that outweigh it; or if it is known as an acronym
/// of two or three letters only and the swapped form is a natural word.
pub proof fn words_are_judged_at_every_length<C: Dict, O: Dict>(
    word: &str,
    swapped: &str,
    cur: &C,
    other: &O,
    cur_lang: &str,
    other_lang: &str,
    swap_outweighs: bool,
    r: Verdict,
)
    requires
        call_ensures(
            classify::<C, O>,
            (word, swapped, cur, other, cur_lang, other_lang, swap_outweighs),
            r,
        ),
        forall|i: int|
            0 <= i < word@.len() ==> !(48 <= (#[trigger] word@[i]) as u32 <= 57)
                && !text::white_space(word@[i]),
    ensures
        !cur.knows(word@) ==> (r == Verdict::MisLayout <==> word@.len() >= 2 && (other.knows(
            swapped@,
        ) || swap_outweighs && lang_score::layout_score(word@, cur_lang@) is Some
            && lang_score::layout_score(swapped@, other_lang@) is Some)),
        !cur.knows(word@) ==> r != Verdict::Correct,
        cur.knows(word@) ==> (r == Verdict::MisLayout <==> 2 <= word@.len() <= 3
            && !cur.knows_naturally(word@) && other.knows_naturally(swapped@)),
        cur.knows(word@) ==> r != Verdict::Unknown,
{
    the_verdict_in_full(
        word@,
        cur.knows(word@),
        cur.knows_naturally(word@),
        other.knows(swapped@),
        other.knows_naturally(swapped@),
        swap_outweighs && comparable(word@, swapped@, cur_lang@, other_lang@),
    );
}

/// A word with a digit or white space in it is never judged.
pub proof fn digits_and_spaces_are_never_judged<C: Dict, O: Dict>(
    word: &str,
    swapped: &str,
    cur: &C,
    other: &O,
    cur_lang: &str,
    other_lang: &str,
    swap_outweighs: bool,
    r: Verdict,
    i: int,
)
    requires
        call_ensures(
            classify::<C, O>,
            (word, swapped, cur, other, cur_lang, other_lang, swap_outweighs),
            r,
        ),
        0 <= i < word@.len(),
        48 <= word@[i] as u32 <= 57 || text::white_space(word@[i]),
    ensures
        r == Verdict::Unknown,
{
    assert(text::ascii_digit(word@[i]) || text::white_space(word@[i]));
}

/// The scores to weigh against each other are those of the two forms in their
/// languages, and there are some exactly if both have one.
pub proof fn both_forms_are_scored(
    word: &str,
    swapped: &str,
    cur_lang: &str,
    other_lang: &str,
    r: Option<(Vec<Option<u32>>, Vec<Option<u32>>)>,
)
    requires
        call_ensures(fallback_scores, (word, swapped, cur_lang, other_lang), r),
    ensures
        r is Some <==> lang_score::layout_score(word@, cur_lang@) is Some
            && lang_score::layout_score(swapped@, other_lang@) is Some,
        r matches Some(p) ==> lang_score::layout_score(word@, cur_lang@) == Some(p.0@)
            && lang_score::layout_score(swapped@, other_lang@) == Some(p.1@),
{
}

} // verus!
