//! What each operation of the service does, told by its inputs and its results.

use vstd::prelude::*;

use crate::config::Config;
use crate::engine::detector::Verdict;
use crate::engine::dict;
use crate::engine::dict::Dict;
use crate::engine::lang_score;
use crate::engine::state;
use crate::engine::state::{ModState, StateView, TokenView, WordEntry};
use crate::error::Error;
use crate::hyprland::HyprEvent;
use crate::input::{KeyEvent, KeyKind};
use crate::service;
use crate::service::key_laws;
use crate::service::word_laws;
use crate::service::{
    Action, Conversion, CoreMsg, KeyAction, KeyClass, MsgAction, Polled, Service, SwapEnd, WaitStep,
};
use crate::text;
use crate::xkb;
use crate::xkb::{Decoded, LayoutMask, XkbState};

verus! {

// ---------------------------------------------------------------------------
// Keys
// ---------------------------------------------------------------------------

/// A key event moves the state and asks for what `event_outcome` says, and touches
/// neither the settings nor the layouts nor the dictionaries. Its kind, its key and
/// the moment count; the device and its own time stamp do not.
pub proof fn a_key_event_moves_the_word_state_only(
    s: &mut Service,
    ev: &KeyEvent,
    now: u64,
    text: String,
    keysym: u32,
    r: KeyAction,
)
    requires
        call_ensures(Service::handle_key, (s, ev, now, text, keysym), r),
    ensures
        final(s).state@ == old(s).event_outcome(ev.kind, ev.keycode, now, text@, keysym).state,
        r@ == old(s).event_outcome(ev.kind, ev.keycode, now, text@, keysym).action,
        *final(s) == (Service { state: final(s).state, ..*old(s) }),
        final(s).wf(),
{
    word_laws::the_setting_is_everything_else(*final(s), *old(s));
}

/// Space, Tab and both Enter keys have a word in progress evaluated, whatever text
/// the keymap has for them: the caller is handed the key as the boundary, the other
/// layout and the position of every key of the word.
pub proof fn boundary_keys_have_the_word_evaluated(
    s: &mut Service,
    ev: &KeyEvent,
    now: u64,
    text: String,
    keysym: u32,
    r: KeyAction,
    i: int,
)
    requires
        call_ensures(Service::handle_key, (s, ev, now, text, keysym), r),
        ev.kind == KeyKind::Press,
        ev.keycode == 57 || ev.keycode == 15 || ev.keycode == 28 || ev.keycode == 96,
        key_laws::no_command(old(s).state.mods),
        !xkb::modifier_keysym(keysym),
        !xkb::navigation_keysym(keysym),
        key_laws::word_before(*old(s), now).len() > 0,
        old(s).xkb.names().len() >= 2,
    ensures
        r is Evaluate,
        r->boundary_kc == ev.keycode,
        r->Evaluate_layout == old(s).other_layout(),
        r->Evaluate_positions@.len() == key_laws::word_before(*old(s), now).len(),
        0 <= i < r->Evaluate_positions@.len() ==> r->Evaluate_positions@[i] == (
            key_laws::word_before(*old(s), now)[i].keycode,
            key_laws::word_before(*old(s), now)[i].shift,
        ),
        final(s).state.buffer@ == key_laws::word_before(*old(s), now),
{
    key_laws::space_tab_and_enter_end_the_word(*old(s), ev.keycode, now, text@, keysym);
    assert(final(s).state@.buffer == final(s).state.buffer@);
}

/// What a press means, by key, text and keysym.
pub proof fn what_a_press_means(
    kc: u32,
    mods: &ModState,
    is_mod: bool,
    decoded: &Decoded,
    r: KeyClass,
)
    requires
        is_mod == !key_laws::no_modifier_key(kc),
        call_ensures(service::key_class, (KeyKind::Press, kc, mods, is_mod, decoded), r),
    ensures
        !key_laws::no_command(*mods) ==> r == if is_mod {
            KeyClass::Quiet
        } else {
            KeyClass::Flush
        },
        key_laws::no_command(*mods) && (is_mod || decoded.is_modifier) ==> r == KeyClass::Quiet,
        key_laws::no_command(*mods) && !is_mod && !decoded.is_modifier ==> {
            &&& decoded.is_navigation ==> r == KeyClass::Flush
            &&& !decoded.is_navigation && (kc == 57 || kc == 15 || kc == 28 || kc == 96) ==> r
                == KeyClass::Boundary
            &&& !decoded.is_navigation && kc == 14 ==> r == KeyClass::Erase
            &&& !decoded.is_navigation && key_laws::no_special_key(kc) ==> match decoded.utf8 {
                None => r == KeyClass::Quiet,
                Some(s) => {
                    &&& s@.len() == 0 || text::control(s@[0]) ==> r == KeyClass::Quiet
                    &&& s@.len() == 1 && key_laws::punctuation_mark(s@[0]) ==> r
                        == KeyClass::Punct(s@[0])
                    &&& s@.len() > 0 && !text::control(s@[0]) && (s@.len() > 1
                        || !key_laws::punctuation_mark(s@[0])) ==> r == if kc == 39 || kc == 40
                        || kc == 51 || kc == 52 {
                        KeyClass::PunctPosition(s@[0])
                    } else {
                        KeyClass::Letter(s@[0])
                    }
                },
            }
        },
{
}

/// Releases and repeats mean nothing for the word.
pub proof fn other_events_mean_nothing(
    kind: KeyKind,
    kc: u32,
    mods: &ModState,
    is_mod: bool,
    decoded: &Decoded,
    r: KeyClass,
)
    requires
        kind == KeyKind::Release || kind == KeyKind::Repeat,
        call_ensures(service::key_class, (kind, kc, mods, is_mod, decoded), r),
    ensures
        r == KeyClass::Quiet,
{
}

/// The keys and the marks, as they are told apart one by one.
pub proof fn keys_are_told_apart_by_number(
    kc: u32,
    boundary: bool,
    punct: bool,
    s: &str,
    mark: bool,
)
    requires
        call_ensures(service::is_boundary_keycode, (kc,), boundary),
        call_ensures(service::is_punct_keycode, (kc,), punct),
        call_ensures(service::is_punct_char, (s,), mark),
    ensures
        boundary <==> kc == 57 || kc == 15 || kc == 28 || kc == 96,
        punct <==> kc == 39 || kc == 40 || kc == 51 || kc == 52,
        mark <==> s@.len() == 1 && key_laws::punctuation_mark(s@[0]),
{
}

/// A punctuation key that was tried joins the word if that makes it a word of the
/// other language, with the entry that was handed out; else it ends the word.
pub proof fn a_tried_key_joins_the_word_or_ends_it(
    s: &mut Service,
    entry: WordEntry,
    swapped: Option<&str>,
    r: KeyAction,
)
    requires
        call_ensures(Service::finish_punct, (s, entry, swapped), r),
    ensures
        ({
            let word = old(s).state@.buffer;
            let several = old(s).xkb.names().len() >= 2;
            let joins = word.len() > 0 && several && swapped is Some && old(s).dictionary(
                old(s).other_layout(),
            ).knows(swapped->0@);
            &&& joins ==> r is Done && final(s).state@ == (StateView {
                buffer: word.push(entry),
                ..old(s).state@
            })
            &&& !joins && word.len() > 0 && several ==> r@ == Action::Evaluate {
                boundary_kc: entry.keycode,
                layout: old(s).other_layout(),
                positions: state::word_positions(word),
            } && final(s).state@ == old(s).state@
            &&& !joins && (word.len() == 0 || !several) ==> r is Done && final(s).state@ == (
            StateView { buffer: Seq::empty(), ..old(s).state@ })
            &&& *final(s) == (Service { state: final(s).state, ..*old(s) })
        }),
{
    word_laws::the_setting_is_everything_else(*final(s), *old(s));
    if old(s).state@.buffer.len() == 0 {
        assert(old(s).state@.buffer == Seq::<WordEntry>::empty());
        assert(old(s).state@ == (StateView { buffer: Seq::empty(), ..old(s).state@ }));
    }
}

/// The end of a word, where it is called for directly.
pub proof fn ending_a_word_has_it_evaluated(s: &mut Service, boundary_kc: u32, r: KeyAction)
    requires
        call_ensures(Service::on_word_boundary, (s, boundary_kc), r),
    ensures
        ({
            let word = old(s).state@.buffer;
            let several = old(s).xkb.names().len() >= 2;
            &&& word.len() > 0 && several ==> r@ == Action::Evaluate {
                boundary_kc,
                layout: old(s).other_layout(),
                positions: state::word_positions(word),
            } && final(s).state@.buffer == word
            &&& word.len() == 0 || !several ==> r is Done && final(s).state@.buffer.len() == 0
            &&& final(s).state@ == (StateView {
                buffer: final(s).state@.buffer,
                ..old(s).state@
            })
        }),
{
}

/// Whether a key completes a word of the current or of the other language.
pub proof fn which_keys_complete_a_word(
    s: &Service,
    ch: char,
    current: bool,
    swapped: Option<&str>,
    other: bool,
)
    requires
        call_ensures(Service::letter_completes_current_lang_word, (s, ch), current),
        call_ensures(Service::punct_completes_other_lang_word, (s, swapped), other),
    ensures
        current <==> s.state@.buffer.len() > 0 && s.dictionary(s.xkb.active()).knows(
            state::word_text(s.state@.buffer).push(ch),
        ),
        other <==> s.state@.buffer.len() > 0 && s.xkb.names().len() >= 2 && swapped is Some
            && s.dictionary(s.other_layout()).knows(swapped->0@),
{
}

// ---------------------------------------------------------------------------
// Words
// ---------------------------------------------------------------------------

/// Evaluating a word in progress, in full. Without another layout it is forgotten.
/// Where the other layout could not be decoded the error names the layouts and the
/// word stays. Else the verdict decides: a word in the wrong layout is converted
/// with the recent tokens of the same layout, to the next layout, and any other is
/// not.
pub proof fn evaluating_a_word(
    s: &mut Service,
    boundary_kc: u32,
    swapped: Option<&str>,
    swap_outweighs: bool,
    now: u64,
    r: Result<Option<Conversion>, Error>,
)
    requires
        call_ensures(Service::auto_evaluate, (s, boundary_kc, swapped, swap_outweighs, now), r),
    ensures
        *final(s) == (Service { state: final(s).state, ..*old(s) }),
        old(s).xkb.names().len() < 2 ==> r is Ok && r->Ok_0 is None && final(s).state@ == (
        StateView { buffer: Seq::empty(), ..old(s).state@ }),
        old(s).xkb.names().len() >= 2 && swapped is None ==> {
            &&& r matches Err(Error::XkbCompile { layout, variant })
            &&& layout@ == old(s).layouts_csv@
            &&& variant@ == old(s).variants_csv@
            &&& final(s).state@ == old(s).state@
        },
        old(s).xkb.names().len() >= 2 && swapped is Some ==> {
            let v = old(s).word_verdict(swapped->0@, swap_outweighs);
            &&& r is Ok
            &&& r->Ok_0 is Some <==> v == Verdict::MisLayout
            &&& final(s).state@ == old(s).after_verdict(v, boundary_kc, now)
            &&& r->Ok_0 matches Some(c) ==> {
                &&& c.target == old(s).other_layout()
                &&& c.script@ == service::conversion(
                    old(s).state@.prev_tokens.filter(
                        |t: TokenView|
                            word_laws::recent(
                                t,
                                now,
                                old(s).cfg.detector.retro_window_ms,
                                old(s).xkb.active(),
                            ),
                    ),
                    old(s).state@.buffer,
                    boundary_kc,
                    old(s).other_layout(),
                )
            }
        },
{
    word_laws::the_setting_is_everything_else(*final(s), *old(s));
    word_laws::a_service_converts_its_word(*old(s), boundary_kc, now);
}

/// Converting the word in progress: the script is that of the word and of the
/// recent tokens of the same layout, and from then on no token waits.
pub proof fn converting_a_word(s: &mut Service, boundary_kc: u32, now: u64, r: Conversion)
    requires
        call_ensures(Service::auto_replay, (s, boundary_kc, now), r),
    ensures
        r.target == old(s).other_layout(),
        r.script@ == service::conversion(
            old(s).state@.prev_tokens.filter(
                |t: TokenView|
                    word_laws::recent(
                        t,
                        now,
                        old(s).cfg.detector.retro_window_ms,
                        old(s).xkb.active(),
                    ),
            ),
            old(s).state@.buffer,
            boundary_kc,
            old(s).other_layout(),
        ),
        final(s).state@ == (StateView {
            prev_tokens: Seq::empty(),
            replaying: true,
            ..old(s).state@
        }),
        *final(s) == (Service { state: final(s).state, ..*old(s) }),
{
    word_laws::the_setting_is_everything_else(*final(s), *old(s));
    word_laws::a_service_converts_its_word(*old(s), boundary_kc, now);
}

/// After a conversion that went well its target is the active layout, locked with
/// no modifier depressed, and the word is gone. After one that failed only the
/// replay mark goes. Waiting tokens, modifiers and settings stay either way.
pub proof fn the_end_of_a_conversion(
    s: &mut Service,
    target: u32,
    done: bool,
    r: Option<LayoutMask>,
)
    requires
        call_ensures(Service::finish_replay, (s, target, done), r),
    ensures
        done ==> {
            &&& final(s).xkb.active() == target
            &&& final(s).state@ == (StateView {
                replaying: false,
                layout_idx: target,
                buffer: Seq::empty(),
                ..old(s).state@
            })
            &&& r == Some(LayoutMask { depressed_mods: 0, locked_layout: target })
            &&& final(s).xkb.names() == old(s).xkb.names()
        },
        !done ==> {
            &&& final(s).xkb == old(s).xkb
            &&& final(s).state@ == (StateView { replaying: false, ..old(s).state@ })
            &&& r is None
        },
        final(s).cfg == old(s).cfg && final(s).en == old(s).en && final(s).ru == old(s).ru,
{
    word_laws::the_setting_is_everything_else(*final(s), *old(s));
}

/// The scores of the word in progress and of its swapped form are made in the
/// languages of the active and of the other layout.
pub proof fn the_word_is_scored_in_both_languages(
    s: &Service,
    swapped: &str,
    r: Option<(Vec<Option<u32>>, Vec<Option<u32>>)>,
)
    requires
        call_ensures(Service::word_scores, (s, swapped), r),
    ensures
        ({
            let word = state::word_text(s.state@.buffer);
            let a = lang_score::layout_score(word, s.xkb.name_at(s.xkb.active()));
            let b = lang_score::layout_score(swapped@, s.xkb.name_at(s.other_layout()));
            &&& r is Some <==> a is Some && b is Some
            &&& r matches Some(p) ==> a == Some(p.0@) && b == Some(p.1@)
        }),
{
}

// ---------------------------------------------------------------------------
// Other messages
// ---------------------------------------------------------------------------

/// A key is handed back to be decoded, as it came in; a request to swap the
/// selection forgets the word and what waits, and waits itself exactly if Ctrl, Alt
/// or Super is held; an event of the compositor is followed.
pub proof fn messages_are_taken_one_by_one(s: &mut Service, msg: CoreMsg, r: MsgAction)
    requires
        call_ensures(Service::handle_msg, (s, msg), r),
    ensures
        msg matches CoreMsg::Key(ev) ==> r == MsgAction::DecodeKey(ev) && final(s).state@ == old(
            s,
        ).state@,
        msg matches CoreMsg::Hypr(ev) ==> final(s).follows(old(s), ev) && (r is Done <==> old(
            s,
        ).lock_for(ev) is None) && (old(s).lock_for(ev) matches Some(mask) ==> r
            == MsgAction::LockLayout(mask)),
        msg is SwapSelection ==> {
            &&& r matches MsgAction::SwapSelection { wait }
            &&& wait == !key_laws::no_command(old(s).state.mods)
            &&& final(s).state@ == (StateView {
                buffer: Seq::empty(),
                prev_tokens: Seq::empty(),
                ..old(s).state@
            })
        },
        !(msg is Hypr) ==> *final(s) == (Service { state: final(s).state, ..*old(s) }),
{
    word_laws::the_setting_is_everything_else(*final(s), *old(s));
}

/// An event of the compositor, and a request to swap, where they are taken directly.
pub proof fn compositor_events_and_swap_requests(
    a: &mut Service,
    ev: &HyprEvent,
    lock: Option<LayoutMask>,
    b: &mut Service,
    wait: bool,
)
    requires
        call_ensures(Service::handle_hypr, (a, ev), lock),
        call_ensures(Service::swap_selection, (b,), wait),
    ensures
        final(a).follows(old(a), *ev),
        lock == old(a).lock_for(*ev),
        wait == !key_laws::no_command(old(b).state.mods),
        final(b).state@ == (StateView {
            buffer: Seq::empty(),
            prev_tokens: Seq::empty(),
            ..old(b).state@
        }),
        *final(b) == (Service { state: final(b).state, ..*old(b) }),
{
    word_laws::the_setting_is_everything_else(*final(b), *old(b));
}

/// The wait for the modifiers is over exactly if the queue is closed, neither Ctrl
/// nor Alt nor Super is held any more, or the time is up.
pub proof fn the_end_of_the_wait(
    s: &mut Service,
    polled: Polled,
    started: u64,
    now: u64,
    max_wait_ms: u64,
    r: WaitStep,
)
    requires
        call_ensures(
            Service::wait_for_modifier_release,
            (s, polled, started, now, max_wait_ms),
            r,
        ),
    ensures
        r.over <==> {
            ||| polled is Closed
            ||| key_laws::no_command(final(s).state.mods)
            ||| (if now > started {
                now - started
            } else {
                0
            }) >= max_wait_ms * 1_000_000
        },
        final(s).absorbs(old(s), polled),
        polled matches Polled::Message(CoreMsg::Hypr(ev)) ==> r.lock == old(s).lock_for(ev),
        !(polled matches Polled::Message(CoreMsg::Hypr(_))) ==> r.lock is None,
        service::MODIFIER_WAIT_MS == 400,
        service::POLL_PAUSE_MS == 5,
{
}

/// A swap that went well leaves its target as the active layout, and any other
/// nothing but the replay mark taken off. The word state is otherwise as it was.
pub proof fn the_end_of_a_swap(
    a: &mut Service,
    b: &mut Service,
    end: SwapEnd,
    r: Option<LayoutMask>,
)
    requires
        call_ensures(Service::start_swap, (a,), ()),
        call_ensures(Service::finish_swap, (b, end), r),
    ensures
        final(a).state@ == (StateView { replaying: true, ..old(a).state@ }),
        *final(a) == (Service { state: final(a).state, ..*old(a) }),
        end matches SwapEnd::Swapped(target) ==> {
            &&& final(b).xkb.active() == target
            &&& final(b).xkb.names() == old(b).xkb.names()
            &&& final(b).state@ == (StateView {
                replaying: false,
                layout_idx: target,
                ..old(b).state@
            })
            &&& r == Some(LayoutMask { depressed_mods: 0, locked_layout: target })
        },
        !(end is Swapped) ==> {
            &&& *final(b) == (Service { state: final(b).state, ..*old(b) })
            &&& final(b).state@ == (StateView { replaying: false, ..old(b).state@ })
            &&& r is None
        },
        final(b).cfg == old(b).cfg && final(b).en == old(b).en && final(b).ru == old(b).ru,
{
    word_laws::the_setting_is_everything_else(*final(a), *old(a));
    word_laws::the_setting_is_everything_else(*final(b), *old(b));
}

// ---------------------------------------------------------------------------
// The start
// ---------------------------------------------------------------------------

/// The layouts to work with are those that the compositor reports, unless it
/// reports none.
pub proof fn reported_layouts_come_first(
    reported: Option<&str>,
    default_layout: &str,
    r: String,
    xkb: &XkbState,
    name: &str,
    idx: Option<u32>,
)
    requires
        call_ensures(service::choose_layouts, (reported, default_layout), r),
        call_ensures(service::layout_index, (xkb, name), idx),
    ensures
        reported is Some && reported->0@.len() > 0 ==> r@ == reported->0@,
        reported is None || reported->0@.len() == 0 ==> r@ == default_layout@,
        idx is Some <==> service::named_layout(xkb.names(), name@) is Some,
        idx matches Some(i) ==> service::named_layout(xkb.names(), name@) == Some(i as int),
{
}

/// The lowercase form of an extra word of the settings.
pub open spec fn extra_word(cfg: Config, w: Seq<char>) -> bool {
    exists|k: int|
        0 <= k < cfg.dictionaries.extra_words@.len() && text::lower_text(
            (#[trigger] cfg.dictionaries.extra_words@[k])@,
        ) == w
}

/// A service is built exactly if the keymap of its layouts compiles. It starts with
/// nothing typed on the first layout, with the settings as given, and its
/// dictionaries hold the words of the lists and the extra words of the settings,
/// which count as natural ones in both languages.
pub proof fn a_service_starts_with_its_dictionaries(
    cfg: Config,
    layouts_csv: String,
    variants_csv: String,
    compiled: bool,
    en_lines: Option<&Vec<String>>,
    ru_lines: Option<&Vec<String>>,
    r: Result<Service, Error>,
    i: int,
    w: Seq<char>,
)
    requires
        call_ensures(
            Service::build,
            (cfg, layouts_csv, variants_csv, compiled, en_lines, ru_lines),
            r,
        ),
    ensures
        r is Ok <==> compiled,
        r matches Err(e) ==> e matches Error::XkbCompile { layout, variant } && layout@
            == layouts_csv@ && variant@ == variants_csv@,
        r matches Ok(s) ==> {
            &&& s.cfg == cfg && s.layouts_csv == layouts_csv && s.variants_csv == variants_csv
            &&& s.xkb.names() == text::list_items(layouts_csv@) && s.xkb.active() == 0
            &&& s.xkb.variant_names() == text::list_items(variants_csv@)
            &&& s.state@.buffer.len() == 0 && s.state@.prev_tokens.len() == 0
                && !s.state.replaying && s.state.layout_idx == 0 && s.state.last_event_at is None
            &&& s.en.words().contains(w) <==> service::list_words(en_lines).contains(w)
                || extra_word(cfg, w)
            &&& s.ru.words().contains(w) <==> service::list_words(ru_lines).contains(w)
                || extra_word(cfg, w)
            &&& s.en.natural_words().contains(w) <==> service::list_natural_words(
                en_lines,
            ).contains(w) || extra_word(cfg, w)
            &&& s.ru.natural_words().contains(w) <==> service::list_natural_words(
                ru_lines,
            ).contains(w) || extra_word(cfg, w)
            &&& 0 <= i < cfg.dictionaries.extra_words@.len() ==> {
                let extra = cfg.dictionaries.extra_words@[i]@;
                &&& s.en.knows(extra) && s.en.knows_naturally(extra)
                &&& s.ru.knows(extra) && s.ru.knows_naturally(extra)
            }
            &&& !s.empty_dict.knows(w) && !s.empty_dict.knows_naturally(w)
        },
{
    if r is Ok {
        let s = r->Ok_0;
        let extra = text::views(cfg.dictionaries.extra_words@);
        let a = service::list_words(en_lines);
        let b = service::list_natural_words(en_lines);
        let c = service::list_words(ru_lines);
        let d = service::list_natural_words(ru_lines);
        assert(extra_word(cfg, w) <==> exists|k: int|
            0 <= k < extra.len() && text::lower_text(#[trigger] extra[k]) == w) by {
            let words = cfg.dictionaries.extra_words@;
            if extra_word(cfg, w) {
                let k = choose|k: int|
                    0 <= k < words.len() && text::lower_text((#[trigger] words[k])@) == w;
                assert(extra[k] == words[k]@);
            }
            if exists|k: int| 0 <= k < extra.len() && text::lower_text(#[trigger] extra[k]) == w {
                let k = choose|k: int|
                    0 <= k < extra.len() && text::lower_text(#[trigger] extra[k]) == w;
                assert(extra[k] == words[k]@);
            }
        }
        dict::added_words_are_known(a, extra, w);
        dict::added_words_are_known(b, extra, w);
        dict::added_words_are_known(c, extra, w);
        dict::added_words_are_known(d, extra, w);
        if 0 <= i < extra.len() {
            let low = text::lower_text(extra[i]);
            assert(extra[i] == cfg.dictionaries.extra_words@[i]@);
            dict::added_words_are_known(a, extra, low);
            dict::added_words_are_known(b, extra, low);
            dict::added_words_are_known(c, extra, low);
            dict::added_words_are_known(d, extra, low);
        }
    }
}

/// The model of an action has what the action has, and the dictionary of a layout
/// is the one that goes by its name.
pub proof fn the_model_has_what_the_action_has(
    entry: WordEntry,
    layout: u32,
    positions: Vec<(u32, bool)>,
    boundary_kc: u32,
    s: &Service,
    idx: u32,
    d: &dict::HunspellDict,
)
    requires
        call_ensures(Service::dict_for_layout, (s, idx), d),
    ensures
        KeyAction::Done@ == Action::Done,
        (KeyAction::TryPunct { entry, layout, positions })@ == (Action::TryPunct {
            entry,
            layout,
            positions: positions@,
        }),
        (KeyAction::Evaluate { boundary_kc, layout, positions })@ == (Action::Evaluate {
            boundary_kc,
            layout,
            positions: positions@,
        }),
        *d == s.dictionary(idx),
{
}

} // verus!
