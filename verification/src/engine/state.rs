//! In-memory state owned by the service: word buffer, layout index,
//! modifier tracker. Points in time are nanoseconds on a monotonic clock.

use vstd::prelude::*;

verus! {

/// One key the user typed that contributed a character to the current word.
/// Stores the raw evdev keycode (so it can be replayed positionally after a
/// layout switch) and whether shift was held when it was produced.
#[derive(Debug, Clone, Copy, PartialEq, Eq, Structural)]
pub struct WordEntry {
    pub ch: char,
    pub keycode: u32,
    pub shift: bool,
}

/// The text that a run of keys produced.
pub open spec fn word_text(entries: Seq<WordEntry>) -> Seq<char> {
    entries.map_values(|e: WordEntry| e.ch)
}

/// The physical keys of a run, with the shift state of each.
pub open spec fn word_positions(entries: Seq<WordEntry>) -> Seq<(u32, bool)> {
    entries.map_values(|e: WordEntry| (e.keycode, e.shift))
}

/// The word being typed, oldest key first.
#[derive(Debug, Clone)]
pub struct WordBuffer {
    pub entries: Vec<WordEntry>,
}

impl View for WordBuffer {
    type V = Seq<WordEntry>;

    open spec fn view(&self) -> Seq<WordEntry> {
        self.entries@
    }
}

impl Default for WordBuffer {
    fn default() -> (r: WordBuffer)
        ensures
            r@ == Seq::<WordEntry>::empty(),
    {
        WordBuffer { entries: Vec::new() }
    }
}

impl WordBuffer {
    pub fn push(&mut self, e: WordEntry)
        ensures
            final(self)@ == old(self)@.push(e),
    {
        self.entries.push(e);
    }

    /// Takes the newest key off, if there is one.
    pub fn pop(&mut self) -> (r: Option<WordEntry>)
        ensures
            old(self)@.len() == 0 ==> r is None && final(self)@ == old(self)@,
            old(self)@.len() > 0 ==> r == Some(old(self)@.last()) && final(self)@ == old(
                self,
            )@.drop_last(),
    {
        self.entries.pop()
    }

    pub fn clear(&mut self)
        ensures
            final(self)@ == Seq::<WordEntry>::empty(),
    {
        self.entries.clear();
    }

    pub fn len(&self) -> (r: usize)
        ensures
            r == self@.len(),
    {
        self.entries.len()
    }

    pub fn is_empty(&self) -> (r: bool)
        ensures
            r == (self@.len() == 0),
    {
        self.entries.len() == 0
    }

    /// The word as it appeared on the screen.
    pub fn text(&self) -> (r: String)
        ensures
            r@ == word_text(self@),
    {
        text_of(&self.entries)
    }
}

/// The text that a run of keys produced.
pub fn text_of(entries: &Vec<WordEntry>) -> (r: String)
    ensures
        r@ == word_text(entries@),
{
    let mut out = String::new();
    let mut i: usize = 0;
    while i < entries.len()
        invariant
            i <= entries.len(),
            out@ == word_text(entries@).take(i as int),
        decreases entries.len() - i,
    {
        out.push(entries[i].ch);
        i = i + 1;
    }
    assert(word_text(entries@).take(i as int) == word_text(entries@));
    out
}

/// The physical keys of a run, with the shift state of each.
pub fn positions_of(entries: &Vec<WordEntry>) -> (r: Vec<(u32, bool)>)
    ensures
        r@ == word_positions(entries@),
{
    let mut out: Vec<(u32, bool)> = Vec::new();
    let mut i: usize = 0;
    while i < entries.len()
        invariant
            i <= entries.len(),
            out@ == word_positions(entries@).take(i as int),
        decreases entries.len() - i,
    {
        out.push((entries[i].keycode, entries[i].shift));
        i = i + 1;
    }
    assert(word_positions(entries@).take(i as int) == word_positions(entries@));
    out
}

/// A copy of a run of keys.
pub fn copy_entries(entries: &Vec<WordEntry>) -> (r: Vec<WordEntry>)
    ensures
        r@ == entries@,
{
    let mut out: Vec<WordEntry> = Vec::new();
    let mut i: usize = 0;
    while i < entries.len()
        invariant
            i <= entries.len(),
            out@ == entries@.take(i as int),
        decreases entries.len() - i,
    {
        out.push(entries[i]);
        i = i + 1;
    }
    assert(entries@.take(i as int) == entries@);
    out
}

/// Modifier tracking, independent of xkb: the standard evdev modifier keycodes
/// are watched directly, so that the service has a fast bool to consult.
#[derive(Debug, Clone, Copy, PartialEq, Eq, Structural)]
pub struct ModState {
    pub shift_l: bool,
    pub shift_r: bool,
    pub ctrl_l: bool,
    pub ctrl_r: bool,
    pub alt_l: bool,
    pub alt_r: bool,
    pub super_l: bool,
    pub super_r: bool,
}

impl Default for ModState {
    fn default() -> (r: ModState)
        ensures
            r == ModState::none_held(),
    {
        ModState {
            shift_l: false,
            shift_r: false,
            ctrl_l: false,
            ctrl_r: false,
            alt_l: false,
            alt_r: false,
            super_l: false,
            super_r: false,
        }
    }
}

impl ModState {
    pub const KEY_LEFTCTRL: u32 = 29;

    pub const KEY_LEFTSHIFT: u32 = 42;

    pub const KEY_RIGHTSHIFT: u32 = 54;

    pub const KEY_LEFTALT: u32 = 56;

    pub const KEY_LEFTMETA: u32 = 125;

    pub const KEY_RIGHTCTRL: u32 = 97;

    pub const KEY_RIGHTALT: u32 = 100;

    pub const KEY_RIGHTMETA: u32 = 126;

    /// No modifier is down.
    pub open spec fn none_held() -> ModState {
        ModState {
            shift_l: false,
            shift_r: false,
            ctrl_l: false,
            ctrl_r: false,
            alt_l: false,
            alt_r: false,
            super_l: false,
            super_r: false,
        }
    }

    /// The eight keycodes that are tracked.
    pub open spec fn tracks(kc: u32) -> bool {
        kc == 42 || kc == 54 || kc == 29 || kc == 97 || kc == 56 || kc == 100 || kc == 125 || kc
            == 126
    }

    /// Whether the tracked key `kc` is down.
    pub open spec fn down(self, kc: u32) -> bool {
        ||| kc == 42 && self.shift_l
        ||| kc == 54 && self.shift_r
        ||| kc == 29 && self.ctrl_l
        ||| kc == 97 && self.ctrl_r
        ||| kc == 56 && self.alt_l
        ||| kc == 100 && self.alt_r
        ||| kc == 125 && self.super_l
        ||| kc == 126 && self.super_r
    }

    /// The state after the key `kc` went down or up.
    pub open spec fn after(self, kc: u32, pressed: bool) -> ModState {
        ModState {
            shift_l: if kc == 42 { pressed } else { self.shift_l },
            shift_r: if kc == 54 { pressed } else { self.shift_r },
            ctrl_l: if kc == 29 { pressed } else { self.ctrl_l },
            ctrl_r: if kc == 97 { pressed } else { self.ctrl_r },
            alt_l: if kc == 56 { pressed } else { self.alt_l },
            alt_r: if kc == 100 { pressed } else { self.alt_r },
            super_l: if kc == 125 { pressed } else { self.super_l },
            super_r: if kc == 126 { pressed } else { self.super_r },
        }
    }

    pub open spec fn shift_held(self) -> bool {
        self.shift_l || self.shift_r
    }

    /// A modifier other than shift is down: what is typed is a hotkey.
    pub open spec fn command_held(self) -> bool {
        self.ctrl_l || self.ctrl_r || self.alt_l || self.alt_r || self.super_l || self.super_r
    }

    /// Update on any key press/release. Returns true if `kc` is a modifier.
    pub fn update(&mut self, kc: u32, pressed: bool) -> (r: bool)
        ensures
            r == ModState::tracks(kc),
            *final(self) == old(self).after(kc, pressed),
    {
        if kc == Self::KEY_LEFTSHIFT {
            self.shift_l = pressed;
        } else if kc == Self::KEY_RIGHTSHIFT {
            self.shift_r = pressed;
        } else if kc == Self::KEY_LEFTCTRL {
            self.ctrl_l = pressed;
        } else if kc == Self::KEY_RIGHTCTRL {
            self.ctrl_r = pressed;
        } else if kc == Self::KEY_LEFTALT {
            self.alt_l = pressed;
        } else if kc == Self::KEY_RIGHTALT {
            self.alt_r = pressed;
        } else if kc == Self::KEY_LEFTMETA {
            self.super_l = pressed;
        } else if kc == Self::KEY_RIGHTMETA {
            self.super_r = pressed;
        } else {
            return false;
        }
        true
    }

    pub fn shift(&self) -> (r: bool)
        ensures
            r == self.shift_held(),
    {
        self.shift_l || self.shift_r
    }

    pub fn ctrl(&self) -> (r: bool)
        ensures
            r == (self.ctrl_l || self.ctrl_r),
    {
        self.ctrl_l || self.ctrl_r
    }

    pub fn alt(&self) -> (r: bool)
        ensures
            r == (self.alt_l || self.alt_r),
    {
        self.alt_l || self.alt_r
    }

    pub fn meta(&self) -> (r: bool)
        ensures
            r == (self.super_l || self.super_r),
    {
        self.super_l || self.super_r
    }

    /// Any non-shift modifier held: the kind that means "this is a hotkey,
    /// don't put the resulting key in the word buffer".
    pub fn any_command_modifier(&self) -> (r: bool)
        ensures
            r == self.command_held(),
    {
        self.ctrl() || self.alt() || self.meta()
    }
}

/// The modifier state is the set of tracked keys that are down: an event sets
/// its own key and leaves every other alone, and a key that is not tracked
/// changes nothing.
pub proof fn modifier_event_touches_its_key_only(m: ModState, kc: u32, pressed: bool, other: u32)
    ensures
        ModState::tracks(kc) ==> m.after(kc, pressed).down(kc) == pressed,
        other != kc ==> m.after(kc, pressed).down(other) == m.down(other),
        !ModState::tracks(kc) ==> m.after(kc, pressed) == m,
{
}

/// Pressing a modifier and letting it go restores a state in which it was up.
pub proof fn modifier_press_then_release(m: ModState, kc: u32)
    requires
        !m.down(kc),
    ensures
        m.after(kc, true).after(kc, false) == m,
{
}

/// A finished word that the detector chose not to act on, kept around so a
/// later mislayout-trigger on a following word can retroactively fix it too.
///
/// Use case: user types "d ghbdtn " (intending "в привет ") in EN. The "d"
/// finishes as Unknown (1 char, below the detector's floor). The "ghbdtn"
/// finishes as MisLayout. Without this snapshot, only "ghbdtn" is converted
/// and "d" stays orphaned in the wrong layout. With it, both tokens are
/// backspaced and replayed through the new layout.
#[derive(Debug, Clone)]
pub struct PrevToken {
    pub entries: Vec<WordEntry>,
    pub boundary_kc: u32,
    pub finished_at: u64,
    pub layout_idx_when_typed: u32,
}

/// The model of a token.
#[verifier::ext_equal]
pub struct TokenView {
    pub entries: Seq<WordEntry>,
    pub boundary_kc: u32,
    pub finished_at: u64,
    pub layout_idx_when_typed: u32,
}

impl View for PrevToken {
    type V = TokenView;

    open spec fn view(&self) -> TokenView {
        TokenView {
            entries: self.entries@,
            boundary_kc: self.boundary_kc,
            finished_at: self.finished_at,
            layout_idx_when_typed: self.layout_idx_when_typed,
        }
    }
}

/// How many short tokens are remembered: enough for a chain such as
/// "а ты не [longword]" to be fixed as a whole.
pub const MAX_PREV_TOKENS: usize = 3;

/// The newest `MAX_PREV_TOKENS` tokens of a queue, oldest first.
pub open spec fn newest_tokens(q: Seq<TokenView>) -> Seq<TokenView> {
    if q.len() > MAX_PREV_TOKENS {
        q.skip(q.len() - MAX_PREV_TOKENS)
    } else {
        q
    }
}

#[derive(Debug)]
pub struct CoreState {
    pub mods: ModState,
    pub buffer: WordBuffer,
    pub layout_idx: u32,
    pub last_event_at: Option<u64>,
    pub replaying: bool,
    pub seq: u64,
    pub prev_tokens: Vec<PrevToken>,
}

/// The model of the state.
#[verifier::ext_equal]
pub struct StateView {
    pub mods: ModState,
    pub buffer: Seq<WordEntry>,
    pub layout_idx: u32,
    pub last_event_at: Option<u64>,
    pub replaying: bool,
    pub seq: u64,
    pub prev_tokens: Seq<TokenView>,
}

impl View for CoreState {
    type V = StateView;

    open spec fn view(&self) -> StateView {
        StateView {
            mods: self.mods,
            buffer: self.buffer@,
            layout_idx: self.layout_idx,
            last_event_at: self.last_event_at,
            replaying: self.replaying,
            seq: self.seq,
            prev_tokens: self.prev_tokens@.map_values(|t: PrevToken| t@),
        }
    }
}

/// Nothing has happened yet.
pub open spec fn fresh_state() -> StateView {
    StateView {
        mods: ModState::none_held(),
        buffer: Seq::empty(),
        layout_idx: 0,
        last_event_at: None,
        replaying: false,
        seq: 0,
        prev_tokens: Seq::empty(),
    }
}

impl Default for CoreState {
    fn default() -> (r: CoreState)
        ensures
            r@ == fresh_state(),
    {
        let r = CoreState {
            mods: ModState::default(),
            buffer: WordBuffer::default(),
            layout_idx: 0,
            last_event_at: None,
            replaying: false,
            seq: 0,
            prev_tokens: Vec::new(),
        };
        assert(r@.prev_tokens == Seq::<TokenView>::empty());
        r
    }
}

impl CoreState {
    pub fn new() -> (r: CoreState)
        ensures
            r@ == fresh_state(),
    {
        CoreState::default()
    }

    /// Queues a token for a later fix. The oldest one leaves when the queue is
    /// full.
    pub fn push_prev_token(&mut self, t: PrevToken)
        ensures
            final(self)@ == (StateView {
                prev_tokens: newest_tokens(old(self)@.prev_tokens.push(t@)),
                ..old(self)@
            }),
    {
        self.prev_tokens.push(t);
        let ghost all = self@.prev_tokens;
        assert(all == old(self)@.prev_tokens.push(t@));
        assert(all.skip(0) == all);
        while self.prev_tokens.len() > MAX_PREV_TOKENS
            invariant
                self@ == (StateView { prev_tokens: self@.prev_tokens, ..old(self)@ }),
                self@.prev_tokens.len() <= all.len(),
                self@.prev_tokens == all.skip(all.len() - self@.prev_tokens.len()),
                self@.prev_tokens.len() < all.len() ==> self@.prev_tokens.len()
                    >= MAX_PREV_TOKENS,
            decreases self.prev_tokens.len(),
        {
            let ghost before = self@.prev_tokens;
            self.prev_tokens.remove(0);
            assert(self@.prev_tokens == before.drop_first());
        }
    }

    /// Forgets the word in progress.
    pub fn clear_word(&mut self)
        ensures
            final(self)@ == (StateView { buffer: Seq::empty(), ..old(self)@ }),
    {
        self.buffer.clear();
    }

    /// Forgets the tokens that wait for a later fix.
    pub fn clear_tokens(&mut self)
        ensures
            final(self)@ == (StateView { prev_tokens: Seq::empty(), ..old(self)@ }),
    {
        self.prev_tokens.clear();
        assert(self@.prev_tokens == Seq::<TokenView>::empty());
    }
}

/// The queue never grows past its limit, and a new token always enters it, as
/// the newest.
pub proof fn queue_is_bounded(q: Seq<TokenView>, t: TokenView)
    ensures
        newest_tokens(q).len() <= MAX_PREV_TOKENS,
        newest_tokens(q.push(t)).len() > 0,
        newest_tokens(q.push(t)).last() == t,
{
}

/// Each of the eight modifier keys moves its own flag, and no other key moves
/// any: 42 and 54 are the shifts, 29 and 97 the controls, 56 and 100 the alts, 125
/// and 126 the supers.
pub proof fn each_modifier_key_moves_its_flag(m: ModState, kc: u32, pressed: bool)
    ensures
        ({
            let n = m.after(kc, pressed);
            &&& n.shift_l == if kc == 42 { pressed } else { m.shift_l }
            &&& n.shift_r == if kc == 54 { pressed } else { m.shift_r }
            &&& n.ctrl_l == if kc == 29 { pressed } else { m.ctrl_l }
            &&& n.ctrl_r == if kc == 97 { pressed } else { m.ctrl_r }
            &&& n.alt_l == if kc == 56 { pressed } else { m.alt_l }
            &&& n.alt_r == if kc == 100 { pressed } else { m.alt_r }
            &&& n.super_l == if kc == 125 { pressed } else { m.super_l }
            &&& n.super_r == if kc == 126 { pressed } else { m.super_r }
        }),
        ModState::tracks(kc) <==> (exists|m: ModState| m.after(kc, true) != m),
        m.shift_held() <==> m.shift_l || m.shift_r,
        m.command_held() <==> m.ctrl_l || m.ctrl_r || m.alt_l || m.alt_r || m.super_l || m.super_r,
        ModState::none_held().after(kc, true).command_held() <==> kc == 29 || kc == 97 || kc == 56
            || kc == 100 || kc == 125 || kc == 126,
        ModState::none_held().after(kc, true).shift_held() <==> kc == 42 || kc == 54,
{
    let none = ModState::none_held();
    if ModState::tracks(kc) {
        assert(none.after(kc, true) != none);
    } else {
        assert forall|m: ModState| m.after(kc, true) == m by {}
    }
}

/// The text and the positions of a run are those of its keys, one by one.
pub proof fn runs_are_read_key_by_key(entries: Seq<WordEntry>, i: int)
    requires
        0 <= i < entries.len(),
    ensures
        word_text(entries).len() == entries.len(),
        word_text(entries)[i] == entries[i].ch,
        word_positions(entries).len() == entries.len(),
        word_positions(entries)[i] == (entries[i].keycode, entries[i].shift),
{
}

/// The queue holds three tokens: with more than three the oldest ones are gone,
/// and those that stay keep their order.
pub proof fn the_queue_holds_the_newest_three(q: Seq<TokenView>)
    ensures
        q.len() <= 3 ==> newest_tokens(q) == q,
        q.len() > 3 ==> newest_tokens(q) == seq![
            q[q.len() - 3],
            q[q.len() - 2],
            q[q.len() - 1],
        ],
{
}

/// A fresh state has no modifier down, no word, no waiting token and the first
/// layout.
pub proof fn nothing_has_happened_at_first(s: CoreState)
    requires
        call_ensures(CoreState::new, (), s),
    ensures
        s.buffer@.len() == 0,
        s.prev_tokens@.len() == 0,
        s.layout_idx == 0,
        s.seq == 0,
        !s.replaying,
        s.last_event_at is None,
        !s.mods.shift_l && !s.mods.shift_r && !s.mods.ctrl_l && !s.mods.ctrl_r && !s.mods.alt_l
            && !s.mods.alt_r && !s.mods.super_l && !s.mods.super_r,
{
    assert(s@.prev_tokens.len() == s.prev_tokens@.len());
}

/// What is pushed comes off again, and then the word is what it was.
pub proof fn popping_undoes_pushing(
    a: &mut WordBuffer,
    e: WordEntry,
    b: &mut WordBuffer,
    r: Option<WordEntry>,
)
    requires
        call_ensures(WordBuffer::push, (a, e), ()),
        call_ensures(WordBuffer::pop, (b,), r),
        *old(b) == *final(a),
    ensures
        r == Some(e),
        final(b)@ == old(a)@,
{
    assert(old(a)@.push(e).drop_last() == old(a)@);
}

/// The modifiers are read from their flags, and an update moves the flag of its key
/// as `each_modifier_key_moves_its_flag` says.
pub proof fn modifiers_are_read_from_their_flags(
    m: &ModState,
    shift: bool,
    ctrl: bool,
    alt: bool,
    meta: bool,
    command: bool,
    u: &mut ModState,
    kc: u32,
    pressed: bool,
    watched: bool,
)
    requires
        call_ensures(ModState::shift, (m,), shift),
        call_ensures(ModState::ctrl, (m,), ctrl),
        call_ensures(ModState::alt, (m,), alt),
        call_ensures(ModState::meta, (m,), meta),
        call_ensures(ModState::any_command_modifier, (m,), command),
        call_ensures(ModState::update, (u, kc, pressed), watched),
    ensures
        shift <==> m.shift_l || m.shift_r,
        ctrl <==> m.ctrl_l || m.ctrl_r,
        alt <==> m.alt_l || m.alt_r,
        meta <==> m.super_l || m.super_r,
        command <==> ctrl || alt || meta,
        *final(u) == old(u).after(kc, pressed),
        watched <==> ModState::tracks(kc),
{
}

/// The oldest of more than three tokens leaves; the rest of the state stays.
pub proof fn a_fourth_token_drives_out_the_oldest(s: &mut CoreState, t: PrevToken)
    requires
        call_ensures(CoreState::push_prev_token, (s, t), ()),
    ensures
        old(s)@.prev_tokens.len() < 3 ==> final(s)@.prev_tokens == old(s)@.prev_tokens.push(t@),
        old(s)@.prev_tokens.len() == 3 ==> final(s)@.prev_tokens == seq![
            old(s)@.prev_tokens[1],
            old(s)@.prev_tokens[2],
            t@,
        ],
        final(s)@ == (StateView { prev_tokens: final(s)@.prev_tokens, ..old(s)@ }),
{
    the_queue_holds_the_newest_three(old(s)@.prev_tokens.push(t@));
}

/// The model of the state has what the state has, field by field.
pub proof fn the_model_has_what_the_state_has(s: CoreState, t: PrevToken, i: int)
    ensures
        s@.mods == s.mods,
        s@.buffer == s.buffer.entries@,
        s@.layout_idx == s.layout_idx,
        s@.last_event_at == s.last_event_at,
        s@.replaying == s.replaying,
        s@.seq == s.seq,
        s@.prev_tokens.len() == s.prev_tokens@.len(),
        0 <= i < s.prev_tokens@.len() ==> s@.prev_tokens[i] == s.prev_tokens@[i]@,
        t@.entries == t.entries@,
        t@.boundary_kc == t.boundary_kc,
        t@.finished_at == t.finished_at,
        t@.layout_idx_when_typed == t.layout_idx_when_typed,
{
}

/// Forgetting the word keeps the tokens, forgetting the tokens keeps the word, and
/// both keep everything else; a copy, a text and the positions are those of every
/// key.
pub proof fn words_and_tokens_are_forgotten_apart(
    a: &mut CoreState,
    b: &mut CoreState,
    entries: &Vec<WordEntry>,
    copy: Vec<WordEntry>,
    text: String,
    positions: Vec<(u32, bool)>,
    i: int,
)
    requires
        call_ensures(CoreState::clear_word, (a,), ()),
        call_ensures(CoreState::clear_tokens, (b,), ()),
        call_ensures(copy_entries, (entries,), copy),
        call_ensures(text_of, (entries,), text),
        call_ensures(positions_of, (entries,), positions),
    ensures
        final(a)@ == (StateView { buffer: Seq::empty(), ..old(a)@ }),
        final(b)@ == (StateView { prev_tokens: Seq::empty(), ..old(b)@ }),
        copy@ == entries@,
        text@.len() == entries@.len(),
        positions@.len() == entries@.len(),
        0 <= i < entries@.len() ==> text@[i] == entries@[i].ch && positions@[i] == (
            entries@[i].keycode,
            entries@[i].shift,
        ),
{
}

} // verus!
