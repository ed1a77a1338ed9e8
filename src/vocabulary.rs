use vstd::prelude::*;
use crate::profile::{Config, ScriptProfile};
use crate::syllable::{Syllable, SyllableView};
use crate::converter::views_of;

verus! {

/// The mathematical form of a vocabulary: the syllable of each token id,
/// and the token id of each syllable in the forward table.
pub struct VocabularyView {
    pub tokens: Seq<SyllableView>,
    pub table: Map<SyllableView, u32>,
}

/// The syllables that a fresh vocabulary holds, in id order: the 128 ASCII
/// code points, the unknown sentinel, and the end-of-text markers.
pub open spec fn control_tokens(p: ScriptProfile) -> Seq<SyllableView> {
    Seq::new(128, |i: int| SyllableView::Mono(i as u32)).push(SyllableView::Meta(p.unknown))
        + p.end_of_text.map_values(|c: u32| SyllableView::Meta(c))
}

/// The syllables that a loaded vocabulary gains, if it does not hold them yet.
pub open spec fn meta_tokens(p: ScriptProfile) -> Seq<SyllableView> {
    seq![SyllableView::Meta(p.unknown)] + p.end_of_text.map_values(|c: u32| SyllableView::Meta(c))
}

/// Why a persisted vocabulary cannot be loaded.
#[derive(Debug, PartialEq, Eq, Structural, Clone, Copy)]
pub enum LoadError {
    /// An entry's id is above the file's maximum.
    TokenBeyondMaximum(u32),
    /// An entry's id or syllable is taken by an entry before it.
    ConflictingEntry(u32),
    /// The maximum leaves no room for the control tokens in the id range.
    TooManyTokens(u32),
}

/// `n` ids, each holding the placeholder syllable and none in the table.
pub open spec fn placeholders(n: nat) -> VocabularyView {
    VocabularyView { tokens: Seq::new(n, |i: int| SyllableView::Mono(0)), table: Map::empty() }
}

/// The vocabulary that a persisted file with `entries` and `maximum` gives
/// under profile `p`.
pub open spec fn loaded(entries: Seq<(SyllableView, u32)>, maximum: u32, p: ScriptProfile) -> Result<
    VocabularyView,
    LoadError,
> {
    if entries.len() == 0 {
        Ok(VocabularyView::empty().insert_all(control_tokens(p)))
    } else if maximum + 1 + meta_tokens(p).len() > u32::MAX {
        Err(LoadError::TooManyTokens(maximum))
    } else {
        match placeholders((maximum + 1) as nat).place_all(entries) {
            Ok(v) => Ok(v.insert_all(meta_tokens(p))),
            Err(e) => Err(e),
        }
    }
}

impl VocabularyView {
    /// The vocabulary with no token.
    pub open spec fn empty() -> VocabularyView {
        VocabularyView { tokens: Seq::empty(), table: Map::empty() }
    }

    /// Ids fit in `u32`, and each syllable of the table sits at its id.
    pub open spec fn wf(self) -> bool {
        &&& self.tokens.len() <= u32::MAX
        &&& forall|s: SyllableView| #[trigger]
            self.table.contains_key(s) ==> self.table[s] < self.tokens.len()
                && self.tokens[self.table[s] as int] == s
    }

    /// Whether the syllable at id `t` is in the table under that id (and not a
    /// placeholder of a loaded vocabulary).
    pub open spec fn assigned(self, t: int) -> bool {
        self.table.contains_key(self.tokens[t]) && self.table[self.tokens[t]] == t
    }

    /// Every id is assigned.
    pub open spec fn is_dense(self) -> bool {
        forall|t: int| 0 <= t < self.tokens.len() ==> #[trigger] self.assigned(t)
    }

    /// The token of `s`: its id, or `unknown` when the table lacks it.
    pub open spec fn code_of(self, s: SyllableView, unknown: u32) -> u32 {
        if self.table.contains_key(s) {
            self.table[s]
        } else {
            unknown
        }
    }

    /// The vocabulary after `s` is added: unchanged when the table holds it,
    /// else `s` gets the next id.
    pub open spec fn insert(self, s: SyllableView) -> VocabularyView {
        if self.table.contains_key(s) {
            self
        } else {
            VocabularyView {
                tokens: self.tokens.push(s),
                table: self.table.insert(s, self.tokens.len() as u32),
            }
        }
    }

    /// The table's entries among the ids below `n`, in id order.
    pub open spec fn entries_below(self, n: int) -> Seq<(SyllableView, u32)>
        decreases n,
    {
        if n <= 0 {
            Seq::empty()
        } else if self.assigned(n - 1) {
            self.entries_below(n - 1).push((self.tokens[n - 1], (n - 1) as u32))
        } else {
            self.entries_below(n - 1)
        }
    }

    /// The table's entries, in id order.
    pub open spec fn entries(self) -> Seq<(SyllableView, u32)> {
        self.entries_below(self.tokens.len() as int)
    }

    /// The largest id in the table, 0 when it is empty.
    pub open spec fn maximum(self) -> u32 {
        if self.entries().len() == 0 {
            0
        } else {
            self.entries().last().1
        }
    }

    /// The vocabulary after the entry `e` of a file is placed: `e`'s id must be
    /// in range, and neither its syllable nor its id may be taken already.
    pub open spec fn place(self, e: (SyllableView, u32)) -> Result<VocabularyView, LoadError> {
        if e.1 >= self.tokens.len() {
            Err(LoadError::TokenBeyondMaximum(e.1))
        } else if self.table.contains_key(e.0) || self.assigned(e.1 as int) {
            Err(LoadError::ConflictingEntry(e.1))
        } else {
            Ok(
                VocabularyView {
                    tokens: self.tokens.update(e.1 as int, e.0),
                    table: self.table.insert(e.0, e.1),
                },
            )
        }
    }

    /// The vocabulary after the entries `es` are placed in order; the first
    /// failure stops it.
    pub open spec fn place_all(self, es: Seq<(SyllableView, u32)>) -> Result<
        VocabularyView,
        LoadError,
    >
        decreases es.len(),
    {
        if es.len() == 0 {
            Ok(self)
        } else {
            match self.place_all(es.drop_last()) {
                Ok(v) => v.place(es.last()),
                Err(e) => Err(e),
            }
        }
    }

    /// The vocabulary after each of `ss` is added, in order.
    pub open spec fn insert_all(self, ss: Seq<SyllableView>) -> VocabularyView
        decreases ss.len(),
    {
        if ss.len() == 0 {
            self
        } else {
            self.insert_all(ss.drop_last()).insert(ss.last())
        }
    }
}

/// Adding a syllable keeps a vocabulary well formed and grows it by at most one id.
pub proof fn lemma_insert_wf(v: VocabularyView, s: SyllableView)
    requires
        v.wf(),
        v.tokens.len() < u32::MAX,
    ensures
        v.insert(s).wf(),
        v.insert(s).tokens.len() <= v.tokens.len() + 1,
{
    let w = v.insert(s);
    if !v.table.contains_key(s) {
        assert forall|x: SyllableView| #[trigger] w.table.contains_key(x) implies w.table[x]
            < w.tokens.len() && w.tokens[w.table[x] as int] == x by {
            if x != s {
                assert(v.table.contains_key(x));
            }
        };
    }
}

/// Adding `ss` grows a vocabulary by at most one id per syllable.
pub proof fn lemma_insert_all_len(v: VocabularyView, ss: Seq<SyllableView>)
    ensures
        v.insert_all(ss).tokens.len() <= v.tokens.len() + ss.len(),
        v.tokens.len() <= v.insert_all(ss).tokens.len(),
    decreases ss.len(),
{
    if ss.len() > 0 {
        lemma_insert_all_len(v, ss.drop_last());
    }
}

/// Adding syllables keeps a vocabulary well formed while the ids fit.
pub proof fn lemma_insert_all_wf(v: VocabularyView, ss: Seq<SyllableView>)
    requires
        v.wf(),
        v.tokens.len() + ss.len() <= u32::MAX,
    ensures
        v.insert_all(ss).wf(),
    decreases ss.len(),
{
    if ss.len() > 0 {
        lemma_insert_all_wf(v, ss.drop_last());
        lemma_insert_all_len(v, ss.drop_last());
        lemma_insert_wf(v.insert_all(ss.drop_last()), ss.last());
    }
}

/// Adding distinct syllables to the empty vocabulary gives each the id of its
/// position, and every id is assigned.
pub proof fn lemma_insert_distinct(ss: Seq<SyllableView>)
    requires
        ss.no_duplicates(),
        ss.len() <= u32::MAX,
    ensures
        VocabularyView::empty().insert_all(ss).tokens == ss,
        VocabularyView::empty().insert_all(ss).is_dense(),
        VocabularyView::empty().insert_all(ss).wf(),
        forall|s: SyllableView|
            VocabularyView::empty().insert_all(ss).table.contains_key(s) <==> ss.contains(s),
    decreases ss.len(),
{
    if ss.len() > 0 {
        let init = ss.drop_last();
        assert(init.no_duplicates());
        lemma_insert_distinct(init);
        let v = VocabularyView::empty().insert_all(init);
        let s = ss.last();
        assert(!init.contains(s)) by {
            if init.contains(s) {
                let j = choose|j: int| 0 <= j < init.len() && init[j] == s;
                assert(ss[j] == ss[ss.len() - 1]);
            }
        };
        let w = v.insert(s);
        assert(w.tokens =~= ss);
        lemma_insert_wf(v, s);
        assert forall|t: int| 0 <= t < w.tokens.len() implies #[trigger] w.assigned(t) by {
            if t < init.len() {
                assert(v.assigned(t));
                assert(w.tokens[t] == v.tokens[t]);
            }
        };
        assert forall|x: SyllableView| w.table.contains_key(x) <==> ss.contains(x) by {
            if ss.contains(x) && x != s {
                let j = choose|j: int| 0 <= j < ss.len() && ss[j] == x;
                assert(init[j] == x);
            }
            if init.contains(x) {
                let j = choose|j: int| 0 <= j < init.len() && init[j] == x;
                assert(ss[j] == x);
            }
        };
    }
}

/// The control tokens of a well-formed profile are distinct.
pub proof fn lemma_control_distinct(p: ScriptProfile)
    requires
        p.wf(),
    ensures
        control_tokens(p).no_duplicates(),
        control_tokens(p).len() == 129 + p.end_of_text.len(),
{
    let c = control_tokens(p);
    assert forall|i: int, j: int| 0 <= i < c.len() && 0 <= j < c.len() && i != j implies c[i]
        != c[j] by {
        if i >= 129 && j >= 129 {
            assert(p.end_of_text[i - 129] != p.end_of_text[j - 129]);
        } else if i == 128 && j >= 129 {
            assert(p.end_of_text.contains(p.end_of_text[j - 129]));
        } else if j == 128 && i >= 129 {
            assert(p.end_of_text.contains(p.end_of_text[i - 129]));
        }
    };
}

/// Adding a syllable keeps every id assigned.
pub proof fn lemma_insert_dense(v: VocabularyView, s: SyllableView)
    requires
        v.wf(),
        v.is_dense(),
        v.tokens.len() < u32::MAX,
    ensures
        v.insert(s).is_dense(),
{
    let w = v.insert(s);
    if !v.table.contains_key(s) {
        assert forall|t: int| 0 <= t < w.tokens.len() implies #[trigger] w.assigned(t) by {
            if t < v.tokens.len() {
                assert(v.assigned(t));
                assert(w.tokens[t] == v.tokens[t]);
            }
        };
    }
}

/// Adding syllables keeps every id assigned while the ids fit.
pub proof fn lemma_insert_all_dense(v: VocabularyView, ss: Seq<SyllableView>)
    requires
        v.wf(),
        v.is_dense(),
        v.tokens.len() + ss.len() <= u32::MAX,
    ensures
        v.insert_all(ss).is_dense(),
    decreases ss.len(),
{
    if ss.len() > 0 {
        lemma_insert_all_dense(v, ss.drop_last());
        lemma_insert_all_wf(v, ss.drop_last());
        lemma_insert_all_len(v, ss.drop_last());
        lemma_insert_dense(v.insert_all(ss.drop_last()), ss.last());
    }
}

/// Vocabulary bijection: after any sequence of additions to a fresh
/// vocabulary, the token of the syllable at any id is that id.
pub proof fn lookup_inverts_reverse(p: ScriptProfile, ss: Seq<SyllableView>, t: int)
    requires
        p.wf(),
        control_tokens(p).len() + ss.len() <= u32::MAX,
        0 <= t < VocabularyView::empty().insert_all(control_tokens(p)).insert_all(ss).tokens.len(),
    ensures
        ({
            let v = VocabularyView::empty().insert_all(control_tokens(p)).insert_all(ss);
            v.code_of(v.tokens[t], p.unknown) == t
        }),
{
    let fresh = VocabularyView::empty().insert_all(control_tokens(p));
    lemma_control_distinct(p);
    lemma_insert_distinct(control_tokens(p));
    lemma_insert_all_dense(fresh, ss);
    let v = fresh.insert_all(ss);
    assert(v.assigned(t));
}

/// Identity stability: in a fresh vocabulary each id below 128 holds the
/// one-code-point syllable of that value, whose token is that id.
pub proof fn identity_ids(p: ScriptProfile, c: u32)
    requires
        p.wf(),
        c < 128,
    ensures
        VocabularyView::empty().insert_all(control_tokens(p)).tokens[c as int]
            == SyllableView::Mono(c),
        VocabularyView::empty().insert_all(control_tokens(p)).code_of(SyllableView::Mono(c), p.unknown)
            == c,
{
    lemma_control_distinct(p);
    lemma_insert_distinct(control_tokens(p));
    let v = VocabularyView::empty().insert_all(control_tokens(p));
    assert(v.tokens[c as int] == SyllableView::Mono(c));
    assert(v.assigned(c as int));
}

/// Once placing a prefix of the entries fails, placing them all fails the same way.
pub proof fn lemma_place_all_err(v: VocabularyView, es: Seq<(SyllableView, u32)>, k: int)
    requires
        0 <= k <= es.len(),
        v.place_all(es.take(k)) is Err,
    ensures
        v.place_all(es) == v.place_all(es.take(k)),
    decreases es.len(),
{
    if k == es.len() {
        assert(es.take(k) =~= es);
    } else {
        assert(es.drop_last().take(k) =~= es.take(k));
        lemma_place_all_err(v, es.drop_last(), k);
    }
}

/// A vocabulary: the bidirectional table between syllables and token ids.
pub struct SyllableMapping {
    token_syllable: Vec<Syllable>,
    in_table: Vec<bool>,
    table: Ghost<Map<SyllableView, u32>>,
}

impl View for SyllableMapping {
    type V = VocabularyView;

    closed spec fn view(&self) -> VocabularyView {
        VocabularyView { tokens: views_of(self.token_syllable@), table: self.table@ }
    }
}

impl SyllableMapping {
    /// The internal invariant: the flags mark the ids that the table holds.
    pub closed spec fn wf(&self) -> bool {
        &&& self.in_table@.len() == self.token_syllable@.len()
        &&& self@.wf()
        &&& forall|t: int|
            0 <= t < self.in_table@.len() ==> (#[trigger] self.in_table@[t] <==> self@.assigned(t))
    }

    /// A fresh vocabulary: the ASCII code points under their own values, then
    /// the unknown sentinel, then the end-of-text markers.
    pub fn new(config: &Config) -> (r: SyllableMapping)
        requires
            config@.wf(),
        ensures
            r.wf(),
            r@ == VocabularyView::empty().insert_all(control_tokens(config@)),
            r@.tokens == control_tokens(config@),
            r@.is_dense(),
    {
        let ghost ctl = control_tokens(config@);
        proof {
            lemma_control_distinct(config@);
        }
        let mut m = SyllableMapping {
            token_syllable: Vec::new(),
            in_table: Vec::new(),
            table: Ghost(Map::empty()),
        };
        assert(m@.tokens =~= Seq::<SyllableView>::empty());
        assert(ctl.take(0).len() == 0);
        let mut i: u32 = 0;
        while i < 128
            invariant
                i <= 128,
                m.wf(),
                ctl == control_tokens(config@),
                ctl.no_duplicates(),
                ctl.len() == 129 + config@.end_of_text.len(),
                config@.wf(),
                m@ == VocabularyView::empty().insert_all(ctl.take(i as int)),
            decreases 128 - i,
        {
            proof {
                lemma_insert_all_len(VocabularyView::empty(), ctl.take(i as int));
            }
            m.add_syllable(Syllable::Mono(i));
            i = i + 1;
            assert(ctl.take(i as int).drop_last() =~= ctl.take(i - 1 as int));
        }
        proof {
            lemma_insert_all_len(VocabularyView::empty(), ctl.take(128));
        }
        m.add_syllable(Syllable::Meta(config.unknown()));
        assert(ctl.take(129).drop_last() =~= ctl.take(128));
        let eot = config.end_of_text();
        let mut j: usize = 0;
        while j < eot.len()
            invariant
                j <= eot@.len(),
                eot@ == config@.end_of_text,
                m.wf(),
                ctl == control_tokens(config@),
                ctl.no_duplicates(),
                ctl.len() == 129 + config@.end_of_text.len(),
                config@.wf(),
                m@ == VocabularyView::empty().insert_all(ctl.take(129 + j)),
            decreases eot@.len() - j,
        {
            proof {
                lemma_insert_all_len(VocabularyView::empty(), ctl.take(129 + j));
            }
            m.add_syllable(Syllable::Meta(eot[j]));
            j = j + 1;
            assert(ctl.take(129 + j).drop_last() =~= ctl.take(129 + j - 1));
        }
        assert(ctl.take(129 + j) =~= ctl);
        proof {
            lemma_insert_distinct(ctl);
        }
        m
    }

    /// `n` ids holding the placeholder syllable, none of them in the table.
    fn with_placeholders(n: usize) -> (r: SyllableMapping)
        requires
            n <= u32::MAX,
        ensures
            r.wf(),
            r@ == placeholders(n as nat),
    {
        let mut m = SyllableMapping {
            token_syllable: Vec::new(),
            in_table: Vec::new(),
            table: Ghost(Map::empty()),
        };
        assert(m@.tokens =~= placeholders(0).tokens);
        let mut i: usize = 0;
        while i < n
            invariant
                i <= n <= u32::MAX,
                m.wf(),
                m@ == placeholders(i as nat),
            decreases n - i,
        {
            let ghost before = m.token_syllable@;
            m.token_syllable.push(Syllable::Mono(0));
            m.in_table.push(false);
            i = i + 1;
            assert(views_of(m.token_syllable@) =~= views_of(before).push(SyllableView::Mono(0)));
            assert(m@.tokens =~= placeholders(i as nat).tokens);
        }
        m
    }

    /// Whether id `t` is in the table.
    fn is_assigned(&self, t: usize) -> (r: bool)
        requires
            self.wf(),
            t < self@.tokens.len(),
        ensures
            r == self@.assigned(t as int),
    {
        self.in_table[t]
    }

    /// Puts `syllable` at the free id `t`.
    fn place(&mut self, syllable: Syllable, t: u32)
        requires
            old(self).wf(),
            t < old(self)@.tokens.len(),
            !old(self)@.table.contains_key(syllable@),
            !old(self)@.assigned(t as int),
        ensures
            final(self).wf(),
            Ok::<VocabularyView, LoadError>(final(self)@) == old(self)@.place((syllable@, t)),
    {
        let ghost s = syllable@;
        self.table = Ghost(self.table@.insert(s, t));
        self.token_syllable[t as usize] = syllable;
        self.in_table[t as usize] = true;
        assert(self@.tokens =~= old(self)@.tokens.update(t as int, s));
        assert forall|x: SyllableView| #[trigger] self@.table.contains_key(x) implies self@.table[x]
            < self@.tokens.len() && self@.tokens[self@.table[x] as int] == x by {
            if x != s {
                assert(old(self)@.table.contains_key(x));
                if old(self)@.table[x] == t {
                    assert(old(self)@.assigned(t as int));
                }
            }
        };
        assert forall|u: int| 0 <= u < self.in_table@.len() implies (#[trigger] self.in_table@[u]
            <==> self@.assigned(u)) by {
            if u != t {
                assert(self@.tokens[u] == old(self)@.tokens[u]);
                assert(old(self).in_table@[u] <==> old(self)@.assigned(u));
            }
        };
    }

    /// The entries of the table in id order, and the largest id.
    pub fn to_syllable_mapping_file(&self) -> (r: SyllableMappingFile)
        requires
            self.wf(),
        ensures
            r.entries() == self@.entries(),
            r.maximum == self@.maximum(),
    {
        let mut syllables: Vec<SyllableToken> = Vec::new();
        let mut maximum: u32 = 0;
        let mut t: usize = 0;
        while t < self.token_syllable.len()
            invariant
                self.wf(),
                t <= self.token_syllable@.len(),
                syllables@.map_values(|e: SyllableToken| (e.syllable@, e.token))
                    == self@.entries_below(t as int),
                maximum == (if self@.entries_below(t as int).len() == 0 {
                    0
                } else {
                    self@.entries_below(t as int).last().1
                }),
            decreases self.token_syllable@.len() - t,
        {
            let ghost before = syllables@;
            if self.in_table[t] {
                let e = SyllableToken { syllable: self.token_syllable[t].duplicate(), token: t as u32 };
                syllables.push(e);
                maximum = t as u32;
                assert(syllables@.map_values(|e: SyllableToken| (e.syllable@, e.token))
                    =~= before.map_values(|e: SyllableToken| (e.syllable@, e.token)).push(
                    (self@.tokens[t as int], t as u32),
                ));
            }
            t = t + 1;
        }
        SyllableMappingFile { syllables, maximum }
    }

    /// The number of token ids.
    pub fn len(&self) -> (r: usize)
        requires
            self.wf(),
        ensures
            r == self@.tokens.len(),
    {
        self.token_syllable.len()
    }

    /// The id of `syllable` in the table, if it is there.
    fn find(&self, syllable: &Syllable) -> (r: Option<u32>)
        requires
            self.wf(),
        ensures
            r == (if self@.table.contains_key(syllable@) {
                Some(self@.table[syllable@])
            } else {
                None
            }),
    {
        let mut t: usize = 0;
        while t < self.token_syllable.len()
            invariant
                self.wf(),
                t <= self.token_syllable@.len(),
                forall|u: int|
                    0 <= u < t ==> !(self.in_table@[u] && #[trigger] self@.tokens[u] == syllable@),
            decreases self.token_syllable@.len() - t,
        {
            if self.in_table[t] && self.token_syllable[t] == *syllable {
                assert(self@.tokens[t as int] == syllable@);
                return Some(t as u32);
            }
            assert(self@.tokens[t as int] == self.token_syllable@[t as int]@);
            t = t + 1;
        }
        proof {
            if self@.table.contains_key(syllable@) {
                let u = self@.table[syllable@] as int;
                assert(self.in_table@[u]);
            }
        }
        None
    }

    /// The token of `syllable`: its id, or the unknown sentinel's code point
    /// when the table lacks it.
    pub fn syllable_code(&self, syllable: &Syllable, config: &Config) -> (r: u32)
        requires
            self.wf(),
        ensures
            r == self@.code_of(syllable@, config@.unknown),
    {
        match self.find(syllable) {
            Some(t) => t,
            None => config.unknown(),
        }
    }

    /// The syllable of id `token`, if the id is in range.
    pub fn get_syllable(&self, token: u32) -> (r: Option<Syllable>)
        requires
            self.wf(),
        ensures
            (token < self@.tokens.len()) == r is Some,
            r matches Some(s) ==> s@ == self@.tokens[token as int],
    {
        if (token as usize) < self.token_syllable.len() {
            Some(self.token_syllable[token as usize].duplicate())
        } else {
            None
        }
    }

    /// The syllable of id `token`, borrowed.
    pub fn syllable_at(&self, token: usize) -> (r: &Syllable)
        requires
            self.wf(),
            token < self@.tokens.len(),
        ensures
            r@ == self@.tokens[token as int],
    {
        &self.token_syllable[token]
    }

    /// Adds `syllable` under the next id unless the table holds it.
    pub fn add_syllable(&mut self, syllable: Syllable)
        requires
            old(self).wf(),
            old(self)@.tokens.len() < u32::MAX,
        ensures
            final(self).wf(),
            final(self)@ == old(self)@.insert(syllable@),
    {
        if self.find(&syllable).is_some() {
            return;
        }
        let ghost s = syllable@;
        let token = self.token_syllable.len() as u32;
        self.table = Ghost(self.table@.insert(s, token));
        self.token_syllable.push(syllable);
        self.in_table.push(true);
        assert(self@.tokens =~= old(self)@.tokens.push(s));
        assert forall|t: int| 0 <= t < self.in_table@.len() implies (#[trigger] self.in_table@[t]
            <==> self@.assigned(t)) by {
            if t < token {
                assert(self@.tokens[t] == old(self)@.tokens[t]);
                assert(old(self).in_table@[t] <==> old(self)@.assigned(t));
            }
        };
    }
}

/// One entry of a persisted vocabulary.
pub struct SyllableToken {
    pub syllable: Syllable,
    pub token: u32,
}

/// The persisted form of a vocabulary: its entries and its largest id.
pub struct SyllableMappingFile {
    pub syllables: Vec<SyllableToken>,
    pub maximum: u32,
}

impl SyllableMappingFile {
    /// The entries, as pairs of a syllable and its id.
    pub open spec fn entries(&self) -> Seq<(SyllableView, u32)> {
        self.syllables@.map_values(|e: SyllableToken| (e.syllable@, e.token))
    }

    /// The vocabulary that the file gives under `config`: a fresh one when the
    /// file has no entry; else `maximum + 1` ids holding placeholders, the
    /// entries placed at their ids, and then the unknown sentinel and the
    /// end-of-text markers added unless present.
    #[verifier::loop_isolation(false)]
    pub fn to_syllable_mapping(&self, config: &Config) -> (r: Result<SyllableMapping, LoadError>)
        requires
            config@.wf(),
        ensures
            match r {
                Ok(m) => m.wf() && loaded(self.entries(), self.maximum, config@) == Ok::<
                    VocabularyView,
                    LoadError,
                >(m@),
                Err(e) => loaded(self.entries(), self.maximum, config@) == Err::<
                    VocabularyView,
                    LoadError,
                >(e),
            },
    {
        if self.syllables.len() == 0 {
            return Ok(SyllableMapping::new(config));
        }
        let eot = config.end_of_text();
        assert(meta_tokens(config@).len() == 1 + eot@.len());
        if self.maximum as u64 + 2 + eot.len() as u64 > u32::MAX as u64 {
            return Err(LoadError::TooManyTokens(self.maximum));
        }
        let n = self.maximum as usize + 1;
        let ghost es = self.entries();
        let ghost base = placeholders(n as nat);
        let mut m = SyllableMapping::with_placeholders(n);
        assert(es.take(0) =~= Seq::<(SyllableView, u32)>::empty());
        let mut k: usize = 0;
        while k < self.syllables.len()
            invariant
                k <= self.syllables@.len(),
                es == self.entries(),
                base == placeholders(n as nat),
                m.wf(),
                m@.tokens.len() == n,
                base.place_all(es.take(k as int)) == Ok::<VocabularyView, LoadError>(m@),
            decreases self.syllables@.len() - k,
        {
            let e = &self.syllables[k];
            let t = e.token;
            assert(es.take(k + 1).drop_last() =~= es.take(k as int));
            assert(es[k as int] == (e.syllable@, t));
            assert(es.take(k + 1).last() == es[k as int]);
            if t as usize >= m.len() {
                proof {
                    lemma_place_all_err(base, es, k + 1);
                }
                return Err(LoadError::TokenBeyondMaximum(t));
            }
            if m.find(&e.syllable).is_some() || m.is_assigned(t as usize) {
                proof {
                    lemma_place_all_err(base, es, k + 1);
                }
                return Err(LoadError::ConflictingEntry(t));
            }
            m.place(e.syllable.duplicate(), t);
            k = k + 1;
        }
        assert(es.take(k as int) =~= es);
        let ghost placed = m@;
        let ghost metas = meta_tokens(config@);
        assert(metas.take(0) =~= Seq::<SyllableView>::empty());
        m.add_syllable(Syllable::Meta(config.unknown()));
        assert(metas.take(1).drop_last() =~= metas.take(0));
        assert(metas.take(1).last() == SyllableView::Meta(config@.unknown));
        assert(placed.insert_all(metas.take(0)) == placed);
        let mut j: usize = 0;
        while j < eot.len()
            invariant
                j <= eot@.len(),
                eot@ == config@.end_of_text,
                metas == meta_tokens(config@),
                n + 1 + eot@.len() <= u32::MAX,
                placed.tokens.len() == n,
                m.wf(),
                m@ == placed.insert_all(metas.take(j + 1)),
            decreases eot@.len() - j,
        {
            proof {
                lemma_insert_all_len(placed, metas.take(j + 1));
            }
            m.add_syllable(Syllable::Meta(eot[j]));
            j = j + 1;
            assert(metas.take(j + 1).drop_last() =~= metas.take(j as int));
        }
        assert(metas.take(j + 1) =~= metas);
        Ok(m)
    }
}

} // verus!
