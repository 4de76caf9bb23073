use vstd::prelude::*;

use crate::types::{zero_quote, InstrumentId, Price, Qty, Quote, MAX_INSTRUMENTS};

verus! {

/// Pre-allocated quote storage indexed by `InstrumentId`, together with the
/// tables that map the broker's contract ids and server tags to instruments.
///
/// The minimum tick of an instrument is held here as `min_tick * PRICE_SCALE`
/// rounded to an integer; the floating-point minimum tick itself is kept by
/// the caller.
pub struct MarketState {
    quotes: Vec<Quote>,
    /// Number of registered instruments.
    active_count: u32,
    /// `(con_id, instrument)` in registration order.
    con_id_to_instrument: Vec<(i64, InstrumentId)>,
    /// `(server_tag, instrument)`; each tag occurs at most once.
    server_tag_to_instrument: Vec<(u32, InstrumentId)>,
    /// Per-instrument `min_tick * PRICE_SCALE`.
    min_tick_scaled: Vec<i64>,
    /// `(instrument, symbol)`; each instrument occurs at most once.
    symbols: Vec<(InstrumentId, String)>,
}

/// Index of the first pair of `s` whose first component is `k`, or -1.
pub open spec fn first_index_of<K, V>(s: Seq<(K, V)>, k: K) -> int
    decreases s.len(),
{
    if s.len() == 0 {
        -1
    } else if s.last().0 == k && first_index_of(s.drop_last(), k) == -1 {
        s.len() - 1
    } else {
        first_index_of(s.drop_last(), k)
    }
}

/// Value of the first pair of `s` whose first component is `k`.
pub open spec fn lookup<K, V>(s: Seq<(K, V)>, k: K) -> Option<V> {
    let i = first_index_of(s, k);
    if i == -1 {
        None
    } else {
        Some(s[i].1)
    }
}

/// Instrument registered for `con_id` in a registration list, if any.
pub open spec fn instrument_of(con_ids: Seq<i64>, con_id: i64) -> Option<InstrumentId> {
    if con_ids.contains(con_id) {
        Some(con_ids.index_of(con_id) as InstrumentId)
    } else {
        None
    }
}

/// The registration list after `register(con_id)`, and the id it returns.
pub open spec fn register_result(con_ids: Seq<i64>, con_id: i64) -> (Seq<i64>, InstrumentId) {
    if con_ids.contains(con_id) {
        (con_ids, con_ids.index_of(con_id) as InstrumentId)
    } else {
        (con_ids.push(con_id), con_ids.len() as InstrumentId)
    }
}

/// The server-tag table after `register_server_tag(tag, instrument)`.
pub open spec fn add_server_tag(tags: Seq<(u32, InstrumentId)>, tag: u32, instrument: InstrumentId) -> Seq<(u32, InstrumentId)> {
    if lookup(tags, tag) is Some {
        tags
    } else {
        tags.push((tag, instrument))
    }
}

/// The symbol table after `set_symbol(id, symbol)`.
pub open spec fn put_symbol(syms: Seq<(InstrumentId, Seq<char>)>, id: InstrumentId, symbol: Seq<char>) -> Seq<(InstrumentId, Seq<char>)> {
    let i = first_index_of(syms, id);
    if i == -1 {
        syms.push((id, symbol))
    } else {
        syms.update(i, (id, symbol))
    }
}

/// Rust's `/` on integers: the quotient rounded toward zero.
pub open spec fn div_trunc(a: int, b: int) -> int
    recommends
        b > 0,
{
    if a >= 0 {
        a / b
    } else {
        -((-a) / b)
    }
}

pub proof fn lemma_first_index_of_bounds<K, V>(s: Seq<(K, V)>, k: K)
    ensures
        -1 <= first_index_of(s, k) < s.len(),
        first_index_of(s, k) >= 0 ==> s[first_index_of(s, k)].0 == k,
        first_index_of(s, k) >= 0 ==> forall|j: int| 0 <= j < first_index_of(s, k) ==> s[j].0 != k,
        first_index_of(s, k) == -1 ==> forall|j: int| 0 <= j < s.len() ==> s[j].0 != k,
    decreases s.len(),
{
    if s.len() > 0 {
        let t = s.drop_last();
        lemma_first_index_of_bounds(t, k);
        assert forall|j: int| 0 <= j < t.len() implies t[j] == s[j] by {}
    }
}

/// `first_index_of` is the least index holding `k`.
pub proof fn lemma_first_index_of_is<K, V>(s: Seq<(K, V)>, k: K, i: int)
    requires
        0 <= i < s.len(),
        s[i].0 == k,
        forall|j: int| 0 <= j < i ==> s[j].0 != k,
    ensures
        first_index_of(s, k) == i,
    decreases s.len(),
{
    lemma_first_index_of_bounds(s, k);
    if i < s.len() - 1 {
        lemma_first_index_of_is(s.drop_last(), k, i);
    } else {
        lemma_first_index_of_bounds(s.drop_last(), k);
    }
}

/// A key absent from every pair has no index.
pub proof fn lemma_first_index_of_absent<K, V>(s: Seq<(K, V)>, k: K)
    requires
        forall|j: int| 0 <= j < s.len() ==> s[j].0 != k,
    ensures
        first_index_of(s, k) == -1,
{
    lemma_first_index_of_bounds(s, k);
}

impl MarketState {
    /// Contract ids of the registered instruments; instrument `i` has `con_ids()[i]`.
    pub closed spec fn con_ids(&self) -> Seq<i64> {
        self.con_id_to_instrument@.map_values(|p: (i64, InstrumentId)| p.0)
    }

    /// The server-tag table, in insertion order.
    pub closed spec fn server_tags(&self) -> Seq<(u32, InstrumentId)> {
        self.server_tag_to_instrument@
    }

    /// The quotes of all `MAX_INSTRUMENTS` slots.
    pub closed spec fn quotes(&self) -> Seq<Quote> {
        self.quotes@
    }

    /// The scaled minimum ticks of all `MAX_INSTRUMENTS` slots.
    pub closed spec fn min_ticks_scaled(&self) -> Seq<i64> {
        self.min_tick_scaled@
    }

    /// The symbol table, in insertion order.
    pub closed spec fn symbols(&self) -> Seq<(InstrumentId, Seq<char>)> {
        self.symbols@.map_values(|p: (InstrumentId, String)| (p.0, p.1@))
    }

    /// Well-formedness: table sizes, sequential instrument ids, no duplicate
    /// contract id, server tag or symbol entry.
    pub closed spec fn wf(&self) -> bool {
        &&& self.quotes@.len() == MAX_INSTRUMENTS
        &&& self.min_tick_scaled@.len() == MAX_INSTRUMENTS
        &&& self.active_count as nat == self.con_id_to_instrument@.len()
        &&& self.active_count <= MAX_INSTRUMENTS
        &&& forall|i: int| 0 <= i < self.con_id_to_instrument@.len() ==> #[trigger] self.con_id_to_instrument@[i].1 == i
        &&& forall|i: int, j: int|
            0 <= i < j < self.con_id_to_instrument@.len() ==> #[trigger] self.con_id_to_instrument@[i].0 != #[trigger] self.con_id_to_instrument@[j].0
        &&& forall|i: int, j: int|
            0 <= i < j < self.server_tag_to_instrument@.len() ==> #[trigger] self.server_tag_to_instrument@[i].0 != #[trigger] self.server_tag_to_instrument@[j].0
        &&& forall|i: int, j: int|
            0 <= i < j < self.symbols@.len() ==> #[trigger] self.symbols@[i].0 != #[trigger] self.symbols@[j].0
    }

    /// A well-formed state has one quote slot and one minimum-tick slot per
    /// possible instrument.
    pub proof fn lemma_table_sizes(&self)
        requires
            self.wf(),
        ensures
            self.quotes().len() == MAX_INSTRUMENTS,
            self.min_ticks_scaled().len() == MAX_INSTRUMENTS,
    {
    }

    /// Writing a quote through `quote_mut` and reading it back: the written
    /// slot gives the written quote, and every other slot keeps its quote.
    pub proof fn law_quote_read_after_write(&self, id: InstrumentId, other: InstrumentId, q: Quote)
        requires
            self.wf(),
            id < MAX_INSTRUMENTS,
            other < MAX_INSTRUMENTS,
        ensures
            self.quotes().update(id as int, q)[id as int] == q,
            other != id ==> self.quotes().update(id as int, q)[other as int] == self.quotes()[other as int],
            self.quotes().update(id as int, q).len() == MAX_INSTRUMENTS,
    {
    }

    /// The registered contract ids are pairwise distinct.
    pub proof fn lemma_con_ids_distinct(&self)
        requires
            self.wf(),
        ensures
            self.con_ids().no_duplicates(),
            self.con_ids().len() <= MAX_INSTRUMENTS,
    {
        assert forall|i: int, j: int| 0 <= i < self.con_ids().len() && 0 <= j < self.con_ids().len() && i != j implies self.con_ids()[i] != self.con_ids()[j] by {
            if i < j {
                assert(self.con_id_to_instrument@[i].0 != self.con_id_to_instrument@[j].0);
            } else {
                assert(self.con_id_to_instrument@[j].0 != self.con_id_to_instrument@[i].0);
            }
        }
    }

    /// An empty market: no instrument, every quote zero, every minimum tick zero.
    pub fn new() -> (ms: Self)
        ensures
            ms.wf(),
            ms.con_ids() == Seq::<i64>::empty(),
            ms.server_tags() == Seq::<(u32, InstrumentId)>::empty(),
            ms.symbols() == Seq::<(InstrumentId, Seq<char>)>::empty(),
            ms.quotes() == Seq::new(MAX_INSTRUMENTS as nat, |i: int| zero_quote()),
            ms.min_ticks_scaled() == Seq::new(MAX_INSTRUMENTS as nat, |i: int| 0i64),
    {
        let mut quotes: Vec<Quote> = Vec::new();
        let mut ticks: Vec<i64> = Vec::new();
        let mut i: usize = 0;
        while i < MAX_INSTRUMENTS
            invariant
                i <= MAX_INSTRUMENTS,
                quotes@.len() == i,
                ticks@.len() == i,
                forall|j: int| 0 <= j < i ==> quotes@[j] == zero_quote(),
                forall|j: int| 0 <= j < i ==> ticks@[j] == 0,
            decreases MAX_INSTRUMENTS - i,
        {
            quotes.push(Quote::default());
            ticks.push(0);
            i = i + 1;
        }
        let ms = MarketState {
            quotes,
            active_count: 0,
            con_id_to_instrument: Vec::new(),
            server_tag_to_instrument: Vec::new(),
            min_tick_scaled: ticks,
            symbols: Vec::new(),
        };
        assert(ms.con_ids() =~= Seq::<i64>::empty());
        assert(ms.symbols() =~= Seq::<(InstrumentId, Seq<char>)>::empty());
        assert(ms.quotes() =~= Seq::new(MAX_INSTRUMENTS as nat, |i: int| zero_quote()));
        assert(ms.min_ticks_scaled() =~= Seq::new(MAX_INSTRUMENTS as nat, |i: int| 0i64));
        ms
    }
}


impl MarketState {
    /// Registers a contract and returns its instrument id. A contract that is
    /// already registered keeps its id; a new one gets the next id in sequence.
    pub fn register(&mut self, con_id: i64) -> (id: InstrumentId)
        requires
            old(self).wf(),
            old(self).con_ids().contains(con_id) || old(self).con_ids().len() < MAX_INSTRUMENTS,
        ensures
            final(self).wf(),
            (final(self).con_ids(), id) == register_result(old(self).con_ids(), con_id),
            final(self).server_tags() == old(self).server_tags(),
            final(self).symbols() == old(self).symbols(),
            final(self).quotes() == old(self).quotes(),
            final(self).min_ticks_scaled() == old(self).min_ticks_scaled(),
    {
        proof {
            self.lemma_con_ids_distinct();
        }
        let n = self.con_id_to_instrument.len();
        let mut i: usize = 0;
        while i < n
            invariant
                n == self.con_id_to_instrument@.len(),
                i <= n,
                self.wf(),
                forall|j: int| 0 <= j < i ==> self.con_ids()[j] != con_id,
            decreases n - i,
        {
            let (cid, iid) = self.con_id_to_instrument[i];
            if cid == con_id {
                proof {
                    assert(self.con_ids()[i as int] == con_id);
                    self.lemma_con_ids_distinct();
                }
                return iid;
            }
            i = i + 1;
        }
        assert(!self.con_ids().contains(con_id));
        let id = self.active_count;
        let ghost old_ids = self.con_ids();
        let ghost old_pairs = self.con_id_to_instrument@;
        self.con_id_to_instrument.push((con_id, id));
        self.active_count = self.active_count + 1;
        assert(self.con_ids() =~= old_ids.push(con_id));
        assert forall|a: int, b: int| 0 <= a < b < self.con_id_to_instrument@.len() implies #[trigger] self.con_id_to_instrument@[a].0 != #[trigger] self.con_id_to_instrument@[b].0 by {
            if b == old_pairs.len() {
                assert(old_ids[a] == old_pairs[a].0);
            } else {
                assert(old_pairs[a].0 != old_pairs[b].0);
            }
        }
        id
    }

    /// Maps a server tag to an instrument; a tag that is already mapped keeps
    /// its first mapping.
    pub fn register_server_tag(&mut self, server_tag: u32, instrument: InstrumentId)
        requires
            old(self).wf(),
        ensures
            final(self).wf(),
            final(self).server_tags() == add_server_tag(old(self).server_tags(), server_tag, instrument),
            final(self).con_ids() == old(self).con_ids(),
            final(self).symbols() == old(self).symbols(),
            final(self).quotes() == old(self).quotes(),
            final(self).min_ticks_scaled() == old(self).min_ticks_scaled(),
    {
        let n = self.server_tag_to_instrument.len();
        let mut i: usize = 0;
        while i < n
            invariant
                n == self.server_tag_to_instrument@.len(),
                i <= n,
                self.wf(),
                forall|j: int| 0 <= j < i ==> self.server_tag_to_instrument@[j].0 != server_tag,
            decreases n - i,
        {
            let (st, _) = self.server_tag_to_instrument[i];
            if st == server_tag {
                proof {
                    lemma_first_index_of_is(self.server_tag_to_instrument@, server_tag, i as int);
                }
                return;
            }
            i = i + 1;
        }
        proof {
            lemma_first_index_of_absent(self.server_tag_to_instrument@, server_tag);
        }
        let ghost old_tags = self.server_tag_to_instrument@;
        self.server_tag_to_instrument.push((server_tag, instrument));
        assert forall|a: int, b: int| 0 <= a < b < self.server_tag_to_instrument@.len() implies #[trigger] self.server_tag_to_instrument@[a].0 != #[trigger] self.server_tag_to_instrument@[b].0 by {
            if b < old_tags.len() {
                assert(old_tags[a].0 != old_tags[b].0);
            }
        }
    }

    /// Number of registered instruments.
    pub fn count(&self) -> (n: u32)
        requires
            self.wf(),
        ensures
            n == self.con_ids().len(),
    {
        self.active_count
    }

    /// All registered `(instrument, con_id)` pairs in registration order.
    pub fn active_instruments(&self) -> (v: Vec<(InstrumentId, i64)>)
        requires
            self.wf(),
        ensures
            v@ == Seq::new(self.con_ids().len(), |i: int| (i as InstrumentId, self.con_ids()[i])),
    {
        let n = self.con_id_to_instrument.len();
        let mut v: Vec<(InstrumentId, i64)> = Vec::new();
        let mut i: usize = 0;
        while i < n
            invariant
                n == self.con_id_to_instrument@.len(),
                i <= n,
                self.wf(),
                v@ == Seq::new(i as nat, |k: int| (k as InstrumentId, self.con_ids()[k])),
            decreases n - i,
        {
            let (cid, iid) = self.con_id_to_instrument[i];
            v.push((iid, cid));
            i = i + 1;
            assert(v@ =~= Seq::new(i as nat, |k: int| (k as InstrumentId, self.con_ids()[k])));
        }
        v
    }

    /// Contract id of an instrument, `None` if it is not registered.
    pub fn con_id(&self, instrument: InstrumentId) -> (r: Option<i64>)
        requires
            self.wf(),
        ensures
            r == (if instrument < self.con_ids().len() { Some(self.con_ids()[instrument as int]) } else { None::<i64> }),
    {
        let n = self.con_id_to_instrument.len();
        let mut i: usize = 0;
        while i < n
            invariant
                n == self.con_id_to_instrument@.len(),
                i <= n,
                self.wf(),
                i <= instrument,
            decreases n - i,
        {
            let (cid, iid) = self.con_id_to_instrument[i];
            if iid == instrument {
                return Some(cid);
            }
            i = i + 1;
        }
        None
    }

    /// Instrument of a contract id, `None` if it is not registered.
    pub fn instrument_by_con_id(&self, con_id: i64) -> (r: Option<InstrumentId>)
        requires
            self.wf(),
        ensures
            r == instrument_of(self.con_ids(), con_id),
    {
        proof {
            self.lemma_con_ids_distinct();
        }
        let n = self.con_id_to_instrument.len();
        let mut i: usize = 0;
        while i < n
            invariant
                n == self.con_id_to_instrument@.len(),
                i <= n,
                self.wf(),
                forall|j: int| 0 <= j < i ==> self.con_ids()[j] != con_id,
            decreases n - i,
        {
            let (cid, iid) = self.con_id_to_instrument[i];
            if cid == con_id {
                proof {
                    assert(self.con_ids()[i as int] == con_id);
                    self.lemma_con_ids_distinct();
                }
                return Some(iid);
            }
            i = i + 1;
        }
        None
    }

    /// Instrument of a server tag, `None` if the tag is not mapped.
    pub fn instrument_by_server_tag(&self, server_tag: u32) -> (r: Option<InstrumentId>)
        requires
            self.wf(),
        ensures
            r == lookup(self.server_tags(), server_tag),
    {
        let n = self.server_tag_to_instrument.len();
        let mut i: usize = 0;
        while i < n
            invariant
                n == self.server_tag_to_instrument@.len(),
                i <= n,
                forall|j: int| 0 <= j < i ==> self.server_tag_to_instrument@[j].0 != server_tag,
            decreases n - i,
        {
            let (st, iid) = self.server_tag_to_instrument[i];
            if st == server_tag {
                proof {
                    lemma_first_index_of_is(self.server_tag_to_instrument@, server_tag, i as int);
                }
                return Some(iid);
            }
            i = i + 1;
        }
        proof {
            lemma_first_index_of_absent(self.server_tag_to_instrument@, server_tag);
        }
        None
    }

    /// Forgets every server-tag mapping (old tags are invalid after a farm disconnect).
    pub fn clear_server_tags(&mut self)
        requires
            old(self).wf(),
        ensures
            final(self).wf(),
            final(self).server_tags() == Seq::<(u32, InstrumentId)>::empty(),
            final(self).con_ids() == old(self).con_ids(),
            final(self).symbols() == old(self).symbols(),
            final(self).quotes() == old(self).quotes(),
            final(self).min_ticks_scaled() == old(self).min_ticks_scaled(),
    {
        self.server_tag_to_instrument.clear();
    }
}


impl MarketState {
    /// Sets the symbol of an instrument (e.g. "AAPL"), replacing an earlier one.
    pub fn set_symbol(&mut self, id: InstrumentId, symbol: String)
        requires
            old(self).wf(),
        ensures
            final(self).wf(),
            final(self).symbols() == put_symbol(old(self).symbols(), id, symbol@),
            final(self).con_ids() == old(self).con_ids(),
            final(self).server_tags() == old(self).server_tags(),
            final(self).quotes() == old(self).quotes(),
            final(self).min_ticks_scaled() == old(self).min_ticks_scaled(),
    {
        let ghost old_syms = self.symbols@;
        proof {
            assert forall|j: int| 0 <= j < old_syms.len() implies #[trigger] self.symbols()[j].0 == old_syms[j].0 by {}
        }
        let n = self.symbols.len();
        let mut i: usize = 0;
        while i < n
            invariant
                n == self.symbols@.len(),
                i <= n,
                self.wf(),
                *self == *old(self),
                self.symbols@ == old_syms,
                forall|j: int| 0 <= j < i ==> self.symbols@[j].0 != id,
            decreases n - i,
        {
            if self.symbols[i].0 == id {
                proof {
                    lemma_first_index_of_is(self.symbols(), id, i as int);
                }
                let ghost before = self.symbols();
                self.symbols.set(i, (id, symbol));
                proof {
                    assert(self.symbols() =~= before.update(i as int, (id, symbol@)));
                    assert forall|a: int, b: int| 0 <= a < b < self.symbols@.len() implies #[trigger] self.symbols@[a].0 != #[trigger] self.symbols@[b].0 by {
                        assert(old_syms[a].0 != old_syms[b].0);
                    }
                }
                return;
            }
            i = i + 1;
        }
        proof {
            lemma_first_index_of_absent(self.symbols(), id);
        }
        let ghost before = self.symbols();
        self.symbols.push((id, symbol));
        proof {
            assert(self.symbols() =~= before.push((id, symbol@)));
            assert forall|a: int, b: int| 0 <= a < b < self.symbols@.len() implies #[trigger] self.symbols@[a].0 != #[trigger] self.symbols@[b].0 by {
                if b < old_syms.len() {
                    assert(old_syms[a].0 != old_syms[b].0);
                }
            }
        }
    }

    /// Symbol of an instrument, `"?"` if none was set.
    pub fn symbol(&self, id: InstrumentId) -> (r: &str)
        requires
            self.wf(),
        ensures
            r@ == (match lookup(self.symbols(), id) {
                Some(sym) => sym,
                None => "?"@,
            }),
    {
        let n = self.symbols.len();
        let mut i: usize = 0;
        while i < n
            invariant
                n == self.symbols@.len(),
                i <= n,
                forall|j: int| 0 <= j < i ==> self.symbols@[j].0 != id,
            decreases n - i,
        {
            if self.symbols[i].0 == id {
                proof {
                    assert forall|j: int| 0 <= j < i implies #[trigger] self.symbols()[j].0 != id by {
                        assert(self.symbols@[j].0 != id);
                    }
                    lemma_first_index_of_is(self.symbols(), id, i as int);
                }
                return self.symbols[i].1.as_str();
            }
            i = i + 1;
        }
        proof {
            assert forall|j: int| 0 <= j < self.symbols().len() implies #[trigger] self.symbols()[j].0 != id by {
                assert(self.symbols@[j].0 != id);
            }
            lemma_first_index_of_absent(self.symbols(), id);
        }
        "?"
    }

    /// Stores `min_tick * PRICE_SCALE` (rounded) for an instrument.
    pub fn set_min_tick_scaled(&mut self, id: InstrumentId, scaled: i64)
        requires
            old(self).wf(),
            id < MAX_INSTRUMENTS,
        ensures
            final(self).wf(),
            final(self).min_ticks_scaled() == old(self).min_ticks_scaled().update(id as int, scaled),
            final(self).con_ids() == old(self).con_ids(),
            final(self).server_tags() == old(self).server_tags(),
            final(self).symbols() == old(self).symbols(),
            final(self).quotes() == old(self).quotes(),
    {
        self.min_tick_scaled.set(id as usize, scaled);
    }

    /// `min_tick * PRICE_SCALE` of an instrument, for integer price conversion.
    pub fn min_tick_scaled(&self, id: InstrumentId) -> (r: i64)
        requires
            self.wf(),
            id < MAX_INSTRUMENTS,
        ensures
            r == self.min_ticks_scaled()[id as int],
    {
        self.min_tick_scaled[id as usize]
    }

    /// The quote of an instrument.
    pub fn quote(&self, id: InstrumentId) -> (q: &Quote)
        requires
            self.wf(),
            id < MAX_INSTRUMENTS,
        ensures
            *q == self.quotes()[id as int],
            self.quotes().len() == MAX_INSTRUMENTS,
    {
        &self.quotes[id as usize]
    }

    /// Mutable access to the quote of an instrument; nothing else changes.
    pub fn quote_mut(&mut self, id: InstrumentId) -> (q: &mut Quote)
        requires
            old(self).wf(),
            id < MAX_INSTRUMENTS,
        ensures
            *q == old(self).quotes()[id as int],
            old(self).quotes().len() == MAX_INSTRUMENTS,
            final(self).quotes() == old(self).quotes().update(id as int, *final(q)),
            final(self).wf(),
            final(self).con_ids() == old(self).con_ids(),
            final(self).server_tags() == old(self).server_tags(),
            final(self).symbols() == old(self).symbols(),
            final(self).min_ticks_scaled() == old(self).min_ticks_scaled(),
    {
        &mut self.quotes[id as usize]
    }

    /// Number of server tags registered.
    pub fn server_tag_count(&self) -> (n: usize)
        ensures
            n == self.server_tags().len(),
    {
        self.server_tag_to_instrument.len()
    }

    /// Best bid of an instrument.
    pub fn bid(&self, id: InstrumentId) -> (r: Price)
        requires
            self.wf(),
            id < MAX_INSTRUMENTS,
        ensures
            r == self.quotes()[id as int].bid,
    {
        self.quotes[id as usize].bid
    }

    /// Best ask of an instrument.
    pub fn ask(&self, id: InstrumentId) -> (r: Price)
        requires
            self.wf(),
            id < MAX_INSTRUMENTS,
        ensures
            r == self.quotes()[id as int].ask,
    {
        self.quotes[id as usize].ask
    }

    /// Last trade price of an instrument.
    pub fn last(&self, id: InstrumentId) -> (r: Price)
        requires
            self.wf(),
            id < MAX_INSTRUMENTS,
        ensures
            r == self.quotes()[id as int].last,
    {
        self.quotes[id as usize].last
    }

    /// Size at the best bid.
    pub fn bid_size(&self, id: InstrumentId) -> (r: Qty)
        requires
            self.wf(),
            id < MAX_INSTRUMENTS,
        ensures
            r == self.quotes()[id as int].bid_size,
    {
        self.quotes[id as usize].bid_size
    }

    /// Size at the best ask.
    pub fn ask_size(&self, id: InstrumentId) -> (r: Qty)
        requires
            self.wf(),
            id < MAX_INSTRUMENTS,
        ensures
            r == self.quotes()[id as int].ask_size,
    {
        self.quotes[id as usize].ask_size
    }

    /// Mid price `(bid + ask) / 2`, rounded toward zero.
    pub fn mid(&self, id: InstrumentId) -> (r: Price)
        requires
            self.wf(),
            id < MAX_INSTRUMENTS,
            i64::MIN <= self.quotes()[id as int].bid + self.quotes()[id as int].ask <= i64::MAX,
        ensures
            r == div_trunc(self.quotes()[id as int].bid + self.quotes()[id as int].ask, 2),
    {
        let q = &self.quotes[id as usize];
        (q.bid + q.ask) / 2
    }

    /// Spread `ask - bid`.
    pub fn spread(&self, id: InstrumentId) -> (r: Price)
        requires
            self.wf(),
            id < MAX_INSTRUMENTS,
            i64::MIN <= self.quotes()[id as int].ask - self.quotes()[id as int].bid <= i64::MAX,
        ensures
            r == self.quotes()[id as int].ask - self.quotes()[id as int].bid,
    {
        let q = &self.quotes[id as usize];
        q.ask - q.bid
    }

    /// Zeroes the quotes of all registered instruments, so that no stale price
    /// is traded on after a farm disconnect. Other slots keep their quotes.
    pub fn zero_all_quotes(&mut self)
        requires
            old(self).wf(),
        ensures
            final(self).wf(),
            final(self).quotes() == Seq::new(MAX_INSTRUMENTS as nat, |i: int|
                if i < old(self).con_ids().len() { zero_quote() } else { old(self).quotes()[i] }),
            final(self).con_ids() == old(self).con_ids(),
            final(self).server_tags() == old(self).server_tags(),
            final(self).symbols() == old(self).symbols(),
            final(self).min_ticks_scaled() == old(self).min_ticks_scaled(),
    {
        let n = self.active_count as usize;
        let ghost q0 = self.quotes@;
        let mut i: usize = 0;
        while i < n
            invariant
                n == old(self).con_ids().len(),
                i <= n,
                self.wf(),
                self.quotes@.len() == MAX_INSTRUMENTS,
                q0 == old(self).quotes(),
                forall|j: int| 0 <= j < MAX_INSTRUMENTS ==> #[trigger] self.quotes@[j] == (if j < i { zero_quote() } else { q0[j] }),
                self.con_ids() == old(self).con_ids(),
                self.server_tags() == old(self).server_tags(),
                self.symbols() == old(self).symbols(),
                self.min_ticks_scaled() == old(self).min_ticks_scaled(),
            decreases n - i,
        {
            self.quotes.set(i, Quote::default());
            i = i + 1;
        }
        assert(self.quotes() =~= Seq::new(MAX_INSTRUMENTS as nat, |i: int|
            if i < old(self).con_ids().len() { zero_quote() } else { old(self).quotes()[i] }));
    }
}


/// Registering the same contract twice is the same as registering it once:
/// the second call returns the same id and changes nothing.
pub proof fn law_register_idempotent(con_ids: Seq<i64>, con_id: i64)
    requires
        con_ids.len() <= MAX_INSTRUMENTS,
        con_ids.no_duplicates(),
    ensures
        register_result(register_result(con_ids, con_id).0, con_id) == register_result(con_ids, con_id),
{
    let (after, id) = register_result(con_ids, con_id);
    if !con_ids.contains(con_id) {
        assert(after[con_ids.len() as int] == con_id);
        assert(after.contains(con_id));
        let k = after.index_of(con_id);
        assert(0 <= k < after.len() && after[k] == con_id);
        if k < con_ids.len() {
            assert(con_ids[k] == con_id);
        }
    }
}

/// After `register(con_id)`, looking the contract up gives the id that was returned,
/// and the id is the number of contracts registered before it when the contract is new.
pub proof fn law_register_then_lookup(con_ids: Seq<i64>, con_id: i64)
    requires
        con_ids.len() <= MAX_INSTRUMENTS,
        con_ids.no_duplicates(),
    ensures
        instrument_of(register_result(con_ids, con_id).0, con_id) == Some(register_result(con_ids, con_id).1),
        !con_ids.contains(con_id) ==> register_result(con_ids, con_id).1 == con_ids.len(),
        register_result(con_ids, con_id).0.no_duplicates(),
{
    let (after, id) = register_result(con_ids, con_id);
    if !con_ids.contains(con_id) {
        assert(after[con_ids.len() as int] == con_id);
        let k = after.index_of(con_id);
        if k < con_ids.len() {
            assert(con_ids[k] == con_id);
        }
        assert forall|i: int, j: int| 0 <= i < after.len() && 0 <= j < after.len() && i != j implies after[i] != after[j] by {
            if i == con_ids.len() {
                assert(con_ids[j] != con_id);
            } else if j == con_ids.len() {
                assert(con_ids[i] != con_id);
            }
        }
    } else {
        let k = con_ids.index_of(con_id);
        assert(0 <= k < con_ids.len() && con_ids[k] == con_id);
    }
}

/// Registering a contract leaves the ids of all other contracts unchanged.
pub proof fn law_register_keeps_others(con_ids: Seq<i64>, con_id: i64, other: i64)
    requires
        con_ids.len() <= MAX_INSTRUMENTS,
        con_ids.no_duplicates(),
        other != con_id,
    ensures
        instrument_of(register_result(con_ids, con_id).0, other) == instrument_of(con_ids, other),
{
    let (after, id) = register_result(con_ids, con_id);
    if !con_ids.contains(con_id) {
        if con_ids.contains(other) {
            let k = con_ids.index_of(other);
            assert(after[k] == other);
            assert(after.contains(other));
            let k2 = after.index_of(other);
            if k2 < con_ids.len() {
                assert(con_ids[k2] == other);
            }
        } else {
            if after.contains(other) {
                let k2 = after.index_of(other);
                assert(k2 < con_ids.len() ==> con_ids[k2] == other);
            }
        }
    }
}

/// The instrument found for a contract maps back to that contract.
pub proof fn law_con_id_round_trip(con_ids: Seq<i64>, con_id: i64)
    requires
        con_ids.len() <= MAX_INSTRUMENTS,
        con_ids.no_duplicates(),
        instrument_of(con_ids, con_id) is Some,
    ensures
        instrument_of(con_ids, con_id).unwrap() < con_ids.len(),
        con_ids[instrument_of(con_ids, con_id).unwrap() as int] == con_id,
{
    let k = con_ids.index_of(con_id);
    assert(0 <= k < con_ids.len() && con_ids[k] == con_id);
}

/// A server tag keeps its first mapping: mapping a tag again (to any instrument)
/// changes nothing, and looking up a tag gives its first mapping.
pub proof fn law_server_tag_first_wins(tags: Seq<(u32, InstrumentId)>, tag: u32, a: InstrumentId, b: InstrumentId)
    ensures
        add_server_tag(add_server_tag(tags, tag, a), tag, b) == add_server_tag(tags, tag, a),
        lookup(add_server_tag(tags, tag, a), tag) == (match lookup(tags, tag) {
            Some(i) => Some(i),
            None => Some(a),
        }),
{
    lemma_first_index_of_bounds(tags, tag);
    if lookup(tags, tag) is None {
        let t2 = tags.push((tag, a));
        assert forall|j: int| 0 <= j < tags.len() implies t2[j].0 != tag by {
            assert(t2[j] == tags[j]);
        }
        lemma_first_index_of_is(t2, tag, tags.len() as int);
    }
}

/// Mapping a server tag does not change the lookup of any other tag.
pub proof fn law_server_tag_keeps_others(tags: Seq<(u32, InstrumentId)>, tag: u32, a: InstrumentId, other: u32)
    requires
        other != tag,
    ensures
        lookup(add_server_tag(tags, tag, a), other) == lookup(tags, other),
{
    lemma_first_index_of_bounds(tags, tag);
    lemma_first_index_of_bounds(tags, other);
    if lookup(tags, tag) is None {
        let t2 = tags.push((tag, a));
        let i = first_index_of(tags, other);
        if i >= 0 {
            assert forall|j: int| 0 <= j < i implies t2[j].0 != other by {
                assert(t2[j] == tags[j]);
            }
            lemma_first_index_of_is(t2, other, i);
        } else {
            assert forall|j: int| 0 <= j < t2.len() implies t2[j].0 != other by {
                if j < tags.len() {
                    assert(t2[j] == tags[j]);
                }
            }
            lemma_first_index_of_absent(t2, other);
        }
    }
}

/// After `set_symbol(id, s)`, the symbol of `id` is `s` and every other
/// instrument keeps its symbol.
pub proof fn law_symbol_read_after_write(syms: Seq<(InstrumentId, Seq<char>)>, id: InstrumentId, sym: Seq<char>, other: InstrumentId)
    ensures
        lookup(put_symbol(syms, id, sym), id) == Some(sym),
        other != id ==> lookup(put_symbol(syms, id, sym), other) == lookup(syms, other),
{
    lemma_first_index_of_bounds(syms, id);
    lemma_first_index_of_bounds(syms, other);
    let i = first_index_of(syms, id);
    let s2 = put_symbol(syms, id, sym);
    if i == -1 {
        assert forall|j: int| 0 <= j < syms.len() implies s2[j].0 != id by {
            assert(s2[j] == syms[j]);
        }
        lemma_first_index_of_is(s2, id, syms.len() as int);
    } else {
        assert forall|j: int| 0 <= j < i implies s2[j].0 != id by {
            assert(s2[j] == syms[j]);
        }
        lemma_first_index_of_is(s2, id, i);
    }
    if other != id {
        let k = first_index_of(syms, other);
        if k >= 0 {
            assert forall|j: int| 0 <= j < k implies s2[j].0 != other by {
                if j != i {
                    assert(s2[j] == syms[j]);
                }
            }
            lemma_first_index_of_is(s2, other, k);
        } else {
            assert forall|j: int| 0 <= j < s2.len() implies s2[j].0 != other by {
                if j < syms.len() && j != i {
                    assert(s2[j] == syms[j]);
                }
            }
            lemma_first_index_of_absent(s2, other);
        }
    }
}

} // verus!
