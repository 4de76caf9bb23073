//! Top-of-book ticks (35=P): how a batch of decoded ticks updates the quotes,
//! and which instruments are announced, once each, with their quote.

use vstd::prelude::*;

use crate::market_state::{lookup, MarketState};
use crate::types::{InstrumentId, Quote, MAX_INSTRUMENTS};

verus! {

/// The quote field a tick carries.
#[derive(Clone, Copy, Debug, PartialEq, Eq, Structural)]
pub enum TickField {
    BidPrice,
    AskPrice,
    LastPrice,
    HighPrice,
    LowPrice,
    OpenPrice,
    ClosePrice,
    BidSize,
    AskSize,
    LastSize,
    Volume,
    Timestamp,
    LastTimestamp,
    /// A field the quote does not hold.
    Other,
}

/// One decoded tick: the server tag of its subscription, the field, and the
/// raw magnitude (prices in minimum ticks, sizes in units, times in ns).
#[derive(Clone, Copy, Debug, PartialEq, Eq, Structural)]
pub struct RawTick {
    pub server_tag: u32,
    pub field: TickField,
    pub magnitude: i64,
}

/// Whether a field is a price, scaled by the instrument's minimum tick.
pub open spec fn is_price_field(f: TickField) -> bool {
    match f {
        TickField::BidPrice | TickField::AskPrice | TickField::LastPrice | TickField::HighPrice
        | TickField::LowPrice | TickField::OpenPrice | TickField::ClosePrice => true,
        _ => false,
    }
}

/// The quote after one tick; a price is `magnitude * min_tick_scaled`.
pub open spec fn apply_field(q: Quote, f: TickField, magnitude: i64, mts: i64) -> Quote {
    let p = (magnitude * mts) as i64;
    match f {
        TickField::BidPrice => Quote { bid: p, ..q },
        TickField::AskPrice => Quote { ask: p, ..q },
        TickField::LastPrice => Quote { last: p, ..q },
        TickField::HighPrice => Quote { high: p, ..q },
        TickField::LowPrice => Quote { low: p, ..q },
        TickField::OpenPrice => Quote { open: p, ..q },
        TickField::ClosePrice => Quote { close: p, ..q },
        TickField::BidSize => Quote { bid_size: magnitude, ..q },
        TickField::AskSize => Quote { ask_size: magnitude, ..q },
        TickField::LastSize => Quote { last_size: magnitude, ..q },
        TickField::Volume => Quote { volume: magnitude, ..q },
        TickField::Timestamp | TickField::LastTimestamp => Quote { timestamp_ns: magnitude as u64, ..q },
        TickField::Other => q,
    }
}

/// Whether `instrument` was already announced.
pub open spec fn announced(events: Seq<(InstrumentId, Quote)>, instrument: InstrumentId) -> bool {
    exists|j: int| 0 <= j < events.len() && #[trigger] events[j].0 == instrument
}

/// The quotes after a batch of ticks, and the announcements: each instrument
/// that a tick reaches, once, with its quote right after its first tick of
/// the batch. Ticks of unknown server tags are skipped.
pub open spec fn ticks_effect(
    tags: Seq<(u32, InstrumentId)>,
    mts: Seq<i64>,
    quotes: Seq<Quote>,
    ticks: Seq<RawTick>,
) -> (Seq<Quote>, Seq<(InstrumentId, Quote)>)
    decreases ticks.len(),
{
    if ticks.len() == 0 {
        (quotes, Seq::empty())
    } else {
        let (qs, ev) = ticks_effect(tags, mts, quotes, ticks.drop_last());
        let t = ticks.last();
        match lookup(tags, t.server_tag) {
            None => (qs, ev),
            Some(i) => {
                let q2 = apply_field(qs[i as int], t.field, t.magnitude, mts[i as int]);
                let qs2 = qs.update(i as int, q2);
                if announced(ev, i) {
                    (qs2, ev)
                } else {
                    (qs2, ev.push((i, q2)))
                }
            },
        }
    }
}

/// The ticks that can be applied: each tick of a known server
/// tag reaches an instrument below `MAX_INSTRUMENTS`, and each price fits in
/// an `i64`.
pub open spec fn ticks_applicable(tags: Seq<(u32, InstrumentId)>, mts: Seq<i64>, ticks: Seq<RawTick>) -> bool {
    forall|k: int|
        0 <= k < ticks.len() ==> match lookup(tags, #[trigger] ticks[k].server_tag) {
            Some(i) => i < MAX_INSTRUMENTS && (is_price_field(ticks[k].field) ==> i64::MIN <= ticks[k].magnitude
                * mts[i as int] <= i64::MAX),
            None => true,
        }
}

/// Whether `apply_ticks` may take this batch (see `ticks_applicable`): every
/// tick of a mapped server tag names an instrument slot, and its price fits.
pub fn ticks_applicable_check(market: &MarketState, ticks: &[RawTick]) -> (ok: bool)
    requires
        market.wf(),
    ensures
        ok == ticks_applicable(market.server_tags(), market.min_ticks_scaled(), ticks@),
{
    proof {
        market.lemma_table_sizes();
    }
    let n = ticks.len();
    let mut k: usize = 0;
    while k < n
        invariant
            n == ticks@.len(),
            k <= n,
            market.wf(),
            market.min_ticks_scaled().len() == MAX_INSTRUMENTS,
            ticks_applicable(market.server_tags(), market.min_ticks_scaled(), ticks@.take(k as int)),
        decreases n - k,
    {
        let t = ticks[k];
        match market.instrument_by_server_tag(t.server_tag) {
            Some(i) => {
                if i as usize >= MAX_INSTRUMENTS {
                    proof {
                        assert(ticks@[k as int] == t);
                    }
                    return false;
                }
                match t.field {
                    TickField::BidPrice | TickField::AskPrice | TickField::LastPrice | TickField::HighPrice
                    | TickField::LowPrice | TickField::OpenPrice | TickField::ClosePrice => {
                        let mts = market.min_tick_scaled(i);
                        if t.magnitude.checked_mul(mts).is_none() {
                            proof {
                                assert(ticks@[k as int] == t);
                            }
                            return false;
                        }
                    },
                    _ => {},
                }
            },
            None => {},
        }
        proof {
            assert forall|j: int| 0 <= j < k + 1 implies match lookup(market.server_tags(), #[trigger] ticks@.take(k + 1)[j].server_tag) {
                Some(i) => i < MAX_INSTRUMENTS && (is_price_field(ticks@.take(k + 1)[j].field) ==> i64::MIN <= ticks@.take(k + 1)[j].magnitude
                    * market.min_ticks_scaled()[i as int] <= i64::MAX),
                None => true,
            } by {
                if j < k {
                    assert(ticks@.take(k + 1)[j] == ticks@.take(k as int)[j]);
                } else {
                    assert(ticks@.take(k + 1)[j] == t);
                }
            }
        }
        k = k + 1;
    }
    assert(ticks@.take(n as int) =~= ticks@);
    true
}

/// Bit `b` of `m`.
pub open spec fn bit_set(m: u32, b: u32) -> bool {
    (m >> b) & 1u32 == 1u32
}

proof fn lemma_mask_add(m: u32, b: u32)
    requires
        b < 32,
    ensures
        ((m & (1u32 << b)) == 0u32) == !bit_set(m, b),
        forall|c: u32| c < 32 ==> #[trigger] bit_set(m | (1u32 << b), c) == (bit_set(m, c) || c == b),
{
    assert(((m & (1u32 << b)) == 0u32) == !(((m >> b) & 1u32) == 1u32)) by (bit_vector)
        requires
            b < 32,
    ;
    assert forall|c: u32| c < 32 implies #[trigger] bit_set(m | (1u32 << b), c) == (bit_set(m, c) || c == b) by {
        assert(((((m | (1u32 << b)) >> c) & 1u32) == 1u32) == ((((m >> c) & 1u32) == 1u32) || c == b)) by (bit_vector)
            requires
                b < 32,
                c < 32,
        ;
    }
}

/// The quote after one tick (see `apply_field`).
pub fn apply_tick_field(q: Quote, f: TickField, magnitude: i64, mts: i64) -> (r: Quote)
    requires
        is_price_field(f) ==> i64::MIN <= magnitude * mts <= i64::MAX,
    ensures
        r == apply_field(q, f, magnitude, mts),
{
    let mut r = q;
    match f {
        TickField::BidPrice => r.bid = magnitude * mts,
        TickField::AskPrice => r.ask = magnitude * mts,
        TickField::LastPrice => r.last = magnitude * mts,
        TickField::HighPrice => r.high = magnitude * mts,
        TickField::LowPrice => r.low = magnitude * mts,
        TickField::OpenPrice => r.open = magnitude * mts,
        TickField::ClosePrice => r.close = magnitude * mts,
        TickField::BidSize => r.bid_size = magnitude,
        TickField::AskSize => r.ask_size = magnitude,
        TickField::LastSize => r.last_size = magnitude,
        TickField::Volume => r.volume = magnitude,
        TickField::Timestamp | TickField::LastTimestamp => r.timestamp_ns = magnitude as u64,
        TickField::Other => {},
    }
    r
}

/// Applies a batch of ticks to the quotes and returns the announcements
/// (see `ticks_effect`); the caller publishes each announced quote.
pub fn apply_ticks(market: &mut MarketState, ticks: &[RawTick]) -> (events: Vec<(InstrumentId, Quote)>)
    requires
        old(market).wf(),
        ticks_applicable(old(market).server_tags(), old(market).min_ticks_scaled(), ticks@),
    ensures
        final(market).wf(),
        (final(market).quotes(), events@) == ticks_effect(
            old(market).server_tags(),
            old(market).min_ticks_scaled(),
            old(market).quotes(),
            ticks@,
        ),
        final(market).con_ids() == old(market).con_ids(),
        final(market).server_tags() == old(market).server_tags(),
        final(market).symbols() == old(market).symbols(),
        final(market).min_ticks_scaled() == old(market).min_ticks_scaled(),
{
    let ghost tags = market.server_tags();
    let ghost mts = market.min_ticks_scaled();
    let ghost quotes0 = market.quotes();
    let ghost con_ids0 = market.con_ids();
    let ghost symbols0 = market.symbols();
    let mut events: Vec<(InstrumentId, Quote)> = Vec::new();
    let mut mask: u32 = 0;
    assert forall|c: u32| c < 32 implies !#[trigger] bit_set(0u32, c) by {
        assert(((0u32 >> c) & 1u32) != 1u32) by (bit_vector);
    }
    let n = ticks.len();
    let mut k: usize = 0;
    assert(ticks@.take(0) =~= Seq::<RawTick>::empty());
    while k < n
        invariant
            n == ticks@.len(),
            k <= n,
            market.wf(),
            market.server_tags() == tags,
            market.min_ticks_scaled() == mts,
            market.con_ids() == con_ids0,
            market.symbols() == symbols0,
            ticks_applicable(tags, mts, ticks@),
            (market.quotes(), events@) == ticks_effect(tags, mts, quotes0, ticks@.take(k as int)),
            forall|c: u32| c < 32 ==> (#[trigger] bit_set(mask, c) <==> announced(events@, c)),
            forall|j: int| 0 <= j < events@.len() ==> #[trigger] events@[j].0 < MAX_INSTRUMENTS,
        decreases n - k,
    {
        let t = ticks[k];
        proof {
            assert(ticks@.take(k + 1).drop_last() =~= ticks@.take(k as int));
            assert(ticks@.take(k + 1).last() == t);
        }
        match market.instrument_by_server_tag(t.server_tag) {
            None => {},
            Some(instrument) => {
                proof {
                    assert(ticks@[k as int] == t);
                }
                let mts_i = market.min_tick_scaled(instrument);
                let q = *market.quote(instrument);
                let q2 = apply_tick_field(q, t.field, t.magnitude, mts_i);
                let ghost ev0 = events@;
                *market.quote_mut(instrument) = q2;
                let bit: u32 = 1u32 << instrument;
                proof {
                    lemma_mask_add(mask, instrument);
                }
                if mask & bit == 0 {
                    mask = mask | bit;
                    events.push((instrument, q2));
                    proof {
                        assert forall|c: u32| c < 32 implies (#[trigger] bit_set(mask, c) <==> announced(events@, c)) by {
                            if announced(ev0, c) {
                                let j = choose|j: int| 0 <= j < ev0.len() && #[trigger] ev0[j].0 == c;
                                assert(events@[j].0 == c);
                            }
                            if c == instrument {
                                assert(events@[ev0.len() as int].0 == c);
                            }
                            if announced(events@, c) && c != instrument {
                                let j = choose|j: int| 0 <= j < events@.len() && #[trigger] events@[j].0 == c;
                                assert(ev0[j].0 == c);
                            }
                        }
                    }
                }
            },
        }
        k = k + 1;
    }
    assert(ticks@.take(n as int) =~= ticks@);
    events
}


/// Law: a batch announces each instrument at most once, and only
/// instruments below `MAX_INSTRUMENTS` when the ticks are applicable.
pub proof fn law_announced_once(
    tags: Seq<(u32, InstrumentId)>,
    mts: Seq<i64>,
    quotes: Seq<Quote>,
    ticks: Seq<RawTick>,
)
    ensures
        forall|a: int, b: int|
            0 <= a < b < ticks_effect(tags, mts, quotes, ticks).1.len() ==> #[trigger] ticks_effect(tags, mts, quotes, ticks).1[a].0
                != #[trigger] ticks_effect(tags, mts, quotes, ticks).1[b].0,
    decreases ticks.len(),
{
    if ticks.len() > 0 {
        law_announced_once(tags, mts, quotes, ticks.drop_last());
        let ev = ticks_effect(tags, mts, quotes, ticks.drop_last()).1;
        let ev2 = ticks_effect(tags, mts, quotes, ticks).1;
        let t = ticks.last();
        match lookup(tags, t.server_tag) {
            None => {},
            Some(i) => {
                if !announced(ev, i) {
                    assert forall|a: int, b: int| 0 <= a < b < ev2.len() implies #[trigger] ev2[a].0 != #[trigger] ev2[b].0 by {
                        if b == ev.len() {
                            assert(ev2[a] == ev[a]);
                            assert(ev2[b].0 == i);
                        } else {
                            assert(ev2[a] == ev[a]);
                            assert(ev2[b] == ev[b]);
                        }
                    }
                }
            },
        }
    }
}

/// Law: a batch leaves the quotes of instruments that no tick reaches as
/// they were.
pub proof fn law_untouched_quotes_kept(
    tags: Seq<(u32, InstrumentId)>,
    mts: Seq<i64>,
    quotes: Seq<Quote>,
    ticks: Seq<RawTick>,
    k: int,
)
    requires
        0 <= k < quotes.len(),
        quotes.len() == MAX_INSTRUMENTS,
        ticks_applicable(tags, mts, ticks),
        forall|j: int| 0 <= j < ticks.len() ==> lookup(tags, #[trigger] ticks[j].server_tag) != Some(k as InstrumentId),
    ensures
        ticks_effect(tags, mts, quotes, ticks).0.len() == quotes.len(),
        ticks_effect(tags, mts, quotes, ticks).0[k] == quotes[k],
    decreases ticks.len(),
{
    if ticks.len() > 0 {
        assert forall|j: int| 0 <= j < ticks.drop_last().len() implies lookup(tags, #[trigger] ticks.drop_last()[j].server_tag) != Some(k as InstrumentId) by {
            assert(ticks.drop_last()[j] == ticks[j]);
        }
        assert forall|j: int| 0 <= j < ticks.drop_last().len() implies match lookup(tags, #[trigger] ticks.drop_last()[j].server_tag) {
            Some(i) => i < MAX_INSTRUMENTS && (is_price_field(ticks.drop_last()[j].field) ==> i64::MIN <= ticks.drop_last()[j].magnitude
                * mts[i as int] <= i64::MAX),
            None => true,
        } by {
            assert(ticks.drop_last()[j] == ticks[j]);
        }
        law_untouched_quotes_kept(tags, mts, quotes, ticks.drop_last(), k);
        let t = ticks.last();
        assert(ticks[ticks.len() - 1] == t);
        assert(lookup(tags, ticks[ticks.len() - 1].server_tag) != Some(k as InstrumentId));
        let qs = ticks_effect(tags, mts, quotes, ticks.drop_last()).0;
        match lookup(tags, t.server_tag) {
            None => {},
            Some(i) => {
                assert(i != k as InstrumentId);
                assert((k as InstrumentId) as int == k);
                let q2 = apply_field(qs[i as int], t.field, t.magnitude, mts[i as int]);
                assert(qs.update(i as int, q2)[k] == qs[k]);
            },
        }
    }
}

/// The quote field that ticks of kind `f` feed, read as an integer (0 for
/// `Other`, which feeds none).
pub open spec fn quote_slot(q: Quote, f: TickField) -> int {
    match f {
        TickField::BidPrice => q.bid as int,
        TickField::AskPrice => q.ask as int,
        TickField::LastPrice => q.last as int,
        TickField::HighPrice => q.high as int,
        TickField::LowPrice => q.low as int,
        TickField::OpenPrice => q.open as int,
        TickField::ClosePrice => q.close as int,
        TickField::BidSize => q.bid_size as int,
        TickField::AskSize => q.ask_size as int,
        TickField::LastSize => q.last_size as int,
        TickField::Volume => q.volume as int,
        TickField::Timestamp | TickField::LastTimestamp => q.timestamp_ns as int,
        TickField::Other => 0,
    }
}

/// Whether ticks of kinds `f` and `g` feed the same quote field.
pub open spec fn same_slot(f: TickField, g: TickField) -> bool {
    f == g || ((f == TickField::Timestamp || f == TickField::LastTimestamp) && (g == TickField::Timestamp
        || g == TickField::LastTimestamp))
}

/// Law: each tick writes its own quote field and no other. A price tick sets
/// its field to `magnitude * min_tick_scaled` (so a high tick sets the high
/// and leaves the low, and the other way round), a size or volume tick sets
/// its field to the magnitude, a time tick sets the timestamp; every field
/// that another kind of tick feeds keeps its value, and an `Other` tick
/// changes nothing.
pub proof fn law_tick_writes_its_own_field(q: Quote, f: TickField, g: TickField, magnitude: i64, mts: i64)
    requires
        is_price_field(f) ==> i64::MIN <= magnitude * mts <= i64::MAX,
    ensures
        f != TickField::Other ==> quote_slot(apply_field(q, f, magnitude, mts), f) == (if is_price_field(f) {
            magnitude * mts
        } else if f == TickField::Timestamp || f == TickField::LastTimestamp {
            (magnitude as u64) as int
        } else {
            magnitude as int
        }),
        !same_slot(f, g) ==> quote_slot(apply_field(q, f, magnitude, mts), g) == quote_slot(q, g),
        f == TickField::Other ==> apply_field(q, f, magnitude, mts) == q,
{
}

/// Law: a batch of one tick of a mapped server tag writes that tick's field
/// of its instrument's quote (see `law_tick_writes_its_own_field`), keeps
/// every other quote, and announces that instrument with its new quote.
pub proof fn law_single_tick(
    tags: Seq<(u32, InstrumentId)>,
    mts: Seq<i64>,
    quotes: Seq<Quote>,
    t: RawTick,
    g: TickField,
    k: int,
)
    requires
        quotes.len() == MAX_INSTRUMENTS,
        mts.len() == MAX_INSTRUMENTS,
        ticks_applicable(tags, mts, seq![t]),
        lookup(tags, t.server_tag) is Some,
        0 <= k < MAX_INSTRUMENTS,
    ensures
        ({
            let i = lookup(tags, t.server_tag)->0 as int;
            let (qs, ev) = ticks_effect(tags, mts, quotes, seq![t]);
            &&& qs.len() == MAX_INSTRUMENTS
            &&& (t.field != TickField::Other && is_price_field(t.field) ==> quote_slot(qs[i], t.field) == t.magnitude * mts[i])
            &&& (!is_price_field(t.field) && t.field != TickField::Other && t.field != TickField::Timestamp
                && t.field != TickField::LastTimestamp ==> quote_slot(qs[i], t.field) == t.magnitude)
            &&& (!same_slot(t.field, g) ==> quote_slot(qs[i], g) == quote_slot(quotes[i], g))
            &&& (k != i ==> qs[k] == quotes[k])
            &&& ev == seq![(i as InstrumentId, qs[i])]
        }),
{
    let s = seq![t];
    assert(s.drop_last() =~= Seq::<RawTick>::empty());
    assert(s.last() == t);
    assert(s[0] == t);
    let i = lookup(tags, t.server_tag)->0;
    assert(i < MAX_INSTRUMENTS);
    law_tick_writes_its_own_field(quotes[i as int], t.field, g, t.magnitude, mts[i as int]);
    assert(!announced(Seq::<(InstrumentId, Quote)>::empty(), i));
    let q2 = apply_field(quotes[i as int], t.field, t.magnitude, mts[i as int]);
    assert(ticks_effect(tags, mts, quotes, s.drop_last()) == (quotes, Seq::<(InstrumentId, Quote)>::empty()));
    assert(ticks_effect(tags, mts, quotes, s) == (quotes.update(i as int, q2), Seq::<(InstrumentId, Quote)>::empty().push((i, q2))));
    assert(Seq::<(InstrumentId, Quote)>::empty().push((i, q2)) =~= seq![(i, q2)]);
}
} // verus!
