//! Market-data farm state: which requests belong to which instrument and farm,
//! depth subscriptions, and what the farm connection sends and receives.
//! The functions here decide; the caller performs the network I/O.

use vstd::prelude::*;

use crate::depth::DepthTag;
use crate::fix_msg::{field_is, fields_view, new_fields, push_field, push_field_string, FixFields, TAG_MSG_TYPE, TAG_SENDING_TIME};
use crate::market_state::{add_server_tag, first_index_of, instrument_of, lemma_first_index_of_absent, lemma_first_index_of_bounds, lemma_first_index_of_is, lookup, MarketState};
use crate::text::{nat_text, str_eq, u64_text};
use crate::types::{zero_quote, InstrumentId, MAX_INSTRUMENTS};

verus! {

/// A market-data farm connection.
#[derive(Clone, Copy, Debug, PartialEq, Eq, Structural)]
pub enum FarmSlot {
    UsFarm,
    CashFarm,
    UsFuture,
    EuFarm,
    JFarm,
}

/// The farm whose connection serves `slot`: the slot itself when its
/// connection is up, else the US farm (secondary farms fall back to it).
pub open spec fn effective_slot(slot: FarmSlot, cash_up: bool, usfuture_up: bool, eufarm_up: bool, jfarm_up: bool) -> FarmSlot {
    match slot {
        FarmSlot::UsFarm => FarmSlot::UsFarm,
        FarmSlot::CashFarm => if cash_up { FarmSlot::CashFarm } else { FarmSlot::UsFarm },
        FarmSlot::UsFuture => if usfuture_up { FarmSlot::UsFuture } else { FarmSlot::UsFarm },
        FarmSlot::EuFarm => if eufarm_up { FarmSlot::EuFarm } else { FarmSlot::UsFarm },
        FarmSlot::JFarm => if jfarm_up { FarmSlot::JFarm } else { FarmSlot::UsFarm },
    }
}

/// The connection that serves `slot` (see `effective_slot`), `None` when that
/// connection is down. Every other connection keeps its value; the one
/// returned is lent out, stays `Some`, and ends up holding what the caller
/// leaves behind the returned reference.
pub fn farm_conn_for_slot<'a, T>(
    slot: FarmSlot,
    farm_conn: &'a mut Option<T>,
    cashfarm_conn: &'a mut Option<T>,
    usfuture_conn: &'a mut Option<T>,
    eufarm_conn: &'a mut Option<T>,
    jfarm_conn: &'a mut Option<T>,
) -> (r: Option<&'a mut T>)
    ensures
        ({
            let eff = effective_slot(slot, (*old(cashfarm_conn)) is Some, (*old(usfuture_conn)) is Some, (*old(eufarm_conn)) is Some, (*old(jfarm_conn)) is Some);
            let chosen = match eff {
                FarmSlot::UsFarm => *old(farm_conn),
                FarmSlot::CashFarm => *old(cashfarm_conn),
                FarmSlot::UsFuture => *old(usfuture_conn),
                FarmSlot::EuFarm => *old(eufarm_conn),
                FarmSlot::JFarm => *old(jfarm_conn),
            };
            &&& (r is Some <==> chosen is Some)
            &&& (r is Some ==> *r.unwrap() == chosen.unwrap())
            &&& (eff != FarmSlot::UsFarm ==> *final(farm_conn) == *old(farm_conn))
            &&& (eff != FarmSlot::CashFarm ==> *final(cashfarm_conn) == *old(cashfarm_conn))
            &&& (eff != FarmSlot::UsFuture ==> *final(usfuture_conn) == *old(usfuture_conn))
            &&& (eff != FarmSlot::EuFarm ==> *final(eufarm_conn) == *old(eufarm_conn))
            &&& (eff != FarmSlot::JFarm ==> *final(jfarm_conn) == *old(jfarm_conn))
            &&& (r is None ==> *final(farm_conn) == *old(farm_conn) && *final(cashfarm_conn) == *old(cashfarm_conn)
                && *final(usfuture_conn) == *old(usfuture_conn) && *final(eufarm_conn) == *old(eufarm_conn)
                && *final(jfarm_conn) == *old(jfarm_conn))
            &&& (r is Some && eff == FarmSlot::UsFarm ==> *final(farm_conn) == Some(*final(r.unwrap())))
            &&& (r is Some && eff == FarmSlot::CashFarm ==> *final(cashfarm_conn) == Some(*final(r.unwrap())))
            &&& (r is Some && eff == FarmSlot::UsFuture ==> *final(usfuture_conn) == Some(*final(r.unwrap())))
            &&& (r is Some && eff == FarmSlot::EuFarm ==> *final(eufarm_conn) == Some(*final(r.unwrap())))
            &&& (r is Some && eff == FarmSlot::JFarm ==> *final(jfarm_conn) == Some(*final(r.unwrap())))
        }),
{
    match slot {
        FarmSlot::UsFarm => farm_conn.as_mut(),
        FarmSlot::CashFarm => {
            if cashfarm_conn.is_some() {
                cashfarm_conn.as_mut()
            } else {
                farm_conn.as_mut()
            }
        },
        FarmSlot::UsFuture => {
            if usfuture_conn.is_some() {
                usfuture_conn.as_mut()
            } else {
                farm_conn.as_mut()
            }
        },
        FarmSlot::EuFarm => {
            if eufarm_conn.is_some() {
                eufarm_conn.as_mut()
            } else {
                farm_conn.as_mut()
            }
        },
        FarmSlot::JFarm => {
            if jfarm_conn.is_some() {
                jfarm_conn.as_mut()
            } else {
                farm_conn.as_mut()
            }
        },
    }
}


/// `s.take(i + 1).filter(p)` from `s.take(i).filter(p)`.
pub proof fn lemma_filter_take_step<A>(s: Seq<A>, pred: spec_fn(A) -> bool, i: int)
    requires
        0 <= i < s.len(),
    ensures
        s.take(i + 1).filter(pred) == (if pred(s[i]) { s.take(i).filter(pred).push(s[i]) } else { s.take(i).filter(pred) }),
{
    reveal(Seq::filter);
    assert(s.take(i + 1).drop_last() =~= s.take(i));
    assert(s.take(i + 1).last() == s[i]);
}

/// Market-data subscriptions of the farm connections.
pub struct FarmState {
    /// Next request id to hand out (market data and depth fan-out share it).
    pub next_md_req_id: u32,
    /// Market-data requests not yet acknowledged: `(req_id, instrument)`.
    pub md_req_to_instrument: Vec<(u32, InstrumentId)>,
    /// Active market data per instrument: `(instrument, farm, req_ids)`.
    pub instrument_md_reqs: Vec<(InstrumentId, FarmSlot, Vec<u32>)>,
    /// Active depth subscriptions: `(req_id, farm, is_smart_depth)`.
    pub depth_subs: Vec<(u32, FarmSlot, bool)>,
    /// Acknowledged depth subscriptions by server tag.
    pub depth_tag_to_req: Vec<DepthTag>,
    /// SmartDepth fan-out: `(per-exchange req_id, user's req_id)`.
    pub depth_fanout_map: Vec<(u32, u32)>,
    /// Whether the primary farm connection is down.
    pub disconnected: bool,
}

/// The view of the per-instrument market-data table, keyed by instrument.
pub open spec fn md_reqs_view(v: Seq<(InstrumentId, FarmSlot, Vec<u32>)>) -> Seq<(InstrumentId, (FarmSlot, Seq<u32>))> {
    v.map_values(|e: (InstrumentId, FarmSlot, Vec<u32>)| (e.0, (e.1, e.2@)))
}

/// The view of the depth-subscription table, keyed by request id.
pub open spec fn depth_subs_view(v: Seq<(u32, FarmSlot, bool)>) -> Seq<(u32, (FarmSlot, bool))> {
    v.map_values(|e: (u32, FarmSlot, bool)| (e.0, (e.1, e.2)))
}

/// Whether `id` is a request of an instrument served by `slot`.
pub open spec fn is_request_of_slot(reqs: Seq<(InstrumentId, (FarmSlot, Seq<u32>))>, slot: FarmSlot, id: u32) -> bool {
    exists|i: int| 0 <= i < reqs.len() && reqs[i].1.0 == slot && #[trigger] reqs[i].1.1.contains(id)
}

/// Keeps the market-data entries of instruments not served by `slot`.
pub open spec fn served_elsewhere(slot: FarmSlot) -> spec_fn((InstrumentId, (FarmSlot, Seq<u32>))) -> bool {
    |e: (InstrumentId, (FarmSlot, Seq<u32>))| e.1.0 != slot
}

/// Keeps the pending requests that are not requests of instruments served by `slot`.
pub open spec fn not_request_of_slot(reqs: Seq<(InstrumentId, (FarmSlot, Seq<u32>))>, slot: FarmSlot) -> spec_fn((u32, InstrumentId)) -> bool {
    |p: (u32, InstrumentId)| !is_request_of_slot(reqs, slot, p.0)
}

impl FarmState {
    /// No subscriptions; request ids start at 1.
    pub fn new() -> (f: Self)
        ensures
            f.next_md_req_id == 1,
            f.md_req_to_instrument@ == Seq::<(u32, InstrumentId)>::empty(),
            f.instrument_md_reqs@.len() == 0,
            f.depth_subs@.len() == 0,
            f.depth_tag_to_req@.len() == 0,
            f.depth_fanout_map@.len() == 0,
            !f.disconnected,
    {
        FarmState {
            next_md_req_id: 1,
            md_req_to_instrument: Vec::new(),
            instrument_md_reqs: Vec::new(),
            depth_subs: Vec::new(),
            depth_tag_to_req: Vec::new(),
            depth_fanout_map: Vec::new(),
            disconnected: false,
        }
    }

    /// The primary farm dropped: mark it down, forget market-data requests,
    /// and clear the server tags and the quotes of the registered instruments,
    /// so that no stale price is traded on. Depth subscriptions are kept.
    pub fn handle_disconnect(&mut self, market: &mut MarketState)
        requires
            old(market).wf(),
        ensures
            final(self).disconnected,
            final(self).md_req_to_instrument@.len() == 0,
            final(self).instrument_md_reqs@.len() == 0,
            final(self).next_md_req_id == old(self).next_md_req_id,
            final(self).depth_subs == old(self).depth_subs,
            final(self).depth_tag_to_req == old(self).depth_tag_to_req,
            final(self).depth_fanout_map == old(self).depth_fanout_map,
            final(market).wf(),
            final(market).server_tags() == Seq::<(u32, InstrumentId)>::empty(),
            final(market).quotes() == Seq::new(MAX_INSTRUMENTS as nat, |i: int|
                if i < old(market).con_ids().len() { zero_quote() } else { old(market).quotes()[i] }),
            final(market).con_ids() == old(market).con_ids(),
            final(market).symbols() == old(market).symbols(),
            final(market).min_ticks_scaled() == old(market).min_ticks_scaled(),
    {
        self.disconnected = true;
        self.md_req_to_instrument.clear();
        self.instrument_md_reqs.clear();
        market.clear_server_tags();
        market.zero_all_quotes();
    }

    /// Marks the primary farm down without clearing anything.
    pub fn handle_disconnect_for_test(&mut self)
        ensures
            final(self).disconnected,
            final(self).next_md_req_id == old(self).next_md_req_id,
            final(self).md_req_to_instrument == old(self).md_req_to_instrument,
            final(self).instrument_md_reqs == old(self).instrument_md_reqs,
            final(self).depth_subs == old(self).depth_subs,
            final(self).depth_tag_to_req == old(self).depth_tag_to_req,
            final(self).depth_fanout_map == old(self).depth_fanout_map,
    {
        self.disconnected = true;
    }

    /// A secondary farm dropped: forget the instruments it served and their
    /// pending requests; returns how many instruments were affected.
    pub fn handle_secondary_disconnect(&mut self, slot: FarmSlot) -> (affected: usize)
        ensures
            md_reqs_view(final(self).instrument_md_reqs@) == md_reqs_view(old(self).instrument_md_reqs@).filter(
                served_elsewhere(slot)),
            final(self).md_req_to_instrument@ == old(self).md_req_to_instrument@.filter(
                not_request_of_slot(md_reqs_view(old(self).instrument_md_reqs@), slot)),
            affected == md_reqs_view(old(self).instrument_md_reqs@).len() - md_reqs_view(final(self).instrument_md_reqs@).len(),
            final(self).next_md_req_id == old(self).next_md_req_id,
            final(self).depth_subs == old(self).depth_subs,
            final(self).depth_tag_to_req == old(self).depth_tag_to_req,
            final(self).depth_fanout_map == old(self).depth_fanout_map,
            final(self).disconnected == old(self).disconnected,
    {
        let ghost reqs0 = md_reqs_view(self.instrument_md_reqs@);
        let ghost keep = served_elsewhere(slot);
        let mut old_reqs: Vec<(InstrumentId, FarmSlot, Vec<u32>)> = Vec::new();
        std::mem::swap(&mut old_reqs, &mut self.instrument_md_reqs);
        let n = old_reqs.len();
        let mut stale: Vec<u32> = Vec::new();
        let mut affected: usize = 0;
        let mut i: usize = 0;
        assert(md_reqs_view(old_reqs@) == reqs0);
        assert(reqs0.take(0).filter(keep) =~= Seq::<(InstrumentId, (FarmSlot, Seq<u32>))>::empty()) by {
            reveal(Seq::filter);
        }
        assert(md_reqs_view(self.instrument_md_reqs@) =~= Seq::<(InstrumentId, (FarmSlot, Seq<u32>))>::empty());
        let mut kept: Vec<(InstrumentId, FarmSlot, Vec<u32>)> = Vec::new();
        assert(md_reqs_view(kept@) =~= reqs0.take(0).filter(keep));
        while i < n
            invariant
                n == old_reqs@.len(),
                i <= n,
                md_reqs_view(old_reqs@) == reqs0,
                keep == served_elsewhere(slot),
                md_reqs_view(kept@) == reqs0.take(i as int).filter(keep),
                affected == i - kept@.len(),
                forall|id: u32| stale@.contains(id) <==> is_request_of_slot(reqs0.take(i as int), slot, id),
            decreases n - i,
        {
            proof {
                lemma_filter_take_step(reqs0, keep, i as int);
                reqs0.take(i as int).filter_lemma(keep);
            }
            let e = &old_reqs[i];
            let ghost ev = reqs0[i as int];
            assert(ev == (e.0, (e.1, e.2@)));
            if e.1 == slot {
                let m = e.2.len();
                let mut j: usize = 0;
                let ghost stale0 = stale@;
                while j < m
                    invariant
                        m == e.2@.len(),
                        j <= m,
                        stale@ == stale0 + e.2@.take(j as int),
                    decreases m - j,
                {
                    stale.push(e.2[j]);
                    proof {
                        assert(e.2@.take(j + 1) =~= e.2@.take(j as int).push(e.2@[j as int]));
                        assert(stale@ =~= stale0 + e.2@.take(j + 1));
                    }
                    j = j + 1;
                }
                proof {
                    assert(e.2@.take(m as int) =~= e.2@);
                    assert forall|id: u32| stale@.contains(id) <==> (stale0.contains(id) || e.2@.contains(id)) by {
                        lemma_concat_contains(stale0, e.2@, id);
                    }
                }
                affected = affected + 1;
                proof {
                    assert(!keep(reqs0[i as int]));
                    assert(reqs0.take(i + 1).filter(keep) == reqs0.take(i as int).filter(keep));
                    assert(e.2@.take(m as int) =~= e.2@);
                    assert forall|id: u32| stale@.contains(id) <==> is_request_of_slot(reqs0.take(i + 1), slot, id) by {
                        if is_request_of_slot(reqs0.take(i + 1), slot, id) {
                            let k = choose|k: int| 0 <= k < i + 1 && reqs0.take(i + 1)[k].1.0 == slot && #[trigger] reqs0.take(i + 1)[k].1.1.contains(id);
                            if k < i {
                                assert(reqs0.take(i as int)[k] == reqs0.take(i + 1)[k]);
                                assert(reqs0.take(i as int)[k].1.1.contains(id));
                                assert(is_request_of_slot(reqs0.take(i as int), slot, id));
                                assert(stale0.contains(id));
                            } else {
                                assert(reqs0.take(i + 1)[k] == ev);
                                assert(e.2@.contains(id));
                            }
                        }
                        if stale0.contains(id) {
                            assert(is_request_of_slot(reqs0.take(i as int), slot, id));
                            let k = choose|k: int| 0 <= k < i && reqs0.take(i as int)[k].1.0 == slot && #[trigger] reqs0.take(i as int)[k].1.1.contains(id);
                            assert(reqs0.take(i + 1)[k] == reqs0.take(i as int)[k]);
                            assert(reqs0.take(i + 1)[k].1.1.contains(id));
                        }
                        if e.2@.contains(id) {
                            assert(reqs0.take(i + 1)[i as int] == ev);
                            assert(reqs0.take(i + 1)[i as int].1.1.contains(id));
                        }
                    }
                }
            } else {
                let entry = (e.0, e.1, e.2.clone());
                let ghost before = kept@;
                kept.push(entry);
                proof {
                    assert(keep(reqs0[i as int]));
                    assert(entry.2@ == e.2@);
                    assert(md_reqs_view(kept@) =~= md_reqs_view(before).push(ev));
                    assert forall|id: u32| stale@.contains(id) <==> is_request_of_slot(reqs0.take(i + 1), slot, id) by {
                        if is_request_of_slot(reqs0.take(i + 1), slot, id) {
                            let k = choose|k: int| 0 <= k < i + 1 && reqs0.take(i + 1)[k].1.0 == slot && #[trigger] reqs0.take(i + 1)[k].1.1.contains(id);
                            assert(reqs0.take(i as int)[k] == reqs0.take(i + 1)[k]);
                        }
                        if is_request_of_slot(reqs0.take(i as int), slot, id) {
                            let k = choose|k: int| 0 <= k < i && reqs0.take(i as int)[k].1.0 == slot && #[trigger] reqs0.take(i as int)[k].1.1.contains(id);
                            assert(reqs0.take(i + 1)[k] == reqs0.take(i as int)[k]);
                        }
                    }
                }
            }
            i = i + 1;
        }
        proof {
            assert(reqs0.take(n as int) =~= reqs0);
        }
        self.instrument_md_reqs = kept;
        let ghost pairs0 = self.md_req_to_instrument@;
        let ghost keep2 = not_request_of_slot(reqs0, slot);
        let mut old_pairs: Vec<(u32, InstrumentId)> = Vec::new();
        std::mem::swap(&mut old_pairs, &mut self.md_req_to_instrument);
        let n2 = old_pairs.len();
        let mut kept2: Vec<(u32, InstrumentId)> = Vec::new();
        let mut k: usize = 0;
        assert(pairs0.take(0).filter(keep2) =~= Seq::<(u32, InstrumentId)>::empty()) by {
            reveal(Seq::filter);
        }
        while k < n2
            invariant
                n2 == old_pairs@.len(),
                old_pairs@ == pairs0,
                keep2 == not_request_of_slot(reqs0, slot),
                k <= n2,
                kept2@ == pairs0.take(k as int).filter(keep2),
                forall|id: u32| stale@.contains(id) <==> is_request_of_slot(reqs0, slot, id),
            decreases n2 - k,
        {
            proof {
                lemma_filter_take_step(pairs0, keep2, k as int);
            }
            let p = old_pairs[k];
            if !vec_contains_u32(&stale, p.0) {
                assert(keep2(pairs0[k as int]));
                kept2.push(p);
            } else {
                assert(!keep2(pairs0[k as int]));
            }
            k = k + 1;
        }
        proof {
            assert(pairs0.take(n2 as int) =~= pairs0);
        }
        self.md_req_to_instrument = kept2;
        affected
    }
}

/// Whether `v` holds `x`.
pub fn vec_contains_u32(v: &Vec<u32>, x: u32) -> (r: bool)
    ensures
        r == v@.contains(x),
{
    let n = v.len();
    let mut i: usize = 0;
    while i < n
        invariant
            n == v@.len(),
            i <= n,
            forall|j: int| 0 <= j < i ==> v@[j] != x,
        decreases n - i,
    {
        if v[i] == x {
            return true;
        }
        i = i + 1;
    }
    false
}


/// An element of a concatenation comes from one of its parts.
pub proof fn lemma_concat_contains<A>(a: Seq<A>, b: Seq<A>, x: A)
    ensures
        (a + b).contains(x) <==> (a.contains(x) || b.contains(x)),
{
    if (a + b).contains(x) {
        let k = choose|k: int| 0 <= k < (a + b).len() && (a + b)[k] == x;
        if k < a.len() {
            assert(a[k] == x);
        } else {
            assert(b[k - a.len()] == x);
        }
    }
    if a.contains(x) {
        let k = choose|k: int| 0 <= k < a.len() && a[k] == x;
        assert((a + b)[k] == x);
    }
    if b.contains(x) {
        let k = choose|k: int| 0 <= k < b.len() && b[k] == x;
        assert((a + b)[a.len() + k] == x);
    }
}


/// The market-data table after subscribing `instrument` on `farm` with the
/// request ids `a` and `b`: appended to the instrument's requests (its farm is
/// kept), or a new entry.
pub open spec fn md_reqs_add(reqs: Seq<(InstrumentId, (FarmSlot, Seq<u32>))>, instrument: InstrumentId, farm: FarmSlot, a: u32, b: u32) -> Seq<(InstrumentId, (FarmSlot, Seq<u32>))> {
    let i = first_index_of(reqs, instrument);
    if i == -1 {
        reqs.push((instrument, (farm, seq![a, b])))
    } else {
        reqs.update(i, (instrument, (reqs[i].1.0, reqs[i].1.1.push(a).push(b))))
    }
}

/// The 35=V request for top-of-book (tick type 442) and last-trade (443)
/// data of a contract, under two request ids.
pub open spec fn mktdata_subscribe_fields(bid_ask_id: u32, last_id: u32, con_id: i64, sending_time: Seq<char>) -> Seq<(u32, Seq<char>)> {
    let c = nat_text((con_id as u32) as nat);
    seq![
        (TAG_MSG_TYPE, "V"@), (TAG_SENDING_TIME, sending_time), (263, "1"@), (146, "2"@),
        (262, nat_text(bid_ask_id as nat)), (6008, c), (207, "BEST"@), (167, "CS"@), (264, "442"@),
        (6088, "Socket"@), (9830, "1"@), (9839, "1"@),
        (262, nat_text(last_id as nat)), (6008, c), (207, "BEST"@), (167, "CS"@), (264, "443"@),
        (6088, "Socket"@), (9830, "1"@), (9839, "1"@),
    ]
}

/// The 35=V request that cancels one market-data or depth request.
pub open spec fn cancel_request_fields(req_id: u32) -> Seq<(u32, Seq<char>)> {
    seq![(TAG_MSG_TYPE, "V"@), (262, nat_text(req_id as nat)), (263, "2"@)]
}

/// Builds the 35=V subscribe request of `mktdata_subscribe_fields`.
pub fn build_mktdata_subscribe(bid_ask_id: u32, last_id: u32, con_id: i64, sending_time: &str) -> (v: FixFields)
    ensures
        fields_view(v@) == mktdata_subscribe_fields(bid_ask_id, last_id, con_id, sending_time@),
{
    let a = u64_text(bid_ask_id as u64);
    let l = u64_text(last_id as u64);
    let c = u64_text((con_id as u32) as u64);
    let mut v = new_fields();
    push_field(&mut v, TAG_MSG_TYPE, "V");
    push_field(&mut v, TAG_SENDING_TIME, sending_time);
    push_field(&mut v, 263, "1");
    push_field(&mut v, 146, "2");
    push_field(&mut v, 262, a.as_str());
    push_field(&mut v, 6008, c.as_str());
    push_field(&mut v, 207, "BEST");
    push_field(&mut v, 167, "CS");
    push_field(&mut v, 264, "442");
    push_field(&mut v, 6088, "Socket");
    push_field(&mut v, 9830, "1");
    push_field(&mut v, 9839, "1");
    push_field(&mut v, 262, l.as_str());
    push_field(&mut v, 6008, c.as_str());
    push_field(&mut v, 207, "BEST");
    push_field(&mut v, 167, "CS");
    push_field(&mut v, 264, "443");
    push_field(&mut v, 6088, "Socket");
    push_field(&mut v, 9830, "1");
    push_field(&mut v, 9839, "1");
    assert(fields_view(v@) =~= mktdata_subscribe_fields(bid_ask_id, last_id, con_id, sending_time@));
    v
}

/// Builds the 35=V request that cancels `req_id`.
pub fn build_cancel_request(req_id: u32) -> (v: FixFields)
    ensures
        fields_view(v@) == cancel_request_fields(req_id),
{
    let r = u64_text(req_id as u64);
    let mut v = new_fields();
    push_field(&mut v, TAG_MSG_TYPE, "V");
    push_field(&mut v, 262, r.as_str());
    push_field(&mut v, 263, "2");
    assert(fields_view(v@) =~= cancel_request_fields(req_id));
    v
}

impl FarmState {
    /// Subscribes an instrument to top-of-book and last-trade data: takes the
    /// next two request ids, records them as pending for the instrument and as
    /// its active requests, and returns them with the request to send.
    pub fn mktdata_subscribe(&mut self, con_id: i64, instrument: InstrumentId, farm: FarmSlot, sending_time: &str) -> (r: (u32, u32, FixFields))
        requires
            old(self).next_md_req_id <= u32::MAX - 2,
        ensures
            r.0 == old(self).next_md_req_id,
            r.1 == old(self).next_md_req_id + 1,
            final(self).next_md_req_id == old(self).next_md_req_id + 2,
            final(self).md_req_to_instrument@ == old(self).md_req_to_instrument@.push((r.0, instrument)).push((r.1, instrument)),
            md_reqs_view(final(self).instrument_md_reqs@) == md_reqs_add(md_reqs_view(old(self).instrument_md_reqs@), instrument, farm, r.0, r.1),
            fields_view(r.2@) == mktdata_subscribe_fields(r.0, r.1, con_id, sending_time@),
            final(self).depth_subs == old(self).depth_subs,
            final(self).depth_tag_to_req == old(self).depth_tag_to_req,
            final(self).depth_fanout_map == old(self).depth_fanout_map,
            final(self).disconnected == old(self).disconnected,
    {
        let bid_ask_id = self.next_md_req_id;
        let last_id = self.next_md_req_id + 1;
        self.next_md_req_id = self.next_md_req_id + 2;
        self.md_req_to_instrument.push((bid_ask_id, instrument));
        self.md_req_to_instrument.push((last_id, instrument));
        let ghost reqs0 = md_reqs_view(self.instrument_md_reqs@);
        match md_req_index(&self.instrument_md_reqs, instrument) {
            Some(i) => {
                proof {
                    lemma_first_index_of_bounds(reqs0, instrument);
                }
                let ghost e = reqs0[i as int];
                let mut entry = self.instrument_md_reqs.remove(i);
                entry.2.push(bid_ask_id);
                entry.2.push(last_id);
                let ghost ev = (entry.0, (entry.1, entry.2@));
                self.instrument_md_reqs.insert(i, entry);
                proof {
                    assert(ev == (instrument, (e.1.0, e.1.1.push(bid_ask_id).push(last_id))));
                    assert(md_reqs_view(self.instrument_md_reqs@) =~= reqs0.update(i as int, ev));
                }
            },
            None => {
                let reqs = vec![bid_ask_id, last_id];
                let ghost rv = reqs@;
                self.instrument_md_reqs.push((instrument, farm, reqs));
                proof {
                    assert(rv =~= seq![bid_ask_id, last_id]);
                    assert(md_reqs_view(self.instrument_md_reqs@) =~= reqs0.push((instrument, (farm, seq![bid_ask_id, last_id]))));
                }
            },
        }
        let fields = build_mktdata_subscribe(bid_ask_id, last_id, con_id, sending_time);
        (bid_ask_id, last_id, fields)
    }

    /// Unsubscribes an instrument: removes its entry and returns its farm and
    /// request ids (each is cancelled with `build_cancel_request`); `None` if
    /// it has no market data.
    pub fn mktdata_unsubscribe(&mut self, instrument: InstrumentId) -> (r: Option<(FarmSlot, Vec<u32>)>)
        ensures
            ({
                let old_v = md_reqs_view(old(self).instrument_md_reqs@);
                let i = first_index_of(old_v, instrument);
                &&& (i == -1 ==> r is None && final(self).instrument_md_reqs@ == old(self).instrument_md_reqs@)
                &&& (i != -1 ==> r is Some && r.unwrap().0 == old_v[i].1.0 && r.unwrap().1@ == old_v[i].1.1
                    && md_reqs_view(final(self).instrument_md_reqs@) == old_v.remove(i))
            }),
            final(self).next_md_req_id == old(self).next_md_req_id,
            final(self).md_req_to_instrument == old(self).md_req_to_instrument,
            final(self).depth_subs == old(self).depth_subs,
            final(self).depth_tag_to_req == old(self).depth_tag_to_req,
            final(self).depth_fanout_map == old(self).depth_fanout_map,
            final(self).disconnected == old(self).disconnected,
    {
        let ghost reqs0 = md_reqs_view(self.instrument_md_reqs@);
        match md_req_index(&self.instrument_md_reqs, instrument) {
            Some(i) => {
                let (_, farm, reqs) = self.instrument_md_reqs.remove(i);
                proof {
                    assert(md_reqs_view(self.instrument_md_reqs@) =~= reqs0.remove(i as int));
                }
                Some((farm, reqs))
            },
            None => None,
        }
    }
}

/// Index of the entry of `instrument` in the market-data table.
fn md_req_index(v: &Vec<(InstrumentId, FarmSlot, Vec<u32>)>, instrument: InstrumentId) -> (r: Option<usize>)
    ensures
        match r {
            Some(i) => first_index_of(md_reqs_view(v@), instrument) == i as int && i < v@.len(),
            None => first_index_of(md_reqs_view(v@), instrument) == -1,
        },
{
    let ghost reqs0 = md_reqs_view(v@);
    let n = v.len();
    let mut i: usize = 0;
    while i < n
        invariant
            n == v@.len(),
            i <= n,
            reqs0 == md_reqs_view(v@),
            forall|j: int| 0 <= j < i ==> #[trigger] reqs0[j].0 != instrument,
        decreases n - i,
    {
        if v[i].0 == instrument {
            proof {
                lemma_first_index_of_is(reqs0, instrument, i as int);
            }
            return Some(i);
        }
        i = i + 1;
    }
    proof {
        lemma_first_index_of_absent(reqs0, instrument);
    }
    None
}


/// The exchanges a SmartDepth request fans out to (the server acknowledges a
/// BEST depth request but only sends data per exchange).
pub open spec fn smart_depth_exchanges() -> Seq<Seq<char>> {
    seq![
        "NASDAQ"@, "IEX"@, "BATS"@, "ARCA"@, "BEX"@, "NYSE"@, "BYX"@, "NYSENAT"@, "T24X"@,
        "DRCTEDGE"@, "MEMX"@, "PEARL"@, "AMEX"@, "CHX"@, "LTSE"@, "PSX"@, "ISE"@, "EDGEA"@,
    ]
}

/// Exchanges whose depth is requested directly (tick type 0); the others are
/// requested through the socket feed (tick type 442).
pub open spec fn is_direct_depth_exchange(exchange: Seq<char>) -> bool {
    exchange == "NASDAQ"@ || exchange == "BATS"@ || exchange == "ARCA"@ || exchange == "BEX"@
        || exchange == "NYSE"@ || exchange == "IEX"@ || exchange == "BYX"@ || exchange == "NYSENAT"@
        || exchange == "T24X"@
}

/// FIX security type of an API security type: STK is CS, the others keep their name.
pub open spec fn fix_sec_type(sec_type: Seq<char>) -> Seq<char> {
    if sec_type == "STK"@ {
        "CS"@
    } else {
        sec_type
    }
}

/// FIX exchange of a single-exchange depth request: ISLAND is NASDAQ.
pub open spec fn fix_depth_exchange(exchange: Seq<char>) -> Seq<char> {
    if exchange == "ISLAND"@ {
        "NASDAQ"@
    } else {
        exchange
    }
}

/// The 35=V depth request of one exchange.
pub open spec fn depth_request_fields(req_id: Seq<char>, con_id: Seq<char>, exchange: Seq<char>, sec_type: Seq<char>) -> Seq<(u32, Seq<char>)> {
    if is_direct_depth_exchange(exchange) {
        seq![
            (TAG_MSG_TYPE, "V"@), (263, "1"@), (146, "1"@), (262, req_id), (6008, con_id),
            (207, exchange), (167, sec_type), (264, "0"@), (9830, "1"@),
        ]
    } else {
        seq![
            (TAG_MSG_TYPE, "V"@), (263, "1"@), (146, "1"@), (262, req_id), (6008, con_id),
            (207, exchange), (167, sec_type), (264, "442"@), (6088, "Socket"@), (9830, "1"@),
        ]
    }
}

/// Law: a depth request carries the request id (tag 262), the contract id
/// (tag 6008), the exchange (tag 207) and the security type (tag 167) it is
/// built for, each once and with no other value under that tag.
pub proof fn law_depth_request_names_its_subscription(req_id: Seq<char>, con_id: Seq<char>, exchange: Seq<char>, sec_type: Seq<char>)
    ensures
        field_is(depth_request_fields(req_id, con_id, exchange, sec_type), 262, req_id),
        field_is(depth_request_fields(req_id, con_id, exchange, sec_type), 6008, con_id),
        field_is(depth_request_fields(req_id, con_id, exchange, sec_type), 207, exchange),
        field_is(depth_request_fields(req_id, con_id, exchange, sec_type), 167, sec_type),
{
    let m = depth_request_fields(req_id, con_id, exchange, sec_type);
    assert(m[3] == (262u32, req_id) && m[4] == (6008u32, con_id) && m[5] == (207u32, exchange) && m[6] == (167u32, sec_type));
    assert(m[0].0 == TAG_MSG_TYPE && m[1].0 == 263 && m[2].0 == 146 && m[7].0 == 264 && m[m.len() - 1].0 == 9830);
    assert(m.len() == 9 || (m.len() == 10 && m[8].0 == 6088));
    assert forall|i: int| 0 <= i < m.len() && (#[trigger] m[i]).0 == 262 implies m[i].1 == req_id by {
        if i == 0 {} else if i == 1 {} else if i == 2 {} else if i == 3 {} else if i == 4 {} else if i == 5 {}
        else if i == 6 {} else if i == 7 {} else if i == 8 {} else {}
    }
    assert forall|i: int| 0 <= i < m.len() && (#[trigger] m[i]).0 == 6008 implies m[i].1 == con_id by {
        if i == 0 {} else if i == 1 {} else if i == 2 {} else if i == 3 {} else if i == 4 {} else if i == 5 {}
        else if i == 6 {} else if i == 7 {} else if i == 8 {} else {}
    }
    assert forall|i: int| 0 <= i < m.len() && (#[trigger] m[i]).0 == 207 implies m[i].1 == exchange by {
        if i == 0 {} else if i == 1 {} else if i == 2 {} else if i == 3 {} else if i == 4 {} else if i == 5 {}
        else if i == 6 {} else if i == 7 {} else if i == 8 {} else {}
    }
    assert forall|i: int| 0 <= i < m.len() && (#[trigger] m[i]).0 == 167 implies m[i].1 == sec_type by {
        if i == 0 {} else if i == 1 {} else if i == 2 {} else if i == 3 {} else if i == 4 {} else if i == 5 {}
        else if i == 6 {} else if i == 7 {} else if i == 8 {} else {}
    }
}

/// The views of a list of messages.
pub open spec fn messages_view(v: Seq<FixFields>) -> Seq<Seq<(u32, Seq<char>)>> {
    v.map_values(|m: FixFields| fields_view(m@))
}

fn smart_depth_exchange_list() -> (v: Vec<&'static str>)
    ensures
        v@.map_values(|s: &str| s@) == smart_depth_exchanges(),
{
    let mut v: Vec<&'static str> = Vec::new();
    v.push("NASDAQ");
    v.push("IEX");
    v.push("BATS");
    v.push("ARCA");
    v.push("BEX");
    v.push("NYSE");
    v.push("BYX");
    v.push("NYSENAT");
    v.push("T24X");
    v.push("DRCTEDGE");
    v.push("MEMX");
    v.push("PEARL");
    v.push("AMEX");
    v.push("CHX");
    v.push("LTSE");
    v.push("PSX");
    v.push("ISE");
    v.push("EDGEA");
    assert(v@.map_values(|s: &str| s@) =~= smart_depth_exchanges());
    v
}

/// Builds the depth request of one exchange (see `depth_request_fields`).
pub fn build_depth_request(req_id: &str, con_id: &str, exchange: &str, sec_type: &str) -> (v: FixFields)
    ensures
        fields_view(v@) == depth_request_fields(req_id@, con_id@, exchange@, sec_type@),
{
    let is_direct = str_eq(exchange, "NASDAQ") || str_eq(exchange, "BATS") || str_eq(exchange, "ARCA")
        || str_eq(exchange, "BEX") || str_eq(exchange, "NYSE") || str_eq(exchange, "IEX")
        || str_eq(exchange, "BYX") || str_eq(exchange, "NYSENAT") || str_eq(exchange, "T24X");
    let mut v = new_fields();
    push_field(&mut v, TAG_MSG_TYPE, "V");
    push_field(&mut v, 263, "1");
    push_field(&mut v, 146, "1");
    push_field(&mut v, 262, req_id);
    push_field(&mut v, 6008, con_id);
    push_field(&mut v, 207, exchange);
    push_field(&mut v, 167, sec_type);
    if is_direct {
        push_field(&mut v, 264, "0");
    } else {
        push_field(&mut v, 264, "442");
        push_field(&mut v, 6088, "Socket");
    }
    push_field(&mut v, 9830, "1");
    assert(fields_view(v@) =~= depth_request_fields(req_id@, con_id@, exchange@, sec_type@));
    v
}

impl FarmState {
    /// Subscribes to market depth on `farm`. The request is recorded as a depth
    /// subscription. When the farm connection is up (`conn_up`), a SmartDepth
    /// request fans out: each exchange of `smart_depth_exchanges()` gets the
    /// next request id, recorded as a SmartDepth subscription mapped back to
    /// `req_id`, and its own depth request; a plain request is sent once for
    /// its exchange. Returns the requests to send on the farm connection.
    pub fn depth_subscribe(&mut self, req_id: u32, con_id: i64, exchange: &str, sec_type: &str, is_smart_depth: bool, farm: FarmSlot, conn_up: bool) -> (msgs: Vec<FixFields>)
        requires
            conn_up && is_smart_depth ==> old(self).next_md_req_id <= u32::MAX - 18,
        ensures
            ({
                let fan = conn_up && is_smart_depth;
                let n0 = old(self).next_md_req_id;
                let con = nat_text((con_id as u32) as nat);
                let sec = fix_sec_type(sec_type@);
                &&& final(self).next_md_req_id == (if fan { n0 + 18 } else { n0 as int })
                &&& depth_subs_view(final(self).depth_subs@) == depth_subs_view(old(self).depth_subs@).push((req_id, (farm, is_smart_depth)))
                    + (if fan { Seq::new(18, |k: int| ((n0 + k) as u32, (farm, true))) } else { Seq::empty() })
                &&& final(self).depth_fanout_map@ == old(self).depth_fanout_map@
                    + (if fan { Seq::new(18, |k: int| ((n0 + k) as u32, req_id)) } else { Seq::empty() })
                &&& messages_view(msgs@) == (if !conn_up {
                        Seq::empty()
                    } else if is_smart_depth {
                        Seq::new(18, |k: int| depth_request_fields(nat_text((n0 + k) as nat), con, smart_depth_exchanges()[k], sec))
                    } else {
                        seq![depth_request_fields(nat_text(req_id as nat), con, fix_depth_exchange(exchange@), sec)]
                    })
            }),
            final(self).md_req_to_instrument == old(self).md_req_to_instrument,
            final(self).instrument_md_reqs == old(self).instrument_md_reqs,
            final(self).depth_tag_to_req == old(self).depth_tag_to_req,
            final(self).disconnected == old(self).disconnected,
    {
        let sec = if str_eq(sec_type, "STK") { "CS" } else { sec_type };
        proof {
            reveal_strlit("CS");
        }
        let ghost subs0 = depth_subs_view(self.depth_subs@);
        self.depth_subs.push((req_id, farm, is_smart_depth));
        assert(depth_subs_view(self.depth_subs@) =~= subs0.push((req_id, (farm, is_smart_depth))));
        let ghost subs1 = depth_subs_view(self.depth_subs@);
        let ghost fan0 = self.depth_fanout_map@;
        let ghost n0 = self.next_md_req_id;
        let mut msgs: Vec<FixFields> = Vec::new();
        if !conn_up {
            assert(messages_view(msgs@) =~= Seq::<Seq<(u32, Seq<char>)>>::empty());
            assert(depth_subs_view(self.depth_subs@) =~= subs1 + Seq::<(u32, (FarmSlot, bool))>::empty());
            assert(self.depth_fanout_map@ =~= fan0 + Seq::<(u32, u32)>::empty());
            return msgs;
        }
        let con_id_str = u64_text((con_id as u32) as u64);
        if is_smart_depth {
            let exchanges = smart_depth_exchange_list();
            assert(exchanges@.len() == exchanges@.map_values(|s: &str| s@).len());
            let mut k: usize = 0;
            while k < 18
                invariant
                    k <= 18,
                    exchanges@.map_values(|s: &str| s@) == smart_depth_exchanges(),
                    exchanges@.len() == 18,
                    self.next_md_req_id == n0 + k,
                    n0 <= u32::MAX - 18,
                    con_id_str@ == nat_text((con_id as u32) as nat),
                    sec@ == fix_sec_type(sec_type@),
                    depth_subs_view(self.depth_subs@) == subs1 + Seq::new(k as nat, |j: int| ((n0 + j) as u32, (farm, true))),
                    self.depth_fanout_map@ == fan0 + Seq::new(k as nat, |j: int| ((n0 + j) as u32, req_id)),
                    messages_view(msgs@) == Seq::new(k as nat, |j: int| depth_request_fields(nat_text((n0 + j) as nat),
                        nat_text((con_id as u32) as nat), smart_depth_exchanges()[j], fix_sec_type(sec_type@))),
                    self.md_req_to_instrument == old(self).md_req_to_instrument,
                    self.instrument_md_reqs == old(self).instrument_md_reqs,
                    self.depth_tag_to_req == old(self).depth_tag_to_req,
                    self.disconnected == old(self).disconnected,
                decreases 18 - k,
            {
                let sub_req = self.next_md_req_id;
                self.next_md_req_id = self.next_md_req_id + 1;
                let ghost ds = depth_subs_view(self.depth_subs@);
                self.depth_subs.push((sub_req, farm, true));
                self.depth_fanout_map.push((sub_req, req_id));
                let sub_req_str = u64_text(sub_req as u64);
                let exch = exchanges[k];
                let m = build_depth_request(sub_req_str.as_str(), con_id_str.as_str(), exch, sec);
                let ghost mv = fields_view(m@);
                let ghost before = messages_view(msgs@);
                msgs.push(m);
                proof {
                    assert(exchanges@.map_values(|s: &str| s@)[k as int] == exch@);
                    assert(depth_subs_view(self.depth_subs@) =~= ds.push((sub_req, (farm, true))));
                    assert(depth_subs_view(self.depth_subs@) =~= subs1 + Seq::new((k + 1) as nat, |j: int| ((n0 + j) as u32, (farm, true))));
                    assert(self.depth_fanout_map@ =~= fan0 + Seq::new((k + 1) as nat, |j: int| ((n0 + j) as u32, req_id)));
                    assert(messages_view(msgs@) =~= before.push(mv));
                    assert(messages_view(msgs@) =~= Seq::new((k + 1) as nat, |j: int| depth_request_fields(nat_text((n0 + j) as nat),
                        nat_text((con_id as u32) as nat), smart_depth_exchanges()[j], fix_sec_type(sec_type@))));
                }
                k = k + 1;
            }
        } else {
            let fix_exchange = if str_eq(exchange, "ISLAND") { "NASDAQ" } else { exchange };
            proof {
                reveal_strlit("NASDAQ");
            }
            let req_id_str = u64_text(req_id as u64);
            let m = build_depth_request(req_id_str.as_str(), con_id_str.as_str(), fix_exchange, sec);
            msgs.push(m);
            assert(messages_view(msgs@) =~= seq![depth_request_fields(nat_text(req_id as nat), nat_text((con_id as u32) as nat),
                fix_depth_exchange(exchange@), fix_sec_type(sec_type@))]);
            assert(depth_subs_view(self.depth_subs@) =~= subs1 + Seq::<(u32, (FarmSlot, bool))>::empty());
            assert(self.depth_fanout_map@ =~= fan0 + Seq::<(u32, u32)>::empty());
        }
        msgs
    }

    /// Cancels a depth subscription: removes its first entry and every server
    /// tag mapped to `req_id`, and returns its farm (the cancel request is
    /// `build_cancel_request(req_id)`); `None`, with nothing changed, if there
    /// is no such subscription.
    pub fn depth_unsubscribe(&mut self, req_id: u32) -> (r: Option<FarmSlot>)
        ensures
            ({
                let old_v = depth_subs_view(old(self).depth_subs@);
                let i = first_index_of(old_v, req_id);
                &&& (i == -1 ==> r is None && final(self).depth_subs == old(self).depth_subs
                    && final(self).depth_tag_to_req == old(self).depth_tag_to_req)
                &&& (i != -1 ==> r == Some(old_v[i].1.0)
                    && depth_subs_view(final(self).depth_subs@) == old_v.remove(i)
                    && final(self).depth_tag_to_req@ == old(self).depth_tag_to_req@.filter(tag_not_for(req_id)))
            }),
            final(self).next_md_req_id == old(self).next_md_req_id,
            final(self).md_req_to_instrument == old(self).md_req_to_instrument,
            final(self).instrument_md_reqs == old(self).instrument_md_reqs,
            final(self).depth_fanout_map == old(self).depth_fanout_map,
            final(self).disconnected == old(self).disconnected,
    {
        let ghost subs0 = depth_subs_view(self.depth_subs@);
        let idx = match depth_sub_index(&self.depth_subs, req_id) {
            None => {
                return None;
            },
            Some(k) => k,
        };
        proof {
            lemma_first_index_of_bounds(subs0, req_id);
        }
        let (_, farm, _) = self.depth_subs.remove(idx);
        assert(depth_subs_view(self.depth_subs@) =~= subs0.remove(idx as int));
        let ghost tags0 = self.depth_tag_to_req@;
        let mut kept: Vec<DepthTag> = Vec::new();
        let m = self.depth_tag_to_req.len();
        let mut k: usize = 0;
        assert(tags0.take(0).filter(tag_not_for(req_id)) =~= Seq::<DepthTag>::empty()) by {
            reveal(Seq::filter);
        }
        while k < m
            invariant
                m == self.depth_tag_to_req@.len(),
                tags0 == self.depth_tag_to_req@,
                k <= m,
                kept@ == tags0.take(k as int).filter(tag_not_for(req_id)),
            decreases m - k,
        {
            proof {
                lemma_filter_take_step(tags0, tag_not_for(req_id), k as int);
            }
            let t = self.depth_tag_to_req[k];
            if t.req_id != req_id {
                kept.push(t);
            }
            k = k + 1;
        }
        assert(tags0.take(m as int) =~= tags0);
        self.depth_tag_to_req = kept;
        Some(farm)
    }
}

/// Keeps the server tags that are not mapped to `req_id`.
pub open spec fn tag_not_for(req_id: u32) -> spec_fn(DepthTag) -> bool {
    |t: DepthTag| t.req_id != req_id
}


/// Index of the first depth subscription of `req_id`.
fn depth_sub_index(v: &Vec<(u32, FarmSlot, bool)>, req_id: u32) -> (r: Option<usize>)
    ensures
        match r {
            Some(i) => first_index_of(depth_subs_view(v@), req_id) == i as int && i < v@.len(),
            None => first_index_of(depth_subs_view(v@), req_id) == -1,
        },
{
    let ghost subs0 = depth_subs_view(v@);
    let n = v.len();
    let mut i: usize = 0;
    while i < n
        invariant
            n == v@.len(),
            i <= n,
            subs0 == depth_subs_view(v@),
            forall|j: int| 0 <= j < i ==> #[trigger] subs0[j].0 != req_id,
        decreases n - i,
    {
        if v[i].0 == req_id {
            proof {
                lemma_first_index_of_is(subs0, req_id, i as int);
            }
            return Some(i);
        }
        i = i + 1;
    }
    proof {
        lemma_first_index_of_absent(subs0, req_id);
    }
    None
}

/// Index of the first pair of `v` whose first component is `k`.
fn pair_index(v: &Vec<(u32, u32)>, k: u32) -> (r: Option<usize>)
    ensures
        match r {
            Some(i) => first_index_of(v@, k) == i as int && i < v@.len(),
            None => first_index_of(v@, k) == -1,
        },
{
    let n = v.len();
    let mut i: usize = 0;
    while i < n
        invariant
            n == v@.len(),
            i <= n,
            forall|j: int| 0 <= j < i ==> #[trigger] v@[j].0 != k,
        decreases n - i,
    {
        if v[i].0 == k {
            proof {
                lemma_first_index_of_is(v@, k, i as int);
            }
            return Some(i);
        }
        i = i + 1;
    }
    proof {
        lemma_first_index_of_absent(v@, k);
    }
    None
}

/// What a market-data acknowledgement was for.
#[derive(Clone, Copy, Debug, PartialEq, Eq, Structural)]
pub enum AckOutcome {
    /// A depth subscription: the user's request id it answers, and whether it is SmartDepth.
    Depth { user_req: u32, is_smart: bool },
    /// A pending market-data request of this instrument.
    MarketData { instrument: InstrumentId },
    /// No pending request has that id.
    Unmatched,
}

/// The user's request id behind a (possibly fanned-out) depth request id.
pub open spec fn depth_user_req(fanout: Seq<(u32, u32)>, req_id: u32) -> u32 {
    match lookup(fanout, req_id) {
        Some(user) => user,
        None => req_id,
    }
}

impl FarmState {
    /// Applies a market-data acknowledgement `(server_tag, req_id)` whose
    /// minimum tick is `min_tick_bits` (the bit pattern of the 64-bit float)
    /// and `min_tick_scaled` (that tick times `PRICE_SCALE`, rounded).
    ///
    /// A depth request id maps the server tag to the user's request id (the
    /// one it was fanned out from, for SmartDepth). Otherwise a pending
    /// market-data request is settled: it leaves the pending list, and the
    /// server tag and minimum tick are recorded for its instrument. An
    /// unknown id changes nothing.
    pub fn apply_subscription_ack(
        &mut self,
        server_tag: u32,
        req_id: u32,
        min_tick_bits: u64,
        min_tick_scaled: i64,
        market: &mut MarketState,
    ) -> (r: AckOutcome)
        requires
            old(market).wf(),
            lookup(depth_subs_view(old(self).depth_subs@), req_id) is None ==> (lookup(old(self).md_req_to_instrument@, req_id) matches Some(
                instr,
            ) ==> instr < MAX_INSTRUMENTS),
        ensures
            final(market).wf(),
            final(self).next_md_req_id == old(self).next_md_req_id,
            final(self).instrument_md_reqs == old(self).instrument_md_reqs,
            final(self).depth_subs == old(self).depth_subs,
            final(self).depth_fanout_map == old(self).depth_fanout_map,
            final(self).disconnected == old(self).disconnected,
            final(market).con_ids() == old(market).con_ids(),
            final(market).symbols() == old(market).symbols(),
            final(market).quotes() == old(market).quotes(),
            match lookup(depth_subs_view(old(self).depth_subs@), req_id) {
                Some(sub) => {
                    let user = depth_user_req(old(self).depth_fanout_map@, req_id);
                    &&& r == AckOutcome::Depth { user_req: user, is_smart: sub.1 }
                    &&& final(self).depth_tag_to_req@ == old(self).depth_tag_to_req@.push(
                        DepthTag { server_tag, req_id: user, is_smart: sub.1, min_tick_bits })
                    &&& final(self).md_req_to_instrument == old(self).md_req_to_instrument
                    &&& final(market).server_tags() == old(market).server_tags()
                    &&& final(market).min_ticks_scaled() == old(market).min_ticks_scaled()
                },
                None => {
                    &&& final(self).depth_tag_to_req == old(self).depth_tag_to_req
                    &&& match lookup(old(self).md_req_to_instrument@, req_id) {
                        Some(instr) => {
                            &&& r == AckOutcome::MarketData { instrument: instr }
                            &&& final(self).md_req_to_instrument@ == old(self).md_req_to_instrument@.remove(
                                first_index_of(old(self).md_req_to_instrument@, req_id))
                            &&& final(market).server_tags() == add_server_tag(old(market).server_tags(), server_tag, instr)
                            &&& final(market).min_ticks_scaled() == old(market).min_ticks_scaled().update(instr as int, min_tick_scaled)
                        },
                        None => {
                            &&& r == AckOutcome::Unmatched
                            &&& final(self).md_req_to_instrument == old(self).md_req_to_instrument
                            &&& final(market).server_tags() == old(market).server_tags()
                            &&& final(market).min_ticks_scaled() == old(market).min_ticks_scaled()
                        },
                    }
                },
            },
    {
        proof {
            lemma_first_index_of_bounds(depth_subs_view(self.depth_subs@), req_id);
            lemma_first_index_of_bounds(self.depth_fanout_map@, req_id);
            lemma_first_index_of_bounds(self.md_req_to_instrument@, req_id);
        }
        if let Some(i) = depth_sub_index(&self.depth_subs, req_id) {
            let is_smart = self.depth_subs[i].2;
            let user_req = match pair_index(&self.depth_fanout_map, req_id) {
                Some(j) => self.depth_fanout_map[j].1,
                None => req_id,
            };
            self.depth_tag_to_req.push(DepthTag { server_tag, req_id: user_req, is_smart, min_tick_bits });
            return AckOutcome::Depth { user_req, is_smart };
        }
        match pair_index(&self.md_req_to_instrument, req_id) {
            Some(j) => {
                let (_, instrument) = self.md_req_to_instrument.remove(j);
                market.register_server_tag(server_tag, instrument);
                market.set_min_tick_scaled(instrument, min_tick_scaled);
                AckOutcome::MarketData { instrument }
            },
            None => AckOutcome::Unmatched,
        }
    }
}

/// Applies a ticker setup `(con_id, server_tag)` with its minimum tick
/// (`min_tick_scaled`, the tick times `PRICE_SCALE`): a registered contract
/// gets the server tag and the tick, and its instrument is returned; an
/// unknown contract changes nothing.
pub fn apply_ticker_setup(market: &mut MarketState, con_id: i64, server_tag: u32, min_tick_scaled: i64) -> (r: Option<InstrumentId>)
    requires
        old(market).wf(),
    ensures
        final(market).wf(),
        r == instrument_of(old(market).con_ids(), con_id),
        final(market).con_ids() == old(market).con_ids(),
        final(market).symbols() == old(market).symbols(),
        final(market).quotes() == old(market).quotes(),
        match r {
            Some(instr) => {
                &&& final(market).server_tags() == add_server_tag(old(market).server_tags(), server_tag, instr)
                &&& final(market).min_ticks_scaled() == old(market).min_ticks_scaled().update(instr as int, min_tick_scaled)
            },
            None => {
                &&& final(market).server_tags() == old(market).server_tags()
                &&& final(market).min_ticks_scaled() == old(market).min_ticks_scaled()
            },
        },
{
    proof {
        market.lemma_con_ids_distinct();
    }
    match market.instrument_by_con_id(con_id) {
        Some(instrument) => {
            proof {
                let k = market.con_ids().index_of(con_id);
                assert(0 <= k < market.con_ids().len());
            }
            market.register_server_tag(server_tag, instrument);
            market.set_min_tick_scaled(instrument, min_tick_scaled);
            Some(instrument)
        },
        None => None,
    }
}

/// The instruments to subscribe again after a reconnect, in table order:
/// `(instrument, farm, con_id)` for each entry whose instrument is registered.
pub open spec fn active_subscriptions(reqs: Seq<(InstrumentId, (FarmSlot, Seq<u32>))>, con_ids: Seq<i64>) -> Seq<(InstrumentId, FarmSlot, i64)>
    decreases reqs.len(),
{
    if reqs.len() == 0 {
        Seq::empty()
    } else {
        let e = reqs.last();
        let rest = active_subscriptions(reqs.drop_last(), con_ids);
        if e.0 < con_ids.len() {
            rest.push((e.0, e.1.0, con_ids[e.0 as int]))
        } else {
            rest
        }
    }
}

/// The market-data table after subscribing each of `act` in turn, from an
/// empty table, with request ids handed out from `next`.
pub open spec fn resubscribed_table(act: Seq<(InstrumentId, FarmSlot, i64)>, next: int) -> Seq<(InstrumentId, (FarmSlot, Seq<u32>))>
    decreases act.len(),
{
    if act.len() == 0 {
        Seq::empty()
    } else {
        let k = act.len() - 1;
        let e = act.last();
        md_reqs_add(resubscribed_table(act.drop_last(), next), e.0, e.1, (next + 2 * k) as u32, (next + 2 * k + 1) as u32)
    }
}

/// The pending requests after subscribing each of `act` in turn: two per
/// instrument, with request ids handed out from `next`.
pub open spec fn resubscribed_pending(act: Seq<(InstrumentId, FarmSlot, i64)>, next: int) -> Seq<(u32, InstrumentId)> {
    Seq::new(2 * act.len(), |j: int| ((next + j) as u32, act[j / 2].0))
}

proof fn lemma_active_len(reqs: Seq<(InstrumentId, (FarmSlot, Seq<u32>))>, con_ids: Seq<i64>)
    ensures
        active_subscriptions(reqs, con_ids).len() <= reqs.len(),
    decreases reqs.len(),
{
    if reqs.len() > 0 {
        lemma_active_len(reqs.drop_last(), con_ids);
    }
}

impl FarmState {
    /// The primary farm is back: mark it up and subscribe again every
    /// instrument that had market data and is registered, on its farm, with
    /// fresh request ids. Returns, in order, the farm and request of each.
    pub fn reconnect(&mut self, market: &MarketState, sending_time: &str) -> (msgs: Vec<(FarmSlot, FixFields)>)
        requires
            market.wf(),
            old(self).next_md_req_id + 2 * active_subscriptions(
                md_reqs_view(old(self).instrument_md_reqs@), market.con_ids()).len() <= u32::MAX,
        ensures
            ({
                let act = active_subscriptions(md_reqs_view(old(self).instrument_md_reqs@), market.con_ids());
                let next = old(self).next_md_req_id as int;
                &&& msgs@.len() == act.len()
                &&& forall|k: int| 0 <= k < act.len() ==> (#[trigger] msgs@[k]).0 == act[k].1
                    && fields_view(msgs@[k].1@) == mktdata_subscribe_fields((next + 2 * k) as u32, (next + 2 * k + 1) as u32, act[k].2, sending_time@)
                &&& final(self).next_md_req_id == next + 2 * act.len()
                &&& final(self).md_req_to_instrument@ == resubscribed_pending(act, next)
                &&& md_reqs_view(final(self).instrument_md_reqs@) == resubscribed_table(act, next)
            }),
            !final(self).disconnected,
            final(self).depth_subs == old(self).depth_subs,
            final(self).depth_tag_to_req == old(self).depth_tag_to_req,
            final(self).depth_fanout_map == old(self).depth_fanout_map,
    {
        self.disconnected = false;
        let mut old_reqs: Vec<(InstrumentId, FarmSlot, Vec<u32>)> = Vec::new();
        std::mem::swap(&mut old_reqs, &mut self.instrument_md_reqs);
        self.md_req_to_instrument.clear();
        let ghost reqs0 = md_reqs_view(old_reqs@);
        let ghost con_ids = market.con_ids();
        let ghost next = self.next_md_req_id as int;
        let ghost total = active_subscriptions(reqs0, con_ids);
        let mut msgs: Vec<(FarmSlot, FixFields)> = Vec::new();
        let n = old_reqs.len();
        let mut i: usize = 0;
        proof {
            assert(reqs0.take(0) =~= Seq::<(InstrumentId, (FarmSlot, Seq<u32>))>::empty());
            assert(self.md_req_to_instrument@ =~= resubscribed_pending(Seq::empty(), next));
            assert(md_reqs_view(self.instrument_md_reqs@) =~= Seq::<(InstrumentId, (FarmSlot, Seq<u32>))>::empty());
        }
        while i < n
            invariant
                n == old_reqs@.len(),
                i <= n,
                reqs0 == md_reqs_view(old_reqs@),
                market.wf(),
                con_ids == market.con_ids(),
                total == active_subscriptions(reqs0, con_ids),
                next + 2 * total.len() <= u32::MAX,
                ({
                    let act = active_subscriptions(reqs0.take(i as int), con_ids);
                    &&& act.len() <= total.len()
                    &&& act == total.take(act.len() as int)
                    &&& msgs@.len() == act.len()
                    &&& forall|k: int| 0 <= k < act.len() ==> (#[trigger] msgs@[k]).0 == act[k].1
                        && fields_view(msgs@[k].1@) == mktdata_subscribe_fields((next + 2 * k) as u32, (next + 2 * k + 1) as u32, act[k].2, sending_time@)
                    &&& self.next_md_req_id == next + 2 * act.len()
                    &&& self.md_req_to_instrument@ == resubscribed_pending(act, next)
                    &&& md_reqs_view(self.instrument_md_reqs@) == resubscribed_table(act, next)
                }),
                self.depth_subs == old(self).depth_subs,
                self.depth_tag_to_req == old(self).depth_tag_to_req,
                self.depth_fanout_map == old(self).depth_fanout_map,
                !self.disconnected,
            decreases n - i,
        {
            let ghost act0 = active_subscriptions(reqs0.take(i as int), con_ids);
            proof {
                assert(reqs0.take(i + 1).drop_last() =~= reqs0.take(i as int));
                assert(reqs0.take(i + 1).last() == reqs0[i as int]);
                lemma_prefix_active(reqs0, con_ids, i as int);
                lemma_prefix_active(reqs0, con_ids, i + 1);
            }
            let instrument = old_reqs[i].0;
            let farm = old_reqs[i].1;
            proof {
                let e = reqs0[i as int];
                assert(e.0 == instrument && e.1.0 == farm);
                assert(active_subscriptions(reqs0.take(i + 1), con_ids) == (if instrument < con_ids.len() {
                    act0.push((instrument, farm, con_ids[instrument as int]))
                } else {
                    act0
                }));
            }
            match market.con_id(instrument) {
                None => {},
                Some(con_id) => {
                    let ghost pend0 = self.md_req_to_instrument@;
                    let (a, b, fields) = self.mktdata_subscribe(con_id, instrument, farm, sending_time);
                    msgs.push((farm, fields));
                    proof {
                        let act1 = act0.push((instrument, farm, con_id));
                        assert(active_subscriptions(reqs0.take(i + 1), con_ids) == act1);
                        assert(act1.drop_last() =~= act0);
                        assert(self.md_req_to_instrument@ =~= resubscribed_pending(act1, next)) by {
                            assert forall|j: int| 0 <= j < 2 * act1.len() implies #[trigger] self.md_req_to_instrument@[j] == ((next + j) as u32, act1[j / 2].0) by {
                                if j < 2 * act0.len() {
                                    assert(pend0[j] == resubscribed_pending(act0, next)[j]);
                                }
                            }
                        }
                        assert forall|k: int| 0 <= k < act1.len() implies (#[trigger] msgs@[k]).0 == act1[k].1
                            && fields_view(msgs@[k].1@) == mktdata_subscribe_fields((next + 2 * k) as u32, (next + 2 * k + 1) as u32, act1[k].2, sending_time@) by {
                            if k < act0.len() {
                                assert(act1[k] == act0[k]);
                            }
                        }
                    }
                },
            }
            i = i + 1;
        }
        proof {
            assert(reqs0.take(n as int) =~= reqs0);
        }
        msgs
    }
}

/// The active subscriptions of a prefix are a prefix of the active
/// subscriptions of the whole table.
proof fn lemma_prefix_active(reqs: Seq<(InstrumentId, (FarmSlot, Seq<u32>))>, con_ids: Seq<i64>, i: int)
    requires
        0 <= i <= reqs.len(),
    ensures
        active_subscriptions(reqs.take(i), con_ids)
            == active_subscriptions(reqs, con_ids).take(active_subscriptions(reqs.take(i), con_ids).len() as int),
        active_subscriptions(reqs.take(i), con_ids).len() <= active_subscriptions(reqs, con_ids).len(),
    decreases reqs.len() - i,
{
    if i < reqs.len() {
        lemma_prefix_active(reqs, con_ids, i + 1);
        assert(reqs.take(i + 1).drop_last() =~= reqs.take(i));
    } else {
        assert(reqs.take(i) =~= reqs);
    }
}

/// Law: after a depth unsubscribe no remaining server tag maps to its request.
pub proof fn law_depth_unsubscribe_unmaps(tags: Seq<DepthTag>, req_id: u32)
    ensures
        forall|k: int| 0 <= k < tags.filter(tag_not_for(req_id)).len() ==> #[trigger] tags.filter(tag_not_for(req_id))[k].req_id != req_id,
{
    assert forall|k: int| 0 <= k < tags.filter(tag_not_for(req_id)).len() implies #[trigger] tags.filter(tag_not_for(req_id))[k].req_id != req_id by {
        let t = tags.filter(tag_not_for(req_id))[k];
        assert(tags.filter(tag_not_for(req_id)).contains(t));
        tags.lemma_filter_contains_rev(tag_not_for(req_id), t);
    }
}

/// Law: after a secondary farm drops, no remaining market-data entry is
/// served by it.
pub proof fn law_secondary_disconnect_clears_slot(reqs: Seq<(InstrumentId, (FarmSlot, Seq<u32>))>, slot: FarmSlot)
    ensures
        forall|k: int| 0 <= k < reqs.filter(served_elsewhere(slot)).len() ==> (#[trigger] reqs.filter(served_elsewhere(slot))[k]).1.0 != slot,
{
    assert forall|k: int| 0 <= k < reqs.filter(served_elsewhere(slot)).len() implies (#[trigger] reqs.filter(served_elsewhere(slot))[k]).1.0 != slot by {
        let e = reqs.filter(served_elsewhere(slot))[k];
        assert(reqs.filter(served_elsewhere(slot)).contains(e));
        reqs.lemma_filter_contains_rev(served_elsewhere(slot), e);
    }
}

/// Law: the two fresh request ids of a market-data subscription are pending
/// for its instrument, so their acknowledgement finds it.
pub proof fn law_subscribe_then_ack_finds(pending: Seq<(u32, InstrumentId)>, a: u32, b: u32, instrument: InstrumentId)
    requires
        a != b,
        forall|j: int| 0 <= j < pending.len() ==> #[trigger] pending[j].0 != a && pending[j].0 != b,
    ensures
        lookup(pending.push((a, instrument)).push((b, instrument)), a) == Some(instrument),
        lookup(pending.push((a, instrument)).push((b, instrument)), b) == Some(instrument),
{
    let p2 = pending.push((a, instrument)).push((b, instrument));
    assert forall|j: int| 0 <= j < pending.len() implies #[trigger] p2[j].0 != a by {
        assert(p2[j] == pending[j]);
    }
    lemma_first_index_of_is(p2, a, pending.len() as int);
    assert forall|j: int| 0 <= j < pending.len() + 1 implies #[trigger] p2[j].0 != b by {
        if j < pending.len() {
            assert(p2[j] == pending[j]);
        }
    }
    lemma_first_index_of_is(p2, b, pending.len() as int + 1);
}
} // verus!
