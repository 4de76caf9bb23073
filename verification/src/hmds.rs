//! Historical-data server (HMDS) state: pending queries by query id,
//! tick-by-tick subscriptions and their running prices, and how a rejected
//! query (`<QueryError>`) releases its request.

use std::collections::HashSet;

use vstd::prelude::*;
use vstd::string::StrSliceExecFns;
use vstd::string::StringExecFns;

use crate::fields::{field_value, fix_field};
use crate::market_state::{first_index_of, lemma_first_index_of_absent, lemma_first_index_of_bounds, lemma_first_index_of_is};
use crate::text::{int_text, nat_text, str_eq, u64_text};
use crate::types::{InstrumentId, MAX_INSTRUMENTS};

verus! {

/// Error code reported for a query the HMDS rejected.
pub const HMDS_ERROR_CODE: i32 = 162;

/// Kind of a tick-by-tick subscription.
#[derive(Clone, Copy, Debug, PartialEq, Eq, Structural)]
pub enum TbtType {
    Last,
    BidAsk,
}

/// Pending queries and subscriptions of the HMDS connection.
pub struct HmdsState {
    pub next_tbt_req_id: u32,
    /// `(instrument, ticker id, kind)` per tick-by-tick subscription.
    pub tbt_subscriptions: Vec<(InstrumentId, String, TbtType)>,
    /// Running `(last, bid, ask)` prices in cents per instrument slot.
    pub tbt_price_state: Vec<(i64, i64, i64)>,
    pub next_hmds_query_id: u32,
    pub disconnected: bool,
    /// `(query id, req_id)` of historical-bar queries.
    pub pending_historical: Vec<(String, u32)>,
    pub pending_head_ts: Vec<(String, u32)>,
    pub pending_scanner_params: bool,
    pub pending_scanner: Vec<(String, u32)>,
    pub next_scanner_id: u32,
    pub pending_news: Vec<(String, u32)>,
    pub pending_articles: Vec<(String, u32)>,
    pub pending_fundamental: Vec<(String, u32)>,
    pub pending_histogram: Vec<(String, u32)>,
    pub pending_schedule: Vec<(String, u32)>,
    /// `(query id, req_id, what to show)` of historical-tick queries.
    pub pending_ticks: Vec<(String, u32, String)>,
    /// `(query id, req_id, ticker id once assigned, minimum tick as the bit
    /// pattern of a 64-bit float)` of real-time bar subscriptions.
    pub rtbar_subs: Vec<(String, u32, Option<u32>, u64)>,
    /// Request ids that keep streaming after their first batch.
    pub keep_up_to_date_reqs: HashSet<u32>,
}

/// The view of a pending-query list, keyed by query id.
pub open spec fn qview(v: Seq<(String, u32)>) -> Seq<(Seq<char>, u32)> {
    v.map_values(|p: (String, u32)| (p.0@, p.1))
}

/// The view of the pending historical-tick queries, keyed by query id.
pub open spec fn tview(v: Seq<(String, u32, String)>) -> Seq<(Seq<char>, (u32, Seq<char>))> {
    v.map_values(|p: (String, u32, String)| (p.0@, (p.1, p.2@)))
}

/// The view of the tick-by-tick subscriptions, keyed by instrument.
pub open spec fn sview(v: Seq<(InstrumentId, String, TbtType)>) -> Seq<(InstrumentId, (Seq<char>, TbtType))> {
    v.map_values(|p: (InstrumentId, String, TbtType)| (p.0, (p.1@, p.2)))
}

/// The minimum tick an rtbar subscription starts with (0.01), as the bit
/// pattern of a 64-bit float.
pub const DEFAULT_MIN_TICK_BITS: u64 = 0x3F84_7AE1_47AE_147B;

/// The query id of the `n`-th query with a prefix, such as `hist_1003`.
pub open spec fn query_id_text(prefix: Seq<char>, n: u32) -> Seq<char> {
    prefix + nat_text(n as nat)
}

impl HmdsState {
    /// No pending query; query ids start at 1000, tick-by-tick and scanner
    /// ids at 1, every running price at zero.
    pub fn new() -> (h: Self)
        ensures
            h.next_tbt_req_id == 1,
            h.next_hmds_query_id == 1000,
            h.next_scanner_id == 1,
            !h.disconnected,
            !h.pending_scanner_params,
            h.tbt_subscriptions@.len() == 0,
            h.tbt_price_state@ == Seq::new(MAX_INSTRUMENTS as nat, |i: int| (0i64, 0i64, 0i64)),
            h.pending_historical@.len() == 0,
            h.pending_head_ts@.len() == 0,
            h.pending_scanner@.len() == 0,
            h.pending_news@.len() == 0,
            h.pending_articles@.len() == 0,
            h.pending_fundamental@.len() == 0,
            h.pending_histogram@.len() == 0,
            h.pending_schedule@.len() == 0,
            h.pending_ticks@.len() == 0,
            h.rtbar_subs@.len() == 0,
            h.keep_up_to_date_reqs@ == Set::<u32>::empty(),
    {
        let mut prices: Vec<(i64, i64, i64)> = Vec::new();
        let mut i: usize = 0;
        while i < MAX_INSTRUMENTS
            invariant
                i <= MAX_INSTRUMENTS,
                prices@ == Seq::new(i as nat, |j: int| (0i64, 0i64, 0i64)),
            decreases MAX_INSTRUMENTS - i,
        {
            prices.push((0, 0, 0));
            i = i + 1;
            assert(prices@ =~= Seq::new(i as nat, |j: int| (0i64, 0i64, 0i64)));
        }
        HmdsState {
            next_tbt_req_id: 1,
            tbt_subscriptions: Vec::new(),
            tbt_price_state: prices,
            next_hmds_query_id: 1000,
            disconnected: false,
            pending_historical: Vec::new(),
            pending_head_ts: Vec::new(),
            pending_scanner_params: false,
            pending_scanner: Vec::new(),
            next_scanner_id: 1,
            pending_news: Vec::new(),
            pending_articles: Vec::new(),
            pending_fundamental: Vec::new(),
            pending_histogram: Vec::new(),
            pending_schedule: Vec::new(),
            pending_ticks: Vec::new(),
            rtbar_subs: Vec::new(),
            keep_up_to_date_reqs: HashSet::new(),
        }
    }

    /// Adds a trade's price change (cents) to the instrument's running last
    /// price and returns the new price.
    pub fn update_tbt_price(&mut self, instrument: InstrumentId, delta: i64) -> (p: i64)
        requires
            instrument < old(self).tbt_price_state@.len(),
            i64::MIN <= old(self).tbt_price_state@[instrument as int].0 + delta <= i64::MAX,
        ensures
            p == old(self).tbt_price_state@[instrument as int].0 + delta,
            final(self).tbt_price_state@ == old(self).tbt_price_state@.update(
                instrument as int,
                (p, old(self).tbt_price_state@[instrument as int].1, old(self).tbt_price_state@[instrument as int].2),
            ),
            final(self).tbt_subscriptions == old(self).tbt_subscriptions,
            final(self).next_tbt_req_id == old(self).next_tbt_req_id,
    {
        let (last, bid, ask) = self.tbt_price_state[instrument as usize];
        let p = last + delta;
        self.tbt_price_state.set(instrument as usize, (p, bid, ask));
        p
    }

    /// Adds a quote's bid and ask changes (cents) to the instrument's running
    /// bid and ask and returns them.
    pub fn update_tbt_bid_ask(&mut self, instrument: InstrumentId, bid_delta: i64, ask_delta: i64) -> (r: (i64, i64))
        requires
            instrument < old(self).tbt_price_state@.len(),
            i64::MIN <= old(self).tbt_price_state@[instrument as int].1 + bid_delta <= i64::MAX,
            i64::MIN <= old(self).tbt_price_state@[instrument as int].2 + ask_delta <= i64::MAX,
        ensures
            r.0 == old(self).tbt_price_state@[instrument as int].1 + bid_delta,
            r.1 == old(self).tbt_price_state@[instrument as int].2 + ask_delta,
            final(self).tbt_price_state@ == old(self).tbt_price_state@.update(
                instrument as int,
                (old(self).tbt_price_state@[instrument as int].0, r.0, r.1),
            ),
            final(self).tbt_subscriptions == old(self).tbt_subscriptions,
            final(self).next_tbt_req_id == old(self).next_tbt_req_id,
    {
        let (last, bid, ask) = self.tbt_price_state[instrument as usize];
        let b = bid + bid_delta;
        let a = ask + ask_delta;
        self.tbt_price_state.set(instrument as usize, (last, b, a));
        (b, a)
    }
}


/// Whether `p` occurs in `s` at index `k`.
pub open spec fn text_at(s: Seq<char>, p: Seq<char>, k: int) -> bool {
    0 <= k && k + p.len() <= s.len() && s.subrange(k, k + p.len()) == p
}

/// The first index at or after `k` where `p` occurs in `s`.
pub open spec fn text_find(s: Seq<char>, p: Seq<char>, k: int) -> Option<int>
    decreases s.len() + 1 - k,
    when 0 <= k <= s.len() + 1
{
    if k + p.len() > s.len() {
        None
    } else if text_at(s, p, k) {
        Some(k)
    } else {
        text_find(s, p, k + 1)
    }
}

proof fn lemma_text_find_bounds(s: Seq<char>, p: Seq<char>, k: int)
    requires
        0 <= k <= s.len() + 1,
    ensures
        text_find(s, p, k) matches Some(j) ==> k <= j && j + p.len() <= s.len(),
    decreases s.len() + 1 - k,
{
    if k + p.len() <= s.len() && !text_at(s, p, k) {
        lemma_text_find_bounds(s, p, k + 1);
    }
}

/// The text of the first `<name>...</name>` element of `xml`: from the first
/// opening tag to the first closing tag after it.
pub open spec fn xml_tag_text(xml: Seq<char>, name: Seq<char>) -> Option<Seq<char>> {
    let open = seq!['<'] + name + seq!['>'];
    let close = seq!['<', '/'] + name + seq!['>'];
    match text_find(xml, open, 0) {
        Some(i) => match text_find(xml, close, i + open.len()) {
            Some(j) => Some(xml.subrange(i + open.len(), j)),
            None => None,
        },
        None => None,
    }
}

fn text_here(s: &str, p: &str, k: usize) -> (r: bool)
    requires
        k + p@.len() <= s@.len(),
        s@.len() <= usize::MAX,
    ensures
        r == text_at(s@, p@, k as int),
{
    let m = p.unicode_len();
    let mut i: usize = 0;
    while i < m
        invariant
            m == p@.len(),
            k + m <= s@.len(),
            s@.len() <= usize::MAX,
            i <= m,
            forall|j: int| 0 <= j < i ==> s@[k + j] == p@[j],
        decreases m - i,
    {
        if s.get_char(k + i) != p.get_char(i) {
            assert(s@.subrange(k as int, k + m)[i as int] != p@[i as int]);
            return false;
        }
        i = i + 1;
    }
    assert(s@.subrange(k as int, k + m) =~= p@);
    true
}

/// The first index at or after `from` where `p` occurs in `s` (see `text_find`).
pub fn find_text(s: &str, p: &str, from: usize) -> (r: Option<usize>)
    requires
        from <= s@.len() + 1,
    ensures
        match r {
            Some(k) => text_find(s@, p@, from as int) == Some(k as int),
            None => text_find(s@, p@, from as int) is None,
        },
{
    let n = s.unicode_len();
    let m = p.unicode_len();
    if m > n {
        return None;
    }
    if m == 0 {
        if from <= n {
            assert(s@.subrange(from as int, from as int) =~= p@);
            return Some(from);
        }
        return None;
    }
    let mut k: usize = from;
    while k <= n - m
        invariant
            n == s@.len(),
            m == p@.len(),
            1 <= m <= n,
            from <= k,
            k <= n + 1,
            text_find(s@, p@, from as int) == text_find(s@, p@, k as int),
        decreases n + 1 - k,
    {
        if text_here(s, p, k) {
            return Some(k);
        }
        k = k + 1;
    }
    None
}

/// The text of the first `<name>` element of `xml` (see `xml_tag_text`).
pub fn xml_tag(xml: &str, name: &str) -> (r: Option<String>)
    ensures
        match r {
            Some(t) => xml_tag_text(xml@, name@) == Some(t@),
            None => xml_tag_text(xml@, name@) is None,
        },
{
    let mut open = "<".to_string();
    open.append(name);
    open.append(">");
    let mut close = "</".to_string();
    close.append(name);
    close.append(">");
    proof {
        reveal_strlit("<");
        reveal_strlit(">");
        reveal_strlit("</");
        assert(open@ =~= seq!['<'] + name@ + seq!['>']);
        assert(close@ =~= seq!['<', '/'] + name@ + seq!['>']);
    }
    let _n = xml.unicode_len();
    match find_text(xml, open.as_str(), 0) {
        Some(i) => {
            proof {
                lemma_text_find_bounds(xml@, open@, 0);
            }
            let start = i + open.unicode_len();
            match find_text(xml, close.as_str(), start) {
                Some(j) => {
                    proof {
                        lemma_text_find_bounds(xml@, close@, start as int);
                    }
                    Some(xml.substring_char(start, j).to_string())
                },
                None => None,
            }
        },
        None => None,
    }
}

/// Index of the first pending query with id `q`.
fn query_index(v: &Vec<(String, u32)>, q: &str) -> (r: Option<usize>)
    ensures
        match r {
            Some(i) => first_index_of(qview(v@), q@) == i as int && i < v@.len(),
            None => first_index_of(qview(v@), q@) == -1,
        },
{
    let ghost k = qview(v@);
    let n = v.len();
    let mut i: usize = 0;
    while i < n
        invariant
            n == v@.len(),
            k == qview(v@),
            i <= n,
            forall|j: int| 0 <= j < i ==> #[trigger] k[j].0 != q@,
        decreases n - i,
    {
        if str_eq(v[i].0.as_str(), q) {
            proof {
                lemma_first_index_of_is(k, q@, i as int);
            }
            return Some(i);
        }
        i = i + 1;
    }
    proof {
        lemma_first_index_of_absent(k, q@);
    }
    None
}

/// Index of the first pending tick query with id `q`.
fn tick_query_index(v: &Vec<(String, u32, String)>, q: &str) -> (r: Option<usize>)
    ensures
        match r {
            Some(i) => first_index_of(tview(v@), q@) == i as int && i < v@.len(),
            None => first_index_of(tview(v@), q@) == -1,
        },
{
    let ghost k = tview(v@);
    let n = v.len();
    let mut i: usize = 0;
    while i < n
        invariant
            n == v@.len(),
            k == tview(v@),
            i <= n,
            forall|j: int| 0 <= j < i ==> #[trigger] k[j].0 != q@,
        decreases n - i,
    {
        if str_eq(v[i].0.as_str(), q) {
            proof {
                lemma_first_index_of_is(k, q@, i as int);
            }
            return Some(i);
        }
        i = i + 1;
    }
    proof {
        lemma_first_index_of_absent(k, q@);
    }
    None
}

/// Removes query `i` of a pending list and returns its request id.
fn take_query(v: &mut Vec<(String, u32)>, i: usize) -> (req: u32)
    requires
        i < old(v)@.len(),
    ensures
        req == old(v)@[i as int].1,
        qview(final(v)@) == qview(old(v)@).remove(i as int),
{
    let (_, req) = v.remove(i);
    assert(qview(v@) =~= qview(old(v)@).remove(i as int));
    req
}

/// What a rejected query released: the query id and error text of the
/// `<QueryError>` ("unknown" without an `<error>`), the request it
/// released, if any, and whether an empty, complete bar response must
/// follow the error (for historical-bar requests only). The error is
/// reported with `HMDS_ERROR_CODE`.
pub struct QueryErrorReport {
    pub query_id: Option<String>,
    pub error: String,
    pub released: Option<u32>,
    pub end_sentinel: bool,
}

/// Which pending list holds a query id, searched in order: historical bars,
/// head timestamps, histograms, ticks, schedules, scanners (1 to 6), or 0.
pub open spec fn query_owner(h: HmdsState, q: Seq<char>) -> int {
    if first_index_of(qview(h.pending_historical@), q) != -1 {
        1
    } else if first_index_of(qview(h.pending_head_ts@), q) != -1 {
        2
    } else if first_index_of(qview(h.pending_histogram@), q) != -1 {
        3
    } else if first_index_of(tview(h.pending_ticks@), q) != -1 {
        4
    } else if first_index_of(qview(h.pending_schedule@), q) != -1 {
        5
    } else if first_index_of(qview(h.pending_scanner@), q) != -1 {
        6
    } else {
        0
    }
}

/// The request id held for `q` by its owning list.
pub open spec fn query_request(h: HmdsState, q: Seq<char>) -> u32 {
    let o = query_owner(h, q);
    if o == 1 {
        qview(h.pending_historical@)[first_index_of(qview(h.pending_historical@), q)].1
    } else if o == 2 {
        qview(h.pending_head_ts@)[first_index_of(qview(h.pending_head_ts@), q)].1
    } else if o == 3 {
        qview(h.pending_histogram@)[first_index_of(qview(h.pending_histogram@), q)].1
    } else if o == 4 {
        tview(h.pending_ticks@)[first_index_of(tview(h.pending_ticks@), q)].1.0
    } else if o == 5 {
        qview(h.pending_schedule@)[first_index_of(qview(h.pending_schedule@), q)].1
    } else {
        qview(h.pending_scanner@)[first_index_of(qview(h.pending_scanner@), q)].1
    }
}

/// A list after removing the entry of `q`, when `owns`.
pub open spec fn drop_query(v: Seq<(Seq<char>, u32)>, q: Seq<char>, owns: bool) -> Seq<(Seq<char>, u32)> {
    if owns {
        v.remove(first_index_of(v, q))
    } else {
        v
    }
}

/// What handling a `<QueryError>` payload `xml` does (see `handle_query_error`).
pub open spec fn query_error_effect(old: HmdsState, new: HmdsState, xml: Seq<char>, r: QueryErrorReport) -> bool {
    &&& ({
        let qid = xml_tag_text(xml, "id"@);
        let owner = match qid { Some(q) => query_owner(old, q), None => 0 };
        let q = match qid { Some(q) => q, None => Seq::empty() };
        &&& (match r.query_id { Some(t) => qid == Some(t@), None => qid is None })
        &&& r.error@ == (match xml_tag_text(xml, "error"@) { Some(e) => e, None => "unknown"@ })
        &&& r.released == (if owner == 0 { None } else { Some(query_request(old, q)) })
        &&& r.end_sentinel == (owner == 1)
        &&& qview(new.pending_historical@) == drop_query(qview(old.pending_historical@), q, owner == 1)
        &&& qview(new.pending_head_ts@) == drop_query(qview(old.pending_head_ts@), q, owner == 2)
        &&& qview(new.pending_histogram@) == drop_query(qview(old.pending_histogram@), q, owner == 3)
        &&& tview(new.pending_ticks@) == (if owner == 4 {
            tview(old.pending_ticks@).remove(first_index_of(tview(old.pending_ticks@), q))
        } else {
            tview(old.pending_ticks@)
        })
        &&& qview(new.pending_schedule@) == drop_query(qview(old.pending_schedule@), q, owner == 5)
        &&& qview(new.pending_scanner@) == drop_query(qview(old.pending_scanner@), q, owner == 6)
        &&& new.keep_up_to_date_reqs@ == (if owner == 1 {
            old.keep_up_to_date_reqs@.remove(query_request(old, q))
        } else {
            old.keep_up_to_date_reqs@
        })
    })
    &&& new.pending_news == old.pending_news
    &&& new.pending_articles == old.pending_articles
    &&& new.pending_fundamental == old.pending_fundamental
    &&& new.rtbar_subs == old.rtbar_subs
    &&& new.tbt_subscriptions == old.tbt_subscriptions
    &&& new.tbt_price_state == old.tbt_price_state
    &&& new.next_hmds_query_id == old.next_hmds_query_id
    &&& new.next_tbt_req_id == old.next_tbt_req_id
    &&& new.next_scanner_id == old.next_scanner_id
    &&& new.pending_scanner_params == old.pending_scanner_params
    &&& new.disconnected == old.disconnected
}

impl HmdsState {
    /// Handles a `<QueryError>` payload: the pending query named by its
    /// `<id>` leaves the first list that holds it (see `query_owner`); a
    /// historical-bar request also stops streaming. Nothing changes when the
    /// id is missing or unknown.
    pub fn handle_query_error(&mut self, xml: &str) -> (r: QueryErrorReport)
        ensures
            query_error_effect(*old(self), *final(self), xml@, r),
    {
        let query_id = xml_tag(xml, "id");
        proof {
            reveal_strlit("unknown");
        }
        let error = match xml_tag(xml, "error") {
            Some(e) => e,
            None => "unknown".to_string(),
        };
        let ghost h0 = *self;
        let qid: &str = match &query_id {
            Some(q) => q.as_str(),
            None => {
                return QueryErrorReport { query_id, error, released: None, end_sentinel: false };
            },
        };
        proof {
            lemma_first_index_of_bounds(qview(self.pending_historical@), qid@);
            lemma_first_index_of_bounds(qview(self.pending_head_ts@), qid@);
            lemma_first_index_of_bounds(qview(self.pending_histogram@), qid@);
            lemma_first_index_of_bounds(tview(self.pending_ticks@), qid@);
            lemma_first_index_of_bounds(qview(self.pending_schedule@), qid@);
            lemma_first_index_of_bounds(qview(self.pending_scanner@), qid@);
        }
        let mut released: Option<u32> = None;
        let mut end_sentinel = false;
        if let Some(i) = query_index(&self.pending_historical, qid) {
            let req = take_query(&mut self.pending_historical, i);
            self.remove_keep_up_to_date(req);
            released = Some(req);
            end_sentinel = true;
        } else if let Some(i) = query_index(&self.pending_head_ts, qid) {
            released = Some(take_query(&mut self.pending_head_ts, i));
        } else if let Some(i) = query_index(&self.pending_histogram, qid) {
            released = Some(take_query(&mut self.pending_histogram, i));
        } else if let Some(i) = tick_query_index(&self.pending_ticks, qid) {
            let (_, req, _) = self.pending_ticks.remove(i);
            assert(tview(self.pending_ticks@) =~= tview(h0.pending_ticks@).remove(i as int));
            released = Some(req);
        } else if let Some(i) = query_index(&self.pending_schedule, qid) {
            released = Some(take_query(&mut self.pending_schedule, i));
        } else if let Some(i) = query_index(&self.pending_scanner, qid) {
            released = Some(take_query(&mut self.pending_scanner, i));
        }
        QueryErrorReport { query_id, error, released, end_sentinel }
    }

    /// Stops `req` from streaming.
    pub fn remove_keep_up_to_date(&mut self, req: u32)
        ensures
            final(self).keep_up_to_date_reqs@ == old(self).keep_up_to_date_reqs@.remove(req),
            final(self).pending_historical == old(self).pending_historical,
            final(self).pending_head_ts == old(self).pending_head_ts,
            final(self).pending_histogram == old(self).pending_histogram,
            final(self).pending_ticks == old(self).pending_ticks,
            final(self).pending_schedule == old(self).pending_schedule,
            final(self).pending_scanner == old(self).pending_scanner,
            final(self).pending_news == old(self).pending_news,
            final(self).pending_articles == old(self).pending_articles,
            final(self).pending_fundamental == old(self).pending_fundamental,
            final(self).rtbar_subs == old(self).rtbar_subs,
            final(self).tbt_subscriptions == old(self).tbt_subscriptions,
            final(self).tbt_price_state == old(self).tbt_price_state,
            final(self).next_hmds_query_id == old(self).next_hmds_query_id,
            final(self).next_tbt_req_id == old(self).next_tbt_req_id,
            final(self).next_scanner_id == old(self).next_scanner_id,
            final(self).pending_scanner_params == old(self).pending_scanner_params,
            final(self).disconnected == old(self).disconnected,
    {
        broadcast use vstd::std_specs::hash::group_hash_axioms;
        self.keep_up_to_date_reqs.remove(&req);
    }
}

/// The text of a byte string, invalid UTF-8 sequences replaced by U+FFFD.
pub uninterp spec fn utf8_lossy_text(bytes: Seq<u8>) -> Seq<char>;

/// `String::from_utf8_lossy`: the text of a byte string, each invalid UTF-8
/// sequence replaced by U+FFFD. The text is named, not stated.
#[verifier::external_body]
pub(crate) fn lossy_text(bytes: &[u8]) -> (s: String)
    ensures
        s@ == utf8_lossy_text(bytes@),
{
    String::from_utf8_lossy(bytes).into_owned()
}

/// The `<QueryError>` payload of an HMDS message: a 35=W message whose
/// 6118 field, read as text, contains `<QueryError>`.
pub open spec fn query_error_payload(msg: Seq<u8>) -> Option<Seq<char>> {
    match (field_value(msg, seq![0x33u8, 0x35u8]), field_value(msg, seq![0x36u8, 0x31u8, 0x31u8, 0x38u8])) {
        (Some(t), Some(x)) => {
            let xml = utf8_lossy_text(x);
            if t == seq![0x57u8] && text_find(xml, "<QueryError>"@, 0) is Some {
                Some(xml)
            } else {
                None
            }
        },
        _ => None,
    }
}

impl HmdsState {
    /// Handles an HMDS message that carries a `<QueryError>` (see
    /// `query_error_payload` and `handle_query_error`); any other message
    /// changes nothing and gives `None`. Other 35=W payloads (bars, head
    /// timestamps, histograms, ticks, schedules, ticker ids) are read by
    /// their own response parsers before this one.
    pub fn handle_query_error_message(&mut self, msg: &[u8]) -> (r: Option<QueryErrorReport>)
        ensures
            match query_error_payload(msg@) {
                Some(xml) => r matches Some(rep) && query_error_effect(*old(self), *final(self), xml, rep),
                None => r is None && *final(self) == *old(self),
            },
    {
        let tag_type: [u8; 2] = [0x33, 0x35];
        let tag_xml: [u8; 4] = [0x36, 0x31, 0x31, 0x38];
        assert(tag_type@ == seq![0x33u8, 0x35u8]);
        assert(tag_xml@ == seq![0x36u8, 0x31u8, 0x31u8, 0x38u8]);
        let t = match fix_field(msg, &tag_type) {
            Some(t) => t,
            None => return None,
        };
        let x = match fix_field(msg, &tag_xml) {
            Some(x) => x,
            None => return None,
        };
        proof {
            reveal_strlit("<QueryError>");
        }
        if t.len() != 1 || t[0] != 0x57 {
            assert(t@ != seq![0x57u8]);
            return None;
        }
        assert(t@ =~= seq![0x57u8]);
        let xml = lossy_text(x);
        let _n = xml.as_str().unicode_len();
        if find_text(xml.as_str(), "<QueryError>", 0).is_none() {
            return None;
        }
        Some(self.handle_query_error(xml.as_str()))
    }
}

/// Upper-case text (`str::to_uppercase`).
pub uninterp spec fn upper_text(s: Seq<char>) -> Seq<char>;

/// Lower-case text (`str::to_lowercase`).
pub uninterp spec fn lower_text(s: Seq<char>) -> Seq<char>;

/// `str::to_uppercase`: the Unicode upper case of a text, named, not stated.
#[verifier::external_body]
fn to_upper(s: &str) -> (r: String)
    ensures
        r@ == upper_text(s@),
{
    s.to_uppercase()
}

/// `str::to_lowercase`: the Unicode lower case of a text, named, not stated.
#[verifier::external_body]
fn to_lower(s: &str) -> (r: String)
    ensures
        r@ == lower_text(s@),
{
    s.to_lowercase()
}

/// What a historical-bar query asks for.
#[derive(Clone, Copy, Debug, PartialEq, Eq, Structural)]
pub enum BarDataType {
    Trades,
    Midpoint,
    Bid,
    Ask,
    BidAsk,
    AdjustedLast,
    HistoricalVolatility,
    ImpliedVolatility,
}

/// Bar size of a historical-bar query.
#[derive(Clone, Copy, Debug, PartialEq, Eq, Structural)]
pub enum BarSize {
    Sec1,
    Sec5,
    Sec10,
    Sec15,
    Sec30,
    Min1,
    Min2,
    Min3,
    Min5,
    Min10,
    Min15,
    Min20,
    Min30,
    Hour1,
    Hour2,
    Hour3,
    Hour4,
    Hour8,
    Day1,
    Week1,
    Month1,
}

/// The data type of a `whatToShow` text, read in upper case; TRADES by default.
pub open spec fn bar_data_type_of(what: Seq<char>) -> BarDataType {
    let u = upper_text(what);
    if u == "MIDPOINT"@ {
        BarDataType::Midpoint
    } else if u == "BID"@ {
        BarDataType::Bid
    } else if u == "ASK"@ {
        BarDataType::Ask
    } else if u == "BID_ASK"@ {
        BarDataType::BidAsk
    } else if u == "ADJUSTED_LAST"@ {
        BarDataType::AdjustedLast
    } else if u == "HISTORICAL_VOLATILITY"@ {
        BarDataType::HistoricalVolatility
    } else if u == "OPTION_IMPLIED_VOLATILITY"@ {
        BarDataType::ImpliedVolatility
    } else {
        BarDataType::Trades
    }
}

/// The data type of a head-timestamp query: MIDPOINT, BID, ASK, else TRADES.
pub open spec fn head_data_type_of(what: Seq<char>) -> BarDataType {
    let u = upper_text(what);
    if u == "MIDPOINT"@ {
        BarDataType::Midpoint
    } else if u == "BID"@ {
        BarDataType::Bid
    } else if u == "ASK"@ {
        BarDataType::Ask
    } else {
        BarDataType::Trades
    }
}

/// The bar size of a bar-size text; 5 minutes by default.
pub open spec fn bar_size_of(b: Seq<char>) -> BarSize {
    if b == "1 secs"@ || b == "1 sec"@ {
        BarSize::Sec1
    } else if b == "5 secs"@ {
        BarSize::Sec5
    } else if b == "10 secs"@ {
        BarSize::Sec10
    } else if b == "15 secs"@ {
        BarSize::Sec15
    } else if b == "30 secs"@ {
        BarSize::Sec30
    } else if b == "1 min"@ {
        BarSize::Min1
    } else if b == "2 mins"@ {
        BarSize::Min2
    } else if b == "3 mins"@ {
        BarSize::Min3
    } else if b == "5 mins"@ {
        BarSize::Min5
    } else if b == "10 mins"@ {
        BarSize::Min10
    } else if b == "15 mins"@ {
        BarSize::Min15
    } else if b == "20 mins"@ {
        BarSize::Min20
    } else if b == "30 mins"@ {
        BarSize::Min30
    } else if b == "1 hour"@ {
        BarSize::Hour1
    } else if b == "2 hours"@ {
        BarSize::Hour2
    } else if b == "3 hours"@ {
        BarSize::Hour3
    } else if b == "4 hours"@ {
        BarSize::Hour4
    } else if b == "8 hours"@ {
        BarSize::Hour8
    } else if b == "1 day"@ {
        BarSize::Day1
    } else if b == "1 week"@ || b == "1W"@ {
        BarSize::Week1
    } else if b == "1 month"@ || b == "1M"@ {
        BarSize::Month1
    } else {
        BarSize::Min5
    }
}

/// The bar size of a keep-up-to-date query sent on the order connection,
/// which knows fewer sizes; 5 minutes by default.
pub open spec fn ccp_bar_size_of(b: Seq<char>) -> BarSize {
    if b == "1 secs"@ || b == "1 sec"@ {
        BarSize::Sec1
    } else if b == "5 secs"@ {
        BarSize::Sec5
    } else if b == "5 mins"@ {
        BarSize::Min5
    } else if b == "1 hour"@ {
        BarSize::Hour1
    } else if b == "1 day"@ {
        BarSize::Day1
    } else {
        BarSize::Min5
    }
}

/// How long a bar of each size is, in seconds (a month counted as 30 days).
pub open spec fn bar_seconds(b: BarSize) -> int {
    match b {
        BarSize::Sec1 => 1,
        BarSize::Sec5 => 5,
        BarSize::Sec10 => 10,
        BarSize::Sec15 => 15,
        BarSize::Sec30 => 30,
        BarSize::Min1 => 60,
        BarSize::Min2 => 120,
        BarSize::Min3 => 180,
        BarSize::Min5 => 300,
        BarSize::Min10 => 600,
        BarSize::Min15 => 900,
        BarSize::Min20 => 1200,
        BarSize::Min30 => 1800,
        BarSize::Hour1 => 3600,
        BarSize::Hour2 => 7200,
        BarSize::Hour3 => 10800,
        BarSize::Hour4 => 14400,
        BarSize::Hour8 => 28800,
        BarSize::Day1 => 86400,
        BarSize::Week1 => 604800,
        BarSize::Month1 => 2592000,
    }
}

/// The bar length, in seconds, that a documented bar-size text names: its
/// count times its unit ("sec(s)" 1, "min(s)" 60, "hour(s)" 3600, "day"
/// 86400, "week" or "W" 7 days, "month" or "M" 30 days); `None` for any
/// other text.
pub open spec fn documented_bar_seconds(t: Seq<char>) -> Option<int> {
    if t == "1 secs"@ {
        Some(1int)
    } else if t == "1 sec"@ {
        Some(1int)
    } else if t == "5 secs"@ {
        Some(5int)
    } else if t == "10 secs"@ {
        Some(10int)
    } else if t == "15 secs"@ {
        Some(15int)
    } else if t == "30 secs"@ {
        Some(30int)
    } else if t == "1 min"@ {
        Some(60int)
    } else if t == "2 mins"@ {
        Some(120int)
    } else if t == "3 mins"@ {
        Some(180int)
    } else if t == "5 mins"@ {
        Some(300int)
    } else if t == "10 mins"@ {
        Some(600int)
    } else if t == "15 mins"@ {
        Some(900int)
    } else if t == "20 mins"@ {
        Some(1200int)
    } else if t == "30 mins"@ {
        Some(1800int)
    } else if t == "1 hour"@ {
        Some(3600int)
    } else if t == "2 hours"@ {
        Some(7200int)
    } else if t == "3 hours"@ {
        Some(10800int)
    } else if t == "4 hours"@ {
        Some(14400int)
    } else if t == "8 hours"@ {
        Some(28800int)
    } else if t == "1 day"@ {
        Some(86400int)
    } else if t == "1 week"@ {
        Some(604800int)
    } else if t == "1W"@ {
        Some(604800int)
    } else if t == "1 month"@ {
        Some(2592000int)
    } else if t == "1M"@ {
        Some(2592000int)
    } else {
        None
    }
}

/// Law: a documented bar-size text gives the bar size of the same length.
pub proof fn law_bar_size_has_named_length(t: Seq<char>)
    requires
        documented_bar_seconds(t) is Some,
    ensures
        bar_seconds(bar_size_of(t)) == documented_bar_seconds(t)->0,
{
    reveal_strlit("1 secs");
    reveal_strlit("1 sec");
    reveal_strlit("5 secs");
    reveal_strlit("10 secs");
    reveal_strlit("15 secs");
    reveal_strlit("30 secs");
    reveal_strlit("1 min");
    reveal_strlit("2 mins");
    reveal_strlit("3 mins");
    reveal_strlit("5 mins");
    reveal_strlit("10 mins");
    reveal_strlit("15 mins");
    reveal_strlit("20 mins");
    reveal_strlit("30 mins");
    reveal_strlit("1 hour");
    reveal_strlit("2 hours");
    reveal_strlit("3 hours");
    reveal_strlit("4 hours");
    reveal_strlit("8 hours");
    reveal_strlit("1 day");
    reveal_strlit("1 week");
    reveal_strlit("1W");
    reveal_strlit("1 month");
    reveal_strlit("1M");
}

/// Law: two documented bar-size texts give the same bar size exactly when
/// they name the same length ("1 sec" and "1 secs", "1 week" and "1W",
/// "1 month" and "1M"); no two sizes have the same length.
pub proof fn law_bar_size_distinguishes_lengths(t1: Seq<char>, t2: Seq<char>, a: BarSize, b: BarSize)
    requires
        documented_bar_seconds(t1) is Some,
        documented_bar_seconds(t2) is Some,
    ensures
        (bar_size_of(t1) == bar_size_of(t2)) <==> (documented_bar_seconds(t1) == documented_bar_seconds(t2)),
        a != b ==> bar_seconds(a) != bar_seconds(b),
{
    law_bar_size_has_named_length(t1);
    law_bar_size_has_named_length(t2);
}

fn data_type_of(what: &str) -> (d: BarDataType)
    ensures
        d == bar_data_type_of(what@),
{
    let u = to_upper(what);
    let u = u.as_str();
    if str_eq(u, "MIDPOINT") {
        BarDataType::Midpoint
    } else if str_eq(u, "BID") {
        BarDataType::Bid
    } else if str_eq(u, "ASK") {
        BarDataType::Ask
    } else if str_eq(u, "BID_ASK") {
        BarDataType::BidAsk
    } else if str_eq(u, "ADJUSTED_LAST") {
        BarDataType::AdjustedLast
    } else if str_eq(u, "HISTORICAL_VOLATILITY") {
        BarDataType::HistoricalVolatility
    } else if str_eq(u, "OPTION_IMPLIED_VOLATILITY") {
        BarDataType::ImpliedVolatility
    } else {
        BarDataType::Trades
    }
}

fn head_data_type(what: &str) -> (d: BarDataType)
    ensures
        d == head_data_type_of(what@),
{
    let u = to_upper(what);
    let u = u.as_str();
    if str_eq(u, "MIDPOINT") {
        BarDataType::Midpoint
    } else if str_eq(u, "BID") {
        BarDataType::Bid
    } else if str_eq(u, "ASK") {
        BarDataType::Ask
    } else {
        BarDataType::Trades
    }
}

fn bar_size(b: &str) -> (r: BarSize)
    ensures
        r == bar_size_of(b@),
{
    if str_eq(b, "1 secs") || str_eq(b, "1 sec") {
        BarSize::Sec1
    } else if str_eq(b, "5 secs") {
        BarSize::Sec5
    } else if str_eq(b, "10 secs") {
        BarSize::Sec10
    } else if str_eq(b, "15 secs") {
        BarSize::Sec15
    } else if str_eq(b, "30 secs") {
        BarSize::Sec30
    } else if str_eq(b, "1 min") {
        BarSize::Min1
    } else if str_eq(b, "2 mins") {
        BarSize::Min2
    } else if str_eq(b, "3 mins") {
        BarSize::Min3
    } else if str_eq(b, "5 mins") {
        BarSize::Min5
    } else if str_eq(b, "10 mins") {
        BarSize::Min10
    } else if str_eq(b, "15 mins") {
        BarSize::Min15
    } else if str_eq(b, "20 mins") {
        BarSize::Min20
    } else if str_eq(b, "30 mins") {
        BarSize::Min30
    } else if str_eq(b, "1 hour") {
        BarSize::Hour1
    } else if str_eq(b, "2 hours") {
        BarSize::Hour2
    } else if str_eq(b, "3 hours") {
        BarSize::Hour3
    } else if str_eq(b, "4 hours") {
        BarSize::Hour4
    } else if str_eq(b, "8 hours") {
        BarSize::Hour8
    } else if str_eq(b, "1 day") {
        BarSize::Day1
    } else if str_eq(b, "1 week") || str_eq(b, "1W") {
        BarSize::Week1
    } else if str_eq(b, "1 month") || str_eq(b, "1M") {
        BarSize::Month1
    } else {
        BarSize::Min5
    }
}

fn ccp_bar_size(b: &str) -> (r: BarSize)
    ensures
        r == ccp_bar_size_of(b@),
{
    if str_eq(b, "1 secs") || str_eq(b, "1 sec") {
        BarSize::Sec1
    } else if str_eq(b, "5 secs") {
        BarSize::Sec5
    } else if str_eq(b, "5 mins") {
        BarSize::Min5
    } else if str_eq(b, "1 hour") {
        BarSize::Hour1
    } else if str_eq(b, "1 day") {
        BarSize::Day1
    } else {
        BarSize::Min5
    }
}

/// A historical-bar query, ready for the query XML.
pub struct HistoricalQuery {
    pub query_id: String,
    pub con_id: u32,
    pub symbol: String,
    pub data_type: BarDataType,
    pub end_time: String,
    pub duration: String,
    pub bar_size: BarSize,
    pub use_rth: bool,
    pub keep_up_to_date: bool,
}

/// The end time of a query: `now` when none is given.
pub open spec fn end_time_or(end: Seq<char>, now: Seq<char>) -> Seq<char> {
    if end.len() == 0 {
        now
    } else {
        end
    }
}

/// What a query registration leaves unchanged besides the named lists.
pub open spec fn same_subscriptions(old: HmdsState, new: HmdsState) -> bool {
    &&& new.tbt_subscriptions == old.tbt_subscriptions
    &&& new.tbt_price_state == old.tbt_price_state
    &&& new.next_tbt_req_id == old.next_tbt_req_id
    &&& new.disconnected == old.disconnected
    &&& new.pending_scanner_params == old.pending_scanner_params
    &&& new.keep_up_to_date_reqs == old.keep_up_to_date_reqs
    &&& new.rtbar_subs == old.rtbar_subs
}

/// What a query registration leaves unchanged of the pending lists other
/// than the one it adds to (named by its index as in `query_owner`, with 7
/// news, 8 articles, 9 fundamentals).
pub open spec fn other_lists_same(old: HmdsState, new: HmdsState, list: int) -> bool {
    &&& (list != 1 ==> new.pending_historical == old.pending_historical)
    &&& (list != 2 ==> new.pending_head_ts == old.pending_head_ts)
    &&& (list != 3 ==> new.pending_histogram == old.pending_histogram)
    &&& (list != 4 ==> new.pending_ticks == old.pending_ticks)
    &&& (list != 5 ==> new.pending_schedule == old.pending_schedule)
    &&& (list != 6 ==> new.pending_scanner == old.pending_scanner)
    &&& (list != 7 ==> new.pending_news == old.pending_news)
    &&& (list != 8 ==> new.pending_articles == old.pending_articles)
    &&& (list != 9 ==> new.pending_fundamental == old.pending_fundamental)
}

impl HmdsState {
    /// Takes the next query id and returns it with `prefix`.
    fn take_query_id(&mut self, prefix: &str) -> (q: String)
        requires
            old(self).next_hmds_query_id < u32::MAX,
        ensures
            q@ == query_id_text(prefix@, old(self).next_hmds_query_id),
            final(self).next_hmds_query_id == old(self).next_hmds_query_id + 1,
            same_subscriptions(*old(self), *final(self)),
            other_lists_same(*old(self), *final(self), 0),
            final(self).next_scanner_id == old(self).next_scanner_id,
    {
        let mut q = prefix.to_string();
        let n = u64_text(self.next_hmds_query_id as u64);
        q.append(n.as_str());
        self.next_hmds_query_id = self.next_hmds_query_id + 1;
        q
    }

    /// Registers a historical-bar query (`hist_<n>`) for `req_id` and
    /// returns it: duration in lower case, end time `now` when none is given,
    /// data type and bar size read from their texts.
    pub fn historical_query(
        &mut self,
        req_id: u32,
        con_id: i64,
        end_date_time: &str,
        now: &str,
        duration: &str,
        bar_size_text: &str,
        what_to_show: &str,
        use_rth: bool,
        keep_up_to_date: bool,
        symbol: &str,
    ) -> (q: HistoricalQuery)
        requires
            old(self).next_hmds_query_id < u32::MAX,
        ensures
            q.query_id@ == query_id_text("hist_"@, old(self).next_hmds_query_id),
            q.con_id == con_id as u32,
            q.symbol@ == symbol@,
            q.data_type == bar_data_type_of(what_to_show@),
            q.end_time@ == end_time_or(end_date_time@, now@),
            q.duration@ == lower_text(duration@),
            q.bar_size == bar_size_of(bar_size_text@),
            q.use_rth == use_rth,
            q.keep_up_to_date == keep_up_to_date,
            final(self).next_hmds_query_id == old(self).next_hmds_query_id + 1,
            qview(final(self).pending_historical@) == qview(old(self).pending_historical@).push((q.query_id@, req_id)),
            same_subscriptions(*old(self), *final(self)),
            other_lists_same(*old(self), *final(self), 1),
            final(self).next_scanner_id == old(self).next_scanner_id,
    {
        let duration = to_lower(duration);
        let end_time = if end_date_time.unicode_len() == 0 { now.to_string() } else { end_date_time.to_string() };
        let query_id = self.take_query_id("hist_");
        let data_type = data_type_of(what_to_show);
        let bs = bar_size(bar_size_text);
        let ghost pv = qview(self.pending_historical@);
        self.pending_historical.push((query_id.clone(), req_id));
        assert(qview(self.pending_historical@) =~= pv.push((query_id@, req_id)));
        HistoricalQuery {
            query_id,
            con_id: con_id as u32,
            symbol: symbol.to_string(),
            data_type,
            end_time,
            duration,
            bar_size: bs,
            use_rth,
            keep_up_to_date,
        }
    }
}

/// Report type of a fundamental-data query.
#[derive(Clone, Copy, Debug, PartialEq, Eq, Structural)]
pub enum ReportType {
    Snapshot,
    FinancialSummary,
    FinancialStatements,
}

/// The report type of a report-type text; the snapshot by default.
pub open spec fn report_type_of(t: Seq<char>) -> ReportType {
    if t == "ReportSnapshot"@ || t == "snapshot"@ {
        ReportType::Snapshot
    } else if t == "ReportFinSummary"@ || t == "finsum"@ {
        ReportType::FinancialSummary
    } else if t == "ReportsFinStatements"@ || t == "finstat"@ {
        ReportType::FinancialStatements
    } else {
        ReportType::Snapshot
    }
}

fn report_type(t: &str) -> (r: ReportType)
    ensures
        r == report_type_of(t@),
{
    if str_eq(t, "ReportSnapshot") || str_eq(t, "snapshot") {
        ReportType::Snapshot
    } else if str_eq(t, "ReportFinSummary") || str_eq(t, "finsum") {
        ReportType::FinancialSummary
    } else if str_eq(t, "ReportsFinStatements") || str_eq(t, "finstat") {
        ReportType::FinancialStatements
    } else {
        ReportType::Snapshot
    }
}

/// The scanner subscription id `APISCAN<n>:<req_id>`.
pub open spec fn scan_id_text(n: u32, req_id: u32) -> Seq<char> {
    "APISCAN"@ + nat_text(n as nat) + ":"@ + nat_text(req_id as nat)
}

/// Wire text of a tick-by-tick kind.
pub open spec fn tbt_type_text(t: TbtType) -> Seq<char> {
    match t {
        TbtType::Last => "AllLast"@,
        TbtType::BidAsk => "BidAsk"@,
    }
}

/// The query that subscribes a contract to tick-by-tick data.
pub open spec fn tbt_subscribe_xml(req_id: u32, con_id: i64, t: TbtType) -> Seq<char> {
    "<?xml version=\"1.0\" encoding=\"UTF-8\"?><ListOfQueries><Query><id>tbt_"@ + nat_text(req_id as nat)
        + "</id><contractID>"@ + int_text(con_id as int)
        + "</contractID><exchange>BEST</exchange><secType>CS</secType><expired>no</expired><type>TickData</type><refresh>ticks</refresh><data>"@
        + tbt_type_text(t) + "</data><source>API</source></Query></ListOfQueries>"@
}

/// The query that cancels the stream of a ticker (or historical) id.
pub open spec fn cancel_xml(id: Seq<char>) -> Seq<char> {
    "<?xml version=\"1.0\" encoding=\"UTF-8\"?><ListOfCancelQueries><CancelQuery><id>ticker:"@ + id
        + "</id></CancelQuery></ListOfCancelQueries>"@
}

/// Builds the cancel query of an id (see `cancel_xml`).
pub fn build_cancel_xml(id: &str) -> (x: String)
    ensures
        x@ == cancel_xml(id@),
{
    let mut x = "<?xml version=\"1.0\" encoding=\"UTF-8\"?><ListOfCancelQueries><CancelQuery><id>ticker:".to_string();
    x.append(id);
    x.append("</id></CancelQuery></ListOfCancelQueries>");
    x
}

impl HmdsState {
    /// Registers a keep-up-to-date historical-bar query sent on the order
    /// connection; like `historical_query` but with the shorter bar-size
    /// table and always streaming.
    pub fn historical_query_via_ccp(
        &mut self,
        req_id: u32,
        con_id: i64,
        end_date_time: &str,
        now: &str,
        duration: &str,
        bar_size_text: &str,
        what_to_show: &str,
        use_rth: bool,
        symbol: &str,
    ) -> (q: HistoricalQuery)
        requires
            old(self).next_hmds_query_id < u32::MAX,
        ensures
            q.query_id@ == query_id_text("hist_"@, old(self).next_hmds_query_id),
            q.con_id == con_id as u32,
            q.symbol@ == symbol@,
            q.data_type == bar_data_type_of(what_to_show@),
            q.end_time@ == end_time_or(end_date_time@, now@),
            q.duration@ == lower_text(duration@),
            q.bar_size == ccp_bar_size_of(bar_size_text@),
            q.use_rth == use_rth,
            q.keep_up_to_date,
            final(self).next_hmds_query_id == old(self).next_hmds_query_id + 1,
            qview(final(self).pending_historical@) == qview(old(self).pending_historical@).push((q.query_id@, req_id)),
            same_subscriptions(*old(self), *final(self)),
            other_lists_same(*old(self), *final(self), 1),
            final(self).next_scanner_id == old(self).next_scanner_id,
    {
        let duration = to_lower(duration);
        let end_time = if end_date_time.unicode_len() == 0 { now.to_string() } else { end_date_time.to_string() };
        let query_id = self.take_query_id("hist_");
        let data_type = data_type_of(what_to_show);
        let bs = ccp_bar_size(bar_size_text);
        let ghost pv = qview(self.pending_historical@);
        self.pending_historical.push((query_id.clone(), req_id));
        assert(qview(self.pending_historical@) =~= pv.push((query_id@, req_id)));
        HistoricalQuery {
            query_id,
            con_id: con_id as u32,
            symbol: symbol.to_string(),
            data_type,
            end_time,
            duration,
            bar_size: bs,
            use_rth,
            keep_up_to_date: true,
        }
    }

    /// Registers a head-timestamp query (`hts_<n>`) and returns its id and data type.
    pub fn head_timestamp_query(&mut self, req_id: u32, what_to_show: &str) -> (r: (String, BarDataType))
        requires
            old(self).next_hmds_query_id < u32::MAX,
        ensures
            r.0@ == query_id_text("hts_"@, old(self).next_hmds_query_id),
            r.1 == head_data_type_of(what_to_show@),
            final(self).next_hmds_query_id == old(self).next_hmds_query_id + 1,
            qview(final(self).pending_head_ts@) == qview(old(self).pending_head_ts@).push((r.0@, req_id)),
            same_subscriptions(*old(self), *final(self)),
            other_lists_same(*old(self), *final(self), 2),
            final(self).next_scanner_id == old(self).next_scanner_id,
    {
        let data_type = head_data_type(what_to_show);
        let q = self.take_query_id("hts_");
        let ghost pv = qview(self.pending_head_ts@);
        self.pending_head_ts.push((q.clone(), req_id));
        assert(qview(self.pending_head_ts@) =~= pv.push((q@, req_id)));
        (q, data_type)
    }

    /// Registers a histogram query (`hg_<n>`) and returns its id.
    pub fn histogram_query(&mut self, req_id: u32) -> (q: String)
        requires
            old(self).next_hmds_query_id < u32::MAX,
        ensures
            q@ == query_id_text("hg_"@, old(self).next_hmds_query_id),
            final(self).next_hmds_query_id == old(self).next_hmds_query_id + 1,
            qview(final(self).pending_histogram@) == qview(old(self).pending_histogram@).push((q@, req_id)),
            same_subscriptions(*old(self), *final(self)),
            other_lists_same(*old(self), *final(self), 3),
            final(self).next_scanner_id == old(self).next_scanner_id,
    {
        let q = self.take_query_id("hg_");
        let ghost pv = qview(self.pending_histogram@);
        self.pending_histogram.push((q.clone(), req_id));
        assert(qview(self.pending_histogram@) =~= pv.push((q@, req_id)));
        q
    }

    /// Registers a trading-schedule query (`sched_<n>`) and returns its id
    /// with the end time (`now` when none is given) and the duration in lower case.
    pub fn schedule_query(&mut self, req_id: u32, end_date_time: &str, now: &str, duration: &str) -> (r: (String, String, String))
        requires
            old(self).next_hmds_query_id < u32::MAX,
        ensures
            r.0@ == query_id_text("sched_"@, old(self).next_hmds_query_id),
            r.1@ == end_time_or(end_date_time@, now@),
            r.2@ == lower_text(duration@),
            final(self).next_hmds_query_id == old(self).next_hmds_query_id + 1,
            qview(final(self).pending_schedule@) == qview(old(self).pending_schedule@).push((r.0@, req_id)),
            same_subscriptions(*old(self), *final(self)),
            other_lists_same(*old(self), *final(self), 5),
            final(self).next_scanner_id == old(self).next_scanner_id,
    {
        let q = self.take_query_id("sched_");
        let duration = to_lower(duration);
        let end_time = if end_date_time.unicode_len() == 0 { now.to_string() } else { end_date_time.to_string() };
        let ghost pv = qview(self.pending_schedule@);
        self.pending_schedule.push((q.clone(), req_id));
        assert(qview(self.pending_schedule@) =~= pv.push((q@, req_id)));
        (q, end_time, duration)
    }

    /// Registers a historical-news query (`news_<n>`) and returns its id.
    pub fn news_query(&mut self, req_id: u32) -> (q: String)
        requires
            old(self).next_hmds_query_id < u32::MAX,
        ensures
            q@ == query_id_text("news_"@, old(self).next_hmds_query_id),
            final(self).next_hmds_query_id == old(self).next_hmds_query_id + 1,
            qview(final(self).pending_news@) == qview(old(self).pending_news@).push((q@, req_id)),
            same_subscriptions(*old(self), *final(self)),
            other_lists_same(*old(self), *final(self), 7),
            final(self).next_scanner_id == old(self).next_scanner_id,
    {
        let q = self.take_query_id("news_");
        let ghost pv = qview(self.pending_news@);
        self.pending_news.push((q.clone(), req_id));
        assert(qview(self.pending_news@) =~= pv.push((q@, req_id)));
        q
    }

    /// Registers a news-article query (`art_<n>`) and returns its id.
    pub fn article_query(&mut self, req_id: u32) -> (q: String)
        requires
            old(self).next_hmds_query_id < u32::MAX,
        ensures
            q@ == query_id_text("art_"@, old(self).next_hmds_query_id),
            final(self).next_hmds_query_id == old(self).next_hmds_query_id + 1,
            qview(final(self).pending_articles@) == qview(old(self).pending_articles@).push((q@, req_id)),
            same_subscriptions(*old(self), *final(self)),
            other_lists_same(*old(self), *final(self), 8),
            final(self).next_scanner_id == old(self).next_scanner_id,
    {
        let q = self.take_query_id("art_");
        let ghost pv = qview(self.pending_articles@);
        self.pending_articles.push((q.clone(), req_id));
        assert(qview(self.pending_articles@) =~= pv.push((q@, req_id)));
        q
    }

    /// Registers a fundamental-data query (`fund_<n>`) and returns its id and report type.
    pub fn fundamental_query(&mut self, req_id: u32, report_type_text: &str) -> (r: (String, ReportType))
        requires
            old(self).next_hmds_query_id < u32::MAX,
        ensures
            r.0@ == query_id_text("fund_"@, old(self).next_hmds_query_id),
            r.1 == report_type_of(report_type_text@),
            final(self).next_hmds_query_id == old(self).next_hmds_query_id + 1,
            qview(final(self).pending_fundamental@) == qview(old(self).pending_fundamental@).push((r.0@, req_id)),
            same_subscriptions(*old(self), *final(self)),
            other_lists_same(*old(self), *final(self), 9),
            final(self).next_scanner_id == old(self).next_scanner_id,
    {
        let rt = report_type(report_type_text);
        let q = self.take_query_id("fund_");
        let ghost pv = qview(self.pending_fundamental@);
        self.pending_fundamental.push((q.clone(), req_id));
        assert(qview(self.pending_fundamental@) =~= pv.push((q@, req_id)));
        (q, rt)
    }

    /// Registers a historical-tick query (`tk_<n>`) and returns its id.
    pub fn ticks_query(&mut self, req_id: u32, what_to_show: &str) -> (q: String)
        requires
            old(self).next_hmds_query_id < u32::MAX,
        ensures
            q@ == query_id_text("tk_"@, old(self).next_hmds_query_id),
            final(self).next_hmds_query_id == old(self).next_hmds_query_id + 1,
            tview(final(self).pending_ticks@) == tview(old(self).pending_ticks@).push((q@, (req_id, what_to_show@))),
            same_subscriptions(*old(self), *final(self)),
            other_lists_same(*old(self), *final(self), 4),
            final(self).next_scanner_id == old(self).next_scanner_id,
    {
        let q = self.take_query_id("tk_");
        let ghost pv = tview(self.pending_ticks@);
        self.pending_ticks.push((q.clone(), req_id, what_to_show.to_string()));
        assert(tview(self.pending_ticks@) =~= pv.push((q@, (req_id, what_to_show@))));
        q
    }

    /// Registers a real-time bar subscription (`rt_<n>`), not yet bound to a
    /// ticker id, with a minimum tick of 0.01; returns its id.
    pub fn realtime_bar_query(&mut self, req_id: u32) -> (q: String)
        requires
            old(self).next_hmds_query_id < u32::MAX,
        ensures
            q@ == query_id_text("rt_"@, old(self).next_hmds_query_id),
            final(self).next_hmds_query_id == old(self).next_hmds_query_id + 1,
            final(self).rtbar_subs@.len() == old(self).rtbar_subs@.len() + 1,
            forall|i: int| 0 <= i < old(self).rtbar_subs@.len() ==> #[trigger] final(self).rtbar_subs@[i] == old(self).rtbar_subs@[i],
            ({
                let e = final(self).rtbar_subs@.last();
                e.0@ == q@ && e.1 == req_id && e.2 is None && e.3 == DEFAULT_MIN_TICK_BITS
            }),
            other_lists_same(*old(self), *final(self), 0),
            final(self).tbt_subscriptions == old(self).tbt_subscriptions,
            final(self).keep_up_to_date_reqs == old(self).keep_up_to_date_reqs,
            final(self).next_scanner_id == old(self).next_scanner_id,
    {
        let q = self.take_query_id("rt_");
        self.rtbar_subs.push((q.clone(), req_id, None, DEFAULT_MIN_TICK_BITS));
        q
    }

    /// Registers a scanner subscription (`APISCAN<n>:<req_id>`, from its own
    /// counter) and returns its id.
    pub fn scanner_subscribe(&mut self, req_id: u32) -> (q: String)
        requires
            old(self).next_scanner_id < u32::MAX,
        ensures
            q@ == scan_id_text(old(self).next_scanner_id, req_id),
            final(self).next_scanner_id == old(self).next_scanner_id + 1,
            qview(final(self).pending_scanner@) == qview(old(self).pending_scanner@).push((q@, req_id)),
            final(self).next_hmds_query_id == old(self).next_hmds_query_id,
            same_subscriptions(*old(self), *final(self)),
            other_lists_same(*old(self), *final(self), 6),
    {
        let mut q = "APISCAN".to_string();
        let n = u64_text(self.next_scanner_id as u64);
        q.append(n.as_str());
        q.append(":");
        let r = u64_text(req_id as u64);
        q.append(r.as_str());
        self.next_scanner_id = self.next_scanner_id + 1;
        let ghost pv = qview(self.pending_scanner@);
        self.pending_scanner.push((q.clone(), req_id));
        assert(qview(self.pending_scanner@) =~= pv.push((q@, req_id)));
        q
    }

    /// Subscribes an instrument to tick-by-tick data: takes the next
    /// tick-by-tick request id, records the subscription under ticker id
    /// `tbt_<id>` and returns the query to send.
    pub fn tbt_subscribe(&mut self, con_id: i64, instrument: InstrumentId, tbt_type: TbtType) -> (x: String)
        requires
            old(self).next_tbt_req_id < u32::MAX,
        ensures
            x@ == tbt_subscribe_xml(old(self).next_tbt_req_id, con_id, tbt_type),
            final(self).next_tbt_req_id == old(self).next_tbt_req_id + 1,
            sview(final(self).tbt_subscriptions@) == sview(old(self).tbt_subscriptions@).push(
                (instrument, ("tbt_"@ + nat_text(old(self).next_tbt_req_id as nat), tbt_type))),
            final(self).tbt_price_state == old(self).tbt_price_state,
            final(self).next_hmds_query_id == old(self).next_hmds_query_id,
            other_lists_same(*old(self), *final(self), 0),
    {
        let req_id = self.next_tbt_req_id;
        self.next_tbt_req_id = self.next_tbt_req_id + 1;
        let id = u64_text(req_id as u64);
        let type_str = match tbt_type {
            TbtType::Last => "AllLast",
            TbtType::BidAsk => "BidAsk",
        };
        let mut x = "<?xml version=\"1.0\" encoding=\"UTF-8\"?><ListOfQueries><Query><id>tbt_".to_string();
        x.append(id.as_str());
        x.append("</id><contractID>");
        let c = crate::text::i64_text(con_id);
        x.append(c.as_str());
        x.append("</contractID><exchange>BEST</exchange><secType>CS</secType><expired>no</expired><type>TickData</type><refresh>ticks</refresh><data>");
        x.append(type_str);
        x.append("</data><source>API</source></Query></ListOfQueries>");
        let mut ticker = "tbt_".to_string();
        ticker.append(id.as_str());
        let ghost sv = sview(self.tbt_subscriptions@);
        let ghost tv = ticker@;
        self.tbt_subscriptions.push((instrument, ticker, tbt_type));
        assert(sview(self.tbt_subscriptions@) =~= sv.push((instrument, (tv, tbt_type))));
        x
    }

    /// Ends the tick-by-tick subscription of an instrument: removes its first
    /// subscription, clears its running prices and returns the cancel query
    /// of its ticker id; `None`, with nothing changed, without one.
    pub fn tbt_unsubscribe(&mut self, instrument: InstrumentId) -> (x: Option<String>)
        requires
            instrument < old(self).tbt_price_state@.len(),
        ensures
            ({
                let sv = sview(old(self).tbt_subscriptions@);
                let i = first_index_of(sv, instrument);
                &&& (i == -1 ==> x is None && final(self).tbt_subscriptions == old(self).tbt_subscriptions
                    && final(self).tbt_price_state == old(self).tbt_price_state)
                &&& (i != -1 ==> (x matches Some(t) && t@ == cancel_xml(sv[i].1.0))
                    && sview(final(self).tbt_subscriptions@) == sv.remove(i)
                    && final(self).tbt_price_state@ == old(self).tbt_price_state@.update(instrument as int, (0i64, 0i64, 0i64)))
            }),
            final(self).next_tbt_req_id == old(self).next_tbt_req_id,
            final(self).next_hmds_query_id == old(self).next_hmds_query_id,
            other_lists_same(*old(self), *final(self), 0),
    {
        let ghost sv = sview(self.tbt_subscriptions@);
        match subscription_index(&self.tbt_subscriptions, instrument) {
            Some(i) => {
                let (_, ticker, _) = self.tbt_subscriptions.remove(i);
                assert(sview(self.tbt_subscriptions@) =~= sv.remove(i as int));
                self.tbt_price_state.set(instrument as usize, (0, 0, 0));
                Some(build_cancel_xml(ticker.as_str()))
            },
            None => None,
        }
    }
}

/// Index of the first tick-by-tick subscription of an instrument.
fn subscription_index(v: &Vec<(InstrumentId, String, TbtType)>, instrument: InstrumentId) -> (r: Option<usize>)
    ensures
        match r {
            Some(i) => first_index_of(sview(v@), instrument) == i as int && i < v@.len(),
            None => first_index_of(sview(v@), instrument) == -1,
        },
{
    let ghost sv = sview(v@);
    let n = v.len();
    let mut i: usize = 0;
    while i < n
        invariant
            n == v@.len(),
            sv == sview(v@),
            i <= n,
            forall|j: int| 0 <= j < i ==> #[trigger] sv[j].0 != instrument,
        decreases n - i,
    {
        if v[i].0 == instrument {
            proof {
                lemma_first_index_of_is(sv, instrument, i as int);
            }
            return Some(i);
        }
        i = i + 1;
    }
    proof {
        lemma_first_index_of_absent(sv, instrument);
    }
    None
}

impl HmdsState {
    /// A historical-bar response for query `resp_query_id` arrived: it
    /// belongs to the first pending historical query whose id starts it.
    /// When the response completes the query and the request does not keep
    /// streaming, the query leaves the pending list. Returns the request id,
    /// `None` when no pending query matches.
    pub fn apply_bar_response(&mut self, resp_query_id: &str, is_complete: bool) -> (r: Option<u32>)
        ensures
            match r {
                Some(req) => exists|i: int| {
                    &&& 0 <= i < old(self).pending_historical@.len()
                    &&& text_at(resp_query_id@, old(self).pending_historical@[i].0@, 0)
                    &&& forall|j: int| 0 <= j < i ==> !text_at(resp_query_id@, #[trigger] old(self).pending_historical@[j].0@, 0)
                    &&& req == old(self).pending_historical@[i].1
                    &&& final(self).pending_historical@ == (if is_complete && !old(self).keep_up_to_date_reqs@.contains(req) {
                        old(self).pending_historical@.remove(i)
                    } else {
                        old(self).pending_historical@
                    })
                },
                None => {
                    &&& forall|j: int| 0 <= j < old(self).pending_historical@.len() ==> !text_at(resp_query_id@, #[trigger] old(self).pending_historical@[j].0@, 0)
                    &&& final(self).pending_historical == old(self).pending_historical
                },
            },
            final(self).keep_up_to_date_reqs == old(self).keep_up_to_date_reqs,
            other_lists_same(*old(self), *final(self), 1),
            same_subscriptions(*old(self), *final(self)),
            final(self).next_hmds_query_id == old(self).next_hmds_query_id,
            final(self).next_scanner_id == old(self).next_scanner_id,
    {
        match prefix_query_index(&self.pending_historical, resp_query_id) {
            Some(i) => {
                let req = self.pending_historical[i].1;
                let ghost before = self.pending_historical@;
                if is_complete && !keeps_streaming(&self.keep_up_to_date_reqs, req) {
                    self.pending_historical.remove(i);
                }
                assert(text_at(resp_query_id@, before[i as int].0@, 0));
                Some(req)
            },
            None => None,
        }
    }
}

/// Index of the first pending query whose id starts `r`.
fn prefix_query_index(v: &Vec<(String, u32)>, r: &str) -> (res: Option<usize>)
    ensures
        match res {
            Some(i) => i < v@.len() && text_at(r@, v@[i as int].0@, 0)
                && forall|j: int| 0 <= j < i ==> !text_at(r@, #[trigger] v@[j].0@, 0),
            None => forall|j: int| 0 <= j < v@.len() ==> !text_at(r@, #[trigger] v@[j].0@, 0),
        },
{
    let m = r.unicode_len();
    let n = v.len();
    let mut i: usize = 0;
    while i < n
        invariant
            n == v@.len(),
            m == r@.len(),
            i <= n,
            forall|j: int| 0 <= j < i ==> !text_at(r@, #[trigger] v@[j].0@, 0),
        decreases n - i,
    {
        let q = v[i].0.as_str();
        let ql = q.unicode_len();
        if ql <= m && text_here(r, q, 0) {
            return Some(i);
        }
        i = i + 1;
    }
    None
}

/// Whether `x` is in `v`.
fn keeps_streaming(keep: &HashSet<u32>, req: u32) -> (r: bool)
    ensures
        r == keep@.contains(req),
{
    broadcast use vstd::std_specs::hash::group_hash_axioms;
    keep.contains(&req)
}

/// Big-endian value of four bytes.
pub open spec fn be32(b: Seq<u8>, i: int) -> u32 {
    (b[i] * 0x100_0000 + b[i + 1] * 0x1_0000 + b[i + 2] * 0x100 + b[i + 3]) as u32
}

/// The bar frame of a real-time bar body (35=G, before its signature):
/// the ticker id (bytes 2..6), the bar time (6..10) and the payload whose
/// length is byte 10; `None` when the body is too short for them.
pub open spec fn rtbar_frame(b: Seq<u8>) -> Option<(u32, u32, Seq<u8>)> {
    if b.len() < 11 || b.len() < 11 + b[10] {
        None
    } else {
        Some((be32(b, 2), be32(b, 6), b.subrange(11, 11 + b[10])))
    }
}

/// Reads the bar frame of a real-time bar body (see `rtbar_frame`).
pub fn parse_rtbar_frame(body: &[u8]) -> (r: Option<(u32, u32, &[u8])>)
    ensures
        match r {
            Some((tid, ts, payload)) => rtbar_frame(body@) == Some((tid, ts, payload@)),
            None => rtbar_frame(body@) is None,
        },
{
    let n = body.len();
    if n < 11 {
        return None;
    }
    let len = body[10] as usize;
    if n < 11 + len {
        return None;
    }
    assert(body[2] as u32 * 0x100_0000 + body[3] as u32 * 0x1_0000 + body[4] as u32 * 0x100 + body[5] as u32 <= u32::MAX) by (nonlinear_arith)
        requires
            body[2] < 256, body[3] < 256, body[4] < 256, body[5] < 256;
    assert(body[6] as u32 * 0x100_0000 + body[7] as u32 * 0x1_0000 + body[8] as u32 * 0x100 + body[9] as u32 <= u32::MAX) by (nonlinear_arith)
        requires
            body[6] < 256, body[7] < 256, body[8] < 256, body[9] < 256;
    let tid = (body[2] as u32) * 0x100_0000 + (body[3] as u32) * 0x1_0000 + (body[4] as u32) * 0x100 + (body[5] as u32);
    let ts = (body[6] as u32) * 0x100_0000 + (body[7] as u32) * 0x1_0000 + (body[8] as u32) * 0x100 + (body[9] as u32);
    Some((tid, ts, &body[11..11 + len]))
}

impl HmdsState {
    /// The subscription a real-time bar of ticker `tid` belongs to: the
    /// request id and minimum-tick bits of the first subscription bound to it.
    pub fn rtbar_subscription(&self, tid: u32) -> (r: Option<(u32, u64)>)
        ensures
            match r {
                Some((req, mt)) => exists|i: int| {
                    &&& 0 <= i < self.rtbar_subs@.len()
                    &&& self.rtbar_subs@[i].2 == Some(tid)
                    &&& forall|j: int| 0 <= j < i ==> #[trigger] self.rtbar_subs@[j].2 != Some(tid)
                    &&& req == self.rtbar_subs@[i].1 && mt == self.rtbar_subs@[i].3
                },
                None => forall|j: int| 0 <= j < self.rtbar_subs@.len() ==> #[trigger] self.rtbar_subs@[j].2 != Some(tid),
            },
    {
        let n = self.rtbar_subs.len();
        let mut i: usize = 0;
        while i < n
            invariant
                n == self.rtbar_subs@.len(),
                i <= n,
                forall|j: int| 0 <= j < i ==> #[trigger] self.rtbar_subs@[j].2 != Some(tid),
            decreases n - i,
        {
            let bound = match self.rtbar_subs[i].2 {
                Some(t) => t == tid,
                None => false,
            };
            if bound {
                return Some((self.rtbar_subs[i].1, self.rtbar_subs[i].3));
            }
            i = i + 1;
        }
        None
    }
}

/// Law: a historical request released by a query error no longer streams.
pub proof fn law_released_request_stops_streaming(keep: Set<u32>, req: u32, other: u32)
    ensures
        !keep.remove(req).contains(req),
        other != req ==> (keep.remove(req).contains(other) == keep.contains(other)),
{
}

/// Law: a query error whose id no pending list holds names no pending
/// query, and drops nothing.
pub proof fn law_unknown_query_changes_nothing(h: HmdsState, q: Seq<char>)
    requires
        query_owner(h, q) == 0,
    ensures
        first_index_of(qview(h.pending_historical@), q) == -1,
        first_index_of(qview(h.pending_head_ts@), q) == -1,
        first_index_of(qview(h.pending_histogram@), q) == -1,
        first_index_of(tview(h.pending_ticks@), q) == -1,
        first_index_of(qview(h.pending_schedule@), q) == -1,
        first_index_of(qview(h.pending_scanner@), q) == -1,
        drop_query(qview(h.pending_historical@), q, query_owner(h, q) == 1) == qview(h.pending_historical@),
        drop_query(qview(h.pending_scanner@), q, query_owner(h, q) == 6) == qview(h.pending_scanner@),
{
}

/// Whether `p` occurs in `s`.
pub open spec fn text_contains(s: Seq<char>, p: Seq<char>) -> bool {
    text_find(s, p, 0) is Some
}

/// Whether `p` occurs in `s` (see `text_contains`).
pub fn contains_text(s: &str, p: &str) -> (r: bool)
    ensures
        r == text_contains(s@, p@),
{
    let _n = s.unicode_len();
    find_text(s, p, 0).is_some()
}

/// What a sub-protocol (35=U) response settles.
#[derive(Clone, Copy, Debug, PartialEq, Eq, Structural)]
pub enum SubProtocolOutcome {
    /// Scanner parameters arrived (10002); they are no longer pending.
    ScannerParams,
    /// Scanner results (10005) for the oldest pending scan, if any.
    ScannerData { req_id: Option<u32> },
    /// A news article (10032 with `article_file`) for the oldest pending article request.
    NewsArticle { req_id: Option<u32> },
    /// Historical news (10032) for the oldest pending news request.
    HistoricalNews { req_id: Option<u32> },
    /// Fundamental data (10012) for the oldest pending request.
    FundamentalData { req_id: Option<u32> },
    /// Another sub-protocol code: nothing to do.
    Ignored,
}

/// Which sub-protocol response a code is: 1 scanner parameters (10002),
/// 2 scanner results (10005), 3 news (10032), 4 fundamentals (10012), else 0.
pub open spec fn sub_protocol_code(comm: Seq<char>) -> int {
    if comm == "10002"@ {
        1
    } else if comm == "10005"@ {
        2
    } else if comm == "10032"@ {
        3
    } else if comm == "10012"@ {
        4
    } else {
        0
    }
}

/// The request id of the oldest entry of a pending list.
pub open spec fn oldest(v: Seq<(String, u32)>) -> Option<u32> {
    if v.len() > 0 {
        Some(v[0].1)
    } else {
        None
    }
}

/// A pending list without its oldest entry.
pub open spec fn without_oldest(v: Seq<(String, u32)>) -> Seq<(String, u32)> {
    if v.len() > 0 {
        v.remove(0)
    } else {
        v
    }
}

/// Removes the oldest entry of a pending list and returns its request id.
fn take_oldest(v: &mut Vec<(String, u32)>) -> (r: Option<u32>)
    ensures
        old(v)@.len() == 0 ==> r is None && final(v)@ == old(v)@,
        old(v)@.len() > 0 ==> r == Some(old(v)@[0].1) && final(v)@ == old(v)@.remove(0),
{
    if v.len() == 0 {
        None
    } else {
        let (_, req) = v.remove(0);
        Some(req)
    }
}

impl HmdsState {
    /// Handles a sub-protocol response with code `comm` whose payload is
    /// `xml`: 10002 clears the pending scanner-parameter flag; 10005 names the
    /// oldest pending scan; 10032 settles the oldest pending article request
    /// when the payload holds `article_file`, else the oldest historical-news
    /// request; 10012 settles the oldest fundamental-data request.
    pub fn handle_sub_protocol(&mut self, comm: &str, xml: &str) -> (r: SubProtocolOutcome)
        ensures
            ({
                let code = sub_protocol_code(comm@);
                let article = text_contains(xml@, "article_file"@);
                &&& code == 1 ==> r == SubProtocolOutcome::ScannerParams && !final(self).pending_scanner_params
                &&& code == 2 ==> r == (SubProtocolOutcome::ScannerData { req_id: oldest(old(self).pending_scanner@) })
                &&& code == 3 && article ==> r == (SubProtocolOutcome::NewsArticle { req_id: oldest(old(self).pending_articles@) })
                    && final(self).pending_articles@ == without_oldest(old(self).pending_articles@)
                &&& code == 3 && !article ==> r == (SubProtocolOutcome::HistoricalNews { req_id: oldest(old(self).pending_news@) })
                    && final(self).pending_news@ == without_oldest(old(self).pending_news@)
                &&& code == 4 ==> r == (SubProtocolOutcome::FundamentalData { req_id: oldest(old(self).pending_fundamental@) })
                    && final(self).pending_fundamental@ == without_oldest(old(self).pending_fundamental@)
                &&& code == 0 ==> r == SubProtocolOutcome::Ignored
                &&& code != 1 ==> final(self).pending_scanner_params == old(self).pending_scanner_params
                &&& !(code == 3 && article) ==> final(self).pending_articles == old(self).pending_articles
                &&& !(code == 3 && !article) ==> final(self).pending_news == old(self).pending_news
                &&& code != 4 ==> final(self).pending_fundamental == old(self).pending_fundamental
            }),
            final(self).pending_scanner == old(self).pending_scanner,
            final(self).pending_historical == old(self).pending_historical,
            final(self).rtbar_subs == old(self).rtbar_subs,
            final(self).keep_up_to_date_reqs == old(self).keep_up_to_date_reqs,
    {
        if str_eq(comm, "10002") {
            self.pending_scanner_params = false;
            SubProtocolOutcome::ScannerParams
        } else if str_eq(comm, "10005") {
            let req_id = if self.pending_scanner.len() > 0 { Some(self.pending_scanner[0].1) } else { None };
            SubProtocolOutcome::ScannerData { req_id }
        } else if str_eq(comm, "10032") {
            if contains_text(xml, "article_file") {
                SubProtocolOutcome::NewsArticle { req_id: take_oldest(&mut self.pending_articles) }
            } else {
                SubProtocolOutcome::HistoricalNews { req_id: take_oldest(&mut self.pending_news) }
            }
        } else if str_eq(comm, "10012") {
            SubProtocolOutcome::FundamentalData { req_id: take_oldest(&mut self.pending_fundamental) }
        } else {
            SubProtocolOutcome::Ignored
        }
    }

    /// A ticker id was assigned by a query response `xml` (with the
    /// instrument's minimum tick bits): the first real-time bar subscription
    /// whose query id occurs in `xml` is bound to it; failing that, the first
    /// streaming historical query whose id occurs in `xml` becomes a bound
    /// real-time bar subscription. Returns whether a subscription was bound.
    pub fn bind_ticker(&mut self, xml: &str, ticker_id: u32, min_tick_bits: u64) -> (matched: bool)
        ensures
            ({
                let subs = old(self).rtbar_subs@;
                let hist = old(self).pending_historical@;
                let keep = old(self).keep_up_to_date_reqs@;
                let in_subs = exists|i: int| 0 <= i < subs.len() && text_contains(xml@, #[trigger] subs[i].0@);
                let in_hist = exists|i: int| 0 <= i < hist.len() && text_contains(xml@, #[trigger] hist[i].0@) && keep.contains(hist[i].1);
                &&& matched == (in_subs || in_hist)
                &&& in_subs ==> exists|i: int| {
                    &&& 0 <= i < subs.len()
                    &&& text_contains(xml@, subs[i].0@)
                    &&& forall|j: int| 0 <= j < i ==> !text_contains(xml@, #[trigger] subs[j].0@)
                    &&& final(self).rtbar_subs@ == subs.update(i, (subs[i].0, subs[i].1, Some(ticker_id), min_tick_bits))
                }
                &&& !in_subs && in_hist ==> exists|i: int| {
                    &&& 0 <= i < hist.len()
                    &&& text_contains(xml@, hist[i].0@) && keep.contains(hist[i].1)
                    &&& forall|j: int| 0 <= j < i ==> !(text_contains(xml@, #[trigger] hist[j].0@) && keep.contains(hist[j].1))
                    &&& final(self).rtbar_subs@.len() == subs.len() + 1
                    &&& final(self).rtbar_subs@.drop_last() == subs
                    &&& final(self).rtbar_subs@.last().0@ == hist[i].0@
                    &&& final(self).rtbar_subs@.last().1 == hist[i].1
                    &&& final(self).rtbar_subs@.last().2 == Some(ticker_id)
                    &&& final(self).rtbar_subs@.last().3 == min_tick_bits
                }
                &&& !matched ==> final(self).rtbar_subs == old(self).rtbar_subs
            }),
            final(self).pending_historical == old(self).pending_historical,
            final(self).keep_up_to_date_reqs == old(self).keep_up_to_date_reqs,
            other_lists_same(*old(self), *final(self), 0),
    {
        let ghost subs = self.rtbar_subs@;
        if let Some(i) = first_sub_in(&self.rtbar_subs, xml) {
            let (q, req, _, _) = self.rtbar_subs.remove(i);
            self.rtbar_subs.insert(i, (q, req, Some(ticker_id), min_tick_bits));
            assert(self.rtbar_subs@ =~= subs.update(i as int, (subs[i as int].0, subs[i as int].1, Some(ticker_id), min_tick_bits)));
            return true;
        }
        if let Some(k) = first_streaming_in(&self.pending_historical, &self.keep_up_to_date_reqs, xml) {
            let req = self.pending_historical[k].1;
            let q = self.pending_historical[k].0.clone();
            self.rtbar_subs.push((q, req, Some(ticker_id), min_tick_bits));
            assert(self.rtbar_subs@.drop_last() =~= subs);
            return true;
        }
        false
    }
}

/// Index of the first subscription whose query id occurs in `xml`.
fn first_sub_in(subs: &Vec<(String, u32, Option<u32>, u64)>, xml: &str) -> (r: Option<usize>)
    ensures
        match r {
            Some(i) => i < subs@.len() && text_contains(xml@, subs@[i as int].0@)
                && forall|j: int| 0 <= j < i ==> !text_contains(xml@, #[trigger] subs@[j].0@),
            None => forall|j: int| 0 <= j < subs@.len() ==> !text_contains(xml@, #[trigger] subs@[j].0@),
        },
{
    let n = subs.len();
    let mut i: usize = 0;
    while i < n
        invariant
            n == subs@.len(),
            i <= n,
            forall|j: int| 0 <= j < i ==> !text_contains(xml@, #[trigger] subs@[j].0@),
        decreases n - i,
    {
        if contains_text(xml, subs[i].0.as_str()) {
            return Some(i);
        }
        i = i + 1;
    }
    None
}

/// Index of the first streaming query whose id occurs in `xml`.
fn first_streaming_in(hist: &Vec<(String, u32)>, keep: &HashSet<u32>, xml: &str) -> (r: Option<usize>)
    ensures
        match r {
            Some(i) => i < hist@.len() && text_contains(xml@, hist@[i as int].0@) && keep@.contains(hist@[i as int].1)
                && forall|j: int| 0 <= j < i ==> !(text_contains(xml@, #[trigger] hist@[j].0@) && keep@.contains(hist@[j].1)),
            None => forall|j: int| 0 <= j < hist@.len() ==> !(text_contains(xml@, #[trigger] hist@[j].0@) && keep@.contains(hist@[j].1)),
        },
{
    let n = hist.len();
    let mut i: usize = 0;
    while i < n
        invariant
            n == hist@.len(),
            i <= n,
            forall|j: int| 0 <= j < i ==> !(text_contains(xml@, #[trigger] hist@[j].0@) && keep@.contains(hist@[j].1)),
        decreases n - i,
    {
        if contains_text(xml, hist[i].0.as_str()) && keeps_streaming(keep, hist[i].1) {
            return Some(i);
        }
        i = i + 1;
    }
    None
}

/// One decoded tick-by-tick entry; prices are changes in cents from the
/// previous entry of the same stream.
#[derive(Clone, Debug)]
pub enum TbtEntry {
    Trade { timestamp: u64, price_cents_delta: i64, size: u32, exchange: String, conditions: String },
    Quote { timestamp: u64, bid_cents_delta: i64, ask_cents_delta: i64, bid_size: u32, ask_size: u32 },
}

/// A tick-by-tick event for the API; prices are fixed-point (`PRICE_SCALE`).
#[derive(Clone, Debug)]
pub enum TbtEvent {
    Trade { instrument: InstrumentId, price: i64, size: i64, timestamp: u64, exchange: String, conditions: String },
    Quote { instrument: InstrumentId, bid: i64, ask: i64, bid_size: i64, ask_size: i64, timestamp: u64 },
}

/// Fixed-point units per cent.
pub const UNITS_PER_CENT: i64 = 1_000_000;

/// The plain view of an event: kind (0 trade, 1 quote), instrument, the two
/// prices (trade price twice), the two sizes (trade size twice), timestamp,
/// and the trade's exchange and conditions (empty for a quote).
pub open spec fn event_view(e: TbtEvent) -> (int, InstrumentId, int, int, int, int, u64, Seq<char>, Seq<char>) {
    match e {
        TbtEvent::Trade { instrument, price, size, timestamp, exchange, conditions } =>
            (0, instrument, price as int, price as int, size as int, size as int, timestamp, exchange@, conditions@),
        TbtEvent::Quote { instrument, bid, ask, bid_size, ask_size, timestamp } =>
            (1, instrument, bid as int, ask as int, bid_size as int, ask_size as int, timestamp, Seq::empty(), Seq::empty()),
    }
}

/// The running `(last, bid, ask)` cents of a stream after a batch of entries,
/// and the events of the batch for `instrument`.
pub open spec fn tbt_run(st: (int, int, int), entries: Seq<TbtEntry>, instrument: InstrumentId) -> ((int, int, int), Seq<(int, InstrumentId, int, int, int, int, u64, Seq<char>, Seq<char>)>)
    decreases entries.len(),
{
    if entries.len() == 0 {
        (st, Seq::empty())
    } else {
        let (s, ev) = tbt_run(st, entries.drop_last(), instrument);
        match entries.last() {
            TbtEntry::Trade { timestamp, price_cents_delta, size, exchange, conditions } => {
                let last = s.0 + price_cents_delta;
                ((last, s.1, s.2), ev.push((0, instrument, last * UNITS_PER_CENT, last * UNITS_PER_CENT, size as int, size as int, timestamp, exchange@, conditions@)))
            },
            TbtEntry::Quote { timestamp, bid_cents_delta, ask_cents_delta, bid_size, ask_size } => {
                let bid = s.1 + bid_cents_delta;
                let ask = s.2 + ask_cents_delta;
                ((s.0, bid, ask), ev.push((1, instrument, bid * UNITS_PER_CENT, ask * UNITS_PER_CENT, bid_size as int, ask_size as int, timestamp, Seq::empty(), Seq::empty())))
            },
        }
    }
}

/// Whether a value fits in an `i64`.
pub open spec fn fits_i64(x: int) -> bool {
    i64::MIN <= x <= i64::MAX
}

/// Whether every running price of a batch, and its fixed-point value, fits
/// in an `i64` (the batch is otherwise refused by overflow).
pub open spec fn tbt_fits(st: (int, int, int), entries: Seq<TbtEntry>) -> bool
    decreases entries.len(),
{
    if entries.len() == 0 {
        true
    } else {
        let s = tbt_run(st, entries.drop_last(), 0).0;
        &&& tbt_fits(st, entries.drop_last())
        &&& match entries.last() {
            TbtEntry::Trade { price_cents_delta, .. } => fits_i64(s.0 + price_cents_delta)
                && fits_i64((s.0 + price_cents_delta) * UNITS_PER_CENT),
            TbtEntry::Quote { bid_cents_delta, ask_cents_delta, .. } => fits_i64(s.1 + bid_cents_delta)
                && fits_i64(s.2 + ask_cents_delta) && fits_i64((s.1 + bid_cents_delta) * UNITS_PER_CENT)
                && fits_i64((s.2 + ask_cents_delta) * UNITS_PER_CENT),
        }
    }
}

/// The running state of a batch does not depend on the instrument it is for.
proof fn lemma_tbt_state_any_instrument(st: (int, int, int), entries: Seq<TbtEntry>, a: InstrumentId, b: InstrumentId)
    ensures
        tbt_run(st, entries, a).0 == tbt_run(st, entries, b).0,
        tbt_run(st, entries, a).1.len() == entries.len(),
    decreases entries.len(),
{
    if entries.len() > 0 {
        lemma_tbt_state_any_instrument(st, entries.drop_last(), a, b);
    }
}

/// The view of a price slot as integers.
pub open spec fn slot_view(p: (i64, i64, i64)) -> (int, int, int) {
    (p.0 as int, p.1 as int, p.2 as int)
}

impl HmdsState {
    /// Applies a batch of tick-by-tick entries to the stream of the first
    /// subscription: each trade moves the running last price, each quote the
    /// running bid and ask (all in cents), and each yields an event with
    /// fixed-point prices. Without a subscription nothing happens.
    pub fn apply_tbt_entries(&mut self, entries: &Vec<TbtEntry>) -> (events: Vec<TbtEvent>)
        requires
            old(self).tbt_subscriptions@.len() > 0 ==> {
                let i = old(self).tbt_subscriptions@[0].0;
                &&& i < old(self).tbt_price_state@.len()
                &&& tbt_fits(slot_view(old(self).tbt_price_state@[i as int]), entries@)
            },
        ensures
            old(self).tbt_subscriptions@.len() == 0 ==> events@.len() == 0 && final(self).tbt_price_state == old(self).tbt_price_state,
            old(self).tbt_subscriptions@.len() > 0 ==> {
                let i = old(self).tbt_subscriptions@[0].0;
                let run = tbt_run(slot_view(old(self).tbt_price_state@[i as int]), entries@, i);
                &&& events@.map_values(|e: TbtEvent| event_view(e)) == run.1
                &&& final(self).tbt_price_state@ == old(self).tbt_price_state@.update(i as int, (run.0.0 as i64, run.0.1 as i64, run.0.2 as i64))
            },
            final(self).tbt_subscriptions == old(self).tbt_subscriptions,
            final(self).next_tbt_req_id == old(self).next_tbt_req_id,
    {
        let mut events: Vec<TbtEvent> = Vec::new();
        if self.tbt_subscriptions.len() == 0 {
            return events;
        }
        let instrument = self.tbt_subscriptions[0].0;
        let ghost st0 = slot_view(self.tbt_price_state@[instrument as int]);
        let ghost prices0 = self.tbt_price_state@;
        let n = entries.len();
        let mut k: usize = 0;
        assert(entries@.take(0) =~= Seq::<TbtEntry>::empty());
        assert(events@.map_values(|e: TbtEvent| event_view(e)) =~= Seq::<(int, InstrumentId, int, int, int, int, u64, Seq<char>, Seq<char>)>::empty());
        while k < n
            invariant
                n == entries@.len(),
                k <= n,
                instrument < self.tbt_price_state@.len(),
                self.tbt_subscriptions == old(self).tbt_subscriptions,
                self.next_tbt_req_id == old(self).next_tbt_req_id,
                instrument == old(self).tbt_subscriptions@[0].0,
                st0 == slot_view(old(self).tbt_price_state@[instrument as int]),
                prices0 == old(self).tbt_price_state@,
                instrument < prices0.len(),
                tbt_fits(st0, entries@),
                ({
                    let run = tbt_run(st0, entries@.take(k as int), instrument);
                    &&& events@.map_values(|e: TbtEvent| event_view(e)) == run.1
                    &&& self.tbt_price_state@ == prices0.update(instrument as int, (run.0.0 as i64, run.0.1 as i64, run.0.2 as i64))
                    &&& slot_view(self.tbt_price_state@[instrument as int]) == run.0
                }),
            decreases n - k,
        {
            let ghost ev0 = events@.map_values(|e: TbtEvent| event_view(e));
            let ghost run0 = tbt_run(st0, entries@.take(k as int), instrument);
            let ghost run1 = tbt_run(st0, entries@.take(k + 1), instrument);
            proof {
                assert(entries@.take(k + 1).drop_last() =~= entries@.take(k as int));
                assert(entries@.take(k + 1).last() == entries@[k as int]);
                lemma_tbt_fits_prefix(st0, entries@, k + 1);
                lemma_tbt_state_any_instrument(st0, entries@.take(k as int), instrument, 0);
            }
            match &entries[k] {
                TbtEntry::Trade { timestamp, price_cents_delta, size, exchange, conditions } => {
                    let ghost before = self.tbt_price_state@;
                    let cents = self.update_tbt_price(instrument, *price_cents_delta);
                    assert(self.tbt_price_state@ == before.update(instrument as int, (cents, before[instrument as int].1, before[instrument as int].2)));
                    assert(before[instrument as int] == (run0.0.0 as i64, run0.0.1 as i64, run0.0.2 as i64));
                    let ev = TbtEvent::Trade {
                        instrument,
                        price: cents * UNITS_PER_CENT,
                        size: *size as i64,
                        timestamp: *timestamp,
                        exchange: exchange.clone(),
                        conditions: conditions.clone(),
                    };
                    let ghost evv = event_view(ev);
                    events.push(ev);
                    assert(events@.map_values(|e: TbtEvent| event_view(e)) =~= ev0.push(evv));
                    assert(run1.0 == (cents as int, run0.0.1, run0.0.2));
                    assert((run1.0.0 as i64) == cents);
                    assert(self.tbt_price_state@ =~= prices0.update(instrument as int, (run1.0.0 as i64, run1.0.1 as i64, run1.0.2 as i64)));
                },
                TbtEntry::Quote { timestamp, bid_cents_delta, ask_cents_delta, bid_size, ask_size } => {
                    let ghost before = self.tbt_price_state@;
                    let (bid, ask) = self.update_tbt_bid_ask(instrument, *bid_cents_delta, *ask_cents_delta);
                    assert(self.tbt_price_state@ == before.update(instrument as int, (before[instrument as int].0, bid, ask)));
                    assert(before[instrument as int] == (run0.0.0 as i64, run0.0.1 as i64, run0.0.2 as i64));
                    let ev = TbtEvent::Quote {
                        instrument,
                        bid: bid * UNITS_PER_CENT,
                        ask: ask * UNITS_PER_CENT,
                        bid_size: *bid_size as i64,
                        ask_size: *ask_size as i64,
                        timestamp: *timestamp,
                    };
                    let ghost evv = event_view(ev);
                    events.push(ev);
                    assert(events@.map_values(|e: TbtEvent| event_view(e)) =~= ev0.push(evv));
                    assert(run1.0 == (run0.0.0, bid as int, ask as int));
                    assert((run1.0.1 as i64) == bid && (run1.0.2 as i64) == ask);
                    assert(self.tbt_price_state@ =~= prices0.update(instrument as int, (run1.0.0 as i64, run1.0.1 as i64, run1.0.2 as i64)));
                },
            }
            k = k + 1;
        }
        assert(entries@.take(n as int) =~= entries@);
        events
    }
}

/// The prices of a prefix of a batch fit when those of the batch do.
proof fn lemma_tbt_fits_prefix(st: (int, int, int), entries: Seq<TbtEntry>, k: int)
    requires
        0 <= k <= entries.len(),
        tbt_fits(st, entries),
    ensures
        tbt_fits(st, entries.take(k)),
    decreases entries.len() - k,
{
    if k < entries.len() {
        assert(entries.take(k + 1).drop_last() =~= entries.take(k));
        lemma_tbt_fits_prefix(st, entries, k + 1);
    } else {
        assert(entries.take(k) =~= entries);
    }
}

impl HmdsState {
    /// Asks for the scanner parameters: when the HMDS connection is up
    /// (`conn_up`) the request is marked pending and is to be sent; returns
    /// whether to send it.
    pub fn request_scanner_params(&mut self, conn_up: bool) -> (send: bool)
        ensures
            send == conn_up,
            final(self).pending_scanner_params == (conn_up || old(self).pending_scanner_params),
            other_lists_same(*old(self), *final(self), 0),
            final(self).rtbar_subs == old(self).rtbar_subs,
            final(self).next_hmds_query_id == old(self).next_hmds_query_id,
    {
        if conn_up {
            self.pending_scanner_params = true;
        }
        conn_up
    }
}

impl HmdsState {
    /// A head-timestamp response arrived: it settles the oldest pending
    /// head-timestamp query, whose request id is returned.
    pub fn settle_head_timestamp(&mut self) -> (r: Option<u32>)
        ensures
            r == oldest(old(self).pending_head_ts@),
            final(self).pending_head_ts@ == without_oldest(old(self).pending_head_ts@),
            other_lists_same(*old(self), *final(self), 2),
            same_subscriptions(*old(self), *final(self)),
    {
        take_oldest(&mut self.pending_head_ts)
    }

    /// A histogram response arrived: it settles the oldest pending histogram
    /// query, whose request id is returned.
    pub fn settle_histogram(&mut self) -> (r: Option<u32>)
        ensures
            r == oldest(old(self).pending_histogram@),
            final(self).pending_histogram@ == without_oldest(old(self).pending_histogram@),
            other_lists_same(*old(self), *final(self), 3),
            same_subscriptions(*old(self), *final(self)),
    {
        take_oldest(&mut self.pending_histogram)
    }

    /// A trading-schedule response for `query_id` arrived: the pending
    /// schedule query with that id leaves the list and its request id is
    /// returned; `None`, with nothing changed, for an unknown id.
    pub fn settle_schedule(&mut self, query_id: &str) -> (r: Option<u32>)
        ensures
            ({
                let v = qview(old(self).pending_schedule@);
                let i = first_index_of(v, query_id@);
                &&& (i == -1 ==> r is None && final(self).pending_schedule == old(self).pending_schedule)
                &&& (i != -1 ==> r == Some(v[i].1) && qview(final(self).pending_schedule@) == v.remove(i))
            }),
            other_lists_same(*old(self), *final(self), 5),
            same_subscriptions(*old(self), *final(self)),
    {
        proof {
            lemma_first_index_of_bounds(qview(self.pending_schedule@), query_id@);
        }
        match query_index(&self.pending_schedule, query_id) {
            Some(i) => Some(take_query(&mut self.pending_schedule, i)),
            None => None,
        }
    }

    /// A historical-tick response `xml` arrived: the first pending tick
    /// query whose id occurs in it leaves the list; its request id and
    /// what-to-show text are returned.
    pub fn settle_ticks(&mut self, xml: &str) -> (r: Option<(u32, String)>)
        ensures
            match r {
                Some((req, what)) => exists|i: int| {
                    &&& 0 <= i < old(self).pending_ticks@.len()
                    &&& text_contains(xml@, old(self).pending_ticks@[i].0@)
                    &&& forall|j: int| 0 <= j < i ==> !text_contains(xml@, #[trigger] old(self).pending_ticks@[j].0@)
                    &&& req == old(self).pending_ticks@[i].1
                    &&& what@ == old(self).pending_ticks@[i].2@
                    &&& final(self).pending_ticks@ == old(self).pending_ticks@.remove(i)
                },
                None => {
                    &&& forall|j: int| 0 <= j < old(self).pending_ticks@.len() ==> !text_contains(xml@, #[trigger] old(self).pending_ticks@[j].0@)
                    &&& final(self).pending_ticks == old(self).pending_ticks
                },
            },
            other_lists_same(*old(self), *final(self), 4),
            same_subscriptions(*old(self), *final(self)),
    {
        match first_tick_query_in(&self.pending_ticks, xml) {
            Some(i) => {
                let (_, req, what) = self.pending_ticks.remove(i);
                Some((req, what))
            },
            None => None,
        }
    }
}

/// Index of the first pending tick query whose id occurs in `xml`.
fn first_tick_query_in(v: &Vec<(String, u32, String)>, xml: &str) -> (r: Option<usize>)
    ensures
        match r {
            Some(i) => i < v@.len() && text_contains(xml@, v@[i as int].0@)
                && forall|j: int| 0 <= j < i ==> !text_contains(xml@, #[trigger] v@[j].0@),
            None => forall|j: int| 0 <= j < v@.len() ==> !text_contains(xml@, #[trigger] v@[j].0@),
        },
{
    let n = v.len();
    let mut i: usize = 0;
    while i < n
        invariant
            n == v@.len(),
            i <= n,
            forall|j: int| 0 <= j < i ==> !text_contains(xml@, #[trigger] v@[j].0@),
        decreases n - i,
    {
        if contains_text(xml, v[i].0.as_str()) {
            return Some(i);
        }
        i = i + 1;
    }
    None
}
} // verus!
