//! Order requests and the FIX messages that carry them to the order server:
//! new orders (35=D) of every supported type, cancels (35=F) and replaces
//! (35=G), with the order records kept for each submitted order.

use vstd::prelude::*;
use vstd::string::StrSliceExecFns;

use crate::farm::messages_view;
use crate::fix_msg::{
    field_absent, field_is, fields_view, is_time_tag, law_stamp_parts, lemma_field_absent_concat, lemma_field_is_middle, new_fields, push_field,
    push_field_string, stamped, FixFields,
};
use crate::market_state::{first_index_of, lemma_first_index_of_absent, lemma_first_index_of_bounds, lemma_first_index_of_is, lookup, MarketState};
use crate::order_tags::{
    algo_name, algo_param_texts, build_algo_tags, build_condition_strings, condition_strings, condition_texts,
    condition_blocks, fix_side, side_text, texts, AlgoParams, OrderCondition, Side,
};
use crate::text::{format_price, i64_text, int_text, nat_text, price_text, u64_text};
use crate::types::InstrumentId;

verus! {

/// Order type of a pegged-to-benchmark order in an order record.
pub const ORD_PEG_BENCH: u8 = 0x62;
/// Order type of a what-if (margin preview) order in an order record.
pub const ORD_WHAT_IF: u8 = 0x77;
/// Order type of a stop-with-protection order in an order record.
pub const ORD_STP_PRT: u8 = 0x73;
/// Order type of a mid-price order in an order record.
pub const ORD_MIDPX: u8 = 0x6D;
/// Order type of a snap-to-market order in an order record.
pub const ORD_SNAP_MKT: u8 = 0x6B;
/// Order type of a snap-to-midpoint order in an order record.
pub const ORD_SNAP_MID: u8 = 0x64;
/// Order type of a snap-to-primary order in an order record.
pub const ORD_SNAP_PRI: u8 = 0x72;
/// Order type of a pegged-to-market order in an order record.
pub const ORD_PEG_MKT: u8 = 0x65;
/// Order type of a pegged-to-midpoint order in an order record.
pub const ORD_PEG_MID: u8 = 0x70;

/// What the engine records of a submitted order.
#[derive(Clone, Copy, Debug, PartialEq, Eq, Structural)]
pub struct Order {
    pub order_id: u64,
    pub instrument: InstrumentId,
    pub side: Side,
    pub qty: i64,
    pub price: i64,
    /// FIX order type byte (tag 40), or one of the `ORD_*` bytes.
    pub ord_type: u8,
    /// FIX time-in-force byte (tag 59).
    pub tif: u8,
    pub stop_price: i64,
}

/// Urgency of the Adaptive algo.
#[derive(Clone, Copy, Debug, PartialEq, Eq, Structural)]
pub enum AdaptivePriority {
    Urgent,
    Normal,
    Patient,
}

/// Wire text of an adaptive priority.
pub open spec fn priority_text(p: AdaptivePriority) -> Seq<char> {
    match p {
        AdaptivePriority::Urgent => "Urgent"@,
        AdaptivePriority::Normal => "Normal"@,
        AdaptivePriority::Patient => "Patient"@,
    }
}

impl AdaptivePriority {
    /// Wire text of the priority.
    pub fn as_str(&self) -> (s: &'static str)
        ensures
            s@ == priority_text(*self),
    {
        match self {
            AdaptivePriority::Urgent => "Urgent",
            AdaptivePriority::Normal => "Normal",
            AdaptivePriority::Patient => "Patient",
        }
    }
}

/// The order type an adjustable stop turns into once triggered.
#[derive(Clone, Copy, Debug, PartialEq, Eq, Structural)]
pub enum AdjustedOrderType {
    Stop,
    StopLimit,
    TrailingStop,
    TrailingStopLimit,
}

/// FIX order-type code of an adjusted order type (trailing stops share "P").
pub open spec fn adjusted_code(t: AdjustedOrderType) -> Seq<char> {
    match t {
        AdjustedOrderType::Stop => "3"@,
        AdjustedOrderType::StopLimit => "4"@,
        AdjustedOrderType::TrailingStop => "P"@,
        AdjustedOrderType::TrailingStopLimit => "P"@,
    }
}

impl AdjustedOrderType {
    /// FIX order-type code of the adjusted order type.
    pub fn fix_code(&self) -> (s: &'static str)
        ensures
            s@ == adjusted_code(*self),
    {
        match self {
            AdjustedOrderType::Stop => "3",
            AdjustedOrderType::StopLimit => "4",
            AdjustedOrderType::TrailingStop => "P",
            AdjustedOrderType::TrailingStopLimit => "P",
        }
    }
}

/// Optional attributes of an extended limit order. Good-after and good-till
/// times are carried in IB's date-time text, when set.
#[derive(Clone, Debug)]
pub struct OrderAttrs {
    pub display_size: u64,
    pub min_qty: u64,
    pub outside_rth: bool,
    pub hidden: bool,
    pub good_after: Option<String>,
    pub good_till: Option<String>,
    pub oca_group: u64,
    pub discretionary_amt: i64,
    pub sweep_to_fill: bool,
    pub all_or_none: bool,
    pub trigger_method: u64,
    pub cash_qty: i64,
    pub conditions: Vec<OrderCondition>,
    pub conditions_cancel_order: bool,
    pub conditions_ignore_rth: bool,
}

/// A request from the API to the order path. Prices are fixed-point
/// (`PRICE_SCALE`); the quantity of a fractional order is fixed-point too.
#[derive(Clone, Debug)]
pub enum OrderRequest {
    SubmitLimit { order_id: u64, instrument: InstrumentId, side: Side, qty: i64, price: i64 },
    SubmitStopLimit { order_id: u64, instrument: InstrumentId, side: Side, qty: i64, price: i64, stop_price: i64 },
    SubmitLimitGtc { order_id: u64, instrument: InstrumentId, side: Side, qty: i64, price: i64, outside_rth: bool },
    SubmitLimitEx { order_id: u64, instrument: InstrumentId, side: Side, qty: i64, price: i64, tif: u8, attrs: OrderAttrs },
    SubmitMarket { order_id: u64, instrument: InstrumentId, side: Side, qty: i64 },
    SubmitStop { order_id: u64, instrument: InstrumentId, side: Side, qty: i64, stop_price: i64 },
    SubmitStopGtc { order_id: u64, instrument: InstrumentId, side: Side, qty: i64, stop_price: i64, outside_rth: bool },
    SubmitStopLimitGtc {
        order_id: u64,
        instrument: InstrumentId,
        side: Side,
        qty: i64,
        price: i64,
        stop_price: i64,
        outside_rth: bool,
    },
    SubmitLimitIoc { order_id: u64, instrument: InstrumentId, side: Side, qty: i64, price: i64 },
    SubmitLimitFok { order_id: u64, instrument: InstrumentId, side: Side, qty: i64, price: i64 },
    SubmitTrailingStop { order_id: u64, instrument: InstrumentId, side: Side, qty: i64, trail_amt: i64 },
    SubmitTrailingStopLimit { order_id: u64, instrument: InstrumentId, side: Side, qty: i64, price: i64, trail_amt: i64 },
    /// `trail_pct` is in basis points (100 = 1%).
    SubmitTrailingStopPct { order_id: u64, instrument: InstrumentId, side: Side, qty: i64, trail_pct: u64 },
    SubmitMoc { order_id: u64, instrument: InstrumentId, side: Side, qty: i64 },
    SubmitLoc { order_id: u64, instrument: InstrumentId, side: Side, qty: i64, price: i64 },
    SubmitMit { order_id: u64, instrument: InstrumentId, side: Side, qty: i64, stop_price: i64 },
    SubmitLit { order_id: u64, instrument: InstrumentId, side: Side, qty: i64, price: i64, stop_price: i64 },
    SubmitBracket {
        parent_id: u64,
        tp_id: u64,
        sl_id: u64,
        instrument: InstrumentId,
        side: Side,
        qty: i64,
        entry_price: i64,
        take_profit: i64,
        stop_loss: i64,
    },
    SubmitRel { order_id: u64, instrument: InstrumentId, side: Side, qty: i64, offset: i64 },
    SubmitLimitOpg { order_id: u64, instrument: InstrumentId, side: Side, qty: i64, price: i64 },
    SubmitAdaptive { order_id: u64, instrument: InstrumentId, side: Side, qty: i64, price: i64, priority: AdaptivePriority },
    SubmitAlgo { order_id: u64, instrument: InstrumentId, side: Side, qty: i64, price: i64, algo: AlgoParams },
    SubmitPegBench {
        order_id: u64,
        instrument: InstrumentId,
        side: Side,
        qty: i64,
        price: i64,
        ref_con_id: i64,
        is_peg_decrease: bool,
        pegged_change_amount: i64,
        ref_change_amount: i64,
    },
    SubmitLimitAuc { order_id: u64, instrument: InstrumentId, side: Side, qty: i64, price: i64 },
    SubmitMtlAuc { order_id: u64, instrument: InstrumentId, side: Side, qty: i64 },
    SubmitWhatIf { order_id: u64, instrument: InstrumentId, side: Side, qty: i64, price: i64 },
    SubmitLimitFractional { order_id: u64, instrument: InstrumentId, side: Side, qty: i64, price: i64 },
    SubmitAdjustableStop {
        order_id: u64,
        instrument: InstrumentId,
        side: Side,
        qty: i64,
        stop_price: i64,
        trigger_price: i64,
        adjusted_order_type: AdjustedOrderType,
        adjusted_stop_price: i64,
        adjusted_stop_limit_price: i64,
    },
    SubmitMtl { order_id: u64, instrument: InstrumentId, side: Side, qty: i64 },
    SubmitMktPrt { order_id: u64, instrument: InstrumentId, side: Side, qty: i64 },
    SubmitStpPrt { order_id: u64, instrument: InstrumentId, side: Side, qty: i64, stop_price: i64 },
    SubmitMidPrice { order_id: u64, instrument: InstrumentId, side: Side, qty: i64, price_cap: i64 },
    SubmitSnapMkt { order_id: u64, instrument: InstrumentId, side: Side, qty: i64 },
    SubmitSnapMid { order_id: u64, instrument: InstrumentId, side: Side, qty: i64 },
    SubmitSnapPri { order_id: u64, instrument: InstrumentId, side: Side, qty: i64 },
    SubmitPegMkt { order_id: u64, instrument: InstrumentId, side: Side, qty: i64, offset: i64 },
    SubmitPegMid { order_id: u64, instrument: InstrumentId, side: Side, qty: i64, offset: i64 },
    Cancel { order_id: u64 },
    CancelAll { instrument: InstrumentId },
    Modify { new_order_id: u64, order_id: u64, price: i64, qty: i64 },
}

/// Whether a request submits new orders (every kind but cancels and replaces).
pub open spec fn is_submit(req: OrderRequest) -> bool {
    !(req is Cancel || req is CancelAll || req is Modify)
}

/// The exit side of a bracket: a buy exits by selling, a sell or short sale by buying.
pub open spec fn exit_side(side: Side) -> Side {
    match side {
        Side::Buy => Side::Sell,
        _ => Side::Buy,
    }
}

/// The fields common to every new order before its type-specific ones.
pub open spec fn order_head(clord: Seq<char>, account: Seq<char>, symbol: Seq<char>, side: Side, qty: Seq<char>, now: Seq<char>) -> Seq<(u32, Seq<char>)> {
    seq![
        (35, "D"@), (52, now), (11, clord), (1, account), (21, "2"@), (55, symbol), (54, side_text(side)), (38, qty),
    ]
}

/// The fields common to every new order after its type-specific ones.
pub open spec fn order_tail(now: Seq<char>, exchange: Seq<char>) -> Seq<(u32, Seq<char>)> {
    seq![(60, now), (167, "STK"@), (100, exchange), (15, "USD"@), (204, "0"@)]
}

/// A new order (35=D): head, type-specific fields, tail, then extra fields.
pub open spec fn new_order(
    order_id: u64,
    account: Seq<char>,
    symbol: Seq<char>,
    side: Side,
    qty: Seq<char>,
    now: Seq<char>,
    body: Seq<(u32, Seq<char>)>,
    exchange: Seq<char>,
    extras: Seq<(u32, Seq<char>)>,
) -> Seq<(u32, Seq<char>)> {
    order_head(nat_text(order_id as nat), account, symbol, side, qty, now) + body + order_tail(now, exchange) + extras
}

/// The symbol the order path sends for an instrument ("?" when it has none).
pub open spec fn symbol_text(symbols: Seq<(InstrumentId, Seq<char>)>, id: InstrumentId) -> Seq<char> {
    match lookup(symbols, id) {
        Some(sym) => sym,
        None => "?"@,
    }
}

/// `s` when `b` holds, else nothing.
pub open spec fn when(b: bool, s: Seq<(u32, Seq<char>)>) -> Seq<(u32, Seq<char>)> {
    if b {
        s
    } else {
        Seq::empty()
    }
}

/// The tag of the `k`-th string of a condition (condType, conjunction,
/// operator, conId, exchange, triggerMethod, price, time, percent, volume,
/// execution).
pub open spec fn condition_tag(k: int) -> u32 {
    if k == 0 {
        6222
    } else if k == 1 {
        6137
    } else if k == 2 {
        6126
    } else if k == 3 {
        6123
    } else if k == 4 {
        6124
    } else if k == 5 {
        6127
    } else if k == 6 {
        6125
    } else if k == 7 {
        6223
    } else if k == 8 {
        6245
    } else if k == 9 {
        6263
    } else {
        6246
    }
}

/// The per-condition fields: 11 tagged strings per condition.
pub open spec fn condition_fields(conds: Seq<OrderCondition>) -> Seq<(u32, Seq<char>)> {
    Seq::new(11 * conds.len(), |j: int| (condition_tag(j % 11), condition_strings(conds)[1 + j]))
}

/// The first extra fields of an extended limit order: display size,
/// minimum quantity, outside regular hours, hidden, good-after, good-till.
pub open spec fn visibility_extras(a: OrderAttrs) -> Seq<(u32, Seq<char>)> {
    when(a.display_size > 0, seq![(111, nat_text(a.display_size as nat))])
        + when(a.min_qty > 0, seq![(110, nat_text(a.min_qty as nat))])
        + when(a.outside_rth, seq![(6433, "1"@)])
        + when(a.hidden, seq![(6135, "1"@)])
        + (match a.good_after { Some(t) => seq![(168, t@)], None => Seq::empty() })
        + (match a.good_till { Some(t) => seq![(126, t@)], None => Seq::empty() })
}

/// The next extra fields of an extended limit order: OCA group,
/// discretionary amount, sweep-to-fill, all-or-none, trigger method, cash quantity.
pub open spec fn execution_extras(a: OrderAttrs) -> Seq<(u32, Seq<char>)> {
    when(a.oca_group > 0, seq![(583, "OCA_"@ + nat_text(a.oca_group as nat)), (6209, "CancelOnFillWBlock"@)])
        + when(a.discretionary_amt > 0, seq![(9813, price_text(a.discretionary_amt as int))])
        + when(a.sweep_to_fill, seq![(6102, "1"@)])
        + when(a.all_or_none, seq![(18, "G"@)])
        + when(a.trigger_method > 0, seq![(6115, nat_text(a.trigger_method as nat))])
        + when(a.cash_qty > 0, seq![(5920, price_text(a.cash_qty as int))])
}

/// The condition fields of an order: none without conditions; else the
/// count, the cancel-order and ignore-RTH flags when set, and 11 tagged
/// strings per condition.
pub open spec fn condition_extras(conds: Seq<OrderCondition>, cancel_order: bool, ignore_rth: bool) -> Seq<(u32, Seq<char>)> {
    when(conds.len() > 0, seq![(6136, nat_text(conds.len()))]
        + when(cancel_order, seq![(6128, "1"@)])
        + when(ignore_rth, seq![(6151, "1"@)])
        + condition_fields(conds))
}

/// The extra fields of an extended limit order, in the order they are sent.
pub open spec fn limit_ex_extras(a: OrderAttrs) -> Seq<(u32, Seq<char>)> {
    visibility_extras(a) + execution_extras(a)
        + condition_extras(a.conditions@, a.conditions_cancel_order, a.conditions_ignore_rth)
}

/// The maximum-percentage-of-volume text of an algo (tag 849), empty for
/// algos without one.
pub open spec fn algo_pct_text(algo: AlgoParams) -> Seq<char> {
    match algo {
        AlgoParams::Vwap { max_pct_vol, .. } => max_pct_vol@,
        AlgoParams::ArrivalPx { max_pct_vol, .. } => max_pct_vol@,
        AlgoParams::ClosePx { max_pct_vol, .. } => max_pct_vol@,
        _ => Seq::empty(),
    }
}

/// The parameter fields of an algo: alternating 5958 (key) and 5960 (value).
pub open spec fn algo_param_fields(p: Seq<Seq<char>>) -> Seq<(u32, Seq<char>)> {
    Seq::new(p.len(), |j: int| (if j % 2 == 0 { 5958u32 } else { 5960u32 }, p[j]))
}

/// The extra fields of an algo order.
pub open spec fn algo_extras(algo: AlgoParams) -> Seq<(u32, Seq<char>)> {
    let p = algo_param_texts(algo);
    seq![(847, algo_name(algo))]
        + when(algo_pct_text(algo).len() > 0, seq![(849, algo_pct_text(algo))])
        + seq![(5957, nat_text(p.len() / 2))]
        + algo_param_fields(p)
}

/// The messages that submit a request for an instrument whose symbol is
/// `sym` (one per order; three for a bracket).
pub open spec fn submit_fields_with(req: OrderRequest, account: Seq<char>, sym: Seq<char>, now: Seq<char>) -> Seq<Seq<(u32, Seq<char>)>> {
    let e = Seq::<(u32, Seq<char>)>::empty();
    let smart = "SMART"@;
    let island = "ISLAND"@;
    match req {
        OrderRequest::SubmitLimit { order_id, instrument, side, qty, price } => seq![new_order(order_id, account, sym, side, int_text(qty as int), now,
            seq![(40, "2"@), (44, price_text(price as int)), (59, "0"@)], smart, e)],
        OrderRequest::SubmitStopLimit { order_id, instrument, side, qty, price, stop_price } => seq![new_order(order_id, account, sym, side, int_text(qty as int), now,
            seq![(40, "4"@), (44, price_text(price as int)), (99, price_text(stop_price as int)), (59, "0"@)], smart, e)],
        OrderRequest::SubmitLimitGtc { order_id, instrument, side, qty, price, outside_rth } => seq![new_order(order_id, account, sym, side, int_text(qty as int), now,
            seq![(40, "2"@), (44, price_text(price as int)), (59, "1"@)], smart, when(outside_rth, seq![(6433, "1"@)]))],
        OrderRequest::SubmitLimitEx { order_id, instrument, side, qty, price, tif, attrs } => seq![new_order(order_id, account, sym, side, int_text(qty as int), now,
            seq![(40, "2"@), (44, price_text(price as int)), (59, tif_text(tif))], smart, limit_ex_extras(attrs))],
        OrderRequest::SubmitMarket { order_id, instrument, side, qty } => seq![new_order(order_id, account, sym, side, int_text(qty as int), now,
            seq![(40, "1"@), (59, "0"@)], smart, e)],
        OrderRequest::SubmitStop { order_id, instrument, side, qty, stop_price } => seq![new_order(order_id, account, sym, side, int_text(qty as int), now,
            seq![(40, "3"@), (99, price_text(stop_price as int)), (59, "0"@)], smart, e)],
        OrderRequest::SubmitStopGtc { order_id, instrument, side, qty, stop_price, outside_rth } => seq![new_order(order_id, account, sym, side, int_text(qty as int), now,
            seq![(40, "3"@), (99, price_text(stop_price as int)), (59, "1"@)], smart, when(outside_rth, seq![(6433, "1"@)]))],
        OrderRequest::SubmitStopLimitGtc { order_id, instrument, side, qty, price, stop_price, outside_rth } => seq![new_order(order_id, account, sym, side, int_text(qty as int), now,
            seq![(40, "4"@), (44, price_text(price as int)), (99, price_text(stop_price as int)), (59, "1"@)], smart, when(outside_rth, seq![(6433, "1"@)]))],
        OrderRequest::SubmitLimitIoc { order_id, instrument, side, qty, price } => seq![new_order(order_id, account, sym, side, int_text(qty as int), now,
            seq![(40, "2"@), (44, price_text(price as int)), (59, "3"@)], smart, e)],
        OrderRequest::SubmitLimitFok { order_id, instrument, side, qty, price } => seq![new_order(order_id, account, sym, side, int_text(qty as int), now,
            seq![(40, "2"@), (44, price_text(price as int)), (59, "4"@)], smart, e)],
        OrderRequest::SubmitTrailingStop { order_id, instrument, side, qty, trail_amt } => seq![new_order(order_id, account, sym, side, int_text(qty as int), now,
            seq![(40, "P"@), (99, price_text(trail_amt as int)), (59, "0"@)], smart, e)],
        OrderRequest::SubmitTrailingStopLimit { order_id, instrument, side, qty, price, trail_amt } => seq![new_order(order_id, account, sym, side, int_text(qty as int), now,
            seq![(40, "P"@), (44, price_text(price as int)), (99, price_text(trail_amt as int)), (59, "0"@)], smart, e)],
        OrderRequest::SubmitTrailingStopPct { order_id, instrument, side, qty, trail_pct } => seq![new_order(order_id, account, sym, side, int_text(qty as int), now,
            seq![(40, "P"@), (6268, nat_text(trail_pct as nat)), (59, "0"@)], smart, e)],
        OrderRequest::SubmitMoc { order_id, instrument, side, qty } => seq![new_order(order_id, account, sym, side, int_text(qty as int), now,
            seq![(40, "5"@), (59, "0"@)], smart, e)],
        OrderRequest::SubmitLoc { order_id, instrument, side, qty, price } => seq![new_order(order_id, account, sym, side, int_text(qty as int), now,
            seq![(40, "B"@), (44, price_text(price as int)), (59, "0"@)], smart, e)],
        OrderRequest::SubmitMit { order_id, instrument, side, qty, stop_price } => seq![new_order(order_id, account, sym, side, int_text(qty as int), now,
            seq![(40, "J"@), (99, price_text(stop_price as int)), (59, "0"@)], smart, e)],
        OrderRequest::SubmitLit { order_id, instrument, side, qty, price, stop_price } => seq![new_order(order_id, account, sym, side, int_text(qty as int), now,
            seq![(40, "K"@), (44, price_text(price as int)), (99, price_text(stop_price as int)), (59, "0"@)], smart, e)],
        OrderRequest::SubmitBracket { parent_id, tp_id, sl_id, instrument, side, qty, entry_price, take_profit, stop_loss } => {
            let q = int_text(qty as int);
            let link = seq![(6107, nat_text(parent_id as nat)), (583, "OCA_"@ + nat_text(parent_id as nat)), (6209, "CancelOnFillWBlock"@)];
            seq![
                new_order(parent_id, account, sym, side, q, now, seq![(40, "2"@), (44, price_text(entry_price as int)), (59, "0"@)], smart, e),
                new_order(tp_id, account, sym, exit_side(side), q, now, seq![(40, "2"@), (44, price_text(take_profit as int)), (59, "1"@)], smart, link),
                new_order(sl_id, account, sym, exit_side(side), q, now, seq![(40, "3"@), (99, price_text(stop_loss as int)), (59, "1"@)], smart, link),
            ]
        },
        OrderRequest::SubmitRel { order_id, instrument, side, qty, offset } => seq![new_order(order_id, account, sym, side, int_text(qty as int), now,
            seq![(40, "R"@), (99, price_text(offset as int)), (59, "0"@)], smart, e)],
        OrderRequest::SubmitLimitOpg { order_id, instrument, side, qty, price } => seq![new_order(order_id, account, sym, side, int_text(qty as int), now,
            seq![(40, "2"@), (44, price_text(price as int)), (59, "2"@)], smart, e)],
        OrderRequest::SubmitAdaptive { order_id, instrument, side, qty, price, priority } => seq![new_order(order_id, account, sym, side, int_text(qty as int), now,
            seq![(40, "2"@), (44, price_text(price as int)), (59, "0"@)], smart,
            seq![(847, "Adaptive"@), (5957, "1"@), (5958, "adaptivePriority"@), (5960, priority_text(priority))])],
        OrderRequest::SubmitAlgo { order_id, instrument, side, qty, price, algo } => seq![new_order(order_id, account, sym, side, int_text(qty as int), now,
            seq![(40, "2"@), (44, price_text(price as int)), (59, "0"@)], smart, algo_extras(algo))],
        OrderRequest::SubmitPegBench { order_id, instrument, side, qty, price, ref_con_id, is_peg_decrease, pegged_change_amount, ref_change_amount } =>
            seq![new_order(order_id, account, sym, side, int_text(qty as int), now,
            seq![(40, "PB"@), (44, price_text(price as int)), (59, "0"@)], smart,
            seq![(6941, int_text(ref_con_id as int)), (6938, if is_peg_decrease { "1"@ } else { "0"@ }),
                (6939, price_text(pegged_change_amount as int)), (6942, price_text(ref_change_amount as int))])],
        OrderRequest::SubmitLimitAuc { order_id, instrument, side, qty, price } => seq![new_order(order_id, account, sym, side, int_text(qty as int), now,
            seq![(40, "2"@), (44, price_text(price as int)), (59, "8"@)], smart, e)],
        OrderRequest::SubmitMtlAuc { order_id, instrument, side, qty } => seq![new_order(order_id, account, sym, side, int_text(qty as int), now,
            seq![(40, "K"@), (59, "8"@)], smart, e)],
        OrderRequest::SubmitWhatIf { order_id, instrument, side, qty, price } => seq![new_order(order_id, account, sym, side, int_text(qty as int), now,
            seq![(40, "2"@), (44, price_text(price as int)), (59, "0"@)], smart, seq![(6091, "1"@)])],
        OrderRequest::SubmitLimitFractional { order_id, instrument, side, qty, price } => seq![new_order(order_id, account, sym, side, price_text(qty as int), now,
            seq![(40, "2"@), (44, price_text(price as int)), (59, "0"@)], smart, e)],
        OrderRequest::SubmitAdjustableStop { order_id, instrument, side, qty, stop_price, trigger_price, adjusted_order_type, adjusted_stop_price, adjusted_stop_limit_price } =>
            seq![new_order(order_id, account, sym, side, int_text(qty as int), now,
            seq![(40, "3"@), (99, price_text(stop_price as int)), (59, "0"@)], smart,
            seq![(6257, "1"@), (6261, adjusted_code(adjusted_order_type)), (6258, price_text(trigger_price as int)), (6259, price_text(adjusted_stop_price as int))]
                + when(adjusted_stop_limit_price > 0, seq![(6262, price_text(adjusted_stop_limit_price as int))]))],
        OrderRequest::SubmitMtl { order_id, instrument, side, qty } => seq![new_order(order_id, account, sym, side, int_text(qty as int), now,
            seq![(40, "K"@), (59, "0"@)], smart, e)],
        OrderRequest::SubmitMktPrt { order_id, instrument, side, qty } => seq![new_order(order_id, account, sym, side, int_text(qty as int), now,
            seq![(40, "U"@), (59, "0"@)], smart, e)],
        OrderRequest::SubmitStpPrt { order_id, instrument, side, qty, stop_price } => seq![new_order(order_id, account, sym, side, int_text(qty as int), now,
            seq![(40, "SP"@), (99, price_text(stop_price as int)), (59, "0"@)], smart, e)],
        OrderRequest::SubmitMidPrice { order_id, instrument, side, qty, price_cap } => seq![new_order(order_id, account, sym, side, int_text(qty as int), now,
            seq![(40, "MIDPX"@), (59, "0"@)], island, when(price_cap > 0, seq![(44, price_text(price_cap as int))]))],
        OrderRequest::SubmitSnapMkt { order_id, instrument, side, qty } => seq![new_order(order_id, account, sym, side, int_text(qty as int), now,
            seq![(40, "SMKT"@), (59, "0"@)], island, e)],
        OrderRequest::SubmitSnapMid { order_id, instrument, side, qty } => seq![new_order(order_id, account, sym, side, int_text(qty as int), now,
            seq![(40, "SMID"@), (59, "0"@)], island, e)],
        OrderRequest::SubmitSnapPri { order_id, instrument, side, qty } => seq![new_order(order_id, account, sym, side, int_text(qty as int), now,
            seq![(40, "SREL"@), (59, "0"@)], island, e)],
        OrderRequest::SubmitPegMkt { order_id, instrument, side, qty, offset } => seq![new_order(order_id, account, sym, side, int_text(qty as int), now,
            seq![(40, "E"@), (59, "0"@)], island, when(offset > 0, seq![(211, price_text(offset as int))]))],
        OrderRequest::SubmitPegMid { order_id, instrument, side, qty, offset } => seq![new_order(order_id, account, sym, side, int_text(qty as int), now,
            seq![(40, "E"@), (59, "0"@)], island, seq![(8403, "0.0"@), (8404, "0.0"@)] + when(offset > 0, seq![(211, price_text(offset as int))]))],
        _ => Seq::empty(),
    }
}

/// The instrument a request is about (0 for a cancel or replace, which name orders).
pub open spec fn req_instrument(req: OrderRequest) -> InstrumentId {
    match req {
        OrderRequest::SubmitLimit { instrument, .. } => instrument,
        OrderRequest::SubmitStopLimit { instrument, .. } => instrument,
        OrderRequest::SubmitLimitGtc { instrument, .. } => instrument,
        OrderRequest::SubmitLimitEx { instrument, .. } => instrument,
        OrderRequest::SubmitMarket { instrument, .. } => instrument,
        OrderRequest::SubmitStop { instrument, .. } => instrument,
        OrderRequest::SubmitStopGtc { instrument, .. } => instrument,
        OrderRequest::SubmitStopLimitGtc { instrument, .. } => instrument,
        OrderRequest::SubmitLimitIoc { instrument, .. } => instrument,
        OrderRequest::SubmitLimitFok { instrument, .. } => instrument,
        OrderRequest::SubmitTrailingStop { instrument, .. } => instrument,
        OrderRequest::SubmitTrailingStopLimit { instrument, .. } => instrument,
        OrderRequest::SubmitTrailingStopPct { instrument, .. } => instrument,
        OrderRequest::SubmitMoc { instrument, .. } => instrument,
        OrderRequest::SubmitLoc { instrument, .. } => instrument,
        OrderRequest::SubmitMit { instrument, .. } => instrument,
        OrderRequest::SubmitLit { instrument, .. } => instrument,
        OrderRequest::SubmitBracket { instrument, .. } => instrument,
        OrderRequest::SubmitRel { instrument, .. } => instrument,
        OrderRequest::SubmitLimitOpg { instrument, .. } => instrument,
        OrderRequest::SubmitAdaptive { instrument, .. } => instrument,
        OrderRequest::SubmitAlgo { instrument, .. } => instrument,
        OrderRequest::SubmitPegBench { instrument, .. } => instrument,
        OrderRequest::SubmitLimitAuc { instrument, .. } => instrument,
        OrderRequest::SubmitMtlAuc { instrument, .. } => instrument,
        OrderRequest::SubmitWhatIf { instrument, .. } => instrument,
        OrderRequest::SubmitLimitFractional { instrument, .. } => instrument,
        OrderRequest::SubmitAdjustableStop { instrument, .. } => instrument,
        OrderRequest::SubmitMtl { instrument, .. } => instrument,
        OrderRequest::SubmitMktPrt { instrument, .. } => instrument,
        OrderRequest::SubmitStpPrt { instrument, .. } => instrument,
        OrderRequest::SubmitMidPrice { instrument, .. } => instrument,
        OrderRequest::SubmitSnapMkt { instrument, .. } => instrument,
        OrderRequest::SubmitSnapMid { instrument, .. } => instrument,
        OrderRequest::SubmitSnapPri { instrument, .. } => instrument,
        OrderRequest::SubmitPegMkt { instrument, .. } => instrument,
        OrderRequest::SubmitPegMid { instrument, .. } => instrument,
        OrderRequest::CancelAll { instrument } => instrument,
        _ => 0,
    }
}

/// The messages that submit a request, the symbol taken from `symbols`.
pub open spec fn submit_fields(req: OrderRequest, account: Seq<char>, symbols: Seq<(InstrumentId, Seq<char>)>, now: Seq<char>) -> Seq<Seq<(u32, Seq<char>)>> {
    submit_fields_with(req, account, symbol_text(symbols, req_instrument(req)), now)
}

/// Whether the conditions of a request fit the machine (`11` strings each).
pub open spec fn conditions_fit(req: OrderRequest) -> bool {
    match req {
        OrderRequest::SubmitLimitEx { attrs, .. } => attrs.conditions@.len() <= usize::MAX / 11,
        _ => true,
    }
}

/// The order records a request submits, in the order they are made.
pub open spec fn submit_records(req: OrderRequest) -> Seq<Order> {
    match req {
        OrderRequest::SubmitLimit { order_id, instrument, side, qty, price } => seq![Order { order_id, instrument, side, qty, price, ord_type: 0x32, tif: 0x30, stop_price: 0 }],
        OrderRequest::SubmitStopLimit { order_id, instrument, side, qty, price, stop_price } => seq![Order { order_id, instrument, side, qty, price, ord_type: 0x34, tif: 0x30, stop_price }],
        OrderRequest::SubmitLimitGtc { order_id, instrument, side, qty, price, .. } => seq![Order { order_id, instrument, side, qty, price, ord_type: 0x32, tif: 0x31, stop_price: 0 }],
        OrderRequest::SubmitLimitEx { order_id, instrument, side, qty, price, tif, .. } => seq![Order { order_id, instrument, side, qty, price, ord_type: 0x32, tif, stop_price: 0 }],
        OrderRequest::SubmitMarket { order_id, instrument, side, qty } => seq![Order { order_id, instrument, side, qty, price: 0, ord_type: 0x31, tif: 0x30, stop_price: 0 }],
        OrderRequest::SubmitStop { order_id, instrument, side, qty, stop_price } => seq![Order { order_id, instrument, side, qty, price: stop_price, ord_type: 0x33, tif: 0x30, stop_price }],
        OrderRequest::SubmitStopGtc { order_id, instrument, side, qty, stop_price, .. } => seq![Order { order_id, instrument, side, qty, price: stop_price, ord_type: 0x33, tif: 0x31, stop_price }],
        OrderRequest::SubmitStopLimitGtc { order_id, instrument, side, qty, price, stop_price, .. } => seq![Order { order_id, instrument, side, qty, price, ord_type: 0x34, tif: 0x31, stop_price }],
        OrderRequest::SubmitLimitIoc { order_id, instrument, side, qty, price } => seq![Order { order_id, instrument, side, qty, price, ord_type: 0x32, tif: 0x33, stop_price: 0 }],
        OrderRequest::SubmitLimitFok { order_id, instrument, side, qty, price } => seq![Order { order_id, instrument, side, qty, price, ord_type: 0x32, tif: 0x34, stop_price: 0 }],
        OrderRequest::SubmitTrailingStop { order_id, instrument, side, qty, .. } => seq![Order { order_id, instrument, side, qty, price: 0, ord_type: 0x50, tif: 0x30, stop_price: 0 }],
        OrderRequest::SubmitTrailingStopLimit { order_id, instrument, side, qty, price, .. } => seq![Order { order_id, instrument, side, qty, price, ord_type: 0x50, tif: 0x30, stop_price: 0 }],
        OrderRequest::SubmitTrailingStopPct { order_id, instrument, side, qty, .. } => seq![Order { order_id, instrument, side, qty, price: 0, ord_type: 0x50, tif: 0x30, stop_price: 0 }],
        OrderRequest::SubmitMoc { order_id, instrument, side, qty } => seq![Order { order_id, instrument, side, qty, price: 0, ord_type: 0x35, tif: 0x30, stop_price: 0 }],
        OrderRequest::SubmitLoc { order_id, instrument, side, qty, price } => seq![Order { order_id, instrument, side, qty, price, ord_type: 0x42, tif: 0x30, stop_price: 0 }],
        OrderRequest::SubmitMit { order_id, instrument, side, qty, stop_price } => seq![Order { order_id, instrument, side, qty, price: stop_price, ord_type: 0x4A, tif: 0x30, stop_price }],
        OrderRequest::SubmitLit { order_id, instrument, side, qty, price, stop_price } => seq![Order { order_id, instrument, side, qty, price, ord_type: 0x4B, tif: 0x30, stop_price }],
        OrderRequest::SubmitBracket { parent_id, tp_id, sl_id, instrument, side, qty, entry_price, take_profit, stop_loss } => seq![
            Order { order_id: parent_id, instrument, side, qty, price: entry_price, ord_type: 0x32, tif: 0x30, stop_price: 0 },
            Order { order_id: tp_id, instrument, side: exit_side(side), qty, price: take_profit, ord_type: 0x32, tif: 0x31, stop_price: 0 },
            Order { order_id: sl_id, instrument, side: exit_side(side), qty, price: stop_loss, ord_type: 0x33, tif: 0x31, stop_price: stop_loss },
        ],
        OrderRequest::SubmitRel { order_id, instrument, side, qty, offset } => seq![Order { order_id, instrument, side, qty, price: 0, ord_type: 0x52, tif: 0x30, stop_price: offset }],
        OrderRequest::SubmitLimitOpg { order_id, instrument, side, qty, price } => seq![Order { order_id, instrument, side, qty, price, ord_type: 0x32, tif: 0x32, stop_price: 0 }],
        OrderRequest::SubmitAdaptive { order_id, instrument, side, qty, price, .. } => seq![Order { order_id, instrument, side, qty, price, ord_type: 0x32, tif: 0x30, stop_price: 0 }],
        OrderRequest::SubmitAlgo { order_id, instrument, side, qty, price, .. } => seq![Order { order_id, instrument, side, qty, price, ord_type: 0x32, tif: 0x30, stop_price: 0 }],
        OrderRequest::SubmitPegBench { order_id, instrument, side, qty, price, .. } => seq![Order { order_id, instrument, side, qty, price, ord_type: ORD_PEG_BENCH, tif: 0x30, stop_price: 0 }],
        OrderRequest::SubmitLimitAuc { order_id, instrument, side, qty, price } => seq![Order { order_id, instrument, side, qty, price, ord_type: 0x32, tif: 0x38, stop_price: 0 }],
        OrderRequest::SubmitMtlAuc { order_id, instrument, side, qty } => seq![Order { order_id, instrument, side, qty, price: 0, ord_type: 0x4B, tif: 0x38, stop_price: 0 }],
        OrderRequest::SubmitWhatIf { order_id, instrument, side, qty, price } => seq![Order { order_id, instrument, side, qty, price, ord_type: ORD_WHAT_IF, tif: 0x30, stop_price: 0 }],
        OrderRequest::SubmitLimitFractional { order_id, instrument, side, price, .. } => seq![Order { order_id, instrument, side, qty: 0, price, ord_type: 0x32, tif: 0x30, stop_price: 0 }],
        OrderRequest::SubmitAdjustableStop { order_id, instrument, side, qty, stop_price, .. } => seq![Order { order_id, instrument, side, qty, price: 0, ord_type: 0x33, tif: 0x30, stop_price }],
        OrderRequest::SubmitMtl { order_id, instrument, side, qty } => seq![Order { order_id, instrument, side, qty, price: 0, ord_type: 0x4B, tif: 0x30, stop_price: 0 }],
        OrderRequest::SubmitMktPrt { order_id, instrument, side, qty } => seq![Order { order_id, instrument, side, qty, price: 0, ord_type: 0x55, tif: 0x30, stop_price: 0 }],
        OrderRequest::SubmitStpPrt { order_id, instrument, side, qty, stop_price } => seq![Order { order_id, instrument, side, qty, price: 0, ord_type: ORD_STP_PRT, tif: 0x30, stop_price }],
        OrderRequest::SubmitMidPrice { order_id, instrument, side, qty, price_cap } => seq![Order { order_id, instrument, side, qty, price: price_cap, ord_type: ORD_MIDPX, tif: 0x30, stop_price: 0 }],
        OrderRequest::SubmitSnapMkt { order_id, instrument, side, qty } => seq![Order { order_id, instrument, side, qty, price: 0, ord_type: ORD_SNAP_MKT, tif: 0x30, stop_price: 0 }],
        OrderRequest::SubmitSnapMid { order_id, instrument, side, qty } => seq![Order { order_id, instrument, side, qty, price: 0, ord_type: ORD_SNAP_MID, tif: 0x30, stop_price: 0 }],
        OrderRequest::SubmitSnapPri { order_id, instrument, side, qty } => seq![Order { order_id, instrument, side, qty, price: 0, ord_type: ORD_SNAP_PRI, tif: 0x30, stop_price: 0 }],
        OrderRequest::SubmitPegMkt { order_id, instrument, side, qty, offset } => seq![Order { order_id, instrument, side, qty, price: 0, ord_type: ORD_PEG_MKT, tif: 0x30, stop_price: offset }],
        OrderRequest::SubmitPegMid { order_id, instrument, side, qty, offset } => seq![Order { order_id, instrument, side, qty, price: 0, ord_type: ORD_PEG_MID, tif: 0x30, stop_price: offset }],
        _ => Seq::empty(),
    }
}

/// Text of a time-in-force byte: its character when ASCII, else "0".
pub open spec fn tif_text(b: u8) -> Seq<char> {
    if b < 0x80 {
        seq![b as char]
    } else {
        "0"@
    }
}


/// `ToString::to_string` of a `char`: the text of that one character.
#[verifier::external_body]
fn char_text(c: char) -> (s: String)
    ensures
        s@ == seq![c],
{
    c.to_string()
}

/// Text of a time-in-force byte (see `tif_text`).
pub fn tif_str(b: u8) -> (s: String)
    ensures
        s@ == tif_text(b),
{
    if b < 0x80 {
        char_text(b as char)
    } else {
        "0".to_string()
    }
}

/// Appends the fields of `other`.
fn append_fields(v: &mut FixFields, other: FixFields)
    ensures
        fields_view(final(v)@) == fields_view(old(v)@) + fields_view(other@),
{
    let mut o = other;
    let ghost ov = o@;
    v.append(&mut o);
    assert(fields_view(v@) =~= fields_view(old(v)@) + fields_view(ov));
}

/// One message.
fn one(m: FixFields) -> (v: Vec<FixFields>)
    ensures
        messages_view(v@) == seq![fields_view(m@)],
{
    let ghost mv = fields_view(m@);
    let mut v: Vec<FixFields> = Vec::new();
    v.push(m);
    assert(messages_view(v@) =~= seq![mv]);
    v
}

/// A list of two fields.
fn fields2(t1: u32, v1: String, t2: u32, v2: String) -> (v: FixFields)
    ensures
        fields_view(v@) == seq![(t1, v1@), (t2, v2@)],
{
    let mut v = new_fields();
    push_field_string(&mut v, t1, v1);
    push_field_string(&mut v, t2, v2);
    assert(fields_view(v@) =~= seq![(t1, v1@), (t2, v2@)]);
    v
}

/// A list of three fields.
fn fields3(t1: u32, v1: String, t2: u32, v2: String, t3: u32, v3: String) -> (v: FixFields)
    ensures
        fields_view(v@) == seq![(t1, v1@), (t2, v2@), (t3, v3@)],
{
    let mut v = fields2(t1, v1, t2, v2);
    push_field_string(&mut v, t3, v3);
    assert(fields_view(v@) =~= seq![(t1, v1@), (t2, v2@), (t3, v3@)]);
    v
}

/// A list of four fields.
fn fields4(t1: u32, v1: String, t2: u32, v2: String, t3: u32, v3: String, t4: u32, v4: String) -> (v: FixFields)
    ensures
        fields_view(v@) == seq![(t1, v1@), (t2, v2@), (t3, v3@), (t4, v4@)],
{
    let mut v = fields3(t1, v1, t2, v2, t3, v3);
    push_field_string(&mut v, t4, v4);
    assert(fields_view(v@) =~= seq![(t1, v1@), (t2, v2@), (t3, v3@), (t4, v4@)]);
    v
}

/// One field when `b` holds, else none.
fn field_when(b: bool, tag: u32, value: String) -> (v: FixFields)
    ensures
        fields_view(v@) == when(b, seq![(tag, value@)]),
{
    let mut v = new_fields();
    if b {
        push_field_string(&mut v, tag, value);
        assert(fields_view(v@) =~= seq![(tag, value@)]);
    }
    v
}

fn s(t: &str) -> (r: String)
    ensures
        r@ == t@,
{
    t.to_string()
}

/// Builds a new order (see `new_order`).
fn new_order_msg(
    order_id: u64,
    account: &str,
    symbol: &str,
    side: Side,
    qty: String,
    now: &str,
    body: FixFields,
    exchange: &str,
    extras: FixFields,
) -> (v: FixFields)
    ensures
        fields_view(v@) == new_order(order_id, account@, symbol@, side, qty@, now@, fields_view(body@), exchange@, fields_view(extras@)),
{
    let mut v = new_fields();
    push_field(&mut v, 35, "D");
    push_field(&mut v, 52, now);
    push_field_string(&mut v, 11, u64_text(order_id));
    push_field(&mut v, 1, account);
    push_field(&mut v, 21, "2");
    push_field(&mut v, 55, symbol);
    push_field(&mut v, 54, fix_side(side));
    push_field_string(&mut v, 38, qty);
    append_fields(&mut v, body);
    push_field(&mut v, 60, now);
    push_field(&mut v, 167, "STK");
    push_field(&mut v, 100, exchange);
    push_field(&mut v, 15, "USD");
    push_field(&mut v, 204, "0");
    append_fields(&mut v, extras);
    assert(fields_view(v@) =~= new_order(order_id, account@, symbol@, side, qty@, now@, fields_view(body@), exchange@, fields_view(extras@)));
    v
}

/// Each condition contributes 11 strings.
proof fn lemma_condition_blocks_len(conds: Seq<OrderCondition>, k: nat)
    requires
        k <= conds.len(),
    ensures
        condition_blocks(conds, k).len() == 11 * k,
    decreases k,
{
    if k > 0 {
        lemma_condition_blocks_len(conds, (k - 1) as nat);
        let c = conds[k - 1];
        let last = k - 1 == conds.len() - 1;
        assert(condition_texts(c, last).len() == 11);
    }
}

fn condition_tag_exec(k: usize) -> (t: u32)
    requires
        k < 11,
    ensures
        t == condition_tag(k as int),
{
    if k == 0 {
        6222
    } else if k == 1 {
        6137
    } else if k == 2 {
        6126
    } else if k == 3 {
        6123
    } else if k == 4 {
        6124
    } else if k == 5 {
        6127
    } else if k == 6 {
        6125
    } else if k == 7 {
        6223
    } else if k == 8 {
        6245
    } else if k == 9 {
        6263
    } else {
        6246
    }
}

/// See `visibility_extras`.
fn visibility_extras_exec(a: &OrderAttrs) -> (v: FixFields)
    ensures
        fields_view(v@) == visibility_extras(*a),
{
    let mut v = field_when(a.display_size > 0, 111, u64_text(a.display_size));
    append_fields(&mut v, field_when(a.min_qty > 0, 110, u64_text(a.min_qty)));
    append_fields(&mut v, field_when(a.outside_rth, 6433, s("1")));
    append_fields(&mut v, field_when(a.hidden, 6135, s("1")));
    let ghost mid0 = fields_view(v@);
    match &a.good_after {
        Some(t) => push_field(&mut v, 168, t.as_str()),
        None => {},
    }
    let ghost mid1 = fields_view(v@);
    assert(mid1 =~= mid0 + (match a.good_after { Some(t) => seq![(168u32, t@)], None => Seq::empty() }));
    match &a.good_till {
        Some(t) => push_field(&mut v, 126, t.as_str()),
        None => {},
    }
    assert(fields_view(v@) =~= mid1 + (match a.good_till { Some(t) => seq![(126u32, t@)], None => Seq::empty() }));
    v
}

/// See `execution_extras`.
fn execution_extras_exec(a: &OrderAttrs) -> (v: FixFields)
    ensures
        fields_view(v@) == execution_extras(*a),
{
    let mut v = new_fields();
    if a.oca_group > 0 {
        let mut oca = s("OCA_");
        let g = u64_text(a.oca_group);
        oca.append(g.as_str());
        v = fields2(583, oca, 6209, s("CancelOnFillWBlock"));
    }
    append_fields(&mut v, field_when(a.discretionary_amt > 0, 9813, format_price(a.discretionary_amt)));
    append_fields(&mut v, field_when(a.sweep_to_fill, 6102, s("1")));
    append_fields(&mut v, field_when(a.all_or_none, 18, s("G")));
    append_fields(&mut v, field_when(a.trigger_method > 0, 6115, u64_text(a.trigger_method)));
    append_fields(&mut v, field_when(a.cash_qty > 0, 5920, format_price(a.cash_qty)));
    v
}

/// See `condition_extras`.
fn condition_extras_exec(conds: &Vec<OrderCondition>, cancel_order: bool, ignore_rth: bool) -> (v: FixFields)
    requires
        conds@.len() <= usize::MAX / 11,
    ensures
        fields_view(v@) == condition_extras(conds@, cancel_order, ignore_rth),
{
    let n = conds.len();
    if n == 0 {
        return new_fields();
    }
    let strs = build_condition_strings(conds.as_slice());
    proof {
        lemma_condition_blocks_len(conds@, n as nat);
        assert(texts(strs@).len() == strs@.len());
    }
    let mut c = new_fields();
    push_field_string(&mut c, 6136, u64_text(n as u64));
    append_fields(&mut c, field_when(cancel_order, 6128, s("1")));
    append_fields(&mut c, field_when(ignore_rth, 6151, s("1")));
    let ghost head = fields_view(c@);
    let total: usize = 11 * n;
    let mut j: usize = 0;
    assert(condition_fields(conds@).take(0) =~= Seq::<(u32, Seq<char>)>::empty());
    while j < total
        invariant
            total == 11 * n,
            n == conds@.len(),
            texts(strs@) == condition_strings(conds@),
            strs@.len() == 1 + total,
            j <= total,
            fields_view(c@) == head + condition_fields(conds@).take(j as int),
        decreases total - j,
    {
        let tag = condition_tag_exec(j % 11);
        proof {
            assert(texts(strs@)[1 + j] == strs@[1 + j]@);
        }
        push_field(&mut c, tag, strs[1 + j].as_str());
        proof {
            assert(condition_fields(conds@).take(j + 1) =~= condition_fields(conds@).take(j as int).push(
                (condition_tag((j % 11) as int), condition_strings(conds@)[1 + j])));
        }
        j = j + 1;
    }
    assert(condition_fields(conds@).take(total as int) =~= condition_fields(conds@));
    c
}

/// The extra fields of an extended limit order (see `limit_ex_extras`).
fn limit_ex_extras_exec(a: &OrderAttrs) -> (v: FixFields)
    requires
        a.conditions@.len() <= usize::MAX / 11,
    ensures
        fields_view(v@) == limit_ex_extras(*a),
{
    let mut v = visibility_extras_exec(a);
    append_fields(&mut v, execution_extras_exec(a));
    append_fields(&mut v, condition_extras_exec(&a.conditions, a.conditions_cancel_order, a.conditions_ignore_rth));
    v
}

/// The extra fields of an algo order (see `algo_extras`).
fn algo_extras_exec(algo: &AlgoParams) -> (v: FixFields)
    ensures
        fields_view(v@) == algo_extras(*algo),
{
    let (name, params) = build_algo_tags(algo);
    let mut v = new_fields();
    push_field(&mut v, 847, name);
    proof {
        reveal_strlit("");
    }
    let pct: &str = match algo {
        AlgoParams::Vwap { max_pct_vol, .. } => max_pct_vol.as_str(),
        AlgoParams::ArrivalPx { max_pct_vol, .. } => max_pct_vol.as_str(),
        AlgoParams::ClosePx { max_pct_vol, .. } => max_pct_vol.as_str(),
        _ => "",
    };
    assert(pct@ == algo_pct_text(*algo));
    if pct.unicode_len() > 0 {
        push_field(&mut v, 849, pct);
    }
    let n = params.len();
    push_field_string(&mut v, 5957, u64_text((n / 2) as u64));
    let ghost head = fields_view(v@);
    let ghost p = algo_param_texts(*algo);
    assert(head =~= seq![(847u32, algo_name(*algo))] + when(algo_pct_text(*algo).len() > 0, seq![(849u32, algo_pct_text(*algo))])
        + seq![(5957u32, nat_text(p.len() / 2))]);
    let mut j: usize = 0;
    while j < n
        invariant
            n == params@.len(),
            texts(params@) == p,
            j <= n,
            fields_view(v@) == head + algo_param_fields(p).take(j as int),
        decreases n - j,
    {
        let tag: u32 = if j % 2 == 0 { 5958 } else { 5960 };
        proof {
            assert(texts(params@)[j as int] == params@[j as int]@);
        }
        push_field(&mut v, tag, params[j].as_str());
        proof {
            assert(algo_param_fields(p).take(j + 1) =~= algo_param_fields(p).take(j as int).push((tag, p[j as int])));
        }
        j = j + 1;
    }
    assert(algo_param_fields(p).take(n as int) =~= algo_param_fields(p));
    v
}


/// Limit, stop and market orders with a plain time in force.
pub open spec fn basic_kind(req: OrderRequest) -> bool {
    ||| req is SubmitLimit
    ||| req is SubmitStopLimit
    ||| req is SubmitLimitGtc
    ||| req is SubmitLimitEx
    ||| req is SubmitMarket
    ||| req is SubmitStop
    ||| req is SubmitStopGtc
    ||| req is SubmitStopLimitGtc
    ||| req is SubmitLimitIoc
    ||| req is SubmitLimitFok
}

/// Trailing, touched, close, relative, bracket and algo orders.
pub open spec fn routed_kind(req: OrderRequest) -> bool {
    ||| req is SubmitTrailingStop
    ||| req is SubmitTrailingStopLimit
    ||| req is SubmitTrailingStopPct
    ||| req is SubmitMoc
    ||| req is SubmitLoc
    ||| req is SubmitMit
    ||| req is SubmitLit
    ||| req is SubmitBracket
    ||| req is SubmitRel
    ||| req is SubmitLimitOpg
    ||| req is SubmitAdaptive
    ||| req is SubmitAlgo
}

fn basic_messages(req: &OrderRequest, account: &str, sym: &str, now: &str) -> (msgs: Vec<FixFields>)
    requires
        basic_kind(*req),
        conditions_fit(*req),
    ensures
        messages_view(msgs@) == submit_fields_with(*req, account@, sym@, now@),
{
    match req {
        OrderRequest::SubmitLimit { order_id, side, qty, price, .. } => one(new_order_msg(*order_id, account, sym, *side, i64_text(*qty), now, 
            fields3(40, s("2"), 44, format_price(*price), 59, s("0")), "SMART", new_fields())),
        OrderRequest::SubmitStopLimit { order_id, side, qty, price, stop_price, .. } => one(new_order_msg(*order_id, account, sym, *side, i64_text(*qty), now, 
            fields4(40, s("4"), 44, format_price(*price), 99, format_price(*stop_price), 59, s("0")), "SMART", new_fields())),
        OrderRequest::SubmitLimitGtc { order_id, side, qty, price, outside_rth, .. } => one(new_order_msg(*order_id, account, sym, *side, i64_text(*qty), now, 
            fields3(40, s("2"), 44, format_price(*price), 59, s("1")), "SMART", field_when(*outside_rth, 6433, s("1")))),
        OrderRequest::SubmitLimitEx { order_id, side, qty, price, tif, attrs, .. } => one(new_order_msg(*order_id, account, sym, *side, i64_text(*qty), now, 
            fields3(40, s("2"), 44, format_price(*price), 59, tif_str(*tif)), "SMART", limit_ex_extras_exec(attrs))),
        OrderRequest::SubmitMarket { order_id, side, qty, .. } => one(new_order_msg(*order_id, account, sym, *side, i64_text(*qty), now, 
            fields2(40, s("1"), 59, s("0")), "SMART", new_fields())),
        OrderRequest::SubmitStop { order_id, side, qty, stop_price, .. } => one(new_order_msg(*order_id, account, sym, *side, i64_text(*qty), now, 
            fields3(40, s("3"), 99, format_price(*stop_price), 59, s("0")), "SMART", new_fields())),
        OrderRequest::SubmitStopGtc { order_id, side, qty, stop_price, outside_rth, .. } => one(new_order_msg(*order_id, account, sym, *side, i64_text(*qty), now, 
            fields3(40, s("3"), 99, format_price(*stop_price), 59, s("1")), "SMART", field_when(*outside_rth, 6433, s("1")))),
        OrderRequest::SubmitStopLimitGtc { order_id, side, qty, price, stop_price, outside_rth, .. } => one(new_order_msg(*order_id, account, sym, *side, i64_text(*qty), now, 
            fields4(40, s("4"), 44, format_price(*price), 99, format_price(*stop_price), 59, s("1")), "SMART",
            field_when(*outside_rth, 6433, s("1")))),
        OrderRequest::SubmitLimitIoc { order_id, side, qty, price, .. } => one(new_order_msg(*order_id, account, sym, *side, i64_text(*qty), now, 
            fields3(40, s("2"), 44, format_price(*price), 59, s("3")), "SMART", new_fields())),
        OrderRequest::SubmitLimitFok { order_id, side, qty, price, .. } => one(new_order_msg(*order_id, account, sym, *side, i64_text(*qty), now, 
            fields3(40, s("2"), 44, format_price(*price), 59, s("4")), "SMART", new_fields())),
        _ => Vec::new(),
    }
}

/// The three messages of a bracket: a limit entry, then a take-profit limit
/// and a stop-loss stop on the exit side, both GTC, children of the entry
/// and in one OCA group.
fn bracket_messages(
    parent_id: u64,
    tp_id: u64,
    sl_id: u64,
    side: Side,
    qty: i64,
    entry_price: i64,
    take_profit: i64,
    stop_loss: i64,
    account: &str,
    sym: &str,
    now: &str,
) -> (msgs: Vec<FixFields>)
    ensures
        messages_view(msgs@) == submit_fields_with(
            OrderRequest::SubmitBracket { parent_id, tp_id, sl_id, instrument: 0, side, qty, entry_price, take_profit, stop_loss },
            account@,
            sym@,
            now@,
        ),
{
    let exit = match side {
        Side::Buy => Side::Sell,
        _ => Side::Buy,
    };
    let mut oca = s("OCA_");
    let pt = u64_text(parent_id);
    oca.append(pt.as_str());
    let link_tp = fields3(6107, u64_text(parent_id), 583, oca.clone(), 6209, s("CancelOnFillWBlock"));
    let link_sl = fields3(6107, u64_text(parent_id), 583, oca, 6209, s("CancelOnFillWBlock"));
    let m1 = new_order_msg(parent_id, account, sym, side, i64_text(qty), now,
        fields3(40, s("2"), 44, format_price(entry_price), 59, s("0")), "SMART", new_fields());
    let m2 = new_order_msg(tp_id, account, sym, exit, i64_text(qty), now,
        fields3(40, s("2"), 44, format_price(take_profit), 59, s("1")), "SMART", link_tp);
    let m3 = new_order_msg(sl_id, account, sym, exit, i64_text(qty), now,
        fields3(40, s("3"), 99, format_price(stop_loss), 59, s("1")), "SMART", link_sl);
    let ghost v1 = fields_view(m1@);
    let ghost v2 = fields_view(m2@);
    let ghost v3 = fields_view(m3@);
    let mut v: Vec<FixFields> = Vec::new();
    v.push(m1);
    v.push(m2);
    v.push(m3);
    assert(messages_view(v@) =~= seq![v1, v2, v3]);
    v
}

#[verifier::rlimit(60)]
fn routed_messages(req: &OrderRequest, account: &str, sym: &str, now: &str) -> (msgs: Vec<FixFields>)
    requires
        routed_kind(*req),
    ensures
        messages_view(msgs@) == submit_fields_with(*req, account@, sym@, now@),
{
    match req {
        OrderRequest::SubmitTrailingStop { order_id, side, qty, trail_amt, .. } => one(new_order_msg(*order_id, account, sym, *side, i64_text(*qty), now, 
            fields3(40, s("P"), 99, format_price(*trail_amt), 59, s("0")), "SMART", new_fields())),
        OrderRequest::SubmitTrailingStopLimit { order_id, side, qty, price, trail_amt, .. } => one(new_order_msg(*order_id, account, sym, *side, i64_text(*qty), now, 
            fields4(40, s("P"), 44, format_price(*price), 99, format_price(*trail_amt), 59, s("0")), "SMART", new_fields())),
        OrderRequest::SubmitTrailingStopPct { order_id, side, qty, trail_pct, .. } => one(new_order_msg(*order_id, account, sym, *side, i64_text(*qty), now, 
            fields3(40, s("P"), 6268, u64_text(*trail_pct), 59, s("0")), "SMART", new_fields())),
        OrderRequest::SubmitMoc { order_id, side, qty, .. } => one(new_order_msg(*order_id, account, sym, *side, i64_text(*qty), now, 
            fields2(40, s("5"), 59, s("0")), "SMART", new_fields())),
        OrderRequest::SubmitLoc { order_id, side, qty, price, .. } => one(new_order_msg(*order_id, account, sym, *side, i64_text(*qty), now, 
            fields3(40, s("B"), 44, format_price(*price), 59, s("0")), "SMART", new_fields())),
        OrderRequest::SubmitMit { order_id, side, qty, stop_price, .. } => one(new_order_msg(*order_id, account, sym, *side, i64_text(*qty), now, 
            fields3(40, s("J"), 99, format_price(*stop_price), 59, s("0")), "SMART", new_fields())),
        OrderRequest::SubmitLit { order_id, side, qty, price, stop_price, .. } => one(new_order_msg(*order_id, account, sym, *side, i64_text(*qty), now, 
            fields4(40, s("K"), 44, format_price(*price), 99, format_price(*stop_price), 59, s("0")), "SMART", new_fields())),
        OrderRequest::SubmitBracket { parent_id, tp_id, sl_id, side, qty, entry_price, take_profit, stop_loss, .. } =>
            bracket_messages(*parent_id, *tp_id, *sl_id, *side, *qty, *entry_price, *take_profit, *stop_loss, account, sym, now),
        OrderRequest::SubmitRel { order_id, side, qty, offset, .. } => one(new_order_msg(*order_id, account, sym, *side, i64_text(*qty), now, 
            fields3(40, s("R"), 99, format_price(*offset), 59, s("0")), "SMART", new_fields())),
        OrderRequest::SubmitLimitOpg { order_id, side, qty, price, .. } => one(new_order_msg(*order_id, account, sym, *side, i64_text(*qty), now, 
            fields3(40, s("2"), 44, format_price(*price), 59, s("2")), "SMART", new_fields())),
        OrderRequest::SubmitAdaptive { order_id, side, qty, price, priority, .. } => one(new_order_msg(*order_id, account, sym, *side, i64_text(*qty), now, 
            fields3(40, s("2"), 44, format_price(*price), 59, s("0")), "SMART",
            fields4(847, s("Adaptive"), 5957, s("1"), 5958, s("adaptivePriority"), 5960, s(priority.as_str())))),
        OrderRequest::SubmitAlgo { order_id, side, qty, price, algo, .. } => one(new_order_msg(*order_id, account, sym, *side, i64_text(*qty), now, 
            fields3(40, s("2"), 44, format_price(*price), 59, s("0")), "SMART", algo_extras_exec(algo))),
        _ => Vec::new(),
    }
}

fn special_messages(req: &OrderRequest, account: &str, sym: &str, now: &str) -> (msgs: Vec<FixFields>)
    requires
        is_submit(*req),
        !basic_kind(*req),
        !routed_kind(*req),
    ensures
        messages_view(msgs@) == submit_fields_with(*req, account@, sym@, now@),
{
    match req {
        OrderRequest::SubmitPegBench { order_id, side, qty, price, ref_con_id, is_peg_decrease, pegged_change_amount, ref_change_amount, .. } => one(new_order_msg(*order_id, account, sym, *side, i64_text(*qty), now, 
            fields3(40, s("PB"), 44, format_price(*price), 59, s("0")), "SMART",
            fields4(6941, i64_text(*ref_con_id), 6938, s(if *is_peg_decrease { "1" } else { "0" }),
                6939, format_price(*pegged_change_amount), 6942, format_price(*ref_change_amount)))),
        OrderRequest::SubmitLimitAuc { order_id, side, qty, price, .. } => one(new_order_msg(*order_id, account, sym, *side, i64_text(*qty), now, 
            fields3(40, s("2"), 44, format_price(*price), 59, s("8")), "SMART", new_fields())),
        OrderRequest::SubmitMtlAuc { order_id, side, qty, .. } => one(new_order_msg(*order_id, account, sym, *side, i64_text(*qty), now, 
            fields2(40, s("K"), 59, s("8")), "SMART", new_fields())),
        OrderRequest::SubmitWhatIf { order_id, side, qty, price, .. } => one(new_order_msg(*order_id, account, sym, *side, i64_text(*qty), now, 
            fields3(40, s("2"), 44, format_price(*price), 59, s("0")), "SMART", field_when(true, 6091, s("1")))),
        OrderRequest::SubmitLimitFractional { order_id, side, qty, price, .. } =>
            one(new_order_msg(*order_id, account, sym, *side, format_price(*qty), now,
            fields3(40, s("2"), 44, format_price(*price), 59, s("0")), "SMART", new_fields())),
        OrderRequest::SubmitAdjustableStop { order_id, side, qty, stop_price, trigger_price, adjusted_order_type, adjusted_stop_price, adjusted_stop_limit_price, .. } => {
            let mut extras = fields4(6257, s("1"), 6261, s(adjusted_order_type.fix_code()), 6258, format_price(*trigger_price),
                6259, format_price(*adjusted_stop_price));
            append_fields(&mut extras, field_when(*adjusted_stop_limit_price > 0, 6262, format_price(*adjusted_stop_limit_price)));
            one(new_order_msg(*order_id, account, sym, *side, i64_text(*qty), now,  fields3(40, s("3"), 99, format_price(*stop_price), 59, s("0")), "SMART", extras))
        },
        OrderRequest::SubmitMtl { order_id, side, qty, .. } => one(new_order_msg(*order_id, account, sym, *side, i64_text(*qty), now, 
            fields2(40, s("K"), 59, s("0")), "SMART", new_fields())),
        OrderRequest::SubmitMktPrt { order_id, side, qty, .. } => one(new_order_msg(*order_id, account, sym, *side, i64_text(*qty), now, 
            fields2(40, s("U"), 59, s("0")), "SMART", new_fields())),
        OrderRequest::SubmitStpPrt { order_id, side, qty, stop_price, .. } => one(new_order_msg(*order_id, account, sym, *side, i64_text(*qty), now, 
            fields3(40, s("SP"), 99, format_price(*stop_price), 59, s("0")), "SMART", new_fields())),
        OrderRequest::SubmitMidPrice { order_id, side, qty, price_cap, .. } => one(new_order_msg(*order_id, account, sym, *side, i64_text(*qty), now, 
            fields2(40, s("MIDPX"), 59, s("0")), "ISLAND", field_when(*price_cap > 0, 44, format_price(*price_cap)))),
        OrderRequest::SubmitSnapMkt { order_id, side, qty, .. } => one(new_order_msg(*order_id, account, sym, *side, i64_text(*qty), now, 
            fields2(40, s("SMKT"), 59, s("0")), "ISLAND", new_fields())),
        OrderRequest::SubmitSnapMid { order_id, side, qty, .. } => one(new_order_msg(*order_id, account, sym, *side, i64_text(*qty), now, 
            fields2(40, s("SMID"), 59, s("0")), "ISLAND", new_fields())),
        OrderRequest::SubmitSnapPri { order_id, side, qty, .. } => one(new_order_msg(*order_id, account, sym, *side, i64_text(*qty), now, 
            fields2(40, s("SREL"), 59, s("0")), "ISLAND", new_fields())),
        OrderRequest::SubmitPegMkt { order_id, side, qty, offset, .. } => one(new_order_msg(*order_id, account, sym, *side, i64_text(*qty), now, 
            fields2(40, s("E"), 59, s("0")), "ISLAND", field_when(*offset > 0, 211, format_price(*offset)))),
        OrderRequest::SubmitPegMid { order_id, side, qty, offset, .. } => {
            let mut extras = fields2(8403, s("0.0"), 8404, s("0.0"));
            append_fields(&mut extras, field_when(*offset > 0, 211, format_price(*offset)));
            one(new_order_msg(*order_id, account, sym, *side, i64_text(*qty), now,  fields2(40, s("E"), 59, s("0")), "ISLAND", extras))
        },
        _ => Vec::new(),
    }
}

/// The instrument of a request (see `req_instrument`).
fn request_instrument(req: &OrderRequest) -> (i: InstrumentId)
    ensures
        i == req_instrument(*req),
{
    match req {
        OrderRequest::SubmitLimit { instrument, .. } => *instrument,
        OrderRequest::SubmitStopLimit { instrument, .. } => *instrument,
        OrderRequest::SubmitLimitGtc { instrument, .. } => *instrument,
        OrderRequest::SubmitLimitEx { instrument, .. } => *instrument,
        OrderRequest::SubmitMarket { instrument, .. } => *instrument,
        OrderRequest::SubmitStop { instrument, .. } => *instrument,
        OrderRequest::SubmitStopGtc { instrument, .. } => *instrument,
        OrderRequest::SubmitStopLimitGtc { instrument, .. } => *instrument,
        OrderRequest::SubmitLimitIoc { instrument, .. } => *instrument,
        OrderRequest::SubmitLimitFok { instrument, .. } => *instrument,
        OrderRequest::SubmitTrailingStop { instrument, .. } => *instrument,
        OrderRequest::SubmitTrailingStopLimit { instrument, .. } => *instrument,
        OrderRequest::SubmitTrailingStopPct { instrument, .. } => *instrument,
        OrderRequest::SubmitMoc { instrument, .. } => *instrument,
        OrderRequest::SubmitLoc { instrument, .. } => *instrument,
        OrderRequest::SubmitMit { instrument, .. } => *instrument,
        OrderRequest::SubmitLit { instrument, .. } => *instrument,
        OrderRequest::SubmitBracket { instrument, .. } => *instrument,
        OrderRequest::SubmitRel { instrument, .. } => *instrument,
        OrderRequest::SubmitLimitOpg { instrument, .. } => *instrument,
        OrderRequest::SubmitAdaptive { instrument, .. } => *instrument,
        OrderRequest::SubmitAlgo { instrument, .. } => *instrument,
        OrderRequest::SubmitPegBench { instrument, .. } => *instrument,
        OrderRequest::SubmitLimitAuc { instrument, .. } => *instrument,
        OrderRequest::SubmitMtlAuc { instrument, .. } => *instrument,
        OrderRequest::SubmitWhatIf { instrument, .. } => *instrument,
        OrderRequest::SubmitLimitFractional { instrument, .. } => *instrument,
        OrderRequest::SubmitAdjustableStop { instrument, .. } => *instrument,
        OrderRequest::SubmitMtl { instrument, .. } => *instrument,
        OrderRequest::SubmitMktPrt { instrument, .. } => *instrument,
        OrderRequest::SubmitStpPrt { instrument, .. } => *instrument,
        OrderRequest::SubmitMidPrice { instrument, .. } => *instrument,
        OrderRequest::SubmitSnapMkt { instrument, .. } => *instrument,
        OrderRequest::SubmitSnapMid { instrument, .. } => *instrument,
        OrderRequest::SubmitSnapPri { instrument, .. } => *instrument,
        OrderRequest::SubmitPegMkt { instrument, .. } => *instrument,
        OrderRequest::SubmitPegMid { instrument, .. } => *instrument,
        OrderRequest::CancelAll { instrument } => *instrument,
        _ => 0,
    }
}

/// The messages that submit a request (see `submit_fields`): each new order
/// carries the account, the instrument's symbol and the sending time `now`.
pub fn submit_messages(req: &OrderRequest, account: &str, market: &MarketState, now: &str) -> (msgs: Vec<FixFields>)
    requires
        market.wf(),
        is_submit(*req),
        conditions_fit(*req),
    ensures
        messages_view(msgs@) == submit_fields(*req, account@, market.symbols(), now@),
{
    let sym = market.symbol(request_instrument(req));
    if basic_matches(req) {
        basic_messages(req, account, sym, now)
    } else if routed_matches(req) {
        routed_messages(req, account, sym, now)
    } else {
        special_messages(req, account, sym, now)
    }
}

fn basic_matches(req: &OrderRequest) -> (b: bool)
    ensures
        b == basic_kind(*req),
{
    match req {
        OrderRequest::SubmitLimit { .. } | OrderRequest::SubmitStopLimit { .. } | OrderRequest::SubmitLimitGtc { .. }
        | OrderRequest::SubmitLimitEx { .. } | OrderRequest::SubmitMarket { .. } | OrderRequest::SubmitStop { .. }
        | OrderRequest::SubmitStopGtc { .. } | OrderRequest::SubmitStopLimitGtc { .. } | OrderRequest::SubmitLimitIoc { .. }
        | OrderRequest::SubmitLimitFok { .. } => true,
        _ => false,
    }
}

fn routed_matches(req: &OrderRequest) -> (b: bool)
    ensures
        b == routed_kind(*req),
{
    match req {
        OrderRequest::SubmitTrailingStop { .. } | OrderRequest::SubmitTrailingStopLimit { .. }
        | OrderRequest::SubmitTrailingStopPct { .. } | OrderRequest::SubmitMoc { .. } | OrderRequest::SubmitLoc { .. }
        | OrderRequest::SubmitMit { .. } | OrderRequest::SubmitLit { .. } | OrderRequest::SubmitBracket { .. }
        | OrderRequest::SubmitRel { .. } | OrderRequest::SubmitLimitOpg { .. } | OrderRequest::SubmitAdaptive { .. }
        | OrderRequest::SubmitAlgo { .. } => true,
        _ => false,
    }
}

/// The order records of a request (see `submit_records`).
pub fn request_records(req: &OrderRequest) -> (v: Vec<Order>)
    ensures
        v@ == submit_records(*req),
{
    let mut v: Vec<Order> = Vec::new();
    match req {
        OrderRequest::SubmitLimit { order_id, instrument, side, qty, price } =>
            v.push(Order { order_id: *order_id, instrument: *instrument, side: *side, qty: *qty, price: *price, ord_type: 0x32, tif: 0x30, stop_price: 0 }),
        OrderRequest::SubmitStopLimit { order_id, instrument, side, qty, price, stop_price } =>
            v.push(Order { order_id: *order_id, instrument: *instrument, side: *side, qty: *qty, price: *price, ord_type: 0x34, tif: 0x30, stop_price: *stop_price }),
        OrderRequest::SubmitLimitGtc { order_id, instrument, side, qty, price, .. } =>
            v.push(Order { order_id: *order_id, instrument: *instrument, side: *side, qty: *qty, price: *price, ord_type: 0x32, tif: 0x31, stop_price: 0 }),
        OrderRequest::SubmitLimitEx { order_id, instrument, side, qty, price, tif, .. } =>
            v.push(Order { order_id: *order_id, instrument: *instrument, side: *side, qty: *qty, price: *price, ord_type: 0x32, tif: *tif, stop_price: 0 }),
        OrderRequest::SubmitMarket { order_id, instrument, side, qty } =>
            v.push(Order { order_id: *order_id, instrument: *instrument, side: *side, qty: *qty, price: 0, ord_type: 0x31, tif: 0x30, stop_price: 0 }),
        OrderRequest::SubmitStop { order_id, instrument, side, qty, stop_price } =>
            v.push(Order { order_id: *order_id, instrument: *instrument, side: *side, qty: *qty, price: *stop_price, ord_type: 0x33, tif: 0x30, stop_price: *stop_price }),
        OrderRequest::SubmitStopGtc { order_id, instrument, side, qty, stop_price, .. } =>
            v.push(Order { order_id: *order_id, instrument: *instrument, side: *side, qty: *qty, price: *stop_price, ord_type: 0x33, tif: 0x31, stop_price: *stop_price }),
        OrderRequest::SubmitStopLimitGtc { order_id, instrument, side, qty, price, stop_price, .. } =>
            v.push(Order { order_id: *order_id, instrument: *instrument, side: *side, qty: *qty, price: *price, ord_type: 0x34, tif: 0x31, stop_price: *stop_price }),
        OrderRequest::SubmitLimitIoc { order_id, instrument, side, qty, price } =>
            v.push(Order { order_id: *order_id, instrument: *instrument, side: *side, qty: *qty, price: *price, ord_type: 0x32, tif: 0x33, stop_price: 0 }),
        OrderRequest::SubmitLimitFok { order_id, instrument, side, qty, price } =>
            v.push(Order { order_id: *order_id, instrument: *instrument, side: *side, qty: *qty, price: *price, ord_type: 0x32, tif: 0x34, stop_price: 0 }),
        OrderRequest::SubmitTrailingStop { order_id, instrument, side, qty, .. } =>
            v.push(Order { order_id: *order_id, instrument: *instrument, side: *side, qty: *qty, price: 0, ord_type: 0x50, tif: 0x30, stop_price: 0 }),
        OrderRequest::SubmitTrailingStopLimit { order_id, instrument, side, qty, price, .. } =>
            v.push(Order { order_id: *order_id, instrument: *instrument, side: *side, qty: *qty, price: *price, ord_type: 0x50, tif: 0x30, stop_price: 0 }),
        OrderRequest::SubmitTrailingStopPct { order_id, instrument, side, qty, .. } =>
            v.push(Order { order_id: *order_id, instrument: *instrument, side: *side, qty: *qty, price: 0, ord_type: 0x50, tif: 0x30, stop_price: 0 }),
        OrderRequest::SubmitMoc { order_id, instrument, side, qty } =>
            v.push(Order { order_id: *order_id, instrument: *instrument, side: *side, qty: *qty, price: 0, ord_type: 0x35, tif: 0x30, stop_price: 0 }),
        OrderRequest::SubmitLoc { order_id, instrument, side, qty, price } =>
            v.push(Order { order_id: *order_id, instrument: *instrument, side: *side, qty: *qty, price: *price, ord_type: 0x42, tif: 0x30, stop_price: 0 }),
        OrderRequest::SubmitMit { order_id, instrument, side, qty, stop_price } =>
            v.push(Order { order_id: *order_id, instrument: *instrument, side: *side, qty: *qty, price: *stop_price, ord_type: 0x4A, tif: 0x30, stop_price: *stop_price }),
        OrderRequest::SubmitLit { order_id, instrument, side, qty, price, stop_price } =>
            v.push(Order { order_id: *order_id, instrument: *instrument, side: *side, qty: *qty, price: *price, ord_type: 0x4B, tif: 0x30, stop_price: *stop_price }),
        OrderRequest::SubmitBracket { parent_id, tp_id, sl_id, instrument, side, qty, entry_price, take_profit, stop_loss } => {
            let exit = match side {
                Side::Buy => Side::Sell,
                _ => Side::Buy,
            };
            v.push(Order { order_id: *parent_id, instrument: *instrument, side: *side, qty: *qty, price: *entry_price, ord_type: 0x32, tif: 0x30, stop_price: 0 });
            v.push(Order { order_id: *tp_id, instrument: *instrument, side: exit, qty: *qty, price: *take_profit, ord_type: 0x32, tif: 0x31, stop_price: 0 });
            v.push(Order { order_id: *sl_id, instrument: *instrument, side: exit, qty: *qty, price: *stop_loss, ord_type: 0x33, tif: 0x31, stop_price: *stop_loss });
        },
        OrderRequest::SubmitRel { order_id, instrument, side, qty, offset } =>
            v.push(Order { order_id: *order_id, instrument: *instrument, side: *side, qty: *qty, price: 0, ord_type: 0x52, tif: 0x30, stop_price: *offset }),
        OrderRequest::SubmitLimitOpg { order_id, instrument, side, qty, price } =>
            v.push(Order { order_id: *order_id, instrument: *instrument, side: *side, qty: *qty, price: *price, ord_type: 0x32, tif: 0x32, stop_price: 0 }),
        OrderRequest::SubmitAdaptive { order_id, instrument, side, qty, price, .. } =>
            v.push(Order { order_id: *order_id, instrument: *instrument, side: *side, qty: *qty, price: *price, ord_type: 0x32, tif: 0x30, stop_price: 0 }),
        OrderRequest::SubmitAlgo { order_id, instrument, side, qty, price, .. } =>
            v.push(Order { order_id: *order_id, instrument: *instrument, side: *side, qty: *qty, price: *price, ord_type: 0x32, tif: 0x30, stop_price: 0 }),
        OrderRequest::SubmitPegBench { order_id, instrument, side, qty, price, .. } =>
            v.push(Order { order_id: *order_id, instrument: *instrument, side: *side, qty: *qty, price: *price, ord_type: ORD_PEG_BENCH, tif: 0x30, stop_price: 0 }),
        OrderRequest::SubmitLimitAuc { order_id, instrument, side, qty, price } =>
            v.push(Order { order_id: *order_id, instrument: *instrument, side: *side, qty: *qty, price: *price, ord_type: 0x32, tif: 0x38, stop_price: 0 }),
        OrderRequest::SubmitMtlAuc { order_id, instrument, side, qty } =>
            v.push(Order { order_id: *order_id, instrument: *instrument, side: *side, qty: *qty, price: 0, ord_type: 0x4B, tif: 0x38, stop_price: 0 }),
        OrderRequest::SubmitWhatIf { order_id, instrument, side, qty, price } =>
            v.push(Order { order_id: *order_id, instrument: *instrument, side: *side, qty: *qty, price: *price, ord_type: ORD_WHAT_IF, tif: 0x30, stop_price: 0 }),
        OrderRequest::SubmitLimitFractional { order_id, instrument, side, price, .. } =>
            v.push(Order { order_id: *order_id, instrument: *instrument, side: *side, qty: 0, price: *price, ord_type: 0x32, tif: 0x30, stop_price: 0 }),
        OrderRequest::SubmitAdjustableStop { order_id, instrument, side, qty, stop_price, .. } =>
            v.push(Order { order_id: *order_id, instrument: *instrument, side: *side, qty: *qty, price: 0, ord_type: 0x33, tif: 0x30, stop_price: *stop_price }),
        OrderRequest::SubmitMtl { order_id, instrument, side, qty } =>
            v.push(Order { order_id: *order_id, instrument: *instrument, side: *side, qty: *qty, price: 0, ord_type: 0x4B, tif: 0x30, stop_price: 0 }),
        OrderRequest::SubmitMktPrt { order_id, instrument, side, qty } =>
            v.push(Order { order_id: *order_id, instrument: *instrument, side: *side, qty: *qty, price: 0, ord_type: 0x55, tif: 0x30, stop_price: 0 }),
        OrderRequest::SubmitStpPrt { order_id, instrument, side, qty, stop_price } =>
            v.push(Order { order_id: *order_id, instrument: *instrument, side: *side, qty: *qty, price: 0, ord_type: ORD_STP_PRT, tif: 0x30, stop_price: *stop_price }),
        OrderRequest::SubmitMidPrice { order_id, instrument, side, qty, price_cap } =>
            v.push(Order { order_id: *order_id, instrument: *instrument, side: *side, qty: *qty, price: *price_cap, ord_type: ORD_MIDPX, tif: 0x30, stop_price: 0 }),
        OrderRequest::SubmitSnapMkt { order_id, instrument, side, qty } =>
            v.push(Order { order_id: *order_id, instrument: *instrument, side: *side, qty: *qty, price: 0, ord_type: ORD_SNAP_MKT, tif: 0x30, stop_price: 0 }),
        OrderRequest::SubmitSnapMid { order_id, instrument, side, qty } =>
            v.push(Order { order_id: *order_id, instrument: *instrument, side: *side, qty: *qty, price: 0, ord_type: ORD_SNAP_MID, tif: 0x30, stop_price: 0 }),
        OrderRequest::SubmitSnapPri { order_id, instrument, side, qty } =>
            v.push(Order { order_id: *order_id, instrument: *instrument, side: *side, qty: *qty, price: 0, ord_type: ORD_SNAP_PRI, tif: 0x30, stop_price: 0 }),
        OrderRequest::SubmitPegMkt { order_id, instrument, side, qty, offset } =>
            v.push(Order { order_id: *order_id, instrument: *instrument, side: *side, qty: *qty, price: 0, ord_type: ORD_PEG_MKT, tif: 0x30, stop_price: *offset }),
        OrderRequest::SubmitPegMid { order_id, instrument, side, qty, offset } =>
            v.push(Order { order_id: *order_id, instrument: *instrument, side: *side, qty: *qty, price: 0, ord_type: ORD_PEG_MID, tif: 0x30, stop_price: *offset }),
        _ => {},
    }
    assert(v@ =~= submit_records(*req));
    v
}

/// The records of the order book keyed by order id.
pub open spec fn keyed(book: Seq<Order>) -> Seq<(u64, Order)> {
    book.map_values(|o: Order| (o.order_id, o))
}

/// The record of an order id (the first, were there several).
pub open spec fn find_order(book: Seq<Order>, id: u64) -> Option<Order> {
    lookup(keyed(book), id)
}

/// The book after recording `o`: it replaces the record of the same order
/// id, or is appended.
pub open spec fn book_insert(book: Seq<Order>, o: Order) -> Seq<Order> {
    let i = first_index_of(keyed(book), o.order_id);
    if i == -1 {
        book.push(o)
    } else {
        book.update(i, o)
    }
}

/// The book after recording each of `recs` in turn.
pub open spec fn book_insert_all(book: Seq<Order>, recs: Seq<Order>) -> Seq<Order>
    decreases recs.len(),
{
    if recs.len() == 0 {
        book
    } else {
        book_insert(book_insert_all(book, recs.drop_last()), recs.last())
    }
}

/// Keeps the records of one instrument.
pub open spec fn of_instrument(instrument: InstrumentId) -> spec_fn(Order) -> bool {
    |o: Order| o.instrument == instrument
}

/// The records of an instrument, in book order. The book holds only the
/// orders this engine sent and keeps no fill or cancel status, so every
/// record of the instrument counts as open.
pub open spec fn open_orders(book: Seq<Order>, instrument: InstrumentId) -> Seq<Order> {
    book.filter(of_instrument(instrument))
}

/// The order records of the engine.
pub struct OrderBook {
    orders: Vec<Order>,
}

impl View for OrderBook {
    type V = Seq<Order>;

    closed spec fn view(&self) -> Seq<Order> {
        self.orders@
    }
}

impl OrderBook {
    /// An empty book.
    pub fn new() -> (b: Self)
        ensures
            b@ == Seq::<Order>::empty(),
    {
        OrderBook { orders: Vec::new() }
    }

    /// Number of records.
    pub fn len(&self) -> (n: usize)
        ensures
            n == self@.len(),
    {
        self.orders.len()
    }

    /// Index of the record of an order id.
    fn index_of(&self, id: u64) -> (r: Option<usize>)
        ensures
            match r {
                Some(i) => first_index_of(keyed(self@), id) == i as int && i < self@.len(),
                None => first_index_of(keyed(self@), id) == -1,
            },
    {
        let ghost k = keyed(self.orders@);
        let n = self.orders.len();
        let mut i: usize = 0;
        while i < n
            invariant
                n == self.orders@.len(),
                k == keyed(self.orders@),
                i <= n,
                forall|j: int| 0 <= j < i ==> #[trigger] k[j].0 != id,
            decreases n - i,
        {
            if self.orders[i].order_id == id {
                proof {
                    lemma_first_index_of_is(k, id, i as int);
                }
                return Some(i);
            }
            i = i + 1;
        }
        proof {
            lemma_first_index_of_absent(k, id);
        }
        None
    }

    /// Records an order (see `book_insert`).
    pub fn insert_order(&mut self, o: Order)
        ensures
            final(self)@ == book_insert(old(self)@, o),
    {
        match self.index_of(o.order_id) {
            Some(i) => self.orders.set(i, o),
            None => self.orders.push(o),
        }
    }

    /// The record of an order id (see `find_order`).
    pub fn order(&self, id: u64) -> (r: Option<Order>)
        ensures
            r == find_order(self@, id),
    {
        proof {
            lemma_first_index_of_bounds(keyed(self@), id);
        }
        match self.index_of(id) {
            Some(i) => Some(self.orders[i]),
            None => None,
        }
    }

    /// The records of an instrument, in book order (see `open_orders`).
    pub fn open_orders_for(&self, instrument: InstrumentId) -> (v: Vec<Order>)
        ensures
            v@ == open_orders(self@, instrument),
    {
        let n = self.orders.len();
        let mut v: Vec<Order> = Vec::new();
        let mut i: usize = 0;
        assert(self.orders@.take(0).filter(of_instrument(instrument)) =~= Seq::<Order>::empty()) by {
            reveal(Seq::filter);
        }
        while i < n
            invariant
                n == self.orders@.len(),
                i <= n,
                v@ == self.orders@.take(i as int).filter(of_instrument(instrument)),
            decreases n - i,
        {
            proof {
                crate::farm::lemma_filter_take_step(self.orders@, of_instrument(instrument), i as int);
            }
            let o = self.orders[i];
            if o.instrument == instrument {
                v.push(o);
            }
            i = i + 1;
        }
        assert(self.orders@.take(n as int) =~= self.orders@);
        v
    }
}

/// A cancel (35=F) of order `id`: cancel id `C<id>`, original id `<id>`.
pub open spec fn cancel_fields(id: u64, now: Seq<char>) -> Seq<(u32, Seq<char>)> {
    seq![(35, "F"@), (52, now), (11, seq!['C'] + nat_text(id as nat)), (41, nat_text(id as nat)), (60, now)]
}

/// FIX order-type text (tag 40) of an order-type byte of a record.
pub open spec fn ord_type_text(b: u8) -> Seq<char> {
    if b == ORD_PEG_BENCH {
        "PB"@
    } else if b == ORD_WHAT_IF {
        "2"@
    } else if b == ORD_STP_PRT {
        "SP"@
    } else if b == ORD_MIDPX {
        "MIDPX"@
    } else if b == ORD_SNAP_MKT {
        "SMKT"@
    } else if b == ORD_SNAP_MID {
        "SMID"@
    } else if b == ORD_SNAP_PRI {
        "SREL"@
    } else if b == ORD_PEG_MKT || b == ORD_PEG_MID {
        "E"@
    } else if b < 0x80 {
        seq![b as char]
    } else {
        "2"@
    }
}

/// A replace (35=G) of order `id` by `new_id` at `price` and `qty`. The
/// side, symbol, order type, time in force and stop price come from the
/// original's record; without one the side is "1", the symbol empty, the
/// type limit and the time in force day.
pub open spec fn modify_fields(
    orig: Option<Order>,
    new_id: u64,
    id: u64,
    price: i64,
    qty: i64,
    account: Seq<char>,
    symbols: Seq<(InstrumentId, Seq<char>)>,
    now: Seq<char>,
) -> Seq<(u32, Seq<char>)> {
    let sym = match orig { Some(o) => symbol_text(symbols, o.instrument), None => Seq::empty() };
    let side = match orig { Some(o) => side_text(o.side), None => "1"@ };
    let ot = match orig { Some(o) => o.ord_type, None => 0x32u8 };
    let tif = match orig { Some(o) => o.tif, None => 0x30u8 };
    seq![
        (35, "G"@), (52, now), (11, nat_text(new_id as nat)), (41, nat_text(id as nat)), (1, account), (21, "2"@),
        (55, sym), (54, side), (38, int_text(qty as int)), (40, ord_type_text(ot)), (44, price_text(price as int)),
        (59, tif_text(tif)), (60, now), (167, "STK"@), (100, "SMART"@), (15, "USD"@), (204, "0"@),
    ] + (match orig {
        Some(o) => when(o.stop_price != 0, seq![(99, price_text(o.stop_price as int))]),
        None => Seq::empty(),
    })
}

/// The book after a replace: the new id gets the original's record with the
/// new price and quantity; without an original nothing is recorded.
pub open spec fn modify_book(book: Seq<Order>, new_id: u64, id: u64, price: i64, qty: i64) -> Seq<Order> {
    match find_order(book, id) {
        Some(o) => book_insert(book, Order { order_id: new_id, qty, price, ..o }),
        None => book,
    }
}

/// The book and the messages after a batch of requests, in order.
pub open spec fn drain_effect(
    book: Seq<Order>,
    reqs: Seq<OrderRequest>,
    account: Seq<char>,
    symbols: Seq<(InstrumentId, Seq<char>)>,
    now: Seq<char>,
) -> (Seq<Order>, Seq<Seq<(u32, Seq<char>)>>)
    decreases reqs.len(),
{
    if reqs.len() == 0 {
        (book, Seq::empty())
    } else {
        let (b, m) = drain_effect(book, reqs.drop_last(), account, symbols, now);
        match reqs.last() {
            OrderRequest::Cancel { order_id } => (b, m.push(cancel_fields(order_id, now))),
            OrderRequest::CancelAll { instrument } => (b, m + open_orders(b, instrument).map_values(
                |o: Order| cancel_fields(o.order_id, now))),
            OrderRequest::Modify { new_order_id, order_id, price, qty } => (
                modify_book(b, new_order_id, order_id, price, qty),
                m.push(modify_fields(find_order(b, order_id), new_order_id, order_id, price, qty, account, symbols, now)),
            ),
            r => (book_insert_all(b, submit_records(r)), m + submit_fields(r, account, symbols, now)),
        }
    }
}

/// Builds a cancel (see `cancel_fields`).
pub fn build_cancel(id: u64, now: &str) -> (v: FixFields)
    ensures
        fields_view(v@) == cancel_fields(id, now@),
{
    let mut c = s("C");
    let t = u64_text(id);
    c.append(t.as_str());
    proof {
        reveal_strlit("C");
    }
    assert(c@ == seq!['C'] + nat_text(id as nat));
    let mut v = new_fields();
    push_field(&mut v, 35, "F");
    push_field(&mut v, 52, now);
    push_field_string(&mut v, 11, c);
    push_field_string(&mut v, 41, u64_text(id));
    push_field(&mut v, 60, now);
    assert(fields_view(v@) =~= cancel_fields(id, now@));
    v
}

/// Text of a record's order-type byte (see `ord_type_text`).
pub fn ord_type_str(b: u8) -> (r: String)
    ensures
        r@ == ord_type_text(b),
{
    if b == ORD_PEG_BENCH {
        s("PB")
    } else if b == ORD_WHAT_IF {
        s("2")
    } else if b == ORD_STP_PRT {
        s("SP")
    } else if b == ORD_MIDPX {
        s("MIDPX")
    } else if b == ORD_SNAP_MKT {
        s("SMKT")
    } else if b == ORD_SNAP_MID {
        s("SMID")
    } else if b == ORD_SNAP_PRI {
        s("SREL")
    } else if b == ORD_PEG_MKT || b == ORD_PEG_MID {
        s("E")
    } else if b < 0x80 {
        char_text(b as char)
    } else {
        s("2")
    }
}

/// Builds a replace (see `modify_fields`).
fn build_modify(orig: Option<Order>, new_id: u64, id: u64, price: i64, qty: i64, account: &str, market: &MarketState, now: &str) -> (v: FixFields)
    requires
        market.wf(),
    ensures
        fields_view(v@) == modify_fields(orig, new_id, id, price, qty, account@, market.symbols(), now@),
{
    proof {
        reveal_strlit("");
    }
    let sym: &str = match orig {
        Some(o) => market.symbol(o.instrument),
        None => "",
    };
    let side: &str = match orig {
        Some(o) => fix_side(o.side),
        None => "1",
    };
    let ot: u8 = match orig {
        Some(o) => o.ord_type,
        None => 0x32,
    };
    let tif: u8 = match orig {
        Some(o) => o.tif,
        None => 0x30,
    };
    let mut v = new_fields();
    push_field(&mut v, 35, "G");
    push_field(&mut v, 52, now);
    push_field_string(&mut v, 11, u64_text(new_id));
    push_field_string(&mut v, 41, u64_text(id));
    push_field(&mut v, 1, account);
    push_field(&mut v, 21, "2");
    push_field(&mut v, 55, sym);
    push_field(&mut v, 54, side);
    push_field_string(&mut v, 38, i64_text(qty));
    push_field_string(&mut v, 40, ord_type_str(ot));
    push_field_string(&mut v, 44, format_price(price));
    push_field_string(&mut v, 59, tif_str(tif));
    push_field(&mut v, 60, now);
    push_field(&mut v, 167, "STK");
    push_field(&mut v, 100, "SMART");
    push_field(&mut v, 15, "USD");
    push_field(&mut v, 204, "0");
    let ghost head = fields_view(v@);
    assert(sym@ == (match orig { Some(o) => symbol_text(market.symbols(), o.instrument), None => Seq::<char>::empty() }));
    assert(side@ == (match orig { Some(o) => side_text(o.side), None => "1"@ }));
    match orig {
        Some(o) => append_fields(&mut v, field_when(o.stop_price != 0, 99, format_price(o.stop_price))),
        None => {},
    }
    assert(fields_view(v@) =~= modify_fields(orig, new_id, id, price, qty, account@, market.symbols(), now@));
    v
}

/// Records each of `recs` in turn.
fn insert_all(book: &mut OrderBook, recs: &Vec<Order>)
    ensures
        final(book)@ == book_insert_all(old(book)@, recs@),
{
    let n = recs.len();
    let mut k: usize = 0;
    assert(recs@.take(0) =~= Seq::<Order>::empty());
    while k < n
        invariant
            n == recs@.len(),
            k <= n,
            book@ == book_insert_all(old(book)@, recs@.take(k as int)),
        decreases n - k,
    {
        assert(recs@.take(k + 1).drop_last() =~= recs@.take(k as int));
        book.insert_order(recs[k]);
        k = k + 1;
    }
    assert(recs@.take(n as int) =~= recs@);
}

/// Cancels of each of `open`, in order.
fn cancels_of(open: &Vec<Order>, now: &str) -> (v: Vec<FixFields>)
    ensures
        messages_view(v@) == open@.map_values(|o: Order| cancel_fields(o.order_id, now@)),
{
    let n = open.len();
    let mut v: Vec<FixFields> = Vec::new();
    let mut j: usize = 0;
    while j < n
        invariant
            n == open@.len(),
            j <= n,
            messages_view(v@) == open@.take(j as int).map_values(|o: Order| cancel_fields(o.order_id, now@)),
        decreases n - j,
    {
        let m = build_cancel(open[j].order_id, now);
        let ghost mv = fields_view(m@);
        let ghost before = messages_view(v@);
        v.push(m);
        assert(messages_view(v@) =~= before.push(mv));
        assert(open@.take(j + 1).map_values(|o: Order| cancel_fields(o.order_id, now@)) =~= open@.take(j as int).map_values(
            |o: Order| cancel_fields(o.order_id, now@)).push(cancel_fields(open@[j as int].order_id, now@)));
        j = j + 1;
    }
    assert(open@.take(n as int) =~= open@);
    v
}

/// The messages of one request, sent on top of the records `b`: a cancel
/// sends one cancel, a cancel-all a cancel for each record of the instrument,
/// a replace one replace, a submit its new-order messages.
pub open spec fn request_messages(
    b: Seq<Order>,
    r: OrderRequest,
    account: Seq<char>,
    symbols: Seq<(InstrumentId, Seq<char>)>,
    now: Seq<char>,
) -> Seq<Seq<(u32, Seq<char>)>> {
    match r {
        OrderRequest::Cancel { order_id } => seq![cancel_fields(order_id, now)],
        OrderRequest::CancelAll { instrument } => open_orders(b, instrument).map_values(|o: Order| cancel_fields(o.order_id, now)),
        OrderRequest::Modify { new_order_id, order_id, price, qty } => seq![
            modify_fields(find_order(b, order_id), new_order_id, order_id, price, qty, account, symbols, now),
        ],
        r => submit_fields(r, account, symbols, now),
    }
}

/// The messages of a batch, one group per request, in request order; each
/// request sees the records that the requests before it left.
pub open spec fn drain_groups(
    book: Seq<Order>,
    reqs: Seq<OrderRequest>,
    account: Seq<char>,
    symbols: Seq<(InstrumentId, Seq<char>)>,
    now: Seq<char>,
) -> Seq<Seq<Seq<(u32, Seq<char>)>>>
    decreases reqs.len(),
{
    if reqs.len() == 0 {
        Seq::empty()
    } else {
        drain_groups(book, reqs.drop_last(), account, symbols, now).push(
            request_messages(drain_effect(book, reqs.drop_last(), account, symbols, now).0, reqs.last(), account, symbols, now),
        )
    }
}

/// The message groups of a vector of groups.
pub open spec fn groups_view(g: Seq<Vec<FixFields>>) -> Seq<Seq<Seq<(u32, Seq<char>)>>> {
    g.map_values(|v: Vec<FixFields>| messages_view(v@))
}

/// Law: a batch has one message group per request, and the groups, one after
/// the other, are the batch's messages.
pub proof fn law_drain_groups_flatten(
    book: Seq<Order>,
    reqs: Seq<OrderRequest>,
    account: Seq<char>,
    symbols: Seq<(InstrumentId, Seq<char>)>,
    now: Seq<char>,
)
    ensures
        drain_groups(book, reqs, account, symbols, now).len() == reqs.len(),
        drain_groups(book, reqs, account, symbols, now).flatten() == drain_effect(book, reqs, account, symbols, now).1,
    decreases reqs.len(),
{
    if reqs.len() == 0 {
        assert(drain_groups(book, reqs, account, symbols, now).flatten() =~= Seq::<Seq<(u32, Seq<char>)>>::empty());
    } else {
        let prev = reqs.drop_last();
        law_drain_groups_flatten(book, prev, account, symbols, now);
        let g = drain_groups(book, prev, account, symbols, now);
        let (b, m) = drain_effect(book, prev, account, symbols, now);
        let last = request_messages(b, reqs.last(), account, symbols, now);
        g.lemma_flatten_push(last);
        match reqs.last() {
            OrderRequest::Cancel { order_id } => {
                assert(m.push(cancel_fields(order_id, now)) =~= m + last);
            },
            OrderRequest::Modify { new_order_id, order_id, price, qty } => {
                assert(m.push(modify_fields(find_order(b, order_id), new_order_id, order_id, price, qty, account, symbols, now)) =~= m + last);
            },
            _ => {},
        }
    }
}

/// Whether a request counts as sent, given the outcomes (`true` for success)
/// of its sends in order: the outcome of its last send, or `true` when it
/// sent nothing (a cancel-all with no open orders).
pub open spec fn request_sent_spec(outcomes: Seq<bool>) -> bool {
    outcomes.len() == 0 || outcomes.last()
}

/// Whether a request counts as sent (see `request_sent_spec`). The order
/// connection's last-sent time is refreshed after each request that does;
/// a request that does not leaves it as it was.
pub fn request_sent(outcomes: &[bool]) -> (sent: bool)
    ensures
        sent == request_sent_spec(outcomes@),
{
    let n = outcomes.len();
    if n == 0 {
        true
    } else {
        outcomes[n - 1]
    }
}

/// Sends a batch of pending order requests, in order: a submit records its
/// orders and sends their new-order messages; a cancel sends one cancel; a
/// cancel-all sends a cancel for each record of the instrument; a replace
/// records the new id (when the original is known) and sends a replace.
/// Without an order connection (`conn_up` false) the batch is dropped and
/// nothing is recorded. Returns the messages to send, one group per request,
/// in request order, each stamped with `now`; a sender stamps each message
/// again with the time it sends it (`fix_msg::stamp_message`, see
/// `law_stamp_cancel`, `law_stamp_modify`, `law_stamp_new_order`).
pub fn drain_and_send_orders(
    conn_up: bool,
    book: &mut OrderBook,
    orders: Vec<OrderRequest>,
    market: &MarketState,
    account: &str,
    now: &str,
) -> (groups: Vec<Vec<FixFields>>)
    requires
        market.wf(),
        forall|i: int| 0 <= i < orders@.len() ==> conditions_fit(#[trigger] orders@[i]),
    ensures
        !conn_up ==> final(book)@ == old(book)@ && groups@.len() == 0,
        conn_up ==> final(book)@ == drain_effect(old(book)@, orders@, account@, market.symbols(), now@).0,
        conn_up ==> groups_view(groups@) == drain_groups(old(book)@, orders@, account@, market.symbols(), now@),
        conn_up ==> groups_view(groups@).flatten() == drain_effect(old(book)@, orders@, account@, market.symbols(), now@).1,
{
    let mut groups: Vec<Vec<FixFields>> = Vec::new();
    if !conn_up {
        return groups;
    }
    let n = orders.len();
    let mut i: usize = 0;
    assert(orders@.take(0) =~= Seq::<OrderRequest>::empty());
    assert(groups_view(groups@) =~= Seq::<Seq<Seq<(u32, Seq<char>)>>>::empty());
    while i < n
        invariant
            n == orders@.len(),
            i <= n,
            market.wf(),
            forall|j: int| 0 <= j < orders@.len() ==> conditions_fit(#[trigger] orders@[j]),
            book@ == drain_effect(old(book)@, orders@.take(i as int), account@, market.symbols(), now@).0,
            groups_view(groups@) == drain_groups(old(book)@, orders@.take(i as int), account@, market.symbols(), now@),
        decreases n - i,
    {
        let ghost b0 = book@;
        let ghost g0 = groups_view(groups@);
        proof {
            assert(orders@.take(i + 1).drop_last() =~= orders@.take(i as int));
            assert(orders@.take(i + 1).last() == orders@[i as int]);
            assert(conditions_fit(orders@[i as int]));
        }
        let req = &orders[i];
        let group: Vec<FixFields> = match req {
            OrderRequest::Cancel { order_id } => {
                let m = build_cancel(*order_id, now);
                let mut g: Vec<FixFields> = Vec::new();
                g.push(m);
                assert(messages_view(g@) =~= seq![cancel_fields(*order_id, now@)]);
                g
            },
            OrderRequest::CancelAll { instrument } => {
                let open = book.open_orders_for(*instrument);
                cancels_of(&open, now)
            },
            OrderRequest::Modify { new_order_id, order_id, price, qty } => {
                let orig = book.order(*order_id);
                match orig {
                    Some(o) => book.insert_order(Order { order_id: *new_order_id, qty: *qty, price: *price, ..o }),
                    None => {},
                }
                let m = build_modify(orig, *new_order_id, *order_id, *price, *qty, account, market, now);
                let ghost mv = fields_view(m@);
                let mut g: Vec<FixFields> = Vec::new();
                g.push(m);
                assert(messages_view(g@) =~= seq![mv]);
                g
            },
            _ => {
                let recs = request_records(req);
                insert_all(book, &recs);
                submit_messages(req, account, market, now)
            },
        };
        proof {
            assert(messages_view(group@) == request_messages(b0, orders@[i as int], account@, market.symbols(), now@));
        }
        groups.push(group);
        assert(groups_view(groups@) =~= g0.push(messages_view(group@)));
        i = i + 1;
    }
    assert(orders@.take(n as int) =~= orders@);
    proof {
        law_drain_groups_flatten(old(book)@, orders@, account@, market.symbols(), now@);
    }
    groups
}

/// Law: after recording an order, looking its id up gives that record.
pub proof fn law_book_insert_then_find(book: Seq<Order>, o: Order)
    ensures
        find_order(book_insert(book, o), o.order_id) == Some(o),
{
    let k = keyed(book);
    lemma_first_index_of_bounds(k, o.order_id);
    let i = first_index_of(k, o.order_id);
    let after = book_insert(book, o);
    let ka = keyed(after);
    if i == -1 {
        assert(ka =~= k.push((o.order_id, o)));
        assert forall|j: int| 0 <= j < k.len() implies ka[j].0 != o.order_id by {
            assert(ka[j] == k[j]);
        }
        lemma_first_index_of_is(ka, o.order_id, k.len() as int);
    } else {
        assert(ka =~= k.update(i, (o.order_id, o)));
        assert forall|j: int| 0 <= j < i implies ka[j].0 != o.order_id by {
            assert(ka[j] == k[j]);
        }
        lemma_first_index_of_is(ka, o.order_id, i);
    }
}

/// Law: recording an order leaves the records of other ids as they were.
pub proof fn law_book_insert_keeps_others(book: Seq<Order>, o: Order, id: u64)
    requires
        id != o.order_id,
    ensures
        find_order(book_insert(book, o), id) == find_order(book, id),
{
    let k = keyed(book);
    lemma_first_index_of_bounds(k, o.order_id);
    lemma_first_index_of_bounds(k, id);
    let i = first_index_of(k, o.order_id);
    let after = book_insert(book, o);
    let ka = keyed(after);
    let j = first_index_of(k, id);
    if i == -1 {
        assert(ka =~= k.push((o.order_id, o)));
    } else {
        assert(ka =~= k.update(i, (o.order_id, o)));
    }
    if j == -1 {
        assert forall|m: int| 0 <= m < ka.len() implies ka[m].0 != id by {
            if m < k.len() {
                assert(ka[m].0 == k[m].0 || ka[m].0 == o.order_id);
            }
        }
        lemma_first_index_of_absent(ka, id);
    } else {
        assert forall|m: int| 0 <= m < j implies ka[m].0 != id by {
            assert(ka[m].0 == k[m].0 || ka[m].0 == o.order_id);
        }
        assert(ka[j] == k[j]);
        lemma_first_index_of_is(ka, id, j);
    }
}

/// Law: a replace keeps the original's instrument, side, order type, time in
/// force and stop price under the new id, with the new price and quantity.
pub proof fn law_modify_keeps_terms(book: Seq<Order>, new_id: u64, id: u64, price: i64, qty: i64)
    requires
        find_order(book, id) is Some,
    ensures
        ({
            let o = find_order(book, id)->0;
            find_order(modify_book(book, new_id, id, price, qty), new_id) == Some(
                Order { order_id: new_id, instrument: o.instrument, side: o.side, qty, price, ord_type: o.ord_type, tif: o.tif, stop_price: o.stop_price },
            )
        }),
{
    let o = find_order(book, id)->0;
    law_book_insert_then_find(book, Order { order_id: new_id, qty, price, ..o });
}

/// Law: the two children of a bracket trade on the side opposite to the entry.
pub proof fn law_bracket_exit_side(side: Side)
    ensures
        exit_side(side) != side,
        side == Side::Buy <==> exit_side(side) == Side::Sell,
{
}

/// Law: the messages of a batch are sent in request order: a submit appended
/// to a batch appends exactly its own messages.
pub proof fn law_drain_concatenates(
    book: Seq<Order>,
    reqs: Seq<OrderRequest>,
    more: OrderRequest,
    account: Seq<char>,
    symbols: Seq<(InstrumentId, Seq<char>)>,
    now: Seq<char>,
)
    requires
        is_submit(more),
    ensures
        drain_effect(book, reqs.push(more), account, symbols, now).1
            == drain_effect(book, reqs, account, symbols, now).1 + submit_fields(more, account, symbols, now),
{
    assert(reqs.push(more).drop_last() =~= reqs);
}

/// Whether no field of a list carries a time tag.
pub open spec fn no_time_tags(fields: Seq<(u32, Seq<char>)>) -> bool {
    forall|i: int| 0 <= i < fields.len() ==> !is_time_tag(#[trigger] fields[i].0)
}

/// Law: a cancel built at one time and stamped at its send time `t` is the
/// cancel built at `t`.
pub proof fn law_stamp_cancel(id: u64, now: Seq<char>, t: Seq<char>)
    ensures
        stamped(cancel_fields(id, now), t) == cancel_fields(id, t),
{
    assert(stamped(cancel_fields(id, now), t) =~= cancel_fields(id, t));
}

/// Law: a replace built at one time and stamped at its send time `t` is the
/// replace built at `t`.
pub proof fn law_stamp_modify(
    orig: Option<Order>,
    new_id: u64,
    id: u64,
    price: i64,
    qty: i64,
    account: Seq<char>,
    symbols: Seq<(InstrumentId, Seq<char>)>,
    now: Seq<char>,
    t: Seq<char>,
)
    ensures
        stamped(modify_fields(orig, new_id, id, price, qty, account, symbols, now), t)
            == modify_fields(orig, new_id, id, price, qty, account, symbols, t),
{
    let sym = match orig { Some(o) => symbol_text(symbols, o.instrument), None => Seq::<char>::empty() };
    let side = match orig { Some(o) => side_text(o.side), None => "1"@ };
    let ot = match orig { Some(o) => o.ord_type, None => 0x32u8 };
    let tif = match orig { Some(o) => o.tif, None => 0x30u8 };
    let head = |w: Seq<char>| seq![
        (35u32, "G"@), (52u32, w), (11u32, nat_text(new_id as nat)), (41u32, nat_text(id as nat)), (1u32, account), (21u32, "2"@),
        (55u32, sym), (54u32, side), (38u32, int_text(qty as int)), (40u32, ord_type_text(ot)), (44u32, price_text(price as int)),
        (59u32, tif_text(tif)), (60u32, w), (167u32, "STK"@), (100u32, "SMART"@), (15u32, "USD"@), (204u32, "0"@),
    ];
    let tail = match orig {
        Some(o) => when(o.stop_price != 0, seq![(99u32, price_text(o.stop_price as int))]),
        None => Seq::empty(),
    };
    law_stamp_parts(head(now), tail, t);
    law_stamp_parts(tail, Seq::empty(), t);
    assert(stamped(head(now), t) =~= head(t));
    assert(modify_fields(orig, new_id, id, price, qty, account, symbols, now) == head(now) + tail);
    assert(modify_fields(orig, new_id, id, price, qty, account, symbols, t) == head(t) + tail);
}

/// Law: a new order built at one time and stamped at its send time `t` is
/// the new order built at `t`, when its type-specific and extra fields carry
/// no time tag.
pub proof fn law_stamp_new_order(
    order_id: u64,
    account: Seq<char>,
    symbol: Seq<char>,
    side: Side,
    qty: Seq<char>,
    now: Seq<char>,
    body: Seq<(u32, Seq<char>)>,
    exchange: Seq<char>,
    extras: Seq<(u32, Seq<char>)>,
    t: Seq<char>,
)
    requires
        no_time_tags(body),
        no_time_tags(extras),
    ensures
        stamped(new_order(order_id, account, symbol, side, qty, now, body, exchange, extras), t)
            == new_order(order_id, account, symbol, side, qty, t, body, exchange, extras),
{
    let h = order_head(nat_text(order_id as nat), account, symbol, side, qty, now);
    let tl = order_tail(now, exchange);
    law_stamp_parts(h + body + tl, extras, t);
    law_stamp_parts(h + body, tl, t);
    law_stamp_parts(h, body, t);
    law_stamp_parts(body, Seq::empty(), t);
    law_stamp_parts(extras, Seq::empty(), t);
    assert(stamped(h, t) =~= order_head(nat_text(order_id as nat), account, symbol, side, qty, t));
    assert(stamped(tl, t) =~= order_tail(t, exchange));
}


/// Tags of the fields every new order has around its type-specific ones.
pub open spec fn frame_tag(tag: u32) -> bool {
    tag == 35 || tag == 52 || tag == 11 || tag == 1 || tag == 21 || tag == 55 || tag == 54 || tag == 38
        || tag == 60 || tag == 167 || tag == 100 || tag == 15 || tag == 204
}

proof fn lemma_field_is_lit3(f0: (u32, Seq<char>), f1: (u32, Seq<char>), f2: (u32, Seq<char>), tag: u32, v: Seq<char>)
    requires
        f0 == (tag, v) || f1 == (tag, v) || f2 == (tag, v),
        f0.0 == tag ==> f0.1 == v,
        f1.0 == tag ==> f1.1 == v,
        f2.0 == tag ==> f2.1 == v,
        !frame_tag(f0.0) && !frame_tag(f1.0) && !frame_tag(f2.0),
    ensures
        field_is(seq![f0, f1, f2], tag, v),
        no_frame_tags(seq![f0, f1, f2]),
{
    let m = seq![f0, f1, f2];
    assert(m[0] == f0 && m[1] == f1 && m[2] == f2);
    assert forall|i: int| 0 <= i < m.len() implies !frame_tag((#[trigger] m[i]).0) by {
        if i == 0 {} else if i == 1 {} else {}
    }
    assert forall|i: int| 0 <= i < m.len() && (#[trigger] m[i]).0 == tag implies m[i].1 == v by {
        if i == 0 {} else if i == 1 {} else {}
    }
}

proof fn lemma_field_is_lit4(f0: (u32, Seq<char>), f1: (u32, Seq<char>), f2: (u32, Seq<char>), f3: (u32, Seq<char>), tag: u32, v: Seq<char>)
    requires
        f0 == (tag, v) || f1 == (tag, v) || f2 == (tag, v) || f3 == (tag, v),
        f0.0 == tag ==> f0.1 == v,
        f1.0 == tag ==> f1.1 == v,
        f2.0 == tag ==> f2.1 == v,
        f3.0 == tag ==> f3.1 == v,
        !frame_tag(f0.0) && !frame_tag(f1.0) && !frame_tag(f2.0) && !frame_tag(f3.0),
    ensures
        field_is(seq![f0, f1, f2, f3], tag, v),
        no_frame_tags(seq![f0, f1, f2, f3]),
{
    let m = seq![f0, f1, f2, f3];
    assert(m[0] == f0 && m[1] == f1 && m[2] == f2 && m[3] == f3);
    assert forall|i: int| 0 <= i < m.len() implies !frame_tag((#[trigger] m[i]).0) by {
        if i == 0 {} else if i == 1 {} else if i == 2 {} else {}
    }
    assert forall|i: int| 0 <= i < m.len() && (#[trigger] m[i]).0 == tag implies m[i].1 == v by {
        if i == 0 {} else if i == 1 {} else if i == 2 {} else {}
    }
}

proof fn lemma_frame_absent(clord: Seq<char>, account: Seq<char>, symbol: Seq<char>, side: Side, qty: Seq<char>, now: Seq<char>, exchange: Seq<char>, tag: u32)
    requires
        !frame_tag(tag),
    ensures
        field_absent(order_head(clord, account, symbol, side, qty, now), tag),
        field_absent(order_tail(now, exchange), tag),
{
    let h = order_head(clord, account, symbol, side, qty, now);
    assert forall|i: int| 0 <= i < h.len() implies (#[trigger] h[i]).0 != tag by {
        if i == 0 {} else if i == 1 {} else if i == 2 {} else if i == 3 {} else if i == 4 {} else if i == 5 {} else if i == 6 {} else {}
    }
    let t = order_tail(now, exchange);
    assert forall|i: int| 0 <= i < t.len() implies (#[trigger] t[i]).0 != tag by {
        if i == 0 {} else if i == 1 {} else if i == 2 {} else if i == 3 {} else {}
    }
}

/// A type-specific field of a new order, absent from its extra fields, is
/// carried by the new order with the same value.
pub proof fn lemma_new_order_field(
    order_id: u64,
    account: Seq<char>,
    symbol: Seq<char>,
    side: Side,
    qty: Seq<char>,
    now: Seq<char>,
    body: Seq<(u32, Seq<char>)>,
    exchange: Seq<char>,
    extras: Seq<(u32, Seq<char>)>,
    tag: u32,
    v: Seq<char>,
)
    requires
        !frame_tag(tag),
        field_is(body, tag, v),
        field_absent(extras, tag),
    ensures
        field_is(new_order(order_id, account, symbol, side, qty, now, body, exchange, extras), tag, v),
{
    let h = order_head(nat_text(order_id as nat), account, symbol, side, qty, now);
    let t = order_tail(now, exchange);
    lemma_frame_absent(nat_text(order_id as nat), account, symbol, side, qty, now, exchange, tag);
    lemma_field_absent_concat(t, extras, tag);
    lemma_field_is_middle(h, body, t + extras, tag, v);
    assert(h + body + (t + extras) =~= new_order(order_id, account, symbol, side, qty, now, body, exchange, extras));
}

/// Whether no field of a list has a tag of the new-order frame.
pub open spec fn no_frame_tags(x: Seq<(u32, Seq<char>)>) -> bool {
    forall|i: int| 0 <= i < x.len() ==> !frame_tag((#[trigger] x[i]).0)
}

proof fn lemma_head_field(clord: Seq<char>, account: Seq<char>, symbol: Seq<char>, side: Side, qty: Seq<char>, now: Seq<char>, j: int)
    requires
        2 <= j < 8,
    ensures
        ({
            let h = order_head(clord, account, symbol, side, qty, now);
            field_is(h, h[j].0, h[j].1)
        }),
{
    let h = order_head(clord, account, symbol, side, qty, now);
    assert(h[0].0 == 35 && h[1].0 == 52 && h[2].0 == 11 && h[3].0 == 1 && h[4].0 == 21 && h[5].0 == 55 && h[6].0 == 54 && h[7].0 == 38);
    assert forall|i: int| 0 <= i < h.len() && (#[trigger] h[i]).0 == h[j].0 implies h[i].1 == h[j].1 by {
        if i == 0 {} else if i == 1 {} else if i == 2 {} else if i == 3 {} else if i == 4 {} else if i == 5 {} else if i == 6 {} else {}
        assert(i == j);
    }
}

/// The order id (tag 11), account (1), symbol (55), side (54) and quantity
/// (38) of a new order are those it is built with, when its type-specific
/// and extra fields carry no frame tag.
pub proof fn lemma_new_order_frame(
    order_id: u64,
    account: Seq<char>,
    symbol: Seq<char>,
    side: Side,
    qty: Seq<char>,
    now: Seq<char>,
    body: Seq<(u32, Seq<char>)>,
    exchange: Seq<char>,
    extras: Seq<(u32, Seq<char>)>,
)
    requires
        no_frame_tags(body),
        no_frame_tags(extras),
    ensures
        ({
            let m = new_order(order_id, account, symbol, side, qty, now, body, exchange, extras);
            &&& field_is(m, 11, nat_text(order_id as nat))
            &&& field_is(m, 1, account)
            &&& field_is(m, 55, symbol)
            &&& field_is(m, 54, side_text(side))
            &&& field_is(m, 38, qty)
        }),
{
    let h = order_head(nat_text(order_id as nat), account, symbol, side, qty, now);
    let t = order_tail(now, exchange);
    let rest = body + t + extras;
    let m = new_order(order_id, account, symbol, side, qty, now, body, exchange, extras);
    assert(Seq::<(u32, Seq<char>)>::empty() + h + rest =~= m);
    assert(t[0].0 == 60 && t[1].0 == 167 && t[2].0 == 100 && t[3].0 == 15 && t[4].0 == 204);
    assert forall|j: int| 2 <= j < 8 && j != 4 implies field_absent(rest, #[trigger] h[j].0) by {
        assert forall|i: int| 0 <= i < rest.len() implies (#[trigger] rest[i]).0 != h[j].0 by {
            if i < body.len() {
                assert(rest[i] == body[i]);
            } else if i < body.len() + t.len() {
                assert(rest[i] == t[i - body.len()]);
                let k = i - body.len();
                if k == 0 {} else if k == 1 {} else if k == 2 {} else if k == 3 {} else {}
            } else {
                assert(rest[i] == extras[i - body.len() - t.len()]);
            }
        }
    }
    assert(field_absent(Seq::<(u32, Seq<char>)>::empty(), 11));
    assert(field_absent(Seq::<(u32, Seq<char>)>::empty(), 1));
    assert(field_absent(Seq::<(u32, Seq<char>)>::empty(), 55));
    assert(field_absent(Seq::<(u32, Seq<char>)>::empty(), 54));
    assert(field_absent(Seq::<(u32, Seq<char>)>::empty(), 38));
    lemma_head_field(nat_text(order_id as nat), account, symbol, side, qty, now, 2);
    lemma_head_field(nat_text(order_id as nat), account, symbol, side, qty, now, 3);
    lemma_head_field(nat_text(order_id as nat), account, symbol, side, qty, now, 5);
    lemma_head_field(nat_text(order_id as nat), account, symbol, side, qty, now, 6);
    lemma_head_field(nat_text(order_id as nat), account, symbol, side, qty, now, 7);
    assert(field_absent(rest, h[2].0));
    assert(field_absent(rest, h[3].0));
    assert(field_absent(rest, h[5].0));
    assert(field_absent(rest, h[6].0));
    assert(field_absent(rest, h[7].0));
    lemma_field_is_middle(Seq::empty(), h, rest, 11, nat_text(order_id as nat));
    lemma_field_is_middle(Seq::empty(), h, rest, 1, account);
    lemma_field_is_middle(Seq::empty(), h, rest, 55, symbol);
    lemma_field_is_middle(Seq::empty(), h, rest, 54, side_text(side));
    lemma_field_is_middle(Seq::empty(), h, rest, 38, qty);
}

proof fn lemma_rth_absent(b: bool, tag: u32)
    requires
        tag != 6433,
    ensures
        field_absent(when(b, seq![(6433u32, "1"@)]), tag),
        no_frame_tags(when(b, seq![(6433u32, "1"@)])),
{
    if b {
        assert(seq![(6433u32, "1"@)][0].0 == 6433);
    }
}

/// Requests whose orders carry a limit price, a stop price or both, each in
/// its own field: limit, stop, stop-limit (day and GTC), IOC, FOK, at the
/// open, auction, limit-if-touched, and the three orders of a bracket.
pub open spec fn priced_request(req: OrderRequest) -> bool {
    req is SubmitLimit || req is SubmitStopLimit || req is SubmitLimitGtc || req is SubmitStop || req is SubmitStopGtc
        || req is SubmitStopLimitGtc || req is SubmitLimitIoc || req is SubmitLimitFok || req is SubmitLit
        || req is SubmitBracket || req is SubmitLimitOpg || req is SubmitLimitAuc
}

#[verifier::spinoff_prover]
#[verifier::rlimit(30)]
proof fn lemma_message_prices_0(req: OrderRequest, account: Seq<char>, sym: Seq<char>, now: Seq<char>, k: int)
    requires
        req is SubmitLimit || req is SubmitStopLimit || req is SubmitLimitGtc || req is SubmitStop,
        0 <= k < submit_records(req).len(),
    ensures
        submit_fields_with(req, account, sym, now).len() == submit_records(req).len(),
        ({
            let m = submit_fields_with(req, account, sym, now)[k];
            let o = submit_records(req)[k];
            &&& (o.ord_type == 0x32 || o.ord_type == 0x34 || o.ord_type == 0x4B) ==> field_is(m, 44, price_text(o.price as int))
            &&& (o.ord_type == 0x33 || o.ord_type == 0x34 || o.ord_type == 0x4B) ==> field_is(m, 99, price_text(o.stop_price as int))
            &&& field_is(m, 11, nat_text(o.order_id as nat))
            &&& field_is(m, 54, side_text(o.side))
            &&& field_is(m, 38, int_text(o.qty as int))
        }),
{
    let e = Seq::<(u32, Seq<char>)>::empty();
    let smart = "SMART"@;
    assert(field_absent(e, 44) && field_absent(e, 99) && no_frame_tags(e));
    lemma_rth_absent(true, 44);
    lemma_rth_absent(false, 44);
    lemma_rth_absent(true, 99);
    lemma_rth_absent(false, 99);
    match req {
        OrderRequest::SubmitLimit { order_id, instrument, side, qty, price } => {
            lemma_field_is_lit3((40, "2"@), (44, price_text(price as int)), (59, "0"@), 44, price_text(price as int));
            lemma_new_order_field(order_id, account, sym, side, int_text(qty as int), now,
                seq![(40, "2"@), (44, price_text(price as int)), (59, "0"@)], smart, e, 44, price_text(price as int));
            lemma_new_order_frame(order_id, account, sym, side, int_text(qty as int), now, seq![(40, "2"@), (44, price_text(price as int)), (59, "0"@)], smart, e);
        },
        OrderRequest::SubmitStopLimit { order_id, instrument, side, qty, price, stop_price } => {
            let body = seq![(40u32, "4"@), (44u32, price_text(price as int)), (99u32, price_text(stop_price as int)), (59u32, "0"@)];
            lemma_field_is_lit4(body[0], body[1], body[2], body[3], 44, price_text(price as int));
            lemma_field_is_lit4(body[0], body[1], body[2], body[3], 99, price_text(stop_price as int));
            assert(body =~= seq![body[0], body[1], body[2], body[3]]);
            lemma_new_order_field(order_id, account, sym, side, int_text(qty as int), now, body, smart, e, 44, price_text(price as int));
            lemma_new_order_frame(order_id, account, sym, side, int_text(qty as int), now, body, smart, e);
            lemma_new_order_field(order_id, account, sym, side, int_text(qty as int), now, body, smart, e, 99, price_text(stop_price as int));
        },
        OrderRequest::SubmitLimitGtc { order_id, instrument, side, qty, price, outside_rth } => {
            lemma_field_is_lit3((40, "2"@), (44, price_text(price as int)), (59, "1"@), 44, price_text(price as int));
            lemma_new_order_field(order_id, account, sym, side, int_text(qty as int), now,
                seq![(40, "2"@), (44, price_text(price as int)), (59, "1"@)], smart, when(outside_rth, seq![(6433, "1"@)]), 44, price_text(price as int));
            lemma_new_order_frame(order_id, account, sym, side, int_text(qty as int), now, seq![(40, "2"@), (44, price_text(price as int)), (59, "1"@)], smart, when(outside_rth, seq![(6433, "1"@)]));
        },
        OrderRequest::SubmitStop { order_id, instrument, side, qty, stop_price } => {
            lemma_field_is_lit3((40, "3"@), (99, price_text(stop_price as int)), (59, "0"@), 99, price_text(stop_price as int));
            lemma_new_order_field(order_id, account, sym, side, int_text(qty as int), now,
                seq![(40, "3"@), (99, price_text(stop_price as int)), (59, "0"@)], smart, e, 99, price_text(stop_price as int));
            lemma_new_order_frame(order_id, account, sym, side, int_text(qty as int), now, seq![(40, "3"@), (99, price_text(stop_price as int)), (59, "0"@)], smart, e);
        },
        _ => {},
    }
}

#[verifier::spinoff_prover]
#[verifier::rlimit(30)]
proof fn lemma_message_prices_1(req: OrderRequest, account: Seq<char>, sym: Seq<char>, now: Seq<char>, k: int)
    requires
        req is SubmitStopGtc || req is SubmitStopLimitGtc || req is SubmitLimitIoc || req is SubmitLimitFok,
        0 <= k < submit_records(req).len(),
    ensures
        submit_fields_with(req, account, sym, now).len() == submit_records(req).len(),
        ({
            let m = submit_fields_with(req, account, sym, now)[k];
            let o = submit_records(req)[k];
            &&& (o.ord_type == 0x32 || o.ord_type == 0x34 || o.ord_type == 0x4B) ==> field_is(m, 44, price_text(o.price as int))
            &&& (o.ord_type == 0x33 || o.ord_type == 0x34 || o.ord_type == 0x4B) ==> field_is(m, 99, price_text(o.stop_price as int))
            &&& field_is(m, 11, nat_text(o.order_id as nat))
            &&& field_is(m, 54, side_text(o.side))
            &&& field_is(m, 38, int_text(o.qty as int))
        }),
{
    let e = Seq::<(u32, Seq<char>)>::empty();
    let smart = "SMART"@;
    assert(field_absent(e, 44) && field_absent(e, 99) && no_frame_tags(e));
    lemma_rth_absent(true, 44);
    lemma_rth_absent(false, 44);
    lemma_rth_absent(true, 99);
    lemma_rth_absent(false, 99);
    match req {
        OrderRequest::SubmitStopGtc { order_id, instrument, side, qty, stop_price, outside_rth } => {
            lemma_field_is_lit3((40, "3"@), (99, price_text(stop_price as int)), (59, "1"@), 99, price_text(stop_price as int));
            lemma_new_order_field(order_id, account, sym, side, int_text(qty as int), now,
                seq![(40, "3"@), (99, price_text(stop_price as int)), (59, "1"@)], smart, when(outside_rth, seq![(6433, "1"@)]), 99, price_text(stop_price as int));
            lemma_new_order_frame(order_id, account, sym, side, int_text(qty as int), now, seq![(40, "3"@), (99, price_text(stop_price as int)), (59, "1"@)], smart, when(outside_rth, seq![(6433, "1"@)]));
        },
        OrderRequest::SubmitStopLimitGtc { order_id, instrument, side, qty, price, stop_price, outside_rth } => {
            let body = seq![(40u32, "4"@), (44u32, price_text(price as int)), (99u32, price_text(stop_price as int)), (59u32, "1"@)];
            lemma_field_is_lit4(body[0], body[1], body[2], body[3], 44, price_text(price as int));
            lemma_field_is_lit4(body[0], body[1], body[2], body[3], 99, price_text(stop_price as int));
            assert(body =~= seq![body[0], body[1], body[2], body[3]]);
            let x = when(outside_rth, seq![(6433u32, "1"@)]);
            lemma_new_order_field(order_id, account, sym, side, int_text(qty as int), now, body, smart, x, 44, price_text(price as int));
            lemma_new_order_frame(order_id, account, sym, side, int_text(qty as int), now, body, smart, x);
            lemma_new_order_field(order_id, account, sym, side, int_text(qty as int), now, body, smart, x, 99, price_text(stop_price as int));
        },
        OrderRequest::SubmitLimitIoc { order_id, instrument, side, qty, price } => {
            lemma_field_is_lit3((40, "2"@), (44, price_text(price as int)), (59, "3"@), 44, price_text(price as int));
            lemma_new_order_field(order_id, account, sym, side, int_text(qty as int), now,
                seq![(40, "2"@), (44, price_text(price as int)), (59, "3"@)], smart, e, 44, price_text(price as int));
            lemma_new_order_frame(order_id, account, sym, side, int_text(qty as int), now, seq![(40, "2"@), (44, price_text(price as int)), (59, "3"@)], smart, e);
        },
        OrderRequest::SubmitLimitFok { order_id, instrument, side, qty, price } => {
            lemma_field_is_lit3((40, "2"@), (44, price_text(price as int)), (59, "4"@), 44, price_text(price as int));
            lemma_new_order_field(order_id, account, sym, side, int_text(qty as int), now,
                seq![(40, "2"@), (44, price_text(price as int)), (59, "4"@)], smart, e, 44, price_text(price as int));
            lemma_new_order_frame(order_id, account, sym, side, int_text(qty as int), now, seq![(40, "2"@), (44, price_text(price as int)), (59, "4"@)], smart, e);
        },
        _ => {},
    }
}

#[verifier::spinoff_prover]
#[verifier::rlimit(30)]
proof fn lemma_message_prices_2(req: OrderRequest, account: Seq<char>, sym: Seq<char>, now: Seq<char>, k: int)
    requires
        req is SubmitLit || req is SubmitLimitOpg || req is SubmitLimitAuc,
        0 <= k < submit_records(req).len(),
    ensures
        submit_fields_with(req, account, sym, now).len() == submit_records(req).len(),
        ({
            let m = submit_fields_with(req, account, sym, now)[k];
            let o = submit_records(req)[k];
            &&& (o.ord_type == 0x32 || o.ord_type == 0x34 || o.ord_type == 0x4B) ==> field_is(m, 44, price_text(o.price as int))
            &&& (o.ord_type == 0x33 || o.ord_type == 0x34 || o.ord_type == 0x4B) ==> field_is(m, 99, price_text(o.stop_price as int))
            &&& field_is(m, 11, nat_text(o.order_id as nat))
            &&& field_is(m, 54, side_text(o.side))
            &&& field_is(m, 38, int_text(o.qty as int))
        }),
{
    let e = Seq::<(u32, Seq<char>)>::empty();
    let smart = "SMART"@;
    assert(field_absent(e, 44) && field_absent(e, 99) && no_frame_tags(e));
    lemma_rth_absent(true, 44);
    lemma_rth_absent(false, 44);
    lemma_rth_absent(true, 99);
    lemma_rth_absent(false, 99);
    match req {
        OrderRequest::SubmitLit { order_id, instrument, side, qty, price, stop_price } => {
            let body = seq![(40u32, "K"@), (44u32, price_text(price as int)), (99u32, price_text(stop_price as int)), (59u32, "0"@)];
            lemma_field_is_lit4(body[0], body[1], body[2], body[3], 44, price_text(price as int));
            lemma_field_is_lit4(body[0], body[1], body[2], body[3], 99, price_text(stop_price as int));
            assert(body =~= seq![body[0], body[1], body[2], body[3]]);
            lemma_new_order_field(order_id, account, sym, side, int_text(qty as int), now, body, smart, e, 44, price_text(price as int));
            lemma_new_order_frame(order_id, account, sym, side, int_text(qty as int), now, body, smart, e);
            lemma_new_order_field(order_id, account, sym, side, int_text(qty as int), now, body, smart, e, 99, price_text(stop_price as int));
        },
        OrderRequest::SubmitLimitOpg { order_id, instrument, side, qty, price } => {
            lemma_field_is_lit3((40, "2"@), (44, price_text(price as int)), (59, "2"@), 44, price_text(price as int));
            lemma_new_order_field(order_id, account, sym, side, int_text(qty as int), now,
                seq![(40, "2"@), (44, price_text(price as int)), (59, "2"@)], smart, e, 44, price_text(price as int));
            lemma_new_order_frame(order_id, account, sym, side, int_text(qty as int), now, seq![(40, "2"@), (44, price_text(price as int)), (59, "2"@)], smart, e);
        },
        OrderRequest::SubmitLimitAuc { order_id, instrument, side, qty, price } => {
            lemma_field_is_lit3((40, "2"@), (44, price_text(price as int)), (59, "8"@), 44, price_text(price as int));
            lemma_new_order_field(order_id, account, sym, side, int_text(qty as int), now,
                seq![(40, "2"@), (44, price_text(price as int)), (59, "8"@)], smart, e, 44, price_text(price as int));
            lemma_new_order_frame(order_id, account, sym, side, int_text(qty as int), now, seq![(40, "2"@), (44, price_text(price as int)), (59, "8"@)], smart, e);
        },
        _ => {},
    }
}

#[verifier::spinoff_prover]
#[verifier::rlimit(40)]
proof fn lemma_message_prices_bracket(req: OrderRequest, account: Seq<char>, sym: Seq<char>, now: Seq<char>, k: int)
    requires
        req is SubmitBracket,
        0 <= k < submit_records(req).len(),
    ensures
        submit_fields_with(req, account, sym, now).len() == submit_records(req).len(),
        ({
            let m = submit_fields_with(req, account, sym, now)[k];
            let o = submit_records(req)[k];
            &&& (o.ord_type == 0x32 || o.ord_type == 0x34 || o.ord_type == 0x4B) ==> field_is(m, 44, price_text(o.price as int))
            &&& (o.ord_type == 0x33 || o.ord_type == 0x34 || o.ord_type == 0x4B) ==> field_is(m, 99, price_text(o.stop_price as int))
            &&& field_is(m, 11, nat_text(o.order_id as nat))
            &&& field_is(m, 54, side_text(o.side))
            &&& field_is(m, 38, int_text(o.qty as int))
        }),
{
    let e = Seq::<(u32, Seq<char>)>::empty();
    let smart = "SMART"@;
    assert(field_absent(e, 44) && field_absent(e, 99) && no_frame_tags(e));
    lemma_rth_absent(true, 44);
    lemma_rth_absent(false, 44);
    lemma_rth_absent(true, 99);
    lemma_rth_absent(false, 99);
    match req {
        OrderRequest::SubmitBracket { parent_id, tp_id, sl_id, instrument, side, qty, entry_price, take_profit, stop_loss } => {
            let q = int_text(qty as int);
            let link = seq![(6107u32, nat_text(parent_id as nat)), (583u32, "OCA_"@ + nat_text(parent_id as nat)), (6209u32, "CancelOnFillWBlock"@)];
            assert(link[0].0 == 6107 && link[1].0 == 583 && link[2].0 == 6209);
            assert forall|i: int| 0 <= i < link.len() implies (#[trigger] link[i]).0 != 44 && link[i].0 != 99 && !frame_tag(link[i].0) by {
                if i == 0 {} else if i == 1 {} else {}
            }
            lemma_field_is_lit3((40, "2"@), (44, price_text(entry_price as int)), (59, "0"@), 44, price_text(entry_price as int));
            lemma_new_order_field(parent_id, account, sym, side, q, now,
                seq![(40, "2"@), (44, price_text(entry_price as int)), (59, "0"@)], smart, e, 44, price_text(entry_price as int));
            lemma_new_order_frame(parent_id, account, sym, side, q, now, seq![(40, "2"@), (44, price_text(entry_price as int)), (59, "0"@)], smart, e);
            lemma_field_is_lit3((40, "2"@), (44, price_text(take_profit as int)), (59, "1"@), 44, price_text(take_profit as int));
            lemma_new_order_field(tp_id, account, sym, exit_side(side), q, now,
                seq![(40, "2"@), (44, price_text(take_profit as int)), (59, "1"@)], smart, link, 44, price_text(take_profit as int));
            lemma_new_order_frame(tp_id, account, sym, exit_side(side), q, now, seq![(40, "2"@), (44, price_text(take_profit as int)), (59, "1"@)], smart, link);
            lemma_field_is_lit3((40, "3"@), (99, price_text(stop_loss as int)), (59, "1"@), 99, price_text(stop_loss as int));
            lemma_new_order_field(sl_id, account, sym, exit_side(side), q, now,
                seq![(40, "3"@), (99, price_text(stop_loss as int)), (59, "1"@)], smart, link, 99, price_text(stop_loss as int));
            lemma_new_order_frame(sl_id, account, sym, exit_side(side), q, now, seq![(40, "3"@), (99, price_text(stop_loss as int)), (59, "1"@)], smart, link);
        },
        _ => {},
    }
}


/// Law: the prices a new-order message sends are those of the order record
/// it leaves. For each order of a priced request, a limit order (type 2), a
/// stop-limit order (type 4) and a limit-if-touched order (type K) carry the
/// record's limit price as text in tag 44 and nowhere else under that tag;
/// a stop order (type 3), a stop-limit and a limit-if-touched order carry
/// the record's stop price in tag 99. Every message carries the record's
/// order id (tag 11), side (tag 54) and quantity (tag 38).
pub proof fn law_message_prices_match_records(req: OrderRequest, account: Seq<char>, sym: Seq<char>, now: Seq<char>, k: int)
    requires
        priced_request(req),
        0 <= k < submit_records(req).len(),
    ensures
        submit_fields_with(req, account, sym, now).len() == submit_records(req).len(),
        ({
            let m = submit_fields_with(req, account, sym, now)[k];
            let o = submit_records(req)[k];
            &&& (o.ord_type == 0x32 || o.ord_type == 0x34 || o.ord_type == 0x4B) ==> field_is(m, 44, price_text(o.price as int))
            &&& (o.ord_type == 0x33 || o.ord_type == 0x34 || o.ord_type == 0x4B) ==> field_is(m, 99, price_text(o.stop_price as int))
            &&& field_is(m, 11, nat_text(o.order_id as nat))
            &&& field_is(m, 54, side_text(o.side))
            &&& field_is(m, 38, int_text(o.qty as int))
        }),
{
    if req is SubmitLimit || req is SubmitStopLimit || req is SubmitLimitGtc || req is SubmitStop {
        lemma_message_prices_0(req, account, sym, now, k);
    } else if req is SubmitStopGtc || req is SubmitStopLimitGtc || req is SubmitLimitIoc || req is SubmitLimitFok {
        lemma_message_prices_1(req, account, sym, now, k);
    } else if req is SubmitBracket {
        lemma_message_prices_bracket(req, account, sym, now, k);
    } else {
        lemma_message_prices_2(req, account, sym, now, k);
    }
}

} // verus!
