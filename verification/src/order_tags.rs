//! FIX tag values of order sides, algo strategies and order conditions.

use vstd::prelude::*;
use vstd::string::StringExecFns;

use crate::text::{format_price, i64_text, int_text, price_text, str_eq, u64_text, nat_text};

verus! {

/// Side of an order.
#[derive(Clone, Copy, Debug, PartialEq, Eq, Structural)]
pub enum Side {
    Buy,
    Sell,
    ShortSell,
}

/// FIX tag 54 value of a side: Buy "1", Sell "2", ShortSell "5".
pub open spec fn side_text(side: Side) -> Seq<char> {
    match side {
        Side::Buy => "1"@,
        Side::Sell => "2"@,
        Side::ShortSell => "5"@,
    }
}

/// Converts a side to its FIX tag 54 value.
pub fn fix_side(side: Side) -> (s: &'static str)
    ensures
        s@ == side_text(side),
{
    match side {
        Side::Buy => "1",
        Side::Sell => "2",
        Side::ShortSell => "5",
    }
}

/// Risk aversion of the ArrivalPx and ClosePx algos.
#[derive(Clone, Copy, Debug, PartialEq, Eq, Structural)]
pub enum RiskAversion {
    GetDone,
    Aggressive,
    Neutral,
    Passive,
}

/// Wire text of a risk aversion.
pub open spec fn risk_aversion_text(r: RiskAversion) -> Seq<char> {
    match r {
        RiskAversion::GetDone => "Get Done"@,
        RiskAversion::Aggressive => "Aggressive"@,
        RiskAversion::Neutral => "Neutral"@,
        RiskAversion::Passive => "Passive"@,
    }
}

impl RiskAversion {
    /// Wire text of the risk aversion.
    pub fn as_str(&self) -> (s: &'static str)
        ensures
            s@ == risk_aversion_text(*self),
    {
        match self {
            RiskAversion::GetDone => "Get Done",
            RiskAversion::Aggressive => "Aggressive",
            RiskAversion::Neutral => "Neutral",
            RiskAversion::Passive => "Passive",
        }
    }
}

/// Parameters of an IB algo strategy. Percentages that the caller holds as
/// floating-point numbers are carried as their decimal text.
#[derive(Clone, Debug, PartialEq, Eq)]
pub enum AlgoParams {
    Vwap { max_pct_vol: String, no_take_liq: bool, allow_past_end_time: bool, start_time: String, end_time: String },
    Twap { allow_past_end_time: bool, start_time: String, end_time: String },
    ArrivalPx {
        max_pct_vol: String,
        risk_aversion: RiskAversion,
        allow_past_end_time: bool,
        force_completion: bool,
        start_time: String,
        end_time: String,
    },
    ClosePx { max_pct_vol: String, risk_aversion: RiskAversion, force_completion: bool, start_time: String },
    DarkIce { allow_past_end_time: bool, display_size: i64, start_time: String, end_time: String },
    PctVol { pct_vol: String, no_take_liq: bool, start_time: String, end_time: String },
}

/// The views of a list of strings.
pub open spec fn texts(v: Seq<String>) -> Seq<Seq<char>> {
    v.map_values(|s: String| s@)
}

/// "1" for true, "0" for false.
pub open spec fn flag_text(b: bool) -> Seq<char> {
    if b {
        "1"@
    } else {
        "0"@
    }
}

/// FIX tag 847 value (strategy name) of an algo.
pub open spec fn algo_name(algo: AlgoParams) -> Seq<char> {
    match algo {
        AlgoParams::Vwap { .. } => "Vwap"@,
        AlgoParams::Twap { .. } => "Twap"@,
        AlgoParams::ArrivalPx { .. } => "ArrivalPx"@,
        AlgoParams::ClosePx { .. } => "ClosePx"@,
        AlgoParams::DarkIce { .. } => "DarkIce"@,
        AlgoParams::PctVol { .. } => "PctVol"@,
    }
}

/// The algo parameters as alternating key and value texts.
pub open spec fn algo_param_texts(algo: AlgoParams) -> Seq<Seq<char>> {
    match algo {
        AlgoParams::Vwap { no_take_liq, allow_past_end_time, start_time, end_time, .. } => seq![
            "noTakeLiq"@, flag_text(no_take_liq),
            "allowPastEndTime"@, flag_text(allow_past_end_time),
            "startTime"@, start_time@,
            "endTime"@, end_time@,
        ],
        AlgoParams::Twap { allow_past_end_time, start_time, end_time } => seq![
            "allowPastEndTime"@, flag_text(allow_past_end_time),
            "startTime"@, start_time@,
            "endTime"@, end_time@,
        ],
        AlgoParams::ArrivalPx { risk_aversion, allow_past_end_time, force_completion, start_time, end_time, .. } => seq![
            "riskAversion"@, risk_aversion_text(risk_aversion),
            "allowPastEndTime"@, flag_text(allow_past_end_time),
            "forceCompletion"@, flag_text(force_completion),
            "startTime"@, start_time@,
            "endTime"@, end_time@,
        ],
        AlgoParams::ClosePx { risk_aversion, force_completion, start_time, .. } => seq![
            "riskAversion"@, risk_aversion_text(risk_aversion),
            "forceCompletion"@, flag_text(force_completion),
            "startTime"@, start_time@,
        ],
        AlgoParams::DarkIce { allow_past_end_time, display_size, start_time, end_time } => seq![
            "allowPastEndTime"@, flag_text(allow_past_end_time),
            "displaySize"@, int_text(display_size as int),
            "startTime"@, start_time@,
            "endTime"@, end_time@,
        ],
        AlgoParams::PctVol { pct_vol, no_take_liq, start_time, end_time } => seq![
            "noTakeLiq"@, flag_text(no_take_liq),
            "pctVol"@, pct_vol@,
            "startTime"@, start_time@,
            "endTime"@, end_time@,
        ],
    }
}

fn flag_str(b: bool) -> (s: &'static str)
    ensures
        s@ == flag_text(b),
{
    if b {
        "1"
    } else {
        "0"
    }
}

fn push_text(v: &mut Vec<String>, s: &str)
    ensures
        texts(final(v)@) == texts(old(v)@).push(s@),
{
    v.push(s.to_string());
    assert(texts(v@) =~= texts(old(v)@).push(s@));
}

fn push_string(v: &mut Vec<String>, s: String)
    ensures
        texts(final(v)@) == texts(old(v)@).push(s@),
{
    let ghost sv = s@;
    v.push(s);
    assert(texts(v@) =~= texts(old(v)@).push(sv));
}

/// The strategy name (tag 847) of an algo and its parameters as alternating
/// key/value strings (tags 5958/5960).
pub fn build_algo_tags(algo: &AlgoParams) -> (r: (&'static str, Vec<String>))
    ensures
        r.0@ == algo_name(*algo),
        texts(r.1@) == algo_param_texts(*algo),
{
    let mut v: Vec<String> = Vec::new();
    assert(texts(v@) =~= Seq::<Seq<char>>::empty());
    let name = match algo {
        AlgoParams::Vwap { no_take_liq, allow_past_end_time, start_time, end_time, .. } => {
            push_text(&mut v, "noTakeLiq");
            push_text(&mut v, flag_str(*no_take_liq));
            push_text(&mut v, "allowPastEndTime");
            push_text(&mut v, flag_str(*allow_past_end_time));
            push_text(&mut v, "startTime");
            push_text(&mut v, start_time.as_str());
            push_text(&mut v, "endTime");
            push_text(&mut v, end_time.as_str());
            "Vwap"
        },
        AlgoParams::Twap { allow_past_end_time, start_time, end_time } => {
            push_text(&mut v, "allowPastEndTime");
            push_text(&mut v, flag_str(*allow_past_end_time));
            push_text(&mut v, "startTime");
            push_text(&mut v, start_time.as_str());
            push_text(&mut v, "endTime");
            push_text(&mut v, end_time.as_str());
            "Twap"
        },
        AlgoParams::ArrivalPx { risk_aversion, allow_past_end_time, force_completion, start_time, end_time, .. } => {
            push_text(&mut v, "riskAversion");
            push_text(&mut v, risk_aversion.as_str());
            push_text(&mut v, "allowPastEndTime");
            push_text(&mut v, flag_str(*allow_past_end_time));
            push_text(&mut v, "forceCompletion");
            push_text(&mut v, flag_str(*force_completion));
            push_text(&mut v, "startTime");
            push_text(&mut v, start_time.as_str());
            push_text(&mut v, "endTime");
            push_text(&mut v, end_time.as_str());
            "ArrivalPx"
        },
        AlgoParams::ClosePx { risk_aversion, force_completion, start_time, .. } => {
            push_text(&mut v, "riskAversion");
            push_text(&mut v, risk_aversion.as_str());
            push_text(&mut v, "forceCompletion");
            push_text(&mut v, flag_str(*force_completion));
            push_text(&mut v, "startTime");
            push_text(&mut v, start_time.as_str());
            "ClosePx"
        },
        AlgoParams::DarkIce { allow_past_end_time, display_size, start_time, end_time } => {
            push_text(&mut v, "allowPastEndTime");
            push_text(&mut v, flag_str(*allow_past_end_time));
            push_text(&mut v, "displaySize");
            push_string(&mut v, i64_text(*display_size));
            push_text(&mut v, "startTime");
            push_text(&mut v, start_time.as_str());
            push_text(&mut v, "endTime");
            push_text(&mut v, end_time.as_str());
            "DarkIce"
        },
        AlgoParams::PctVol { pct_vol, no_take_liq, start_time, end_time } => {
            push_text(&mut v, "noTakeLiq");
            push_text(&mut v, flag_str(*no_take_liq));
            push_text(&mut v, "pctVol");
            push_text(&mut v, pct_vol.as_str());
            push_text(&mut v, "startTime");
            push_text(&mut v, start_time.as_str());
            push_text(&mut v, "endTime");
            push_text(&mut v, end_time.as_str());
            "PctVol"
        },
    };
    assert(texts(v@) =~= algo_param_texts(*algo));
    (name, v)
}

/// A condition attached to an order (IB's 6136+ condition framework).
/// Percent changes that the caller holds as floating-point numbers are
/// carried as their decimal text.
#[derive(Clone, Debug, PartialEq, Eq)]
pub enum OrderCondition {
    Price { con_id: i64, exchange: String, price: i64, is_more: bool, trigger_method: i32 },
    Time { time: String, is_more: bool },
    Margin { percent: i64, is_more: bool },
    Execution { symbol: String, exchange: String, sec_type: String },
    Volume { con_id: i64, exchange: String, volume: i64, is_more: bool },
    PercentChange { con_id: i64, exchange: String, percent: String, is_more: bool },
}

/// Operator text of a condition: ">=" when the trigger is "more", else "<=".
pub open spec fn operator_text(is_more: bool) -> Seq<char> {
    if is_more {
        ">="@
    } else {
        "<="@
    }
}

/// The 11 strings of one condition: condType, conjunction ("n" for the last
/// condition, "a" otherwise), operator, conId, exchange, triggerMethod,
/// price, time, percent, volume, execution; unused slots are empty.
pub open spec fn condition_texts(c: OrderCondition, is_last: bool) -> Seq<Seq<char>> {
    let conj = if is_last { "n"@ } else { "a"@ };
    let e = Seq::<char>::empty();
    match c {
        OrderCondition::Price { con_id, exchange, price, is_more, trigger_method } => seq![
            "1"@, conj, operator_text(is_more), int_text(con_id as int), exchange@,
            int_text(trigger_method as int), price_text(price as int), e, e, e, e,
        ],
        OrderCondition::Time { time, is_more } => seq![
            "3"@, conj, operator_text(is_more), e, e, e, e, time@, e, e, e,
        ],
        OrderCondition::Margin { percent, is_more } => seq![
            "4"@, conj, operator_text(is_more), e, e, e, e, e, int_text(percent as int), e, e,
        ],
        OrderCondition::Execution { symbol, exchange, sec_type } => seq![
            "5"@, conj, e, e, e, e, e, e, e, e,
            "symbol="@ + symbol@ + ";exchange="@ + (if exchange@ == "SMART"@ { "*"@ } else { exchange@ })
                + ";securityType="@ + sec_type@ + ";"@,
        ],
        OrderCondition::Volume { con_id, exchange, volume, is_more } => seq![
            "6"@, conj, operator_text(is_more), int_text(con_id as int), exchange@,
            e, e, e, e, int_text(volume as int), e,
        ],
        OrderCondition::PercentChange { con_id, exchange, percent, is_more } => seq![
            "7"@, conj, operator_text(is_more), int_text(con_id as int), exchange@,
            e, e, e, percent@, e, e,
        ],
    }
}

/// The strings of the first `k` conditions, 11 per condition.
pub open spec fn condition_blocks(conds: Seq<OrderCondition>, k: nat) -> Seq<Seq<char>>
    decreases k,
{
    if k == 0 {
        Seq::empty()
    } else {
        condition_blocks(conds, (k - 1) as nat) + condition_texts(conds[k - 1], k - 1 == conds.len() - 1)
    }
}

/// All condition strings: the count, then 11 strings per condition.
pub open spec fn condition_strings(conds: Seq<OrderCondition>) -> Seq<Seq<char>> {
    seq![nat_text(conds.len())] + condition_blocks(conds, conds.len())
}

fn op_str(is_more: bool) -> (s: &'static str)
    ensures
        s@ == operator_text(is_more),
{
    if is_more {
        ">="
    } else {
        "<="
    }
}

fn push_empty(v: &mut Vec<String>, n: usize)
    ensures
        texts(final(v)@) == texts(old(v)@) + Seq::new(n as nat, |i: int| Seq::<char>::empty()),
{
    proof {
        reveal_strlit("");
        assert(""@ =~= Seq::<char>::empty());
    }
    let mut i: usize = 0;
    while i < n
        invariant
            i <= n,
            ""@ == Seq::<char>::empty(),
            texts(v@) == texts(old(v)@) + Seq::new(i as nat, |j: int| Seq::<char>::empty()),
        decreases n - i,
    {
        push_text(v, "");
        i = i + 1;
        assert(texts(v@) =~= texts(old(v)@) + Seq::new(i as nat, |j: int| Seq::<char>::empty()));
    }
}

/// The text of an execution condition:
/// `symbol=<s>;exchange=<e or * for SMART>;securityType=<t>;`.
fn execution_text(symbol: &str, exchange: &str, sec_type: &str) -> (s: String)
    ensures
        s@ == "symbol="@ + symbol@ + ";exchange="@ + (if exchange@ == "SMART"@ { "*"@ } else { exchange@ })
            + ";securityType="@ + sec_type@ + ";"@,
{
    let exch = if str_eq(exchange, "SMART") { "*" } else { exchange };
    let mut s = "symbol=".to_string();
    s.append(symbol);
    s.append(";exchange=");
    s.append(exch);
    s.append(";securityType=");
    s.append(sec_type);
    s.append(";");
    s
}

/// Appends the 11 strings of one condition.
fn push_condition(out: &mut Vec<String>, c: &OrderCondition, is_last: bool)
    ensures
    texts(final(out)@) == texts(old(out)@) + condition_texts(*c, is_last),
{
    let conj = if is_last { "n" } else { "a" };
    let ghost before = texts(out@);
    proof {
        reveal_strlit("");
        assert(""@ =~= Seq::<char>::empty());
    }
    match c {
        OrderCondition::Price { con_id, exchange, price, is_more, trigger_method } => {
            push_text(out, "1");
            push_text(out, conj);
            push_text(out, op_str(*is_more));
            push_string(out, i64_text(*con_id));
            push_text(out, exchange.as_str());
            push_string(out, i64_text(*trigger_method as i64));
            push_string(out, format_price(*price));
            push_empty(out, 4);
        },
        OrderCondition::Time { time, is_more } => {
            push_text(out, "3");
            push_text(out, conj);
            push_text(out, op_str(*is_more));
            push_empty(out, 4);
            push_text(out, time.as_str());
            push_empty(out, 3);
        },
        OrderCondition::Margin { percent, is_more } => {
            push_text(out, "4");
            push_text(out, conj);
            push_text(out, op_str(*is_more));
            push_empty(out, 5);
            push_string(out, i64_text(*percent));
            push_empty(out, 2);
        },
        OrderCondition::Execution { symbol, exchange, sec_type } => {
            push_text(out, "5");
            push_text(out, conj);
            push_empty(out, 8);
            push_string(out, execution_text(symbol.as_str(), exchange.as_str(), sec_type.as_str()));
        },
        OrderCondition::Volume { con_id, exchange, volume, is_more } => {
            push_text(out, "6");
            push_text(out, conj);
            push_text(out, op_str(*is_more));
            push_string(out, i64_text(*con_id));
            push_text(out, exchange.as_str());
            push_empty(out, 4);
            push_string(out, i64_text(*volume));
            push_empty(out, 1);
        },
        OrderCondition::PercentChange { con_id, exchange, percent, is_more } => {
            push_text(out, "7");
            push_text(out, conj);
            push_text(out, op_str(*is_more));
            push_string(out, i64_text(*con_id));
            push_text(out, exchange.as_str());
            push_empty(out, 3);
            push_text(out, percent.as_str());
            push_empty(out, 2);
        },
    }
    proof {
        reveal_strlit("n");
        reveal_strlit("a");
        assert(texts(out@) =~= before + condition_texts(*c, is_last));
    }
}

/// The strings of the order-condition tags: the number of conditions, then
/// for each condition 11 strings (see `condition_texts`).
pub fn build_condition_strings(conditions: &[OrderCondition]) -> (out: Vec<String>)
    requires
        conditions@.len() <= usize::MAX / 11,
    ensures
        texts(out@) == condition_strings(conditions@),
{
    let n = conditions.len();
    let mut out: Vec<String> = Vec::new();
    push_string(&mut out, u64_text(n as u64));
    assert(texts(out@) =~= seq![nat_text(n as nat)]);
    let mut i: usize = 0;
    while i < n
        invariant
            n == conditions@.len(),
            i <= n,
            texts(out@) == seq![nat_text(n as nat)] + condition_blocks(conditions@, i as nat),
        decreases n - i,
    {
        let is_last = i == n - 1;
        push_condition(&mut out, &conditions[i], is_last);
        proof {
            assert(condition_blocks(conditions@, (i + 1) as nat) == condition_blocks(conditions@, i as nat)
                + condition_texts(conditions@[i as int], i == conditions@.len() - 1));
        }
        i = i + 1;
    }
    out
}

} // verus!
