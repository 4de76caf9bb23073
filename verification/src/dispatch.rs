//! Which handler a farm or HMDS message goes to, by its message type (35).

use vstd::prelude::*;

use crate::fields::{field_value, fix_field};

verus! {

/// What a farm message is, by its message type.
#[derive(Clone, Copy, Debug, PartialEq, Eq, Structural)]
pub enum FarmMessage {
    /// 35=P: top-of-book ticks, possibly with depth entries.
    TickData,
    /// 35=Q: a market-data subscription acknowledgement.
    SubscriptionAck,
    /// 35=0.
    Heartbeat,
    /// 35=1: to be answered with a heartbeat.
    TestRequest,
    /// 35=L.
    TickerSetup,
    /// 35=UT, 35=UM or 35=RL.
    AccountUpdate,
    /// 35=UP.
    PositionUpdate,
    /// 35=Y: market-maker depth.
    MarketMakerDepth,
    /// 35=G.
    TickNews,
    Other,
}

/// What an HMDS message is, by its message type.
#[derive(Clone, Copy, Debug, PartialEq, Eq, Structural)]
pub enum HmdsMessage {
    /// 35=E: tick-by-tick data.
    TickByTick,
    /// 35=0.
    Heartbeat,
    /// 35=1: to be answered with a heartbeat.
    TestRequest,
    /// 35=W: a query response (bars, timestamps, errors, ...).
    QueryResponse,
    /// 35=U: a sub-protocol response (scanner, news, fundamentals).
    SubProtocol,
    /// 35=G: real-time bars.
    RealTimeBars,
    Other,
}

/// The message-type text (tag 35) as bytes.
pub open spec fn msg_type_tag() -> Seq<u8> {
    seq![0x33u8, 0x35u8]
}

/// The kind of a farm message; `None` without a message type.
pub open spec fn farm_message_kind(msg: Seq<u8>) -> Option<FarmMessage> {
    match field_value(msg, msg_type_tag()) {
        None => None,
        Some(t) => Some(
            if t == seq![0x50u8] {
                FarmMessage::TickData
            } else if t == seq![0x51u8] {
                FarmMessage::SubscriptionAck
            } else if t == seq![0x30u8] {
                FarmMessage::Heartbeat
            } else if t == seq![0x31u8] {
                FarmMessage::TestRequest
            } else if t == seq![0x4Cu8] {
                FarmMessage::TickerSetup
            } else if t == seq![0x55u8, 0x54u8] || t == seq![0x55u8, 0x4Du8] || t == seq![0x52u8, 0x4Cu8] {
                FarmMessage::AccountUpdate
            } else if t == seq![0x55u8, 0x50u8] {
                FarmMessage::PositionUpdate
            } else if t == seq![0x59u8] {
                FarmMessage::MarketMakerDepth
            } else if t == seq![0x47u8] {
                FarmMessage::TickNews
            } else {
                FarmMessage::Other
            },
        ),
    }
}

/// The kind of an HMDS message; `None` without a message type.
pub open spec fn hmds_message_kind(msg: Seq<u8>) -> Option<HmdsMessage> {
    match field_value(msg, msg_type_tag()) {
        None => None,
        Some(t) => Some(
            if t == seq![0x45u8] {
                HmdsMessage::TickByTick
            } else if t == seq![0x30u8] {
                HmdsMessage::Heartbeat
            } else if t == seq![0x31u8] {
                HmdsMessage::TestRequest
            } else if t == seq![0x57u8] {
                HmdsMessage::QueryResponse
            } else if t == seq![0x55u8] {
                HmdsMessage::SubProtocol
            } else if t == seq![0x47u8] {
                HmdsMessage::RealTimeBars
            } else {
                HmdsMessage::Other
            },
        ),
    }
}

/// Whether `t` holds exactly the bytes `a`.
fn is_one(t: &[u8], a: u8) -> (r: bool)
    ensures
        r == (t@ == seq![a]),
{
    if t.len() == 1 && t[0] == a {
        assert(t@ =~= seq![a]);
        true
    } else {
        false
    }
}

/// Whether `t` holds exactly the bytes `a b`.
fn is_two(t: &[u8], a: u8, b: u8) -> (r: bool)
    ensures
        r == (t@ == seq![a, b]),
{
    if t.len() == 2 && t[0] == a && t[1] == b {
        assert(t@ =~= seq![a, b]);
        true
    } else {
        false
    }
}

/// The message-type field of a message.
fn msg_type(msg: &[u8]) -> (r: Option<&[u8]>)
    ensures
        match r {
            Some(t) => field_value(msg@, msg_type_tag()) == Some(t@),
            None => field_value(msg@, msg_type_tag()) is None,
        },
{
    let tag: [u8; 2] = [0x33, 0x35];
    assert(tag@ == msg_type_tag());
    fix_field(msg, &tag)
}

/// Classifies a farm message (see `farm_message_kind`).
pub fn classify_farm_message(msg: &[u8]) -> (r: Option<FarmMessage>)
    ensures
        r == farm_message_kind(msg@),
{
    let t = match msg_type(msg) {
        Some(t) => t,
        None => return None,
    };
    Some(
        if is_one(t, 0x50) {
            FarmMessage::TickData
        } else if is_one(t, 0x51) {
            FarmMessage::SubscriptionAck
        } else if is_one(t, 0x30) {
            FarmMessage::Heartbeat
        } else if is_one(t, 0x31) {
            FarmMessage::TestRequest
        } else if is_one(t, 0x4C) {
            FarmMessage::TickerSetup
        } else if is_two(t, 0x55, 0x54) || is_two(t, 0x55, 0x4D) || is_two(t, 0x52, 0x4C) {
            FarmMessage::AccountUpdate
        } else if is_two(t, 0x55, 0x50) {
            FarmMessage::PositionUpdate
        } else if is_one(t, 0x59) {
            FarmMessage::MarketMakerDepth
        } else if is_one(t, 0x47) {
            FarmMessage::TickNews
        } else {
            FarmMessage::Other
        },
    )
}

/// Classifies an HMDS message (see `hmds_message_kind`).
pub fn classify_hmds_message(msg: &[u8]) -> (r: Option<HmdsMessage>)
    ensures
        r == hmds_message_kind(msg@),
{
    let t = match msg_type(msg) {
        Some(t) => t,
        None => return None,
    };
    Some(
        if is_one(t, 0x45) {
            HmdsMessage::TickByTick
        } else if is_one(t, 0x30) {
            HmdsMessage::Heartbeat
        } else if is_one(t, 0x31) {
            HmdsMessage::TestRequest
        } else if is_one(t, 0x57) {
            HmdsMessage::QueryResponse
        } else if is_one(t, 0x55) {
            HmdsMessage::SubProtocol
        } else if is_one(t, 0x47) {
            HmdsMessage::RealTimeBars
        } else {
            HmdsMessage::Other
        },
    )
}

} // verus!
