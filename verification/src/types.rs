use vstd::prelude::*;

verus! {

/// Dense index of a registered instrument (0, 1, 2, ... in registration order).
pub type InstrumentId = u32;

/// Fixed-point price: the real price times `PRICE_SCALE`.
pub type Price = i64;

/// Quantity (shares, contracts, volume).
pub type Qty = i64;

/// Fixed-point scale of `Price`.
pub const PRICE_SCALE: i64 = 100_000_000;

/// Capacity of the per-instrument tables. The hot loop notifies instruments
/// through a `u32` bit mask, so there are at most 32 of them.
pub const MAX_INSTRUMENTS: usize = 32;

/// Top-of-book and session data for one instrument.
#[derive(Clone, Copy, Debug, PartialEq, Eq, Structural)]
pub struct Quote {
    pub bid: Price,
    pub ask: Price,
    pub last: Price,
    pub bid_size: Qty,
    pub ask_size: Qty,
    pub last_size: Qty,
    pub volume: Qty,
    pub high: Price,
    pub low: Price,
    pub open: Price,
    pub close: Price,
    pub timestamp_ns: u64,
}

/// The all-zero quote of an instrument that has no data yet.
pub open spec fn zero_quote() -> Quote {
    Quote {
        bid: 0,
        ask: 0,
        last: 0,
        bid_size: 0,
        ask_size: 0,
        last_size: 0,
        volume: 0,
        high: 0,
        low: 0,
        open: 0,
        close: 0,
        timestamp_ns: 0,
    }
}

impl Default for Quote {
    fn default() -> (q: Quote)
        ensures
            q == zero_quote(),
    {
        Quote {
            bid: 0,
            ask: 0,
            last: 0,
            bid_size: 0,
            ask_size: 0,
            last_size: 0,
            volume: 0,
            high: 0,
            low: 0,
            open: 0,
            close: 0,
            timestamp_ns: 0,
        }
    }
}

} // verus!
