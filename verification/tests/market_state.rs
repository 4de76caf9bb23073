use ibx::market_state::MarketState;
use ibx::types::PRICE_SCALE;

#[test]
fn register_returns_sequential_ids() {
    let mut ms = MarketState::new();
    assert_eq!(ms.register(265598), 0);
    assert_eq!(ms.register(272093), 1);
    assert_eq!(ms.register(756733), 2);
}

#[test]
fn register_same_conid_returns_same_id() {
    let mut ms = MarketState::new();
    let id1 = ms.register(265598);
    let id2 = ms.register(265598);
    assert_eq!(id1, id2);
}

#[test]
fn quote_default_is_zero() {
    let ms = MarketState::new();
    let q = ms.quote(0);
    assert_eq!(q.bid, 0);
    assert_eq!(q.ask, 0);
    assert_eq!(q.last, 0);
}

#[test]
fn update_quote_and_read_back() {
    let mut ms = MarketState::new();
    let id = ms.register(265598);
    let q = ms.quote_mut(id);
    q.bid = 150 * PRICE_SCALE;
    q.ask = 15010 * (PRICE_SCALE / 100);
    q.last = 15005 * (PRICE_SCALE / 100);

    assert_eq!(ms.bid(id), 150 * PRICE_SCALE);
    assert_eq!(ms.ask(id), 15010 * (PRICE_SCALE / 100));
    assert_eq!(ms.last(id), 15005 * (PRICE_SCALE / 100));
}

#[test]
fn bid_ask_size() {
    let mut ms = MarketState::new();
    let id = ms.register(265598);
    let q = ms.quote_mut(id);
    q.bid_size = 500;
    q.ask_size = 300;

    assert_eq!(ms.bid_size(id), 500);
    assert_eq!(ms.ask_size(id), 300);
}

#[test]
fn mid_price() {
    let mut ms = MarketState::new();
    let id = ms.register(265598);
    let q = ms.quote_mut(id);
    q.bid = 100 * PRICE_SCALE;
    q.ask = 102 * PRICE_SCALE;
    assert_eq!(ms.mid(id), 101 * PRICE_SCALE);
}

#[test]
fn spread_calculation() {
    let mut ms = MarketState::new();
    let id = ms.register(265598);
    let q = ms.quote_mut(id);
    q.bid = 15000 * (PRICE_SCALE / 100);
    q.ask = 15010 * (PRICE_SCALE / 100);
    assert_eq!(ms.spread(id), 10 * (PRICE_SCALE / 100));
}

#[test]
fn multiple_instruments_independent() {
    let mut ms = MarketState::new();
    let aapl = ms.register(265598);
    let msft = ms.register(272093);

    ms.quote_mut(aapl).bid = 150 * PRICE_SCALE;
    ms.quote_mut(msft).bid = 400 * PRICE_SCALE;

    assert_eq!(ms.bid(aapl), 150 * PRICE_SCALE);
    assert_eq!(ms.bid(msft), 400 * PRICE_SCALE);
}

#[test]
fn server_tag_mapping() {
    let mut ms = MarketState::new();
    let aapl = ms.register(265598);
    ms.register_server_tag(42, aapl);
    assert_eq!(ms.instrument_by_server_tag(42), Some(aapl));
    assert_eq!(ms.instrument_by_server_tag(99), None);
}

#[test]
fn server_tag_dedup() {
    let mut ms = MarketState::new();
    let aapl = ms.register(265598);
    ms.register_server_tag(42, aapl);
    ms.register_server_tag(42, aapl);
    assert_eq!(ms.server_tag_count(), 1);
}

#[test]
fn instrument_by_con_id_found() {
    let mut ms = MarketState::new();
    ms.register(265598);
    assert_eq!(ms.instrument_by_con_id(265598), Some(0));
}

#[test]
fn instrument_by_con_id_not_found() {
    let ms = MarketState::new();
    assert_eq!(ms.instrument_by_con_id(999999), None);
}

#[test]
fn instrument_by_con_id_multiple() {
    let mut ms = MarketState::new();
    ms.register(265598);
    ms.register(272093);
    ms.register(756733);
    assert_eq!(ms.instrument_by_con_id(272093), Some(1));
    assert_eq!(ms.instrument_by_con_id(756733), Some(2));
}

#[test]
fn active_instruments_empty() {
    let ms = MarketState::new();
    assert_eq!(ms.active_instruments().len(), 0);
}

#[test]
fn active_instruments_returns_all() {
    let mut ms = MarketState::new();
    ms.register(265598);
    ms.register(272093);
    ms.register(756733);
    let active = ms.active_instruments();
    assert_eq!(active.len(), 3);
    assert_eq!(active[0], (0, 265598));
    assert_eq!(active[1], (1, 272093));
    assert_eq!(active[2], (2, 756733));
}

#[test]
fn active_instruments_iterable_twice() {
    let mut ms = MarketState::new();
    ms.register(265598);
    let first = ms.active_instruments();
    let second = ms.active_instruments();
    assert_eq!(first, second);
}

#[test]
fn multiple_server_tags_different_instruments() {
    let mut ms = MarketState::new();
    let a = ms.register(265598);
    let b = ms.register(272093);
    ms.register_server_tag(10, a);
    ms.register_server_tag(20, b);
    assert_eq!(ms.instrument_by_server_tag(10), Some(a));
    assert_eq!(ms.instrument_by_server_tag(20), Some(b));
}

#[test]
fn quote_ohlcv_fields() {
    let mut ms = MarketState::new();
    let id = ms.register(265598);
    let q = ms.quote_mut(id);
    q.open = 148 * PRICE_SCALE;
    q.high = 155 * PRICE_SCALE;
    q.low = 147 * PRICE_SCALE;
    q.close = 152 * PRICE_SCALE;
    q.volume = 50_000_000;
    q.timestamp_ns = 1709654400_000_000_000;

    let q_ref = ms.quote(id);
    assert_eq!(q_ref.open, 148 * PRICE_SCALE);
    assert_eq!(q_ref.high, 155 * PRICE_SCALE);
    assert_eq!(q_ref.low, 147 * PRICE_SCALE);
    assert_eq!(q_ref.close, 152 * PRICE_SCALE);
    assert_eq!(q_ref.volume, 50_000_000);
    assert_eq!(q_ref.timestamp_ns, 1709654400_000_000_000);
}

#[test]
fn spread_with_zero_bid_ask() {
    let ms = MarketState::new();
    assert_eq!(ms.spread(0), 0);
}

#[test]
fn mid_with_odd_spread() {
    let mut ms = MarketState::new();
    let id = ms.register(265598);
    let q = ms.quote_mut(id);
    q.bid = 99;
    q.ask = 100;
    assert_eq!(ms.mid(id), 99);
}

#[test]
fn clear_server_tags_removes_all() {
    let mut ms = MarketState::new();
    let a = ms.register(265598);
    let b = ms.register(272093);
    ms.register_server_tag(10, a);
    ms.register_server_tag(20, b);
    ms.clear_server_tags();
    assert_eq!(ms.instrument_by_server_tag(10), None);
    assert_eq!(ms.instrument_by_server_tag(20), None);
}

#[test]
fn zero_all_quotes_clears_active() {
    let mut ms = MarketState::new();
    let a = ms.register(265598);
    let b = ms.register(272093);
    ms.quote_mut(a).bid = 150 * PRICE_SCALE;
    ms.quote_mut(a).ask = 151 * PRICE_SCALE;
    ms.quote_mut(b).last = 400 * PRICE_SCALE;
    ms.zero_all_quotes();
    assert_eq!(ms.bid(a), 0);
    assert_eq!(ms.ask(a), 0);
    assert_eq!(ms.last(b), 0);
}

#[test]
fn zero_all_quotes_no_registered_is_noop() {
    let mut ms = MarketState::new();
    ms.zero_all_quotes();
}

#[test]
fn min_tick_scaled_set_and_get() {
    let mut ms = MarketState::new();
    let a = ms.register(265598);
    let b = ms.register(272093);
    assert_eq!(ms.min_tick_scaled(a), 0);
    ms.set_min_tick_scaled(a, PRICE_SCALE / 100);
    ms.set_min_tick_scaled(b, 5 * PRICE_SCALE / 100);
    assert_eq!(ms.min_tick_scaled(a), 1_000_000);
    assert_eq!(ms.min_tick_scaled(b), 5_000_000);
}

#[test]
fn symbol_set_and_default() {
    let mut ms = MarketState::new();
    let a = ms.register(265598);
    assert_eq!(ms.symbol(a), "?");
    ms.set_symbol(a, "AAPL".to_string());
    assert_eq!(ms.symbol(a), "AAPL");
    ms.set_symbol(a, "AAPL2".to_string());
    assert_eq!(ms.symbol(a), "AAPL2");
    assert_eq!(ms.count(), 1);
    assert_eq!(ms.con_id(a), Some(265598));
    assert_eq!(ms.con_id(5), None);
}

#[test]
fn server_tag_first_registration_wins() {
    let mut ms = MarketState::new();
    let a = ms.register(1);
    let b = ms.register(2);
    ms.register_server_tag(7, a);
    ms.register_server_tag(7, b);
    assert_eq!(ms.instrument_by_server_tag(7), Some(a));
}

#[test]
fn mid_of_negative_sum_truncates_toward_zero() {
    let mut ms = MarketState::new();
    let id = ms.register(1);
    ms.quote_mut(id).bid = -3;
    ms.quote_mut(id).ask = 0;
    assert_eq!(ms.mid(id), -1);
}
