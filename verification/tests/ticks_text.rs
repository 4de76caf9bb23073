use ibx::market_state::MarketState;
use ibx::news::{decode_tick_news, TickNews};
use ibx::text::{format_price, i64_text, u64_text};
use ibx::ticks::{apply_ticks, ticks_applicable_check, RawTick, TickField};
use ibx::types::{Quote, PRICE_SCALE};

#[test]
fn ticks_update_quotes_and_announce_each_instrument_once() {
    let mut m = MarketState::new();
    let a = m.register(1);
    let b = m.register(2);
    m.register_server_tag(10, a);
    m.register_server_tag(20, b);
    m.set_min_tick_scaled(a, PRICE_SCALE / 100);
    let ticks = vec![
        RawTick { server_tag: 10, field: TickField::BidPrice, magnitude: 15000 },
        RawTick { server_tag: 99, field: TickField::AskPrice, magnitude: 1 },
        RawTick { server_tag: 10, field: TickField::AskPrice, magnitude: 15001 },
        RawTick { server_tag: 20, field: TickField::Volume, magnitude: 700 },
        RawTick { server_tag: 10, field: TickField::Timestamp, magnitude: -1 },
        RawTick { server_tag: 20, field: TickField::Other, magnitude: 5 },
    ];
    let events = apply_ticks(&mut m, &ticks);
    assert_eq!(events.len(), 2);
    assert_eq!(events[0].0, a);
    assert_eq!(events[0].1.bid, 150 * PRICE_SCALE);
    assert_eq!(events[0].1.ask, 0);
    assert_eq!(events[1].0, b);
    assert_eq!(events[1].1.volume, 700);
    assert_eq!(m.bid(a), 150 * PRICE_SCALE);
    assert_eq!(m.ask(a), 15001 * (PRICE_SCALE / 100));
    assert_eq!(m.quote(a).timestamp_ns, u64::MAX);
    assert_eq!(*m.quote(2), Quote::default());
}

#[test]
fn price_text_trims_fraction() {
    assert_eq!(format_price(150 * PRICE_SCALE + 10_000_000), "150.1");
    assert_eq!(format_price(2 * PRICE_SCALE), "2");
    assert_eq!(format_price(-12_345), "-0.00012345");
    assert_eq!(format_price(0), "0");
    assert_eq!(format_price(i64::MIN), "-92233720368.54775808");
    assert_eq!(u64_text(u64::MAX), "18446744073709551615");
    assert_eq!(i64_text(-42), "-42");
}

#[test]
fn tick_news_items_are_decoded() {
    let mut m = MarketState::new();
    let id = m.register(5);
    m.register_server_tag(0x0102_0304, id);
    let mut body = vec![0x1E, 0x90, 0x01, 0x02, 0x03, 0x04, 0, 0, 0, 0, 0, 1];
    body.extend_from_slice(&[0, 0, 0, 4]);
    body.extend_from_slice(b"BRFG");
    body.extend_from_slice(&[0, 0, 0, 0]);
    body.extend_from_slice(&[0, 3]);
    body.extend_from_slice(b"A12");
    body.extend_from_slice(&[0, 0, 0, 0, 0x65, 0x00, 0x00, 0x00]);
    body.extend_from_slice(&[0, 0, 0, 9]);
    body.extend_from_slice(b"{A:1}Hi!!");
    let news = decode_tick_news(&body, &m);
    assert_eq!(news.len(), 1);
    assert_eq!(news[0].instrument, id);
    assert_eq!(news[0].provider_code, b"BRFG".to_vec());
    assert_eq!(news[0].article_id, b"A12".to_vec());
    assert_eq!(news[0].timestamp, 0x6500_0000);
    assert_eq!(news[0].headline, b"Hi!!".to_vec());
    body[1] = 0x91;
    assert!(decode_tick_news(&body, &m).is_empty());
}

#[test]
fn tick_batches_are_checked_before_they_are_applied() {
    let mut m = MarketState::new();
    let a = m.register(1);
    m.register_server_tag(10, a);
    m.register_server_tag(11, 40);
    m.set_min_tick_scaled(a, PRICE_SCALE);
    let fine = [
        RawTick { server_tag: 10, field: TickField::BidPrice, magnitude: 15000 },
        RawTick { server_tag: 99, field: TickField::AskPrice, magnitude: i64::MAX },
        RawTick { server_tag: 10, field: TickField::Volume, magnitude: i64::MAX },
    ];
    assert!(ticks_applicable_check(&m, &fine));
    let overflow = [RawTick { server_tag: 10, field: TickField::LastPrice, magnitude: i64::MAX / 2 }];
    assert!(!ticks_applicable_check(&m, &overflow));
    let out_of_range = [RawTick { server_tag: 11, field: TickField::Volume, magnitude: 1 }];
    assert!(!ticks_applicable_check(&m, &out_of_range));
    assert!(ticks_applicable_check(&m, &[]));
}

#[test]
fn news_texts_are_lossy_utf8() {
    let news = TickNews {
        instrument: 0,
        provider_code: b"BRFG".to_vec(),
        article_id: vec![0x41, 0xC3],
        headline: "caf\u{e9}".as_bytes().to_vec(),
        timestamp: 1,
    };
    let (p, a, h) = news.texts();
    assert_eq!(p, "BRFG");
    assert_eq!(a, "A\u{FFFD}");
    assert_eq!(h, "caf\u{e9}");
}
