use ibx::depth::{body_has_depth_entry, decode_depth_35p, decode_depth_35y, lookup_depth_tag, market_maker_text, DepthTag, DepthUpdate};
use ibx::farm::{apply_ticker_setup, build_cancel_request, farm_conn_for_slot, AckOutcome, FarmSlot, FarmState};
use ibx::fields::{fix_field, parse_i64, parse_subscription_ack, parse_ticker_setup, parse_u32, split_commas_exec, trim_ascii};
use ibx::fix_msg::build_heartbeat;
use ibx::market_state::MarketState;
use ibx::wire::find_body_after_tag;

fn pairs(v: &[(u32, String)]) -> Vec<(u32, &str)> {
    v.iter().map(|(t, s)| (*t, s.as_str())).collect()
}

#[test]
fn subscribe_then_ack_registers_server_tag() {
    let mut market = MarketState::new();
    let id = market.register(265598);
    let mut farm = FarmState::new();
    let (a, b, fields) = farm.mktdata_subscribe(265598, id, FarmSlot::UsFarm, "20240101-00:00:00");
    assert_eq!((a, b), (1, 2));
    assert_eq!(farm.next_md_req_id, 3);
    assert_eq!(farm.md_req_to_instrument, vec![(1, id), (2, id)]);
    let f = pairs(&fields);
    assert_eq!(f[0], (35, "V"));
    assert_eq!(f[4], (262, "1"));
    assert_eq!(f[5], (6008, "265598"));
    assert_eq!(f[8], (264, "442"));
    assert_eq!(f[12], (262, "2"));
    assert_eq!(f[16], (264, "443"));
    assert_eq!(f.len(), 20);

    let out = farm.apply_subscription_ack(77, 1, 0.01f64.to_bits(), 1_000_000, &mut market);
    assert_eq!(out, AckOutcome::MarketData { instrument: id });
    assert_eq!(market.instrument_by_server_tag(77), Some(id));
    assert_eq!(market.min_tick_scaled(id), 1_000_000);
    assert_eq!(farm.md_req_to_instrument, vec![(2, id)]);
    assert_eq!(farm.apply_subscription_ack(78, 99, 0, 0, &mut market), AckOutcome::Unmatched);
}

#[test]
fn depth_ack_maps_server_tag_to_user_request() {
    let mut market = MarketState::new();
    let mut farm = FarmState::new();
    let msgs = farm.depth_subscribe(500, 265598, "SMART", "STK", true, FarmSlot::UsFarm, true);
    assert_eq!(msgs.len(), 18);
    assert_eq!(farm.depth_fanout_map.len(), 18);
    let sub = farm.depth_fanout_map[0].0;
    let out = farm.apply_subscription_ack(42, sub, 7, 0, &mut market);
    assert_eq!(out, AckOutcome::Depth { user_req: 500, is_smart: true });
    assert_eq!(farm.depth_tag_to_req, vec![DepthTag { server_tag: 42, req_id: 500, is_smart: true, min_tick_bits: 7 }]);
    assert_eq!(lookup_depth_tag(&farm.depth_tag_to_req, 42).map(|t| t.req_id), Some(500));

    let body = [0x00u8, 0x00, 0x00, 0x2A, 0x01, 0x00, 0x64, 0x21, 0x00, 0x05, 0x58];
    assert!(body_has_depth_entry(&body, &farm.depth_tag_to_req));
    assert!(!body_has_depth_entry(&body, &[]));
    let ups = decode_depth_35p(&body, &farm.depth_tag_to_req);
    assert_eq!(
        ups,
        vec![DepthUpdate {
            req_id: 500,
            server_tag: 42,
            position: 0,
            market_maker: None,
            operation: 1,
            side: 1,
            price_ticks: 100,
            size: 5,
            is_smart_depth: true,
        }]
    );
    assert_eq!(farm.depth_unsubscribe(500), Some(FarmSlot::UsFarm));
    assert!(farm.depth_tag_to_req.is_empty());
}

#[test]
fn plain_depth_subscribe_sends_one_request() {
    let mut farm = FarmState::new();
    let msgs = farm.depth_subscribe(9, 12, "ISLAND", "STK", false, FarmSlot::UsFarm, true);
    assert_eq!(msgs.len(), 1);
    assert_eq!(farm.depth_subs, vec![(9, FarmSlot::UsFarm, false)]);
    let down = farm.depth_subscribe(10, 12, "SMART", "STK", true, FarmSlot::UsFarm, false);
    assert!(down.is_empty());
}

#[test]
fn ticker_setup_registers_known_contract() {
    let mut market = MarketState::new();
    let id = market.register(8314);
    assert_eq!(apply_ticker_setup(&mut market, 8314, 55, 5_000_000), Some(id));
    assert_eq!(market.instrument_by_server_tag(55), Some(id));
    assert_eq!(apply_ticker_setup(&mut market, 1, 56, 5), None);
    assert_eq!(market.instrument_by_server_tag(56), None);
}

#[test]
fn ack_and_ticker_setup_parsers() {
    let msg = b"8=FIX\x0135=Q\x01  77,1,0.01,x,5 \x018349=sig";
    let body = find_body_after_tag(msg, b"35=Q\x01").expect("body");
    let (tag, req, mt) = parse_subscription_ack(body).expect("ack");
    assert_eq!((tag, req, mt), (77, 1, &b"0.01"[..]));
    assert!(parse_subscription_ack(b"77,1").is_none());
    assert!(parse_subscription_ack(b"x,1,2").is_none());
    assert!(parse_subscription_ack(b"4294967296,1,2").is_none());
    let (con, mt2, tag2) = parse_ticker_setup(b"-8314,0.05,+9").expect("setup");
    assert_eq!((con, mt2, tag2), (-8314, &b"0.05"[..], 9));
    assert!(parse_ticker_setup(b"8314,0.05").is_none());
}

#[test]
fn number_parsers_follow_str_parse() {
    assert_eq!(parse_u32(b"4294967295"), Some(u32::MAX));
    assert_eq!(parse_u32(b"4294967296"), None);
    assert_eq!(parse_u32(b"+7"), Some(7));
    assert_eq!(parse_u32(b"+"), None);
    assert_eq!(parse_u32(b""), None);
    assert_eq!(parse_u32(b"-1"), None);
    assert_eq!(parse_i64(b"-9223372036854775808"), Some(i64::MIN));
    assert_eq!(parse_i64(b"9223372036854775808"), None);
    assert_eq!(parse_i64(b"-0"), Some(0));
    assert_eq!(parse_i64(b"-"), None);
    let parts = split_commas_exec(b"a,,b");
    assert_eq!(parts, vec![&b"a"[..], &b""[..], &b"b"[..]]);
    assert_eq!(trim_ascii(b" \t x y \r\n"), b"x y");
    assert_eq!(fix_field(b"35=W\x016118=abc\x01", b"6118"), Some(&b"abc"[..]));
    assert_eq!(fix_field(b"135=W\x01", b"35"), None);
}

#[test]
fn disconnect_and_reconnect_resubscribe() {
    let mut market = MarketState::new();
    let a = market.register(100);
    let b = market.register(200);
    let mut farm = FarmState::new();
    farm.mktdata_subscribe(100, a, FarmSlot::UsFarm, "t");
    farm.mktdata_subscribe(200, b, FarmSlot::CashFarm, "t");
    farm.mktdata_subscribe(300, 7, FarmSlot::UsFarm, "t");
    farm.apply_subscription_ack(11, 1, 0, 0, &mut market);
    market.quote_mut(a).bid = 5;
    farm.handle_disconnect(&mut market);
    assert!(farm.disconnected);
    assert_eq!(market.instrument_by_server_tag(11), None);
    assert_eq!(market.bid(a), 0);
    assert!(farm.instrument_md_reqs.is_empty());

    let mut farm2 = FarmState::new();
    farm2.mktdata_subscribe(100, a, FarmSlot::UsFarm, "t");
    farm2.mktdata_subscribe(200, b, FarmSlot::CashFarm, "t");
    farm2.mktdata_subscribe(300, 7, FarmSlot::UsFarm, "t");
    farm2.disconnected = true;
    let msgs = farm2.reconnect(&market, "t2");
    assert!(!farm2.disconnected);
    assert_eq!(msgs.len(), 2);
    assert_eq!(msgs[0].0, FarmSlot::UsFarm);
    assert_eq!(msgs[1].0, FarmSlot::CashFarm);
    assert_eq!(farm2.next_md_req_id, 11);
    assert_eq!(farm2.md_req_to_instrument, vec![(7, a), (8, a), (9, b), (10, b)]);
}

#[test]
fn secondary_disconnect_clears_its_slot() {
    let mut farm = FarmState::new();
    farm.mktdata_subscribe(1, 0, FarmSlot::UsFarm, "t");
    farm.mktdata_subscribe(2, 1, FarmSlot::EuFarm, "t");
    assert_eq!(farm.handle_secondary_disconnect(FarmSlot::EuFarm), 1);
    assert_eq!(farm.instrument_md_reqs.len(), 1);
    assert_eq!(farm.md_req_to_instrument, vec![(1, 0), (2, 0)]);
    let r = farm.mktdata_unsubscribe(0).expect("subscribed");
    assert_eq!(r, (FarmSlot::UsFarm, vec![1, 2]));
    assert_eq!(pairs(&build_cancel_request(1)), vec![(35, "V"), (262, "1"), (263, "2")]);
    farm.handle_disconnect_for_test();
    assert!(farm.disconnected);
}

#[test]
fn farm_conn_falls_back_to_us_farm() {
    let mut us = Some(1);
    let mut cash: Option<i32> = None;
    let mut fut = Some(3);
    let mut eu: Option<i32> = None;
    let mut j: Option<i32> = None;
    assert_eq!(farm_conn_for_slot(FarmSlot::CashFarm, &mut us, &mut cash, &mut fut, &mut eu, &mut j).map(|c| *c), Some(1));
    assert_eq!(farm_conn_for_slot(FarmSlot::UsFuture, &mut us, &mut cash, &mut fut, &mut eu, &mut j).map(|c| *c), Some(3));
    let mut none: Option<i32> = None;
    assert_eq!(farm_conn_for_slot(FarmSlot::JFarm, &mut none, &mut cash, &mut fut, &mut eu, &mut j).map(|c| *c), None);
}

#[test]
fn lent_connection_keeps_what_is_written_through_it() {
    let (mut us, mut cash, mut fut, mut eu, mut j) = (Some(1), None, Some(3), None, Some(5));
    if let Some(c) = farm_conn_for_slot(FarmSlot::CashFarm, &mut us, &mut cash, &mut fut, &mut eu, &mut j) {
        *c = 10;
    }
    assert_eq!((us, cash, fut, eu, j), (Some(10), None, Some(3), None, Some(5)));
    if let Some(c) = farm_conn_for_slot(FarmSlot::JFarm, &mut us, &mut cash, &mut fut, &mut eu, &mut j) {
        *c = 50;
    }
    assert_eq!((us, cash, fut, eu, j), (Some(10), None, Some(3), None, Some(50)));
}

#[test]
fn heartbeat_answers_test_request() {
    assert_eq!(pairs(&build_heartbeat("T", "abc")), vec![(35, "0"), (52, "T"), (112, "abc")]);
}

#[test]
fn market_maker_depth_entries() {
    let table = vec![DepthTag { server_tag: 42, req_id: 3, is_smart: false, min_tick_bits: 0 }];
    let body = [0u8, 0, 0, 0, 0, 42, 0xC4, 0x4E, 0x53, 0x44, 0x51, 2, 0x01, 0x00, 0x64, 0x80, 0x07];
    let ups = decode_depth_35y(&body, &table);
    assert_eq!(
        ups,
        vec![DepthUpdate {
            req_id: 3,
            server_tag: 42,
            position: 2,
            market_maker: Some(0x4E53_4451),
            operation: 1,
            side: 1,
            price_ticks: 100,
            size: 7,
            is_smart_depth: false,
        }]
    );
    assert!(decode_depth_35y(&body[..5], &table).is_empty());
    assert!(decode_depth_35y(&body, &[]).is_empty());
}

#[test]
fn market_maker_ask_side_from_bit_three() {
    let table = vec![DepthTag { server_tag: 42, req_id: 3, is_smart: true, min_tick_bits: 0 }];
    // One price field with tag 0x08 (ask, one-byte value), then a snapshot size field 0x8C.
    let body = [0u8, 0, 0, 0, 0, 42, 0x44, 0, 0, 0, 1, 0, 0x08, 0x05, 0x8C, 0x09];
    let ups = decode_depth_35y(&body, &table);
    assert_eq!(ups.len(), 1);
    assert_eq!(ups[0].side, 0);
    assert_eq!(ups[0].price_ticks, 5);
    assert_eq!(ups[0].size, 9);
    assert_eq!(ups[0].operation, 0);
    assert!(ups[0].is_smart_depth);
    // A tag with only bit 5 set is a bid.
    let body_b = [0u8, 0, 0, 0, 0, 42, 0x44, 0, 0, 0, 1, 0, 0x20, 0x05];
    assert_eq!(decode_depth_35y(&body_b, &table)[0].side, 1);
}

#[test]
fn request_ids_read_back_from_their_text() {
    for n in [0u32, 7, 10, 1000, 4294967295] {
        let text = ibx::text::u64_text(n as u64);
        assert_eq!(parse_u32(text.as_bytes()), Some(n));
    }
}

#[test]
fn market_maker_names_are_trimmed_text() {
    assert_eq!(market_maker_text(0x4E53_4451), "NSDQ");
    assert_eq!(market_maker_text(0x2041_4220), "AB");
    assert_eq!(market_maker_text(0x4142_4300), "ABC\0");
    assert_eq!(market_maker_text(0x41FF_4243), "A\u{FFFD}BC");
}
