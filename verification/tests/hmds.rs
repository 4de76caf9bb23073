use ibx::dispatch::{classify_farm_message, classify_hmds_message, FarmMessage, HmdsMessage};
use ibx::hmds::{
    build_cancel_xml, parse_rtbar_frame, BarDataType, BarSize, HmdsState, ReportType, SubProtocolOutcome, TbtEntry, TbtEvent,
    TbtType, DEFAULT_MIN_TICK_BITS, HMDS_ERROR_CODE,
};

fn make_query_error_msg(query_id: &str, error: &str) -> Vec<u8> {
    let xml = format!(
        "<?xml version=\"1.0\" encoding=\"UTF-8\"?>\n<QueryError>\n\t<id>{}</id>\n\t<error>{}</error>\n</QueryError>\n",
        query_id, error,
    );
    let mut msg = Vec::new();
    msg.extend_from_slice(b"35=W\x016118=");
    msg.extend_from_slice(xml.as_bytes());
    msg.push(0x01);
    msg
}

#[test]
fn query_error_releases_historical_and_emits_error_and_end_sentinel() {
    let mut hmds = HmdsState::new();
    hmds.pending_historical.push(("hist_1003".to_string(), 11));
    hmds.keep_up_to_date_reqs.insert(11);

    let msg = make_query_error_msg("hist_1003", "Invalid time length");
    let report = hmds.handle_query_error_message(&msg).expect("a query error");

    assert!(hmds.pending_historical.is_empty(), "pending entry should be drained");
    assert!(!hmds.keep_up_to_date_reqs.contains(&11), "kut flag should be cleared");

    assert_eq!(report.released, Some(11));
    assert_eq!(HMDS_ERROR_CODE, 162);
    assert_eq!(report.error, "Invalid time length");
    assert_eq!(report.query_id.as_deref(), Some("hist_1003"));

    assert!(report.end_sentinel, "terminal sentinel must be queued for historical req");
}

#[test]
fn query_error_releases_head_timestamp_without_sentinel() {
    let mut hmds = HmdsState::new();
    hmds.pending_head_ts.push(("hts_1004".to_string(), 42));

    let msg = make_query_error_msg("hts_1004", "No head timestamp");
    let report = hmds.handle_query_error_message(&msg).expect("a query error");

    assert!(hmds.pending_head_ts.is_empty());
    assert_eq!((report.released, HMDS_ERROR_CODE, report.error.as_str()), (Some(42), 162, "No head timestamp"));
    assert!(!report.end_sentinel);
}

#[test]
fn query_error_for_unknown_query_id_drops_nothing_and_emits_no_error() {
    let mut hmds = HmdsState::new();
    hmds.pending_historical.push(("hist_1003".to_string(), 11));

    let msg = make_query_error_msg("hist_9999", "Boom");
    let report = hmds.handle_query_error_message(&msg).expect("a query error");

    assert_eq!(hmds.pending_historical.len(), 1, "unrelated entry must stay");
    assert_eq!(report.released, None);
    assert!(!report.end_sentinel);
}

#[test]
fn query_error_search_order_and_lists() {
    let mut hmds = HmdsState::new();
    hmds.pending_histogram.push(("q".to_string(), 1));
    hmds.pending_ticks.push(("q".to_string(), 2, "TRADES".to_string()));
    hmds.pending_scanner.push(("s".to_string(), 3));
    let r1 = hmds.handle_query_error("<QueryError><id>q</id></QueryError>");
    assert_eq!(r1.released, Some(1));
    assert_eq!(r1.error, "unknown");
    let r2 = hmds.handle_query_error("<QueryError><id>q</id><error>x</error></QueryError>");
    assert_eq!(r2.released, Some(2));
    assert!(hmds.pending_ticks.is_empty());
    let r3 = hmds.handle_query_error("<QueryError><id>s</id></QueryError>");
    assert_eq!(r3.released, Some(3));
    let r4 = hmds.handle_query_error("<QueryError><error>no id</error></QueryError>");
    assert_eq!(r4.query_id, None);
    assert_eq!(r4.released, None);
}

#[test]
fn non_query_error_messages_change_nothing() {
    let mut hmds = HmdsState::new();
    hmds.pending_historical.push(("hist_1".to_string(), 5));
    assert!(hmds.handle_query_error_message(b"35=W\x016118=<ResultSetBar/>\x01").is_none());
    assert!(hmds.handle_query_error_message(b"35=U\x016118=<QueryError><id>hist_1</id></QueryError>\x01").is_none());
    assert!(hmds.handle_query_error_message(b"35=W\x01").is_none());
    assert_eq!(hmds.pending_historical.len(), 1);
}

#[test]
fn historical_query_registration() {
    let mut hmds = HmdsState::new();
    let q = hmds.historical_query(7, 265598, "", "20240101-00:00:00", "1 D", "1 hour", "midpoint", true, false, "AAPL");
    assert_eq!(q.query_id, "hist_1000");
    assert_eq!(q.duration, "1 d");
    assert_eq!(q.end_time, "20240101-00:00:00");
    assert_eq!(q.data_type, BarDataType::Midpoint);
    assert_eq!(q.bar_size, BarSize::Hour1);
    assert_eq!(q.con_id, 265598);
    assert_eq!(hmds.pending_historical, vec![("hist_1000".to_string(), 7)]);
    let q2 = hmds.historical_query(8, 1, "20230101", "now", "2 W", "weird", "nothing", false, true, "");
    assert_eq!(q2.query_id, "hist_1001");
    assert_eq!(q2.bar_size, BarSize::Min5);
    assert_eq!(q2.data_type, BarDataType::Trades);
    assert_eq!(q2.end_time, "20230101");
    let q3 = hmds.historical_query_via_ccp(9, 1, "", "t", "1 D", "2 mins", "BID_ASK", true, "X");
    assert_eq!(q3.bar_size, BarSize::Min5);
    assert_eq!(q3.data_type, BarDataType::BidAsk);
    assert!(q3.keep_up_to_date);
    assert_eq!(hmds.next_hmds_query_id, 1003);
}

#[test]
fn other_query_registrations() {
    let mut hmds = HmdsState::new();
    let (h, d) = hmds.head_timestamp_query(1, "bid");
    assert_eq!((h.as_str(), d), ("hts_1000", BarDataType::Bid));
    assert_eq!(hmds.histogram_query(2), "hg_1001");
    assert_eq!(hmds.schedule_query(3, "", "NOW", "2 D"), ("sched_1002".to_string(), "NOW".to_string(), "2 d".to_string()));
    assert_eq!(hmds.news_query(4), "news_1003");
    assert_eq!(hmds.article_query(5), "art_1004");
    let (f, rt) = hmds.fundamental_query(6, "finsum");
    assert_eq!((f.as_str(), rt), ("fund_1005", ReportType::FinancialSummary));
    assert_eq!(hmds.ticks_query(7, "TRADES"), "tk_1006");
    assert_eq!(hmds.realtime_bar_query(8), "rt_1007");
    assert_eq!(hmds.rtbar_subs[0], ("rt_1007".to_string(), 8, None, DEFAULT_MIN_TICK_BITS));
    assert_eq!(f64::from_bits(DEFAULT_MIN_TICK_BITS), 0.01);
    assert_eq!(hmds.scanner_subscribe(9), "APISCAN1:9");
    assert_eq!(hmds.scanner_subscribe(10), "APISCAN2:10");
}

#[test]
fn tbt_subscribe_and_unsubscribe() {
    let mut hmds = HmdsState::new();
    let xml = hmds.tbt_subscribe(265598, 3, TbtType::Last);
    assert_eq!(
        xml,
        "<?xml version=\"1.0\" encoding=\"UTF-8\"?><ListOfQueries><Query><id>tbt_1</id><contractID>265598</contractID><exchange>BEST</exchange><secType>CS</secType><expired>no</expired><type>TickData</type><refresh>ticks</refresh><data>AllLast</data><source>API</source></Query></ListOfQueries>"
    );
    assert_eq!(hmds.update_tbt_price(3, 15000), 15000);
    assert_eq!(hmds.update_tbt_price(3, -5), 14995);
    assert_eq!(hmds.update_tbt_bid_ask(3, 100, 101), (100, 101));
    let cancel = hmds.tbt_unsubscribe(3).expect("subscribed");
    assert_eq!(cancel, build_cancel_xml("tbt_1"));
    assert_eq!(
        cancel,
        "<?xml version=\"1.0\" encoding=\"UTF-8\"?><ListOfCancelQueries><CancelQuery><id>ticker:tbt_1</id></CancelQuery></ListOfCancelQueries>"
    );
    assert_eq!(hmds.tbt_price_state[3], (0, 0, 0));
    assert!(hmds.tbt_unsubscribe(3).is_none());
}

#[test]
fn bar_response_matching() {
    let mut hmds = HmdsState::new();
    hmds.pending_historical.push(("hist_1000".to_string(), 1));
    hmds.pending_historical.push(("hist_1001".to_string(), 2));
    hmds.keep_up_to_date_reqs.insert(2);
    assert_eq!(hmds.apply_bar_response("hist_1001-xyz", true), Some(2));
    assert_eq!(hmds.pending_historical.len(), 2);
    assert_eq!(hmds.apply_bar_response("hist_1000", false), Some(1));
    assert_eq!(hmds.pending_historical.len(), 2);
    assert_eq!(hmds.apply_bar_response("hist_1000", true), Some(1));
    assert_eq!(hmds.pending_historical, vec![("hist_1001".to_string(), 2)]);
    assert_eq!(hmds.apply_bar_response("other", true), None);
}

#[test]
fn rtbar_frame_and_subscription() {
    let body = [0u8, 0, 0, 0, 0, 9, 0x65, 0x00, 0x00, 0x01, 2, 0xAA, 0xBB, 0xCC];
    let (tid, ts, payload) = parse_rtbar_frame(&body).expect("frame");
    assert_eq!(tid, 9);
    assert_eq!(ts, 0x6500_0001);
    assert_eq!(payload, &[0xAA, 0xBB]);
    assert!(parse_rtbar_frame(&body[..10]).is_none());
    assert!(parse_rtbar_frame(&[0, 0, 0, 0, 0, 9, 0, 0, 0, 1, 5, 1]).is_none());
    let mut hmds = HmdsState::new();
    hmds.rtbar_subs.push(("rt_1".to_string(), 4, Some(9), 7));
    assert_eq!(hmds.rtbar_subscription(9), Some((4, 7)));
    assert_eq!(hmds.rtbar_subscription(8), None);
}

#[test]
fn sub_protocol_responses_settle_oldest_requests() {
    let mut hmds = HmdsState::new();
    hmds.pending_scanner_params = true;
    hmds.pending_news.push(("news_1".to_string(), 1));
    hmds.pending_news.push(("news_2".to_string(), 2));
    hmds.pending_articles.push(("art_3".to_string(), 3));
    hmds.pending_fundamental.push(("fund_4".to_string(), 4));
    hmds.pending_scanner.push(("APISCAN1:5".to_string(), 5));
    assert_eq!(hmds.handle_sub_protocol("10002", "<x/>"), SubProtocolOutcome::ScannerParams);
    assert!(!hmds.pending_scanner_params);
    assert_eq!(hmds.handle_sub_protocol("10005", "<x/>"), SubProtocolOutcome::ScannerData { req_id: Some(5) });
    assert_eq!(hmds.pending_scanner.len(), 1);
    assert_eq!(hmds.handle_sub_protocol("10032", "<article_file/>"), SubProtocolOutcome::NewsArticle { req_id: Some(3) });
    assert_eq!(hmds.handle_sub_protocol("10032", "<news/>"), SubProtocolOutcome::HistoricalNews { req_id: Some(1) });
    assert_eq!(hmds.pending_news, vec![("news_2".to_string(), 2)]);
    assert_eq!(hmds.handle_sub_protocol("10012", "<f/>"), SubProtocolOutcome::FundamentalData { req_id: Some(4) });
    assert_eq!(hmds.handle_sub_protocol("10012", "<f/>"), SubProtocolOutcome::FundamentalData { req_id: None });
    assert_eq!(hmds.handle_sub_protocol("99", "<f/>"), SubProtocolOutcome::Ignored);
}

#[test]
fn ticker_binding_prefers_rtbar_then_streaming_history() {
    let mut hmds = HmdsState::new();
    hmds.rtbar_subs.push(("rt_1".to_string(), 1, None, 0));
    hmds.pending_historical.push(("hist_2".to_string(), 2));
    hmds.pending_historical.push(("hist_3".to_string(), 3));
    hmds.keep_up_to_date_reqs.insert(3);
    assert!(hmds.bind_ticker("<id>rt_1</id>", 77, 9));
    assert_eq!(hmds.rtbar_subs[0], ("rt_1".to_string(), 1, Some(77), 9));
    assert!(!hmds.bind_ticker("<id>hist_2</id>", 78, 9));
    assert!(hmds.bind_ticker("<id>hist_3</id>", 79, 8));
    assert_eq!(hmds.rtbar_subs[1], ("hist_3".to_string(), 3, Some(79), 8));
}

#[test]
fn tick_by_tick_entries_accumulate_prices() {
    let mut hmds = HmdsState::new();
    let none = hmds.apply_tbt_entries(&vec![TbtEntry::Quote { timestamp: 1, bid_cents_delta: 1, ask_cents_delta: 1, bid_size: 1, ask_size: 1 }]);
    assert!(none.is_empty());
    hmds.tbt_subscribe(1, 2, TbtType::BidAsk);
    let entries = vec![
        TbtEntry::Trade { timestamp: 10, price_cents_delta: 15000, size: 100, exchange: "NYSE".to_string(), conditions: "".to_string() },
        TbtEntry::Trade { timestamp: 11, price_cents_delta: -5, size: 50, exchange: "ARCA".to_string(), conditions: "I".to_string() },
        TbtEntry::Quote { timestamp: 12, bid_cents_delta: 14990, ask_cents_delta: 15010, bid_size: 3, ask_size: 4 },
    ];
    let events = hmds.apply_tbt_entries(&entries);
    assert_eq!(events.len(), 3);
    match &events[1] {
        TbtEvent::Trade { instrument, price, size, exchange, .. } => {
            assert_eq!((*instrument, *price, *size, exchange.as_str()), (2, 14995 * 1_000_000, 50, "ARCA"));
        }
        other => panic!("unexpected {:?}", other),
    }
    match &events[2] {
        TbtEvent::Quote { bid, ask, bid_size, .. } => {
            assert_eq!((*bid, *ask, *bid_size), (14990 * 1_000_000, 15010 * 1_000_000, 3));
        }
        other => panic!("unexpected {:?}", other),
    }
    assert_eq!(hmds.tbt_price_state[2], (14995, 14990, 15010));
}

#[test]
fn messages_are_classified_by_type() {
    assert_eq!(classify_farm_message(b"35=P\x01x"), Some(FarmMessage::TickData));
    assert_eq!(classify_farm_message(b"8=O\x0135=UM\x01"), Some(FarmMessage::AccountUpdate));
    assert_eq!(classify_farm_message(b"35=ZZ\x01"), Some(FarmMessage::Other));
    assert_eq!(classify_farm_message(b"no type"), None);
    assert_eq!(classify_hmds_message(b"35=W\x016118=<x/>\x01"), Some(HmdsMessage::QueryResponse));
    assert_eq!(classify_hmds_message(b"35=1\x01112=T\x01"), Some(HmdsMessage::TestRequest));
}

#[test]
fn scanner_params_pending_only_when_sent() {
    let mut hmds = HmdsState::new();
    assert!(!hmds.request_scanner_params(false));
    assert!(!hmds.pending_scanner_params);
    assert!(hmds.request_scanner_params(true));
    assert!(hmds.pending_scanner_params);
}

#[test]
fn responses_settle_their_queries() {
    let mut hmds = HmdsState::new();
    hmds.pending_head_ts.push(("hts_1".to_string(), 1));
    hmds.pending_histogram.push(("hg_2".to_string(), 2));
    hmds.pending_schedule.push(("sched_3".to_string(), 3));
    hmds.pending_ticks.push(("tk_4".to_string(), 4, "BID_ASK".to_string()));
    assert_eq!(hmds.settle_head_timestamp(), Some(1));
    assert_eq!(hmds.settle_head_timestamp(), None);
    assert_eq!(hmds.settle_histogram(), Some(2));
    assert_eq!(hmds.settle_schedule("sched_9"), None);
    assert_eq!(hmds.settle_schedule("sched_3"), Some(3));
    assert_eq!(hmds.settle_ticks("<ResultSetTick><id>tk_5</id>"), None);
    assert_eq!(hmds.settle_ticks("<ResultSetTick><id>tk_4</id>"), Some((4, "BID_ASK".to_string())));
    assert!(hmds.pending_ticks.is_empty());
}
