use ibx::fix_msg::stamp_message;
use ibx::market_state::MarketState;
use ibx::order_tags::{build_algo_tags, build_condition_strings, fix_side, AlgoParams, OrderCondition, RiskAversion, Side};
use ibx::orders::{
    drain_and_send_orders, request_sent, ord_type_str, request_records, submit_messages, tif_str, AdaptivePriority, AdjustedOrderType, Order,
    OrderAttrs, OrderBook, OrderRequest, ORD_MIDPX, ORD_PEG_BENCH,
};

fn pairs(v: &[(u32, String)]) -> Vec<(u32, &str)> {
    v.iter().map(|(t, s)| (*t, s.as_str())).collect()
}

fn market_with_aapl() -> MarketState {
    let mut m = MarketState::new();
    let id = m.register(265598);
    m.set_symbol(id, "AAPL".to_string());
    m
}

fn no_attrs() -> OrderAttrs {
    OrderAttrs {
        display_size: 0,
        min_qty: 0,
        outside_rth: false,
        hidden: false,
        good_after: None,
        good_till: None,
        oca_group: 0,
        discretionary_amt: 0,
        sweep_to_fill: false,
        all_or_none: false,
        trigger_method: 0,
        cash_qty: 0,
        conditions: Vec::new(),
        conditions_cancel_order: false,
        conditions_ignore_rth: false,
    }
}

#[test]
fn fix_side_values() {
    assert_eq!(fix_side(Side::Buy), "1");
    assert_eq!(fix_side(Side::Sell), "2");
    assert_eq!(fix_side(Side::ShortSell), "5");
}

#[test]
fn limit_order_message_and_record() {
    let m = market_with_aapl();
    let req = OrderRequest::SubmitLimit { order_id: 17, instrument: 0, side: Side::Buy, qty: 100, price: 150_25_000_000 };
    let msgs = submit_messages(&req, "DU123", &m, "NOW");
    assert_eq!(msgs.len(), 1);
    assert_eq!(
        pairs(&msgs[0]),
        vec![
            (35, "D"), (52, "NOW"), (11, "17"), (1, "DU123"), (21, "2"), (55, "AAPL"), (54, "1"), (38, "100"),
            (40, "2"), (44, "150.25"), (59, "0"), (60, "NOW"), (167, "STK"), (100, "SMART"), (15, "USD"), (204, "0"),
        ]
    );
    assert_eq!(
        request_records(&req),
        vec![Order { order_id: 17, instrument: 0, side: Side::Buy, qty: 100, price: 150_25_000_000, ord_type: b'2', tif: b'0', stop_price: 0 }]
    );
}

#[test]
fn bracket_sends_three_linked_orders() {
    let m = market_with_aapl();
    let req = OrderRequest::SubmitBracket {
        parent_id: 1,
        tp_id: 2,
        sl_id: 3,
        instrument: 0,
        side: Side::Buy,
        qty: 10,
        entry_price: 100 * 100_000_000,
        take_profit: 110 * 100_000_000,
        stop_loss: 90 * 100_000_000,
    };
    let msgs = submit_messages(&req, "A", &m, "T");
    assert_eq!(msgs.len(), 3);
    let tp = pairs(&msgs[1]);
    assert_eq!(tp[6], (54, "2"));
    assert_eq!(tp[9], (44, "110"));
    assert_eq!(tp[10], (59, "1"));
    assert_eq!(&tp[16..], &[(6107, "1"), (583, "OCA_1"), (6209, "CancelOnFillWBlock")]);
    let sl = pairs(&msgs[2]);
    assert_eq!(sl[8], (40, "3"));
    assert_eq!(sl[9], (99, "90"));
    let recs = request_records(&req);
    assert_eq!(recs.len(), 3);
    assert_eq!(recs[2].side, Side::Sell);
    assert_eq!(recs[2].stop_price, 90 * 100_000_000);
}

#[test]
fn extended_limit_attributes_and_conditions() {
    let m = market_with_aapl();
    let mut attrs = no_attrs();
    attrs.display_size = 100;
    attrs.hidden = true;
    attrs.good_till = Some("20240102 16:00:00".to_string());
    attrs.oca_group = 7;
    attrs.all_or_none = true;
    attrs.conditions = vec![
        OrderCondition::Price { con_id: 265598, exchange: "SMART".to_string(), price: 200 * 100_000_000, is_more: true, trigger_method: 0 },
        OrderCondition::Time { time: "20240102 10:00:00".to_string(), is_more: false },
    ];
    attrs.conditions_cancel_order = true;
    let req = OrderRequest::SubmitLimitEx { order_id: 5, instrument: 0, side: Side::Sell, qty: 3, price: 1, tif: b'1', attrs };
    let msgs = submit_messages(&req, "A", &m, "T");
    let f = pairs(&msgs[0]);
    assert_eq!(f[10], (59, "1"));
    assert_eq!(&f[16..22], &[(111, "100"), (6135, "1"), (126, "20240102 16:00:00"), (583, "OCA_7"), (6209, "CancelOnFillWBlock"), (18, "G")]);
    assert_eq!(&f[22..24], &[(6136, "2"), (6128, "1")]);
    assert_eq!(&f[24..27], &[(6222, "1"), (6137, "a"), (6126, ">=")]);
    assert_eq!(f[30], (6125, "200"));
    assert_eq!(&f[35..38], &[(6222, "3"), (6137, "n"), (6126, "<=")]);
    assert_eq!(f[42], (6223, "20240102 10:00:00"));
    assert_eq!(f.len(), 46);
}

#[test]
fn algo_and_adaptive_tags() {
    let m = market_with_aapl();
    let algo = AlgoParams::Vwap {
        max_pct_vol: "0.1".to_string(),
        no_take_liq: true,
        allow_past_end_time: false,
        start_time: "09:30".to_string(),
        end_time: "16:00".to_string(),
    };
    let (name, params) = build_algo_tags(&algo);
    assert_eq!(name, "Vwap");
    assert_eq!(params, vec!["noTakeLiq", "1", "allowPastEndTime", "0", "startTime", "09:30", "endTime", "16:00"]);
    let req = OrderRequest::SubmitAlgo { order_id: 1, instrument: 0, side: Side::Buy, qty: 1, price: 0, algo };
    let f = submit_messages(&req, "A", &m, "T");
    let f = pairs(&f[0]);
    assert_eq!(&f[16..20], &[(847, "Vwap"), (849, "0.1"), (5957, "4"), (5958, "noTakeLiq")]);
    assert_eq!(f.len(), 27);
    let (name2, p2) = build_algo_tags(&AlgoParams::ClosePx {
        max_pct_vol: "0.2".to_string(),
        risk_aversion: RiskAversion::GetDone,
        force_completion: true,
        start_time: "s".to_string(),
    });
    assert_eq!(name2, "ClosePx");
    assert_eq!(p2[1], "Get Done");
    let ad = OrderRequest::SubmitAdaptive { order_id: 2, instrument: 0, side: Side::Buy, qty: 1, price: 0, priority: AdaptivePriority::Patient };
    let f = submit_messages(&ad, "A", &m, "T");
    assert_eq!(&pairs(&f[0])[16..], &[(847, "Adaptive"), (5957, "1"), (5958, "adaptivePriority"), (5960, "Patient")]);
}

#[test]
fn condition_strings_layout() {
    let c = vec![
        OrderCondition::Execution { symbol: "AAPL".to_string(), exchange: "SMART".to_string(), sec_type: "STK".to_string() },
        OrderCondition::Volume { con_id: 1, exchange: "ISLAND".to_string(), volume: 1000, is_more: true },
    ];
    let s = build_condition_strings(&c);
    assert_eq!(s.len(), 23);
    assert_eq!(s[0], "2");
    assert_eq!(s[1], "5");
    assert_eq!(s[2], "a");
    assert_eq!(s[11], "symbol=AAPL;exchange=*;securityType=STK;");
    assert_eq!(s[12], "6");
    assert_eq!(s[13], "n");
    assert_eq!(s[21], "1000");
    assert_eq!(build_condition_strings(&[]), vec!["0"]);
}

#[test]
fn directed_and_pegged_orders() {
    let m = market_with_aapl();
    let mid = OrderRequest::SubmitMidPrice { order_id: 1, instrument: 0, side: Side::Buy, qty: 1, price_cap: 0 };
    let f = submit_messages(&mid, "A", &m, "T");
    let f = pairs(&f[0]);
    assert_eq!(f[8], (40, "MIDPX"));
    assert_eq!(f[12], (100, "ISLAND"));
    assert_eq!(f.len(), 15);
    let peg = OrderRequest::SubmitPegMid { order_id: 1, instrument: 0, side: Side::Buy, qty: 1, offset: 5_000_000 };
    let f = submit_messages(&peg, "A", &m, "T");
    assert_eq!(&pairs(&f[0])[15..], &[(8403, "0.0"), (8404, "0.0"), (211, "0.05")]);
    let adj = OrderRequest::SubmitAdjustableStop {
        order_id: 1,
        instrument: 0,
        side: Side::Sell,
        qty: 1,
        stop_price: 100_000_000,
        trigger_price: 200_000_000,
        adjusted_order_type: AdjustedOrderType::StopLimit,
        adjusted_stop_price: 150_000_000,
        adjusted_stop_limit_price: 0,
    };
    let f = submit_messages(&adj, "A", &m, "T");
    assert_eq!(&pairs(&f[0])[16..], &[(6257, "1"), (6261, "4"), (6258, "2"), (6259, "1.5")]);
    let rec = request_records(&OrderRequest::SubmitPegBench {
        order_id: 1,
        instrument: 0,
        side: Side::Buy,
        qty: 1,
        price: 2,
        ref_con_id: 3,
        is_peg_decrease: true,
        pegged_change_amount: 4,
        ref_change_amount: 5,
    });
    assert_eq!(rec[0].ord_type, ORD_PEG_BENCH);
    assert_eq!(ord_type_str(ORD_PEG_BENCH), "PB");
    assert_eq!(ord_type_str(ORD_MIDPX), "MIDPX");
    assert_eq!(ord_type_str(b'K'), "K");
    assert_eq!(tif_str(b'3'), "3");
    assert_eq!(tif_str(0xC3), "0");
}

#[test]
fn drain_records_cancels_and_replaces() {
    let m = market_with_aapl();
    let mut book = OrderBook::new();
    let orders = vec![
        OrderRequest::SubmitStop { order_id: 1, instrument: 0, side: Side::Sell, qty: 5, stop_price: 99 * 100_000_000 },
        OrderRequest::SubmitLimit { order_id: 2, instrument: 0, side: Side::Buy, qty: 5, price: 98 * 100_000_000 },
        OrderRequest::Modify { new_order_id: 3, order_id: 1, price: 97 * 100_000_000, qty: 6 },
        OrderRequest::Cancel { order_id: 2 },
        OrderRequest::CancelAll { instrument: 0 },
    ];
    let groups = drain_and_send_orders(true, &mut book, orders, &m, "A", "T");
    assert_eq!(groups.iter().map(|g| g.len()).collect::<Vec<_>>(), vec![1, 1, 1, 1, 3]);
    let msgs: Vec<_> = groups.into_iter().flatten().collect();
    assert_eq!(msgs.len(), 7);
    let modify = pairs(&msgs[2]);
    assert_eq!(&modify[..4], &[(35, "G"), (52, "T"), (11, "3"), (41, "1")]);
    assert_eq!(modify[6], (55, "AAPL"));
    assert_eq!(modify[7], (54, "2"));
    assert_eq!(modify[9], (40, "3"));
    assert_eq!(modify[11], (59, "0"));
    assert_eq!(modify[17], (99, "99"));
    assert_eq!(pairs(&msgs[3]), vec![(35, "F"), (52, "T"), (11, "C2"), (41, "2"), (60, "T")]);
    assert_eq!(pairs(&msgs[4])[3], (41, "1"));
    assert_eq!(pairs(&msgs[5])[3], (41, "2"));
    assert_eq!(pairs(&msgs[6])[3], (41, "3"));
    assert_eq!(book.len(), 3);
    let replaced = book.order(3).expect("recorded");
    assert_eq!((replaced.qty, replaced.price, replaced.ord_type, replaced.stop_price), (6, 97 * 100_000_000, b'3', 99 * 100_000_000));
    assert_eq!(book.open_orders_for(0).len(), 3);
    assert_eq!(book.open_orders_for(1).len(), 0);
}

#[test]
fn drain_without_connection_drops_the_batch() {
    let m = market_with_aapl();
    let mut book = OrderBook::new();
    let orders = vec![OrderRequest::SubmitMarket { order_id: 1, instrument: 0, side: Side::Buy, qty: 1 }];
    let groups = drain_and_send_orders(false, &mut book, orders, &m, "A", "T");
    assert!(groups.is_empty());
    assert_eq!(book.len(), 0);
}

#[test]
fn modify_of_unknown_order_uses_defaults() {
    let m = market_with_aapl();
    let mut book = OrderBook::new();
    let orders = vec![OrderRequest::Modify { new_order_id: 9, order_id: 8, price: 100_000_000, qty: 2 }];
    let groups = drain_and_send_orders(true, &mut book, orders, &m, "A", "T");
    assert_eq!(groups.len(), 1);
    let f = pairs(&groups[0][0]);
    assert_eq!(f[6], (55, ""));
    assert_eq!(f[7], (54, "1"));
    assert_eq!(f[9], (40, "2"));
    assert_eq!(f[11], (59, "0"));
    assert_eq!(f.len(), 17);
    assert_eq!(book.len(), 0);
}

#[test]
fn book_insert_replaces_same_id() {
    let mut book = OrderBook::new();
    let o = Order { order_id: 1, instrument: 0, side: Side::Buy, qty: 1, price: 1, ord_type: b'2', tif: b'0', stop_price: 0 };
    book.insert_order(o);
    book.insert_order(Order { qty: 2, ..o });
    assert_eq!(book.len(), 1);
    assert_eq!(book.order(1).map(|x| x.qty), Some(2));
    assert_eq!(book.order(2), None);
}

#[test]
fn cancel_all_without_open_orders_sends_nothing_and_counts_as_sent() {
    let m = market_with_aapl();
    let mut book = OrderBook::new();
    let orders = vec![OrderRequest::CancelAll { instrument: 0 }, OrderRequest::Cancel { order_id: 4 }];
    let groups = drain_and_send_orders(true, &mut book, orders, &m, "A", "T");
    assert_eq!(groups.len(), 2);
    assert!(groups[0].is_empty());
    assert_eq!(groups[1].len(), 1);
    assert_eq!(pairs(&groups[1][0])[2], (11, "C4"));
    assert!(request_sent(&[]));
}

#[test]
fn a_request_counts_as_sent_by_its_last_send() {
    assert!(request_sent(&[true]));
    assert!(!request_sent(&[false]));
    assert!(request_sent(&[false, false, true]));
    assert!(!request_sent(&[true, true, false]));
}

#[test]
fn each_message_carries_the_time_it_is_sent() {
    let m = market_with_aapl();
    let batch = || {
        vec![
            OrderRequest::SubmitBracket {
                parent_id: 1, tp_id: 2, sl_id: 3, instrument: 0, side: Side::Buy, qty: 10,
                entry_price: 100 * 100_000_000, take_profit: 110 * 100_000_000, stop_loss: 90 * 100_000_000,
            },
            OrderRequest::Modify { new_order_id: 4, order_id: 1, price: 101 * 100_000_000, qty: 10 },
            OrderRequest::Cancel { order_id: 2 },
            OrderRequest::CancelAll { instrument: 0 },
        ]
    };
    let mut book_a = OrderBook::new();
    let built_early = drain_and_send_orders(true, &mut book_a, batch(), &m, "A", "T0");
    let mut book_b = OrderBook::new();
    let built_late = drain_and_send_orders(true, &mut book_b, batch(), &m, "A", "T9");
    let mut k = 0;
    for (ga, gb) in built_early.into_iter().zip(built_late.iter()) {
        for (mut msg, later) in ga.into_iter().zip(gb.iter()) {
            stamp_message(&mut msg, "T9");
            assert_eq!(&msg, later);
            k += 1;
        }
    }
    assert_eq!(k, 3 + 1 + 1 + 4);
    let mut one = vec![(35, "F".to_string()), (52, "a".to_string()), (11, "C1".to_string()), (60, "a".to_string())];
    stamp_message(&mut one, "b");
    assert_eq!(pairs(&one), vec![(35, "F"), (52, "b"), (11, "C1"), (60, "b")]);
}
