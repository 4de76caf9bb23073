use ibx::client_stubs::{clock_seconds, Delivery, EClient, FamilyCode, NewsProvider, SessionData, SmartComponent, SoftDollarTier, Wrapper};
use vstd::seq::Seq;

#[derive(Default)]
struct Recorder {
    time: Option<i64>,
    components: Vec<(i64, usize)>,
    providers: usize,
    tiers: Vec<(i64, String)>,
    family: Option<Vec<(String, String)>>,
    user: Option<(i64, String)>,
}

impl Wrapper for Recorder {
    fn delivered(&self) -> Seq<Delivery> {
        Seq::empty()
    }
    fn current_time(&mut self, time: i64) {
        self.time = Some(time);
    }
    fn smart_components(&mut self, req_id: i64, components: &[SmartComponent]) {
        self.components.push((req_id, components.len()));
    }
    fn news_providers(&mut self, providers: &[NewsProvider]) {
        self.providers = providers.len();
    }
    fn soft_dollar_tiers(&mut self, req_id: i64, tiers: &[SoftDollarTier]) {
        self.tiers.push((req_id, tiers[0].name.clone()));
    }
    fn family_codes(&mut self, codes: &[FamilyCode]) {
        self.family = Some(codes.iter().map(|c| (c.account_id.clone(), c.family_code_str.clone())).collect());
    }
    fn user_info(&mut self, req_id: i64, white_branding_id: &str) {
        self.user = Some((req_id, white_branding_id.to_string()));
    }
}

#[test]
fn gateway_local_requests_answer_from_local_data() {
    let client = EClient::new(SessionData::standard_account());
    let mut w = Recorder::default();
    client.req_smart_components(3, "SMART", &mut w);
    assert_eq!(w.components, vec![(3, 17)]);
    client.req_news_providers(&mut w);
    assert_eq!(w.providers, 8);
    client.req_soft_dollar_tiers(4, &mut w);
    assert_eq!(w.tiers, vec![(4, "MaxRebate".to_string())]);
    client.req_family_codes(&mut w);
    assert_eq!(w.family, Some(vec![]));
    client.req_user_info(5, &mut w);
    assert_eq!(w.user, Some((5, String::new())));
    client.req_current_time(&mut w);
    assert!(w.time.unwrap_or(0) > 1_600_000_000);
}

#[test]
fn server_log_level_names() {
    let client = EClient::new(SessionData::standard_account());
    assert_eq!(client.set_server_log_level(1), "error");
    assert_eq!(client.set_server_log_level(3), "info");
    assert_eq!(client.set_server_log_level(5), "trace");
    assert_eq!(client.set_server_log_level(9), "warn");
}

#[test]
fn unsupported_requests_do_nothing() {
    let client = EClient::new(SessionData::standard_account());
    client.request_fa(1);
    client.replace_fa(1, 1, "<x/>");
    client.query_display_groups(1);
    client.subscribe_to_group_events(1, 2);
    client.unsubscribe_from_group_events(1);
    client.update_display_group(1, "c");
    client.req_wsh_meta_data(1);
    client.req_wsh_event_data(1);
}

#[test]
fn logon_data_is_what_the_client_answers() {
    let session = SessionData {
        smart_components: vec![SmartComponent { bit_number: 0, exchange: "IEX".to_string(), exchange_letter: "V".to_string() }],
        soft_dollar_tiers: vec![SoftDollarTier { name: "T".to_string(), val: "7".to_string(), display_name: "Tier".to_string() }],
        family_codes: vec![
            FamilyCode { account_id: "U1".to_string(), family_code_str: "F1".to_string() },
            FamilyCode { account_id: "U2".to_string(), family_code_str: "F2".to_string() },
        ],
        white_branding_id: "wb42".to_string(),
    };
    let client = EClient::new(session);
    let mut w = Recorder::default();
    client.req_smart_components(9, "SMART", &mut w);
    assert_eq!(w.components, vec![(9, 1)]);
    client.req_soft_dollar_tiers(2, &mut w);
    assert_eq!(w.tiers, vec![(2, "T".to_string())]);
    client.req_family_codes(&mut w);
    assert_eq!(
        w.family,
        Some(vec![("U1".to_string(), "F1".to_string()), ("U2".to_string(), "F2".to_string())])
    );
    client.req_user_info(6, &mut w);
    assert_eq!(w.user, Some((6, "wb42".to_string())));
}

#[test]
fn clock_reading_to_seconds() {
    assert_eq!(clock_seconds(Some(1_700_000_000)), 1_700_000_000);
    assert_eq!(clock_seconds(None), 0);
    assert_eq!(clock_seconds(Some(u64::MAX)), -1);
}
