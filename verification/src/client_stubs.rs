//! Client requests that are answered locally (no round trip to the broker)
//! or that the engine does not support yet.

use vstd::prelude::*;

verus! {

/// One exchange that SMART routing may route to.
#[derive(Clone, Debug, PartialEq, Eq)]
pub struct SmartComponent {
    pub bit_number: i32,
    pub exchange: String,
    pub exchange_letter: String,
}

impl View for SmartComponent {
    type V = (i32, Seq<char>, Seq<char>);

    open spec fn view(&self) -> Self::V {
        (self.bit_number, self.exchange@, self.exchange_letter@)
    }
}

/// A news provider (code and display name).
#[derive(Clone, Debug, PartialEq, Eq)]
pub struct NewsProvider {
    pub code: String,
    pub name: String,
}

impl View for NewsProvider {
    type V = (Seq<char>, Seq<char>);

    open spec fn view(&self) -> Self::V {
        (self.code@, self.name@)
    }
}

/// A soft-dollar tier (name, value, display name).
#[derive(Clone, Debug, PartialEq, Eq)]
pub struct SoftDollarTier {
    pub name: String,
    pub val: String,
    pub display_name: String,
}

impl View for SoftDollarTier {
    type V = (Seq<char>, Seq<char>, Seq<char>);

    open spec fn view(&self) -> Self::V {
        (self.name@, self.val@, self.display_name@)
    }
}

/// A family code of a linked account.
#[derive(Clone, Debug, PartialEq, Eq)]
pub struct FamilyCode {
    pub account_id: String,
    pub family_code_str: String,
}

impl View for FamilyCode {
    type V = (Seq<char>, Seq<char>);

    open spec fn view(&self) -> Self::V {
        (self.account_id@, self.family_code_str@)
    }
}

/// US equity exchanges of SMART routing with their one-letter codes, in bit order.
pub open spec fn us_equity_exchanges() -> Seq<(Seq<char>, Seq<char>)> {
    seq![
        ("NASDAQ"@, "Q"@), ("NYSE"@, "N"@), ("ARCA"@, "P"@), ("BATS"@, "Z"@),
        ("IEX"@, "V"@), ("BEX"@, "B"@), ("BYX"@, "Y"@), ("NYSENAT"@, "C"@),
        ("DRCTEDGE"@, "J"@), ("MEMX"@, "U"@), ("PEARL"@, "H"@), ("AMEX"@, "A"@),
        ("CHX"@, "M"@), ("LTSE"@, "L"@), ("PSX"@, "X"@), ("ISE"@, "I"@), ("EDGEA"@, "K"@),
    ]
}

/// The SMART components: exchange `i` of `us_equity_exchanges()` has bit number `i`.
pub open spec fn smart_component_table() -> Seq<(i32, Seq<char>, Seq<char>)> {
    Seq::new(us_equity_exchanges().len(), |i: int| (i as i32, us_equity_exchanges()[i].0, us_equity_exchanges()[i].1))
}

/// The news providers known locally, as (code, name).
pub open spec fn news_provider_table() -> Seq<(Seq<char>, Seq<char>)> {
    seq![
        ("BRFG"@, "Briefing.com General Market Columns"@),
        ("BRFUPDN"@, "Briefing.com Analyst Actions"@),
        ("DJ-N"@, "Dow Jones Global Equity Trader"@),
        ("DJ-RTA"@, "Dow Jones Top Stories Asia Pacific"@),
        ("DJ-RTE"@, "Dow Jones Top Stories Europe"@),
        ("DJ-RTG"@, "Dow Jones Top Stories Global"@),
        ("DJ-RTPRO"@, "Dow Jones Top Stories Pro"@),
        ("DJNL"@, "Dow Jones Newsletters"@),
    ]
}

/// The soft-dollar tiers that a standard account receives at logon, as
/// (name, value, display name).
pub open spec fn soft_dollar_tier_table() -> Seq<(Seq<char>, Seq<char>, Seq<char>)> {
    seq![
        ("MaxRebate"@, "1"@, "Maximize Rebate"@),
        ("PreferRebate"@, "9"@, "Prefer Rebate"@),
        ("PreferFill"@, "11"@, "Prefer Fill"@),
        ("MaxFill"@, "12"@, "Maximize Fill"@),
        ("Primary"@, "2"@, "Primary Exchange"@),
        ("VRebate"@, "3"@, "Highest Volume Exchange With Rebate"@),
        ("VLowFee"@, "4"@, "High Volume Exchange With Lowest Fee"@),
    ]
}

/// Name of a server log level: 1 error, 2 warn, 3 info, 4 debug, 5 trace, else warn.
pub open spec fn log_level_name(level: i32) -> Seq<char> {
    if level == 1 {
        "error"@
    } else if level == 3 {
        "info"@
    } else if level == 4 {
        "debug"@
    } else if level == 5 {
        "trace"@
    } else {
        "warn"@
    }
}

/// One answer handed to a `Wrapper`, by its values.
pub enum Delivery {
    CurrentTime(i64),
    SmartComponents(i64, Seq<(i32, Seq<char>, Seq<char>)>),
    NewsProviders(Seq<(Seq<char>, Seq<char>)>),
    SoftDollarTiers(i64, Seq<(Seq<char>, Seq<char>, Seq<char>)>),
    FamilyCodes(Seq<(Seq<char>, Seq<char>)>),
    UserInfo(i64, Seq<char>),
}

/// Callbacks through which the client delivers answers. `delivered` is the
/// history of the answers a wrapper has received, and each callback adds its
/// answer to it.
pub trait Wrapper {
    /// The answers received so far, in order.
    spec fn delivered(&self) -> Seq<Delivery>;

    /// The current time, in seconds since the Unix epoch.
    fn current_time(&mut self, time: i64)
        ensures
            final(self).delivered() == old(self).delivered().push(Delivery::CurrentTime(time)),
    ;

    /// The exchanges of SMART routing.
    fn smart_components(&mut self, req_id: i64, components: &[SmartComponent])
        ensures
            final(self).delivered() == old(self).delivered().push(
                Delivery::SmartComponents(req_id, components@.map_values(|c: SmartComponent| c@)),
            ),
    ;

    /// The available news providers.
    fn news_providers(&mut self, providers: &[NewsProvider])
        ensures
            final(self).delivered() == old(self).delivered().push(
                Delivery::NewsProviders(providers@.map_values(|p: NewsProvider| p@)),
            ),
    ;

    /// The soft-dollar tiers.
    fn soft_dollar_tiers(&mut self, req_id: i64, tiers: &[SoftDollarTier])
        ensures
            final(self).delivered() == old(self).delivered().push(
                Delivery::SoftDollarTiers(req_id, tiers@.map_values(|t: SoftDollarTier| t@)),
            ),
    ;

    /// The family codes of the linked accounts.
    fn family_codes(&mut self, codes: &[FamilyCode])
        ensures
            final(self).delivered() == old(self).delivered().push(
                Delivery::FamilyCodes(codes@.map_values(|c: FamilyCode| c@)),
            ),
    ;

    /// The white-branding id of the user.
    fn user_info(&mut self, req_id: i64, white_branding_id: &str)
        ensures
            final(self).delivered() == old(self).delivered().push(Delivery::UserInfo(req_id, white_branding_id@)),
    ;
}

/// What the gateway handed the client when the connection was set up: the
/// SMART component exchanges of the init data, and the soft-dollar tiers
/// (CCP logon tag 6560), family codes (CCP logon tag 6823) and white-branding
/// id of the CCP logon.
pub struct SessionData {
    pub smart_components: Vec<SmartComponent>,
    pub soft_dollar_tiers: Vec<SoftDollarTier>,
    pub family_codes: Vec<FamilyCode>,
    pub white_branding_id: String,
}

/// The client: it answers the requests of this module from the data of its
/// session.
pub struct EClient {
    pub session: SessionData,
}

#[verifier::external_type_specification]
#[verifier::external_body]
pub struct ExSystemTime(std::time::SystemTime);

/// `std::time::SystemTime::now`: the system clock. Nothing is stated of the
/// value: it depends on the time.
#[verifier::external_body]
fn system_now() -> std::time::SystemTime {
    std::time::SystemTime::now()
}

/// `SystemTime::duration_since(UNIX_EPOCH)`, with its error (a clock before
/// the epoch) read as `None`. Nothing is stated of the duration: the value
/// is opaque here.
#[verifier::external_body]
fn since_unix_epoch(t: &std::time::SystemTime) -> Option<std::time::Duration> {
    t.duration_since(std::time::UNIX_EPOCH).ok()
}

/// `Duration::as_secs`: the whole seconds of a duration. Nothing is stated
/// of the value: a duration is opaque here.
#[verifier::external_body]
fn duration_secs(d: &std::time::Duration) -> u64 {
    d.as_secs()
}

/// The time answer for a clock reading: its whole seconds since the epoch
/// (as `i64`, wrapping as a cast does), or 0 for a clock before the epoch.
pub open spec fn clock_seconds_of(reading: Option<u64>) -> i64 {
    match reading {
        Some(secs) => secs as i64,
        None => 0,
    }
}

/// The time answer for a clock reading (see `clock_seconds_of`).
pub fn clock_seconds(reading: Option<u64>) -> (t: i64)
    ensures
        t == clock_seconds_of(reading),
{
    match reading {
        Some(secs) => secs as i64,
        None => 0,
    }
}

/// The system clock as whole seconds since the Unix epoch, `None` for a
/// clock before the epoch.
fn read_clock() -> Option<u64> {
    let now = system_now();
    match since_unix_epoch(&now) {
        Some(d) => Some(duration_secs(&d)),
        None => None,
    }
}

impl SessionData {
    /// The session data of a standard single account: the US-equity SMART
    /// components, the seven soft-dollar tiers, no family codes and no
    /// white-branding id.
    pub fn standard_account() -> (d: SessionData)
        ensures
            d.smart_components@.map_values(|c: SmartComponent| c@) == smart_component_table(),
            d.soft_dollar_tiers@.map_values(|t: SoftDollarTier| t@) == soft_dollar_tier_table(),
            d.family_codes@.len() == 0,
            d.white_branding_id@ == Seq::<char>::empty(),
    {
        SessionData {
            smart_components: smart_components(),
            soft_dollar_tiers: soft_dollar_tiers(),
            family_codes: Vec::new(),
            white_branding_id: String::new(),
        }
    }
}

fn make_smart_component(bit_number: i32, exchange: &str, letter: &str) -> (c: SmartComponent)
    ensures
        c@ == (bit_number, exchange@, letter@),
{
    SmartComponent { bit_number, exchange: exchange.to_string(), exchange_letter: letter.to_string() }
}

fn make_news_provider(code: &str, name: &str) -> (p: NewsProvider)
    ensures
        p@ == (code@, name@),
{
    NewsProvider { code: code.to_string(), name: name.to_string() }
}

fn make_soft_dollar_tier(name: &str, val: &str, display_name: &str) -> (t: SoftDollarTier)
    ensures
        t@ == (name@, val@, display_name@),
{
    SoftDollarTier { name: name.to_string(), val: val.to_string(), display_name: display_name.to_string() }
}

/// The US-equity SMART routing components of a standard account, in bit order.
pub fn smart_components() -> (v: Vec<SmartComponent>)
    ensures
        v@.map_values(|c: SmartComponent| c@) == smart_component_table(),
{
    let mut v: Vec<SmartComponent> = Vec::new();
    v.push(make_smart_component(0, "NASDAQ", "Q"));
    v.push(make_smart_component(1, "NYSE", "N"));
    v.push(make_smart_component(2, "ARCA", "P"));
    v.push(make_smart_component(3, "BATS", "Z"));
    v.push(make_smart_component(4, "IEX", "V"));
    v.push(make_smart_component(5, "BEX", "B"));
    v.push(make_smart_component(6, "BYX", "Y"));
    v.push(make_smart_component(7, "NYSENAT", "C"));
    v.push(make_smart_component(8, "DRCTEDGE", "J"));
    v.push(make_smart_component(9, "MEMX", "U"));
    v.push(make_smart_component(10, "PEARL", "H"));
    v.push(make_smart_component(11, "AMEX", "A"));
    v.push(make_smart_component(12, "CHX", "M"));
    v.push(make_smart_component(13, "LTSE", "L"));
    v.push(make_smart_component(14, "PSX", "X"));
    v.push(make_smart_component(15, "ISE", "I"));
    v.push(make_smart_component(16, "EDGEA", "K"));
    assert(v@.map_values(|c: SmartComponent| c@) =~= smart_component_table());
    v
}

/// The locally known news providers.
pub fn news_providers() -> (v: Vec<NewsProvider>)
    ensures
        v@.map_values(|p: NewsProvider| p@) == news_provider_table(),
{
    let mut v: Vec<NewsProvider> = Vec::new();
    v.push(make_news_provider("BRFG", "Briefing.com General Market Columns"));
    v.push(make_news_provider("BRFUPDN", "Briefing.com Analyst Actions"));
    v.push(make_news_provider("DJ-N", "Dow Jones Global Equity Trader"));
    v.push(make_news_provider("DJ-RTA", "Dow Jones Top Stories Asia Pacific"));
    v.push(make_news_provider("DJ-RTE", "Dow Jones Top Stories Europe"));
    v.push(make_news_provider("DJ-RTG", "Dow Jones Top Stories Global"));
    v.push(make_news_provider("DJ-RTPRO", "Dow Jones Top Stories Pro"));
    v.push(make_news_provider("DJNL", "Dow Jones Newsletters"));
    assert(v@.map_values(|p: NewsProvider| p@) =~= news_provider_table());
    v
}

/// The soft-dollar tiers that a standard account receives at logon.
pub fn soft_dollar_tiers() -> (v: Vec<SoftDollarTier>)
    ensures
        v@.map_values(|t: SoftDollarTier| t@) == soft_dollar_tier_table(),
{
    let mut v: Vec<SoftDollarTier> = Vec::new();
    v.push(make_soft_dollar_tier("MaxRebate", "1", "Maximize Rebate"));
    v.push(make_soft_dollar_tier("PreferRebate", "9", "Prefer Rebate"));
    v.push(make_soft_dollar_tier("PreferFill", "11", "Prefer Fill"));
    v.push(make_soft_dollar_tier("MaxFill", "12", "Maximize Fill"));
    v.push(make_soft_dollar_tier("Primary", "2", "Primary Exchange"));
    v.push(make_soft_dollar_tier("VRebate", "3", "Highest Volume Exchange With Rebate"));
    v.push(make_soft_dollar_tier("VLowFee", "4", "High Volume Exchange With Lowest Fee"));
    assert(v@.map_values(|t: SoftDollarTier| t@) =~= soft_dollar_tier_table());
    v
}

impl EClient {
    /// A client that answers from the given session data.
    pub fn new(session: SessionData) -> (c: EClient)
        ensures
            c.session == session,
    {
        EClient { session }
    }

    /// Requests the SMART routing components of a BBO exchange; the
    /// components of the session's init data are delivered to
    /// `wrapper.smart_components` under `req_id`.
    pub fn req_smart_components<W: Wrapper>(&self, req_id: i64, _bbo_exchange: &str, wrapper: &mut W)
        ensures
            final(wrapper).delivered() == old(wrapper).delivered().push(
                Delivery::SmartComponents(req_id, self.session.smart_components@.map_values(|c: SmartComponent| c@)),
            ),
    {
        wrapper.smart_components(req_id, self.session.smart_components.as_slice());
    }

    /// Requests the available news providers; the gateway-local static list
    /// (`news_provider_table`) is delivered to `wrapper.news_providers`. Unlike
    /// the SMART components and the logon data, the provider list does not
    /// vary by session, so it is not part of `SessionData`.
    pub fn req_news_providers<W: Wrapper>(&self, wrapper: &mut W)
        ensures
            final(wrapper).delivered() == old(wrapper).delivered().push(Delivery::NewsProviders(news_provider_table())),
    {
        let providers = news_providers();
        wrapper.news_providers(providers.as_slice());
    }

    /// Requests the current time; the local system clock, read as
    /// `clock_seconds_of` says, is delivered to `wrapper.current_time` (no
    /// server round trip).
    pub fn req_current_time<W: Wrapper>(&self, wrapper: &mut W)
        ensures
            exists|reading: Option<u64>|
                final(wrapper).delivered() == old(wrapper).delivered().push(Delivery::CurrentTime(#[trigger] clock_seconds_of(reading))),
    {
        let reading = read_clock();
        let now = clock_seconds(reading);
        wrapper.current_time(now);
        assert(final(wrapper).delivered() == old(wrapper).delivered().push(Delivery::CurrentTime(clock_seconds_of(reading))));
    }

    /// Requests financial-advisor data. Not supported by the engine: does nothing.
    pub fn request_fa(&self, _fa_data_type: i32) {
    }

    /// Replaces financial-advisor data. Not supported by the engine: does nothing.
    pub fn replace_fa(&self, _req_id: i64, _fa_data_type: i32, _cxml: &str) {
    }

    /// Queries display groups. Not supported by the engine: does nothing.
    pub fn query_display_groups(&self, _req_id: i64) {
    }

    /// Subscribes to display-group events. Not supported by the engine: does nothing.
    pub fn subscribe_to_group_events(&self, _req_id: i64, _group_id: i32) {
    }

    /// Unsubscribes from display-group events. Not supported by the engine: does nothing.
    pub fn unsubscribe_from_group_events(&self, _req_id: i64) {
    }

    /// Updates a display group. Not supported by the engine: does nothing.
    pub fn update_display_group(&self, _req_id: i64, _contract_info: &str) {
    }

    /// Requests the soft-dollar tiers; the tiers of the CCP logon (tag 6560)
    /// are delivered to `wrapper.soft_dollar_tiers` under `req_id`.
    pub fn req_soft_dollar_tiers<W: Wrapper>(&self, req_id: i64, wrapper: &mut W)
        ensures
            final(wrapper).delivered() == old(wrapper).delivered().push(
                Delivery::SoftDollarTiers(req_id, self.session.soft_dollar_tiers@.map_values(|t: SoftDollarTier| t@)),
            ),
    {
        wrapper.soft_dollar_tiers(req_id, self.session.soft_dollar_tiers.as_slice());
    }

    /// Requests the family codes; the codes of the CCP logon (tag 6823, empty
    /// for a paper or single account) are delivered to `wrapper.family_codes`.
    pub fn req_family_codes<W: Wrapper>(&self, wrapper: &mut W)
        ensures
            final(wrapper).delivered() == old(wrapper).delivered().push(
                Delivery::FamilyCodes(self.session.family_codes@.map_values(|c: FamilyCode| c@)),
            ),
    {
        wrapper.family_codes(self.session.family_codes.as_slice());
    }

    /// Sets the server log level and returns the name of the level that is
    /// logged for it: 1 error, 2 warn, 3 info, 4 debug, 5 trace, anything else warn.
    pub fn set_server_log_level(&self, log_level: i32) -> (name: &'static str)
        ensures
            name@ == log_level_name(log_level),
    {
        match log_level {
            1 => "error",
            2 => "warn",
            3 => "info",
            4 => "debug",
            5 => "trace",
            _ => "warn",
        }
    }

    /// Requests the user info; the white-branding id of the CCP logon (empty
    /// for a standard account) is delivered to `wrapper.user_info` under `req_id`.
    pub fn req_user_info<W: Wrapper>(&self, req_id: i64, wrapper: &mut W)
        ensures
            final(wrapper).delivered() == old(wrapper).delivered().push(
                Delivery::UserInfo(req_id, self.session.white_branding_id@),
            ),
    {
        wrapper.user_info(req_id, self.session.white_branding_id.as_str());
    }

    /// Requests Wall Street Horizon metadata. Not supported by the engine: does nothing.
    pub fn req_wsh_meta_data(&self, _req_id: i64) {
    }

    /// Requests Wall Street Horizon event data. Not supported by the engine: does nothing.
    pub fn req_wsh_event_data(&self, _req_id: i64) {
    }
}

} // verus!
