//! The operator's configuration (`greentic.yaml`) and the demo configuration,
//! with the defaults that apply to every field a file leaves out.
//!
//! Reading and parsing the files is the caller's part; this module holds the
//! configuration as values, its defaults and the decisions made from it.
use vstd::prelude::*;
use crate::text::{trim, starts_with, owned, chars_vec, trim_bounds};
use crate::paths::join_path;
use crate::bin_resolver::resolve_relative;
use crate::string_map::StringMap;

verus! {

/// The operator configuration.
pub struct OperatorConfig {
    pub services: Option<OperatorServicesConfig>,
    /// Binary name to configured path, relative to the configuration directory or absolute.
    pub binaries: StringMap<String>,
}

/// Whether a service domain runs.
#[derive(Clone, Copy, Debug, PartialEq, Eq, Structural)]
pub enum DomainEnabledMode {
    /// Runs when providers are present.
    Auto,
    True,
    False,
}

pub open spec fn enabled_spec(mode: DomainEnabledMode, has_providers: bool) -> bool {
    match mode {
        DomainEnabledMode::Auto => has_providers,
        DomainEnabledMode::True => true,
        DomainEnabledMode::False => false,
    }
}

impl DomainEnabledMode {
    /// Whether the domain runs, given whether it has providers.
    pub fn is_enabled(self, has_providers: bool) -> (r: bool)
        ensures r == enabled_spec(self, has_providers),
    {
        match self {
            DomainEnabledMode::Auto => has_providers,
            DomainEnabledMode::True => true,
            DomainEnabledMode::False => false,
        }
    }
}

impl Default for DomainEnabledMode {
    fn default() -> (r: Self)
        ensures r == DomainEnabledMode::Auto,
    {
        DomainEnabledMode::Auto
    }
}

pub struct OperatorServicesConfig {
    pub messaging: DomainServicesConfig,
    pub events: DomainServicesConfig,
}

pub struct DomainServicesConfig {
    pub enabled: DomainEnabledMode,
    pub components: Vec<ServiceComponentConfig>,
}

pub struct ServiceComponentConfig {
    pub id: String,
    pub binary: String,
    pub args: Vec<String>,
}

impl Default for DomainServicesConfig {
    fn default() -> (r: Self)
        ensures
            r.enabled == DomainEnabledMode::Auto,
            r.components@.len() == 0,
    {
        DomainServicesConfig { enabled: DomainEnabledMode::Auto, components: Vec::new() }
    }
}

impl Default for OperatorServicesConfig {
    fn default() -> (r: Self)
        ensures
            r.messaging.enabled == DomainEnabledMode::Auto,
            r.messaging.components@.len() == 0,
            r.events.enabled == DomainEnabledMode::Auto,
            r.events.components@.len() == 0,
    {
        OperatorServicesConfig { messaging: DomainServicesConfig::default(), events: DomainServicesConfig::default() }
    }
}

impl Default for OperatorConfig {
    fn default() -> (r: Self)
        ensures
            r.services is None,
            r.binaries.size() == 0,
            forall|k: Seq<char>| !r.binaries.has_key(k),
    {
        OperatorConfig { services: None, binaries: StringMap::new() }
    }
}

/// The path configured for binary `name`, resolved against `config_dir`.
pub fn binary_override(config: Option<&OperatorConfig>, name: &str, config_dir: &str) -> (r: Option<String>)
    ensures
        match config {
            None => r is None,
            Some(c) => match c.binaries.lookup(name@) {
                None => r is None,
                Some(v) => r is Some && r->0@ == join_path(config_dir@, v@),
            },
        },
{
    match config {
        None => None,
        Some(c) => config_binary_path(c, name, config_dir),
    }
}

fn config_binary_path(config: &OperatorConfig, name: &str, config_dir: &str) -> (r: Option<String>)
    ensures
        match config.binaries.lookup(name@) {
            None => r is None,
            Some(v) => r is Some && r->0@ == join_path(config_dir@, v@),
        },
{
    match config.binaries.get(name) {
        Some(value) => Some(resolve_path(config_dir, value.as_str())),
        None => None,
    }
}

/// `value` resolved against `base`: kept when absolute, joined otherwise.
pub fn resolve_path(base: &str, value: &str) -> (r: String)
    ensures r@ == join_path(base@, value@),
{
    resolve_relative(base, value)
}

// ----- configuration text -------------------------------------------------

/// Whether `s[a..b]` is a line of `s`: it starts at the beginning of `s` or
/// after a newline, ends at the end of `s` or at a newline, and holds none.
pub open spec fn is_line(s: Seq<char>, a: int, b: int) -> bool {
    &&& 0 <= a <= b <= s.len()
    &&& (a == 0 || s[a - 1] == '\n')
    &&& (b == s.len() || s[b] == '\n')
    &&& forall|k: int| a <= k < b ==> s[k] != '\n'
}

/// A line that carries no setting: blank, or a `#` comment.
pub open spec fn inert_line(l: Seq<char>) -> bool {
    trim(l).len() == 0 || starts_with(trim(l), "#"@)
}

/// Whether every line of `s` is blank or a comment.
pub open spec fn only_comments(s: Seq<char>) -> bool {
    forall|a: int, b: int| is_line(s, a, b) ==> inert_line(#[trigger] s.subrange(a, b))
}

fn inert_range(v: &Vec<char>, a: usize, b: usize) -> (r: bool)
    requires a <= b <= v@.len(),
    ensures r == inert_line(v@.subrange(a as int, b as int)),
{
    let mut line: Vec<char> = Vec::new();
    let mut i: usize = a;
    while i < b
        invariant
            a <= i <= b <= v@.len(),
            line@ == v@.subrange(a as int, i as int),
        decreases b - i,
    {
        line.push(v[i]);
        i = i + 1;
        assert(line@ =~= v@.subrange(a as int, i as int));
    }
    let (lo, hi) = trim_bounds(&line);
    if lo == hi {
        return true;
    }
    let r = line[lo] == '#';
    proof {
        let t = trim(line@);
        assert(t.len() > 0);
        assert(t[0] == line@[lo as int]);
        if r { assert(t.subrange(0, 1) =~= "#"@) by { reveal_strlit("#"); } }
        else { assert(!starts_with(t, "#"@)) by { reveal_strlit("#"); if starts_with(t, "#"@) { assert(t.subrange(0, 1)[0] == '#'); } } }
    }
    r
}

/// Whether a configuration file holds nothing but blank lines and `#`
/// comments, in which case it is treated as absent.
pub fn is_comment_only(contents: &str) -> (r: bool)
    ensures r == only_comments(contents@),
{
    let v = chars_vec(contents);
    let n = v.len();
    let mut start: usize = 0;
    loop
        invariant
            v@ == contents@,
            n == v@.len(),
            start <= n,
            start == 0 || v@[start - 1] == '\n',
            forall|a: int, b: int| is_line(v@, a, b) && a < start ==> inert_line(#[trigger] v@.subrange(a, b)),
        decreases n - start,
    {
        let mut e: usize = start;
        while e < n && v[e] != '\n'
            invariant
                start <= e <= n == v@.len(),
                forall|k: int| start <= k < e ==> v@[k] != '\n',
            decreases n - e,
        {
            e = e + 1;
        }
        let ok = inert_range(&v, start, e);
        proof {
            assert(is_line(v@, start as int, e as int));
            assert forall|a: int, b: int| is_line(v@, a, b) && a == start implies b == e by {
                if b < e { assert(v@[b] == '\n'); }
                if b > e { assert(v@[e as int] == '\n'); }
            }
        }
        if !ok {
            return false;
        }
        if e == n {
            proof {
                assert forall|a: int, b: int| is_line(v@, a, b) implies inert_line(#[trigger] v@.subrange(a, b)) by {
                    if a > start {
                        assert(v@[a - 1] == '\n');
                        assert(false);
                    }
                }
            }
            return true;
        }
        proof {
            assert forall|a: int, b: int| is_line(v@, a, b) && a < e + 1 implies inert_line(#[trigger] v@.subrange(a, b)) by {
                if a > start && a <= e {
                    assert(v@[a - 1] == '\n');
                    assert(false);
                }
            }
        }
        start = e + 1;
    }
}

// ----- demo configuration -------------------------------------------------

/// The demo configuration (`demo.yaml`).
pub struct DemoConfig {
    pub tenant: String,
    pub team: String,
    pub services: DemoServicesConfig,
    pub providers: Option<StringMap<DemoProviderConfig>>,
}

pub struct DemoServicesConfig {
    pub nats: DemoNatsConfig,
    pub gateway: DemoGatewayConfig,
    pub egress: DemoEgressConfig,
    pub subscriptions: DemoSubscriptionsConfig,
    pub events: DemoEventsConfig,
}

pub struct DemoNatsConfig {
    pub enabled: bool,
    pub url: String,
    pub spawn: DemoNatsSpawnConfig,
}

pub struct DemoNatsSpawnConfig {
    pub enabled: bool,
    pub binary: String,
    pub args: Vec<String>,
}

pub struct DemoGatewayConfig {
    pub binary: String,
    pub listen_addr: String,
    pub port: u16,
    pub args: Vec<String>,
}

pub struct DemoEgressConfig {
    pub binary: String,
    pub args: Vec<String>,
}

pub struct DemoSubscriptionsConfig {
    pub mode: DemoSubscriptionsMode,
    pub universal: DemoSubscriptionsUniversalConfig,
    pub msgraph: DemoMsgraphSubscriptionsConfig,
}

#[derive(Clone, Copy, Debug, PartialEq, Eq, Structural)]
pub enum DemoSubscriptionsMode {
    LegacyGsm,
    UniversalOps,
}

pub struct DemoSubscriptionsUniversalConfig {
    pub renew_interval_seconds: u64,
    pub renew_skew_minutes: u64,
    pub desired: Vec<DemoDesiredSubscription>,
}

pub struct DemoDesiredSubscription {
    pub provider: String,
    pub resource: String,
    pub change_types: Vec<String>,
    pub notification_url: Option<String>,
    pub client_state: Option<String>,
    pub binding_id: Option<String>,
    pub user: Option<AuthUserConfig>,
}

pub struct AuthUserConfig {
    pub user_id: String,
    pub token_key: String,
}

pub struct DemoEventsConfig {
    pub enabled: DomainEnabledMode,
    pub components: Vec<ServiceComponentConfig>,
}

pub struct DemoMsgraphSubscriptionsConfig {
    pub enabled: bool,
    pub binary: String,
    pub mode: String,
    pub args: Vec<String>,
}

pub struct DemoProviderConfig {
    pub pack: Option<String>,
    pub setup_flow: Option<String>,
    pub verify_flow: Option<String>,
}

pub fn default_demo_tenant() -> (r: String)
    ensures r@ == "demo"@,
{
    owned("demo")
}

pub fn default_demo_team() -> (r: String)
    ensures r@ == "default"@,
{
    owned("default")
}

pub fn default_true() -> (r: bool)
    ensures r,
{
    true
}

pub fn default_nats_url() -> (r: String)
    ensures r@ == "nats://127.0.0.1:4222"@,
{
    owned("nats://127.0.0.1:4222")
}

pub fn default_receive_nats_url() -> (r: String)
    ensures r@ == "nats://127.0.0.1:4347"@,
{
    owned("nats://127.0.0.1:4347")
}

pub fn default_nats_binary() -> (r: String)
    ensures r@ == "nats-server"@,
{
    owned("nats-server")
}

pub open spec fn nats_args_spec(args: Seq<String>) -> bool {
    &&& args.len() == 3
    &&& args[0]@ == "-p"@
    &&& args[1]@ == "4222"@
    &&& args[2]@ == "-js"@
}

pub fn default_nats_args() -> (r: Vec<String>)
    ensures nats_args_spec(r@),
{
    let mut r: Vec<String> = Vec::new();
    r.push(owned("-p"));
    r.push(owned("4222"));
    r.push(owned("-js"));
    r
}

pub fn default_gateway_binary() -> (r: String)
    ensures r@ == "gateway"@,
{
    owned("gateway")
}

pub fn default_gateway_listen_addr() -> (r: String)
    ensures r@ == "127.0.0.1"@,
{
    owned("127.0.0.1")
}

pub fn default_gateway_port() -> (r: u16)
    ensures r == 8080,
{
    8080
}

pub fn default_egress_binary() -> (r: String)
    ensures r@ == "egress"@,
{
    owned("egress")
}

pub fn default_msgraph_binary() -> (r: String)
    ensures r@ == "subscriptions-msgraph"@,
{
    owned("subscriptions-msgraph")
}

pub fn default_msgraph_mode() -> (r: String)
    ensures r@ == "poll"@,
{
    owned("poll")
}

pub fn default_subscriptions_mode() -> (r: DemoSubscriptionsMode)
    ensures r == DemoSubscriptionsMode::LegacyGsm,
{
    DemoSubscriptionsMode::LegacyGsm
}

pub fn default_universal_renew_interval() -> (r: u64)
    ensures r == 60,
{
    60
}

pub fn default_universal_renew_skew() -> (r: u64)
    ensures r == 10,
{
    10
}

pub fn default_change_types() -> (r: Vec<String>)
    ensures r@.len() == 1, r@[0]@ == "created"@,
{
    let mut r: Vec<String> = Vec::new();
    r.push(owned("created"));
    r
}

pub fn default_events_components() -> (r: Vec<ServiceComponentConfig>)
    ensures r@.len() == 0,
{
    Vec::new()
}

pub open spec fn nats_spawn_default_spec(c: DemoNatsSpawnConfig) -> bool {
    c.enabled && c.binary@ == "nats-server"@ && nats_args_spec(c.args@)
}

pub open spec fn nats_default_spec(c: DemoNatsConfig) -> bool {
    c.enabled && c.url@ == "nats://127.0.0.1:4222"@ && nats_spawn_default_spec(c.spawn)
}

pub open spec fn gateway_default_spec(c: DemoGatewayConfig) -> bool {
    c.binary@ == "gateway"@ && c.listen_addr@ == "127.0.0.1"@ && c.port == 8080 && c.args@.len() == 0
}

pub open spec fn egress_default_spec(c: DemoEgressConfig) -> bool {
    c.binary@ == "egress"@ && c.args@.len() == 0
}

pub open spec fn universal_default_spec(c: DemoSubscriptionsUniversalConfig) -> bool {
    c.renew_interval_seconds == 60 && c.renew_skew_minutes == 10 && c.desired@.len() == 0
}

pub open spec fn msgraph_default_spec(c: DemoMsgraphSubscriptionsConfig) -> bool {
    c.enabled && c.binary@ == "subscriptions-msgraph"@ && c.mode@ == "poll"@ && c.args@.len() == 0
}

pub open spec fn subscriptions_default_spec(c: DemoSubscriptionsConfig) -> bool {
    c.mode == DemoSubscriptionsMode::LegacyGsm && universal_default_spec(c.universal) && msgraph_default_spec(c.msgraph)
}

pub open spec fn events_default_spec(c: DemoEventsConfig) -> bool {
    c.enabled == DomainEnabledMode::Auto && c.components@.len() == 0
}

pub open spec fn services_default_spec(c: DemoServicesConfig) -> bool {
    &&& nats_default_spec(c.nats)
    &&& gateway_default_spec(c.gateway)
    &&& egress_default_spec(c.egress)
    &&& subscriptions_default_spec(c.subscriptions)
    &&& events_default_spec(c.events)
}

impl Default for DemoNatsSpawnConfig {
    fn default() -> (r: Self)
        ensures nats_spawn_default_spec(r),
    {
        DemoNatsSpawnConfig { enabled: default_true(), binary: default_nats_binary(), args: default_nats_args() }
    }
}

impl Default for DemoNatsConfig {
    fn default() -> (r: Self)
        ensures nats_default_spec(r),
    {
        DemoNatsConfig { enabled: default_true(), url: default_nats_url(), spawn: DemoNatsSpawnConfig::default() }
    }
}

impl Default for DemoGatewayConfig {
    fn default() -> (r: Self)
        ensures gateway_default_spec(r),
    {
        DemoGatewayConfig {
            binary: default_gateway_binary(),
            listen_addr: default_gateway_listen_addr(),
            port: default_gateway_port(),
            args: Vec::new(),
        }
    }
}

impl Default for DemoEgressConfig {
    fn default() -> (r: Self)
        ensures egress_default_spec(r),
    {
        DemoEgressConfig { binary: default_egress_binary(), args: Vec::new() }
    }
}

impl Default for DemoSubscriptionsUniversalConfig {
    fn default() -> (r: Self)
        ensures universal_default_spec(r),
    {
        DemoSubscriptionsUniversalConfig {
            renew_interval_seconds: default_universal_renew_interval(),
            renew_skew_minutes: default_universal_renew_skew(),
            desired: Vec::new(),
        }
    }
}

impl Default for DemoMsgraphSubscriptionsConfig {
    fn default() -> (r: Self)
        ensures msgraph_default_spec(r),
    {
        DemoMsgraphSubscriptionsConfig {
            enabled: default_true(),
            binary: default_msgraph_binary(),
            mode: default_msgraph_mode(),
            args: Vec::new(),
        }
    }
}

impl Default for DemoSubscriptionsMode {
    fn default() -> (r: Self)
        ensures r == DemoSubscriptionsMode::LegacyGsm,
    {
        DemoSubscriptionsMode::LegacyGsm
    }
}

impl Default for DemoSubscriptionsConfig {
    fn default() -> (r: Self)
        ensures subscriptions_default_spec(r),
    {
        DemoSubscriptionsConfig {
            mode: default_subscriptions_mode(),
            universal: DemoSubscriptionsUniversalConfig::default(),
            msgraph: DemoMsgraphSubscriptionsConfig::default(),
        }
    }
}

impl Default for DemoEventsConfig {
    fn default() -> (r: Self)
        ensures events_default_spec(r),
    {
        DemoEventsConfig { enabled: DomainEnabledMode::Auto, components: default_events_components() }
    }
}

impl Default for DemoServicesConfig {
    fn default() -> (r: Self)
        ensures services_default_spec(r),
    {
        DemoServicesConfig {
            nats: DemoNatsConfig::default(),
            gateway: DemoGatewayConfig::default(),
            egress: DemoEgressConfig::default(),
            subscriptions: DemoSubscriptionsConfig::default(),
            events: DemoEventsConfig::default(),
        }
    }
}

impl Default for DemoConfig {
    fn default() -> (r: Self)
        ensures
            r.tenant@ == "demo"@,
            r.team@ == "default"@,
            services_default_spec(r.services),
            r.providers is None,
    {
        DemoConfig {
            tenant: default_demo_tenant(),
            team: default_demo_team(),
            services: DemoServicesConfig::default(),
            providers: None,
        }
    }
}

} // verus!
