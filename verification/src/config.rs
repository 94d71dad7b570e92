//! The mihomo configuration (`config.yaml`) as the TUI edits it: defaults,
//! subscriptions (proxy providers), the proxy group, TUN and DNS switches.
//!
//! Fields that the TUI does not model travel in the `extra` maps unchanged, so
//! that saving never drops what the user wrote.
use vstd::prelude::*;
use indexmap::IndexMap;
use std::collections::HashMap;
use crate::error::{Error, config_error};
use crate::strings::{to_owned_string, push_str, push_decimal, decimal, lemma_decimal_injective, str_eq};

verus! {

#[verifier::external_type_specification]
#[verifier::external_body]
#[verifier::reject_recursive_types(K)]
#[verifier::reject_recursive_types(V)]
#[verifier::reject_recursive_types(S)]
pub struct ExIndexMap<K, V, S>(indexmap::IndexMap<K, V, S>);

#[verifier::external_type_specification]
#[verifier::external_body]
pub struct ExYamlValue(serde_yaml::Value);

/// Default mixed/HTTP port of a generated configuration.
pub const DEFAULT_MIXED_PORT: u16 = 7890;
/// Default SOCKS port of a generated configuration.
pub const DEFAULT_SOCKS_PORT: u16 = 7891;
/// Default external-controller address.
pub const DEFAULT_CTRL_ADDR: &'static str = ":9090";
/// Default proxy group name.
pub const DEFAULT_GROUP: &'static str = "Proxy";
/// User agent sent when fetching subscriptions.
pub const SUBSCRIPTION_UA: &'static str = "mihomo-tui/v0.1.0 clash-verge";
/// Mirror that GeoIP/GeoSite data is fetched from by default.
pub const GEO_MIRROR: &'static str = "https://testingcf.jsdelivr.net/gh/MetaCubeX/meta-rules-dat@release";

/// Views of a list of strings.
pub open spec fn strs(v: Seq<String>) -> Seq<Seq<char>> {
    v.map_values(|s: String| s@)
}

pub open spec fn opt_strs(v: Option<Vec<String>>) -> Option<Seq<Seq<char>>> {
    match v { Some(v) => Some(strs(v@)), None => None }
}

pub open spec fn opt_str(v: Option<String>) -> Option<Seq<char>> {
    match v { Some(v) => Some(v@), None => None }
}

// ===== the outside maps =====

/// Keys of an unmodeled-field map, in order.
pub uninterp spec fn extra_keys(m: IndexMap<String, serde_yaml::Value>) -> Seq<Seq<char>>;

/// `IndexMap::new` for unmodeled fields: an empty map.
#[verifier::external_body]
pub fn extra_new() -> (m: IndexMap<String, serde_yaml::Value>)
    ensures
        extra_keys(m) == Seq::<Seq<char>>::empty(),
{
    IndexMap::new()
}

/// Request headers of a subscription.
pub type Headers = HashMap<String, Vec<String>>;

/// The entries of a header map.
pub type HeaderEntries = Map<String, Vec<String>>;

/// Request headers by name, each with its values.
pub type HeaderView = Map<Seq<char>, Seq<Seq<char>>>;

/// A subscription as the contracts see it: name, URL, provider type, update
/// interval in seconds, its request headers, and the keys of its unmodeled fields.
pub type ProviderEntry = (Seq<char>, Seq<char>, Seq<char>, u32, Option<HeaderView>, Seq<Seq<char>>);

pub open spec fn header_view(h: Option<HashMap<String, Vec<String>>>) -> Option<HeaderView> {
    match h {
        Some(m) => Some(m.deep_view()),
        None => None,
    }
}

/// The entry that a subscription `v` stored under `key` shows.
pub open spec fn provider_entry(key: Seq<char>, v: ProxyProvider) -> ProviderEntry {
    (key, v.url@, v.provider_type@, v.interval, header_view(v.header), extra_keys(v.extra))
}

/// The headers a new subscription is fetched with: the subscription user agent.
pub open spec fn subscription_header() -> HeaderView {
    Map::<Seq<char>, Seq<Seq<char>>>::empty().insert("User-Agent"@, seq![SUBSCRIPTION_UA@])
}

/// `HashMap::from([(key, values)])`: a map holding that one entry.
#[verifier::external_body]
fn single_header(key: String, values: Vec<String>) -> (r: Headers)
    ensures
        r@ == HeaderEntries::empty().insert(key, values),
{
    HashMap::from([(key, values)])
}

proof fn lemma_single_header(h: Headers, key: String, values: Vec<String>)
    requires
        h@ == HeaderEntries::empty().insert(key, values),
    ensures
        h.deep_view() == HeaderView::empty().insert(key@, values.deep_view()),
{
    reveal(vstd::std_specs::hash::hash_map_deep_view_impl);
    let target = Map::<Seq<char>, Seq<Seq<char>>>::empty().insert(key@, values.deep_view());
    assert(h@.contains_key(key));
    assert forall|k: Seq<char>| #[trigger] h.deep_view().contains_key(k) <==> target.contains_key(k) by {
        if target.contains_key(k) {
            assert(h@.contains_key(key) && k == key.deep_view());
        }
    }
    assert forall|k: Seq<char>| #[trigger] h.deep_view().contains_key(k) implies h.deep_view()[k] == target[k] by {
        let c = choose|c: String| h@.contains_key(c) && #[trigger] c.deep_view() == k;
        assert(c == key);
    }
    assert(h.deep_view() =~= target);
}

/// Subscriptions in order.
pub uninterp spec fn provider_entries(m: IndexMap<String, ProxyProvider>) -> Seq<ProviderEntry>;

pub open spec fn entry_keys(e: Seq<ProviderEntry>) -> Seq<Seq<char>> {
    e.map_values(|p: ProviderEntry| p.0)
}

/// Subscription names in order.
pub open spec fn provider_names(m: IndexMap<String, ProxyProvider>) -> Seq<Seq<char>> {
    entry_keys(provider_entries(m))
}

/// `IndexMap::new`: an empty map.
#[verifier::external_body]
fn providers_new() -> (m: IndexMap<String, ProxyProvider>)
    ensures
        provider_entries(m) == Seq::<ProviderEntry>::empty(),
{
    IndexMap::new()
}

/// `IndexMap::len`: the number of entries.
#[verifier::external_body]
fn providers_len(m: &IndexMap<String, ProxyProvider>) -> (n: usize)
    ensures
        n == provider_entries(*m).len(),
{
    m.len()
}

/// `IndexMap::get_index_of`: the position of `key`; keys are unique.
#[verifier::external_body]
fn providers_index_of(m: &IndexMap<String, ProxyProvider>, key: &str) -> (r: Option<usize>)
    ensures
        match r {
            Some(i) => i < provider_entries(*m).len() && provider_entries(*m)[i as int].0 == key@
                && forall|j: int| 0 <= j < provider_entries(*m).len() && j != i ==>
                    provider_entries(*m)[j].0 != key@,
            None => !provider_names(*m).contains(key@),
        },
{
    m.get_index_of(key)
}

/// `IndexMap::keys().nth(i)`: the name at position `i`.
#[verifier::external_body]
fn providers_key_at(m: &IndexMap<String, ProxyProvider>, i: usize) -> (r: Option<String>)
    ensures
        i < provider_entries(*m).len() ==> r is Some && r->Some_0@ == provider_entries(*m)[i as int].0,
        i >= provider_entries(*m).len() ==> r is None,
{
    m.keys().nth(i).cloned()
}

/// `IndexMap::contains_key`.
#[verifier::external_body]
fn providers_contains(m: &IndexMap<String, ProxyProvider>, key: &str) -> (r: bool)
    ensures
        r == provider_names(*m).contains(key@),
{
    m.contains_key(key)
}

/// `IndexMap::shift_remove`: removes `key`, keeping the order of the others.
#[verifier::external_body]
fn providers_shift_remove(m: &mut IndexMap<String, ProxyProvider>, key: &str)
    ensures
        !provider_names(*old(m)).contains(key@) ==> provider_entries(*final(m)) == provider_entries(*old(m)),
        forall|i: int| 0 <= i < provider_entries(*old(m)).len() && provider_entries(*old(m))[i].0 == key@ ==>
            provider_entries(*final(m)) == provider_entries(*old(m)).remove(i),
{
    m.shift_remove(key);
}

/// `IndexMap::insert`: a new key goes last; an existing key keeps its place
/// and takes the new value.
#[verifier::external_body]
fn providers_insert(m: &mut IndexMap<String, ProxyProvider>, key: String, v: ProxyProvider)
    ensures
        !provider_names(*old(m)).contains(key@) ==>
            provider_entries(*final(m)) == provider_entries(*old(m)).push(provider_entry(key@, v)),
        forall|i: int| 0 <= i < provider_entries(*old(m)).len() && provider_entries(*old(m))[i].0 == key@ ==>
            provider_entries(*final(m)) == provider_entries(*old(m)).update(i, provider_entry(key@, v)),
{
    m.insert(key, v);
}

/// Nameserver policy entries in order: domain pattern and servers.
pub uninterp spec fn policy_entries(m: IndexMap<String, Vec<String>>) -> Seq<(Seq<char>, Seq<Seq<char>>)>;

/// `IndexMap::new`: an empty policy map.
#[verifier::external_body]
fn policy_new() -> (m: IndexMap<String, Vec<String>>)
    ensures
        policy_entries(m) == Seq::<(Seq<char>, Seq<Seq<char>>)>::empty(),
{
    IndexMap::new()
}

/// `IndexMap::insert` of a key that is not there yet: it goes last.
#[verifier::external_body]
fn policy_insert(m: &mut IndexMap<String, Vec<String>>, key: String, v: Vec<String>)
    ensures
        !policy_entries(*old(m)).map_values(|p: (Seq<char>, Seq<Seq<char>>)| p.0).contains(key@) ==>
            policy_entries(*final(m)) == policy_entries(*old(m)).push((key@, strs(v@))),
{
    m.insert(key, v);
}

// ===== the model =====

#[derive(Debug)]
pub struct GeoXUrl {
    pub geoip: String,
    pub geosite: String,
    pub mmdb: String,
    pub extra: IndexMap<String, serde_yaml::Value>,
}

#[derive(Debug)]
pub struct ClashForAndroid {
    pub append_system_dns: bool,
    pub extra: IndexMap<String, serde_yaml::Value>,
}

#[derive(Debug)]
pub struct PortConfig {
    pub ports: Vec<String>,
    pub override_destination: bool,
    pub extra: IndexMap<String, serde_yaml::Value>,
}

#[derive(Debug)]
pub struct SniffConfig {
    pub tls: PortConfig,
    pub http: PortConfig,
    pub extra: IndexMap<String, serde_yaml::Value>,
}

#[derive(Debug)]
pub struct Sniffer {
    pub sniff: SniffConfig,
    pub enable: bool,
    pub force_domain: Vec<String>,
    pub skip_domain: Vec<String>,
    pub parse_pure_ip: bool,
    pub force_dns_mapping: bool,
    pub override_destination: bool,
    pub extra: IndexMap<String, serde_yaml::Value>,
}

#[derive(Debug)]
pub struct Tun {
    pub enable: bool,
    pub stack: Option<String>,
    pub dns_hijack: Option<Vec<String>>,
    pub auto_route: Option<bool>,
    pub auto_redirect: Option<bool>,
    pub auto_detect_interface: Option<bool>,
    pub strict_route: Option<bool>,
    pub mtu: Option<u32>,
    pub extra: IndexMap<String, serde_yaml::Value>,
}

#[derive(Debug)]
pub struct Dns {
    pub enable: bool,
    pub listen: Option<String>,
    pub enhanced_mode: Option<String>,
    pub fake_ip_range: Option<String>,
    pub fake_ip_filter: Option<Vec<String>>,
    pub default_nameserver: Option<Vec<String>>,
    pub nameserver: Option<Vec<String>>,
    pub proxy_server_nameserver: Option<Vec<String>>,
    pub nameserver_policy: Option<IndexMap<String, Vec<String>>>,
    pub extra: IndexMap<String, serde_yaml::Value>,
}

#[derive(Debug)]
pub struct ProxyGroup {
    pub name: String,
    pub group_type: String,
    pub proxies: Vec<String>,
    pub use_list: Vec<String>,
    pub extra: IndexMap<String, serde_yaml::Value>,
}

#[derive(Debug)]
pub struct ProxyProvider {
    pub provider_type: String,
    pub url: String,
    pub interval: u32,
    pub header: Option<HashMap<String, Vec<String>>>,
    pub extra: IndexMap<String, serde_yaml::Value>,
}

/// The parts of `config.yaml` that the TUI reads and edits.
#[derive(Debug)]
pub struct MihomoConfig {
    pub port: Option<u16>,
    pub socks_port: Option<u16>,
    pub mixed_port: Option<u16>,
    pub allow_lan: bool,
    pub mode: String,
    pub log_level: String,
    pub external_controller: String,
    pub geox_url: GeoXUrl,
    pub tun: Option<Tun>,
    pub dns: Option<Dns>,
    pub unified_delay: bool,
    pub keep_alive_interval: u32,
    pub clash_for_android: ClashForAndroid,
    pub sniffer: Sniffer,
    pub proxy_groups: Vec<ProxyGroup>,
    pub proxy_providers: Option<IndexMap<String, ProxyProvider>>,
    pub rules: Vec<String>,
    pub extra: IndexMap<String, serde_yaml::Value>,
}

// ===== defaults =====

fn strings_of(items: &[&str]) -> (v: Vec<String>)
    ensures
        strs(v@) == items@.map_values(|s: &str| s@),
{
    let mut v: Vec<String> = Vec::new();
    let mut i: usize = 0;
    while i < items.len()
        invariant
            i <= items@.len(),
            strs(v@) == items@.take(i as int).map_values(|s: &str| s@),
        decreases items@.len() - i,
    {
        let ghost before = strs(v@);
        v.push(to_owned_string(items[i]));
        proof {
            assert(strs(v@) =~= before.push(items@[i as int]@));
            assert(items@.take(i as int + 1).map_values(|s: &str| s@)
                =~= items@.take(i as int).map_values(|s: &str| s@).push(items@[i as int]@));
        }
        i = i + 1;
    }
    proof {
        assert(items@.take(items@.len() as int) =~= items@);
    }
    v
}

pub open spec fn geo_url(file: Seq<char>) -> Seq<char> {
    GEO_MIRROR@ + "/"@ + file
}

pub open spec fn is_default_geox(g: GeoXUrl) -> bool {
    &&& g.geoip@ == geo_url("geoip.dat"@)
    &&& g.geosite@ == geo_url("geosite.dat"@)
    &&& g.mmdb@ == geo_url("geoip.metadb"@)
    &&& extra_keys(g.extra).len() == 0
}

fn geo(file: &str) -> (r: String)
    ensures
        r@ == geo_url(file@),
{
    let mut r = to_owned_string(GEO_MIRROR);
    push_str(&mut r, "/");
    push_str(&mut r, file);
    r
}

impl Default for GeoXUrl {
    fn default() -> (g: Self)
        ensures
            is_default_geox(g),
    {
        GeoXUrl {
            geoip: geo("geoip.dat"),
            geosite: geo("geosite.dat"),
            mmdb: geo("geoip.metadb"),
            extra: extra_new(),
        }
    }
}

pub open spec fn is_default_provider(p: ProxyProvider) -> bool {
    &&& p.provider_type@ == "http"@
    &&& p.url@ == Seq::<char>::empty()
    &&& p.interval == 3600
    &&& p.header is None
    &&& extra_keys(p.extra).len() == 0
}

impl Default for ProxyProvider {
    fn default() -> (p: Self)
        ensures
            is_default_provider(p),
    {
        ProxyProvider {
            provider_type: to_owned_string("http"),
            url: String::new(),
            interval: 3600,
            header: None,
            extra: extra_new(),
        }
    }
}

/// What `Tun::default_enabled` holds.
pub open spec fn is_default_tun(t: Tun) -> bool {
    &&& t.enable
    &&& opt_str(t.stack) == Some("mixed"@)
    &&& opt_strs(t.dns_hijack) == Some(seq!["any:53"@, "tcp://any:53"@])
    &&& t.auto_route == Some(true)
    &&& t.auto_redirect == Some(true)
    &&& t.auto_detect_interface == Some(true)
    &&& t.strict_route == Some(true)
    &&& t.mtu == Some(1500u32)
    &&& extra_keys(t.extra).len() == 0
}

impl Tun {
    /// TUN switched on with mixed stack, DNS hijack, automatic routing and MTU 1500.
    pub fn default_enabled() -> (t: Self)
        ensures
            is_default_tun(t),
    {
        let hijack = strings_of(&["any:53", "tcp://any:53"]);
        let t = Tun {
            enable: true,
            stack: Some(to_owned_string("mixed")),
            dns_hijack: Some(hijack),
            auto_route: Some(true),
            auto_redirect: Some(true),
            auto_detect_interface: Some(true),
            strict_route: Some(true),
            mtu: Some(1500),
            extra: extra_new(),
        };
        proof {
            assert(opt_strs(t.dns_hijack) =~= Some(seq!["any:53"@, "tcp://any:53"@]));
        }
        t
    }
}

pub open spec fn default_policy() -> Seq<(Seq<char>, Seq<Seq<char>>)> {
    seq![
        ("geosite:cn,private"@, seq!["https://223.5.5.5/dns-query"@]),
        ("geosite:geolocation-!cn"@, seq!["https://1.1.1.1/dns-query"@]),
    ]
}

/// What `Dns::default_enabled` holds.
pub open spec fn is_default_dns(d: Dns) -> bool {
    &&& d.enable
    &&& opt_str(d.listen) == Some("0.0.0.0:1053"@)
    &&& opt_str(d.enhanced_mode) == Some("fake-ip"@)
    &&& opt_str(d.fake_ip_range) == Some("198.18.0.1/16"@)
    &&& opt_strs(d.fake_ip_filter) == Some(seq![
        "*.lan"@, "*.local"@, "+.msftconnecttest.com"@, "+.msftncsi.com"@,
        "localhost.ptlogin2.qq.com"@, "+.ntp.org"@,
    ])
    &&& opt_strs(d.default_nameserver) == Some(seq!["223.5.5.5"@, "1.1.1.1"@])
    &&& opt_strs(d.nameserver) == Some(seq!["https://223.5.5.5/dns-query"@, "https://1.1.1.1/dns-query"@])
    &&& opt_strs(d.proxy_server_nameserver) == Some(seq!["https://223.5.5.5/dns-query"@])
    &&& d.nameserver_policy is Some
    &&& policy_entries(d.nameserver_policy->Some_0) == default_policy()
    &&& extra_keys(d.extra).len() == 0
}

/// How switching DNS to `on` turns the section `before` into `after`: an
/// existing section only changes its `enable`; switching on without one
/// creates the default section; switching off without one leaves none.
pub open spec fn dns_switched(before: Option<Dns>, after: Option<Dns>, on: bool) -> bool {
    match before {
        Some(d) => after == Some(Dns { enable: on, ..d }),
        None => if on { after is Some && is_default_dns(after->Some_0) } else { after is None },
    }
}

/// How switching TUN to `on` turns the TUN and DNS sections `(tun, dns)` into
/// `(tun2, dns2)`: an existing TUN section only changes its `enable`, a
/// missing one is created from the defaults when switching on; switching on
/// also switches DNS on, switching off leaves DNS alone.
pub open spec fn tun_switched(tun: Option<Tun>, dns: Option<Dns>, tun2: Option<Tun>, dns2: Option<Dns>, on: bool) -> bool {
    &&& match tun {
        Some(t) => tun2 == Some(Tun { enable: on, ..t }),
        None => if on { tun2 is Some && is_default_tun(tun2->Some_0) } else { tun2 is None },
    }
    &&& if on { dns_switched(dns, dns2, true) } else { dns2 == dns }
}

impl Dns {
    /// DNS switched on in fake-ip mode, with domestic and foreign DoH servers
    /// and a policy that routes Chinese domains to the domestic one.
    pub fn default_enabled() -> (d: Self)
        ensures
            is_default_dns(d),
    {
        let mut policy = policy_new();
        let k1 = to_owned_string("geosite:cn,private");
        let v1 = strings_of(&["https://223.5.5.5/dns-query"]);
        proof {
            assert(strs(v1@) =~= seq!["https://223.5.5.5/dns-query"@]);
        }
        policy_insert(&mut policy, k1, v1);
        let k2 = to_owned_string("geosite:geolocation-!cn");
        let v2 = strings_of(&["https://1.1.1.1/dns-query"]);
        proof {
            assert(strs(v2@) =~= seq!["https://1.1.1.1/dns-query"@]);
            reveal_strlit("geosite:cn,private");
            reveal_strlit("geosite:geolocation-!cn");
            let ks = policy_entries(policy).map_values(|p: (Seq<char>, Seq<Seq<char>>)| p.0);
            assert(ks =~= seq!["geosite:cn,private"@]);
            assert("geosite:cn,private"@ != "geosite:geolocation-!cn"@) by {
                assert("geosite:cn,private"@[8] != "geosite:geolocation-!cn"@[8]);
            }
            if ks.contains("geosite:geolocation-!cn"@) {
                assert(ks[0] == "geosite:geolocation-!cn"@);
            }
        }
        policy_insert(&mut policy, k2, v2);
        let d = Dns {
            enable: true,
            listen: Some(to_owned_string("0.0.0.0:1053")),
            enhanced_mode: Some(to_owned_string("fake-ip")),
            fake_ip_range: Some(to_owned_string("198.18.0.1/16")),
            fake_ip_filter: Some(strings_of(&[
                "*.lan", "*.local", "+.msftconnecttest.com", "+.msftncsi.com",
                "localhost.ptlogin2.qq.com", "+.ntp.org",
            ])),
            default_nameserver: Some(strings_of(&["223.5.5.5", "1.1.1.1"])),
            nameserver: Some(strings_of(&["https://223.5.5.5/dns-query", "https://1.1.1.1/dns-query"])),
            proxy_server_nameserver: Some(strings_of(&["https://223.5.5.5/dns-query"])),
            nameserver_policy: Some(policy),
            extra: extra_new(),
        };
        proof {
            assert(opt_strs(d.fake_ip_filter) =~= Some(seq![
                "*.lan"@, "*.local"@, "+.msftconnecttest.com"@, "+.msftncsi.com"@,
                "localhost.ptlogin2.qq.com"@, "+.ntp.org"@,
            ]));
            assert(opt_strs(d.default_nameserver) =~= Some(seq!["223.5.5.5"@, "1.1.1.1"@]));
            assert(opt_strs(d.nameserver) =~= Some(seq!["https://223.5.5.5/dns-query"@, "https://1.1.1.1/dns-query"@]));
            assert(opt_strs(d.proxy_server_nameserver) =~= Some(seq!["https://223.5.5.5/dns-query"@]));
            assert(policy_entries(d.nameserver_policy->Some_0) =~= default_policy());
        }
        d
    }
}

pub open spec fn default_rules() -> Seq<Seq<char>> {
    seq![
        "GEOSITE,category-ads-all,REJECT"@,
        "GEOSITE,google,Proxy"@,
        "GEOSITE,github,Proxy"@,
        "GEOSITE,telegram,Proxy"@,
        "GEOSITE,twitter,Proxy"@,
        "GEOSITE,facebook,Proxy"@,
        "GEOSITE,youtube,Proxy"@,
        "GEOSITE,netflix,Proxy"@,
        "GEOSITE,openai,Proxy"@,
        "GEOIP,LAN,DIRECT"@,
        "GEOIP,CN,DIRECT"@,
        "MATCH,Proxy"@,
    ]
}

pub open spec fn is_default_sniffer(s: Sniffer) -> bool {
    &&& s.enable
    &&& strs(s.sniff.tls.ports@) == seq!["1-65535"@]
    &&& s.sniff.tls.override_destination
    &&& strs(s.sniff.http.ports@) == seq!["1-65535"@]
    &&& s.sniff.http.override_destination
    &&& strs(s.force_domain@) == seq!["+.netflix.com"@]
    &&& strs(s.skip_domain@) == seq!["Mijia Cloud"@, "dlg.io.mi.com"@]
    &&& s.parse_pure_ip
    &&& s.force_dns_mapping
    &&& s.override_destination
}

/// What `MihomoConfig::default_config` holds.
pub open spec fn is_default_config(c: MihomoConfig) -> bool {
    &&& c.port == Some(DEFAULT_MIXED_PORT)
    &&& c.socks_port == Some(DEFAULT_SOCKS_PORT)
    &&& c.mixed_port is None
    &&& c.allow_lan
    &&& c.mode@ == "Rule"@
    &&& c.log_level@ == "info"@
    &&& c.external_controller@ == DEFAULT_CTRL_ADDR@
    &&& is_default_geox(c.geox_url)
    &&& c.tun is None
    &&& c.dns is None
    &&& c.unified_delay
    &&& c.keep_alive_interval == 360
    &&& !c.clash_for_android.append_system_dns
    &&& is_default_sniffer(c.sniffer)
    &&& c.proxy_groups@.len() == 1
    &&& c.proxy_groups@[0].name@ == DEFAULT_GROUP@
    &&& c.proxy_groups@[0].group_type@ == "select"@
    &&& strs(c.proxy_groups@[0].proxies@) == seq!["DIRECT"@]
    &&& c.proxy_groups@[0].use_list@.len() == 0
    &&& c.proxy_providers is None
    &&& strs(c.rules@) == default_rules()
    &&& extra_keys(c.extra).len() == 0
}

fn port_config() -> (p: PortConfig)
    ensures
        strs(p.ports@) == seq!["1-65535"@],
        p.override_destination,
{
    let p = PortConfig { ports: strings_of(&["1-65535"]), override_destination: true, extra: extra_new() };
    proof {
        assert(strs(p.ports@) =~= seq!["1-65535"@]);
    }
    p
}

impl MihomoConfig {
    /// The configuration written when none exists: local ports 7890/7891, rule
    /// mode, one `Proxy` selector group, sniffing on, and a rule set sending
    /// ads to REJECT, common foreign sites to `Proxy` and LAN/China direct.
    pub fn default_config() -> (c: Self)
        ensures
            is_default_config(c),
    {
        let sniffer = Sniffer {
            sniff: SniffConfig { tls: port_config(), http: port_config(), extra: extra_new() },
            enable: true,
            force_domain: strings_of(&["+.netflix.com"]),
            skip_domain: strings_of(&["Mijia Cloud", "dlg.io.mi.com"]),
            parse_pure_ip: true,
            force_dns_mapping: true,
            override_destination: true,
            extra: extra_new(),
        };
        let group = ProxyGroup {
            name: to_owned_string(DEFAULT_GROUP),
            group_type: to_owned_string("select"),
            proxies: strings_of(&["DIRECT"]),
            use_list: Vec::new(),
            extra: extra_new(),
        };
        let mut groups: Vec<ProxyGroup> = Vec::new();
        groups.push(group);
        let rules = strings_of(&[
            "GEOSITE,category-ads-all,REJECT",
            "GEOSITE,google,Proxy",
            "GEOSITE,github,Proxy",
            "GEOSITE,telegram,Proxy",
            "GEOSITE,twitter,Proxy",
            "GEOSITE,facebook,Proxy",
            "GEOSITE,youtube,Proxy",
            "GEOSITE,netflix,Proxy",
            "GEOSITE,openai,Proxy",
            "GEOIP,LAN,DIRECT",
            "GEOIP,CN,DIRECT",
            "MATCH,Proxy",
        ]);
        let c = MihomoConfig {
            port: Some(DEFAULT_MIXED_PORT),
            socks_port: Some(DEFAULT_SOCKS_PORT),
            mixed_port: None,
            allow_lan: true,
            mode: to_owned_string("Rule"),
            log_level: to_owned_string("info"),
            external_controller: to_owned_string(DEFAULT_CTRL_ADDR),
            geox_url: GeoXUrl::default(),
            tun: None,
            dns: None,
            unified_delay: true,
            keep_alive_interval: 360,
            clash_for_android: ClashForAndroid { append_system_dns: false, extra: extra_new() },
            sniffer,
            proxy_groups: groups,
            proxy_providers: None,
            rules,
            extra: extra_new(),
        };
        proof {
            assert(strs(c.sniffer.force_domain@) =~= seq!["+.netflix.com"@]);
            assert(strs(c.sniffer.skip_domain@) =~= seq!["Mijia Cloud"@, "dlg.io.mi.com"@]);
            assert(strs(c.proxy_groups@[0].proxies@) =~= seq!["DIRECT"@]);
            assert(strs(c.rules@) =~= default_rules());
        }
        c
    }
}

impl Default for MihomoConfig {
    fn default() -> (c: Self)
        ensures
            is_default_config(c),
    {
        MihomoConfig::default_config()
    }
}

// ===== edits =====

/// A subscription name made unique by a counter: `base (i)`.
pub open spec fn numbered(base: Seq<char>, i: nat) -> Seq<char> {
    base + " ("@ + decimal(i) + ")"@
}

/// `name` is `base` made unique among `keys`: `base` itself when free, else
/// `base (i)` for the least `i >= 1` that is free.
pub open spec fn unique_name(keys: Seq<Seq<char>>, base: Seq<char>, name: Seq<char>) -> bool {
    &&& !keys.contains(base) ==> name == base
    &&& keys.contains(base) ==> exists|i: nat| {
        &&& i >= 1
        &&& name == #[trigger] numbered(base, i)
        &&& !keys.contains(name)
        &&& forall|j: nat| 1 <= j < i ==> keys.contains(#[trigger] numbered(base, j))
    }
}

proof fn lemma_numbered_injective(base: Seq<char>, a: nat, b: nat)
    requires
        numbered(base, a) == numbered(base, b),
    ensures
        a == b,
{
    reveal_strlit(" (");
    reveal_strlit(")");
    let ca = numbered(base, a);
    let cb = numbered(base, b);
    assert(ca.len() == base.len() + 2 + decimal(a).len() + 1);
    assert(cb.len() == base.len() + 2 + decimal(b).len() + 1);
    assert(ca.subrange(base.len() + 2int, ca.len() - 1) =~= decimal(a));
    assert(cb.subrange(base.len() + 2int, cb.len() - 1) =~= decimal(b));
    lemma_decimal_injective(a, b);
}

/// When `base` and the names `base (1)` .. `base (n)` are all taken, there
/// are more than `n` names.
proof fn lemma_numbered_bound(names: Seq<Seq<char>>, base: Seq<char>, n: int)
    requires
        n >= 0,
        names.contains(base),
        forall|j: int| 1 <= j <= n ==> names.contains(#[trigger] numbered(base, j as nat)),
    ensures
        n < names.len(),
{
    reveal_strlit(" (");
    let x = vstd::set_lib::set_int_range(1, n + 1);
    vstd::set_lib::lemma_int_range(1, n + 1);
    let f = |j: int| numbered(base, j as nat);
    let y0 = x.map(f);
    assert(!y0.contains(base)) by {
        if y0.contains(base) {
            let j = choose|j: int| x.contains(j) && f(j) == base;
            assert(numbered(base, j as nat).len() > base.len());
        }
    }
    let y = y0.insert(base);
    assert(vstd::relations::injective_on(f, x)) by {
        assert forall|a: int, b: int| x.contains(a) && x.contains(b) && #[trigger] f(a) == #[trigger] f(b) implies a == b by {
            lemma_numbered_injective(base, a as nat, b as nat);
        }
    }
    vstd::set_lib::lemma_map_size(x, y0, f);
    assert(y.subset_of(names.to_set())) by {
        assert forall|e: Seq<char>| y.contains(e) implies names.to_set().contains(e) by {
            if e != base {
                let j = choose|j: int| x.contains(j) && f(j) == e;
                assert(names.contains(numbered(base, j as nat)));
            }
        }
    }
    vstd::seq_lib::seq_to_set_is_finite(names);
    vstd::set_lib::lemma_len_subset(y, names.to_set());
    names.lemma_cardinality_of_set();
}

fn numbered_name(base: &str, i: u64) -> (r: String)
    ensures
        r@ == numbered(base@, i as nat),
{
    let mut r = to_owned_string(base);
    push_str(&mut r, " (");
    push_decimal(&mut r, i);
    push_str(&mut r, ")");
    r
}

/// The group order with the first group's `use` list replaced.
pub open spec fn with_first_use(groups: Seq<ProxyGroup>, uses: Seq<Seq<char>>, g: Seq<ProxyGroup>) -> bool {
    &&& g.len() == groups.len()
    &&& groups.len() > 0 ==> {
        &&& strs(g[0].use_list@) == uses
        &&& g[0].name == groups[0].name
        &&& g[0].group_type == groups[0].group_type
        &&& g[0].proxies == groups[0].proxies
        &&& g[0].extra == groups[0].extra
    }
    &&& forall|k: int| 1 <= k < groups.len() ==> g[k] == groups[k]
}

/// The groups with `name` taken out of every `use` list.
pub open spec fn without_use(groups: Seq<ProxyGroup>, name: Seq<char>, g: Seq<ProxyGroup>) -> bool {
    &&& g.len() == groups.len()
    &&& forall|k: int| 0 <= k < groups.len() ==> {
        &&& strs((#[trigger] g[k]).use_list@) == strs(groups[k].use_list@).filter(|n: Seq<char>| n != name)
        &&& g[k].name == groups[k].name
        &&& g[k].group_type == groups[k].group_type
        &&& g[k].proxies == groups[k].proxies
        &&& g[k].extra == groups[k].extra
    }
}

fn without_name(list: &Vec<String>, name: &str) -> (r: Vec<String>)
    ensures
        strs(r@) == strs(list@).filter(|n: Seq<char>| n != name@),
{
    let mut r: Vec<String> = Vec::new();
    let mut i: usize = 0;
    while i < list.len()
        invariant
            i <= list.len(),
            strs(r@) == strs(list@).take(i as int).filter(|n: Seq<char>| n != name@),
        decreases list.len() - i,
    {
        let ghost before = strs(r@);
        proof {
            assert(strs(list@).take(i as int + 1) =~= strs(list@).take(i as int).push(list@[i as int]@));
            strs(list@).take(i as int).lemma_filter_push(list@[i as int]@, |n: Seq<char>| n != name@);
        }
        if !str_eq(list[i].as_str(), name) {
            r.push(list[i].clone());
            proof {
                assert(strs(r@) =~= before.push(list@[i as int]@));
            }
        }
        i = i + 1;
    }
    proof {
        assert(strs(list@).take(list@.len() as int) =~= strs(list@));
    }
    r
}

impl MihomoConfig {
    /// Name of the proxy group that the API's group endpoints use: the first
    /// group's, or `Proxy` when there is none.
    pub fn group_name(&self) -> (r: &str)
        ensures
            r@ == (if self.proxy_groups@.len() > 0 { self.proxy_groups@[0].name@ } else { DEFAULT_GROUP@ }),
    {
        if self.proxy_groups.len() > 0 {
            self.proxy_groups[0].name.as_str()
        } else {
            DEFAULT_GROUP
        }
    }

    /// Name of the subscription at position `index`.
    pub fn provider_key_by_index(&self, index: usize) -> (r: Option<String>)
        ensures
            match self.proxy_providers {
                Some(p) => if index < provider_entries(p).len() {
                    r is Some && r->Some_0@ == provider_entries(p)[index as int].0
                } else {
                    r is None
                },
                None => r is None,
            },
    {
        match &self.proxy_providers {
            Some(p) => providers_key_at(p, index),
            None => None,
        }
    }

    /// Position of the subscription named `key`.
    pub fn provider_index_by_key(&self, key: &str) -> (r: Option<usize>)
        ensures
            match self.proxy_providers {
                Some(p) => match r {
                    Some(i) => i < provider_entries(p).len() && provider_entries(p)[i as int].0 == key@,
                    None => !provider_names(p).contains(key@),
                },
                None => r is None,
            },
    {
        match &self.proxy_providers {
            Some(p) => providers_index_of(p, key),
            None => None,
        }
    }

    /// Number of subscriptions (none without a subscription map).
    pub open spec fn provider_count_view(&self) -> nat {
        match self.proxy_providers {
            Some(p) => provider_entries(p).len(),
            None => 0,
        }
    }

    /// Number of subscriptions.
    pub fn provider_count(&self) -> (n: usize)
        ensures
            n == self.provider_count_view(),
    {
        match &self.proxy_providers {
            Some(p) => providers_len(p),
            None => 0,
        }
    }

    /// Whether a subscription named `name` exists.
    pub fn has_provider(&self, name: &str) -> (r: bool)
        ensures
            r == (self.proxy_providers is Some && provider_names(self.proxy_providers->Some_0).contains(name@)),
    {
        match &self.proxy_providers {
            Some(p) => providers_contains(p, name),
            None => false,
        }
    }

    /// Points the first proxy group at subscription `name`; an unknown name is
    /// refused and leaves the configuration unchanged.
    pub fn prepare_switch_provider(&mut self, name: &str) -> (r: Result<(), Error>)
        ensures
            r is Ok == (old(self).proxy_providers is Some
                && provider_names(old(self).proxy_providers->Some_0).contains(name@)),
            r is Err ==> *final(self) == *old(self),
            r matches Err(Error::Config(m)) ==> m@ == "订阅 '"@ + name@ + "' 不存在"@,
            r is Err ==> r matches Err(Error::Config(_)),
            r is Ok ==> with_first_use(old(self).proxy_groups@, seq![name@], final(self).proxy_groups@),
            r is Ok ==> *final(self) == (MihomoConfig { proxy_groups: final(self).proxy_groups, ..*old(self) }),
    {
        if !self.has_provider(name) {
            let mut m = to_owned_string("订阅 '");
            push_str(&mut m, name);
            push_str(&mut m, "' 不存在");
            return Err(Error::Config(m));
        }
        if self.proxy_groups.len() > 0 {
            let mut g = self.proxy_groups.remove(0);
            let mut uses: Vec<String> = Vec::new();
            uses.push(to_owned_string(name));
            g.use_list = uses;
            self.proxy_groups.insert(0, g);
            proof {
                assert(strs(self.proxy_groups@[0].use_list@) =~= seq![name@]);
                assert forall|k: int| 1 <= k < old(self).proxy_groups@.len() implies
                    self.proxy_groups@[k] == old(self).proxy_groups@[k] by {}
            }
        }
        Ok(())
    }

    /// Switches TUN on or off in memory. Switching on creates the default TUN
    /// (and DNS) sections when missing and turns DNS on too; switching off
    /// keeps the section and clears only its `enable`.
    pub fn set_tun_enabled(&mut self, enabled: bool)
        ensures
            enabled ==> final(self).tun is Some && final(self).dns is Some,
            enabled ==> match old(self).tun {
                Some(t) => final(self).tun == Some(Tun { enable: true, ..t }),
                None => is_default_tun(final(self).tun->Some_0),
            },
            enabled ==> match old(self).dns {
                Some(d) => final(self).dns == Some(Dns { enable: true, ..d }),
                None => is_default_dns(final(self).dns->Some_0),
            },
            !enabled ==> final(self).dns == old(self).dns,
            !enabled ==> final(self).tun == (match old(self).tun {
                Some(t) => Some(Tun { enable: false, ..t }),
                None => None,
            }),
            tun_switched(old(self).tun, old(self).dns, final(self).tun, final(self).dns, enabled),
            *final(self) == (MihomoConfig { tun: final(self).tun, dns: final(self).dns, ..*old(self) }),
    {
        if enabled {
            let mut t = match self.tun.take() {
                Some(t) => t,
                None => Tun::default_enabled(),
            };
            t.enable = true;
            self.tun = Some(t);
            self.set_dns_enabled(true);
        } else {
            match self.tun.take() {
                Some(mut t) => {
                    t.enable = false;
                    self.tun = Some(t);
                }
                None => {}
            }
        }
    }

    /// Switches DNS on or off in memory; switching on creates the default DNS
    /// section when missing, switching off clears only its `enable`.
    pub fn set_dns_enabled(&mut self, enabled: bool)
        ensures
            enabled ==> final(self).dns is Some,
            enabled ==> match old(self).dns {
                Some(d) => final(self).dns == Some(Dns { enable: true, ..d }),
                None => is_default_dns(final(self).dns->Some_0),
            },
            !enabled ==> final(self).dns == (match old(self).dns {
                Some(d) => Some(Dns { enable: false, ..d }),
                None => None,
            }),
            dns_switched(old(self).dns, final(self).dns, enabled),
            *final(self) == (MihomoConfig { dns: final(self).dns, ..*old(self) }),
    {
        if enabled {
            let mut d = match self.dns.take() {
                Some(d) => d,
                None => Dns::default_enabled(),
            };
            d.enable = true;
            self.dns = Some(d);
        } else {
            match self.dns.take() {
                Some(mut d) => {
                    d.enable = false;
                    self.dns = Some(d);
                }
                None => {}
            }
        }
    }

    /// Removes subscription `name` and takes it out of every group's `use` list.
    pub fn remove_provider(&mut self, name: &str)
        ensures
            match old(self).proxy_providers {
                Some(p) => {
                    &&& final(self).proxy_providers is Some
                    &&& !provider_names(p).contains(name@) ==>
                        provider_entries(final(self).proxy_providers->Some_0) == provider_entries(p)
                    &&& forall|i: int| 0 <= i < provider_entries(p).len() && provider_entries(p)[i].0 == name@ ==>
                        provider_entries(final(self).proxy_providers->Some_0) == provider_entries(p).remove(i)
                },
                None => final(self).proxy_providers is None,
            },
            without_use(old(self).proxy_groups@, name@, final(self).proxy_groups@),
            *final(self) == (MihomoConfig {
                proxy_providers: final(self).proxy_providers,
                proxy_groups: final(self).proxy_groups,
                ..*old(self)
            }),
    {
        match self.proxy_providers.take() {
            Some(mut p) => {
                providers_shift_remove(&mut p, name);
                self.proxy_providers = Some(p);
            }
            None => {}
        }
        let ghost mid = *self;
        let mut k: usize = 0;
        while k < self.proxy_groups.len()
            invariant
                k <= self.proxy_groups@.len(),
                self.proxy_groups@.len() == old(self).proxy_groups@.len(),
                *self == (MihomoConfig { proxy_groups: self.proxy_groups, ..mid }),
                mid.proxy_groups == old(self).proxy_groups,
                forall|j: int| k <= j < self.proxy_groups@.len() ==> self.proxy_groups@[j] == old(self).proxy_groups@[j],
                forall|j: int| 0 <= j < k ==> {
                    &&& strs((#[trigger] self.proxy_groups@[j]).use_list@)
                        == strs(old(self).proxy_groups@[j].use_list@).filter(|n: Seq<char>| n != name@)
                    &&& self.proxy_groups@[j].name == old(self).proxy_groups@[j].name
                    &&& self.proxy_groups@[j].group_type == old(self).proxy_groups@[j].group_type
                    &&& self.proxy_groups@[j].proxies == old(self).proxy_groups@[j].proxies
                    &&& self.proxy_groups@[j].extra == old(self).proxy_groups@[j].extra
                },
            decreases old(self).proxy_groups@.len() - k,
        {
            let mut g = self.proxy_groups.remove(k);
            g.use_list = without_name(&g.use_list, name);
            self.proxy_groups.insert(k, g);
            k = k + 1;
        }
    }

    /// Adds subscription `url` under `sub_name`, made unique as `sub_name (1)`,
    /// `sub_name (2)`, ... when taken, with the HTTP type, an hourly update and
    /// the subscription user agent. Returns the name actually used.
    pub fn insert_sub(&mut self, url: String, sub_name: String) -> (r: String)
        ensures
            final(self).proxy_providers is Some,
            ({
                let before = match old(self).proxy_providers {
                    Some(p) => provider_entries(p),
                    None => Seq::<ProviderEntry>::empty(),
                };
                &&& provider_entries(final(self).proxy_providers->Some_0)
                    == before.push((r@, url@, "http"@, 3600u32, Some(subscription_header()), Seq::<Seq<char>>::empty()))
                &&& unique_name(entry_keys(before), sub_name@, r@)
            }),
            *final(self) == (MihomoConfig { proxy_providers: final(self).proxy_providers, ..*old(self) }),
    {
        let mut providers = match self.proxy_providers.take() {
            Some(p) => p,
            None => providers_new(),
        };
        let ghost before = provider_entries(providers);
        let count = providers_len(&providers);
        let mut name = sub_name;
        if providers_contains(&providers, name.as_str()) {
            let base = name;
            let mut i: usize = 1;
            proof {
                assert(forall|j: nat| 1 <= j < 1 ==> entry_keys(before).contains(#[trigger] numbered(base@, j)));
            }
            loop
                invariant
                    provider_entries(providers) == before,
                    count == before.len(),
                    entry_keys(before).contains(base@),
                    1 <= i <= entry_keys(before).len(),
                    forall|j: nat| 1 <= j < i ==> entry_keys(before).contains(#[trigger] numbered(base@, j)),
                ensures
                    provider_entries(providers) == before,
                    !entry_keys(before).contains(name@),
                    exists|k: nat| {
                        &&& k >= 1
                        &&& name@ == #[trigger] numbered(base@, k)
                        &&& !entry_keys(before).contains(name@)
                        &&& forall|j: nat| 1 <= j < k ==> entry_keys(before).contains(#[trigger] numbered(base@, j))
                    },
                decreases entry_keys(before).len() - i,
            {
                let candidate = numbered_name(base.as_str(), i as u64);
                if !providers_contains(&providers, candidate.as_str()) {
                    name = candidate;
                    proof {
                        assert(!entry_keys(before).contains(name@));
                        assert(exists|k: nat| {
                            &&& k >= 1
                            &&& name@ == #[trigger] numbered(base@, k)
                            &&& !entry_keys(before).contains(name@)
                            &&& forall|j: nat| 1 <= j < k ==> entry_keys(before).contains(#[trigger] numbered(base@, j))
                        }) by {
                            assert(name@ == numbered(base@, i as nat));
                        }
                    }
                    break;
                }
                proof {
                    assert forall|j: int| 1 <= j <= i implies entry_keys(before).contains(#[trigger] numbered(base@, j as nat)) by {
                        if j < i {
                            assert(entry_keys(before).contains(numbered(base@, j as nat)));
                        }
                    }
                    lemma_numbered_bound(entry_keys(before), base@, i as int);
                }
                i = i + 1;
            }
        }
        let mut ua: Vec<String> = Vec::new();
        ua.push(to_owned_string(SUBSCRIPTION_UA));
        proof {
            assert(ua.deep_view() =~= seq![SUBSCRIPTION_UA@]);
        }
        let ua_key = to_owned_string("User-Agent");
        let ghost ua_v = ua;
        let ghost key_v = ua_key;
        let header = single_header(ua_key, ua);
        proof {
            lemma_single_header(header, key_v, ua_v);
        }
        let provider = ProxyProvider {
            provider_type: to_owned_string("http"),
            url,
            interval: 3600,
            header: Some(header),
            extra: extra_new(),
        };
        proof {
            assert(!entry_keys(before).contains(name@));
        }
        providers_insert(&mut providers, name.clone(), provider);
        self.proxy_providers = Some(providers);
        name
    }
}

} // verus!
