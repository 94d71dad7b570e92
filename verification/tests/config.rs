use coclash::config::{Dns, MihomoConfig, Tun, SUBSCRIPTION_UA};

fn names(config: &MihomoConfig) -> Vec<String> {
    (0..config.provider_count())
        .map(|i| config.provider_key_by_index(i).unwrap())
        .collect()
}

#[test]
fn test_insert_sub_dedup() {
    let mut config = MihomoConfig::default_config();
    config.insert_sub("https://example.com/sub".to_string(), "订阅".to_string());
    config.insert_sub("https://example.com/sub".to_string(), "订阅".to_string());
    let names: Vec<String> = names(&config);
    assert_eq!(names, vec!["订阅".to_string(), "订阅 (1)".to_string()]);
}

#[test]
fn insert_sub_skips_taken_numbers() {
    let mut config = MihomoConfig::default_config();
    assert_eq!(config.insert_sub("u".into(), "s".into()), "s");
    assert_eq!(config.insert_sub("u".into(), "s (1)".into()), "s (1)");
    assert_eq!(config.insert_sub("u".into(), "s".into()), "s (2)");
    let p = config.proxy_providers.as_ref().unwrap();
    let sub = p.get("s (2)").unwrap();
    assert_eq!(sub.url, "u");
    assert_eq!(sub.interval, 3600);
    assert_eq!(sub.provider_type, "http");
    assert!(sub.header.as_ref().unwrap().contains_key("User-Agent"));
}

#[test]
fn test_group_name_fallback() {
    let config = MihomoConfig::default_config();
    assert_eq!(config.group_name(), "Proxy");
    let mut config2 = MihomoConfig::default_config();
    config2.proxy_groups.clear();
    assert_eq!(config2.group_name(), "Proxy");
}

#[test]
fn default_config_values() {
    let c = MihomoConfig::default_config();
    assert_eq!(c.port, Some(7890));
    assert_eq!(c.socks_port, Some(7891));
    assert_eq!(c.mixed_port, None);
    assert_eq!(c.mode, "Rule");
    assert_eq!(c.external_controller, ":9090");
    assert_eq!(c.rules.len(), 12);
    assert_eq!(c.rules[11], "MATCH,Proxy");
    assert!(c.geox_url.geosite.contains("jsdelivr.net"));
    assert!(c.geox_url.geoip.ends_with("/geoip.dat"));
    assert_eq!(c.proxy_groups[0].proxies, vec!["DIRECT".to_string()]);
    assert!(c.tun.is_none() && c.dns.is_none());
}

#[test]
fn switch_provider_requires_existing() {
    let mut c = MihomoConfig::default_config();
    let err = c.prepare_switch_provider("nope").unwrap_err();
    assert_eq!(err.to_string(), "订阅 'nope' 不存在");
    c.insert_sub("u".into(), "sub1".into());
    c.prepare_switch_provider("sub1").unwrap();
    assert_eq!(c.proxy_groups[0].use_list, vec!["sub1".to_string()]);
    assert_eq!(c.provider_index_by_key("sub1"), Some(0));
    assert_eq!(c.provider_index_by_key("x"), None);
    assert_eq!(c.provider_key_by_index(1), None);
}

#[test]
fn remove_provider_clears_uses() {
    let mut c = MihomoConfig::default_config();
    c.insert_sub("u".into(), "a".into());
    c.insert_sub("u".into(), "b".into());
    c.proxy_groups[0].use_list = vec!["a".into(), "b".into(), "a".into()];
    c.remove_provider("a");
    assert_eq!(names(&c), vec!["b".to_string()]);
    assert_eq!(c.proxy_groups[0].use_list, vec!["b".to_string()]);
    c.remove_provider("zzz");
    assert_eq!(names(&c), vec!["b".to_string()]);
}

#[test]
fn tun_switch_keeps_section() {
    let mut c = MihomoConfig::default_config();
    c.set_tun_enabled(true);
    let t = c.tun.as_ref().unwrap();
    assert!(t.enable);
    assert_eq!(t.mtu, Some(1500));
    assert!(c.dns.as_ref().unwrap().enable);
    c.set_tun_enabled(false);
    assert!(!c.tun.as_ref().unwrap().enable);
    assert!(c.dns.as_ref().unwrap().enable);
    c.set_dns_enabled(false);
    assert!(!c.dns.as_ref().unwrap().enable);
    let mut d = MihomoConfig::default_config();
    d.set_tun_enabled(false);
    assert!(d.tun.is_none());
}

#[test]
fn default_sections() {
    let t = Tun::default_enabled();
    assert_eq!(t.stack.as_deref(), Some("mixed"));
    assert_eq!(t.dns_hijack.as_ref().unwrap().len(), 2);
    let d = Dns::default_enabled();
    assert_eq!(d.enhanced_mode.as_deref(), Some("fake-ip"));
    let policy = d.nameserver_policy.as_ref().unwrap();
    assert_eq!(policy.len(), 2);
    assert_eq!(policy.get_index(0).unwrap().0, "geosite:cn,private");
}

#[test]
fn new_subscription_sends_the_subscription_agent() {
    let mut config = MihomoConfig::default_config();
    let name = config.insert_sub("https://example.com/s".into(), "s".into());
    let sub = config.proxy_providers.as_ref().unwrap().get(&name).unwrap();
    let header = sub.header.as_ref().unwrap();
    assert_eq!(header.len(), 1);
    assert_eq!(header.get("User-Agent").unwrap(), &vec![SUBSCRIPTION_UA.to_string()]);
    assert!(sub.extra.is_empty());
}
