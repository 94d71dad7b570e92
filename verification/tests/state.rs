use coclash::config::MihomoConfig;
use coclash::operation_log::OperationLogs;
use coclash::state::{merge_nodes, node_names_changed, AppState, MihomoManager, MihomoState, Node};
use coclash::process::MihomoStatus;

fn node(name: &str, speed: &str) -> Node {
    Node {
        name: name.to_string(),
        speed: speed.to_string(),
    }
}

fn fixture() -> AppState {
    AppState {
        logs: OperationLogs::new(),
        config: MihomoConfig::default_config(),
        mihomo: MihomoState::default(),
    }
}

#[test]
fn test_merge_nodes_preserves_speed() {
    let old = vec![node("a", "123ms"), node("b", "wait"), node("c", "-")];
    let names = vec!["a".to_string(), "c".to_string(), "d".to_string()];
    let merged = merge_nodes(&old, &names);
    assert_eq!(merged.len(), 3);
    assert_eq!(merged[0].speed, "123ms");
    assert_eq!(merged[1].speed, "-");
    assert_eq!(merged[2].speed, "-");
}

#[test]
fn merge_nodes_last_duplicate_wins() {
    let old = vec![node("a", "1ms"), node("a", "2ms")];
    let merged = merge_nodes(&old, &["a".to_string()]);
    assert_eq!(merged[0].speed, "2ms");
}

#[test]
fn test_node_names_changed() {
    let a = vec![node("a", "1ms"), node("b", "2ms")];
    assert!(!node_names_changed(&a, &a));
    let speed_only = vec![node("a", "999ms"), node("b", "2ms")];
    assert!(!node_names_changed(&a, &speed_only));
    let renamed = vec![node("a", "1ms"), node("x", "2ms")];
    assert!(node_names_changed(&a, &renamed));
    assert!(node_names_changed(&a, &[]));
}

#[test]
fn test_proxy_addr_prefers_runtime() {
    let mut state = fixture();
    assert_eq!(
        state.proxy_addr(),
        Some(format!("127.0.0.1:{}", state.config.port.unwrap()))
    );
    state.mihomo.runtime.mixed_port = Some(0);
    assert_eq!(
        state.proxy_addr(),
        Some(format!("127.0.0.1:{}", state.config.port.unwrap()))
    );
    state.mihomo.runtime.mixed_port = Some(12345);
    assert_eq!(state.proxy_addr().as_deref(), Some("127.0.0.1:12345"));
    state.config.port = None;
    state.mihomo.runtime.mixed_port = Some(0);
    assert_eq!(state.proxy_addr(), None);
}

#[test]
fn proxy_addr_http_port_before_config() {
    let mut state = fixture();
    state.mihomo.runtime.http_port = Some(8080);
    assert_eq!(state.proxy_addr().as_deref(), Some("127.0.0.1:8080"));
    state.mihomo.runtime.http_port = None;
    state.config.mixed_port = Some(7000);
    assert_eq!(state.proxy_addr().as_deref(), Some("127.0.0.1:7000"));
}

#[test]
fn tun_and_dns_flags() {
    let mut state = fixture();
    assert!(!state.tun_enabled());
    assert!(!state.dns_enabled());
    state.config.set_tun_enabled(true);
    assert!(state.tun_enabled());
    assert!(state.dns_enabled());
}

#[test]
fn new_node_has_no_speed() {
    let n = Node::new("x".to_string());
    assert_eq!(n.name, "x");
    assert_eq!(n.speed, "-");
}

#[test]
fn merging_the_same_names_changes_nothing() {
    let mut old = vec![Node::new("a".into()), Node::new("b".into()), Node::new("c".into())];
    old[0].speed = "12ms".into();
    old[2].speed = "wait".into();
    let names: Vec<String> = old.iter().map(|n| n.name.clone()).collect();
    let merged = merge_nodes(&old, &names);
    let pairs = |v: &[Node]| v.iter().map(|n| (n.name.clone(), n.speed.clone())).collect::<Vec<_>>();
    assert_eq!(pairs(&merged), pairs(&old));
}

#[test]
fn run_state_summary_is_plain_data() {
    let a = MihomoManager {
        status: MihomoStatus::Running(42),
        proxy_running: true,
        tun_enabled: false,
        active_node: Some(1),
        is_test_delay: false,
    };
    let b = a;
    assert_eq!(a, b);
    assert_ne!(a, MihomoManager { status: MihomoStatus::Stopped, ..a });
}
