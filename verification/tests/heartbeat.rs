use coclash::api::{ConfigsReport, EnableReport, ProxyReport};
use coclash::error::Error;
use coclash::heartbeat::{
    apply_offline, apply_snapshot, mark_running, record_error, request_failure_warning,
    sync_proxy_running, ApiSnapshot, HeartbeatClock, SyncPlan,
};
use coclash::process::MihomoStatus;
use coclash::state::{MihomoState, Node, RuntimeInfo};

fn snapshot_with_configs() -> ApiSnapshot {
    ApiSnapshot {
        configs: Some(ConfigsReport {
            port: 7892,
            mixed_port: 7890,
            socks_port: 7891,
            mode: "rule".into(),
            tun: Some(EnableReport { enable: true }),
            dns: Some(EnableReport { enable: false }),
        }),
        ..ApiSnapshot::default()
    }
}

fn proxies(all: &[&str], now: &str) -> ProxyReport {
    ProxyReport {
        alive: true,
        all: all.iter().map(|s| s.to_string()).collect(),
        dialer_proxy: String::new(),
        hidden: false,
        icon: String::new(),
        interface: String::new(),
        name: "Proxy".into(),
        now: now.into(),
        node_type: "Selector".into(),
    }
}

#[test]
fn test_ready_logs_once() {
    let mut state = MihomoState::default();
    let first = apply_snapshot(&mut state, &snapshot_with_configs());
    assert!(state.runtime.api_ready);
    assert!(first.iter().any(|(_, m)| m.contains("已就绪")));
    let second = apply_snapshot(&mut state, &snapshot_with_configs());
    assert!(second.is_empty(), "就绪日志只应记录一次");
}

#[test]
fn test_disconnect_logs_once() {
    let mut state = MihomoState::default();
    apply_snapshot(&mut state, &snapshot_with_configs());
    let snapshot = ApiSnapshot {
        error: Some("timeout".into()),
        ready_probe_failed: true,
        ..ApiSnapshot::default()
    };
    let first = apply_snapshot(&mut state, &snapshot);
    assert!(!state.runtime.api_ready);
    assert_eq!(first.len(), 1);
    let second = apply_snapshot(&mut state, &snapshot);
    assert!(second.is_empty(), "断开日志只应记录一次");
}

#[test]
fn disconnect_message_text() {
    let mut state = MihomoState::default();
    apply_snapshot(&mut state, &snapshot_with_configs());
    let logs = apply_snapshot(&mut state, &ApiSnapshot { ready_probe_failed: true, ..ApiSnapshot::default() });
    assert_eq!(logs[0].1, "mihomo API 连接断开: 未知错误");
}

#[test]
fn test_partial_failure_keeps_successful_data() {
    let mut state = MihomoState::default();
    let snapshot = ApiSnapshot {
        configs: Some(ConfigsReport {
            port: 7892,
            mixed_port: 7890,
            socks_port: 7891,
            mode: "rule".into(),
            tun: None,
            dns: None,
        }),
        proxies: Some(proxies(&["a"], "a")),
        error: Some("connections timeout".into()),
        ready_probe_failed: false,
        ..ApiSnapshot::default()
    };
    let logs = apply_snapshot(&mut state, &snapshot);
    assert!(state.runtime.api_ready, "只有 /configs 失败才算断开");
    assert_eq!(state.runtime.mode.as_deref(), Some("rule"));
    assert_eq!(state.runtime.http_port, Some(7892));
    assert_eq!(state.nodes.len(), 1);
    assert!(logs.iter().any(|(_, m)| m.contains("已就绪")));
    assert!(
        !logs.iter().any(|(_, m)| m.contains("断开")),
        "部分接口失败不应报断开"
    );
}

#[test]
fn test_fast_snapshot_only_updates_totals() {
    let mut state = MihomoState::default();
    apply_snapshot(&mut state, &snapshot_with_configs());
    state.nodes.push(Node::new("a".into()));
    let fast = ApiSnapshot {
        totals: Some((100, 200)),
        ..ApiSnapshot::default()
    };
    let logs = apply_snapshot(&mut state, &fast);
    assert!(logs.is_empty());
    assert_eq!(state.runtime.upload_total, 100);
    assert_eq!(state.runtime.download_total, 200);
    assert_eq!(state.nodes.len(), 1, "快路径不得触碰节点列表");
    assert_eq!(state.runtime.mode.as_deref(), Some("rule"));
}

#[test]
fn test_full_snapshot_updates_nodes_and_keeps_speed() {
    let mut state = MihomoState::default();
    state.nodes.push(Node {
        name: "a".into(),
        speed: "5ms".into(),
    });
    let snapshot = ApiSnapshot {
        configs: Some(ConfigsReport {
            port: 3,
            mixed_port: 1,
            socks_port: 2,
            mode: "global".into(),
            tun: None,
            dns: None,
        }),
        proxies: Some(proxies(&["a", "b"], "b")),
        ..ApiSnapshot::default()
    };
    let logs = apply_snapshot(&mut state, &snapshot);
    assert!(logs.iter().any(|(_, m)| m.contains("更新代理信息")));
    assert_eq!(state.nodes.len(), 2);
    assert_eq!(state.nodes[0].speed, "5ms");
    assert_eq!(state.active_node, Some(1));
    assert_eq!(state.runtime.mode.as_deref(), Some("global"));
}

#[test]
fn test_transient_direct_guard() {
    let mut state = MihomoState::default();
    state.nodes.push(Node::new("a".into()));
    let snapshot = ApiSnapshot {
        proxies: Some(proxies(&["DIRECT"], "DIRECT")),
        ..ApiSnapshot::default()
    };
    apply_snapshot(&mut state, &snapshot);
    assert_eq!(
        state.nodes.len(),
        1,
        "reload 空窗期的 DIRECT 兜底不应清空列表"
    );
}

#[test]
fn test_offline_resets_runtime_and_logs_once() {
    let mut state = MihomoState {
        status: MihomoStatus::Running(1),
        ..MihomoState::default()
    };
    apply_snapshot(&mut state, &snapshot_with_configs());
    let logs = apply_offline(&mut state);
    assert_eq!(state.status, MihomoStatus::Stopped);
    assert_eq!(state.runtime, RuntimeInfo::default());
    assert_eq!(logs.len(), 1);
    assert!(apply_offline(&mut state).is_empty());
}

#[test]
fn first_error_is_kept() {
    let mut s = ApiSnapshot::default();
    record_error(&mut s, Error::Api("first".into()));
    record_error(&mut s, Error::Api("second".into()));
    assert_eq!(s.error.as_deref(), Some("first"));
}

#[test]
fn clock_schedule() {
    let mut c = HeartbeatClock::new();
    c.begin_tick();
    assert_eq!(c.tick, 1);
    assert_eq!(c.plan(false, true), SyncPlan::Fetch { full: false });
    assert_eq!(c.plan(false, false), SyncPlan::Fetch { full: true });
    assert!(c.finish(true));
    assert!(!c.finish(true));
    assert_eq!(c.failures, 2);
    // failures 2: backoff 4; tick 1 is not a multiple
    assert_eq!(c.plan(false, false), SyncPlan::Skip);
    assert_eq!(c.plan(true, false), SyncPlan::Fetch { full: true });
    c.tick = 10;
    assert_eq!(c.plan(false, true), SyncPlan::Fetch { full: true });
    c.went_offline();
    assert_eq!(c.failures, 0);
    c.tick = u32::MAX;
    c.begin_tick();
    assert_eq!(c.tick, 0);
}

#[test]
fn running_mark_and_proxy_flag() {
    let mut state = MihomoState::default();
    let log = mark_running(&mut state).unwrap();
    assert_eq!(log.1, "检测到 mihomo 已在运行");
    assert_eq!(state.status, MihomoStatus::Running(0));
    assert!(mark_running(&mut state).is_none());
    assert!(sync_proxy_running(&mut state, true));
    assert!(!sync_proxy_running(&mut state, true));
}

#[test]
fn failure_warning_once_per_run() {
    let snap = ApiSnapshot { error: Some("x".into()), ..ApiSnapshot::default() };
    assert_eq!(request_failure_warning(true, &snap).as_deref(), Some("mihomo API 请求失败: x"));
    assert_eq!(request_failure_warning(false, &snap), None);
    let probe = ApiSnapshot { error: Some("x".into()), ready_probe_failed: true, ..ApiSnapshot::default() };
    assert_eq!(request_failure_warning(true, &probe), None);
}

#[test]
fn backoff_fetches_again_within_eight_ticks() {
    for failures in [0u32, 1, 2, 3, 9, u32::MAX] {
        for start in 0u32..20 {
            let mut c = HeartbeatClock::new();
            c.failures = failures;
            c.tick = start;
            let due = (0..8).any(|k| {
                let mut probe = c;
                probe.tick = start + k;
                probe.plan(false, false) != SyncPlan::Skip
            });
            assert!(due, "failures {failures}, tick {start}");
        }
    }
}

#[test]
fn offline_owes_one_full_fetch() {
    let mut c = HeartbeatClock::new();
    assert!(!c.take_force(false));
    c.failures = 3;
    c.went_offline();
    assert_eq!(c.failures, 0);
    assert!(c.take_force(false));
    assert!(!c.take_force(false));
    assert!(c.take_force(true));
}
