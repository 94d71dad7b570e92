use coclash::api::ProxyReport;
use coclash::binary::BinarySource;
use coclash::config::MihomoConfig;
use coclash::error::Error;
use coclash::operation_log::{LogType, OperationLogs};
use coclash::process::MihomoStatus;
use coclash::state::{AppState, MihomoState, Node};
use coclash::tasks::{
    apply_config, apply_task_result, begin_delay_test, begin_switch_node, begin_toggle,
    finish_delay_test, finish_proxy_toggle, finish_switch_node, finish_toggle, insert_result_log,
    insert_subscription, proxy_plan, reload_result_log, sub_name, switch_provider, toggle_action,
    toggle_tun, ConfigChange, FollowUp, ProxyPlan, TaskResult, ToggleAction,
};

fn fixture() -> AppState {
    AppState {
        logs: OperationLogs::new(),
        config: MihomoConfig::default_config(),
        mihomo: MihomoState::default(),
    }
}

fn last_log(s: &AppState) -> (LogType, String) {
    let e = s.logs.get(s.logs.len() - 1);
    (e.log_type, e.msg.clone())
}

fn with_nodes(names: &[&str]) -> AppState {
    let mut s = fixture();
    for n in names {
        s.mihomo.nodes.push(Node::new(n.to_string()));
    }
    s
}

#[test]
fn toggle_guard_and_results() {
    let mut s = fixture();
    assert_eq!(toggle_action(true), ToggleAction::Stop);
    assert!(begin_toggle(&mut s));
    assert!(!begin_toggle(&mut s));
    assert_eq!(last_log(&s).1, "mihomo 操作进行中，请稍候");
    assert!(finish_toggle(&mut s, Ok(Some((42, BinarySource::Path)))));
    assert_eq!(s.mihomo.status, MihomoStatus::Running(42));
    assert_eq!(last_log(&s).1, "mihomo 已启动 (PID 42, 内嵌 未嵌入: PATH)");
    assert!(!s.mihomo.is_toggling);
    assert!(!finish_toggle(&mut s, Ok(None)));
    assert_eq!(s.mihomo.status, MihomoStatus::Stopped);
    assert!(!finish_toggle(&mut s, Err(Error::Process("boom".into()))));
    assert_eq!(last_log(&s), (LogType::Error, "boom".to_string()));
}

#[test]
fn switch_node_rolls_back_on_failure() {
    let mut s = with_nodes(&["a", "b"]);
    s.mihomo.active_node = Some(0);
    let (name, prev) = begin_switch_node(&mut s, 1).unwrap();
    assert_eq!(name, "b");
    assert_eq!(s.mihomo.active_node, Some(1));
    assert!(begin_switch_node(&mut s, 0).is_none());
    finish_switch_node(&mut s, 1, &name, prev, Err(Error::Api("fail".into())));
    assert_eq!(s.mihomo.active_node, Some(0));
    assert!(!s.mihomo.is_switching_node);
    assert!(begin_switch_node(&mut s, 5).is_none());
    let (name, prev) = begin_switch_node(&mut s, 1).unwrap();
    finish_switch_node(&mut s, 1, &name, prev, Ok(()));
    assert_eq!(s.mihomo.active_node, Some(1));
    assert_eq!(last_log(&s).1, "切换节点：b");
}

#[test]
fn delay_test_flow() {
    let mut s = with_nodes(&["a", "b", "c"]);
    assert!(begin_delay_test(&mut s));
    assert!(s.mihomo.nodes.iter().all(|n| n.speed == "wait"));
    assert!(!begin_delay_test(&mut s));
    finish_delay_test(&mut s, Ok(vec![("a".into(), 12), ("c".into(), 7), ("a".into(), 30)]));
    let speeds: Vec<&str> = s.mihomo.nodes.iter().map(|n| n.speed.as_str()).collect();
    assert_eq!(speeds, vec!["30ms", "-", "7ms"]);
    assert!(!s.mihomo.is_test_delay);
    assert_eq!(last_log(&s).1, "测速完成");
}

#[test]
fn delay_test_failure_clears_wait() {
    let mut s = with_nodes(&["a", "b"]);
    begin_delay_test(&mut s);
    s.mihomo.nodes[1].speed = "5ms".into();
    finish_delay_test(&mut s, Err(Error::Api("x".into())));
    assert_eq!(s.mihomo.nodes[0].speed, "-");
    assert_eq!(s.mihomo.nodes[1].speed, "5ms");
}

#[test]
fn subscription_naming() {
    let mut s = fixture();
    assert_eq!(sub_name(3), "订阅3");
    assert_eq!(insert_subscription(&mut s, "u1".into()), "订阅1");
    assert_eq!(insert_subscription(&mut s, "u2".into()), "订阅2");
    assert_eq!(insert_result_log("订阅2", &Ok(())).1, "插入订阅：订阅2");
    assert_eq!(reload_result_log(&Ok(())).1, "重置配置成功");
}

#[test]
fn proxy_toggle_plans() {
    let mut s = fixture();
    assert_eq!(proxy_plan(&s, true), ProxyPlan::Disable);
    let plan = proxy_plan(&s, false);
    assert_eq!(plan, ProxyPlan::Enable("127.0.0.1:7890".to_string()));
    finish_proxy_toggle(&mut s, &plan, Ok(()));
    assert!(s.mihomo.proxy_running);
    assert_eq!(last_log(&s).1, "开启系统代理 (127.0.0.1:7890)");
    s.config.port = None;
    let plan = proxy_plan(&s, false);
    assert_eq!(plan, ProxyPlan::NoPort);
    finish_proxy_toggle(&mut s, &plan, Ok(()));
    assert_eq!(last_log(&s), (LogType::Error, "未配置代理端口，无法开启系统代理".to_string()));
}

#[test]
fn tun_toggle_and_provider_switch() {
    let mut s = fixture();
    assert!(toggle_tun(&mut s));
    assert_eq!(last_log(&s).1, "TUN已开启");
    assert!(!toggle_tun(&mut s));
    assert_eq!(last_log(&s).1, "TUN已关闭");
    assert!(!switch_provider(&mut s, "x"));
    assert_eq!(last_log(&s).1, "订阅 'x' 不存在");
    insert_subscription(&mut s, "u".into());
    assert!(switch_provider(&mut s, "订阅1"));
    assert_eq!(s.config.proxy_groups[0].use_list, vec!["订阅1".to_string()]);
}

#[test]
fn config_changes() {
    let mut c = MihomoConfig::default_config();
    apply_config(&mut c, ConfigChange::Mode("Global".into()));
    assert_eq!(c.mode, "Global");
    apply_config(&mut c, ConfigChange::Port(1234));
    assert_eq!(c.port, Some(1234));
    apply_config(&mut c, ConfigChange::AddRule("MATCH,DIRECT".into()));
    assert_eq!(c.rules.len(), 13);
    apply_config(&mut c, ConfigChange::SetRule { index: 99, text: "x".into() });
    assert_eq!(c.rules.len(), 13);
    apply_config(&mut c, ConfigChange::RemoveRule(0));
    assert_eq!(c.rules[0], "GEOSITE,google,Proxy");
    apply_config(&mut c, ConfigChange::Dns(true));
    assert!(c.dns.as_ref().unwrap().enable);
}

fn report(all: &[&str], now: &str) -> ProxyReport {
    ProxyReport {
        alive: true,
        all: all.iter().map(|s| s.to_string()).collect(),
        dialer_proxy: String::new(),
        hidden: false,
        icon: String::new(),
        interface: String::new(),
        name: "Proxy".into(),
        now: now.into(),
        node_type: "Selector".into(),
    }
}

#[test]
fn task_results_applied() {
    let mut s = fixture();
    let mut select = 0usize;
    assert_eq!(apply_task_result(&mut s, &mut select, TaskResult::MihomoReady { ready: true }), FollowUp::LoadNodes);
    let next = apply_task_result(&mut s, &mut select, TaskResult::NodesFetched { result: Ok(report(&["a", "b", "c"], "b")) });
    assert_eq!(next, FollowUp::Nothing);
    assert_eq!(s.mihomo.nodes.len(), 3);
    assert_eq!(s.mihomo.active_node, Some(1));
    assert_eq!(select, 1);
    apply_task_result(&mut s, &mut select, TaskResult::DelaysFetched { result: Ok(vec![("b".into(), 9)]) });
    assert_eq!(s.mihomo.nodes[1].speed, "9ms");
    assert_eq!(s.mihomo.nodes[0].speed, "-");
    assert_eq!(
        apply_task_result(&mut s, &mut select, TaskResult::ConfigReloaded { result: Ok(()) }),
        FollowUp::LoadNodes
    );
    let next = apply_task_result(
        &mut s,
        &mut select,
        TaskResult::ProviderNameFetched { url: "u".into(), result: Err(Error::Api("no name".into())) },
    );
    assert_eq!(next, FollowUp::SaveNewSubscription("订阅1".to_string()));
    assert_eq!(last_log(&s), (LogType::Warn, "no name，使用默认名称 订阅1".to_string()));
    let next = apply_task_result(
        &mut s,
        &mut select,
        TaskResult::ProviderNameFetched { url: "u".into(), result: Ok("订阅1".into()) },
    );
    assert_eq!(next, FollowUp::SaveNewSubscription("订阅1 (1)".to_string()));
}
