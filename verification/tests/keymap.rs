use coclash::keymap::{
    bindings, components, focusable_names, footer_text, help_rows, key_label, lookup, KeyCode,
    MainAction, MainWindow, Panel, WindowId,
};
use coclash::operation_log::{LogType, OperationLogs};

#[test]
fn test_focusable_components() {
    assert_eq!(focusable_names(), vec!["content", "operation_log"]);
}

#[test]
fn test_component_names_unique() {
    let mut names = std::collections::HashSet::new();
    for c in components().iter() {
        assert!(names.insert(c.name), "重复组件名: {}", c.name);
    }
    assert_eq!(components().len(), 4);
}

#[test]
fn test_registry_has_main_bindings() {
    assert!(!bindings().is_empty());
    let main = WindowId::Main;
    assert!(lookup(main, KeyCode::Char('q')).is_some());
    assert!(lookup(main, KeyCode::Up).is_some());
    assert!(lookup(main, KeyCode::Tab).is_some());
    assert!(lookup(main, KeyCode::Esc).is_some());
    assert!(lookup(main, KeyCode::PageDown).is_some());
    assert!(lookup(WindowId::UrlInput, KeyCode::Enter).is_some());
    assert!(lookup(WindowId::MihomoLog, KeyCode::PageDown).is_some());
    assert!(lookup(WindowId::Help, KeyCode::Up).is_some());
    assert!(lookup(WindowId::Help, KeyCode::Down).is_some());
    assert!(lookup(WindowId::Help, KeyCode::PageDown).is_some());
    assert!(lookup(main, KeyCode::Char('x')).is_none());
    assert!(lookup(WindowId::UrlInput, KeyCode::Char('q')).is_none());
}

#[test]
fn test_footer_and_help_generated() {
    let footer = footer_text();
    assert!(footer.contains("q: 退出"));
    assert!(footer.contains("↑/↓: 导航"));
    assert!(footer.contains("?: 帮助"));
    assert!(!footer.contains("开关mihomo"));
    assert!(!footer.contains("测速"));
    assert!(!footer.contains("TUN"));
    assert!(!footer.contains("切换面板"));
    let rows = help_rows(WindowId::Main);
    assert!(rows.iter().any(|(_, d)| *d == "退出"));
    assert!(rows.iter().any(|(k, _)| k == "Enter"));
    assert!(rows.iter().any(|(_, d)| *d == "测速"));
    assert!(rows.iter().any(|(_, d)| *d == "开关mihomo"));
    assert!(rows.iter().any(|(_, d)| *d == "切换面板"));
}

#[test]
fn test_run_handler() {
    let binding = lookup(WindowId::Main, KeyCode::Char('q')).unwrap();
    assert_eq!(binding.desc, "退出");
    assert!(binding.in_footer);
}

#[test]
fn footer_exact_text() {
    assert_eq!(footer_text(), "q: 退出 | ?: 帮助 | ↑/↓: 导航 | e: 设置");
}

#[test]
fn help_rows_merge_neighbours() {
    let rows = help_rows(WindowId::Help);
    let flat: Vec<(String, &str)> = rows.into_iter().collect();
    assert_eq!(
        flat,
        vec![
            ("Esc".to_string(), "关闭"),
            ("↑/↓".to_string(), "导航"),
            ("PageUp/PageDown".to_string(), "翻页"),
        ]
    );
    assert!(help_rows(WindowId::Settings).is_empty());
}

#[test]
fn key_labels() {
    assert_eq!(key_label(KeyCode::Char('x')), "x");
    assert_eq!(key_label(KeyCode::F(12)), "F12");
    assert_eq!(key_label(KeyCode::Delete), "Del");
    assert_eq!(key_label(KeyCode::Left), "←");
}

#[test]
fn panel_cycle_wraps() {
    assert_eq!(Panel::Content.cycle(), Panel::OperationLog);
    assert_eq!(Panel::OperationLog.cycle(), Panel::Content);
}

#[test]
fn main_window_keys() {
    let logs = OperationLogs::new();
    let mut w = MainWindow::new();
    assert_eq!(w.handle_key(KeyCode::Char('q'), &logs), MainAction::Quit);
    assert_eq!(w.handle_key(KeyCode::Char('e'), &logs), MainAction::Open(WindowId::Settings));
    assert_eq!(w.handle_key(KeyCode::Enter, &logs), MainAction::Nothing);
    w.node_count = 3;
    assert_eq!(w.handle_key(KeyCode::Up, &logs), MainAction::Nothing);
    assert_eq!(w.select, 2);
    assert_eq!(w.handle_key(KeyCode::Enter, &logs), MainAction::SelectNode(2));
    assert_eq!(w.handle_key(KeyCode::Tab, &logs), MainAction::Nothing);
    assert_eq!(w.focus, Panel::OperationLog);
    assert_eq!(w.handle_key(KeyCode::Enter, &logs), MainAction::Nothing);
    assert_eq!(w.handle_key(KeyCode::Esc, &logs), MainAction::Nothing);
    assert_eq!(w.focus, Panel::Content);
}

#[test]
fn main_window_scrolls_log_when_focused() {
    let mut logs = OperationLogs::new();
    for i in 0..4 {
        logs.add_log(LogType::Info, format!("m{i}"));
    }
    let mut w = MainWindow::new();
    w.handle_key(KeyCode::Tab, &logs);
    w.handle_key(KeyCode::Up, &logs);
    assert_eq!(w.operation_log.state.selected(), Some(2));
    assert!(!w.operation_log.follow);
}

#[test]
fn no_window_binds_a_key_twice() {
    let all = bindings();
    for (i, a) in all.iter().enumerate() {
        for b in &all[i + 1..] {
            assert!(!(a.mode == b.mode && a.key == b.key), "{:?} {:?}", a.mode, a.key);
        }
    }
}

#[test]
fn main_window_pages_log_when_focused() {
    let mut logs = OperationLogs::new();
    for i in 0..10 {
        logs.add_log(LogType::Info, format!("m{i}"));
    }
    let mut w = MainWindow::new();
    w.handle_key(KeyCode::Tab, &logs);
    w.operation_log.state.offset = 3;
    w.handle_key(KeyCode::PageUp, &logs);
    assert_eq!(w.operation_log.state.selected(), Some(6));
    w.handle_key(KeyCode::Down, &logs);
    assert_eq!(w.operation_log.state.selected(), Some(7));
    w.handle_key(KeyCode::PageDown, &logs);
    assert_eq!(w.operation_log.state.selected(), Some(9));
    assert!(w.operation_log.follow);
    // with the node list focused the log stays put
    w.handle_key(KeyCode::Esc, &logs);
    w.handle_key(KeyCode::Up, &logs);
    assert_eq!(w.operation_log.state.selected(), Some(9));
}
