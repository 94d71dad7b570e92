use coclash::operation_log::{LogType, OperationLogs};
use coclash::views::{tail_lines, MihomoLogView, OperationLogView};

fn sample_logs(n: usize) -> OperationLogs {
    let mut logs = OperationLogs::new();
    for i in 0..n {
        logs.add_log(LogType::Info, format!("msg {i}"));
    }
    logs
}

#[test]
fn test_scroll_leaves_follow_and_back() {
    let mut log = OperationLogView::new();
    let logs = sample_logs(5);

    assert!(log.follow);
    log.scroll_up(&logs);
    assert!(!log.follow);
    assert_eq!(log.state.selected(), Some(3));

    log.scroll_down(&logs);
    assert!(log.follow);
    assert_eq!(log.state.selected(), Some(4));
}

#[test]
fn test_scroll_empty_logs() {
    let mut log = OperationLogView::new();
    let logs = OperationLogs::new();
    log.scroll_up(&logs);
    log.scroll_down(&logs);
    assert_eq!(log.state.selected(), Some(0));
}

#[test]
fn test_page_down_bounds() {
    let mut log = OperationLogView::new();
    let logs = sample_logs(3);
    log.page_down(&logs);
    assert!(log.follow);
    assert_eq!(log.state.selected(), Some(2));
}

#[test]
fn clamp_follow_sticks_to_end() {
    let mut log = OperationLogView::new();
    let logs = sample_logs(3);
    log.clamp_follow(&logs);
    assert_eq!(log.state.selected(), Some(2));
    log.scroll_up(&logs);
    log.clamp_follow(&logs);
    assert_eq!(log.state.selected(), Some(1));
    log.state.select(Some(9));
    log.clamp_follow(&logs);
    assert_eq!(log.state.selected(), Some(2));
}

#[test]
fn mihomo_log_scrolling() {
    let mut v = MihomoLogView::new("/tmp/mihomo.log".to_string());
    v.set_lines(vec!["one".into(), "two".into(), "three".into(), "four".into()]);
    v.wrap(3);
    assert_eq!(v.rows, vec!["one", "two", "thr", "ee", "fou", "r"]);
    v.visible = 2;
    v.clamp_scroll();
    assert_eq!(v.scroll, 4);
    v.scroll_up();
    assert_eq!(v.scroll, 3);
    assert!(!v.follow);
    v.page_up();
    assert_eq!(v.scroll, 1);
    v.page_down();
    assert_eq!(v.scroll, 3);
    assert!(!v.follow);
    v.scroll_down();
    assert_eq!(v.scroll, 4);
    assert!(v.follow);
    assert!(v.needs_reload(10));
    assert!(!v.needs_reload(10));
}

#[test]
fn tail_keeps_last_lines() {
    assert_eq!(tail_lines("a\nb\nc\n", false, 2), vec!["b", "c"]);
    assert_eq!(tail_lines("partial\nb\nc", true, 10), vec!["b", "c"]);
    assert!(tail_lines("", false, 5).is_empty());
}
