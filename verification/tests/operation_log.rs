use coclash::operation_log::{LogType, OperationLogs, MAX_LOGS};

#[test]
fn log_type_names() {
    assert_eq!(LogType::Info.as_str(), "Info");
    assert_eq!(LogType::Warn.as_str(), "Warn");
    assert_eq!(LogType::Error.as_str(), "Error");
}

#[test]
fn log_drops_oldest_beyond_limit() {
    let mut logs = OperationLogs::new();
    assert!(logs.is_empty());
    for i in 0..(MAX_LOGS + 3) {
        logs.add_log(LogType::Info, format!("{i}"));
    }
    assert_eq!(logs.len(), MAX_LOGS);
    assert_eq!(logs.get(0).msg, "3");
    assert_eq!(logs.get(MAX_LOGS - 1).msg, format!("{}", MAX_LOGS + 2));
}
