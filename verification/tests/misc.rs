use coclash::api::{delay_path, endpoint, group_or_default, proxies_path};
use coclash::settings::Settings;
use coclash::system_proxy::{disable_proxy, enable_proxy, get_proxy_status, proxy_enabled};
use coclash::windows::{Content, HelpWindow, MihomoLogWindow, ProviderSelectWindow, UrlInputWindow, WindowAction};
use coclash::config::MihomoConfig;
use coclash::keymap::KeyCode;

#[test]
fn settings_defaults_and_api_url() {
    let mut s = Settings::default();
    assert_eq!(s.api_url(), "http://127.0.0.1:9090");
    s.mihomo_ctrl_addr = "127.0.0.1:9999".to_string();
    assert_eq!(s.api_url(), "http://127.0.0.1:9999");
    assert_eq!(s.http_timeout(), std::time::Duration::from_millis(5000));
    assert_eq!(s.delay_http_timeout(), std::time::Duration::from_millis(6000));
    assert_eq!(s.provider_retry_interval(), std::time::Duration::from_millis(500));
    assert_eq!(s.poll_interval(), std::time::Duration::from_millis(100));
}

#[test]
fn api_paths() {
    assert_eq!(group_or_default(""), "Proxy");
    assert_eq!(group_or_default("G"), "G");
    assert_eq!(proxies_path("Proxy"), "/proxies/Proxy");
    assert_eq!(endpoint("http://h", "/version"), "http://h/version");
    assert_eq!(
        delay_path("Proxy", 5000, "https://t"),
        "/group/Proxy/delay?timeout=5000&url=https://t"
    );
}

#[test]
fn system_proxy_unsupported_here() {
    assert!(enable_proxy("127.0.0.1:7890").is_err());
    assert!(disable_proxy().is_err());
    let st = get_proxy_status();
    assert!(st.is_err());
    assert!(!proxy_enabled(&st));
    assert!(proxy_enabled(&Ok((1, "x".to_string()))));
}

#[test]
fn url_input_window() {
    let mut w = UrlInputWindow::new();
    assert_eq!(w.handle_key(KeyCode::Enter), WindowAction::Nothing);
    w.handle_key(KeyCode::Char('a'));
    w.handle_key(KeyCode::Char('b'));
    w.handle_key(KeyCode::Backspace);
    assert_eq!(w.handle_key(KeyCode::Enter), WindowAction::AddSubscription("a".to_string()));
    assert!(w.input.is_empty());
    w.handle_key(KeyCode::Char('z'));
    assert_eq!(w.handle_key(KeyCode::Esc), WindowAction::Close);
    assert!(w.input.is_empty());
}

#[test]
fn provider_select_window() {
    let mut c = MihomoConfig::default_config();
    let mut w = ProviderSelectWindow::new();
    assert_eq!(w.handle_key(&c, KeyCode::Enter), WindowAction::Nothing);
    c.insert_sub("u".into(), "a".into());
    c.insert_sub("u".into(), "b".into());
    w.handle_key(&c, KeyCode::Up);
    assert_eq!(w.select, 1);
    assert_eq!(w.handle_key(&c, KeyCode::Enter), WindowAction::SwitchProvider("b".to_string()));
    assert_eq!(w.handle_key(&c, KeyCode::Char('d')), WindowAction::DeleteProvider("b".to_string()));
    assert_eq!(w.handle_key(&c, KeyCode::Esc), WindowAction::Close);
}

#[test]
fn help_and_log_windows() {
    let mut h = HelpWindow::new();
    h.reset();
    h.handle_key(KeyCode::Down);
    assert_eq!(h.state.selected(), Some(1));
    h.handle_key(KeyCode::Up);
    h.handle_key(KeyCode::Up);
    assert_eq!(h.state.selected(), Some(0));
    assert_eq!(h.handle_key(KeyCode::Esc), WindowAction::Close);
    let mut l = MihomoLogWindow::new("/tmp/x.log".to_string());
    assert_eq!(l.handle_key(KeyCode::Up), WindowAction::Nothing);
    assert!(!l.view.follow);
    let c = Content::new();
    assert!(c.nodes.is_empty());
}

#[test]
fn log_window_down_and_page_down_move_and_resume_follow() {
    let mut l = MihomoLogWindow::new("/tmp/x.log".to_string());
    l.view.rows = (0..10).map(|i| format!("row {i}")).collect();
    l.view.visible = 3;
    l.view.scroll = 2;
    l.view.follow = false;
    l.handle_key(KeyCode::Down);
    assert_eq!(l.view.scroll, 3);
    assert!(!l.view.follow);
    l.handle_key(KeyCode::PageDown);
    assert_eq!(l.view.scroll, 6);
    l.handle_key(KeyCode::PageDown);
    assert_eq!(l.view.scroll, 7);
    assert!(l.view.follow);
    l.handle_key(KeyCode::PageUp);
    assert_eq!(l.view.scroll, 4);
    assert!(!l.view.follow);
}
