use coclash::config::MihomoConfig;
use coclash::keymap::KeyCode;
use coclash::settings_page::{
    field_kind, EditState, FieldKind, Pane, SettingsAction, SettingsWindow, FIELD_COUNT,
};

#[test]
fn test_fields_all_unique_kinds() {
    let mut kinds: Vec<FieldKind> = (0..FIELD_COUNT).map(field_kind).collect();
    kinds.dedup();
    assert_eq!(kinds.len(), FIELD_COUNT);
}

fn press(w: &mut SettingsWindow, c: &mut MihomoConfig, keys: &[KeyCode]) -> SettingsAction {
    let mut last = SettingsAction::Nothing;
    for k in keys {
        last = w.handle_key(c, *k);
    }
    last
}

#[test]
fn mode_cycles_and_esc_closes() {
    let mut c = MihomoConfig::default_config();
    let mut w = SettingsWindow::new();
    press(&mut w, &mut c, &[KeyCode::Enter]);
    assert_eq!(c.mode, "Global");
    assert_eq!(press(&mut w, &mut c, &[KeyCode::Esc]), SettingsAction::SaveAndClose);
}

#[test]
fn port_edit_accepts_digits_only() {
    let mut c = MihomoConfig::default_config();
    let mut w = SettingsWindow::new();
    press(&mut w, &mut c, &[KeyCode::Down, KeyCode::Enter]);
    assert_eq!(w.editing.as_ref().unwrap().buffer, "7890");
    press(
        &mut w,
        &mut c,
        &[KeyCode::Backspace, KeyCode::Backspace, KeyCode::Char('x'), KeyCode::Char('1'), KeyCode::Enter],
    );
    assert_eq!(c.port, Some(781));
    assert!(w.editing.is_none());
}

#[test]
fn port_edit_ignores_unparsable() {
    let mut c = MihomoConfig::default_config();
    let mut w = SettingsWindow::new();
    press(&mut w, &mut c, &[KeyCode::Down, KeyCode::Enter]);
    for _ in 0..4 {
        press(&mut w, &mut c, &[KeyCode::Backspace]);
    }
    press(&mut w, &mut c, &[KeyCode::Char('9'), KeyCode::Char('9'), KeyCode::Char('9'), KeyCode::Char('9'), KeyCode::Char('9'), KeyCode::Char('9'), KeyCode::Enter]);
    assert_eq!(c.port, Some(7890));
}

#[test]
fn switches_flip() {
    let mut c = MihomoConfig::default_config();
    let mut w = SettingsWindow::new();
    // AllowLan is the fourth field
    press(&mut w, &mut c, &[KeyCode::Down, KeyCode::Down, KeyCode::Down, KeyCode::Enter]);
    assert!(!c.allow_lan);
    // TUN is the eighth field
    press(&mut w, &mut c, &[KeyCode::Down, KeyCode::Down, KeyCode::Down, KeyCode::Down, KeyCode::Enter]);
    assert!(c.tun.as_ref().unwrap().enable);
    assert!(c.dns.as_ref().unwrap().enable);
    assert_eq!(w.field_value(&c, FieldKind::Tun), "是");
    assert_eq!(w.field_value(&c, FieldKind::Rules), "12 条");
    assert_eq!(w.field_value(&c, FieldKind::Port), "7890");
}

#[test]
fn up_wraps_to_last_field() {
    let mut c = MihomoConfig::default_config();
    let mut w = SettingsWindow::new();
    press(&mut w, &mut c, &[KeyCode::Up]);
    assert_eq!(w.fields_select, FIELD_COUNT - 1);
    press(&mut w, &mut c, &[KeyCode::Enter]);
    assert_eq!(w.view, Pane::Rules);
}

#[test]
fn rules_add_edit_delete() {
    let mut c = MihomoConfig::default_config();
    let mut w = SettingsWindow::new();
    press(&mut w, &mut c, &[KeyCode::Char('r'), KeyCode::Char('a')]);
    // a new rule's buffer takes digits only, like a field's
    press(&mut w, &mut c, &[KeyCode::Char('X'), KeyCode::Char('7'), KeyCode::Enter]);
    assert_eq!(c.rules.len(), 13);
    assert_eq!(c.rules[12], "7");
    w.rules_select = 0;
    press(&mut w, &mut c, &[KeyCode::Enter, KeyCode::Char('!'), KeyCode::Enter]);
    assert_eq!(c.rules[0], "GEOSITE,category-ads-all,REJECT!");
    press(&mut w, &mut c, &[KeyCode::Char('d')]);
    assert_eq!(c.rules.len(), 12);
    assert_eq!(c.rules[0], "GEOSITE,google,Proxy");
    assert_eq!(press(&mut w, &mut c, &[KeyCode::Esc]), SettingsAction::Nothing);
    assert_eq!(w.view, Pane::Fields);
}

#[test]
fn edit_states() {
    let e = EditState::field("1".to_string());
    assert!(e.rule.is_none());
    let r = EditState::rule(Some(2), "x".to_string());
    assert_eq!(r.rule, Some(2));
    let mut w = SettingsWindow::new();
    w.view = Pane::Rules;
    w.rules_select = 5;
    w.reset();
    assert_eq!(w.view, Pane::Fields);
    assert_eq!(w.rules_select, 0);
}

#[test]
fn rule_scroll_keeps_selection_visible() {
    let mut w = SettingsWindow::new();
    w.rules_select = 10;
    w.scroll_rules_into_view(20, 5);
    assert!(w.rules_scroll <= 10 && 10 < w.rules_scroll + 4);
    w.rules_select = 30;
    w.scroll_rules_into_view(20, 5);
    assert_eq!(w.rules_select, 19);
}

#[test]
fn tun_switch_keeps_existing_sections() {
    let mut c = MihomoConfig::default_config();
    c.set_tun_enabled(true);
    // customise, then switch off and on again from the settings page
    c.tun.as_mut().unwrap().stack = Some("gvisor".to_string());
    c.tun.as_mut().unwrap().mtu = Some(9000);
    c.dns.as_mut().unwrap().listen = Some("127.0.0.1:5353".to_string());
    c.dns.as_mut().unwrap().enable = false;
    let mut w = SettingsWindow::new();
    w.fields_select = 7;
    w.toggle_field(&mut c); // off
    assert!(!c.tun.as_ref().unwrap().enable);
    assert!(!c.dns.as_ref().unwrap().enable);
    w.toggle_field(&mut c); // on
    let t = c.tun.as_ref().unwrap();
    assert!(t.enable);
    assert_eq!(t.stack.as_deref(), Some("gvisor"));
    assert_eq!(t.mtu, Some(9000));
    let d = c.dns.as_ref().unwrap();
    assert!(d.enable);
    assert_eq!(d.listen.as_deref(), Some("127.0.0.1:5353"));
}
