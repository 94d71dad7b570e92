//! The settings popup: a list of configuration fields, a rule list, and an
//! edit buffer, driven by keys.
use vstd::prelude::*;
use crate::config::{MihomoConfig, Tun, Dns, strs, tun_switched, dns_switched};
use crate::keymap::KeyCode;
use crate::strings::{chars_of, to_owned_string, push_decimal, push_str, decimal, parse_uint_range, parse_bounded};
use crate::text::{cycle, position_of, on_off, wrap, wrapped_index};

verus! {

/// `String::pop`: removes and returns the last character, if any.
pub assume_specification[ String::pop ](s: &mut String) -> (r: Option<char>)
    ensures
        old(s)@.len() > 0 ==> r == Some(old(s)@.last()) && final(s)@ == old(s)@.drop_last(),
        old(s)@.len() == 0 ==> r is None && final(s)@ == old(s)@,
;

/// Modes offered by the settings popup, in cycling order.
pub const MODES: [&'static str; 3] = ["Rule", "Global", "Direct"];
/// Log levels offered by the settings popup, in cycling order.
pub const LOG_LEVELS: [&'static str; 5] = ["info", "debug", "warn", "error", "silent"];

pub open spec fn modes_view() -> Seq<&'static str> {
    seq!["Rule", "Global", "Direct"]
}

pub open spec fn log_levels_view() -> Seq<&'static str> {
    seq!["info", "debug", "warn", "error", "silent"]
}

/// The editable fields, in display order.
#[derive(Debug, Clone, Copy, PartialEq, Eq, Structural)]
pub enum FieldKind {
    Mode,
    Port,
    SocksPort,
    AllowLan,
    LogLevel,
    UnifiedDelay,
    KeepAlive,
    Tun,
    Dns,
    Rules,
}

/// Number of fields.
pub const FIELD_COUNT: usize = 10;

pub open spec fn field_at(i: int) -> FieldKind {
    if i == 0 { FieldKind::Mode }
    else if i == 1 { FieldKind::Port }
    else if i == 2 { FieldKind::SocksPort }
    else if i == 3 { FieldKind::AllowLan }
    else if i == 4 { FieldKind::LogLevel }
    else if i == 5 { FieldKind::UnifiedDelay }
    else if i == 6 { FieldKind::KeepAlive }
    else if i == 7 { FieldKind::Tun }
    else if i == 8 { FieldKind::Dns }
    else { FieldKind::Rules }
}

pub open spec fn field_label(k: FieldKind) -> Seq<char> {
    match k {
        FieldKind::Mode => "模式"@,
        FieldKind::Port => "混合端口"@,
        FieldKind::SocksPort => "SOCKS 端口"@,
        FieldKind::AllowLan => "允许局域网"@,
        FieldKind::LogLevel => "日志级别"@,
        FieldKind::UnifiedDelay => "统一延迟"@,
        FieldKind::KeepAlive => "保活间隔"@,
        FieldKind::Tun => "TUN 模式"@,
        FieldKind::Dns => "DNS 模式"@,
        FieldKind::Rules => "规则编辑"@,
    }
}

/// The field shown on row `i`.
pub fn field_kind(i: usize) -> (k: FieldKind)
    requires
        i < FIELD_COUNT,
    ensures
        k == field_at(i as int),
{
    if i == 0 { FieldKind::Mode }
    else if i == 1 { FieldKind::Port }
    else if i == 2 { FieldKind::SocksPort }
    else if i == 3 { FieldKind::AllowLan }
    else if i == 4 { FieldKind::LogLevel }
    else if i == 5 { FieldKind::UnifiedDelay }
    else if i == 6 { FieldKind::KeepAlive }
    else if i == 7 { FieldKind::Tun }
    else if i == 8 { FieldKind::Dns }
    else { FieldKind::Rules }
}

/// The label of a field.
pub fn field_label_of(k: FieldKind) -> (r: &'static str)
    ensures
        r@ == field_label(k),
{
    match k {
        FieldKind::Mode => "模式",
        FieldKind::Port => "混合端口",
        FieldKind::SocksPort => "SOCKS 端口",
        FieldKind::AllowLan => "允许局域网",
        FieldKind::LogLevel => "日志级别",
        FieldKind::UnifiedDelay => "统一延迟",
        FieldKind::KeepAlive => "保活间隔",
        FieldKind::Tun => "TUN 模式",
        FieldKind::Dns => "DNS 模式",
        FieldKind::Rules => "规则编辑",
    }
}

/// Every row shows a different field.
pub proof fn lemma_fields_distinct(i: int, j: int)
    requires
        0 <= i < FIELD_COUNT,
        0 <= j < FIELD_COUNT,
        i != j,
    ensures
        field_at(i) != field_at(j),
{
}

/// The edit buffer; `rule` is the rule being edited (`None` while adding a
/// rule, and for field edits).
#[derive(Debug)]
pub struct EditState {
    pub rule: Option<usize>,
    pub buffer: String,
}

impl EditState {
    /// A field edit starting from `buffer`.
    pub fn field(buffer: String) -> (e: Self)
        ensures
            e.rule is None,
            e.buffer == buffer,
    {
        EditState { rule: None, buffer }
    }

    /// A rule edit (or, with `None`, a new rule) starting from `buffer`.
    pub fn rule(rule: Option<usize>, buffer: String) -> (e: Self)
        ensures
            e.rule == rule,
            e.buffer == buffer,
    {
        EditState { rule, buffer }
    }
}

/// The two lists of the popup.
#[derive(Debug, Clone, Copy, PartialEq, Eq, Structural)]
pub enum Pane {
    Fields,
    Rules,
}

/// What the popup asks the program to do after a key.
#[derive(Debug, Clone, Copy, PartialEq, Eq, Structural)]
pub enum SettingsAction {
    Nothing,
    /// Save the configuration, reload mihomo and go back to the main window.
    SaveAndClose,
}

/// The settings popup's own state.
#[derive(Debug)]
pub struct SettingsWindow {
    pub view: Pane,
    pub fields_select: usize,
    pub rules_select: usize,
    pub rules_scroll: usize,
    pub editing: Option<EditState>,
}

/// Text of an optional port.
pub open spec fn opt_port_text(p: Option<u16>) -> Seq<char> {
    match p { Some(p) => decimal(p as nat), None => seq![] }
}

pub open spec fn on_off_text(v: bool) -> Seq<char> {
    if v { "是"@ } else { "否"@ }
}

/// The value a field row shows.
pub open spec fn field_text(c: MihomoConfig, k: FieldKind) -> Seq<char> {
    match k {
        FieldKind::Mode => c.mode@,
        FieldKind::Port => opt_port_text(c.port),
        FieldKind::SocksPort => opt_port_text(c.socks_port),
        FieldKind::AllowLan => on_off_text(c.allow_lan),
        FieldKind::LogLevel => c.log_level@,
        FieldKind::UnifiedDelay => on_off_text(c.unified_delay),
        FieldKind::KeepAlive => decimal(c.keep_alive_interval as nat),
        FieldKind::Tun => on_off_text(c.tun is Some && c.tun->Some_0.enable),
        FieldKind::Dns => on_off_text(c.dns is Some && c.dns->Some_0.enable),
        FieldKind::Rules => decimal(c.rules@.len()) + " 条"@,
    }
}

/// The string that `cycle` picks among `values` after `cur`.
pub open spec fn cycled(values: Seq<&'static str>, cur: Seq<char>) -> Seq<char> {
    match position_of(values, cur) {
        Some(i) => values[(i + 1) % (values.len() as int)]@,
        None => values[0]@,
    }
}

fn port_text(p: Option<u16>) -> (r: String)
    ensures
        r@ == opt_port_text(p),
{
    match p {
        Some(v) => {
            let mut s = String::new();
            push_decimal(&mut s, v as u64);
            proof {
                assert(Seq::<char>::empty() + decimal(v as nat) =~= decimal(v as nat));
            }
            s
        }
        None => String::new(),
    }
}

/// Whether a buffer may take one more character: rule text up to 200 bytes,
/// field values digits only, up to 10 bytes.
pub open spec fn accepts(rule_edit: bool, buffer: Seq<char>, c: char) -> bool {
    let n = vstd::utf8::encode_utf8(buffer).len() as usize;
    if rule_edit {
        n < 200
    } else {
        '0' <= c <= '9' && n < 10
    }
}

/// What Enter on a field row does (`toggle_field`), from `(s0, c0)` to `(s1, c1)`.
pub open spec fn field_toggled(s0: SettingsWindow, c0: MihomoConfig, s1: SettingsWindow, c1: MihomoConfig) -> bool {
    &&& s0.fields_select >= FIELD_COUNT ==> c1 == c0 && s1 == s0
    &&& (s0.fields_select < FIELD_COUNT ==> ({
            let k = field_at(s0.fields_select as int);
            &&& k == FieldKind::Mode ==> c1.mode@ == cycled(modes_view(), c0.mode@)
                && c1 == (MihomoConfig { mode: c1.mode, ..c0 })
            &&& k == FieldKind::LogLevel ==> c1.log_level@ == cycled(log_levels_view(), c0.log_level@)
                && c1 == (MihomoConfig { log_level: c1.log_level, ..c0 })
            &&& k == FieldKind::AllowLan ==> c1 == (MihomoConfig { allow_lan: !c0.allow_lan, ..c0 })
            &&& k == FieldKind::UnifiedDelay ==> c1 == (MihomoConfig { unified_delay: !c0.unified_delay, ..c0 })
            &&& k == FieldKind::Tun ==> {
                let on = !(c0.tun is Some && c0.tun->Some_0.enable);
                &&& c1.tun is Some ==> c1.tun->Some_0.enable == on
                &&& on ==> c1.tun is Some && c1.dns is Some && c1.dns->Some_0.enable
                &&& !on ==> c1.dns == c0.dns
                &&& tun_switched(c0.tun, c0.dns, c1.tun, c1.dns, on)
                &&& c1 == (MihomoConfig { tun: c1.tun, dns: c1.dns, ..c0 })
            }
            &&& k == FieldKind::Dns ==> {
                let on = !(c0.dns is Some && c0.dns->Some_0.enable);
                &&& c1.dns is Some ==> c1.dns->Some_0.enable == on
                &&& on ==> c1.dns is Some
                &&& dns_switched(c0.dns, c1.dns, on)
                &&& c1 == (MihomoConfig { dns: c1.dns, ..c0 })
            }
            &&& (k == FieldKind::Port || k == FieldKind::SocksPort || k == FieldKind::KeepAlive) ==> {
                &&& c1 == c0
                &&& s1.editing is Some
                &&& s1.editing->Some_0.rule is None
                &&& s1.editing->Some_0.buffer@ == field_text(c0, k)
            }
            &&& k == FieldKind::Rules ==> c1 == c0 && s1.view == Pane::Rules
            &&& k != FieldKind::Rules ==> s1.view == s0.view
            &&& !(k == FieldKind::Port || k == FieldKind::SocksPort || k == FieldKind::KeepAlive)
                ==> s1.editing == s0.editing
        }))
    &&& s1.fields_select == s0.fields_select
    &&& s1.rules_select == s0.rules_select
    &&& s1.rules_scroll == s0.rules_scroll
    &&& c1.rules == c0.rules
}

/// What Enter does to an open edit (`apply_edit`), from `(s0, c0)` to `(s1, c1)`.
pub open spec fn edit_applied(s0: SettingsWindow, c0: MihomoConfig, s1: SettingsWindow, c1: MihomoConfig) -> bool {
    &&& s1.editing is None
    &&& s1.view == s0.view
    &&& s1.fields_select == s0.fields_select
    &&& s1.rules_select == s0.rules_select
    &&& s1.rules_scroll == s0.rules_scroll
    &&& c0.rules@.len() <= c1.rules@.len() <= c0.rules@.len() + 1
    &&& s0.editing is None ==> c1 == c0
    &&& (s0.editing matches Some(e) ==> ({
            let buf = e.buffer@;
            match e.rule {
                Some(idx) => if buf.len() > 0 && idx < c0.rules@.len() {
                    strs(c1.rules@) == strs(c0.rules@).update(idx as int, buf)
                        && c1 == (MihomoConfig { rules: c1.rules, ..c0 })
                } else {
                    c1 == c0
                },
                None => if s0.view == Pane::Rules {
                    if buf.len() > 0 {
                        strs(c1.rules@) == strs(c0.rules@).push(buf)
                            && c1 == (MihomoConfig { rules: c1.rules, ..c0 })
                    } else {
                        c1 == c0
                    }
                } else if s0.fields_select < FIELD_COUNT {
                    let k = field_at(s0.fields_select as int);
                    if k == FieldKind::Port {
                        match parse_bounded(buf, 10, 65535) {
                            Some(v) => c1 == (MihomoConfig { port: Some(v as u16), ..c0 }),
                            None => c1 == c0,
                        }
                    } else if k == FieldKind::SocksPort {
                        match parse_bounded(buf, 10, 65535) {
                            Some(v) => c1 == (MihomoConfig { socks_port: Some(v as u16), ..c0 }),
                            None => c1 == c0,
                        }
                    } else if k == FieldKind::KeepAlive {
                        match parse_bounded(buf, 10, u32::MAX as nat) {
                            Some(v) => c1 == (MihomoConfig { keep_alive_interval: v as u32, ..c0 }),
                            None => c1 == c0,
                        }
                    } else {
                        c1 == c0
                    }
                } else {
                    c1 == c0
                },
            }
        }))
}

/// The cursors and the pane are unchanged.
pub open spec fn keeps_cursor(s0: SettingsWindow, s1: SettingsWindow) -> bool {
    &&& s1.view == s0.view
    &&& s1.fields_select == s0.fields_select
    &&& s1.rules_select == s0.rules_select
    &&& s1.rules_scroll == s0.rules_scroll
}

/// Enter on a rule (`start_edit_rule`): edit the selected rule, starting from its text.
pub open spec fn rule_edit_started(s0: SettingsWindow, c: MihomoConfig, s1: SettingsWindow) -> bool {
    if s0.rules_select < c.rules@.len() {
        &&& s1.editing is Some
        &&& s1.editing->Some_0.rule == Some(s0.rules_select)
        &&& s1.editing->Some_0.buffer@ == c.rules@[s0.rules_select as int]@
        &&& keeps_cursor(s0, s1)
    } else {
        s1 == s0
    }
}

/// `a` (`start_add_rule`): the cursor goes past the last rule and an empty new rule is edited.
pub open spec fn rule_add_started(s0: SettingsWindow, c: MihomoConfig, s1: SettingsWindow) -> bool {
    &&& s1.rules_select == c.rules@.len()
    &&& s1.editing is Some
    &&& s1.editing->Some_0.rule is None
    &&& s1.editing->Some_0.buffer@.len() == 0
    &&& s1.view == s0.view
    &&& s1.fields_select == s0.fields_select
    &&& s1.rules_scroll == s0.rules_scroll
}

/// `d` (`delete_rule`): the selected rule (the last one when the cursor is past
/// the end) is removed and the cursor kept on an existing rule.
pub open spec fn rule_deleted(s0: SettingsWindow, c0: MihomoConfig, s1: SettingsWindow, c1: MihomoConfig) -> bool {
    let n = c0.rules@.len() as int;
    if n == 0 {
        c1 == c0 && s1 == s0
    } else {
        let k = if s0.rules_select < n - 1 { s0.rules_select as int } else { n - 1 };
        &&& c1.rules@ == c0.rules@.remove(k)
        &&& c1 == (MihomoConfig { rules: c1.rules, ..c0 })
        &&& s1.rules_select as int == (if n == 1 { 0 } else if s0.rules_select < n - 2 { s0.rules_select as int } else { n - 2 })
        &&& s1.rules_scroll == (if n == 1 { 0 } else { s0.rules_scroll })
        &&& s1.view == s0.view
        &&& s1.fields_select == s0.fields_select
        &&& s1.editing == s0.editing
    }
}

/// The edit buffer after a typed key: a character joins within the limits,
/// Backspace removes the last one, other keys change nothing.
pub open spec fn typed_buffer(rule_edit: bool, buf: Seq<char>, key: KeyCode) -> Seq<char> {
    match key {
        KeyCode::Char(c) => if accepts(rule_edit, buf, c) { buf.push(c) } else { buf },
        KeyCode::Backspace => if buf.len() > 0 { buf.drop_last() } else { buf },
        _ => buf,
    }
}

/// A typed key (`key_type`): only the open edit's buffer changes.
pub open spec fn key_typed(s0: SettingsWindow, key: KeyCode, s1: SettingsWindow) -> bool {
    &&& keeps_cursor(s0, s1)
    &&& s0.editing is None ==> s1.editing is None
    &&& (s0.editing matches Some(e) ==> {
        &&& s1.editing is Some
        &&& s1.editing->Some_0.rule == e.rule
        &&& s1.editing->Some_0.buffer@ == typed_buffer(e.rule is Some, e.buffer@, key)
    })
}

proof fn lemma_port_text_injective(a: Option<u16>, b: Option<u16>)
    ensures
        (opt_port_text(a) == opt_port_text(b)) == (a == b),
{
    match (a, b) {
        (Some(x), Some(y)) => {
            if opt_port_text(a) == opt_port_text(b) {
                crate::strings::lemma_decimal_injective(x as nat, y as nat);
            }
        }
        (Some(x), None) => {
            crate::strings::lemma_decimal_digits(x as nat);
        }
        (None, Some(y)) => {
            crate::strings::lemma_decimal_digits(y as nat);
        }
        (None, None) => {}
    }
}

/// The port rows tell their ports exactly: two configurations show the same
/// text on the `Port` row exactly when their `port` fields are equal, and on the
/// `SocksPort` row exactly when their `socks_port` fields are equal.
pub proof fn lemma_port_rows_tell_ports(a: MihomoConfig, b: MihomoConfig)
    ensures
        (field_text(a, FieldKind::Port) == field_text(b, FieldKind::Port)) == (a.port == b.port),
        (field_text(a, FieldKind::SocksPort) == field_text(b, FieldKind::SocksPort)) == (a.socks_port == b.socks_port),
{
    lemma_port_text_injective(a.port, b.port);
    lemma_port_text_injective(a.socks_port, b.socks_port);
}

/// Opening a number field (Enter) and confirming it unchanged (Enter again)
/// leaves the configuration as it was: the edit starts from the field's own
/// value, written so that it reads back into the same field.
pub proof fn lemma_number_edit_round_trip(
    s0: SettingsWindow,
    c0: MihomoConfig,
    s1: SettingsWindow,
    c1: MihomoConfig,
    s2: SettingsWindow,
    c2: MihomoConfig,
)
    requires
        s0.view == Pane::Fields,
        s0.fields_select < FIELD_COUNT,
        field_at(s0.fields_select as int) == FieldKind::Port
            || field_at(s0.fields_select as int) == FieldKind::SocksPort
            || field_at(s0.fields_select as int) == FieldKind::KeepAlive,
        field_toggled(s0, c0, s1, c1),
        edit_applied(s1, c1, s2, c2),
    ensures
        c2 == c0,
{
    let k = field_at(s0.fields_select as int);
    let buf = s1.editing->Some_0.buffer@;
    assert(buf == field_text(c0, k));
    if k == FieldKind::Port {
        if let Some(p) = c0.port {
            crate::strings::lemma_parse_decimal(p as nat);
        }
    } else if k == FieldKind::SocksPort {
        if let Some(p) = c0.socks_port {
            crate::strings::lemma_parse_decimal(p as nat);
        }
    } else {
        crate::strings::lemma_parse_decimal(c0.keep_alive_interval as nat);
    }
}

impl SettingsWindow {
    /// The popup in its initial state: field list, first row, not editing.
    pub fn new() -> (w: Self)
        ensures
            w.view == Pane::Fields,
            w.fields_select == 0,
            w.rules_select == 0,
            w.rules_scroll == 0,
            w.editing is None,
    {
        SettingsWindow { view: Pane::Fields, fields_select: 0, rules_select: 0, rules_scroll: 0, editing: None }
    }

    /// Back to the initial state (when the popup opens).
    pub fn reset(&mut self)
        ensures
            final(self).view == Pane::Fields,
            final(self).fields_select == 0,
            final(self).rules_select == 0,
            final(self).rules_scroll == 0,
            final(self).editing is None,
    {
        self.view = Pane::Fields;
        self.fields_select = 0;
        self.rules_select = 0;
        self.rules_scroll = 0;
        self.editing = None;
    }

    /// The text a field row shows for `config`.
    pub fn field_value(&self, config: &MihomoConfig, kind: FieldKind) -> (r: String)
        ensures
            r@ == field_text(*config, kind),
    {
        match kind {
            FieldKind::Mode => config.mode.clone(),
            FieldKind::Port => port_text(config.port),
            FieldKind::SocksPort => port_text(config.socks_port),
            FieldKind::AllowLan => on_off(config.allow_lan),
            FieldKind::LogLevel => config.log_level.clone(),
            FieldKind::UnifiedDelay => on_off(config.unified_delay),
            FieldKind::KeepAlive => {
                let mut s = String::new();
                push_decimal(&mut s, config.keep_alive_interval as u64);
                proof {
                    assert(Seq::<char>::empty() + decimal(config.keep_alive_interval as nat)
                        =~= decimal(config.keep_alive_interval as nat));
                }
                s
            }
            FieldKind::Tun => on_off(match &config.tun { Some(t) => t.enable, None => false }),
            FieldKind::Dns => on_off(match &config.dns { Some(d) => d.enable, None => false }),
            FieldKind::Rules => {
                let mut s = String::new();
                push_decimal(&mut s, config.rules.len() as u64);
                push_str(&mut s, " 条");
                proof {
                    assert(s@ =~= decimal(config.rules@.len()) + " 条"@);
                }
                s
            }
        }
    }

    /// Enter on a field row: cycle the mode or log level, flip a switch
    /// (TUN also turns DNS on), start editing a number (replacing any edit in
    /// progress), or open the rules; other edits in progress are left alone.
    pub fn toggle_field(&mut self, config: &mut MihomoConfig)
        ensures
            field_toggled(*old(self), *old(config), *final(self), *final(config)),
    {
        let i = self.fields_select;
        if i >= FIELD_COUNT {
            return;
        }
        let kind = field_kind(i);
        match kind {
            FieldKind::Mode => {
                let next = cycle(&MODES, config.mode.as_str());
                proof {
                    assert(MODES@ == modes_view());
                }
                config.mode = to_owned_string(next);
            }
            FieldKind::LogLevel => {
                let next = cycle(&LOG_LEVELS, config.log_level.as_str());
                proof {
                    assert(LOG_LEVELS@ == log_levels_view());
                }
                config.log_level = to_owned_string(next);
            }
            FieldKind::AllowLan => {
                config.allow_lan = !config.allow_lan;
            }
            FieldKind::UnifiedDelay => {
                config.unified_delay = !config.unified_delay;
            }
            FieldKind::Tun => {
                let on = !match &config.tun { Some(t) => t.enable, None => false };
                config.set_tun_enabled(on);
            }
            FieldKind::Dns => {
                let on = !match &config.dns { Some(d) => d.enable, None => false };
                config.set_dns_enabled(on);
            }
            FieldKind::Port | FieldKind::SocksPort | FieldKind::KeepAlive => {
                let buffer = self.field_value(config, kind);
                self.editing = Some(EditState::field(buffer));
            }
            FieldKind::Rules => {
                self.view = Pane::Rules;
            }
        }
    }

    /// Enter while editing: a field takes the number when it parses (ports
    /// as `u16`, keep-alive as `u32`); a rule edit replaces the rule, and a
    /// new rule is appended, when the buffer is not empty. The edit ends.
    pub fn apply_edit(&mut self, config: &mut MihomoConfig)
        ensures
            edit_applied(*old(self), *old(config), *final(self), *final(config)),
    {
        let edit = match self.editing.take() {
            Some(e) => e,
            None => return,
        };
        let buf = chars_of(edit.buffer.as_str());
        match edit.rule {
            Some(idx) => {
                if buf.len() > 0 && idx < config.rules.len() {
                    let ghost before = strs(config.rules@);
                    config.rules.set(idx, edit.buffer);
                    proof {
                        assert(strs(config.rules@) =~= before.update(idx as int, buf@));
                    }
                }
                return;
            }
            None => {}
        }
        match self.view {
            Pane::Rules => {
                if buf.len() > 0 {
                    let ghost before = strs(config.rules@);
                    config.rules.push(edit.buffer);
                    proof {
                        assert(strs(config.rules@) =~= before.push(buf@));
                    }
                }
            }
            Pane::Fields => {
                if self.fields_select < FIELD_COUNT {
                    proof {
                        assert(buf@.subrange(0, buf@.len() as int) =~= buf@);
                    }
                    match field_kind(self.fields_select) {
                        FieldKind::Port => {
                            match parse_uint_range(&buf, 0, buf.len(), 10, 65535) {
                                Some(v) => { config.port = Some(v as u16); }
                                None => {}
                            }
                        }
                        FieldKind::SocksPort => {
                            match parse_uint_range(&buf, 0, buf.len(), 10, 65535) {
                                Some(v) => { config.socks_port = Some(v as u16); }
                                None => {}
                            }
                        }
                        FieldKind::KeepAlive => {
                            match parse_uint_range(&buf, 0, buf.len(), 10, 0xffff_ffff) {
                                Some(v) => { config.keep_alive_interval = v as u32; }
                                None => {}
                            }
                        }
                        _ => {}
                    }
                }
            }
        }
    }

    /// Keeps the rule cursor on an existing rule (and resets the scroll when there are none).
    pub fn clamp_rules_select(&mut self, rules_len: usize)
        ensures
            rules_len == 0 ==> final(self).rules_select == 0 && final(self).rules_scroll == 0,
            rules_len > 0 ==> final(self).rules_select == (if old(self).rules_select < rules_len - 1 {
                old(self).rules_select
            } else {
                (rules_len - 1) as usize
            }) && final(self).rules_scroll == old(self).rules_scroll,
            final(self).view == old(self).view,
            final(self).fields_select == old(self).fields_select,
            final(self).editing == old(self).editing,
    {
        if rules_len == 0 {
            self.rules_select = 0;
            self.rules_scroll = 0;
        } else if self.rules_select > rules_len - 1 {
            self.rules_select = rules_len - 1;
        }
    }

    /// Removes the selected rule (the last one when the cursor is past the end).
    pub fn delete_rule(&mut self, config: &mut MihomoConfig)
        ensures
            rule_deleted(*old(self), *old(config), *final(self), *final(config)),
    {
        let n = config.rules.len();
        if n == 0 {
            return;
        }
        let k = if self.rules_select < n - 1 { self.rules_select } else { n - 1 };
        config.rules.remove(k);
        self.clamp_rules_select(config.rules.len());
    }

    /// Enter on a rule: edit it.
    pub fn start_edit_rule(&mut self, config: &MihomoConfig)
        ensures
            rule_edit_started(*old(self), *config, *final(self)),
    {
        if self.rules_select < config.rules.len() {
            let text = config.rules[self.rules_select].clone();
            self.editing = Some(EditState::rule(Some(self.rules_select), text));
        }
    }

    /// `a`: start a new rule at the end.
    pub fn start_add_rule(&mut self, config: &MihomoConfig)
        ensures
            rule_add_started(*old(self), *config, *final(self)),
    {
        self.rules_select = config.rules.len();
        self.editing = Some(EditState::rule(None, String::new()));
    }

    /// Moves the rule cursor by `step`, wrapping round.
    pub fn navigate_rules(&mut self, rules_len: usize, step: i32)
        requires
            -1 <= step <= 1,
            rules_len < i32::MAX,
            old(self).rules_select <= rules_len,
        ensures
            rules_len == 0 ==> final(self).rules_select == old(self).rules_select,
            rules_len > 0 ==> final(self).rules_select == wrapped_index(old(self).rules_select as int, rules_len as int, step as int),
            final(self).view == old(self).view,
            final(self).fields_select == old(self).fields_select,
            final(self).rules_scroll == old(self).rules_scroll,
            final(self).editing == old(self).editing,
    {
        if rules_len == 0 {
            return;
        }
        self.rules_select = wrap(self.rules_select, rules_len, step);
    }

    /// A typed key while editing: characters join the buffer within its
    /// limits, Backspace removes the last one.
    pub fn key_type(&mut self, key: KeyCode)
        ensures
            key_typed(*old(self), key, *final(self)),
    {
        let mut edit = match self.editing.take() {
            Some(e) => e,
            None => return,
        };
        match key {
            KeyCode::Char(c) => {
                let n = edit.buffer.as_str().len();
                if edit.rule.is_some() {
                    if n < 200 {
                        edit.buffer.push(c);
                    }
                } else if '0' <= c && c <= '9' && n < 10 {
                    edit.buffer.push(c);
                }
            }
            KeyCode::Backspace => {
                edit.buffer.pop();
            }
            _ => {}
        }
        self.editing = Some(edit);
    }

    /// Keeps the selected rule within the `height - 1` rows that are shown.
    pub fn scroll_rules_into_view(&mut self, rules_len: usize, height: usize)
        requires
            rules_len > 0,
        ensures
            ({
                let visible: int = if height > 1 { height - 1 } else { 1 };
                let sel = final(self).rules_select as int;
                &&& sel < rules_len
                &&& final(self).rules_scroll <= sel < final(self).rules_scroll + visible
            }),
            final(self).view == old(self).view,
            final(self).editing == old(self).editing,
    {
        let visible = if height > 1 { height - 1 } else { 1 };
        self.clamp_rules_select(rules_len);
        if self.rules_select < self.rules_scroll {
            self.rules_scroll = self.rules_select;
        }
        if self.rules_select >= self.rules_scroll && self.rules_select - self.rules_scroll >= visible {
            self.rules_scroll = self.rules_select + 1 - visible;
        }
    }

    /// Handles one key. Esc cancels an edit, leaves the rule list, or asks to
    /// save and close; Enter applies an edit, switches a field or edits a rule;
    /// arrows move the cursor; `r`, `a`, `d` open the rules, add and delete.
    pub fn handle_key(&mut self, config: &mut MihomoConfig, key: KeyCode) -> (a: SettingsAction)
        requires
            old(config).rules@.len() < i32::MAX,
            old(self).rules_select <= old(config).rules@.len(),
        ensures
            a == SettingsAction::SaveAndClose <==> (key == KeyCode::Esc && old(self).editing is None
                && old(self).view == Pane::Fields),
            final(self).rules_select <= final(config).rules@.len(),
            final(config).rules@.len() <= old(config).rules@.len() + 1,
            key == KeyCode::Esc ==> *final(config) == *old(config),
            key == KeyCode::Esc && old(self).editing is Some ==> final(self).editing is None
                && final(self).view == old(self).view,
            key == KeyCode::Esc && old(self).editing is None && old(self).view == Pane::Rules
                ==> final(self).view == Pane::Fields,
            key == KeyCode::Up && old(self).editing is None && old(self).view == Pane::Fields ==>
                final(self).fields_select == ((old(self).fields_select as int) % 10 + 9) % 10,
            key == KeyCode::Down && old(self).editing is None && old(self).view == Pane::Fields ==>
                final(self).fields_select == ((old(self).fields_select as int) % 10 + 1) % 10,
            key == KeyCode::Esc ==> *final(self) == (if old(self).editing is Some {
                SettingsWindow { editing: None, ..*old(self) }
            } else if old(self).view == Pane::Rules {
                SettingsWindow { view: Pane::Fields, ..*old(self) }
            } else {
                *old(self)
            }),
            key == KeyCode::Enter && old(self).editing is Some
                ==> edit_applied(*old(self), *old(config), *final(self), *final(config)),
            key == KeyCode::Enter && old(self).editing is None && old(self).view == Pane::Fields
                ==> field_toggled(*old(self), *old(config), *final(self), *final(config)),
            key == KeyCode::Enter && old(self).editing is None && old(self).view == Pane::Rules
                ==> rule_edit_started(*old(self), *old(config), *final(self)) && *final(config) == *old(config),
            (key == KeyCode::Up || key == KeyCode::Down) ==> *final(config) == *old(config),
            (key == KeyCode::Up || key == KeyCode::Down) && old(self).editing is Some ==> *final(self) == *old(self),
            (key == KeyCode::Up || key == KeyCode::Down) && old(self).editing is None && old(self).view == Pane::Fields
                ==> final(self).view == old(self).view && final(self).rules_select == old(self).rules_select
                    && final(self).rules_scroll == old(self).rules_scroll && final(self).editing == old(self).editing,
            (key == KeyCode::Up || key == KeyCode::Down) && old(self).editing is None && old(self).view == Pane::Rules
                ==> final(self).rules_select == (if old(config).rules@.len() == 0 { old(self).rules_select as int } else {
                        wrapped_index(old(self).rules_select as int, old(config).rules@.len() as int,
                            if key == KeyCode::Up { -1 } else { 1 })
                    })
                    && final(self).view == old(self).view && final(self).fields_select == old(self).fields_select
                    && final(self).rules_scroll == old(self).rules_scroll && final(self).editing == old(self).editing,
            key == KeyCode::Char('r') ==> *final(config) == *old(config) && *final(self) == (
                if old(self).editing is None && old(self).view == Pane::Fields {
                    SettingsWindow { view: Pane::Rules, ..*old(self) }
                } else {
                    *old(self)
                }),
            key == KeyCode::Char('a') ==> *final(config) == *old(config) && (
                if old(self).editing is None && old(self).view == Pane::Rules {
                    rule_add_started(*old(self), *old(config), *final(self))
                } else {
                    *final(self) == *old(self)
                }),
            key == KeyCode::Char('d') ==> (
                if old(self).editing is None && old(self).view == Pane::Rules {
                    rule_deleted(*old(self), *old(config), *final(self), *final(config))
                } else {
                    *final(self) == *old(self) && *final(config) == *old(config)
                }),
            !(key == KeyCode::Esc || key == KeyCode::Enter || key == KeyCode::Up || key == KeyCode::Down
                || key == KeyCode::Char('r') || key == KeyCode::Char('a') || key == KeyCode::Char('d'))
                ==> key_typed(*old(self), key, *final(self)) && *final(config) == *old(config),
    {
        match key {
            KeyCode::Esc => {
                if self.editing.is_some() {
                    self.editing = None;
                    SettingsAction::Nothing
                } else if self.view == Pane::Rules {
                    self.view = Pane::Fields;
                    SettingsAction::Nothing
                } else {
                    SettingsAction::SaveAndClose
                }
            }
            KeyCode::Enter => {
                if self.editing.is_some() {
                    self.apply_edit(config);
                } else {
                    match self.view {
                        Pane::Fields => self.toggle_field(config),
                        Pane::Rules => self.start_edit_rule(config),
                    }
                }
                if self.rules_select > config.rules.len() {
                    self.rules_select = config.rules.len();
                }
                SettingsAction::Nothing
            }
            KeyCode::Up => {
                if self.editing.is_none() {
                    match self.view {
                        Pane::Fields => {
                            self.fields_select = ((self.fields_select % FIELD_COUNT) + FIELD_COUNT - 1) % FIELD_COUNT;
                        }
                        Pane::Rules => {
                            self.navigate_rules(config.rules.len(), -1);
                        }
                    }
                }
                SettingsAction::Nothing
            }
            KeyCode::Down => {
                if self.editing.is_none() {
                    match self.view {
                        Pane::Fields => {
                            self.fields_select = ((self.fields_select % FIELD_COUNT) + 1) % FIELD_COUNT;
                        }
                        Pane::Rules => {
                            self.navigate_rules(config.rules.len(), 1);
                        }
                    }
                }
                SettingsAction::Nothing
            }
            KeyCode::Char('r') => {
                if self.editing.is_none() && self.view == Pane::Fields {
                    self.view = Pane::Rules;
                }
                SettingsAction::Nothing
            }
            KeyCode::Char('a') => {
                if self.editing.is_none() && self.view == Pane::Rules {
                    self.start_add_rule(config);
                }
                SettingsAction::Nothing
            }
            KeyCode::Char('d') => {
                if self.editing.is_none() && self.view == Pane::Rules {
                    self.delete_rule(config);
                    if self.rules_select > config.rules.len() {
                        self.rules_select = config.rules.len();
                    }
                }
                SettingsAction::Nothing
            }
            _ => {
                self.key_type(key);
                SettingsAction::Nothing
            }
        }
    }
}

} // verus!
