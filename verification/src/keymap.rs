//! Key bindings of the windows, the help and footer texts generated from
//! them, the panel components, and the main window's key decisions.
use vstd::prelude::*;
use crate::operation_log::OperationLogs;
use crate::strings::{to_owned_string, push_str, push_decimal, decimal};
use crate::text::{wrap, wrapped_index};
use crate::views::{OperationLogView, log_scrolled_up, log_moved_down, log_paged_up, max1};

verus! {

/// A key as the terminal reports it.
#[derive(Debug, Clone, Copy, PartialEq, Eq, Structural)]
pub enum KeyCode {
    Char(char),
    Enter,
    Esc,
    Backspace,
    Up,
    Down,
    Left,
    Right,
    PageUp,
    PageDown,
    Home,
    End,
    Delete,
    Insert,
    Tab,
    BackTab,
    F(u8),
    Null,
    CapsLock,
    ScrollLock,
    NumLock,
    PrintScreen,
    Pause,
    Menu,
    KeypadBegin,
}

/// The windows of the TUI.
#[derive(Debug, Clone, Copy, PartialEq, Eq, Structural)]
pub enum WindowId {
    Main,
    MihomoLog,
    UrlInput,
    ProviderSelect,
    Help,
    Settings,
}

/// Readable label of a key.
pub open spec fn label_of(k: KeyCode) -> Seq<char> {
    match k {
        KeyCode::Char(c) => seq![c],
        KeyCode::Enter => "Enter"@,
        KeyCode::Esc => "Esc"@,
        KeyCode::Backspace => "Backspace"@,
        KeyCode::Up => "↑"@,
        KeyCode::Down => "↓"@,
        KeyCode::Left => "←"@,
        KeyCode::Right => "→"@,
        KeyCode::PageUp => "PageUp"@,
        KeyCode::PageDown => "PageDown"@,
        KeyCode::Home => "Home"@,
        KeyCode::End => "End"@,
        KeyCode::Delete => "Del"@,
        KeyCode::Insert => "Ins"@,
        KeyCode::Tab => "Tab"@,
        KeyCode::BackTab => "BackTab"@,
        KeyCode::F(n) => "F"@ + decimal(n as nat),
        KeyCode::Null => "Null"@,
        KeyCode::CapsLock => "CapsLock"@,
        KeyCode::ScrollLock => "ScrollLock"@,
        KeyCode::NumLock => "NumLock"@,
        KeyCode::PrintScreen => "PrintScreen"@,
        KeyCode::Pause => "Pause"@,
        KeyCode::Menu => "Menu"@,
        KeyCode::KeypadBegin => "KeypadBegin"@,
    }
}

/// Readable label of a key, as help and footer show it.
pub fn key_label(key: KeyCode) -> (r: String)
    ensures
        r@ == label_of(key),
{
    match key {
        KeyCode::Char(c) => {
            let mut s = String::new();
            s.push(c);
            proof {
                assert(s@ =~= seq![c]);
            }
            s
        }
        KeyCode::Enter => to_owned_string("Enter"),
        KeyCode::Esc => to_owned_string("Esc"),
        KeyCode::Backspace => to_owned_string("Backspace"),
        KeyCode::Up => to_owned_string("↑"),
        KeyCode::Down => to_owned_string("↓"),
        KeyCode::Left => to_owned_string("←"),
        KeyCode::Right => to_owned_string("→"),
        KeyCode::PageUp => to_owned_string("PageUp"),
        KeyCode::PageDown => to_owned_string("PageDown"),
        KeyCode::Home => to_owned_string("Home"),
        KeyCode::End => to_owned_string("End"),
        KeyCode::Delete => to_owned_string("Del"),
        KeyCode::Insert => to_owned_string("Ins"),
        KeyCode::Tab => to_owned_string("Tab"),
        KeyCode::BackTab => to_owned_string("BackTab"),
        KeyCode::F(n) => {
            let mut s = to_owned_string("F");
            push_decimal(&mut s, n as u64);
            s
        }
        KeyCode::Null => to_owned_string("Null"),
        KeyCode::CapsLock => to_owned_string("CapsLock"),
        KeyCode::ScrollLock => to_owned_string("ScrollLock"),
        KeyCode::NumLock => to_owned_string("NumLock"),
        KeyCode::PrintScreen => to_owned_string("PrintScreen"),
        KeyCode::Pause => to_owned_string("Pause"),
        KeyCode::Menu => to_owned_string("Menu"),
        KeyCode::KeypadBegin => to_owned_string("KeypadBegin"),
    }
}

/// One key binding: the window, the key, the help text, and whether the
/// footer shows it.
#[derive(Debug, Clone, Copy)]
pub struct Binding {
    pub mode: WindowId,
    pub key: KeyCode,
    pub desc: &'static str,
    pub in_footer: bool,
}

pub open spec fn b(mode: WindowId, key: KeyCode, desc: &'static str, in_footer: bool) -> Binding {
    Binding { mode, key, desc, in_footer }
}

/// The registry, window by window, in the order the windows declare their keys.
pub open spec fn registry() -> Seq<Binding> {
    seq![
        b(WindowId::Main, KeyCode::Char('q'), "退出", true),
        b(WindowId::Main, KeyCode::Char('?'), "帮助", true),
        b(WindowId::Main, KeyCode::Tab, "切换面板", false),
        b(WindowId::Main, KeyCode::Esc, "回到节点列表", false),
        b(WindowId::Main, KeyCode::Up, "导航", true),
        b(WindowId::Main, KeyCode::Down, "导航", true),
        b(WindowId::Main, KeyCode::PageUp, "翻页", false),
        b(WindowId::Main, KeyCode::PageDown, "翻页", false),
        b(WindowId::Main, KeyCode::Char('s'), "开关mihomo", false),
        b(WindowId::Main, KeyCode::Char('p'), "系统代理", false),
        b(WindowId::Main, KeyCode::Char('T'), "TUN", false),
        b(WindowId::Main, KeyCode::Char('c'), "切换代理", false),
        b(WindowId::Main, KeyCode::Char('t'), "测速", false),
        b(WindowId::Main, KeyCode::Char('r'), "刷新节点", false),
        b(WindowId::Main, KeyCode::Char('u'), "添加订阅", false),
        b(WindowId::Main, KeyCode::Char('l'), "mihomo日志", false),
        b(WindowId::Main, KeyCode::Char('e'), "设置", true),
        b(WindowId::Main, KeyCode::Enter, "选中节点", false),
        b(WindowId::UrlInput, KeyCode::Esc, "取消", false),
        b(WindowId::UrlInput, KeyCode::Enter, "确认", false),
        b(WindowId::UrlInput, KeyCode::Backspace, "删除字符", false),
        b(WindowId::ProviderSelect, KeyCode::Esc, "取消", false),
        b(WindowId::ProviderSelect, KeyCode::Up, "导航", false),
        b(WindowId::ProviderSelect, KeyCode::Down, "导航", false),
        b(WindowId::ProviderSelect, KeyCode::Char('d'), "删除代理", false),
        b(WindowId::ProviderSelect, KeyCode::Enter, "确认", false),
        b(WindowId::Help, KeyCode::Esc, "关闭", false),
        b(WindowId::Help, KeyCode::Up, "导航", false),
        b(WindowId::Help, KeyCode::Down, "导航", false),
        b(WindowId::Help, KeyCode::PageUp, "翻页", false),
        b(WindowId::Help, KeyCode::PageDown, "翻页", false),
        b(WindowId::MihomoLog, KeyCode::Esc, "关闭", false),
        b(WindowId::MihomoLog, KeyCode::Up, "导航", false),
        b(WindowId::MihomoLog, KeyCode::Down, "导航", false),
        b(WindowId::MihomoLog, KeyCode::PageUp, "翻页", false),
        b(WindowId::MihomoLog, KeyCode::PageDown, "翻页", false),
    ]
}

/// All key bindings of the TUI.
pub fn bindings() -> (r: Vec<Binding>)
    ensures
        r@ == registry(),
{
    let r = vec![
        Binding { mode: WindowId::Main, key: KeyCode::Char('q'), desc: "退出", in_footer: true },
        Binding { mode: WindowId::Main, key: KeyCode::Char('?'), desc: "帮助", in_footer: true },
        Binding { mode: WindowId::Main, key: KeyCode::Tab, desc: "切换面板", in_footer: false },
        Binding { mode: WindowId::Main, key: KeyCode::Esc, desc: "回到节点列表", in_footer: false },
        Binding { mode: WindowId::Main, key: KeyCode::Up, desc: "导航", in_footer: true },
        Binding { mode: WindowId::Main, key: KeyCode::Down, desc: "导航", in_footer: true },
        Binding { mode: WindowId::Main, key: KeyCode::PageUp, desc: "翻页", in_footer: false },
        Binding { mode: WindowId::Main, key: KeyCode::PageDown, desc: "翻页", in_footer: false },
        Binding { mode: WindowId::Main, key: KeyCode::Char('s'), desc: "开关mihomo", in_footer: false },
        Binding { mode: WindowId::Main, key: KeyCode::Char('p'), desc: "系统代理", in_footer: false },
        Binding { mode: WindowId::Main, key: KeyCode::Char('T'), desc: "TUN", in_footer: false },
        Binding { mode: WindowId::Main, key: KeyCode::Char('c'), desc: "切换代理", in_footer: false },
        Binding { mode: WindowId::Main, key: KeyCode::Char('t'), desc: "测速", in_footer: false },
        Binding { mode: WindowId::Main, key: KeyCode::Char('r'), desc: "刷新节点", in_footer: false },
        Binding { mode: WindowId::Main, key: KeyCode::Char('u'), desc: "添加订阅", in_footer: false },
        Binding { mode: WindowId::Main, key: KeyCode::Char('l'), desc: "mihomo日志", in_footer: false },
        Binding { mode: WindowId::Main, key: KeyCode::Char('e'), desc: "设置", in_footer: true },
        Binding { mode: WindowId::Main, key: KeyCode::Enter, desc: "选中节点", in_footer: false },
        Binding { mode: WindowId::UrlInput, key: KeyCode::Esc, desc: "取消", in_footer: false },
        Binding { mode: WindowId::UrlInput, key: KeyCode::Enter, desc: "确认", in_footer: false },
        Binding { mode: WindowId::UrlInput, key: KeyCode::Backspace, desc: "删除字符", in_footer: false },
        Binding { mode: WindowId::ProviderSelect, key: KeyCode::Esc, desc: "取消", in_footer: false },
        Binding { mode: WindowId::ProviderSelect, key: KeyCode::Up, desc: "导航", in_footer: false },
        Binding { mode: WindowId::ProviderSelect, key: KeyCode::Down, desc: "导航", in_footer: false },
        Binding { mode: WindowId::ProviderSelect, key: KeyCode::Char('d'), desc: "删除代理", in_footer: false },
        Binding { mode: WindowId::ProviderSelect, key: KeyCode::Enter, desc: "确认", in_footer: false },
        Binding { mode: WindowId::Help, key: KeyCode::Esc, desc: "关闭", in_footer: false },
        Binding { mode: WindowId::Help, key: KeyCode::Up, desc: "导航", in_footer: false },
        Binding { mode: WindowId::Help, key: KeyCode::Down, desc: "导航", in_footer: false },
        Binding { mode: WindowId::Help, key: KeyCode::PageUp, desc: "翻页", in_footer: false },
        Binding { mode: WindowId::Help, key: KeyCode::PageDown, desc: "翻页", in_footer: false },
        Binding { mode: WindowId::MihomoLog, key: KeyCode::Esc, desc: "关闭", in_footer: false },
        Binding { mode: WindowId::MihomoLog, key: KeyCode::Up, desc: "导航", in_footer: false },
        Binding { mode: WindowId::MihomoLog, key: KeyCode::Down, desc: "导航", in_footer: false },
        Binding { mode: WindowId::MihomoLog, key: KeyCode::PageUp, desc: "翻页", in_footer: false },
        Binding { mode: WindowId::MihomoLog, key: KeyCode::PageDown, desc: "翻页", in_footer: false },
    ];
    proof {
        assert(r@ =~= registry());
    }
    r
}

/// Whether `x` binds the same key in the same window as some binding of `rest`.
pub open spec fn clashes(x: Binding, rest: Seq<Binding>) -> bool
    decreases rest.len(),
{
    if rest.len() == 0 {
        false
    } else {
        (rest[0].mode == x.mode && rest[0].key == x.key) || clashes(x, rest.drop_first())
    }
}

/// No key is bound twice in one window.
pub open spec fn keys_distinct(bs: Seq<Binding>) -> bool
    decreases bs.len(),
{
    if bs.len() == 0 {
        true
    } else {
        !clashes(bs[0], bs.drop_first()) && keys_distinct(bs.drop_first())
    }
}

proof fn lemma_clashes(x: Binding, rest: Seq<Binding>, j: int)
    requires
        0 <= j < rest.len(),
        rest[j].mode == x.mode,
        rest[j].key == x.key,
    ensures
        clashes(x, rest),
    decreases rest.len(),
{
    if j > 0 {
        assert(rest.drop_first()[j - 1] == rest[j]);
        lemma_clashes(x, rest.drop_first(), j - 1);
    }
}

proof fn lemma_keys_distinct(bs: Seq<Binding>, i: int, j: int)
    requires
        keys_distinct(bs),
        0 <= i < j < bs.len(),
    ensures
        !(bs[i].mode == bs[j].mode && bs[i].key == bs[j].key),
    decreases bs.len(),
{
    if i == 0 {
        if bs[i].mode == bs[j].mode && bs[i].key == bs[j].key {
            assert(bs.drop_first()[j - 1] == bs[j]);
            lemma_clashes(bs[0], bs.drop_first(), j - 1);
        }
    } else {
        assert(bs.drop_first()[i - 1] == bs[i]);
        assert(bs.drop_first()[j - 1] == bs[j]);
        lemma_keys_distinct(bs.drop_first(), i - 1, j - 1);
    }
}

/// No window binds a key twice, so every key press has one meaning.
#[verifier::rlimit(100)]
pub proof fn lemma_registry_keys_distinct()
    ensures
        forall|i: int, j: int| 0 <= i < j < registry().len() ==>
            !(#[trigger] registry()[i].mode == #[trigger] registry()[j].mode && registry()[i].key == registry()[j].key),
{
    assert(keys_distinct(registry())) by {
        reveal_with_fuel(keys_distinct, 37);
        reveal_with_fuel(clashes, 37);
    }
    assert forall|i: int, j: int| 0 <= i < j < registry().len() implies
        !(#[trigger] registry()[i].mode == #[trigger] registry()[j].mode && registry()[i].key == registry()[j].key) by {
        lemma_keys_distinct(registry(), i, j);
    }
}

/// The first binding of `key` in window `mode`.
pub open spec fn find_binding(bs: Seq<Binding>, mode: WindowId, key: KeyCode) -> Option<Binding>
    decreases bs.len(),
{
    if bs.len() == 0 {
        None
    } else if bs[0].mode == mode && bs[0].key == key {
        Some(bs[0])
    } else {
        find_binding(bs.drop_first(), mode, key)
    }
}

/// The binding of `key` in window `mode`, if any.
pub fn lookup(mode: WindowId, key: KeyCode) -> (r: Option<Binding>)
    ensures
        r == find_binding(registry(), mode, key),
{
    let bs = bindings();
    let mut i: usize = 0;
    proof {
        assert(bs@.skip(0) =~= bs@);
    }
    while i < bs.len()
        invariant
            bs@ == registry(),
            i <= bs@.len(),
            find_binding(registry(), mode, key) == find_binding(bs@.skip(i as int), mode, key),
        decreases bs@.len() - i,
    {
        proof {
            assert(bs@.skip(i as int)[0] == bs@[i as int]);
            assert(bs@.skip(i as int).drop_first() =~= bs@.skip(i as int + 1));
        }
        if bs[i].mode == mode && bs[i].key == key {
            return Some(bs[i]);
        }
        i = i + 1;
    }
    None
}

/// (key labels, description) rows of a binding list; neighbours with the
/// same description merge into one row with labels joined by `/`.
pub open spec fn entries(bs: Seq<Binding>) -> Seq<(Seq<char>, Seq<char>)>
    decreases bs.len(),
{
    if bs.len() == 0 {
        seq![]
    } else {
        let prev = entries(bs.drop_last());
        let x = bs.last();
        if prev.len() > 0 && prev.last().1 == x.desc@ {
            prev.update(prev.len() - 1, (prev.last().0 + "/"@ + label_of(x.key), prev.last().1))
        } else {
            prev.push((label_of(x.key), x.desc@))
        }
    }
}

pub open spec fn rows_view(v: Seq<(String, &'static str)>) -> Seq<(Seq<char>, Seq<char>)> {
    v.map_values(|p: (String, &'static str)| (p.0@, p.1@))
}

fn collect_entries(bs: &Vec<Binding>) -> (r: Vec<(String, &'static str)>)
    ensures
        rows_view(r@) == entries(bs@),
{
    let mut r: Vec<(String, &'static str)> = Vec::new();
    let mut i: usize = 0;
    while i < bs.len()
        invariant
            i <= bs@.len(),
            rows_view(r@) == entries(bs@.take(i as int)),
        decreases bs@.len() - i,
    {
        let x = bs[i];
        let ghost prev = rows_view(r@);
        proof {
            assert(bs@.take(i as int + 1).drop_last() =~= bs@.take(i as int));
            assert(bs@.take(i as int + 1).last() == x);
        }
        let n = r.len();
        if n > 0 && crate::strings::str_eq(r[n - 1].1, x.desc) {
            let (mut label, d) = r.pop().unwrap();
            push_str(&mut label, "/");
            let kl = key_label(x.key);
            push_str(&mut label, kl.as_str());
            r.push((label, d));
            proof {
                assert(rows_view(r@) =~= prev.update(prev.len() - 1, (prev.last().0 + "/"@ + label_of(x.key), prev.last().1)));
            }
        } else {
            r.push((key_label(x.key), x.desc));
            proof {
                assert(rows_view(r@) =~= prev.push((label_of(x.key), x.desc@)));
            }
        }
        i = i + 1;
    }
    proof {
        assert(bs@.take(bs@.len() as int) =~= bs@);
    }
    r
}

pub open spec fn in_help(mode: WindowId) -> spec_fn(Binding) -> bool {
    |x: Binding| x.mode == mode && x.desc@.len() > 0
}

pub open spec fn in_footer() -> spec_fn(Binding) -> bool {
    |x: Binding| x.mode == WindowId::Main && x.in_footer
}

/// Rows of the help popup for window `mode`: its described keys.
pub fn help_rows(mode: WindowId) -> (r: Vec<(String, &'static str)>)
    ensures
        rows_view(r@) == entries(registry().filter(in_help(mode))),
{
    let all = bindings();
    let mut picked: Vec<Binding> = Vec::new();
    let mut i: usize = 0;
    while i < all.len()
        invariant
            all@ == registry(),
            i <= all@.len(),
            picked@ == all@.take(i as int).filter(in_help(mode)),
        decreases all@.len() - i,
    {
        proof {
            assert(all@.take(i as int + 1) =~= all@.take(i as int).push(all@[i as int]));
            all@.take(i as int).lemma_filter_push(all@[i as int], in_help(mode));
        }
        if all[i].mode == mode && !all[i].desc.is_empty() {
            picked.push(all[i]);
        }
        i = i + 1;
    }
    proof {
        assert(all@.take(all@.len() as int) =~= all@);
    }
    collect_entries(&picked)
}

/// One footer item: `key: description`.
pub open spec fn footer_item(e: (Seq<char>, Seq<char>)) -> Seq<char> {
    e.0 + ": "@ + e.1
}

/// Items joined by ` | `.
pub open spec fn joined(es: Seq<(Seq<char>, Seq<char>)>) -> Seq<char>
    decreases es.len(),
{
    if es.len() == 0 {
        seq![]
    } else if es.len() == 1 {
        footer_item(es[0])
    } else {
        joined(es.drop_last()) + " | "@ + footer_item(es.last())
    }
}

/// The footer line: the main window's footer keys.
pub fn footer_text() -> (r: String)
    ensures
        r@ == joined(entries(registry().filter(in_footer()))),
{
    let all = bindings();
    let mut picked: Vec<Binding> = Vec::new();
    let mut i: usize = 0;
    while i < all.len()
        invariant
            all@ == registry(),
            i <= all@.len(),
            picked@ == all@.take(i as int).filter(in_footer()),
        decreases all@.len() - i,
    {
        proof {
            assert(all@.take(i as int + 1) =~= all@.take(i as int).push(all@[i as int]));
            all@.take(i as int).lemma_filter_push(all@[i as int], in_footer());
        }
        if all[i].mode == WindowId::Main && all[i].in_footer {
            picked.push(all[i]);
        }
        i = i + 1;
    }
    proof {
        assert(all@.take(all@.len() as int) =~= all@);
    }
    let es = collect_entries(&picked);
    let mut r = String::new();
    let mut k: usize = 0;
    while k < es.len()
        invariant
            k <= es@.len(),
            r@ == joined(rows_view(es@).take(k as int)),
        decreases es@.len() - k,
    {
        let ghost t = rows_view(es@).take(k as int + 1);
        proof {
            assert(t.drop_last() =~= rows_view(es@).take(k as int));
            assert(t.last() == rows_view(es@)[k as int]);
        }
        if k > 0 {
            push_str(&mut r, " | ");
        }
        push_str(&mut r, es[k].0.as_str());
        push_str(&mut r, ": ");
        push_str(&mut r, es[k].1);
        proof {
            if k == 0 {
                assert(t.len() == 1);
                assert(t[0] == t.last());
                assert(r@ =~= footer_item(t[0]));
            } else {
                assert(r@ =~= joined(t.drop_last()) + " | "@ + footer_item(t.last()));
            }
        }
        k = k + 1;
    }
    proof {
        assert(rows_view(es@).take(es@.len() as int) =~= rows_view(es@));
    }
    r
}

// ===== components and panels =====

/// A component of the main window and whether it takes focus.
#[derive(Debug, Clone, Copy)]
pub struct ComponentEntry {
    pub name: &'static str,
    pub focusable: bool,
}

pub open spec fn component_table() -> Seq<(Seq<char>, bool)> {
    seq![("content"@, true), ("operation_log"@, true), ("running_info"@, false), ("footer"@, false)]
}

pub open spec fn components_view(v: Seq<ComponentEntry>) -> Seq<(Seq<char>, bool)> {
    v.map_values(|c: ComponentEntry| (c.name@, c.focusable))
}

/// The components in registration order: node list, operation log, running
/// information and footer; the first two take focus.
pub fn components() -> (r: Vec<ComponentEntry>)
    ensures
        components_view(r@) == component_table(),
{
    let r = vec![
        ComponentEntry { name: "content", focusable: true },
        ComponentEntry { name: "operation_log", focusable: true },
        ComponentEntry { name: "running_info", focusable: false },
        ComponentEntry { name: "footer", focusable: false },
    ];
    proof {
        assert(components_view(r@) =~= component_table());
    }
    r
}

/// Names of the focusable components, in Tab order.
pub fn focusable_names() -> (r: Vec<&'static str>)
    ensures
        r@.map_values(|s: &'static str| s@) == component_table()
            .filter(|c: (Seq<char>, bool)| c.1)
            .map_values(|c: (Seq<char>, bool)| c.0),
{
    let cs = components();
    let mut r: Vec<&'static str> = Vec::new();
    let mut i: usize = 0;
    while i < cs.len()
        invariant
            components_view(cs@) == component_table(),
            i <= cs@.len(),
            r@.map_values(|s: &'static str| s@) == components_view(cs@).take(i as int)
                .filter(|c: (Seq<char>, bool)| c.1)
                .map_values(|c: (Seq<char>, bool)| c.0),
        decreases cs@.len() - i,
    {
        let ghost before = r@.map_values(|s: &'static str| s@);
        proof {
            let cv = components_view(cs@);
            assert(cv.take(i as int + 1) =~= cv.take(i as int).push(cv[i as int]));
            cv.take(i as int).lemma_filter_push(cv[i as int], |c: (Seq<char>, bool)| c.1);
        }
        if cs[i].focusable {
            r.push(cs[i].name);
            proof {
                assert(r@.map_values(|s: &'static str| s@) =~= before.push(cs@[i as int].name@));
            }
        }
        i = i + 1;
        proof {
            let cv = components_view(cs@);
            assert(cv.take(i as int).filter(|c: (Seq<char>, bool)| c.1).map_values(|c: (Seq<char>, bool)| c.0)
                =~= r@.map_values(|s: &'static str| s@));
        }
    }
    proof {
        let cv = components_view(cs@);
        assert(cv.take(cv.len() as int) =~= cv);
    }
    r
}

/// Focusable panels of the main window.
#[derive(Debug, Clone, Copy, PartialEq, Eq, Structural)]
pub enum Panel {
    Content,
    OperationLog,
}

pub open spec fn next_panel(p: Panel) -> Panel {
    match p { Panel::Content => Panel::OperationLog, Panel::OperationLog => Panel::Content }
}

impl Panel {
    /// The next panel in Tab order, wrapping round.
    pub fn cycle(self) -> (r: Panel)
        ensures
            r == next_panel(self),
    {
        match self {
            Panel::Content => Panel::OperationLog,
            Panel::OperationLog => Panel::Content,
        }
    }
}

// ===== main window =====

/// What a key on the main window asks the program to do.
#[derive(Debug, Clone, Copy, PartialEq, Eq, Structural)]
pub enum MainAction {
    Nothing,
    Quit,
    Open(WindowId),
    ToggleMihomo,
    ToggleProxy,
    ToggleTun,
    DelayTest,
    RefreshNodes,
    SelectNode(usize),
}

/// The main window's own state: node cursor, operation log scroll, focused panel.
#[derive(Debug)]
pub struct MainWindow {
    pub select: usize,
    pub node_count: usize,
    pub operation_log: OperationLogView,
    pub focus: Panel,
}

impl MainWindow {
    pub fn new() -> (w: Self)
        ensures
            w.select == 0,
            w.node_count == 0,
            w.focus == Panel::Content,
            w.operation_log.follow,
            w.operation_log.state.selected is None,
    {
        MainWindow { select: 0, node_count: 0, operation_log: OperationLogView::new(), focus: Panel::Content }
    }

    /// Moves the node cursor by `step`, wrapping round; nothing without nodes.
    pub fn navigate(&mut self, step: i32)
        requires
            -1 <= step <= 1,
            old(self).node_count <= i32::MAX,
            old(self).select < old(self).node_count || old(self).node_count == 0,
        ensures
            old(self).node_count == 0 ==> final(self).select == old(self).select,
            old(self).node_count > 0 ==> final(self).select
                == wrapped_index(old(self).select as int, old(self).node_count as int, step as int),
            final(self).node_count == old(self).node_count,
            final(self).focus == old(self).focus,
            final(self).operation_log == old(self).operation_log,
    {
        let len = self.node_count;
        if len == 0 {
            return;
        }
        self.select = wrap(self.select, len, step);
    }

    /// The main window's response to `key`.
    pub fn handle_key(&mut self, key: KeyCode, logs: &OperationLogs) -> (a: MainAction)
        requires
            old(self).node_count <= i32::MAX,
            old(self).select < old(self).node_count || old(self).node_count == 0,
        ensures
            final(self).node_count == old(self).node_count,
            final(self).select < final(self).node_count || final(self).node_count == 0,
            a == (match key {
                KeyCode::Char('q') => MainAction::Quit,
                KeyCode::Char('?') => MainAction::Open(WindowId::Help),
                KeyCode::Char('s') => MainAction::ToggleMihomo,
                KeyCode::Char('p') => MainAction::ToggleProxy,
                KeyCode::Char('T') => MainAction::ToggleTun,
                KeyCode::Char('c') => MainAction::Open(WindowId::ProviderSelect),
                KeyCode::Char('t') => MainAction::DelayTest,
                KeyCode::Char('r') => MainAction::RefreshNodes,
                KeyCode::Char('u') => MainAction::Open(WindowId::UrlInput),
                KeyCode::Char('l') => MainAction::Open(WindowId::MihomoLog),
                KeyCode::Char('e') => MainAction::Open(WindowId::Settings),
                KeyCode::Enter => if old(self).focus == Panel::Content && old(self).node_count > 0 {
                    MainAction::SelectNode(old(self).select)
                } else {
                    MainAction::Nothing
                },
                _ => MainAction::Nothing,
            }),
            key == KeyCode::Tab ==> final(self).focus == next_panel(old(self).focus),
            key == KeyCode::Esc ==> final(self).focus == Panel::Content,
            key != KeyCode::Tab && key != KeyCode::Esc ==> final(self).focus == old(self).focus,
            (key == KeyCode::Up || key == KeyCode::Down) && old(self).focus == Panel::Content
                && old(self).node_count > 0 ==> final(self).select == wrapped_index(
                    old(self).select as int,
                    old(self).node_count as int,
                    if key == KeyCode::Up { -1 } else { 1 },
                ),
            !((key == KeyCode::Up || key == KeyCode::Down) && old(self).focus == Panel::Content)
                ==> final(self).select == old(self).select,
            old(self).focus == Panel::OperationLog ==> final(self).operation_log == (match key {
                KeyCode::Up => log_scrolled_up(old(self).operation_log, logs.view().len() as int),
                KeyCode::Down => log_moved_down(old(self).operation_log, logs.view().len() as int, 1),
                KeyCode::PageUp => log_paged_up(old(self).operation_log, logs.view().len() as int),
                KeyCode::PageDown => log_moved_down(old(self).operation_log, logs.view().len() as int,
                    max1(old(self).operation_log.state.offset as int)),
                _ => old(self).operation_log,
            }),
            old(self).focus == Panel::Content ==> final(self).operation_log == old(self).operation_log,
    {
        match key {
            KeyCode::Char('q') => MainAction::Quit,
            KeyCode::Char('?') => MainAction::Open(WindowId::Help),
            KeyCode::Tab => {
                self.focus = self.focus.cycle();
                MainAction::Nothing
            }
            KeyCode::Esc => {
                self.focus = Panel::Content;
                MainAction::Nothing
            }
            KeyCode::Up => {
                match self.focus {
                    Panel::OperationLog => self.operation_log.scroll_up(logs),
                    Panel::Content => self.navigate(-1),
                }
                MainAction::Nothing
            }
            KeyCode::Down => {
                match self.focus {
                    Panel::OperationLog => self.operation_log.scroll_down(logs),
                    Panel::Content => self.navigate(1),
                }
                MainAction::Nothing
            }
            KeyCode::PageUp => {
                if self.focus == Panel::OperationLog {
                    self.operation_log.page_up(logs);
                }
                MainAction::Nothing
            }
            KeyCode::PageDown => {
                if self.focus == Panel::OperationLog {
                    self.operation_log.page_down(logs);
                }
                MainAction::Nothing
            }
            KeyCode::Char('s') => MainAction::ToggleMihomo,
            KeyCode::Char('p') => MainAction::ToggleProxy,
            KeyCode::Char('T') => MainAction::ToggleTun,
            KeyCode::Char('c') => MainAction::Open(WindowId::ProviderSelect),
            KeyCode::Char('t') => MainAction::DelayTest,
            KeyCode::Char('r') => MainAction::RefreshNodes,
            KeyCode::Char('u') => MainAction::Open(WindowId::UrlInput),
            KeyCode::Char('l') => MainAction::Open(WindowId::MihomoLog),
            KeyCode::Char('e') => MainAction::Open(WindowId::Settings),
            KeyCode::Enter => {
                if self.focus == Panel::Content && self.node_count > 0 {
                    MainAction::SelectNode(self.select)
                } else {
                    MainAction::Nothing
                }
            }
            _ => MainAction::Nothing,
        }
    }
}

} // verus!
