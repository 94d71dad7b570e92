//! The popups and pages besides the main window and settings: their state
//! and what their keys do.
use vstd::prelude::*;
use crate::config::{MihomoConfig, provider_entries};
use crate::keymap::{KeyCode, WindowId, help_rows, entries, registry, in_help};
use crate::state::Node;
use crate::views::{MihomoLogView, TableState, sat_sub, min, max1, log_max, log_page_at};

verus! {

/// The node list panel: nodes and the cursor.
#[derive(Debug)]
pub struct Content {
    pub nodes: Vec<Node>,
    pub select: usize,
}

impl Content {
    pub fn new() -> (c: Self)
        ensures
            c.nodes@.len() == 0,
            c.select == 0,
    {
        Content { nodes: Vec::new(), select: 0 }
    }
}

/// The footer panel (shows the footer text only).
#[derive(Debug, Clone, Copy)]
pub struct Footer;

/// What a popup asks the program to do after a key.
#[derive(Debug, PartialEq, Eq)]
pub enum WindowAction {
    Nothing,
    /// Go back to the main window.
    Close,
    /// Add the subscription at this URL (and go back).
    AddSubscription(String),
    /// Point the proxy group at this subscription.
    SwitchProvider(String),
    /// Remove this subscription.
    DeleteProvider(String),
}

// ===== subscription URL input =====

/// The URL input popup.
#[derive(Debug)]
pub struct UrlInputWindow {
    pub input: String,
}

impl UrlInputWindow {
    pub fn new() -> (w: Self)
        ensures
            w.input@.len() == 0,
    {
        UrlInputWindow { input: String::new() }
    }

    /// Esc cancels, Enter submits a non-empty URL, Backspace deletes, other
    /// characters are typed.
    pub fn handle_key(&mut self, key: KeyCode) -> (a: WindowAction)
        ensures
            key == KeyCode::Esc ==> a == WindowAction::Close && final(self).input@.len() == 0,
            key == KeyCode::Enter && old(self).input@.len() == 0 ==> a == WindowAction::Nothing
                && final(self).input@ == old(self).input@,
            key == KeyCode::Enter && old(self).input@.len() > 0 ==>
                (a matches WindowAction::AddSubscription(u) && u@ == old(self).input@)
                && final(self).input@.len() == 0,
            key == KeyCode::Backspace ==> a == WindowAction::Nothing && final(self).input@ == (
                if old(self).input@.len() > 0 { old(self).input@.drop_last() } else { old(self).input@ }),
            (key matches KeyCode::Char(c)) ==> a == WindowAction::Nothing
                && final(self).input@ == old(self).input@.push(key->Char_0),
            !(key == KeyCode::Esc || key == KeyCode::Enter || key == KeyCode::Backspace || key is Char)
                ==> a == WindowAction::Nothing && final(self).input@ == old(self).input@,
    {
        match key {
            KeyCode::Esc => {
                self.input = String::new();
                WindowAction::Close
            }
            KeyCode::Enter => {
                if self.input.as_str().is_empty() {
                    return WindowAction::Nothing;
                }
                let url = self.input.clone();
                self.input = String::new();
                WindowAction::AddSubscription(url)
            }
            KeyCode::Backspace => {
                self.input.pop();
                WindowAction::Nothing
            }
            KeyCode::Char(c) => {
                self.input.push(c);
                WindowAction::Nothing
            }
            _ => WindowAction::Nothing,
        }
    }
}

// ===== subscription choice =====

/// The subscription choice popup: the cursor over the subscriptions.
#[derive(Debug)]
pub struct ProviderSelectWindow {
    pub select: usize,
}

impl ProviderSelectWindow {
    pub fn new() -> (w: Self)
        ensures
            w.select == 0,
    {
        ProviderSelectWindow { select: 0 }
    }

    /// Esc closes, arrows move (wrapping round), Enter switches to and `d`
    /// deletes the subscription under the cursor.
    pub fn handle_key(&mut self, config: &MihomoConfig, key: KeyCode) -> (a: WindowAction)
        requires
            config.provider_count_view() < i32::MAX,
            old(self).select < i32::MAX,
        ensures
            key == KeyCode::Esc ==> a == WindowAction::Close,
            (key == KeyCode::Enter || key == KeyCode::Char('d')) ==> match config.proxy_providers {
                Some(p) => if old(self).select < provider_entries(p).len() {
                    if key == KeyCode::Enter {
                        a matches WindowAction::SwitchProvider(n) && n@ == provider_entries(p)[old(self).select as int].0
                    } else {
                        a matches WindowAction::DeleteProvider(n) && n@ == provider_entries(p)[old(self).select as int].0
                    }
                } else {
                    a == WindowAction::Nothing
                },
                None => a == WindowAction::Nothing,
            },
            (key == KeyCode::Up || key == KeyCode::Down) && config.provider_count_view() > 0 ==>
                final(self).select == crate::text::wrapped_index(old(self).select as int,
                    config.provider_count_view() as int, if key == KeyCode::Up { -1 } else { 1 }),
            !((key == KeyCode::Up || key == KeyCode::Down) && config.provider_count_view() > 0)
                ==> final(self).select == old(self).select,
    {
        match key {
            KeyCode::Esc => WindowAction::Close,
            KeyCode::Up | KeyCode::Down => {
                let n = config.provider_count();
                if n > 0 {
                    let step: i32 = if key == KeyCode::Up { -1 } else { 1 };
                    self.select = crate::text::wrap(self.select, n, step);
                }
                WindowAction::Nothing
            }
            KeyCode::Enter => match config.provider_key_by_index(self.select) {
                Some(name) => WindowAction::SwitchProvider(name),
                None => WindowAction::Nothing,
            },
            KeyCode::Char('d') => match config.provider_key_by_index(self.select) {
                Some(name) => WindowAction::DeleteProvider(name),
                None => WindowAction::Nothing,
            },
            _ => WindowAction::Nothing,
        }
    }
}

// ===== help =====

/// The help popup: a table of the main window's keys.
#[derive(Debug)]
pub struct HelpWindow {
    pub state: TableState,
}

/// Number of help rows of the main window.
pub open spec fn help_len() -> int {
    entries(registry().filter(in_help(WindowId::Main))).len() as int
}

impl HelpWindow {
    pub fn new() -> (w: Self)
        ensures
            w.state.selected is None,
            w.state.offset == 0,
    {
        HelpWindow { state: TableState::new() }
    }

    /// Back to the first row (when the popup opens).
    pub fn reset(&mut self)
        ensures
            final(self).state.selected == Some(0usize),
            final(self).state.offset == old(self).state.offset,
    {
        self.state.select(Some(0));
    }

    /// Esc closes; arrows and page keys move the selection within the rows.
    pub fn handle_key(&mut self, key: KeyCode) -> (a: WindowAction)
        ensures
            key == KeyCode::Esc ==> a == WindowAction::Close,
            key != KeyCode::Esc ==> a == WindowAction::Nothing,
            ({
                let cur = match old(self).state.selected { Some(s) => s as int, None => 0 };
                let last = sat_sub(help_len(), 1);
                let page = max1(old(self).state.offset as int);
                &&& key == KeyCode::Up ==> final(self).state.selected == Some(sat_sub(cur, 1) as usize)
                &&& key == KeyCode::Down ==> final(self).state.selected == Some(min(cur + 1, last) as usize)
                &&& key == KeyCode::PageUp ==> final(self).state.selected == Some(sat_sub(cur, page) as usize)
                &&& key == KeyCode::PageDown ==> final(self).state.selected == Some(min(cur + page, last) as usize)
                &&& !(key == KeyCode::Up || key == KeyCode::Down || key == KeyCode::PageUp || key == KeyCode::PageDown)
                    ==> final(self).state == old(self).state
            }),
    {
        let cur = match self.state.selected() { Some(s) => s, None => 0 };
        let page = if self.state.offset() < 1 { 1 } else { self.state.offset() };
        match key {
            KeyCode::Esc => WindowAction::Close,
            KeyCode::Up => {
                self.state.select(Some(if cur > 0 { cur - 1 } else { 0 }));
                WindowAction::Nothing
            }
            KeyCode::Down => {
                let n = help_rows(WindowId::Main).len();
                let last = if n > 0 { n - 1 } else { 0 };
                self.state.select(Some(if cur < last { cur + 1 } else { last }));
                WindowAction::Nothing
            }
            KeyCode::PageUp => {
                self.state.select(Some(if cur > page { cur - page } else { 0 }));
                WindowAction::Nothing
            }
            KeyCode::PageDown => {
                let n = help_rows(WindowId::Main).len();
                let last = if n > 0 { n - 1 } else { 0 };
                self.state.select(Some(if cur < last && page < last - cur { cur + page } else { last }));
                WindowAction::Nothing
            }
            _ => WindowAction::Nothing,
        }
    }
}

// ===== mihomo log page =====

/// The mihomo log page.
#[derive(Debug)]
pub struct MihomoLogWindow {
    pub view: MihomoLogView,
}

impl MihomoLogWindow {
    /// The page for the log file at `path`.
    pub fn new(path: String) -> (w: Self)
        ensures
            w.view.path_view() == path@,
            w.view.follow,
            w.view.scroll == 0,
    {
        MihomoLogWindow { view: MihomoLogView::new(path) }
    }

    /// Esc closes; arrows and page keys scroll.
    pub fn handle_key(&mut self, key: KeyCode) -> (a: WindowAction)
        ensures
            key == KeyCode::Esc ==> a == WindowAction::Close,
            key != KeyCode::Esc ==> a == WindowAction::Nothing,
            key == KeyCode::Up ==> log_page_at(old(self).view, final(self).view,
                sat_sub(old(self).view.scroll as int, 1), false),
            key == KeyCode::PageUp ==> log_page_at(old(self).view, final(self).view,
                sat_sub(old(self).view.scroll as int, max1(old(self).view.visible as int)), false),
            key == KeyCode::Down ==> ({
                let s = min(old(self).view.scroll as int + 1, log_max(old(self).view));
                log_page_at(old(self).view, final(self).view, s, s == log_max(old(self).view) || old(self).view.follow)
            }),
            key == KeyCode::PageDown ==> ({
                let s = min(old(self).view.scroll as int + max1(old(self).view.visible as int), log_max(old(self).view));
                log_page_at(old(self).view, final(self).view, s, s == log_max(old(self).view) || old(self).view.follow)
            }),
            !(key == KeyCode::Up || key == KeyCode::Down || key == KeyCode::PageUp || key == KeyCode::PageDown)
                ==> final(self).view == old(self).view,
    {
        match key {
            KeyCode::Esc => WindowAction::Close,
            KeyCode::Up => {
                self.view.scroll_up();
                WindowAction::Nothing
            }
            KeyCode::Down => {
                self.view.scroll_down();
                WindowAction::Nothing
            }
            KeyCode::PageUp => {
                self.view.page_up();
                WindowAction::Nothing
            }
            KeyCode::PageDown => {
                self.view.page_down();
                WindowAction::Nothing
            }
            _ => WindowAction::Nothing,
        }
    }
}

} // verus!
