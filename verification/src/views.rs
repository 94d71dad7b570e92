//! Scrolling state of the log views: the operation log table and the mihomo
//! process log page.
use vstd::prelude::*;
use crate::operation_log::OperationLogs;
use crate::strings::{chars_of, string_of, lines_of, line_ranges, ranges_view, ranges_valid};
use crate::text::{wrap_lines, wrap_all};

verus! {

/// Selection and scroll offset of a table, as the terminal UI keeps them.
#[derive(Debug, Clone, Copy, PartialEq, Eq, Structural)]
pub struct TableState {
    pub selected: Option<usize>,
    pub offset: usize,
}

impl TableState {
    pub fn new() -> (t: Self)
        ensures
            t.selected is None,
            t.offset == 0,
    {
        TableState { selected: None, offset: 0 }
    }

    pub fn selected(&self) -> (r: Option<usize>)
        ensures
            r == self.selected,
    {
        self.selected
    }

    pub fn offset(&self) -> (r: usize)
        ensures
            r == self.offset,
    {
        self.offset
    }

    pub fn select(&mut self, row: Option<usize>)
        ensures
            final(self).selected == row,
            final(self).offset == old(self).offset,
    {
        self.selected = row;
    }
}

pub open spec fn sat_sub(a: int, b: int) -> int {
    if a > b { a - b } else { 0 }
}

pub open spec fn min(a: int, b: int) -> int {
    if a < b { a } else { b }
}

pub open spec fn max1(a: int) -> int {
    if a < 1 { 1 } else { a }
}

/// Scroll state of the operation log panel; in follow mode it sticks to the newest entry.
#[derive(Debug)]
pub struct OperationLogView {
    pub state: TableState,
    pub follow: bool,
}

/// The row treated as selected: the selection (or else the last row), kept
/// within the log; 0 for an empty log.
pub open spec fn current_row(sel: Option<usize>, len: int) -> int {
    let last = sat_sub(len, 1);
    match sel {
        Some(s) => min(s as int, last),
        None => last,
    }
}

/// The log panel after one row up (`scroll_up`).
pub open spec fn log_scrolled_up(v: OperationLogView, len: int) -> OperationLogView {
    OperationLogView {
        state: TableState { selected: Some(sat_sub(current_row(v.state.selected, len), 1) as usize), offset: v.state.offset },
        follow: false,
    }
}

/// The log panel after moving `step` rows down, stopping at the last row;
/// reaching it resumes follow mode.
pub open spec fn log_moved_down(v: OperationLogView, len: int, step: int) -> OperationLogView {
    let last = sat_sub(len, 1);
    let row = min(current_row(v.state.selected, len) + step, last);
    OperationLogView {
        state: TableState { selected: Some(row as usize), offset: v.state.offset },
        follow: row == last || v.follow,
    }
}

/// The log panel after one page up (`page_up`): the page is the table offset, at least 1.
pub open spec fn log_paged_up(v: OperationLogView, len: int) -> OperationLogView {
    OperationLogView {
        state: TableState {
            selected: Some(sat_sub(current_row(v.state.selected, len), max1(v.state.offset as int)) as usize),
            offset: v.state.offset,
        },
        follow: false,
    }
}

impl OperationLogView {
    pub fn new() -> (v: Self)
        ensures
            v.state.selected is None,
            v.state.offset == 0,
            v.follow,
    {
        OperationLogView { state: TableState::new(), follow: true }
    }

    fn selected(&self, logs: &OperationLogs) -> (r: usize)
        ensures
            r == current_row(self.state.selected, logs.view().len() as int),
    {
        let n = logs.len();
        let last = if n > 0 { n - 1 } else { 0 };
        match self.state.selected() {
            Some(s) => if s < last { s } else { last },
            None => last,
        }
    }

    /// One row up; leaves follow mode.
    pub fn scroll_up(&mut self, logs: &OperationLogs)
        ensures
            *final(self) == log_scrolled_up(*old(self), logs.view().len() as int),
    {
        self.follow = false;
        let cur = self.selected(logs);
        let row = if cur > 0 { cur - 1 } else { 0 };
        self.state.select(Some(row));
    }

    /// One row down, stopping at the last; reaching it resumes follow mode.
    pub fn scroll_down(&mut self, logs: &OperationLogs)
        ensures
            *final(self) == log_moved_down(*old(self), logs.view().len() as int, 1),
    {
        let n = logs.len();
        let last = if n > 0 { n - 1 } else { 0 };
        let cur = self.selected(logs);
        let row = if cur + 1 < last { cur + 1 } else { last };
        self.state.select(Some(row));
        if row == last {
            self.follow = true;
        }
    }

    /// Up by the visible page (the table offset, at least 1); leaves follow mode.
    pub fn page_up(&mut self, logs: &OperationLogs)
        ensures
            *final(self) == log_paged_up(*old(self), logs.view().len() as int),
    {
        self.follow = false;
        let visible = if self.state.offset() < 1 { 1 } else { self.state.offset() };
        let cur = self.selected(logs);
        let row = if cur > visible { cur - visible } else { 0 };
        self.state.select(Some(row));
    }

    /// Down by the visible page, stopping at the last row; reaching it resumes follow mode.
    pub fn page_down(&mut self, logs: &OperationLogs)
        ensures
            *final(self) == log_moved_down(*old(self), logs.view().len() as int, max1(old(self).state.offset as int)),
    {
        let n = logs.len();
        let last = if n > 0 { n - 1 } else { 0 };
        let visible = if self.state.offset() < 1 { 1 } else { self.state.offset() };
        let cur = self.selected(logs);
        let row = if visible < last - cur { cur + visible } else { last };
        self.state.select(Some(row));
        if row == last {
            self.follow = true;
        }
    }

    /// When drawing: in follow mode stick to the last entry; otherwise only pull
    /// a selection back that fell past the end. An empty log changes nothing.
    pub fn clamp_follow(&mut self, logs: &OperationLogs)
        ensures
            ({
                let len = logs.view().len() as int;
                let need = len > 0 && (old(self).follow
                    || (old(self).state.selected is Some && old(self).state.selected->Some_0 > len - 1));
                &&& need ==> final(self).state.selected == Some((len - 1) as usize)
                &&& !need ==> final(self).state.selected == old(self).state.selected
            }),
            final(self).follow == old(self).follow,
            final(self).state.offset == old(self).state.offset,
    {
        if logs.is_empty() {
            return;
        }
        let max = logs.len() - 1;
        let past = match self.state.selected() {
            Some(s) => s > max,
            None => false,
        };
        if self.follow || past {
            self.state.select(Some(max));
        }
    }
}

// ===== mihomo process log =====

/// Most bytes read from the end of the log file.
pub const MAX_TAIL_BYTES: u64 = 131072;
/// Most lines kept from the log file.
pub const MAX_TAIL_LINES: usize = 500;

/// The last `max_lines` lines of `text`; when the text was read from the
/// middle of the file, its first (partial) line is dropped first.
pub open spec fn tail_of(lines: Seq<Seq<char>>, from_middle: bool, max_lines: nat) -> Seq<Seq<char>> {
    let l = if from_middle { lines.drop_first() } else { lines };
    if l.len() > max_lines { l.skip(l.len() - max_lines) } else { l }
}

/// Lines to show from the tail of a log file.
pub fn tail_lines(text: &str, from_middle: bool, max_lines: usize) -> (r: Vec<String>)
    requires
        from_middle ==> lines_of(text@).len() > 0,
    ensures
        r@.map_values(|s: String| s@) == tail_of(lines_of(text@), from_middle, max_lines as nat),
{
    let v = chars_of(text);
    let ranges = line_ranges(&v);
    let mut start: usize = if from_middle { 1 } else { 0 };
    let count = ranges.len() - start;
    if count > max_lines {
        start = start + (count - max_lines);
    }
    let mut r: Vec<String> = Vec::new();
    let mut i = start;
    let ghost all = ranges_view(v@, ranges@);
    let ghost want = tail_of(lines_of(text@), from_middle, max_lines as nat);
    proof {
        let l = if from_middle { all.drop_first() } else { all };
        assert(want =~= all.subrange(start as int, all.len() as int));
    }
    while i < ranges.len()
        invariant
            start <= i <= ranges@.len(),
            all == ranges_view(v@, ranges@),
            ranges_valid(ranges@, 0, v@.len() as int),
            want == all.subrange(start as int, all.len() as int),
            r@.map_values(|s: String| s@) == all.subrange(start as int, i as int),
        decreases ranges@.len() - i,
    {
        let (lo, hi) = ranges[i];
        let ghost before = r@.map_values(|s: String| s@);
        r.push(string_of(&v, lo, hi));
        proof {
            assert(all[i as int] == v@.subrange(lo as int, hi as int));
            assert(r@.map_values(|s: String| s@) =~= before.push(v@.subrange(lo as int, hi as int)));
            assert(r@.map_values(|s: String| s@) =~= all.subrange(start as int, i as int + 1));
        }
        i = i + 1;
    }
    r
}

/// The mihomo log page: the file's tail, its wrapped rows and the scroll position.
#[derive(Debug)]
pub struct MihomoLogView {
    pub path: String,
    pub lines: Vec<String>,
    pub rows: Vec<String>,
    pub scroll: usize,
    pub visible: usize,
    pub follow: bool,
    pub last_size: u64,
}

/// Rows past which the log page cannot scroll.
pub open spec fn log_max(v: MihomoLogView) -> int {
    sat_sub(v.rows@.len() as int, v.visible as int)
}

/// `w` is the log page `v` at scroll position `scroll` with follow mode `follow`.
pub open spec fn log_page_at(v: MihomoLogView, w: MihomoLogView, scroll: int, follow: bool) -> bool {
    &&& w.scroll == scroll
    &&& w.follow == follow
    &&& w.rows == v.rows
    &&& w.visible == v.visible
    &&& w.lines_view() == v.lines_view()
    &&& w.last_size_view() == v.last_size_view()
    &&& w.path_view() == v.path_view()
}

impl MihomoLogView {
    pub open spec fn lines_view(&self) -> Seq<Seq<char>> {
        self.lines@.map_values(|s: String| s@)
    }

    pub open spec fn last_size_view(&self) -> u64 {
        self.last_size
    }

    pub open spec fn path_view(&self) -> Seq<char> {
        self.path@
    }

    /// A view of the log at `path`, empty, following the end.
    pub fn new(path: String) -> (v: Self)
        ensures
            v.path_view() == path@,
            v.lines_view() == Seq::<Seq<char>>::empty(),
            v.rows@.len() == 0,
            v.scroll == 0,
            v.visible == 1,
            v.follow,
            v.last_size_view() == 0,
    {
        let v = MihomoLogView {
            path,
            lines: Vec::new(),
            rows: Vec::new(),
            scroll: 0,
            visible: 1,
            follow: true,
            last_size: 0,
        };
        proof {
            assert(v.lines_view() =~= Seq::<Seq<char>>::empty());
        }
        v
    }

    /// The file to read.
    pub fn path(&self) -> (r: &str)
        ensures
            r@ == self.path_view(),
    {
        self.path.as_str()
    }

    /// Whether a file of `size` bytes must be read again (it changed size);
    /// remembers the size.
    pub fn needs_reload(&mut self, size: u64) -> (r: bool)
        ensures
            r == (size != old(self).last_size_view()),
            final(self).last_size_view() == size,
            final(self).lines_view() == old(self).lines_view(),
            final(self).path_view() == old(self).path_view(),
            final(self).rows == old(self).rows,
            final(self).scroll == old(self).scroll,
            final(self).visible == old(self).visible,
            final(self).follow == old(self).follow,
    {
        let r = size != self.last_size;
        self.last_size = size;
        r
    }

    /// Takes freshly read lines.
    pub fn set_lines(&mut self, lines: Vec<String>)
        ensures
            final(self).lines_view() == lines@.map_values(|s: String| s@),
            final(self).last_size_view() == old(self).last_size_view(),
            final(self).path_view() == old(self).path_view(),
            final(self).rows == old(self).rows,
            final(self).scroll == old(self).scroll,
            final(self).visible == old(self).visible,
            final(self).follow == old(self).follow,
    {
        self.lines = lines;
    }

    /// Wraps the lines into display rows for `width` columns.
    pub fn wrap(&mut self, width: usize)
        ensures
            final(self).rows@.map_values(|s: String| s@) == wrap_all(old(self).lines_view(), width as nat),
            final(self).lines_view() == old(self).lines_view(),
            final(self).last_size_view() == old(self).last_size_view(),
            final(self).path_view() == old(self).path_view(),
            final(self).scroll == old(self).scroll,
            final(self).visible == old(self).visible,
            final(self).follow == old(self).follow,
    {
        self.rows = wrap_lines(&self.lines, width);
    }

    /// Brings the scroll position back into range; in follow mode, to the end.
    pub fn clamp_scroll(&mut self)
        ensures
            ({
                let max = sat_sub(old(self).rows@.len() as int, old(self).visible as int);
                final(self).scroll == (if old(self).follow { max } else { min(old(self).scroll as int, max) })
            }),
            final(self).rows == old(self).rows,
            final(self).visible == old(self).visible,
            final(self).follow == old(self).follow,
            final(self).lines_view() == old(self).lines_view(),
            final(self).last_size_view() == old(self).last_size_view(),
            final(self).path_view() == old(self).path_view(),
    {
        let n = self.rows.len();
        let max = if n > self.visible { n - self.visible } else { 0 };
        if self.follow {
            self.scroll = max;
        } else {
            self.scroll = if self.scroll < max { self.scroll } else { max };
        }
    }

    /// One row up; leaves follow mode.
    pub fn scroll_up(&mut self)
        ensures
            !final(self).follow,
            final(self).scroll == sat_sub(old(self).scroll as int, 1),
            final(self).rows == old(self).rows,
            final(self).visible == old(self).visible,
            final(self).lines_view() == old(self).lines_view(),
            final(self).last_size_view() == old(self).last_size_view(),
            final(self).path_view() == old(self).path_view(),
    {
        self.follow = false;
        self.scroll = if self.scroll > 0 { self.scroll - 1 } else { 0 };
    }

    /// One row down, stopping at the end; reaching it resumes follow mode.
    pub fn scroll_down(&mut self)
        ensures
            ({
                let max = sat_sub(old(self).rows@.len() as int, old(self).visible as int);
                let s = min(old(self).scroll as int + 1, max);
                &&& final(self).scroll == s
                &&& final(self).follow == (s == max || old(self).follow)
            }),
            final(self).rows == old(self).rows,
            final(self).visible == old(self).visible,
            final(self).lines_view() == old(self).lines_view(),
            final(self).last_size_view() == old(self).last_size_view(),
            final(self).path_view() == old(self).path_view(),
    {
        let n = self.rows.len();
        let max = if n > self.visible { n - self.visible } else { 0 };
        self.scroll = if self.scroll < max { self.scroll + 1 } else { max };
        if self.scroll == max {
            self.follow = true;
        }
    }

    /// Up by a page (the visible rows, at least 1); leaves follow mode.
    pub fn page_up(&mut self)
        ensures
            !final(self).follow,
            final(self).scroll == sat_sub(old(self).scroll as int, max1(old(self).visible as int)),
            final(self).rows == old(self).rows,
            final(self).visible == old(self).visible,
            final(self).lines_view() == old(self).lines_view(),
            final(self).last_size_view() == old(self).last_size_view(),
            final(self).path_view() == old(self).path_view(),
    {
        self.follow = false;
        let page = if self.visible < 1 { 1 } else { self.visible };
        self.scroll = if self.scroll > page { self.scroll - page } else { 0 };
    }

    /// Down by a page, stopping at the end; reaching it resumes follow mode.
    pub fn page_down(&mut self)
        ensures
            ({
                let max = sat_sub(old(self).rows@.len() as int, old(self).visible as int);
                let s = min(old(self).scroll as int + max1(old(self).visible as int), max);
                &&& final(self).scroll == s
                &&& final(self).follow == (s == max || old(self).follow)
            }),
            final(self).rows == old(self).rows,
            final(self).visible == old(self).visible,
            final(self).lines_view() == old(self).lines_view(),
            final(self).last_size_view() == old(self).last_size_view(),
            final(self).path_view() == old(self).path_view(),
    {
        let n = self.rows.len();
        let max = if n > self.visible { n - self.visible } else { 0 };
        let page = if self.visible < 1 { 1 } else { self.visible };
        self.scroll = if self.scroll < max && page < max - self.scroll { self.scroll + page } else { max };
        if self.scroll == max {
            self.follow = true;
        }
    }
}

} // verus!
