use vstd::prelude::*;
use crate::model::Key;
use crate::search::{SearchModel, SearchState, all_matches, lemma_empty_query_has_no_matches, lemma_match_line_in_range, search_for, step_next, step_prev};
use crate::tree::lines_view;

verus! {

/// Whether keys browse the log or type into the search query.
#[derive(Debug, Clone, Copy, PartialEq, Eq, Structural)]
pub enum LogMode {
    Browsing,
    Entry,
}

/// What the log screen asks of the screen around it.
#[derive(Debug, Clone, Copy, PartialEq, Eq, Structural)]
pub enum LogCommand {
    ExitScreen,
    Render,
}

/// The lines of the log that a frame shows: `first..end`.
#[derive(Debug, Clone, Copy, PartialEq, Eq, Structural)]
pub struct LogFrame {
    pub first: usize,
    pub end: usize,
}

/// The log of one package or test, as it was when the screen opened, with a search over it.
#[derive(Debug)]
pub struct LogScreen {
    logs: Vec<String>,
    scroll_x: usize,
    scroll_y: usize,
    screen_height: Option<usize>,
    mode: LogMode,
    search: SearchState,
}

pub struct LogModel {
    pub logs: Seq<Seq<char>>,
    pub scroll_x: usize,
    pub scroll_y: usize,
    pub height: Option<usize>,
    pub mode: LogMode,
    pub search: SearchModel,
}

impl View for LogScreen {
    type V = LogModel;

    closed spec fn view(&self) -> LogModel {
        LogModel {
            logs: lines_view(self.logs@),
            scroll_x: self.scroll_x,
            scroll_y: self.scroll_y,
            height: self.screen_height,
            mode: self.mode,
            search: self.search@,
        }
    }
}

/// The screen as it opens on `logs`: at the top, browsing, with an empty query.
pub open spec fn opened(logs: Seq<Seq<char>>) -> LogModel {
    LogModel {
        logs,
        scroll_x: 0,
        scroll_y: 0,
        height: None,
        mode: LogMode::Browsing,
        search: SearchModel { query: Seq::empty(), matches: Seq::empty(), current: None },
    }
}

/// The last index of a list of `n` items, or 0 for an empty one.
pub open spec fn last_index(n: int) -> int {
    if n > 0 { n - 1 } else { 0 }
}

/// `y` moved forward by `d`, but not past the last of `n` lines.
pub open spec fn forward(y: int, d: int, n: int) -> usize {
    if y + d < last_index(n) { (y + d) as usize } else { last_index(n) as usize }
}

/// `y` moved back by `d`, but not before 0.
pub open spec fn back(y: int, d: int) -> usize {
    if y > d { (y - d) as usize } else { 0 }
}

/// The largest horizontal scroll: one column can be hidden.
pub open spec fn right(x: int) -> usize {
    if x < 1 { (x + 1) as usize } else { 1 }
}

/// After the search changes, the line of the match in focus comes into view.
pub open spec fn follow(m: LogModel, s: SearchModel) -> LogModel {
    match s.current {
        Some(i) => LogModel { search: s, scroll_y: s.matches[i as int].line, ..m },
        None => LogModel { search: s, ..m },
    }
}

pub open spec fn page(m: LogModel, forward_by: bool, half: bool) -> LogModel {
    match m.height {
        None => m,
        Some(h) => {
            let d = if half { h / 2 } else { h };
            LogModel {
                scroll_y: if forward_by {
                    forward(m.scroll_y as int, d as int, m.logs.len() as int)
                } else {
                    back(m.scroll_y as int, d as int)
                },
                ..m
            }
        },
    }
}

pub open spec fn query_without_last(q: Seq<char>) -> Seq<char> {
    if q.len() > 0 { q.drop_last() } else { q }
}

/// What a key does to the log screen, and what the screen asks for in return.
pub open spec fn log_step(m: LogModel, key: Key) -> (LogModel, Option<LogCommand>) {
    let draw = Some(LogCommand::Render);
    match m.mode {
        LogMode::Browsing => match key {
            Key::Esc => (m, Some(LogCommand::ExitScreen)),
            Key::Down | Key::Char('j') => (
                LogModel { scroll_y: forward(m.scroll_y as int, 1, m.logs.len() as int), ..m },
                draw,
            ),
            Key::Up | Key::Char('k') => (LogModel { scroll_y: back(m.scroll_y as int, 1), ..m }, draw),
            Key::Left | Key::Char('h') => (LogModel { scroll_x: back(m.scroll_x as int, 1), ..m }, draw),
            Key::Right | Key::Char('l') => (LogModel { scroll_x: right(m.scroll_x as int), ..m }, draw),
            Key::PageDown | Key::Char('d') => (page(m, true, true), draw),
            Key::PageUp | Key::Char('u') => (page(m, false, true), draw),
            Key::Char('f') => (page(m, true, false), draw),
            Key::Char('b') => (page(m, false, false), draw),
            Key::Char('/') => (
                LogModel {
                    mode: LogMode::Entry,
                    search: SearchModel { query: Seq::empty(), matches: Seq::empty(), current: None },
                    ..m
                },
                draw,
            ),
            Key::Char('n') => if m.search.current is Some {
                (follow(m, step_next(m.search)), draw)
            } else {
                (m, None)
            },
            Key::Char('N') => if m.search.current is Some {
                (follow(m, step_prev(m.search)), draw)
            } else {
                (m, None)
            },
            _ => (m, None),
        },
        LogMode::Entry => match key {
            Key::Esc | Key::Enter => (LogModel { mode: LogMode::Browsing, ..m }, draw),
            Key::Backspace => (follow(m, search_for(m.logs, query_without_last(m.search.query))), draw),
            Key::Char(c) => (follow(m, search_for(m.logs, m.search.query.push(c))), draw),
            _ => (m, None),
        },
    }
}

/// The lines that a pane of `rows` rows shows: all but the last row, which holds the status.
pub open spec fn log_frame(m: LogModel, rows: int) -> LogFrame {
    let h = if rows > 1 { rows - 1 } else { 0 };
    let n = m.logs.len() as int;
    let first = if m.scroll_y < n { m.scroll_y as int } else { n };
    LogFrame { first: first as usize, end: (if first + h < n { first + h } else { n }) as usize }
}

pub open spec fn log_rendered(m: LogModel, rows: int) -> LogModel {
    LogModel { height: Some((if rows > 1 { rows - 1 } else { 0 }) as usize), ..m }
}

/// What holds of every log screen: the matches are those of the query over the
/// screen's lines, a match is in focus exactly when there is one, the focus is one of
/// them, and the top line shown is a line of the log (or 0 for an empty log).
pub open spec fn log_model_ok(m: LogModel) -> bool {
    &&& m.search.matches == all_matches(m.logs, m.search.query)
    &&& (m.search.current is None <==> m.search.matches.len() == 0)
    &&& (m.search.current matches Some(i) ==> i < m.search.matches.len())
    &&& m.scroll_y <= last_index(m.logs.len() as int)
}

/// Drawing the log only records the pane's height, and drawing it again at once
/// changes nothing and shows the same lines.
pub proof fn lemma_log_render_idempotent(m: LogModel, rows: int)
    ensures
        log_rendered(log_rendered(m, rows), rows) == log_rendered(m, rows),
        log_frame(log_rendered(log_rendered(m, rows), rows), rows) == log_frame(log_rendered(m, rows), rows),
{
}

impl LogScreen {
    pub closed spec fn wf(&self) -> bool {
        &&& self.search.wf(lines_view(self.logs@))
        &&& self.scroll_y <= last_index(self.logs@.len() as int)
    }

    /// A well-formed screen meets `log_model_ok`.
    pub proof fn lemma_wf_facts(&self)
        requires
            self.wf(),
        ensures
            log_model_ok(self@),
    {
    }

    /// A screen over `logs`, at the top, browsing, with an empty query.
    pub fn new(logs: Vec<String>) -> (r: LogScreen)
        ensures
            r@ == opened(lines_view(logs@)),
            r.wf(),
    {
        let r = LogScreen {
            logs,
            scroll_x: 0,
            scroll_y: 0,
            screen_height: None,
            mode: LogMode::Browsing,
            search: SearchState::new(),
        };
        proof {
            lemma_empty_query_has_no_matches(lines_view(r.logs@), r.logs@.len() as int);
        }
        r
    }

    pub fn logs(&self) -> (r: &Vec<String>)
        ensures
            lines_view(r@) == self@.logs,
    {
        &self.logs
    }

    pub fn mode(&self) -> (r: LogMode)
        ensures
            r == self@.mode,
    {
        self.mode
    }

    pub fn search(&self) -> (r: &SearchState)
        ensures
            r@ == self@.search,
    {
        &self.search
    }

    pub fn scroll_x(&self) -> (r: usize)
        ensures
            r == self@.scroll_x,
    {
        self.scroll_x
    }

    /// Brings the line of the match in focus into view.
    fn follow_current(&mut self)
        requires
            old(self).search.wf(lines_view(old(self).logs@)),
            old(self).scroll_y <= last_index(old(self).logs@.len() as int),
        ensures
            final(self)@ == follow(old(self)@, old(self)@.search),
            final(self).search == old(self).search,
            final(self).logs == old(self).logs,
            final(self).scroll_y <= last_index(final(self).logs@.len() as int),
    {
        let n = self.logs.len();
        if let Some(i) = self.search.current() {
            let ms = self.search.matches();
            assert(lines_view(self.logs@).len() == n);
            self.scroll_y = ms[i].line;
            proof { lemma_match_line_in_range(lines_view(self.logs@), self.search@.query, i as int); }
        }
    }

    /// Handles one key: browsing keys scroll and step through matches, entry keys edit the query.
    pub fn update(&mut self, key: Key) -> (r: Option<LogCommand>)
        requires
            old(self).wf(),
        ensures
            final(self).wf(),
            (final(self)@, r) == log_step(old(self)@, key),
    {
        let n = self.logs.len();
        let last = if n > 0 { n - 1 } else { 0 };
        match self.mode {
            LogMode::Browsing => match key {
                Key::Esc => Some(LogCommand::ExitScreen),
                Key::Down | Key::Char('j') => {
                    self.scroll_y = if self.scroll_y < last { self.scroll_y + 1 } else { last };
                    Some(LogCommand::Render)
                },
                Key::Up | Key::Char('k') => {
                    self.scroll_y = self.scroll_y.saturating_sub(1);
                    Some(LogCommand::Render)
                },
                Key::Left | Key::Char('h') => {
                    self.scroll_x = self.scroll_x.saturating_sub(1);
                    Some(LogCommand::Render)
                },
                Key::Right | Key::Char('l') => {
                    self.scroll_x = if self.scroll_x < 1 { self.scroll_x + 1 } else { 1 };
                    Some(LogCommand::Render)
                },
                Key::PageDown | Key::Char('d') => {
                    self.page(true, true);
                    Some(LogCommand::Render)
                },
                Key::PageUp | Key::Char('u') => {
                    self.page(false, true);
                    Some(LogCommand::Render)
                },
                Key::Char('f') => {
                    self.page(true, false);
                    Some(LogCommand::Render)
                },
                Key::Char('b') => {
                    self.page(false, false);
                    Some(LogCommand::Render)
                },
                Key::Char('/') => {
                    self.mode = LogMode::Entry;
                    self.search = SearchState::new();
                    proof {
                        lemma_empty_query_has_no_matches(lines_view(self.logs@), self.logs@.len() as int);
                    }
                    Some(LogCommand::Render)
                },
                Key::Char('n') => {
                    if self.search.current().is_some() {
                        self.search.next_match();
                        self.follow_current();
                        Some(LogCommand::Render)
                    } else {
                        None
                    }
                },
                Key::Char('N') => {
                    if self.search.current().is_some() {
                        self.search.prev_match();
                        self.follow_current();
                        Some(LogCommand::Render)
                    } else {
                        None
                    }
                },
                _ => None,
            },
            LogMode::Entry => match key {
                Key::Esc | Key::Enter => {
                    self.mode = LogMode::Browsing;
                    Some(LogCommand::Render)
                },
                Key::Backspace => {
                    self.search.pop_char(&self.logs);
                    self.follow_current();
                    Some(LogCommand::Render)
                },
                Key::Char(c) => {
                    self.search.push_char(&self.logs, c);
                    self.follow_current();
                    Some(LogCommand::Render)
                },
                _ => None,
            },
        }
    }

    fn page(&mut self, forward_by: bool, half: bool)
        requires
            old(self).wf(),
        ensures
            final(self).wf(),
            final(self)@ == page(old(self)@, forward_by, half),
    {
        if let Some(h) = self.screen_height {
            let d = if half { h / 2 } else { h };
            let n = self.logs.len();
            let last = if n > 0 { n - 1 } else { 0 };
            if forward_by {
                let t = self.scroll_y.saturating_add(d);
                self.scroll_y = if t < last { t } else { last };
            } else {
                self.scroll_y = self.scroll_y.saturating_sub(d);
            }
        }
    }

    /// Lays the log out on a pane of `rows` rows; the last row is for the status line.
    pub fn render(&mut self, rows: usize) -> (r: LogFrame)
        requires
            old(self).wf(),
        ensures
            final(self).wf(),
            final(self)@ == log_rendered(old(self)@, rows as int),
            r == log_frame(final(self)@, rows as int),
    {
        let h = rows.saturating_sub(1);
        self.screen_height = Some(h);
        let n = self.logs.len();
        let first = if self.scroll_y < n { self.scroll_y } else { n };
        let end = if h < n - first { first + h } else { n };
        LogFrame { first, end }
    }
}

} // verus!
