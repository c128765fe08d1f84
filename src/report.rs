use vstd::prelude::*;
use crate::listing::{ListItem, ResultFilter, flatten, lemma_items_point_into, points_into, show_all, toggled, visible_list_items};
use crate::logs::{LogModel, LogScreen, back, last_index, opened, right};
use crate::model::{Key, ProtocolError, TestEvent, TestResult};
use crate::tree::{PackageModel, RunTree, apply_event, lines_view};

verus! {

/// One row of the report as drawn: the entity it shows, whether it is selected, and
/// whether it closes its package's group (the next row is a package, or there is none).
#[derive(Debug, Clone, Copy, PartialEq, Eq, Structural)]
pub struct Row {
    pub item: ListItem,
    pub selected: bool,
    pub last_in_group: bool,
}

/// What the report screen asks of the screen around it.
#[derive(Debug)]
pub enum ReportCommand {
    Render,
    ShowLogs(LogScreen),
}

/// The report: the tree of the run, the filter, the selected row and the scroll offsets.
#[derive(Debug)]
pub struct ReportScreen {
    tree: RunTree,
    selected_index: usize,
    scroll_x: usize,
    scroll_y: usize,
    filter: ResultFilter,
}

pub struct ReportModel {
    pub tree: Seq<PackageModel>,
    pub selected: usize,
    pub scroll_x: usize,
    pub scroll_y: usize,
    pub filter: ResultFilter,
}

impl View for ReportScreen {
    type V = ReportModel;

    closed spec fn view(&self) -> ReportModel {
        ReportModel {
            tree: self.tree@,
            selected: self.selected_index,
            scroll_x: self.scroll_x,
            scroll_y: self.scroll_y,
            filter: self.filter,
        }
    }
}

/// The rows that the report lists under its filter.
pub open spec fn items_of(m: ReportModel) -> Seq<ListItem> {
    flatten(m.tree, m.filter)
}

/// `i` brought into `0..n`, or 0 when the list is empty.
pub open spec fn clamp(i: int, n: int) -> usize {
    if i < n { i as usize } else { last_index(n) as usize }
}

/// The log of the entity that an item points at.
pub open spec fn log_of(ps: Seq<PackageModel>, item: ListItem) -> Seq<Seq<char>> {
    match item {
        ListItem::Package(k) => ps[k as int].log,
        ListItem::TestCase(k, j) => ps[k as int].tests[j as int].log,
    }
}

pub open spec fn with_filter(m: ReportModel, f: ResultFilter) -> ReportModel {
    ReportModel { filter: f, selected: clamp(m.selected as int, flatten(m.tree, f).len() as int), ..m }
}

/// The report over a new tree, with the selection brought into the new list.
pub open spec fn with_tree(m: ReportModel, ps: Seq<PackageModel>) -> ReportModel {
    ReportModel { tree: ps, selected: clamp(m.selected as int, flatten(ps, m.filter).len() as int), ..m }
}

pub open spec fn filter_key(key: Key) -> Option<TestResult> {
    match key {
        Key::Char('1') => Some(TestResult::Pass),
        Key::Char('2') => Some(TestResult::Fail),
        Key::Char('3') => Some(TestResult::Skip),
        _ => None,
    }
}

pub open spec fn is_activate(key: Key) -> bool {
    key == Key::Enter || key == Key::Char('\n')
}

/// What a key other than activation does to the report; `None` when it does nothing.
pub open spec fn report_step(m: ReportModel, key: Key) -> Option<ReportModel> {
    match key {
        Key::Down | Key::Char('j') => {
            let n = items_of(m).len() as int;
            Some(ReportModel { selected: (if m.selected + 1 < last_index(n) { m.selected + 1 } else { last_index(n) }) as usize, ..m })
        },
        Key::Up | Key::Char('k') => Some(ReportModel { selected: back(m.selected as int, 1), ..m }),
        Key::Left | Key::Char('h') => Some(ReportModel { scroll_x: back(m.scroll_x as int, 1), ..m }),
        Key::Right | Key::Char('l') => Some(ReportModel { scroll_x: right(m.scroll_x as int), ..m }),
        _ => match filter_key(key) {
            Some(kind) => Some(with_filter(m, toggled(m.filter, kind))),
            None => None,
        },
    }
}

/// The log that activation opens: that of the selected row, if the list has one there.
pub open spec fn selected_log(m: ReportModel) -> Option<Seq<Seq<char>>> {
    if m.selected < items_of(m).len() {
        Some(log_of(m.tree, items_of(m)[m.selected as int]))
    } else {
        None
    }
}

/// The rows of the list that a pane of `rows` rows has room for, after the header and
/// the filter line; none when the pane has no more than those two.
pub open spec fn body_rows(rows: int) -> int {
    if rows > 2 { rows - 2 } else { 0 }
}

/// The scroll offset after drawing: when row `sel` lies past `y + h` the offset
/// advances by exactly the overshoot, when it lies before `y` the offset retreats by
/// exactly the undershoot, and otherwise it stays.
pub open spec fn auto_scroll(y: int, sel: int, h: int) -> usize {
    if sel > y + h {
        (y + (sel - (y + h))) as usize
    } else if sel < y {
        sel as usize
    } else {
        y as usize
    }
}

pub open spec fn report_rendered(m: ReportModel, rows: int) -> ReportModel {
    ReportModel { scroll_y: auto_scroll(m.scroll_y as int, m.selected as int, body_rows(rows)), ..m }
}

pub open spec fn row_at(items: Seq<ListItem>, sel: int, i: int) -> Row {
    Row {
        item: items[i],
        selected: i == sel,
        last_in_group: i + 1 >= items.len() || items[i + 1] is Package,
    }
}

/// The rows shown from `start` on, as many as fit in `h` and the list has.
pub open spec fn window(items: Seq<ListItem>, sel: int, start: int, h: int) -> Seq<Row> {
    let end = if start + h < items.len() { start + h } else { items.len() as int };
    let count = if start < end { end - start } else { 0 };
    Seq::new(count as nat, |i: int| row_at(items, sel, start + i))
}

pub open spec fn report_frame(m: ReportModel, rows: int) -> Seq<Row> {
    window(items_of(m), m.selected as int, m.scroll_y as int, body_rows(rows))
}

/// Drawing the report changes only the scroll offset, and drawing it again at once
/// changes nothing and shows the same rows.
pub proof fn lemma_report_render_idempotent(m: ReportModel, rows: int)
    ensures
        report_rendered(report_rendered(m, rows), rows) == report_rendered(m, rows),
        report_frame(report_rendered(report_rendered(m, rows), rows), rows)
            == report_frame(report_rendered(m, rows), rows),
{
}

/// The marker that a row shows for a result, with the index of the colour it is drawn in.
pub open spec fn marker_of(result: Option<TestResult>) -> (usize, char) {
    match result {
        Some(TestResult::Pass) => (2, '✔'),
        Some(TestResult::Fail) => (3, '✘'),
        Some(TestResult::Skip) | None => (1, '-'),
    }
}

/// The marker and colour index for a result; a row with no result yet shows that of `Skip`.
pub fn result_marker(result: Option<TestResult>) -> (r: (usize, char))
    ensures
        r == marker_of(result),
{
    match result {
        Some(TestResult::Pass) => (2, '✔'),
        Some(TestResult::Fail) => (3, '✘'),
        Some(TestResult::Skip) | None => (1, '-'),
    }
}

impl ReportScreen {
    /// An empty report that shows every result.
    pub fn new() -> (r: ReportScreen)
        ensures
            r@ == (ReportModel { tree: Seq::empty(), selected: 0, scroll_x: 0, scroll_y: 0, filter: show_all() }),
    {
        ReportScreen {
            tree: RunTree::new(),
            selected_index: 0,
            scroll_x: 0,
            scroll_y: 0,
            filter: ResultFilter::new(),
        }
    }

    pub fn tree(&self) -> (r: &RunTree)
        ensures
            r@ == self@.tree,
    {
        &self.tree
    }

    pub fn filter(&self) -> (r: ResultFilter)
        ensures
            r == self@.filter,
    {
        self.filter
    }

    pub fn selected_index(&self) -> (r: usize)
        ensures
            r == self@.selected,
    {
        self.selected_index
    }

    pub fn scroll_x(&self) -> (r: usize)
        ensures
            r == self@.scroll_x,
    {
        self.scroll_x
    }

    pub fn scroll_y(&self) -> (r: usize)
        ensures
            r == self@.scroll_y,
    {
        self.scroll_y
    }

    /// The rows that the report lists now.
    pub fn visible_list_items(&self) -> (r: Vec<ListItem>)
        ensures
            r@ == items_of(self@),
    {
        visible_list_items(&self.tree, &self.filter)
    }

    /// Reads one event of the stream into the tree (see `RunTree::apply`), and brings
    /// the selection back into the list, which a new result may have shortened.
    pub fn ingest(&mut self, ev: TestEvent) -> (r: Result<bool, ProtocolError>)
        ensures
            match apply_event(old(self)@.tree, ev@) {
                Ok((ps, dirty)) => r == Ok::<bool, ProtocolError>(dirty)
                    && final(self)@ == with_tree(old(self)@, ps),
                Err(e) => r == Err::<bool, ProtocolError>(e) && final(self)@ == old(self)@,
            },
    {
        let r = self.tree.apply(ev);
        if r.is_ok() {
            let n = self.visible_list_items().len();
            if self.selected_index >= n {
                self.selected_index = if n > 0 { n - 1 } else { 0 };
            }
        }
        r
    }

    /// Opens the log of the selected row in a new log screen; `None` when no row is selected.
    pub fn activate(&self) -> (r: Option<LogScreen>)
        ensures
            match selected_log(self@) {
                Some(log) => r matches Some(ls) && ls@ == opened(log) && ls.wf(),
                None => r is None,
            },
    {
        let items = self.visible_list_items();
        if self.selected_index >= items.len() {
            return None;
        }
        proof {
            self.tree.lemma_fits();
            lemma_items_point_into(self.tree@, self.filter);
            assert(points_into(self.tree@, items@[self.selected_index as int]));
        }
        let src = match items[self.selected_index] {
            ListItem::Package(k) => &self.tree.packages[k].log,
            ListItem::TestCase(k, j) => &self.tree.packages[k].tests[j].log,
        };
        let mut copy: Vec<String> = Vec::new();
        let mut i: usize = 0;
        while i < src.len()
            invariant
                0 <= i <= src@.len(),
                copy@.len() == i,
                forall|k: int| 0 <= k < i ==> #[trigger] copy@[k]@ == src@[k]@,
            decreases src@.len() - i,
        {
            let line = src[i].clone();
            copy.push(line);
            i = i + 1;
        }
        assert(lines_view(copy@) =~= lines_view(src@));
        Some(LogScreen::new(copy))
    }

    /// Handles one key: moves the selection, scrolls, toggles a result filter or opens a log.
    pub fn update(&mut self, key: Key) -> (r: Option<ReportCommand>)
        ensures
            is_activate(key) ==> final(self)@ == old(self)@ && match selected_log(old(self)@) {
                Some(log) => r matches Some(ReportCommand::ShowLogs(ls)) && ls@ == opened(log) && ls.wf(),
                None => r is None,
            },
            !is_activate(key) ==> match report_step(old(self)@, key) {
                Some(m) => final(self)@ == m && r matches Some(ReportCommand::Render),
                None => final(self)@ == old(self)@ && r is None,
            },
    {
        match key {
            Key::Enter | Key::Char('\n') => match self.activate() {
                Some(ls) => Some(ReportCommand::ShowLogs(ls)),
                None => None,
            },
            Key::Down | Key::Char('j') => {
                let n = self.visible_list_items().len();
                let last = if n > 0 { n - 1 } else { 0 };
                self.selected_index = if self.selected_index < last { self.selected_index + 1 } else { last };
                Some(ReportCommand::Render)
            },
            Key::Up | Key::Char('k') => {
                self.selected_index = self.selected_index.saturating_sub(1);
                Some(ReportCommand::Render)
            },
            Key::Left | Key::Char('h') => {
                self.scroll_x = self.scroll_x.saturating_sub(1);
                Some(ReportCommand::Render)
            },
            Key::Right | Key::Char('l') => {
                self.scroll_x = if self.scroll_x < 1 { self.scroll_x + 1 } else { 1 };
                Some(ReportCommand::Render)
            },
            Key::Char('1') => {
                self.toggle_filter(TestResult::Pass);
                Some(ReportCommand::Render)
            },
            Key::Char('2') => {
                self.toggle_filter(TestResult::Fail);
                Some(ReportCommand::Render)
            },
            Key::Char('3') => {
                self.toggle_filter(TestResult::Skip);
                Some(ReportCommand::Render)
            },
            _ => None,
        }
    }

    /// Shows or hides one result kind, and brings the selection back into the new list.
    pub fn toggle_filter(&mut self, kind: TestResult)
        ensures
            final(self)@ == with_filter(old(self)@, toggled(old(self)@.filter, kind)),
    {
        self.filter.toggle(kind);
        let n = self.visible_list_items().len();
        if self.selected_index >= n {
            self.selected_index = if n > 0 { n - 1 } else { 0 };
        }
    }

    /// Scrolls so that the selection is in view, then lists the rows a pane of `rows`
    /// rows shows.
    pub fn render(&mut self, rows: usize) -> (r: Vec<Row>)
        ensures
            final(self)@ == report_rendered(old(self)@, rows as int),
            r@ == report_frame(final(self)@, rows as int),
    {
        let h: usize = rows.saturating_sub(2);
        let sel = self.selected_index;
        if sel > self.scroll_y && sel - self.scroll_y > h {
            self.scroll_y = sel - h;
        } else if sel < self.scroll_y {
            self.scroll_y = sel;
        }
        let items = self.visible_list_items();
        let n = items.len();
        let start = self.scroll_y;
        let end = if start < n && h < n - start { start + h } else { n };
        let mut out: Vec<Row> = Vec::new();
        let mut i: usize = start;
        while i < end
            invariant
                start <= end ==> start <= i <= end,
                end <= n,
                n == items@.len(),
                items@ == items_of(self@),
                start == self.scroll_y,
                sel == self.selected_index,
                start <= end ==> out@.len() == i - start,
                start > end ==> out@.len() == 0 && i == start,
                forall|k: int| 0 <= k < out@.len() ==> #[trigger] out@[k] == row_at(items@, sel as int, start + k),
            decreases end - i,
        {
            let last = i + 1 >= n || matches!(items[i + 1], ListItem::Package(_));
            let row = Row { item: items[i], selected: i == sel, last_in_group: last };
            assert(row == row_at(items@, sel as int, i as int));
            out.push(row);
            i = i + 1;
        }
        assert(out@ =~= report_frame(self@, rows as int));
        out
    }
}

} // verus!
