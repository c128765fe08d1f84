use vstd::prelude::*;
use crate::logs::{LogCommand, LogFrame, LogModel, LogScreen, log_model_ok, log_frame, log_rendered, log_step, opened};
use crate::model::{Key, ProtocolError, TestEvent};
use crate::report::{ReportCommand, ReportModel, ReportScreen, Row, is_activate, report_frame, report_rendered, report_step, selected_log, with_tree};
use crate::tree::apply_event;

verus! {

/// The screen in front: the report, or the log of one entity.
#[derive(Debug)]
pub enum Screen {
    Report,
    Logs(LogScreen),
}

/// What a frame shows: rows of the report, or lines of a log.
#[derive(Debug, Clone, Copy, PartialEq, Eq, Structural)]
pub enum Frame {
    Report,
    Logs(LogFrame),
}

/// The whole viewer: the report, which lives for the run, and the log screen in front, if any.
#[derive(Debug)]
pub struct Viewer {
    report: ReportScreen,
    screen: Screen,
}

pub struct ViewerModel {
    pub report: ReportModel,
    pub logs: Option<LogModel>,
}

impl Screen {
    pub open spec fn model(&self) -> Option<LogModel> {
        match self {
            Screen::Report => None,
            Screen::Logs(ls) => Some(ls@),
        }
    }
}

impl View for Viewer {
    type V = ViewerModel;

    closed spec fn view(&self) -> ViewerModel {
        ViewerModel { report: self.report@, logs: self.screen.model() }
    }
}

/// What a key does to the viewer, and whether the screen needs drawing again.
pub open spec fn viewer_step(m: ViewerModel, key: Key) -> (ViewerModel, bool) {
    match m.logs {
        None => if is_activate(key) {
            match selected_log(m.report) {
                Some(log) => (ViewerModel { logs: Some(opened(log)), ..m }, true),
                None => (m, false),
            }
        } else {
            match report_step(m.report, key) {
                Some(r) => (ViewerModel { report: r, ..m }, true),
                None => (m, false),
            }
        },
        Some(lm) => {
            let (next, cmd) = log_step(lm, key);
            match cmd {
                Some(LogCommand::ExitScreen) => (ViewerModel { logs: None, ..m }, true),
                Some(LogCommand::Render) => (ViewerModel { logs: Some(next), ..m }, true),
                None => (m, false),
            }
        },
    }
}

impl Viewer {
    pub closed spec fn wf(&self) -> bool {
        match self.screen {
            Screen::Report => true,
            Screen::Logs(ls) => ls.wf(),
        }
    }

    /// The log screen of a well-formed viewer, when one is open, meets `log_model_ok`.
    pub proof fn lemma_wf_facts(&self)
        requires
            self.wf(),
        ensures
            self@.logs matches Some(lm) ==> log_model_ok(lm),
    {
        if let Screen::Logs(ls) = &self.screen {
            ls.lemma_wf_facts();
        }
    }

    /// A viewer on an empty report.
    pub fn new() -> (r: Viewer)
        ensures
            r.wf(),
            r@.logs is None,
            r@.report.tree == Seq::<crate::tree::PackageModel>::empty(),
            r@.report.selected == 0,
            r@.report.scroll_x == 0,
            r@.report.scroll_y == 0,
            r@.report.filter == crate::listing::show_all(),
    {
        Viewer { report: ReportScreen::new(), screen: Screen::Report }
    }

    pub fn report(&self) -> (r: &ReportScreen)
        ensures
            r@ == self@.report,
    {
        &self.report
    }

    pub fn screen(&self) -> (r: &Screen)
        ensures
            r.model() == self@.logs,
    {
        &self.screen
    }

    /// Reads one event of the stream into the tree; an open log screen keeps the lines it opened on.
    pub fn ingest(&mut self, ev: TestEvent) -> (r: Result<bool, ProtocolError>)
        requires
            old(self).wf(),
        ensures
            final(self).wf(),
            final(self)@.logs == old(self)@.logs,
            match apply_event(old(self)@.report.tree, ev@) {
                Ok((ps, dirty)) => r == Ok::<bool, ProtocolError>(dirty)
                    && final(self)@.report == with_tree(old(self)@.report, ps),
                Err(e) => r == Err::<bool, ProtocolError>(e) && final(self)@.report == old(self)@.report,
            },
    {
        self.report.ingest(ev)
    }

    /// Handles one key on the screen in front; says whether the screen needs drawing again.
    pub fn handle_key(&mut self, key: Key) -> (r: bool)
        requires
            old(self).wf(),
        ensures
            final(self).wf(),
            (final(self)@, r) == viewer_step(old(self)@, key),
    {
        let mut view = Screen::Report;
        std::mem::swap(&mut view, &mut self.screen);
        match view {
            Screen::Report => match self.report.update(key) {
                Some(ReportCommand::ShowLogs(ls)) => {
                    self.screen = Screen::Logs(ls);
                    true
                },
                Some(ReportCommand::Render) => true,
                None => false,
            },
            Screen::Logs(mut ls) => match ls.update(key) {
                Some(LogCommand::ExitScreen) => true,
                Some(LogCommand::Render) => {
                    self.screen = Screen::Logs(ls);
                    true
                },
                None => {
                    self.screen = Screen::Logs(ls);
                    false
                },
            },
        }
    }

    /// Lays out the screen in front on a pane of `rows` rows. For the report, the rows
    /// that it shows are those of `report_rows`.
    pub fn render(&mut self, rows: usize) -> (r: (Frame, Vec<Row>))
        requires
            old(self).wf(),
        ensures
            final(self).wf(),
            match old(self)@.logs {
                None => final(self)@.logs is None
                    && final(self)@.report == report_rendered(old(self)@.report, rows as int)
                    && r.0 == Frame::Report
                    && r.1@ == report_frame(final(self)@.report, rows as int),
                Some(lm) => final(self)@.report == old(self)@.report
                    && final(self)@.logs == Some(log_rendered(lm, rows as int))
                    && r.0 == Frame::Logs(log_frame(log_rendered(lm, rows as int), rows as int))
                    && r.1@.len() == 0,
            },
    {
        match &mut self.screen {
            Screen::Report => {
                let shown = self.report.render(rows);
                (Frame::Report, shown)
            },
            Screen::Logs(ls) => {
                let f = ls.render(rows);
                (Frame::Logs(f), Vec::new())
            },
        }
    }
}

} // verus!
