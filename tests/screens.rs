use gotest_view::listing::ListItem;
use gotest_view::logs::{LogCommand, LogFrame, LogMode, LogScreen};
use gotest_view::model::{Action, Key, TestEvent, TestResult};
use gotest_view::report::{result_marker, ReportCommand, ReportScreen, Row};
use gotest_view::search::{find_matches, Match};
use gotest_view::viewer::{Frame, Screen, Viewer};

fn ev(action: Action, package: &str, test: Option<&str>, output: Option<&str>) -> TestEvent {
    TestEvent {
        action: Some(action),
        package: Some(package.to_string()),
        test: test.map(|s| s.to_string()),
        output: output.map(|s| s.to_string()),
        elapsed_ms: None,
    }
}

fn lines(v: &[&str]) -> Vec<String> {
    v.iter().map(|s| s.to_string()).collect()
}

fn type_query(ls: &mut LogScreen, q: &str) {
    assert_eq!(ls.update(Key::Char('/')), Some(LogCommand::Render));
    for c in q.chars() {
        assert_eq!(ls.update(Key::Char(c)), Some(LogCommand::Render));
    }
}

#[test]
fn search_scenario_foo_foobar_baz() {
    let mut ls = LogScreen::new(lines(&["foo", "foobar", "baz"]));
    type_query(&mut ls, "fo");
    assert_eq!(
        ls.search().matches(),
        &vec![Match { line: 0, start: 0, end: 2 }, Match { line: 1, start: 0, end: 2 }]
    );
    assert_eq!(ls.search().current(), Some(0));
    assert_eq!(ls.update(Key::Enter), Some(LogCommand::Render));
    assert_eq!(ls.update(Key::Char('n')), Some(LogCommand::Render));
    assert_eq!(ls.search().current(), Some(1));
    assert_eq!(ls.update(Key::Char('n')), Some(LogCommand::Render));
    assert_eq!(ls.search().current(), Some(1));
}

#[test]
fn matches_do_not_overlap() {
    let m = find_matches(&lines(&["aaa", "xaaaa"]), &"aa".to_string());
    assert_eq!(
        m,
        vec![
            Match { line: 0, start: 0, end: 2 },
            Match { line: 1, start: 1, end: 3 },
            Match { line: 1, start: 3, end: 5 },
        ]
    );
}

#[test]
fn match_offsets_are_bytes() {
    let m = find_matches(&lines(&["héllo hé"]), &"hé".to_string());
    assert_eq!(m, vec![Match { line: 0, start: 0, end: 3 }, Match { line: 0, start: 7, end: 10 }]);
}

#[test]
fn empty_query_has_no_matches() {
    assert!(find_matches(&lines(&["abc"]), &String::new()).is_empty());
}

#[test]
fn search_moves_to_first_matching_line_and_back() {
    let mut ls = LogScreen::new(lines(&["a", "b", "needle", "c", "needle"]));
    type_query(&mut ls, "needle");
    assert_eq!(ls.search().current(), Some(0));
    assert_eq!(ls.search().matches()[0].line, 2);
    assert_eq!(ls.render(10), LogFrame { first: 2, end: 5 });
    ls.update(Key::Esc);
    ls.update(Key::Char('n'));
    assert_eq!(ls.search().current(), Some(1));
    ls.update(Key::Char('N'));
    assert_eq!(ls.search().current(), Some(0));
    ls.update(Key::Char('N'));
    assert_eq!(ls.search().current(), Some(0));
}

#[test]
fn backspace_recomputes_matches() {
    let mut ls = LogScreen::new(lines(&["abc", "abd"]));
    type_query(&mut ls, "abc");
    assert_eq!(ls.search().matches().len(), 1);
    assert_eq!(ls.search().query(), "abc");
    assert_eq!(ls.update(Key::Backspace), Some(LogCommand::Render));
    assert_eq!(ls.search().query(), "ab");
    assert_eq!(ls.search().matches().len(), 2);
    ls.update(Key::Backspace);
    ls.update(Key::Backspace);
    ls.update(Key::Backspace);
    assert_eq!(ls.search().query(), "");
    assert!(ls.search().matches().is_empty());
    assert_eq!(ls.search().current(), None);
}

#[test]
fn no_match_leaves_focus_empty_and_n_does_nothing() {
    let mut ls = LogScreen::new(lines(&["abc"]));
    type_query(&mut ls, "zz");
    assert_eq!(ls.search().current(), None);
    ls.update(Key::Enter);
    assert_eq!(ls.mode(), LogMode::Browsing);
    assert_eq!(ls.update(Key::Char('n')), None);
}

#[test]
fn log_scrolling_is_clamped() {
    let mut ls = LogScreen::new(lines(&["1", "2", "3", "4", "5", "6", "7", "8", "9", "10"]));
    assert_eq!(ls.update(Key::Char('d')), Some(LogCommand::Render));
    assert_eq!(ls.render(5), LogFrame { first: 0, end: 4 });
    ls.update(Key::PageDown);
    assert_eq!(ls.render(5), LogFrame { first: 2, end: 6 });
    ls.update(Key::Char('f'));
    ls.update(Key::Char('f'));
    ls.update(Key::Char('f'));
    assert_eq!(ls.render(5), LogFrame { first: 9, end: 10 });
    ls.update(Key::Char('b'));
    assert_eq!(ls.render(5), LogFrame { first: 5, end: 9 });
    ls.update(Key::Up);
    ls.update(Key::Char('u'));
    assert_eq!(ls.render(5), LogFrame { first: 2, end: 6 });
    ls.update(Key::Right);
    ls.update(Key::Right);
    assert_eq!(ls.scroll_x(), 1);
    ls.update(Key::Left);
    ls.update(Key::Left);
    assert_eq!(ls.scroll_x(), 0);
    assert_eq!(ls.update(Key::Esc), Some(LogCommand::ExitScreen));
}

fn sample_report() -> ReportScreen {
    let mut r = ReportScreen::new();
    r.ingest(ev(Action::Start, "a", None, None)).unwrap();
    r.ingest(ev(Action::Run, "a", Some("t1"), None)).unwrap();
    r.ingest(ev(Action::Output, "a", Some("t1"), Some("hello"))).unwrap();
    r.ingest(ev(Action::Pass, "a", Some("t1"), None)).unwrap();
    r.ingest(ev(Action::Pass, "a", None, None)).unwrap();
    r
}

#[test]
fn fail_filter_with_no_failures_empties_list() {
    let mut r = sample_report();
    r.update(Key::Down);
    assert_eq!(r.selected_index(), 1);
    assert!(matches!(r.update(Key::Char('2')), Some(ReportCommand::Render)));
    assert!(r.visible_list_items().is_empty());
    assert_eq!(r.selected_index(), 0);
    assert!(r.update(Key::Enter).is_none());
    assert!(r.activate().is_none());
}

#[test]
fn ingest_clamps_selection_when_row_is_hidden() {
    let mut r = ReportScreen::new();
    r.ingest(ev(Action::Start, "a", None, None)).unwrap();
    r.ingest(ev(Action::Run, "a", Some("t1"), None)).unwrap();
    r.update(Key::Char('2'));
    r.update(Key::Down);
    assert_eq!(r.selected_index(), 1);
    r.ingest(ev(Action::Pass, "a", Some("t1"), None)).unwrap();
    assert_eq!(r.visible_list_items(), vec![ListItem::Package(0)]);
    assert_eq!(r.selected_index(), 0);
    r.ingest(ev(Action::Pass, "a", None, None)).unwrap();
    assert!(r.visible_list_items().is_empty());
    assert_eq!(r.selected_index(), 0);
}

#[test]
fn selection_is_clamped() {
    let mut r = sample_report();
    r.update(Key::Up);
    assert_eq!(r.selected_index(), 0);
    r.update(Key::Char('j'));
    r.update(Key::Char('j'));
    r.update(Key::Char('j'));
    assert_eq!(r.selected_index(), 1);
    r.update(Key::Char('k'));
    assert_eq!(r.selected_index(), 0);
    r.update(Key::Char('l'));
    r.update(Key::Char('l'));
    assert_eq!(r.scroll_x(), 1);
    assert!(r.update(Key::Esc).is_none());
}

#[test]
fn activate_opens_selected_log() {
    let mut r = sample_report();
    r.update(Key::Down);
    match r.update(Key::Enter) {
        Some(ReportCommand::ShowLogs(ls)) => assert_eq!(ls.logs(), &vec!["hello".to_string()]),
        _ => panic!("expected a log screen"),
    }
}

fn ten_packages() -> ReportScreen {
    let mut r = ReportScreen::new();
    for i in 0..10 {
        r.ingest(ev(Action::Start, &format!("p{}", i), None, None)).unwrap();
    }
    r
}

#[test]
fn render_scrolls_by_overshoot_and_is_idempotent() {
    let mut r = ten_packages();
    for _ in 0..6 {
        r.update(Key::Down);
    }
    let first = r.render(5);
    assert_eq!(r.scroll_y(), 3);
    assert_eq!(first.len(), 3);
    assert_eq!(first[0], Row { item: ListItem::Package(3), selected: false, last_in_group: true });
    assert_eq!(first[2], Row { item: ListItem::Package(5), selected: false, last_in_group: true });
    let second = r.render(5);
    assert_eq!(first, second);
    assert_eq!(r.scroll_y(), 3);
    for _ in 0..6 {
        r.update(Key::Up);
    }
    r.render(5);
    assert_eq!(r.scroll_y(), 0);
}

#[test]
fn render_keeps_scroll_up_to_rows_minus_two() {
    let mut r = ten_packages();
    for _ in 0..3 {
        r.update(Key::Down);
    }
    let shown = r.render(5);
    assert_eq!(r.scroll_y(), 0);
    assert_eq!(shown.len(), 3);
    r.update(Key::Down);
    r.render(5);
    assert_eq!(r.scroll_y(), 1);
}

#[test]
fn render_with_two_rows_lists_nothing() {
    let mut r = ten_packages();
    r.update(Key::Down);
    assert!(r.render(2).is_empty());
    assert_eq!(r.scroll_y(), 1);
    assert!(r.render(0).is_empty());
}

#[test]
fn result_markers() {
    assert_eq!(result_marker(Some(TestResult::Pass)), (2, '✔'));
    assert_eq!(result_marker(Some(TestResult::Fail)), (3, '✘'));
    assert_eq!(result_marker(Some(TestResult::Skip)), (1, '-'));
    assert_eq!(result_marker(None), (1, '-'));
}

#[test]
fn rows_mark_group_ends() {
    let mut r = sample_report();
    r.ingest(ev(Action::Run, "a", Some("t2"), None)).unwrap();
    let rows = r.render(10);
    assert_eq!(rows.len(), 3);
    assert!(!rows[0].last_in_group);
    assert!(!rows[1].last_in_group);
    assert!(rows[2].last_in_group);
    assert!(rows[0].selected);
}

#[test]
fn viewer_switches_between_report_and_log() {
    let mut v = Viewer::new();
    v.ingest(ev(Action::Start, "a", None, None)).unwrap();
    v.ingest(ev(Action::Output, "a", None, Some("pkg out"))).unwrap();
    assert!(v.handle_key(Key::Enter));
    assert!(matches!(v.screen(), Screen::Logs(_)));
    let (frame, rows) = v.render(4);
    assert_eq!(frame, Frame::Logs(LogFrame { first: 0, end: 1 }));
    assert!(rows.is_empty());
    v.ingest(ev(Action::Output, "a", None, Some("later"))).unwrap();
    match v.screen() {
        Screen::Logs(ls) => assert_eq!(ls.logs().len(), 1),
        Screen::Report => panic!("expected the log screen"),
    }
    assert!(!v.handle_key(Key::Char('z')));
    assert!(v.handle_key(Key::Esc));
    assert!(matches!(v.screen(), Screen::Report));
    let (frame, rows) = v.render(4);
    assert_eq!(frame, Frame::Report);
    assert_eq!(rows.len(), 1);
    assert_eq!(v.report().tree().packages[0].log.len(), 2);
}
