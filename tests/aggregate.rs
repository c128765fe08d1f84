use gotest_view::listing::{visible_list_items, ListItem, ResultFilter};
use gotest_view::model::{parse_action, Action, ProtocolError, TestEvent, TestResult};
use gotest_view::tree::RunTree;

fn ev(action: Action, package: Option<&str>, test: Option<&str>, output: Option<&str>, elapsed_ms: Option<u64>) -> TestEvent {
    TestEvent {
        action: Some(action),
        package: package.map(|s| s.to_string()),
        test: test.map(|s| s.to_string()),
        output: output.map(|s| s.to_string()),
        elapsed_ms,
    }
}

fn show_all() -> ResultFilter {
    ResultFilter::new()
}

#[test]
fn pass_events_fill_package_and_test() {
    let mut tree = RunTree::new();
    assert_eq!(tree.apply(ev(Action::Start, Some("a"), None, None, None)), Ok(true));
    assert_eq!(tree.apply(ev(Action::Run, Some("a"), Some("t1"), None, None)), Ok(true));
    assert_eq!(tree.apply(ev(Action::Pass, Some("a"), Some("t1"), None, Some(10))), Ok(true));
    assert_eq!(tree.apply(ev(Action::Pass, Some("a"), None, None, Some(20))), Ok(true));
    let items = visible_list_items(&tree, &show_all());
    assert_eq!(items, vec![ListItem::Package(0), ListItem::TestCase(0, 0)]);
    let p = &tree.packages[0];
    assert_eq!(p.name, "a");
    assert_eq!(p.result, Some(TestResult::Pass));
    assert_eq!(p.elapsed_ms, Some(20));
    assert_eq!(p.tests[0].name, "t1");
    assert_eq!(p.tests[0].result, Some(TestResult::Pass));
    assert_eq!(p.tests[0].elapsed_ms, Some(10));
}

#[test]
fn output_before_run_is_dropped() {
    let mut tree = RunTree::new();
    tree.apply(ev(Action::Start, Some("a"), None, None, None)).unwrap();
    assert_eq!(tree.apply(ev(Action::Output, Some("a"), Some("t1"), Some("boom"), None)), Ok(false));
    tree.apply(ev(Action::Run, Some("a"), Some("t1"), None, None)).unwrap();
    assert!(tree.packages[0].tests[0].log.is_empty());
    assert!(tree.packages[0].log.is_empty());
}

#[test]
fn output_goes_to_test_or_package_log() {
    let mut tree = RunTree::new();
    tree.apply(ev(Action::Start, Some("a"), None, None, None)).unwrap();
    tree.apply(ev(Action::Run, Some("a"), Some("t1"), None, None)).unwrap();
    assert_eq!(tree.apply(ev(Action::Output, Some("a"), Some("t1"), Some("line one"), None)), Ok(true));
    assert_eq!(tree.apply(ev(Action::Output, Some("a"), None, Some("pkg line"), None)), Ok(true));
    assert_eq!(tree.packages[0].tests[0].log, vec!["line one".to_string()]);
    assert_eq!(tree.packages[0].log, vec!["pkg line".to_string()]);
}

#[test]
fn later_terminal_events_do_not_overwrite() {
    let mut tree = RunTree::new();
    tree.apply(ev(Action::Start, Some("a"), None, None, None)).unwrap();
    tree.apply(ev(Action::Run, Some("a"), Some("t1"), None, None)).unwrap();
    tree.apply(ev(Action::Fail, Some("a"), Some("t1"), None, Some(5))).unwrap();
    tree.apply(ev(Action::Pass, Some("a"), Some("t1"), None, Some(7))).unwrap();
    tree.apply(ev(Action::Skip, Some("a"), None, None, Some(1))).unwrap();
    tree.apply(ev(Action::Pass, Some("a"), None, None, Some(2))).unwrap();
    assert_eq!(tree.packages[0].tests[0].result, Some(TestResult::Fail));
    assert_eq!(tree.packages[0].tests[0].elapsed_ms, Some(5));
    assert_eq!(tree.packages[0].result, Some(TestResult::Skip));
    assert_eq!(tree.packages[0].elapsed_ms, Some(1));
}

#[test]
fn terminal_for_unknown_test_is_dropped() {
    let mut tree = RunTree::new();
    tree.apply(ev(Action::Start, Some("a"), None, None, None)).unwrap();
    assert_eq!(tree.apply(ev(Action::Fail, Some("a"), Some("nope"), None, None)), Ok(false));
    assert_eq!(tree.packages[0].result, None);
}

#[test]
fn events_for_unknown_package_are_dropped() {
    let mut tree = RunTree::new();
    assert_eq!(tree.apply(ev(Action::Run, Some("x"), Some("t"), None, None)), Ok(false));
    assert_eq!(tree.apply(ev(Action::Pass, Some("x"), None, None, None)), Ok(false));
    assert_eq!(tree.apply(ev(Action::Output, Some("x"), None, Some("o"), None)), Ok(false));
    assert!(tree.packages.is_empty());
}

#[test]
fn missing_fields_are_protocol_errors() {
    let mut tree = RunTree::new();
    assert_eq!(tree.apply(ev(Action::Start, None, None, None, None)), Err(ProtocolError::MissingPackage));
    tree.apply(ev(Action::Start, Some("a"), None, None, None)).unwrap();
    assert_eq!(tree.apply(ev(Action::Run, Some("a"), None, None, None)), Err(ProtocolError::MissingTest));
    assert_eq!(tree.apply(ev(Action::Output, Some("a"), None, None, None)), Err(ProtocolError::MissingOutput));
    assert_eq!(tree.apply(ev(Action::Pass, None, None, None, None)), Err(ProtocolError::MissingPackage));
    assert_eq!(tree.packages.len(), 1);
    assert!(tree.packages[0].tests.is_empty());
}

#[test]
fn unknown_entity_wins_over_missing_field() {
    let mut tree = RunTree::new();
    assert_eq!(tree.apply(ev(Action::Run, Some("p"), None, None, None)), Ok(false));
    assert_eq!(tree.apply(ev(Action::Output, Some("p"), None, None, None)), Ok(false));
    tree.apply(ev(Action::Start, Some("p"), None, None, None)).unwrap();
    assert_eq!(tree.apply(ev(Action::Output, Some("p"), Some("t"), None, None)), Ok(false));
    assert_eq!(tree.packages.len(), 1);
    assert!(tree.packages[0].tests.is_empty());
    assert!(tree.packages[0].log.is_empty());
}

#[test]
fn unknown_action_is_ignored() {
    let mut tree = RunTree::new();
    let e = TestEvent { action: parse_action("bench"), package: Some("a".to_string()), test: None, output: None, elapsed_ms: None };
    assert_eq!(tree.apply(e), Ok(false));
    assert!(tree.packages.is_empty());
}

#[test]
fn packages_listed_in_start_order() {
    let mut tree = RunTree::new();
    for name in ["b", "a", "c"] {
        tree.apply(ev(Action::Start, Some(name), None, None, None)).unwrap();
    }
    tree.apply(ev(Action::Run, Some("a"), Some("t"), None, None)).unwrap();
    let items = visible_list_items(&tree, &show_all());
    assert_eq!(
        items,
        vec![ListItem::Package(0), ListItem::Package(1), ListItem::TestCase(1, 0), ListItem::Package(2)]
    );
    let names: Vec<&str> = tree.packages.iter().map(|p| p.name.as_str()).collect();
    assert_eq!(names, vec!["b", "a", "c"]);
}

#[test]
fn filtered_list_is_ordered_sublist() {
    let mut tree = RunTree::new();
    tree.apply(ev(Action::Start, Some("a"), None, None, None)).unwrap();
    tree.apply(ev(Action::Run, Some("a"), Some("t1"), None, None)).unwrap();
    tree.apply(ev(Action::Run, Some("a"), Some("t2"), None, None)).unwrap();
    tree.apply(ev(Action::Run, Some("a"), Some("t3"), None, None)).unwrap();
    tree.apply(ev(Action::Pass, Some("a"), Some("t1"), None, None)).unwrap();
    tree.apply(ev(Action::Fail, Some("a"), Some("t2"), None, None)).unwrap();
    tree.apply(ev(Action::Start, Some("b"), None, None, None)).unwrap();
    tree.apply(ev(Action::Pass, Some("b"), None, None, None)).unwrap();
    let all = visible_list_items(&tree, &show_all());
    let mut f = ResultFilter::new();
    f.toggle(TestResult::Fail);
    let failed = visible_list_items(&tree, &f);
    assert_eq!(failed, vec![ListItem::Package(0), ListItem::TestCase(0, 1), ListItem::TestCase(0, 2)]);
    assert!(failed.len() <= all.len());
    let mut it = all.iter();
    for x in &failed {
        assert!(it.any(|y| y == x));
    }
}

#[test]
fn filter_visibility_rules() {
    let mut f = ResultFilter::new();
    assert!(f.is_visible(Some(TestResult::Skip)));
    assert!(f.is_visible(None));
    f.toggle(TestResult::Pass);
    assert!(f.is_visible(Some(TestResult::Pass)));
    assert!(!f.is_visible(Some(TestResult::Fail)));
    assert!(f.is_visible(None));
    f.toggle(TestResult::Pass);
    assert_eq!(f, ResultFilter::new());
}

#[test]
fn action_names_round_trip() {
    for a in [Action::Start, Action::Run, Action::Output, Action::Pass, Action::Fail, Action::Skip] {
        assert_eq!(parse_action(a.as_str()), Some(a));
    }
    assert_eq!(parse_action("pass"), Some(Action::Pass));
    assert_eq!(parse_action("Pass"), None);
    assert_eq!(parse_action(""), None);
}

#[test]
fn only_terminal_actions_are_results() {
    assert_eq!(TestResult::try_from_action(Action::Fail), Ok(TestResult::Fail));
    assert_eq!(TestResult::try_from_action(Action::Skip), Ok(TestResult::Skip));
    assert_eq!(
        TestResult::try_from_action(Action::Run),
        Err("Action `Run` is not a valid TestResult".to_string())
    );
    assert_eq!(
        TestResult::try_from_action(Action::Start),
        Err("Action `Start` is not a valid TestResult".to_string())
    );
    assert_eq!(
        TestResult::try_from_action(Action::Output),
        Err("Action `Output` is not a valid TestResult".to_string())
    );
}
