use vstd::prelude::*;

verus! {

/// What a line of the test runner's event stream reports.
#[derive(Debug, Clone, Copy, PartialEq, Eq, Structural)]
pub enum Action {
    Start,
    Run,
    Output,
    Pass,
    Fail,
    Skip,
}

/// The outcome recorded for a package or a test case.
#[derive(Debug, Clone, Copy, PartialEq, Eq, Structural)]
pub enum TestResult {
    Pass,
    Fail,
    Skip,
}

/// The lowercase name under which an action appears in the stream.
pub open spec fn action_name(a: Action) -> Seq<char> {
    match a {
        Action::Start => "start"@,
        Action::Run => "run"@,
        Action::Output => "output"@,
        Action::Pass => "pass"@,
        Action::Fail => "fail"@,
        Action::Skip => "skip"@,
    }
}

/// The result that a terminal action records; `None` for the other actions.
pub open spec fn result_of(a: Action) -> Option<TestResult> {
    match a {
        Action::Pass => Some(TestResult::Pass),
        Action::Fail => Some(TestResult::Fail),
        Action::Skip => Some(TestResult::Skip),
        _ => None,
    }
}

impl Action {
    /// The lowercase name of this action.
    pub fn as_str(&self) -> (r: &'static str)
        ensures
            r@ == action_name(*self),
    {
        match self {
            Action::Start => "start",
            Action::Run => "run",
            Action::Output => "output",
            Action::Pass => "pass",
            Action::Fail => "fail",
            Action::Skip => "skip",
        }
    }
}

/// Reads the name of an action; a name that is not one of the six gives `None`.
pub fn parse_action(s: &str) -> (r: Option<Action>)
    ensures
        r matches Some(a) ==> action_name(a) == s@,
        r is None ==> forall|a: Action| action_name(a) != s@,
{
    let owned = s.to_owned();
    let names = [Action::Start, Action::Run, Action::Output, Action::Pass, Action::Fail, Action::Skip];
    let mut i: usize = 0;
    while i < 6
        invariant
            0 <= i <= 6,
            names@ == seq![Action::Start, Action::Run, Action::Output, Action::Pass, Action::Fail, Action::Skip],
            owned@ == s@,
            forall|k: int| 0 <= k < i ==> action_name(names@[k]) != s@,
        decreases 6 - i,
    {
        let cand = names[i].as_str().to_owned();
        if cand == owned {
            return Some(names[i]);
        }
        i = i + 1;
    }
    proof {
        assert forall|a: Action| action_name(a) != s@ by {
            match a {
                Action::Start => assert(names@[0] == a),
                Action::Run => assert(names@[1] == a),
                Action::Output => assert(names@[2] == a),
                Action::Pass => assert(names@[3] == a),
                Action::Fail => assert(names@[4] == a),
                Action::Skip => assert(names@[5] == a),
            }
        }
    }
    None
}

/// The name of an action's variant, as it is written in messages.
pub open spec fn variant_name_of(a: Action) -> Seq<char> {
    match a {
        Action::Start => "Start"@,
        Action::Run => "Run"@,
        Action::Output => "Output"@,
        Action::Pass => "Pass"@,
        Action::Fail => "Fail"@,
        Action::Skip => "Skip"@,
    }
}

/// The message that refuses to read a non-terminal action as a result.
pub open spec fn not_a_result_message(a: Action) -> Seq<char> {
    "Action `"@ + variant_name_of(a) + "` is not a valid TestResult"@
}

impl Action {
    /// The name of this action's variant.
    pub fn variant_name(&self) -> (r: &'static str)
        ensures
            r@ == variant_name_of(*self),
    {
        match self {
            Action::Start => "Start",
            Action::Run => "Run",
            Action::Output => "Output",
            Action::Pass => "Pass",
            Action::Fail => "Fail",
            Action::Skip => "Skip",
        }
    }
}

/// Relies on `String::push_str`: the characters of `t` go at the end of the string.
#[verifier::external_body]
fn append_str(s: &mut String, t: &str)
    ensures
        final(s)@ == old(s)@ + t@,
{
    s.push_str(t)
}

impl TestResult {
    /// The result that a terminal action records; any other action gives a message
    /// that names it.
    pub fn try_from_action(value: Action) -> (r: Result<TestResult, String>)
        ensures
            match result_of(value) {
                Some(t) => r == Ok::<TestResult, String>(t),
                None => r matches Err(m) && m@ == not_a_result_message(value),
            },
    {
        match value {
            Action::Pass => Ok(TestResult::Pass),
            Action::Fail => Ok(TestResult::Fail),
            Action::Skip => Ok(TestResult::Skip),
            other => {
                let mut message = "Action `".to_owned();
                append_str(&mut message, other.variant_name());
                append_str(&mut message, "` is not a valid TestResult");
                Err(message)
            },
        }
    }
}

/// An event of the stream whose required fields are missing.
#[derive(Debug, Clone, Copy, PartialEq, Eq, Structural)]
pub enum ProtocolError {
    MissingPackage,
    MissingTest,
    MissingOutput,
}

/// One event of the test runner's stream; `action` is `None` when the stream named
/// an action this library does not know. Elapsed time is in milliseconds.
#[derive(Debug)]
pub struct TestEvent {
    pub action: Option<Action>,
    pub package: Option<String>,
    pub test: Option<String>,
    pub output: Option<String>,
    pub elapsed_ms: Option<u64>,
}

pub struct EventModel {
    pub action: Option<Action>,
    pub package: Option<Seq<char>>,
    pub test: Option<Seq<char>>,
    pub output: Option<Seq<char>>,
    pub elapsed: Option<u64>,
}

pub open spec fn opt_view(o: Option<String>) -> Option<Seq<char>> {
    match o {
        Some(s) => Some(s@),
        None => None,
    }
}

impl View for TestEvent {
    type V = EventModel;

    open spec fn view(&self) -> EventModel {
        EventModel {
            action: self.action,
            package: opt_view(self.package),
            test: opt_view(self.test),
            output: opt_view(self.output),
            elapsed: self.elapsed_ms,
        }
    }
}

/// A key press, as the host delivers it.
#[derive(Debug, Clone, Copy, PartialEq, Eq, Structural)]
pub enum Key {
    Down,
    Up,
    Left,
    Right,
    Enter,
    Esc,
    PageDown,
    PageUp,
    Backspace,
    Char(char),
}

} // verus!
