use vstd::prelude::*;
use crate::model::{Action, EventModel, ProtocolError, TestEvent, TestResult, result_of};

verus! {

/// One test of a package, with its result, its elapsed time in milliseconds and its output.
#[derive(Debug)]
pub struct TestCase {
    pub name: String,
    pub result: Option<TestResult>,
    pub elapsed_ms: Option<u64>,
    pub log: Vec<String>,
}

/// A package of the run: its own result and output, and its tests in the order they ran.
#[derive(Debug)]
pub struct Package {
    pub name: String,
    pub result: Option<TestResult>,
    pub elapsed_ms: Option<u64>,
    pub tests: Vec<TestCase>,
    pub log: Vec<String>,
}

pub struct CaseModel {
    pub name: Seq<char>,
    pub result: Option<TestResult>,
    pub elapsed: Option<u64>,
    pub log: Seq<Seq<char>>,
}

pub struct PackageModel {
    pub name: Seq<char>,
    pub result: Option<TestResult>,
    pub elapsed: Option<u64>,
    pub tests: Seq<CaseModel>,
    pub log: Seq<Seq<char>>,
}

pub open spec fn lines_view(v: Seq<String>) -> Seq<Seq<char>> {
    v.map_values(|s: String| s@)
}

impl View for TestCase {
    type V = CaseModel;

    open spec fn view(&self) -> CaseModel {
        CaseModel {
            name: self.name@,
            result: self.result,
            elapsed: self.elapsed_ms,
            log: lines_view(self.log@),
        }
    }
}

impl View for Package {
    type V = PackageModel;

    open spec fn view(&self) -> PackageModel {
        PackageModel {
            name: self.name@,
            result: self.result,
            elapsed: self.elapsed_ms,
            tests: self.tests@.map_values(|t: TestCase| t@),
            log: lines_view(self.log@),
        }
    }
}

/// The packages of a run, in the order their `Start` events came.
#[derive(Debug)]
pub struct RunTree {
    pub packages: Vec<Package>,
}

impl View for RunTree {
    type V = Seq<PackageModel>;

    open spec fn view(&self) -> Seq<PackageModel> {
        self.packages@.map_values(|p: Package| p@)
    }
}

/// The first package at or after `i` that has the given name.
pub open spec fn find_package(ps: Seq<PackageModel>, name: Seq<char>, i: int) -> Option<int>
    decreases ps.len() - i,
{
    if i < 0 || i >= ps.len() {
        None
    } else if ps[i].name == name {
        Some(i)
    } else {
        find_package(ps, name, i + 1)
    }
}

/// The first test case at or after `i` that has the given name.
pub open spec fn find_case(ts: Seq<CaseModel>, name: Seq<char>, i: int) -> Option<int>
    decreases ts.len() - i,
{
    if i < 0 || i >= ts.len() {
        None
    } else if ts[i].name == name {
        Some(i)
    } else {
        find_case(ts, name, i + 1)
    }
}

pub open spec fn new_package(name: Seq<char>) -> PackageModel {
    PackageModel { name, result: None, elapsed: None, tests: Seq::empty(), log: Seq::empty() }
}

pub open spec fn new_case(name: Seq<char>) -> CaseModel {
    CaseModel { name, result: None, elapsed: None, log: Seq::empty() }
}

/// A terminal event on a case: the first one records its result and time, later ones change nothing.
pub open spec fn finish_case(c: CaseModel, r: TestResult, elapsed: Option<u64>) -> CaseModel {
    if c.result is None {
        CaseModel { result: Some(r), elapsed, ..c }
    } else {
        c
    }
}

pub open spec fn finish_package(p: PackageModel, r: TestResult, elapsed: Option<u64>) -> PackageModel {
    if p.result is None {
        PackageModel { result: Some(r), elapsed, ..p }
    } else {
        p
    }
}

/// The tree after a change to the case at `j` of the package at `k`.
pub open spec fn with_case(ps: Seq<PackageModel>, k: int, j: int, c: CaseModel) -> Seq<PackageModel> {
    ps.update(k, PackageModel { tests: ps[k].tests.update(j, c), ..ps[k] })
}

/// What one event does to the tree: the new tree and whether it named an entity that
/// exists (the view needs drawing again), or the field that the event lacks.
pub open spec fn apply_event(ps: Seq<PackageModel>, ev: EventModel) -> Result<(Seq<PackageModel>, bool), ProtocolError> {
    match ev.action {
        None => Ok((ps, false)),
        Some(action) => match ev.package {
            None => Err(ProtocolError::MissingPackage),
            Some(pname) => match action {
                Action::Start => Ok((ps.push(new_package(pname)), true)),
                Action::Run => match find_package(ps, pname, 0) {
                    None => Ok((ps, false)),
                    Some(k) => match ev.test {
                        None => Err(ProtocolError::MissingTest),
                        Some(tname) => Ok((
                            ps.update(k, PackageModel { tests: ps[k].tests.push(new_case(tname)), ..ps[k] }),
                            true,
                        )),
                    },
                },
                Action::Output => match find_package(ps, pname, 0) {
                    None => Ok((ps, false)),
                    Some(k) => match ev.test {
                        None => match ev.output {
                            None => Err(ProtocolError::MissingOutput),
                            Some(line) => Ok((
                                ps.update(k, PackageModel { log: ps[k].log.push(line), ..ps[k] }),
                                true,
                            )),
                        },
                        Some(tname) => match find_case(ps[k].tests, tname, 0) {
                            None => Ok((ps, false)),
                            Some(j) => match ev.output {
                                None => Err(ProtocolError::MissingOutput),
                                Some(line) => Ok((
                                    with_case(ps, k, j, CaseModel { log: ps[k].tests[j].log.push(line), ..ps[k].tests[j] }),
                                    true,
                                )),
                            },
                        },
                    },
                },
                _ => {
                    let r = result_of(action).unwrap();
                    match find_package(ps, pname, 0) {
                        None => Ok((ps, false)),
                        Some(k) => match ev.test {
                            None => Ok((ps.update(k, finish_package(ps[k], r, ev.elapsed)), true)),
                            Some(tname) => match find_case(ps[k].tests, tname, 0) {
                                None => Ok((ps, false)),
                                Some(j) => Ok((with_case(ps, k, j, finish_case(ps[k].tests[j], r, ev.elapsed)), true)),
                            },
                        },
                    }
                },
            },
        },
    }
}

/// The tree after an event; a refused event leaves it as it was.
pub open spec fn after_event(ps: Seq<PackageModel>, ev: EventModel) -> Seq<PackageModel> {
    match apply_event(ps, ev) {
        Ok((next, _)) => next,
        Err(_) => ps,
    }
}

/// The tree that a stream of events builds from nothing.
pub open spec fn run_events(evs: Seq<EventModel>) -> Seq<PackageModel>
    decreases evs.len(),
{
    if evs.len() == 0 {
        Seq::empty()
    } else {
        after_event(run_events(evs.drop_last()), evs.last())
    }
}

/// The package that an event starts, if it is a `Start` with a name.
pub open spec fn started(ev: EventModel) -> Seq<Seq<char>> {
    if ev.action == Some(Action::Start) && ev.package is Some {
        seq![ev.package.unwrap()]
    } else {
        Seq::empty()
    }
}

/// The names of the packages that a stream starts, in order.
pub open spec fn start_names(evs: Seq<EventModel>) -> Seq<Seq<char>>
    decreases evs.len(),
{
    if evs.len() == 0 {
        Seq::empty()
    } else {
        start_names(evs.drop_last()) + started(evs.last())
    }
}

pub open spec fn package_names(ps: Seq<PackageModel>) -> Seq<Seq<char>> {
    ps.map_values(|p: PackageModel| p.name)
}

proof fn lemma_find_package(ps: Seq<PackageModel>, name: Seq<char>, i: int)
    requires
        0 <= i,
    ensures
        find_package(ps, name, i) matches Some(k) ==> i <= k < ps.len() && ps[k].name == name,
    decreases ps.len() - i,
{
    if i < ps.len() && ps[i].name != name {
        lemma_find_package(ps, name, i + 1);
    }
}

proof fn lemma_event_keeps_names(ps: Seq<PackageModel>, ev: EventModel)
    ensures
        package_names(after_event(ps, ev)) == package_names(ps) + started(ev),
{
    if ev.package is Some {
        lemma_find_package(ps, ev.package.unwrap(), 0);
    }
    assert(package_names(after_event(ps, ev)) =~= package_names(ps) + started(ev));
}

/// The packages of the tree are those that the stream started, one for each named
/// `Start`, in the order of those events.
pub proof fn lemma_packages_follow_starts(evs: Seq<EventModel>)
    ensures
        package_names(run_events(evs)) == start_names(evs),
    decreases evs.len(),
{
    if evs.len() > 0 {
        lemma_packages_follow_starts(evs.drop_last());
        lemma_event_keeps_names(run_events(evs.drop_last()), evs.last());
    }
}

proof fn lemma_find_case(ts: Seq<CaseModel>, name: Seq<char>, i: int)
    requires
        0 <= i,
    ensures
        find_case(ts, name, i) matches Some(j) ==> i <= j < ts.len() && ts[j].name == name,
    decreases ts.len() - i,
{
    if i < ts.len() && ts[i].name != name {
        lemma_find_case(ts, name, i + 1);
    }
}

/// A terminal event for a package (one that names no test) records its result and
/// time only if the package has none yet; once recorded, later terminal events
/// leave the whole tree as it is.
pub proof fn lemma_package_result_first_wins(ps: Seq<PackageModel>, ev: EventModel)
    requires
        ev.action is Some,
        result_of(ev.action.unwrap()) is Some,
        ev.package is Some,
        find_package(ps, ev.package.unwrap(), 0) is Some,
        ev.test is None,
    ensures
        ({
            let k = find_package(ps, ev.package.unwrap(), 0).unwrap();
            let out = apply_event(ps, ev);
            &&& out is Ok
            &&& out->Ok_0.1
            &&& ps[k].result is Some ==> out->Ok_0.0 == ps
            &&& ps[k].result is None ==> out->Ok_0.0[k].result == result_of(ev.action.unwrap())
                && out->Ok_0.0[k].elapsed == ev.elapsed
        }),
{
    let k = find_package(ps, ev.package.unwrap(), 0).unwrap();
    lemma_find_package(ps, ev.package.unwrap(), 0);
    if ps[k].result is Some {
        assert(ps.update(k, ps[k]) =~= ps);
    }
}

/// A terminal event for a test case records its result and time only if the test has
/// none yet; once recorded, later terminal events leave the whole tree as it is.
pub proof fn lemma_case_result_first_wins(ps: Seq<PackageModel>, ev: EventModel)
    requires
        ev.action is Some,
        result_of(ev.action.unwrap()) is Some,
        ev.package is Some,
        find_package(ps, ev.package.unwrap(), 0) is Some,
        ev.test is Some,
        find_case(ps[find_package(ps, ev.package.unwrap(), 0).unwrap()].tests, ev.test.unwrap(), 0) is Some,
    ensures
        ({
            let k = find_package(ps, ev.package.unwrap(), 0).unwrap();
            let j = find_case(ps[k].tests, ev.test.unwrap(), 0).unwrap();
            let out = apply_event(ps, ev);
            &&& out is Ok
            &&& out->Ok_0.1
            &&& ps[k].tests[j].result is Some ==> out->Ok_0.0 == ps
            &&& ps[k].tests[j].result is None ==> out->Ok_0.0[k].tests[j].result == result_of(ev.action.unwrap())
                && out->Ok_0.0[k].tests[j].elapsed == ev.elapsed
        }),
{
    let k = find_package(ps, ev.package.unwrap(), 0).unwrap();
    lemma_find_package(ps, ev.package.unwrap(), 0);
    let j = find_case(ps[k].tests, ev.test.unwrap(), 0).unwrap();
    lemma_find_case(ps[k].tests, ev.test.unwrap(), 0);
    if ps[k].tests[j].result is Some {
        assert(ps[k].tests.update(j, ps[k].tests[j]) =~= ps[k].tests);
        assert(with_case(ps, k, j, ps[k].tests[j]) =~= ps);
    }
}

impl RunTree {
    /// The sizes of a tree held in memory fit a `usize`.
    pub proof fn lemma_fits(&self)
        ensures
            self@.len() <= usize::MAX,
            forall|k: int| 0 <= k < self@.len() ==> #[trigger] self@[k].tests.len() <= usize::MAX,
    {
        assert(self.packages.len() == self.packages@.len());
        assert forall|k: int| 0 <= k < self@.len() implies #[trigger] self@[k].tests.len() <= usize::MAX by {
            assert(self.packages@[k].tests.len() == self.packages@[k].tests@.len());
        }
    }

    /// A tree with no packages.
    pub fn new() -> (r: RunTree)
        ensures
            r@ == Seq::<PackageModel>::empty(),
    {
        RunTree { packages: Vec::new() }
    }

    /// The index of the first package with the given name.
    pub fn position_of_package(&self, name: &String) -> (r: Option<usize>)
        ensures
            r matches Some(k) ==> find_package(self@, name@, 0) == Some(k as int) && k < self@.len(),
            r is None ==> find_package(self@, name@, 0) is None,
    {
        let mut i: usize = 0;
        while i < self.packages.len()
            invariant
                0 <= i <= self.packages@.len(),
                find_package(self@, name@, 0) == find_package(self@, name@, i as int),
            decreases self.packages@.len() - i,
        {
            if self.packages[i].name == *name {
                return Some(i);
            }
            i = i + 1;
        }
        None
    }

    /// Reads one event of the stream into the tree.
    ///
    /// A `Start` adds a package; a `Run` adds a test case to its package; an `Output`
    /// appends a line to the log of the test case, or of the package when the event
    /// names no test; a `Pass`, `Fail` or `Skip` records the result and time of the
    /// test case or package, unless one was recorded before. An event that names a
    /// package or test that does not exist changes nothing and is no failure, whatever
    /// else it lacks. An event that reaches an entity but lacks a field its action
    /// needs (or any event without a package name) is refused and changes nothing. `Ok(true)` says that
    /// the event reached an entity of the tree.
    pub fn apply(&mut self, ev: TestEvent) -> (r: Result<bool, ProtocolError>)
        ensures
            match apply_event(old(self)@, ev@) {
                Ok((ps, dirty)) => r == Ok::<bool, ProtocolError>(dirty) && final(self)@ == ps,
                Err(e) => r == Err::<bool, ProtocolError>(e) && final(self)@ == old(self)@,
            },
    {
        let ghost ps = self@;
        let action = match ev.action {
            None => return Ok(false),
            Some(a) => a,
        };
        let pname = match ev.package {
            None => return Err(ProtocolError::MissingPackage),
            Some(n) => n,
        };
        match action {
            Action::Start => {
                let p = Package {
                    name: pname,
                    result: None,
                    elapsed_ms: None,
                    tests: Vec::new(),
                    log: Vec::new(),
                };
                proof {
                    assert(p@.tests =~= Seq::<CaseModel>::empty());
                    assert(p@.log =~= Seq::<Seq<char>>::empty());
                }
                self.packages.push(p);
                assert(self@ =~= ps.push(new_package(pname@)));
                Ok(true)
            },
            Action::Run => {
                let k = match self.position_of_package(&pname) {
                    None => return Ok(false),
                    Some(k) => k,
                };
                let tname = match ev.test {
                    None => return Err(ProtocolError::MissingTest),
                    Some(t) => t,
                };
                let c = TestCase { name: tname, result: None, elapsed_ms: None, log: Vec::new() };
                assert(c@.log =~= Seq::<Seq<char>>::empty());
                let mut p = self.packages.remove(k);
                let ghost pm = p@;
                p.tests.push(c);
                assert(p@.tests =~= pm.tests.push(new_case(tname@)));
                self.packages.insert(k, p);
                assert(self@ =~= ps.update(k as int, PackageModel { tests: ps[k as int].tests.push(new_case(tname@)), ..ps[k as int] }));
                Ok(true)
            },
            Action::Output => {
                let k = match self.position_of_package(&pname) {
                    None => return Ok(false),
                    Some(k) => k,
                };
                match ev.test {
                    None => {
                        let line = match ev.output {
                            None => return Err(ProtocolError::MissingOutput),
                            Some(l) => l,
                        };
                        let mut p = self.packages.remove(k);
                        let ghost pm = p@;
                        p.log.push(line);
                        assert(p@.log =~= pm.log.push(line@));
                        self.packages.insert(k, p);
                        assert(self@ =~= ps.update(k as int, PackageModel { log: ps[k as int].log.push(line@), ..ps[k as int] }));
                        Ok(true)
                    },
                    Some(tname) => {
                        let j = match position_of_case(&self.packages[k].tests, &tname) {
                            None => return Ok(false),
                            Some(j) => j,
                        };
                        let line = match ev.output {
                            None => return Err(ProtocolError::MissingOutput),
                            Some(l) => l,
                        };
                        let mut p = self.packages.remove(k);
                        let ghost pm = p@;
                        let mut c = p.tests.remove(j);
                        let ghost cm = c@;
                        c.log.push(line);
                        assert(c@.log =~= cm.log.push(line@));
                        p.tests.insert(j, c);
                        assert(p@.tests =~= pm.tests.update(j as int, c@));
                        self.packages.insert(k, p);
                        assert(self@ =~= with_case(ps, k as int, j as int, CaseModel { log: ps[k as int].tests[j as int].log.push(line@), ..ps[k as int].tests[j as int] }));
                        Ok(true)
                    },
                }
            },
            Action::Pass | Action::Fail | Action::Skip => {
                let r = match TestResult::try_from_action(action) {
                    Ok(r) => r,
                    Err(_) => return Ok(false),
                };
                let k = match self.position_of_package(&pname) {
                    None => return Ok(false),
                    Some(k) => k,
                };
                match ev.test {
                    None => {
                        let mut p = self.packages.remove(k);
                        if p.result.is_none() {
                            p.result = Some(r);
                            p.elapsed_ms = ev.elapsed_ms;
                        }
                        self.packages.insert(k, p);
                        assert(self@ =~= ps.update(k as int, finish_package(ps[k as int], r, ev.elapsed_ms)));
                        Ok(true)
                    },
                    Some(tname) => {
                        let j = match position_of_case(&self.packages[k].tests, &tname) {
                            None => return Ok(false),
                            Some(j) => j,
                        };
                        let mut p = self.packages.remove(k);
                        let ghost pm = p@;
                        let mut c = p.tests.remove(j);
                        if c.result.is_none() {
                            c.result = Some(r);
                            c.elapsed_ms = ev.elapsed_ms;
                        }
                        p.tests.insert(j, c);
                        assert(p@.tests =~= pm.tests.update(j as int, c@));
                        self.packages.insert(k, p);
                        assert(self@ =~= with_case(ps, k as int, j as int, finish_case(ps[k as int].tests[j as int], r, ev.elapsed_ms)));
                        Ok(true)
                    },
                }
            },
        }
    }
}

/// The index of the first test case with the given name.
pub fn position_of_case(tests: &Vec<TestCase>, name: &String) -> (r: Option<usize>)
    ensures
        r matches Some(j) ==> find_case(tests@.map_values(|t: TestCase| t@), name@, 0) == Some(j as int)
            && j < tests@.len(),
        r is None ==> find_case(tests@.map_values(|t: TestCase| t@), name@, 0) is None,
{
    let ghost ts = tests@.map_values(|t: TestCase| t@);
    let mut i: usize = 0;
    while i < tests.len()
        invariant
            0 <= i <= tests@.len(),
            ts == tests@.map_values(|t: TestCase| t@),
            find_case(ts, name@, 0) == find_case(ts, name@, i as int),
        decreases tests@.len() - i,
    {
        if tests[i].name == *name {
            return Some(i);
        }
        i = i + 1;
    }
    None
}

} // verus!
