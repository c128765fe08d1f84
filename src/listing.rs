use vstd::prelude::*;
use crate::model::TestResult;
use crate::model::EventModel;
use crate::tree::{CaseModel, PackageModel, RunTree, TestCase, lemma_packages_follow_starts, package_names, run_events, start_names};

verus! {

/// The result kinds that the report shows; with none chosen it shows everything.
#[derive(Debug, Clone, Copy, PartialEq, Eq, Structural)]
pub struct ResultFilter {
    pub pass: bool,
    pub fail: bool,
    pub skip: bool,
}

/// A position in the tree: a package, or a test case of a package.
#[derive(Debug, Clone, Copy, PartialEq, Eq, Structural)]
pub enum ListItem {
    Package(usize),
    TestCase(usize, usize),
}

pub open spec fn filter_off(f: ResultFilter) -> bool {
    !f.pass && !f.fail && !f.skip
}

/// Whether an entity with the given result passes the filter: one with no result yet always does.
pub open spec fn shows(f: ResultFilter, r: Option<TestResult>) -> bool {
    match r {
        None => true,
        Some(TestResult::Pass) => filter_off(f) || f.pass,
        Some(TestResult::Fail) => filter_off(f) || f.fail,
        Some(TestResult::Skip) => filter_off(f) || f.skip,
    }
}

pub open spec fn show_all() -> ResultFilter {
    ResultFilter { pass: false, fail: false, skip: false }
}

pub open spec fn toggled(f: ResultFilter, kind: TestResult) -> ResultFilter {
    match kind {
        TestResult::Pass => ResultFilter { pass: !f.pass, ..f },
        TestResult::Fail => ResultFilter { fail: !f.fail, ..f },
        TestResult::Skip => ResultFilter { skip: !f.skip, ..f },
    }
}

/// The visible test cases among the first `n` of package `k`.
pub open spec fn case_items(ts: Seq<CaseModel>, k: int, f: ResultFilter, n: int) -> Seq<ListItem>
    decreases n,
{
    if n <= 0 {
        Seq::empty()
    } else {
        case_items(ts, k, f, n - 1) + if shows(f, ts[n - 1].result) {
            seq![ListItem::TestCase(k as usize, (n - 1) as usize)]
        } else {
            Seq::empty()
        }
    }
}

/// A visible package followed by its visible test cases; nothing for a hidden package.
pub open spec fn package_items(p: PackageModel, k: int, f: ResultFilter) -> Seq<ListItem> {
    if shows(f, p.result) {
        seq![ListItem::Package(k as usize)] + case_items(p.tests, k, f, p.tests.len() as int)
    } else {
        Seq::empty()
    }
}

/// The list of the first `n` packages, depth first, in the order they were added.
pub open spec fn flatten_upto(ps: Seq<PackageModel>, f: ResultFilter, n: int) -> Seq<ListItem>
    decreases n,
{
    if n <= 0 {
        Seq::empty()
    } else {
        flatten_upto(ps, f, n - 1) + package_items(ps[n - 1], n - 1, f)
    }
}

pub open spec fn flatten(ps: Seq<PackageModel>, f: ResultFilter) -> Seq<ListItem> {
    flatten_upto(ps, f, ps.len() as int)
}

/// Every package count and test count of the tree fits a `usize`.
pub open spec fn fits(ps: Seq<PackageModel>) -> bool {
    &&& ps.len() <= usize::MAX
    &&& forall|k: int| 0 <= k < ps.len() ==> #[trigger] ps[k].tests.len() <= usize::MAX
}

/// Whether an item points at an entity of the tree.
pub open spec fn points_into(ps: Seq<PackageModel>, item: ListItem) -> bool {
    match item {
        ListItem::Package(k) => k < ps.len(),
        ListItem::TestCase(k, j) => k < ps.len() && j < ps[k as int].tests.len(),
    }
}

proof fn lemma_case_items_point_into(ps: Seq<PackageModel>, k: int, f: ResultFilter, n: int)
    requires
        fits(ps),
        0 <= k < ps.len(),
        n <= ps[k].tests.len(),
    ensures
        forall|i: int| 0 <= i < case_items(ps[k].tests, k, f, n).len()
            ==> points_into(ps, #[trigger] case_items(ps[k].tests, k, f, n)[i]),
    decreases n,
{
    if n > 0 {
        lemma_case_items_point_into(ps, k, f, n - 1);
        let a = case_items(ps[k].tests, k, f, n - 1);
        let b = case_items(ps[k].tests, k, f, n);
        assert forall|i: int| 0 <= i < b.len() implies points_into(ps, #[trigger] b[i]) by {
            if i < a.len() {
                assert(b[i] == a[i]);
            }
        }
    }
}

proof fn lemma_flatten_upto_points_into(ps: Seq<PackageModel>, f: ResultFilter, n: int)
    requires
        fits(ps),
        n <= ps.len(),
    ensures
        forall|i: int| 0 <= i < flatten_upto(ps, f, n).len()
            ==> points_into(ps, #[trigger] flatten_upto(ps, f, n)[i]),
    decreases n,
{
    if n > 0 {
        lemma_flatten_upto_points_into(ps, f, n - 1);
        let k = n - 1;
        lemma_case_items_point_into(ps, k, f, ps[k].tests.len() as int);
        let a = flatten_upto(ps, f, n - 1);
        let c = case_items(ps[k].tests, k, f, ps[k].tests.len() as int);
        let b = flatten_upto(ps, f, n);
        assert forall|i: int| 0 <= i < b.len() implies points_into(ps, #[trigger] b[i]) by {
            if i < a.len() {
                assert(b[i] == a[i]);
            } else if i > a.len() {
                assert(b[i] == c[i - a.len() - 1]);
            }
        }
    }
}

/// Every item of the list points at a package or test case of the tree.
pub proof fn lemma_items_point_into(ps: Seq<PackageModel>, f: ResultFilter)
    requires
        fits(ps),
    ensures
        forall|i: int| 0 <= i < flatten(ps, f).len() ==> points_into(ps, #[trigger] flatten(ps, f)[i]),
{
    lemma_flatten_upto_points_into(ps, f, ps.len() as int);
}

/// Whether the filter keeps an item: a package by its result, a test case by its own
/// result and that of its package.
pub open spec fn item_kept(ps: Seq<PackageModel>, f: ResultFilter, item: ListItem) -> bool {
    match item {
        ListItem::Package(k) => shows(f, ps[k as int].result),
        ListItem::TestCase(k, j) => shows(f, ps[k as int].result) && shows(f, ps[k as int].tests[j as int].result),
    }
}

pub open spec fn kept_by(ps: Seq<PackageModel>, f: ResultFilter) -> spec_fn(ListItem) -> bool {
    |item: ListItem| item_kept(ps, f, item)
}

proof fn lemma_case_items_filtered(ps: Seq<PackageModel>, k: int, f: ResultFilter, n: int)
    requires
        fits(ps),
        0 <= k < ps.len(),
        n <= ps[k].tests.len(),
    ensures
        case_items(ps[k].tests, k, show_all(), n).filter(kept_by(ps, f)) == if shows(f, ps[k].result) {
            case_items(ps[k].tests, k, f, n)
        } else {
            Seq::<ListItem>::empty()
        },
    decreases n,
{
    let ts = ps[k].tests;
    let p = kept_by(ps, f);
    if n <= 0 {
        let e = case_items(ts, k, show_all(), n);
        e.lemma_filter_len(p);
        assert(e.filter(p) =~= Seq::<ListItem>::empty());
        assert(case_items(ts, k, f, n) =~= Seq::<ListItem>::empty());
    } else {
        lemma_case_items_filtered(ps, k, f, n - 1);
        let a = case_items(ts, k, show_all(), n - 1);
        let x = ListItem::TestCase(k as usize, (n - 1) as usize);
        assert(case_items(ts, k, show_all(), n) =~= a.push(x));
        a.lemma_filter_push(x, p);
        assert(p(x) == (shows(f, ps[k].result) && shows(f, ts[n - 1].result))) by {
            assert(x->TestCase_0 as int == k);
            assert(x->TestCase_1 as int == n - 1);
        }
    }
}

proof fn lemma_flatten_upto_filtered(ps: Seq<PackageModel>, f: ResultFilter, n: int)
    requires
        fits(ps),
        n <= ps.len(),
    ensures
        flatten_upto(ps, show_all(), n).filter(kept_by(ps, f)) == flatten_upto(ps, f, n),
    decreases n,
{
    let p = kept_by(ps, f);
    if n <= 0 {
        reveal(Seq::filter);
    } else {
        let k = n - 1;
        lemma_flatten_upto_filtered(ps, f, k);
        lemma_case_items_filtered(ps, k, f, ps[k].tests.len() as int);
        let a = flatten_upto(ps, show_all(), k);
        let head = seq![ListItem::Package(k as usize)];
        let cases = case_items(ps[k].tests, k, show_all(), ps[k].tests.len() as int);
        assert(package_items(ps[k], k, show_all()) == head + cases);
        Seq::filter_distributes_over_add(a, head + cases, p);
        Seq::filter_distributes_over_add(head, cases, p);
        assert(head =~= Seq::<ListItem>::empty().push(ListItem::Package(k as usize)));
        Seq::<ListItem>::empty().lemma_filter_push(ListItem::Package(k as usize), p);
        reveal(Seq::filter);
        assert(Seq::<ListItem>::empty().filter(p) =~= Seq::<ListItem>::empty());
        if shows(f, ps[k].result) {
            assert(head.filter(p) =~= head);
            assert(flatten_upto(ps, f, n) =~= flatten_upto(ps, f, k) + (head + case_items(ps[k].tests, k, f, ps[k].tests.len() as int)));
        } else {
            assert(head.filter(p) =~= Seq::<ListItem>::empty());
            assert(flatten_upto(ps, f, n) =~= flatten_upto(ps, f, k));
        }
    }
}

/// A filter only removes rows: the filtered list is the unfiltered one with the rows
/// that the filter hides taken out, the others in the same order, so it is no longer.
pub proof fn lemma_filtered_list_keeps_order(ps: Seq<PackageModel>, f: ResultFilter)
    requires
        fits(ps),
    ensures
        flatten(ps, f) == flatten(ps, show_all()).filter(kept_by(ps, f)),
        flatten(ps, f).len() <= flatten(ps, show_all()).len(),
{
    lemma_flatten_upto_filtered(ps, f, ps.len() as int);
    flatten(ps, show_all()).lemma_filter_len(kept_by(ps, f));
}

/// The packages that a list shows, by position in the tree, in the list's order.
pub open spec fn package_positions(items: Seq<ListItem>) -> Seq<int>
    decreases items.len(),
{
    if items.len() == 0 {
        Seq::empty()
    } else {
        package_positions(items.drop_last()) + match items.last() {
            ListItem::Package(k) => seq![k as int],
            ListItem::TestCase(_, _) => Seq::empty(),
        }
    }
}

proof fn lemma_positions_add(a: Seq<ListItem>, b: Seq<ListItem>)
    ensures
        package_positions(a + b) == package_positions(a) + package_positions(b),
    decreases b.len(),
{
    if b.len() == 0 {
        assert(a + b =~= a);
        assert(package_positions(a) + package_positions(b) =~= package_positions(a));
    } else {
        lemma_positions_add(a, b.drop_last());
        assert((a + b).drop_last() =~= a + b.drop_last());
        assert((a + b).last() == b.last());
    }
}

proof fn lemma_case_items_no_packages(ts: Seq<CaseModel>, k: int, f: ResultFilter, n: int)
    ensures
        package_positions(case_items(ts, k, f, n)) == Seq::<int>::empty(),
    decreases n,
{
    if n > 0 {
        lemma_case_items_no_packages(ts, k, f, n - 1);
        let a = case_items(ts, k, f, n - 1);
        let b = case_items(ts, k, f, n);
        if b.len() > a.len() {
            assert(b.drop_last() =~= a);
            assert(b.last() is TestCase);
            assert(package_positions(b) =~= Seq::<int>::empty());
        } else {
            assert(b =~= a);
        }
    }
}

proof fn lemma_unfiltered_positions(ps: Seq<PackageModel>, n: int)
    requires
        0 <= n <= ps.len(),
        ps.len() <= usize::MAX,
    ensures
        package_positions(flatten_upto(ps, show_all(), n)) == Seq::new(n as nat, |i: int| i),
    decreases n,
{
    if n > 0 {
        let k = n - 1;
        lemma_unfiltered_positions(ps, k);
        let head = seq![ListItem::Package(k as usize)];
        let cases = case_items(ps[k].tests, k, show_all(), ps[k].tests.len() as int);
        lemma_positions_add(flatten_upto(ps, show_all(), k), head + cases);
        lemma_positions_add(head, cases);
        lemma_case_items_no_packages(ps[k].tests, k, show_all(), ps[k].tests.len() as int);
        assert(head.drop_last() =~= Seq::<ListItem>::empty());
        assert(package_positions(Seq::<ListItem>::empty()) == Seq::<int>::empty());
        assert(head.last() == ListItem::Package(k as usize));
        assert(package_positions(head) =~= seq![k]);
        assert(package_positions(flatten_upto(ps, show_all(), n)) =~= Seq::new(n as nat, |i: int| i));
    }
}

/// With no filter, the list shows every package of the tree once, in the tree's order.
pub proof fn lemma_unfiltered_list_shows_every_package(ps: Seq<PackageModel>)
    requires
        ps.len() <= usize::MAX,
    ensures
        package_positions(flatten(ps, show_all())) == Seq::new(ps.len(), |i: int| i),
{
    lemma_unfiltered_positions(ps, ps.len() as int);
}

/// The packages that the unfiltered list shows are those the stream started, one for
/// each named `Start`, in the order of those events.
pub proof fn lemma_list_follows_starts(evs: Seq<EventModel>)
    requires
        start_names(evs).len() <= usize::MAX,
    ensures
        package_positions(flatten(run_events(evs), show_all())).map_values(|k: int| run_events(evs)[k].name)
            == start_names(evs),
{
    let ps = run_events(evs);
    lemma_packages_follow_starts(evs);
    assert(package_names(ps).len() == ps.len());
    lemma_unfiltered_list_shows_every_package(ps);
    assert(package_positions(flatten(ps, show_all())).map_values(|k: int| ps[k].name) =~= package_names(ps));
}

impl ResultFilter {
    /// A filter that shows every result.
    pub fn new() -> (r: ResultFilter)
        ensures
            r == show_all(),
    {
        ResultFilter { pass: false, fail: false, skip: false }
    }

    /// Whether an entity with result `r` is shown.
    pub fn is_visible(&self, r: Option<TestResult>) -> (b: bool)
        ensures
            b == shows(*self, r),
    {
        match r {
            None => true,
            Some(kind) => {
                let off = !self.pass && !self.fail && !self.skip;
                match kind {
                    TestResult::Pass => off || self.pass,
                    TestResult::Fail => off || self.fail,
                    TestResult::Skip => off || self.skip,
                }
            },
        }
    }

    /// Adds `kind` to the shown kinds, or takes it out.
    pub fn toggle(&mut self, kind: TestResult)
        ensures
            *final(self) == toggled(*old(self), kind),
    {
        match kind {
            TestResult::Pass => self.pass = !self.pass,
            TestResult::Fail => self.fail = !self.fail,
            TestResult::Skip => self.skip = !self.skip,
        }
    }
}

/// The list of what the filter lets through: each visible package, then its visible
/// test cases, packages and tests in the order they were added.
pub fn visible_list_items(tree: &RunTree, filter: &ResultFilter) -> (r: Vec<ListItem>)
    ensures
        r@ == flatten(tree@, *filter),
{
    let ghost ps = tree@;
    let mut out: Vec<ListItem> = Vec::new();
    let mut i: usize = 0;
    while i < tree.packages.len()
        invariant
            0 <= i <= tree.packages@.len(),
            ps == tree@,
            out@ == flatten_upto(ps, *filter, i as int),
        decreases tree.packages@.len() - i,
    {
        let p = &tree.packages[i];
        if filter.is_visible(p.result) {
            let ghost start = out@;
            out.push(ListItem::Package(i));
            let ghost ts = p.tests@.map_values(|t: TestCase| t@);
            assert(ts == ps[i as int].tests);
            let mut j: usize = 0;
            while j < p.tests.len()
                invariant
                    0 <= j <= p.tests@.len(),
                    i < tree.packages@.len(),
                    p == tree.packages@[i as int],
                    ts == p.tests@.map_values(|t: TestCase| t@),
                    out@ == start + seq![ListItem::Package(i)] + case_items(ts, i as int, *filter, j as int),
                decreases p.tests@.len() - j,
            {
                if filter.is_visible(p.tests[j].result) {
                    out.push(ListItem::TestCase(i, j));
                }
                proof {
                    assert(ts[j as int].result == p.tests@[j as int].result);
                }
                assert(out@ =~= start + seq![ListItem::Package(i)] + case_items(ts, i as int, *filter, j + 1));
                j = j + 1;
            }
            assert(out@ =~= flatten_upto(ps, *filter, i + 1));
        } else {
            assert(out@ =~= flatten_upto(ps, *filter, i + 1));
        }
        i = i + 1;
    }
    out
}

} // verus!
