use vstd::prelude::*;
use vstd::utf8::encode_utf8;

verus! {

/// One occurrence of the query: its line and its byte range `start..end` in that line.
#[derive(Debug, Clone, Copy, PartialEq, Eq, Structural)]
pub struct Match {
    pub line: usize,
    pub start: usize,
    pub end: usize,
}

/// The occurrences of `q` in `s` that start at or after `i`, found left to right;
/// after an occurrence the scan goes on at its end, so none overlap.
pub open spec fn matches_in_line(s: Seq<u8>, q: Seq<u8>, line: int, i: int) -> Seq<Match>
    decreases s.len() - i,
{
    if q.len() == 0 || i < 0 || i + q.len() > s.len() {
        Seq::empty()
    } else if s.subrange(i, i + q.len()) == q {
        seq![Match { line: line as usize, start: i as usize, end: (i + q.len()) as usize }]
            + matches_in_line(s, q, line, i + q.len())
    } else {
        matches_in_line(s, q, line, i + 1)
    }
}

/// The occurrences of `q` in line `l`, with byte offsets into its UTF-8 encoding.
pub open spec fn line_matches(lines: Seq<Seq<char>>, q: Seq<char>, l: int) -> Seq<Match> {
    matches_in_line(encode_utf8(lines[l]), encode_utf8(q), l, 0)
}

/// The occurrences of `q` in the first `n` lines, by line and then by offset.
pub open spec fn matches_upto(lines: Seq<Seq<char>>, q: Seq<char>, n: int) -> Seq<Match>
    decreases n,
{
    if n <= 0 {
        Seq::empty()
    } else {
        matches_upto(lines, q, n - 1) + line_matches(lines, q, n - 1)
    }
}

pub open spec fn all_matches(lines: Seq<Seq<char>>, q: Seq<char>) -> Seq<Match> {
    matches_upto(lines, q, lines.len() as int)
}

/// An empty query has no occurrences.
pub proof fn lemma_empty_query_has_no_matches(lines: Seq<Seq<char>>, n: int)
    requires
        0 <= n <= lines.len(),
    ensures
        matches_upto(lines, Seq::empty(), n) == Seq::<Match>::empty(),
    decreases n,
{
    assert(encode_utf8(Seq::<char>::empty()).len() == 0);
    if n > 0 {
        lemma_empty_query_has_no_matches(lines, n - 1);
        assert(matches_upto(lines, Seq::empty(), n) =~= Seq::<Match>::empty());
    }
}

proof fn lemma_line_matches_on_line(s: Seq<u8>, q: Seq<u8>, line: int, i: int)
    requires
        0 <= line <= usize::MAX,
    ensures
        forall|k: int| 0 <= k < matches_in_line(s, q, line, i).len()
            ==> matches_in_line(s, q, line, i)[k].line == line,
    decreases s.len() - i,
{
    if q.len() == 0 || i < 0 || i + q.len() > s.len() {
    } else if s.subrange(i, i + q.len()) == q {
        lemma_line_matches_on_line(s, q, line, i + q.len());
        let rest = matches_in_line(s, q, line, i + q.len());
        let all = matches_in_line(s, q, line, i);
        assert(all[0].line == line);
        assert forall|k: int| 0 <= k < all.len() implies all[k].line == line by {
            if k > 0 {
                assert(all[k] == rest[k - 1]);
            }
        }
    } else {
        lemma_line_matches_on_line(s, q, line, i + 1);
        assert(matches_in_line(s, q, line, i) == matches_in_line(s, q, line, i + 1));
    }
}

/// Every match lies on one of the lines searched.
pub proof fn lemma_match_line_in_range(lines: Seq<Seq<char>>, q: Seq<char>, k: int)
    requires
        0 <= k < all_matches(lines, q).len(),
        lines.len() <= usize::MAX,
    ensures
        all_matches(lines, q)[k].line < lines.len(),
{
    lemma_matches_upto_lines(lines, q, lines.len() as int);
}

proof fn lemma_matches_upto_lines(lines: Seq<Seq<char>>, q: Seq<char>, n: int)
    requires
        0 <= n <= lines.len(),
        lines.len() <= usize::MAX,
    ensures
        forall|k: int| 0 <= k < matches_upto(lines, q, n).len() ==> matches_upto(lines, q, n)[k].line < n,
    decreases n,
{
    if n > 0 {
        lemma_matches_upto_lines(lines, q, n - 1);
        lemma_line_matches_on_line(encode_utf8(lines[n - 1]), encode_utf8(q), n - 1, 0);
        let a = matches_upto(lines, q, n - 1);
        let b = line_matches(lines, q, n - 1);
        assert forall|k: int| 0 <= k < matches_upto(lines, q, n).len() implies matches_upto(lines, q, n)[k].line < n by {
            if k < a.len() {
                assert(matches_upto(lines, q, n)[k] == a[k]);
            } else {
                assert(matches_upto(lines, q, n)[k] == b[k - a.len()]);
            }
        }
    }
}

proof fn lemma_no_matches_before(lines: Seq<Seq<char>>, q: Seq<char>, n: int)
    requires
        0 <= n <= lines.len(),
        forall|m: int| 0 <= m < n ==> #[trigger] line_matches(lines, q, m).len() == 0,
    ensures
        matches_upto(lines, q, n).len() == 0,
    decreases n,
{
    if n > 0 {
        lemma_no_matches_before(lines, q, n - 1);
        assert(line_matches(lines, q, n - 1).len() == 0);
    }
}

proof fn lemma_first_stays_first(lines: Seq<Seq<char>>, q: Seq<char>, l: int, n: int)
    requires
        0 <= l < n <= lines.len(),
        matches_upto(lines, q, l + 1).len() > 0,
    ensures
        matches_upto(lines, q, n).len() > 0,
        matches_upto(lines, q, n)[0] == matches_upto(lines, q, l + 1)[0],
    decreases n,
{
    if n > l + 1 {
        lemma_first_stays_first(lines, q, l, n - 1);
    }
}

/// When line `l` is the first line where the query occurs, the first match, the one
/// that a new search puts in focus, is on line `l`.
pub proof fn lemma_first_match_is_on_first_line(lines: Seq<Seq<char>>, q: Seq<char>, l: int)
    requires
        lines.len() <= usize::MAX,
        0 <= l < lines.len(),
        line_matches(lines, q, l).len() > 0,
        forall|m: int| 0 <= m < l ==> #[trigger] line_matches(lines, q, m).len() == 0,
    ensures
        search_for(lines, q).current == Some(0usize),
        search_for(lines, q).matches[0].line == l,
{
    lemma_no_matches_before(lines, q, l);
    lemma_line_matches_on_line(encode_utf8(lines[l]), encode_utf8(q), l, 0);
    let a = matches_upto(lines, q, l);
    let b = line_matches(lines, q, l);
    assert(matches_upto(lines, q, l + 1) =~= a + b);
    assert(matches_upto(lines, q, l + 1)[0] == b[0]);
    lemma_first_stays_first(lines, q, l, lines.len() as int);
}

/// From the first match, stepping to the next match and back returns to the first.
pub proof fn lemma_next_then_prev_returns_to_first(s: SearchModel)
    requires
        s.current == Some(0usize),
    ensures
        step_prev(step_next(s)) == s,
{
}

/// Whether `q` occurs at byte `i` of `s`.
fn occurs_at(s: &[u8], q: &[u8], i: usize) -> (r: bool)
    requires
        i + q@.len() <= s@.len(),
        s@.len() <= usize::MAX,
    ensures
        r == (s@.subrange(i as int, i + q@.len()) == q@),
{
    let mut j: usize = 0;
    while j < q.len()
        invariant
            0 <= j <= q@.len(),
            i + q@.len() <= s@.len(),
            s@.len() <= usize::MAX,
            forall|k: int| 0 <= k < j ==> s@[i + k] == q@[k],
        decreases q@.len() - j,
    {
        if s[i + j] != q[j] {
            assert(s@.subrange(i as int, i + q@.len())[j as int] != q@[j as int]);
            return false;
        }
        j = j + 1;
    }
    assert(s@.subrange(i as int, i + q@.len()) =~= q@);
    true
}

/// Appends to `out` the occurrences of `q` in the bytes `s` of line `line`.
fn push_line_matches(s: &[u8], q: &[u8], line: usize, out: &mut Vec<Match>)
    ensures
        final(out)@ == old(out)@ + matches_in_line(s@, q@, line as int, 0),
{
    if q.len() == 0 || q.len() > s.len() {
        return;
    }
    let last = s.len() - q.len();
    let mut i: usize = 0;
    while i <= last
        invariant
            0 < q@.len() <= s@.len(),
            s@.len() <= usize::MAX,
            last == s@.len() - q@.len(),
            old(out)@ + matches_in_line(s@, q@, line as int, 0) == out@ + matches_in_line(s@, q@, line as int, i as int),
        decreases s@.len() + 1 - i,
    {
        if occurs_at(s, q, i) {
            out.push(Match { line, start: i, end: i + q.len() });
            i = i + q.len();
        } else {
            i = i + 1;
        }
    }
}

/// Every occurrence of `query` in `lines`, ordered by line and then by offset.
/// An empty query has no occurrences.
pub fn find_matches(lines: &Vec<String>, query: &String) -> (r: Vec<Match>)
    ensures
        r@ == all_matches(lines@.map_values(|s: String| s@), query@),
{
    let ghost ls = lines@.map_values(|s: String| s@);
    let q = query.as_str().as_bytes();
    let mut out: Vec<Match> = Vec::new();
    let mut l: usize = 0;
    while l < lines.len()
        invariant
            0 <= l <= lines@.len(),
            ls == lines@.map_values(|s: String| s@),
            q@ == encode_utf8(query@),
            out@ == matches_upto(ls, query@, l as int),
        decreases lines@.len() - l,
    {
        let s = lines[l].as_str().as_bytes();
        assert(s@ == encode_utf8(ls[l as int]));
        push_line_matches(s, q, l, &mut out);
        l = l + 1;
    }
    out
}

/// Relies on `String::push`: the character goes at the end of the string.
#[verifier::external_body]
fn push_char_to(s: &mut String, c: char)
    ensures
        final(s)@ == old(s)@.push(c),
{
    s.push(c)
}

/// Relies on `String::pop`: the last character is removed and returned, `None` on an empty string.
#[verifier::external_body]
fn pop_char_from(s: &mut String) -> (r: Option<char>)
    ensures
        old(s)@.len() == 0 ==> r is None && final(s)@ == old(s)@,
        old(s)@.len() > 0 ==> r == Some(old(s)@.last()) && final(s)@ == old(s)@.drop_last(),
{
    s.pop()
}

/// The match after `i`, or `i` itself at the last match.
pub open spec fn next_index(i: int, n: int) -> int {
    if i + 1 < n { i + 1 } else { i }
}

/// The match before `i`, or the first match.
pub open spec fn prev_index(i: int) -> int {
    if i > 0 { i - 1 } else { 0 }
}

/// A query over a fixed set of log lines, with all its occurrences and the one in focus.
#[derive(Debug)]
pub struct SearchState {
    query: String,
    matches: Vec<Match>,
    current: Option<usize>,
}

pub struct SearchModel {
    pub query: Seq<char>,
    pub matches: Seq<Match>,
    pub current: Option<usize>,
}

impl View for SearchState {
    type V = SearchModel;

    closed spec fn view(&self) -> SearchModel {
        SearchModel { query: self.query@, matches: self.matches@, current: self.current }
    }
}

/// The search for `q`: all its occurrences, in focus the first one if there is one.
pub open spec fn search_for(lines: Seq<Seq<char>>, q: Seq<char>) -> SearchModel {
    let ms = all_matches(lines, q);
    SearchModel { query: q, matches: ms, current: if ms.len() > 0 { Some(0usize) } else { None } }
}

pub open spec fn step_next(s: SearchModel) -> SearchModel {
    match s.current {
        Some(i) => SearchModel { current: Some(next_index(i as int, s.matches.len() as int) as usize), ..s },
        None => s,
    }
}

pub open spec fn step_prev(s: SearchModel) -> SearchModel {
    match s.current {
        Some(i) => SearchModel { current: Some(prev_index(i as int) as usize), ..s },
        None => s,
    }
}

impl SearchState {
    pub open spec fn wf(&self, lines: Seq<Seq<char>>) -> bool {
        &&& self@.matches == all_matches(lines, self@.query)
        &&& (self@.current is None <==> self@.matches.len() == 0)
        &&& (self@.current matches Some(i) ==> i < self@.matches.len())
    }

    /// An empty query, with no occurrences.
    pub fn new() -> (r: SearchState)
        ensures
            r@.query == Seq::<char>::empty(),
            r@.matches == Seq::<Match>::empty(),
            r@.current is None,
    {
        SearchState { query: String::new(), matches: Vec::new(), current: None }
    }

    pub fn query(&self) -> (r: &String)
        ensures
            r@ == self@.query,
    {
        &self.query
    }

    pub fn matches(&self) -> (r: &Vec<Match>)
        ensures
            r@ == self@.matches,
    {
        &self.matches
    }

    pub fn current(&self) -> (r: Option<usize>)
        ensures
            r == self@.current,
    {
        self.current
    }

    fn recompute(&mut self, lines: &Vec<String>)
        ensures
            final(self)@ == search_for(lines@.map_values(|s: String| s@), old(self)@.query),
    {
        self.matches = find_matches(lines, &self.query);
        if self.matches.len() > 0 {
            self.current = Some(0);
        } else {
            self.current = None;
        }
    }

    /// Adds `c` to the end of the query and finds its occurrences anew.
    pub fn push_char(&mut self, lines: &Vec<String>, c: char)
        ensures
            final(self)@ == search_for(lines@.map_values(|s: String| s@), old(self)@.query.push(c)),
    {
        push_char_to(&mut self.query, c);
        self.recompute(lines);
    }

    /// Takes the last character off the query, if any, and finds its occurrences anew.
    pub fn pop_char(&mut self, lines: &Vec<String>)
        ensures
            final(self)@ == search_for(
                lines@.map_values(|s: String| s@),
                if old(self)@.query.len() > 0 { old(self)@.query.drop_last() } else { old(self)@.query },
            ),
    {
        let _ = pop_char_from(&mut self.query);
        self.recompute(lines);
    }

    /// Moves the focus to the next occurrence, staying at the last one.
    pub fn next_match(&mut self)
        requires
            old(self)@.current matches Some(i) ==> i < old(self)@.matches.len(),
        ensures
            final(self)@ == step_next(old(self)@),
    {
        let n = self.matches.len();
        if let Some(i) = self.current {
            if i + 1 < n {
                self.current = Some(i + 1);
            }
        }
    }

    /// Moves the focus to the previous occurrence, staying at the first one.
    pub fn prev_match(&mut self)
        ensures
            final(self)@ == step_prev(old(self)@),
    {
        if let Some(i) = self.current {
            if i > 0 {
                self.current = Some(i - 1);
            }
        }
    }
}

} // verus!
