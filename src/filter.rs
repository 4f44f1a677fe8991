//! Selection of tests by a regular expression over their names.

use vstd::prelude::*;

use crate::testcase::{distinct_tests, sorted_by_name, TestCase};

verus! {

#[verifier::external_type_specification]
#[verifier::external_body]
pub struct ExRegex(regex::Regex);

#[verifier::external_type_specification]
#[verifier::external_body]
pub struct ExRegexError(regex::Error);

/// Whether regex accepts `pattern` as a regular expression.
pub uninterp spec fn is_valid_regex(pattern: Seq<char>) -> bool;

/// Whether the regular expression `pattern` matches somewhere in `haystack`.
pub uninterp spec fn regex_matches(pattern: Seq<char>, haystack: Seq<char>) -> bool;

/// Relies on regex's `Regex::new`: compiles the pattern, or fails on a pattern
/// that is not valid; which patterns are valid depends on the pattern alone.
/// The filter records the pattern that its expression was compiled from.
#[verifier::external_body]
fn compile_filter(pattern: &str) -> (r: Result<TestFilter, regex::Error>)
    ensures
        r is Ok <==> is_valid_regex(pattern@),
        r is Ok ==> r->Ok_0.pattern() == pattern@,
{
    match regex::Regex::new(pattern) {
        Ok(re) => Ok(TestFilter { re, pattern: Ghost(pattern@) }),
        Err(e) => Err(e),
    }
}

/// Relies on regex's `Regex::is_match`: whether the filter's expression,
/// compiled from `f.pattern()` by `compile_filter`, matches somewhere in
/// `name`; the answer depends on the pattern and the name alone.
#[verifier::external_body]
fn regex_is_match(f: &TestFilter, name: &str) -> (r: bool)
    ensures
        r == regex_matches(f.pattern(), name@),
{
    f.re.is_match(name)
}

/// Why a name filter could not be made.
#[derive(Clone, Copy, Debug, PartialEq, Eq, Structural)]
pub enum FilterError {
    /// The pattern is not a valid regular expression.
    InvalidPattern,
}

/// A compiled name pattern, with the pattern it was compiled from.
pub struct TestFilter {
    re: regex::Regex,
    pattern: Ghost<Seq<char>>,
}

impl TestFilter {
    /// The pattern that the expression was compiled from.
    pub closed spec fn pattern(&self) -> Seq<char> {
        self.pattern@
    }

    /// Compiles `pattern`; an invalid one gives `FilterError::InvalidPattern`.
    pub fn new(pattern: &str) -> (r: Result<TestFilter, FilterError>)
        ensures
            r is Ok <==> is_valid_regex(pattern@),
            r is Ok ==> r->Ok_0.pattern() == pattern@,
    {
        match compile_filter(pattern) {
            Ok(f) => Ok(f),
            Err(_) => Err(FilterError::InvalidPattern),
        }
    }

    /// Whether the pattern matches somewhere in `name`.
    pub fn is_match(&self, name: &str) -> (r: bool)
        ensures
            r == regex_matches(self.pattern(), name@),
    {
        regex_is_match(self, name)
    }
}

/// For each test, whether `pattern` matches its name.
pub open spec fn match_flags(pattern: Seq<char>, s: Seq<TestCase>) -> Seq<bool> {
    Seq::new(s.len(), |i: int| regex_matches(pattern, s[i].name@))
}

/// The tests whose flag in `keep` is set, in their order.
pub open spec fn selected(s: Seq<TestCase>, keep: Seq<bool>) -> Seq<TestCase>
    decreases s.len(),
{
    if s.len() == 0 || keep.len() == 0 {
        Seq::empty()
    } else {
        selected(s.drop_last(), keep.drop_last()) + if keep.last() {
            seq![s.last()]
        } else {
            Seq::empty()
        }
    }
}

/// Each selected test is one of the tests selected from, with its flag set.
pub proof fn lemma_selected_member(s: Seq<TestCase>, keep: Seq<bool>, j: int)
    requires
        s.len() == keep.len(),
        0 <= j < selected(s, keep).len(),
    ensures
        exists|k: int| 0 <= k < s.len() && keep[k] && #[trigger] s[k] == selected(s, keep)[j],
    decreases s.len(),
{
    let p = s.drop_last();
    let kp = keep.drop_last();
    let prev = selected(p, kp);
    let sel = selected(s, keep);
    if j < prev.len() {
        lemma_selected_member(p, kp, j);
        assert(sel[j] == prev[j]);
        let k = choose|k: int| 0 <= k < p.len() && kp[k] && #[trigger] p[k] == prev[j];
        assert(s[k] == p[k] && keep[k] == kp[k]);
    } else {
        assert(keep.last());
        assert(sel[j] == s[s.len() - 1]);
    }
}

/// Each test whose flag is set is selected.
pub proof fn lemma_selected_includes(s: Seq<TestCase>, keep: Seq<bool>, k: int)
    requires
        s.len() == keep.len(),
        0 <= k < s.len(),
        keep[k],
    ensures
        selected(s, keep).contains(s[k]),
    decreases s.len(),
{
    let p = s.drop_last();
    let kp = keep.drop_last();
    let prev = selected(p, kp);
    let sel = selected(s, keep);
    if k == s.len() - 1 {
        assert(sel[sel.len() - 1] == s[k]);
    } else {
        lemma_selected_includes(p, kp, k);
        assert(p[k] == s[k]);
        let idx = choose|idx: int| 0 <= idx < prev.len() && prev[idx] == p[k];
        assert(sel[idx] == prev[idx]);
    }
}

/// A selection from distinct tests holds each of them at most once.
pub proof fn lemma_selected_distinct(s: Seq<TestCase>, keep: Seq<bool>)
    requires
        distinct_tests(s),
        s.len() == keep.len(),
    ensures
        distinct_tests(selected(s, keep)),
    decreases s.len(),
{
    if s.len() > 0 {
        let p = s.drop_last();
        let kp = keep.drop_last();
        let prev = selected(p, kp);
        let sel = selected(s, keep);
        assert(distinct_tests(p)) by {
            assert forall|i: int, j: int| 0 <= i < j < p.len() implies #[trigger] p[i]@
                != #[trigger] p[j]@ by {
                assert(p[i] == s[i] && p[j] == s[j]);
            }
        }
        lemma_selected_distinct(p, kp);
        if keep.last() {
            assert forall|i: int, j: int| 0 <= i < j < sel.len() implies #[trigger] sel[i]@
                != #[trigger] sel[j]@ by {
                assert(sel[i] == prev[i]);
                if j == prev.len() {
                    lemma_selected_member(p, kp, i);
                    let k = choose|k: int| 0 <= k < p.len() && kp[k] && #[trigger] p[k] == prev[i];
                    assert(s[k] == prev[i]);
                    assert(sel[j] == s[s.len() - 1]);
                } else {
                    assert(sel[j] == prev[j]);
                }
            }
        } else {
            assert(sel =~= prev);
        }
    }
}

/// A selection from tests in ascending order of name is in that order too.
pub proof fn lemma_selected_sorted(s: Seq<TestCase>, keep: Seq<bool>)
    requires
        sorted_by_name(s),
        s.len() == keep.len(),
    ensures
        sorted_by_name(selected(s, keep)),
    decreases s.len(),
{
    if s.len() > 0 && keep.len() > 0 {
        let p = s.drop_last();
        let prev = selected(p, keep.drop_last());
        assert(sorted_by_name(p)) by {
            assert forall|i: int, j: int| 0 <= i < j < p.len() implies crate::testcase::name_le(
                #[trigger] p[i].name@,
                #[trigger] p[j].name@,
            ) by {
                assert(p[i] == s[i] && p[j] == s[j]);
            }
        }
        lemma_selected_sorted(p, keep.drop_last());
        let sel = selected(s, keep);
        if keep.last() {
            assert forall|i: int, j: int| 0 <= i < j < sel.len() implies crate::testcase::name_le(
                #[trigger] sel[i].name@,
                #[trigger] sel[j].name@,
            ) by {
                assert(sel[i] == prev[i]);
                if j == prev.len() {
                    lemma_selected_member(p, keep.drop_last(), i);
                    let k = choose|k: int| 0 <= k < p.len() && keep.drop_last()[k] && p[k] == prev[i];
                    assert(s[k] == prev[i]);
                    assert(sel[j] == s[s.len() - 1]);
                } else {
                    assert(sel[j] == prev[j]);
                }
            }
        } else {
            assert(sel =~= prev);
        }
    }
}

/// Keeps the tests whose flag is set, in order.
pub fn select_tests(tests: Vec<TestCase>, keep: &Vec<bool>) -> (r: Vec<TestCase>)
    requires
        keep@.len() == tests@.len(),
    ensures
        r@ == selected(tests@, keep@),
{
    let ghost orig = tests@;
    let n = tests.len();
    let mut rest = tests;
    let mut out: Vec<TestCase> = Vec::new();
    let mut i: usize = 0;
    while i < n
        invariant
            n == orig.len(),
            keep@.len() == n,
            i <= n,
            rest@ == orig.skip(i as int),
            out@ == selected(orig.take(i as int), keep@.take(i as int)),
        decreases n - i,
    {
        proof {
            assert(orig.take(i + 1).drop_last() =~= orig.take(i as int));
            assert(keep@.take(i + 1).drop_last() =~= keep@.take(i as int));
        }
        let t = rest.remove(0);
        if keep[i] {
            out.push(t);
        }
        proof {
            assert(rest@ =~= orig.skip(i + 1));
        }
        i = i + 1;
        assert(out@ =~= selected(orig.take(i as int), keep@.take(i as int)));
    }
    proof {
        assert(orig.take(n as int) =~= orig);
        assert(keep@.take(n as int) =~= keep@);
    }
    out
}

/// Keeps, in order, the tests whose names the filter matches.
pub fn filter_tests(tests: Vec<TestCase>, filter: &TestFilter) -> (r: Vec<TestCase>)
    ensures
        r@ == selected(tests@, match_flags(filter.pattern(), tests@)),
        sorted_by_name(tests@) ==> sorted_by_name(r@),
        distinct_tests(tests@) ==> distinct_tests(r@),
{
    let mut keep: Vec<bool> = Vec::new();
    let mut i: usize = 0;
    while i < tests.len()
        invariant
            i <= tests@.len(),
            keep@ == match_flags(filter.pattern(), tests@).take(i as int),
        decreases tests@.len() - i,
    {
        keep.push(filter.is_match(tests[i].name.as_str()));
        i = i + 1;
        assert(keep@ =~= match_flags(filter.pattern(), tests@).take(i as int));
    }
    proof {
        assert(keep@ =~= match_flags(filter.pattern(), tests@));
        if sorted_by_name(tests@) {
            lemma_selected_sorted(tests@, keep@);
        }
        if distinct_tests(tests@) {
            lemma_selected_distinct(tests@, keep@);
        }
    }
    select_tests(tests, &keep)
}

} // verus!
