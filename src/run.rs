//! What a run does with its arguments: list the tests, or pick the tests to
//! execute on a driver.

use vstd::prelude::*;

use crate::filter::{
    filter_tests, is_valid_regex, lemma_selected_includes, lemma_selected_member, match_flags,
    regex_matches, FilterError, TestFilter,
};
use crate::testcase::{catalog, distinct_tests, sorted_by_name, tests, TestCase, TestKind};

verus! {

/// The two commands of a run.
#[derive(Debug)]
pub enum Arguments {
    /// List all available tests, execute none.
    List { list: () },
    /// Execute the tests whose names `filter` matches (all without one) on the
    /// driver library at path `cuda`.
    Run { filter: Option<String>, cuda: String },
}

/// Whether the command executes the test named `name`.
pub open spec fn runs(args: &Arguments, name: Seq<char>) -> bool {
    match args {
        Arguments::List { .. } => false,
        Arguments::Run { filter: None, .. } => true,
        Arguments::Run { filter: Some(p), .. } => regex_matches(p@, name),
    }
}

/// Whether the registered test `entry` is among `s`.
pub open spec fn holds_test(s: Seq<TestCase>, entry: (Seq<char>, TestKind)) -> bool {
    exists|i: int| 0 <= i < s.len() && #[trigger] s[i]@ == entry
}

/// The tests that a run executes, each once, in ascending order of name: all
/// of them, or those whose names the filter matches. An invalid filter is an error,
/// and then nothing runs. `List` executes nothing.
pub fn selected_tests(args: &Arguments) -> (r: Result<Vec<TestCase>, FilterError>)
    ensures
        match args {
            Arguments::Run { filter: Some(p), .. } => r is Ok <==> is_valid_regex(p@),
            _ => r is Ok,
        },
        r is Ok ==> sorted_by_name(r->Ok_0@),
        r is Ok ==> distinct_tests(r->Ok_0@),
        r is Ok ==> forall|i: int|
            0 <= i < r->Ok_0@.len() ==> catalog().contains(#[trigger] r->Ok_0@[i]@),
        r is Ok ==> forall|k: int|
            #![trigger catalog()[k]]
            0 <= k < catalog().len() ==> (holds_test(r->Ok_0@, catalog()[k]) <==> runs(
                args,
                catalog()[k].0,
            )),
        args is List ==> r is Ok && r->Ok_0@.len() == 0,
        args matches Arguments::Run { filter: None, .. } ==> r is Ok && r->Ok_0@.len()
            == catalog().len(),
{
    match args {
        Arguments::List { .. } => Ok(Vec::new()),
        Arguments::Run { filter, .. } => {
            let all = tests();
            match filter {
                None => Ok(all),
                Some(pattern) => match TestFilter::new(pattern.as_str()) {
                    Ok(f) => {
                        let ghost before = all@;
                        let ghost keep = match_flags(pattern@, before);
                        let kept = filter_tests(all, &f);
                        proof {
                            assert forall|i: int| 0 <= i < kept@.len() implies catalog().contains(
                                #[trigger] kept@[i]@,
                            ) by {
                                lemma_selected_member(before, keep, i);
                                let m = choose|m: int|
                                    0 <= m < before.len() && keep[m] && before[m] == kept@[i];
                                assert(catalog().contains(before[m]@));
                            }
                            assert forall|k: int| #![trigger catalog()[k]] 0 <= k < catalog().len()
                                implies (holds_test(kept@, catalog()[k]) <==> runs(
                                args,
                                catalog()[k].0,
                            )) by {
                                if holds_test(kept@, catalog()[k]) {
                                    let j = choose|j: int|
                                        0 <= j < kept@.len() && #[trigger] kept@[j]@ == catalog()[k];
                                    lemma_selected_member(before, keep, j);
                                    let m = choose|m: int|
                                        0 <= m < before.len() && keep[m] && before[m] == kept@[j];
                                    assert(regex_matches(pattern@, before[m].name@));
                                }
                                if runs(args, catalog()[k].0) {
                                    let i = choose|i: int|
                                        0 <= i < before.len() && #[trigger] before[i]@ == catalog()[k];
                                    assert(keep[i]);
                                    lemma_selected_includes(before, keep, i);
                                    let j = choose|j: int| 0 <= j < kept@.len() && kept@[j] == before[i];
                                    assert(kept@[j]@ == catalog()[k]);
                                }
                            }
                        }
                        Ok(kept)
                    },
                    Err(e) => Err(e),
                },
            }
        },
    }
}

} // verus!
