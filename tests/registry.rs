use ptx_conformance::engine::{failure_count, Outcome, RunState, Scan};
use ptx_conformance::filter::{filter_tests, FilterError, TestFilter};
use ptx_conformance::run::{selected_tests, Arguments};
use ptx_conformance::shift::{Shl, Shr, Signedness};
use ptx_conformance::sin::{Sin, NEG_INFINITY, RANGE_MAX};
use ptx_conformance::testcase::{name_le_exec, sort_by_name, tests, TestCase, TestKind};

fn names(v: &[TestCase]) -> Vec<String> {
    v.iter().map(|t| t.name.clone()).collect()
}

#[test]
fn registry_in_name_order() {
    let all = tests();
    assert_eq!(
        names(&all),
        vec!["shl_b16", "shr_s16", "shr_u16", "sin_approx", "sin_approx_ftz"]
    );
    assert_eq!(all[0].kind, TestKind::Shl(Shl {}));
    assert_eq!(all[1].kind, TestKind::Shr(Shr { sign: Signedness::Signed }));
    assert_eq!(all[4].kind, TestKind::Sin(Sin { ftz: true }));
}

#[test]
fn sort_orders_by_name() {
    let v = vec![
        TestCase::new("b".to_string(), TestKind::Shl(Shl {})),
        TestCase::new("ab".to_string(), TestKind::Shl(Shl {})),
        TestCase::new("a".to_string(), TestKind::Sin(Sin { ftz: false })),
    ];
    assert_eq!(names(&sort_by_name(v)), vec!["a", "ab", "b"]);
    assert!(sort_by_name(vec![]).is_empty());
}

#[test]
fn name_order_is_lexicographic() {
    assert!(name_le_exec("sin_approx", "sin_approx_ftz"));
    assert!(!name_le_exec("sin_approx_ftz", "sin_approx"));
    assert!(name_le_exec("shr_s16", "shr_u16"));
    assert!(name_le_exec("", ""));
    assert!(name_le_exec("same", "same"));
}

#[test]
fn list_selects_nothing() {
    let r = selected_tests(&Arguments::List { list: () }).unwrap();
    assert!(r.is_empty());
}

#[test]
fn run_without_filter_selects_all() {
    let r = selected_tests(&Arguments::Run { filter: None, cuda: "libcuda.so".to_string() }).unwrap();
    assert_eq!(r.len(), 5);
}

#[test]
fn run_filter_selects_matching_names() {
    let args = Arguments::Run { filter: Some("^shr".to_string()), cuda: "libcuda.so".to_string() };
    let r = selected_tests(&args).unwrap();
    assert_eq!(names(&r), vec!["shr_s16", "shr_u16"]);
    let args = Arguments::Run { filter: Some("ftz".to_string()), cuda: String::new() };
    assert_eq!(names(&selected_tests(&args).unwrap()), vec!["sin_approx_ftz"]);
}

#[test]
fn run_invalid_filter_is_rejected() {
    let args = Arguments::Run { filter: Some("(".to_string()), cuda: String::new() };
    assert_eq!(selected_tests(&args).err(), Some(FilterError::InvalidPattern));
}

#[test]
fn kind_generate_and_check() {
    let shl = TestKind::Shl(Shl {});
    assert_eq!(shl.generate(0x0010_1234), 0x0010_1234);
    assert_eq!(shl.check(0x0010_1234, 0), Some(Ok(())));
    assert_eq!(shl.check(0x0004_1234, 0), Some(Err(0x2340)));
    assert_eq!(shl.max_value(), 1u64 << 32);
    let sin = TestKind::Sin(Sin { ftz: false });
    assert_eq!(sin.generate(RANGE_MAX + 1), NEG_INFINITY);
    assert_eq!(sin.check(0x3f80_0000, 0), None);
    assert_eq!(sin.check(0, 0), Some(Ok(())));
}

#[test]
fn failed_build_is_miscompile_without_inputs() {
    let mut scan = Scan::new("bad_template".to_string(), 1u64 << 32);
    scan.built(false);
    assert_eq!(scan.evaluated, 0);
    assert_eq!(scan.next_index(), None);
    match &scan.state {
        RunState::Done(Outcome::Miscompile { name }) => assert_eq!(name, "bad_template"),
        other => panic!("unexpected {:?}", other),
    }
}

#[test]
fn scan_stops_at_first_mismatch() {
    let mut scan = Scan::new("t".to_string(), 10);
    scan.built(true);
    assert_eq!(scan.next_index(), Some(0));
    scan.checked(0, 0, Ok(()));
    assert_eq!(scan.next_index(), Some(1));
    scan.checked(1, 7, Err(9));
    assert_eq!(scan.evaluated, 2);
    assert_eq!(scan.next_index(), None);
    match scan.state {
        RunState::Done(Outcome::Mismatch { input, output, expected }) => {
            assert_eq!((input, output, expected), (1, 7, 9))
        }
        other => panic!("unexpected {:?}", other),
    }
}

#[test]
fn scan_passes_after_last_index() {
    let mut scan = Scan::new("t".to_string(), 2);
    scan.built(true);
    scan.checked(0, 0, Ok(()));
    scan.checked(1, 1, Ok(()));
    assert!(matches!(scan.state, RunState::Done(Outcome::Pass)));
    let mut empty = Scan::new("e".to_string(), 0);
    empty.built(true);
    assert!(matches!(empty.state, RunState::Done(Outcome::Pass)));
}

#[test]
fn failures_count_mismatches_and_miscompiles() {
    let outcomes = vec![
        Outcome::Pass,
        Outcome::Mismatch { input: 1, output: 2, expected: 3 },
        Outcome::Miscompile { name: "x".to_string() },
        Outcome::Pass,
    ];
    assert_eq!(failure_count(&outcomes), 2);
    assert_eq!(failure_count(&vec![]), 0);
}

#[test]
fn check_twice_gives_same_decision() {
    for kind in tests().iter().map(|t| t.kind) {
        for (input, output) in [(0u32, 0u32), (0x0004_1234, 0x2340), (0x3f80_0000, 7), (0xff80_0000, 0)] {
            assert_eq!(kind.check(input, output), kind.check(input, output));
        }
    }
}

#[test]
fn generate_twice_gives_same_input() {
    for kind in tests().iter().map(|t| t.kind) {
        for i in [0u32, 1, 0x3fc9_0fdb, 0x3fc9_0fdc, 0xffff_ffff] {
            assert_eq!(kind.generate(i), kind.generate(i));
        }
    }
}

#[test]
fn filter_matches_anywhere_in_name() {
    let f = TestFilter::new("approx$").unwrap();
    assert!(f.is_match("sin_approx"));
    assert!(!f.is_match("sin_approx_ftz"));
    assert!(TestFilter::new("16").unwrap().is_match("shl_b16"));
    let kept = filter_tests(tests(), &TestFilter::new("s16|approx$").unwrap());
    assert_eq!(names(&kept), vec!["shr_s16", "sin_approx"]);
    assert!(TestFilter::new("[").is_err());
}

#[test]
fn run_filter_matching_nothing_selects_nothing() {
    let args = Arguments::Run { filter: Some("^cos".to_string()), cuda: String::new() };
    assert!(selected_tests(&args).unwrap().is_empty());
}

#[test]
fn selection_lists_each_test_once() {
    let args = Arguments::Run { filter: Some("_".to_string()), cuda: String::new() };
    let mut n = names(&selected_tests(&args).unwrap());
    assert_eq!(n.len(), 5);
    n.dedup();
    assert_eq!(n.len(), 5);
}
