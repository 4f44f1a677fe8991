//! The catalog of opcode tests, in the order in which they run, and the
//! selection of tests by a name pattern.

use vstd::multiset::Multiset;
use vstd::prelude::*;

use crate::shift::{
    lane_shift, lane_value, shift_body, shl_reference, shr_reference, Shl, Shr, Signedness,
};
use crate::sin::{flushed, sin_body, sin_domain, sin_input, sin_special, special_decision, Sin};
use crate::source::{
    arg_names, compiled_source, direct_source, prepare_compiled_source, prepare_direct_source,
    PTX_HEADER,
};

verus! {

/// What a test probes, and so how its inputs are made and checked.
#[derive(Clone, Copy, Debug, PartialEq, Eq, Structural)]
pub enum TestKind {
    Shl(Shl),
    Shr(Shr),
    Sin(Sin),
}

/// Instruction body of a test.
pub open spec fn kind_body(k: TestKind) -> Seq<char> {
    match k {
        TestKind::Shl(_) => shift_body("shl.b16"@),
        TestKind::Shr(t) => shift_body(
            match t.sign {
                Signedness::Unsigned => "shr.u16"@,
                Signedness::Signed => "shr.s16"@,
            },
        ),
        TestKind::Sin(t) => sin_body(
            if t.ftz {
                ".ftz"@
            } else {
                ""@
            },
        ),
    }
}

/// Argument names of a test, in binding order.
pub open spec fn kind_args(k: TestKind) -> Seq<Seq<char>> {
    match k {
        TestKind::Sin(_) => seq!["input_a"@, "output"@],
        _ => seq!["input_a"@, "input_b"@, "output"@],
    }
}

/// Number of scan indices of a test: the whole 32-bit index space, split
/// into two 16-bit lanes, for the shifts.
pub open spec fn domain_size(k: TestKind) -> u64 {
    match k {
        TestKind::Sin(_) => sin_domain(),
        _ => 0x1_0000_0000,
    }
}

/// Input word of scan index `i`: the index itself for the shifts (value in
/// the low lane, amount in the high one), an `f32` bit pattern for the sine.
pub open spec fn kind_input(k: TestKind, i: u32) -> u32 {
    match k {
        TestKind::Sin(_) => sin_input(i),
        _ => i,
    }
}

/// Exact decision on a 16-bit result.
pub open spec fn exact_decision(expected: u16, output: u16) -> Result<(), u32> {
    if output == expected {
        Ok(())
    } else {
        Err(expected as u32)
    }
}

/// The host's reference result of a shift test on an input word.
pub open spec fn shift_reference(k: TestKind, input: u32) -> u16 {
    match k {
        TestKind::Shr(t) => shr_reference(t.sign, lane_value(input), lane_shift(input)),
        _ => shl_reference(lane_value(input), lane_shift(input)),
    }
}

/// Decision on an input word and the device's output word (a 16-bit result
/// in the low bits). `None` leaves the decision to the tolerance rule.
pub open spec fn kind_check(k: TestKind, input: u32, output: u32) -> Option<Result<(), u32>> {
    match k {
        TestKind::Sin(t) => match sin_special(flushed(input, t.ftz)) {
            Some(e) => Some(special_decision(flushed(e, t.ftz), flushed(output, t.ftz))),
            None => None,
        },
        _ => Some(exact_decision(shift_reference(k, input), output as u16)),
    }
}

impl TestKind {
    /// Input word of scan index `index`.
    pub fn generate(&self, index: u32) -> (r: u32)
        ensures
            r == kind_input(*self, index),
    {
        match self {
            TestKind::Sin(t) => t.generate(index),
            _ => index,
        }
    }

    /// Checks the device's output word on an input word, exactly where the
    /// test's rule is exact; `None` where tolerance decides.
    pub fn check(&self, input: u32, output: u32) -> (r: Option<Result<(), u32>>)
        ensures
            r == kind_check(*self, input, output),
    {
        match self {
            TestKind::Shl(t) => {
                let v = t.generate(input);
                match t.host_verify(v, output as u16) {
                    Ok(()) => Some(Ok(())),
                    Err(e) => Some(Err(e as u32)),
                }
            },
            TestKind::Shr(t) => {
                let v = t.generate(input);
                match t.host_verify(v, output as u16) {
                    Ok(()) => Some(Ok(())),
                    Err(e) => Some(Err(e as u32)),
                }
            },
            TestKind::Sin(t) => t.host_verify_special(input, output),
        }
    }

    pub fn ptx(&self) -> (r: String)
        ensures
            r@ == kind_body(*self),
    {
        match self {
            TestKind::Shl(t) => t.ptx(),
            TestKind::Shr(t) => t.ptx(),
            TestKind::Sin(t) => t.ptx(),
        }
    }

    pub fn ptx_args(&self) -> (r: Vec<&'static str>)
        ensures
            arg_names(r@) == kind_args(*self),
    {
        let r = match self {
            TestKind::Shl(t) => t.ptx_args(),
            TestKind::Shr(t) => t.ptx_args(),
            TestKind::Sin(t) => t.ptx_args(),
        };
        assert(arg_names(r@) =~= kind_args(*self));
        r
    }

    pub fn max_value(&self) -> (r: u64)
        ensures
            r == domain_size(*self),
    {
        match self {
            TestKind::Sin(t) => t.max_value(),
            _ => 0x1_0000_0000,
        }
    }
}

/// The enumeration is total and pure: every index of a test's domain has one
/// input word. For the shifts the two lanes of the index give back the index,
/// so each (value, amount) pair is probed exactly once; for the sine the
/// continuous range is the bit patterns themselves.
pub proof fn lemma_enumeration_total(k: TestKind, i: u32)
    requires
        (i as u64) < domain_size(k),
    ensures
        !(k is Sin) ==> kind_input(k, i) == i && ((lane_shift(i) as u32) << 16u32 | lane_value(i) as u32) == i,
        k is Sin && i <= crate::sin::RANGE_MAX ==> kind_input(k, i) == i,
{
    assert(((((i >> 16u32) as u16) as u32) << 16u32 | ((i & 0xffffu32) as u16) as u32) == i) by (bit_vector);
}

/// Every (value, amount) pair of a shift test is the input of the index
/// whose high lane is the amount and low lane the value.
pub proof fn lemma_shift_pairs_covered(value: u16, shift: u16)
    ensures
        lane_value((shift as u32) << 16u32 | value as u32) == value,
        lane_shift((shift as u32) << 16u32 | value as u32) == shift,
{
    assert((((shift as u32) << 16u32 | value as u32) & 0xffffu32) as u16 == value) by (bit_vector);
    assert((((shift as u32) << 16u32 | value as u32) >> 16u32) as u16 == shift) by (bit_vector);
}

/// The decision depends on the test, the input and the output alone: two
/// checks of the same pair decide alike.
pub proof fn lemma_check_pure(
    k: TestKind,
    input: u32,
    output: u32,
    first: Option<Result<(), u32>>,
    second: Option<Result<(), u32>>,
)
    requires
        first == kind_check(k, input, output),
        second == kind_check(k, input, output),
    ensures
        first == second,
{
}

/// The shift tests have zero tolerance: an output is accepted exactly when it
/// equals the host's reference bit for bit, and a rejection carries that
/// reference.
pub proof fn lemma_shift_check_exact(k: TestKind, input: u32, output: u16)
    requires
        !(k is Sin),
    ensures
        kind_check(k, input, output as u32) == Some(Ok::<(), u32>(())) <==> output == shift_reference(k, input),
        output != shift_reference(k, input) ==> kind_check(k, input, output as u32) == Some(
            Err::<(), u32>(shift_reference(k, input) as u32),
        ),
{
    assert((output as u32) as u16 == output);
}

/// Which front end turns a generated program into a device module.
#[derive(Clone, Copy, Debug, PartialEq, Eq, Structural)]
pub enum Backend {
    /// PTX handed to the driver's own loader.
    Direct,
    /// CUDA with inline PTX, compiled by the runtime compiler first.
    Compiled,
}

/// The complete program of a test under a backend.
pub open spec fn test_source(backend: Backend, k: TestKind) -> Seq<char> {
    match backend {
        Backend::Direct => direct_source(PTX_HEADER@, kind_args(k), kind_body(k)),
        Backend::Compiled => compiled_source(kind_args(k), kind_body(k)),
    }
}

/// The backend that the tests of a run go through.
#[derive(Clone, Copy, Debug, PartialEq, Eq, Structural)]
pub struct TestFixture {
    pub backend: Backend,
}

impl TestFixture {
    /// The program that probes the test's opcode, in the backend's convention.
    pub fn prepare_test_source(&self, kind: &TestKind) -> (r: String)
        ensures
            r@ == test_source(self.backend, *kind),
    {
        let args = kind.ptx_args();
        let body = kind.ptx();
        match self.backend {
            Backend::Direct => prepare_direct_source(PTX_HEADER, &args, body.as_str()),
            Backend::Compiled => prepare_compiled_source(&args, body.as_str()),
        }
    }
}

/// One registered test: its name and what it probes.
#[derive(Clone, Debug)]
pub struct TestCase {
    pub name: String,
    pub kind: TestKind,
}

impl View for TestCase {
    type V = (Seq<char>, TestKind);

    open spec fn view(&self) -> (Seq<char>, TestKind) {
        (self.name@, self.kind)
    }
}

impl TestCase {
    pub fn new(name: String, kind: TestKind) -> (r: TestCase)
        ensures
            r.name@ == name@,
            r.kind == kind,
    {
        TestCase { name, kind }
    }
}

/// Lexicographic order of names, by character.
pub open spec fn name_le(a: Seq<char>, b: Seq<char>) -> bool
    decreases a.len(),
{
    if a.len() == 0 {
        true
    } else if b.len() == 0 {
        false
    } else if a[0] as u32 != b[0] as u32 {
        (a[0] as u32) < (b[0] as u32)
    } else {
        name_le(a.drop_first(), b.drop_first())
    }
}

/// No test appears twice.
pub open spec fn distinct_tests(s: Seq<TestCase>) -> bool {
    forall|i: int, j: int| 0 <= i < j < s.len() ==> #[trigger] s[i]@ != #[trigger] s[j]@
}

/// Test names in ascending order.
pub open spec fn sorted_by_name(s: Seq<TestCase>) -> bool {
    forall|i: int, j: int| 0 <= i < j < s.len() ==> name_le(#[trigger] s[i].name@, #[trigger] s[j].name@)
}

proof fn lemma_name_le_total(a: Seq<char>, b: Seq<char>)
    ensures
        name_le(a, b) || name_le(b, a),
    decreases a.len(),
{
    if a.len() > 0 && b.len() > 0 && a[0] as u32 == b[0] as u32 {
        lemma_name_le_total(a.drop_first(), b.drop_first());
    }
}

proof fn lemma_name_le_reflexive(a: Seq<char>)
    ensures
        name_le(a, a),
    decreases a.len(),
{
    if a.len() > 0 {
        lemma_name_le_reflexive(a.drop_first());
    }
}

proof fn lemma_name_le_transitive(a: Seq<char>, b: Seq<char>, c: Seq<char>)
    requires
        name_le(a, b),
        name_le(b, c),
    ensures
        name_le(a, c),
    decreases a.len(),
{
    if a.len() > 0 && b.len() > 0 && c.len() > 0 && a[0] as u32 == b[0] as u32 && b[0] as u32
        == c[0] as u32 {
        lemma_name_le_transitive(a.drop_first(), b.drop_first(), c.drop_first());
    }
}

/// Whether `a` comes no later than `b` in the order of names.
pub fn name_le_exec(a: &str, b: &str) -> (r: bool)
    ensures
        r == name_le(a@, b@),
{
    let n = a.unicode_len();
    let m = b.unicode_len();
    let mut i: usize = 0;
    proof {
        assert(a@.skip(0) =~= a@);
        assert(b@.skip(0) =~= b@);
    }
    while i < n && i < m
        invariant
            n == a@.len(),
            m == b@.len(),
            i <= n,
            i <= m,
            name_le(a@, b@) == name_le(a@.skip(i as int), b@.skip(i as int)),
        decreases n - i,
    {
        let x = a.get_char(i);
        let y = b.get_char(i);
        if x as u32 != y as u32 {
            return (x as u32) < (y as u32);
        }
        proof {
            assert(a@.skip(i as int).drop_first() =~= a@.skip(i + 1));
            assert(b@.skip(i as int).drop_first() =~= b@.skip(i + 1));
        }
        i = i + 1;
    }
    i == n
}

/// Orders tests by ascending name. The result holds the same tests.
pub fn sort_by_name(v: Vec<TestCase>) -> (r: Vec<TestCase>)
    ensures
        sorted_by_name(r@),
        r@.to_multiset() == v@.to_multiset(),
{
    broadcast use vstd::seq_lib::group_to_multiset_ensures, vstd::multiset::lemma_multiset_empty_len;

    let mut rest = v;
    let mut out: Vec<TestCase> = Vec::new();
    proof {
        assert(out@.to_multiset() =~= Multiset::empty());
    }
    while rest.len() > 0
        invariant
            sorted_by_name(out@),
            out@.to_multiset().add(rest@.to_multiset()) == v@.to_multiset(),
            forall|i: int, j: int|
                0 <= i < out@.len() && 0 <= j < rest@.len() ==> name_le(
                    #[trigger] out@[i].name@,
                    #[trigger] rest@[j].name@,
                ),
        decreases rest@.len(),
    {
        let mut m: usize = 0;
        let mut j: usize = 1;
        proof {
            lemma_name_le_reflexive(rest@[0].name@);
        }
        while j < rest.len()
            invariant
                0 <= m < rest@.len(),
                1 <= j <= rest@.len(),
                forall|k: int| 0 <= k < j ==> name_le(rest@[m as int].name@, #[trigger] rest@[k].name@),
            decreases rest@.len() - j,
        {
            if !name_le_exec(rest[m].name.as_str(), rest[j].name.as_str()) {
                proof {
                    lemma_name_le_total(rest@[m as int].name@, rest@[j as int].name@);
                    lemma_name_le_reflexive(rest@[j as int].name@);
                    assert forall|k: int| 0 <= k < j implies name_le(
                        rest@[j as int].name@,
                        #[trigger] rest@[k].name@,
                    ) by {
                        lemma_name_le_transitive(
                            rest@[j as int].name@,
                            rest@[m as int].name@,
                            rest@[k].name@,
                        );
                    }
                }
                m = j;
            }
            j = j + 1;
        }
        let ghost old_rest = rest@;
        let ghost old_out = out@;
        let t = rest.remove(m);
        proof {
            old_rest.to_multiset_ensures();
            old_out.to_multiset_ensures();
        }
        out.push(t);
        proof {
            assert forall|i: int, k: int|
                0 <= i < out@.len() && 0 <= k < rest@.len() implies name_le(
                #[trigger] out@[i].name@,
                #[trigger] rest@[k].name@,
            ) by {
                let kk = if k < m { k } else { k + 1 };
                assert(rest@[k] == old_rest[kk]);
                if i == old_out.len() {
                } else {
                    assert(out@[i] == old_out[i]);
                }
            }
            assert(out@.to_multiset().add(rest@.to_multiset()) =~= v@.to_multiset());
        }
    }
    proof {
        assert(rest@.to_multiset() =~= Multiset::empty());
        assert(out@.to_multiset().add(Multiset::empty()) =~= out@.to_multiset());
    }
    out
}

/// Every registered test, in the order of registration.
pub open spec fn catalog() -> Seq<(Seq<char>, TestKind)> {
    seq![
        ("shl_b16"@, TestKind::Shl(Shl {})),
        ("shr_u16"@, TestKind::Shr(Shr { sign: Signedness::Unsigned })),
        ("shr_s16"@, TestKind::Shr(Shr { sign: Signedness::Signed })),
        ("sin_approx"@, TestKind::Sin(Sin { ftz: false })),
        ("sin_approx_ftz"@, TestKind::Sin(Sin { ftz: true })),
    ]
}

/// All registered tests, ordered by ascending name.
pub fn tests() -> (r: Vec<TestCase>)
    ensures
        sorted_by_name(r@),
        distinct_tests(r@),
        r@.len() == catalog().len(),
        forall|i: int| 0 <= i < r@.len() ==> catalog().contains(#[trigger] r@[i]@),
        forall|k: int|
            #![trigger catalog()[k]]
            0 <= k < catalog().len() ==> exists|i: int|
                #![trigger r@[i]]
                0 <= i < r@.len() && r@[i]@ == catalog()[k],
{
    broadcast use vstd::seq_lib::group_to_multiset_ensures;

    let mut all = crate::shift::all_tests();
    let mut more = crate::sin::all_tests();
    all.append(&mut more);
    let ghost v = all@;
    assert(v.map_values(|t: TestCase| t@) =~= catalog());
    let r = sort_by_name(all);
    assert(r@.len() == r@.to_multiset().len() && v.to_multiset().len() == v.len());
    assert(v.no_duplicates()) by {
        assert forall|i: int, j: int| 0 <= i < v.len() && 0 <= j < v.len() && i != j implies v[i]
            != v[j] by {
            assert(v[i]@ == catalog()[i] && v[j]@ == catalog()[j]);
        }
    }
    proof {
        v.lemma_multiset_has_no_duplicates();
        r@.lemma_multiset_has_no_duplicates_conv();
    }
    assert forall|i: int, j: int| 0 <= i < j < r@.len() implies #[trigger] r@[i]@ != #[trigger] r@[j]@ by {
        assert(r@.to_multiset().count(r@[i]) > 0 && r@.to_multiset().count(r@[j]) > 0);
        assert(v.contains(r@[i]) && v.contains(r@[j]));
        let a = choose|a: int| 0 <= a < v.len() && v[a] == r@[i];
        let b = choose|b: int| 0 <= b < v.len() && v[b] == r@[j];
        assert(v[a]@ == catalog()[a] && v[b]@ == catalog()[b]);
        assert(r@[i] != r@[j]);
    }
    assert forall|i: int| 0 <= i < r@.len() implies catalog().contains(#[trigger] r@[i]@) by {
        assert(r@.to_multiset().count(r@[i]) > 0);
        assert(v.contains(r@[i]));
        let k = choose|k: int| 0 <= k < v.len() && v[k] == r@[i];
        assert(catalog()[k] == r@[i]@);
    }
    assert forall|k: int| #![trigger catalog()[k]] 0 <= k < catalog().len() implies exists|i: int|
        #![trigger r@[i]]
        0 <= i < r@.len() && r@[i]@ == catalog()[k] by {
        assert(v.to_multiset().count(v[k]) > 0);
        assert(r@.contains(v[k]));
        let i = choose|i: int| 0 <= i < r@.len() && r@[i] == v[k];
        assert(r@[i]@ == catalog()[k]);
    }
    r
}

} // verus!
