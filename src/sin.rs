//! Test of the `sin.approx.f32` opcode, with and without flush-to-zero.
//! Single-precision values are carried as their IEEE-754 bit patterns.

use vstd::prelude::*;

use crate::testcase::{TestCase, TestKind};

verus! {

pub const NEG_INFINITY: u32 = 0xff80_0000;
pub const POS_INFINITY: u32 = 0x7f80_0000;
pub const NEG_ZERO: u32 = 0x8000_0000;
pub const POS_ZERO: u32 = 0;
/// The canonical quiet NaN.
pub const NAN: u32 = 0x7fc0_0000;
/// The negative subnormal of least magnitude.
pub const MIN_NEGATIVE_SUBNORMAL: u32 = 0x8000_0001;
/// The positive subnormal of least magnitude.
pub const MIN_POSITIVE_SUBNORMAL: u32 = 0x0000_0001;
/// Bit pattern of the lower end of the scanned range, 0.0.
pub const RANGE_MIN: u32 = 0;
/// Bit pattern of the upper end of the scanned range, pi/2 rounded to `f32`.
pub const RANGE_MAX: u32 = 0x3fc9_0fdb;
/// Indices past the continuous range that map through the edge-value table.
pub const EXTRA_INDICES: u32 = 36;

pub open spec fn exponent(x: u32) -> u32 {
    (x >> 23) & 0xff
}

pub open spec fn mantissa(x: u32) -> u32 {
    x & 0x7f_ffff
}

pub open spec fn is_negative(x: u32) -> bool {
    x >> 31 == 1
}

pub open spec fn is_nan(x: u32) -> bool {
    exponent(x) == 0xff && mantissa(x) != 0
}

pub open spec fn is_subnormal(x: u32) -> bool {
    exponent(x) == 0 && mantissa(x) != 0
}

/// A subnormal becomes the zero of its sign when flushing is on.
pub open spec fn flushed(x: u32, ftz: bool) -> u32 {
    if ftz && is_subnormal(x) {
        x & 0x8000_0000
    } else {
        x
    }
}

/// Replaces a subnormal by the zero of the same sign when `ftz` is set;
/// any other value is kept.
pub fn flush_to_zero(x: u32, ftz: bool) -> (r: u32)
    ensures
        r == flushed(x, ftz),
{
    if ftz && (x >> 23) & 0xff == 0 && x & 0x7f_ffff != 0 {
        x & 0x8000_0000
    } else {
        x
    }
}

/// Whether the bit pattern is a NaN.
pub fn bits_are_nan(x: u32) -> (r: bool)
    ensures
        r == is_nan(x),
{
    (x >> 23) & 0xff == 0xff && x & 0x7f_ffff != 0
}

/// The exact result of the sine approximation on a special input, or `None`
/// where the tolerance rule applies.
pub open spec fn sin_special(x: u32) -> Option<u32> {
    if x == NEG_INFINITY {
        Some(NAN)
    } else if is_subnormal(x) && is_negative(x) {
        Some(NEG_ZERO)
    } else if x == NEG_ZERO {
        Some(NEG_ZERO)
    } else if x == POS_ZERO {
        Some(POS_ZERO)
    } else if is_subnormal(x) {
        Some(POS_ZERO)
    } else if x == POS_INFINITY {
        Some(NAN)
    } else if is_nan(x) {
        Some(NAN)
    } else {
        None
    }
}

/// Input value of scan index `i`: the bit patterns of the continuous range
/// first, then a table of edge values.
pub open spec fn sin_input(i: u32) -> u32 {
    if i > RANGE_MAX {
        let k = i - RANGE_MAX;
        if k == 1 {
            NEG_INFINITY
        } else if k == 2 {
            MIN_NEGATIVE_SUBNORMAL
        } else if k == 3 {
            NEG_ZERO
        } else if k == 4 {
            POS_ZERO
        } else if k == 5 {
            MIN_POSITIVE_SUBNORMAL
        } else if k == 6 {
            POS_INFINITY
        } else if k == 7 {
            NAN
        } else {
            POS_ZERO
        }
    } else {
        (i + RANGE_MIN) as u32
    }
}

/// Decision on a special input: NaN matches any NaN, anything else must match
/// bit for bit.
pub open spec fn special_decision(expected: u32, output: u32) -> Result<(), u32> {
    if (is_nan(expected) && is_nan(output)) || expected == output {
        Ok(())
    } else {
        Err(expected)
    }
}

/// Number of scan indices of the sine tests.
pub open spec fn sin_domain() -> u64 {
    (RANGE_MAX - RANGE_MIN + EXTRA_INDICES) as u64
}

/// Each named edge value is the input of an index of the sine domain, past
/// the continuous range, and every bit pattern of the range is probed.
pub proof fn lemma_edge_values_probed(x: u32)
    ensures
        sin_input((RANGE_MAX + 1) as u32) == NEG_INFINITY,
        sin_input((RANGE_MAX + 2) as u32) == MIN_NEGATIVE_SUBNORMAL,
        sin_input((RANGE_MAX + 3) as u32) == NEG_ZERO,
        sin_input((RANGE_MAX + 4) as u32) == POS_ZERO,
        sin_input((RANGE_MAX + 5) as u32) == MIN_POSITIVE_SUBNORMAL,
        sin_input((RANGE_MAX + 6) as u32) == POS_INFINITY,
        sin_input((RANGE_MAX + 7) as u32) == NAN,
        RANGE_MAX + 7 < sin_domain(),
        RANGE_MIN <= x <= RANGE_MAX ==> sin_input((x - RANGE_MIN) as u32) == x && ((x - RANGE_MIN)
            as u64) < sin_domain(),
{
}

/// Instruction body of the sine test; `ftz` is the flush-to-zero modifier,
/// empty or `.ftz`.
pub open spec fn sin_body(ftz: Seq<char>) -> Seq<char> {
    ".reg .f32 x;\n.reg .f32 y;\nld.global.f32 x, [input_a_addr];\nsin.approx"@ + ftz
        + ".f32 y, x;\nst.global.f32 [output_addr], y;"@
}

/// The sine test without flush-to-zero, then the one with it.
pub fn all_tests() -> (r: Vec<TestCase>)
    ensures
        r@.len() == 2,
        r@[0]@ == ("sin_approx"@, TestKind::Sin(Sin { ftz: false })),
        r@[1]@ == ("sin_approx_ftz"@, TestKind::Sin(Sin { ftz: true })),
{
    let mut tests = Vec::new();
    tests.push(sin(false));
    tests.push(sin(true));
    tests
}

/// The sine test, named `sin_approx` with `_ftz` appended when it flushes.
pub fn sin(ftz: bool) -> (r: TestCase)
    ensures
        r@ == (
            if ftz {
                "sin_approx_ftz"@
            } else {
                "sin_approx"@
            },
            TestKind::Sin(Sin { ftz }),
        ),
{
    let mut name = String::from_str("sin_approx");
    if ftz {
        name.append("_ftz");
        proof {
            reveal_strlit("sin_approx");
            reveal_strlit("_ftz");
            reveal_strlit("sin_approx_ftz");
            assert(name@ =~= "sin_approx_ftz"@);
        }
    }
    TestCase::new(name, TestKind::Sin(Sin { ftz }))
}

/// The `sin.approx.f32` test, with flush-to-zero or without.
#[derive(Clone, Copy, Debug, PartialEq, Eq, Structural)]
pub struct Sin {
    pub ftz: bool,
}

impl Sin {
    /// Number of scan indices: the continuous range and the edge-value table.
    pub fn max_value(&self) -> (r: u64)
        ensures
            r == sin_domain(),
    {
        (RANGE_MAX - RANGE_MIN + EXTRA_INDICES) as u64
    }

    /// Bit pattern of the input probed at scan index `input`.
    pub fn generate(&self, input: u32) -> (r: u32)
        ensures
            r == sin_input(input),
    {
        if input > RANGE_MAX {
            let k = input - RANGE_MAX;
            if k == 1 {
                NEG_INFINITY
            } else if k == 2 {
                MIN_NEGATIVE_SUBNORMAL
            } else if k == 3 {
                NEG_ZERO
            } else if k == 4 {
                POS_ZERO
            } else if k == 5 {
                MIN_POSITIVE_SUBNORMAL
            } else if k == 6 {
                POS_INFINITY
            } else if k == 7 {
                NAN
            } else {
                POS_ZERO
            }
        } else {
            input + RANGE_MIN
        }
    }

    pub fn ptx(&self) -> (r: String)
        ensures
            r@ == sin_body(
                if self.ftz {
                    ".ftz"@
                } else {
                    ""@
                },
            ),
    {
        let mut s = String::from_str(
            ".reg .f32 x;\n.reg .f32 y;\nld.global.f32 x, [input_a_addr];\nsin.approx",
        );
        if self.ftz {
            s.append(".ftz");
        } else {
            s.append("");
        }
        s.append(".f32 y, x;\nst.global.f32 [output_addr], y;");
        s
    }

    pub fn ptx_args(&self) -> (r: Vec<&'static str>)
        ensures
            r@.len() == 2,
            r@[0]@ == "input_a"@,
            r@[1]@ == "output"@,
    {
        vec!["input_a", "output"]
    }

    /// The sine test's decision. Special inputs are decided exactly, as
    /// `host_verify_special` does. On any other input, `within` tells whether
    /// the device's output lies within the tolerance of the host's precise
    /// sine of the flushed input, and `host` is that sine rounded to `f32`,
    /// the expected value of a rejection.
    pub fn host_verify(&self, input: u32, output: u32, within: bool, host: u32) -> (r: Result<(), u32>)
        ensures
            r == match sin_special(flushed(input, self.ftz)) {
                Some(e) => special_decision(flushed(e, self.ftz), flushed(output, self.ftz)),
                None => if within {
                    Ok(())
                } else {
                    Err(host)
                },
            },
    {
        match self.host_verify_special(input, output) {
            Some(decision) => decision,
            None => if within {
                Ok(())
            } else {
                Err(host)
            },
        }
    }

    /// Checks the device's output on a special input exactly. The input is
    /// flushed first, and so are the expected value and the output. `None`
    /// means that the (flushed) input is an ordinary value, which the
    /// tolerance rule decides.
    pub fn host_verify_special(&self, input: u32, output: u32) -> (r: Option<Result<(), u32>>)
        ensures
            r == match sin_special(flushed(input, self.ftz)) {
                Some(e) => Some(special_decision(flushed(e, self.ftz), flushed(output, self.ftz))),
                None => None::<Result<(), u32>>,
            },
    {
        let x = flush_to_zero(input, self.ftz);
        let special = if x == NEG_INFINITY {
            Some(NAN)
        } else if (x >> 23) & 0xff == 0 && x & 0x7f_ffff != 0 && x >> 31 == 1 {
            Some(NEG_ZERO)
        } else if x == NEG_ZERO {
            Some(NEG_ZERO)
        } else if x == POS_ZERO {
            Some(POS_ZERO)
        } else if (x >> 23) & 0xff == 0 && x & 0x7f_ffff != 0 {
            Some(POS_ZERO)
        } else if x == POS_INFINITY {
            Some(NAN)
        } else if bits_are_nan(x) {
            Some(NAN)
        } else {
            None
        };
        match special {
            Some(e) => {
                let expected = flush_to_zero(e, self.ftz);
                let output = flush_to_zero(output, self.ftz);
                if (bits_are_nan(expected) && bits_are_nan(output)) || expected == output {
                    Some(Ok(()))
                } else {
                    Some(Err(expected))
                }
            },
            None => None,
        }
    }
}

} // verus!
