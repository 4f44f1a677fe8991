//! Tests of the 16-bit shift opcodes `shl.b16`, `shr.u16` and `shr.s16`.

use vstd::prelude::*;

use crate::testcase::{TestCase, TestKind};

verus! {

/// Low 16-bit lane of a scan index: the value to shift.
pub open spec fn lane_value(index: u32) -> u16 {
    (index & 0xffff) as u16
}

/// High 16-bit lane of a scan index: the shift amount.
pub open spec fn lane_shift(index: u32) -> u16 {
    (index >> 16) as u16
}

/// Signedness of the 16-bit scalar that a shift right works on.
#[derive(Clone, Copy, Debug, PartialEq, Eq, Structural)]
pub enum Signedness {
    Unsigned,
    Signed,
}

/// Expected result of `shl.b16`: amounts of 16 and more clear every bit.
pub open spec fn shl_reference(value: u16, shift: u16) -> u16 {
    if shift >= 16 {
        0
    } else {
        (value << shift) as u16
    }
}

/// Relies on num's `PrimInt::unsigned_shr` for `u16`: a logical shift right by `n`.
#[verifier::external_body]
fn unsigned_shr_u16(value: u16, n: u32) -> (r: u16)
    requires
        n < 16,
    ensures
        r == value >> n,
{
    num::PrimInt::unsigned_shr(value, n)
}

/// Relies on num's `PrimInt::signed_shr` for `i16`: an arithmetic shift right by `n`.
#[verifier::external_body]
fn signed_shr_i16(value: i16, n: u32) -> (r: i16)
    requires
        n < 16,
    ensures
        r == value >> n,
{
    num::PrimInt::signed_shr(value, n)
}

/// Expected result of `shr.u16` / `shr.s16`, on the value's 16 bits. Amounts
/// of 16 and more saturate: zero for unsigned values, the sign for signed ones.
pub open spec fn shr_reference(sign: Signedness, value: u16, shift: u16) -> u16 {
    match sign {
        Signedness::Unsigned => if shift >= 16 {
            0
        } else {
            (value >> shift) as u16
        },
        Signedness::Signed => if shift >= 16 {
            ((value as i16) >> 15u16) as u16
        } else {
            ((value as i16) >> shift) as u16
        },
    }
}

/// Instruction body shared by the shift tests; `op` is the opcode.
pub open spec fn shift_body(op: Seq<char>) -> Seq<char> {
    ".reg .b16 value;\n.reg .u32 amount;\n.reg .b16 result;\n"@
        + "ld.global.b16 value, [input_a_addr];\nld.global.u16 amount, [input_b_addr];\n"@
        + op + " result, value, amount;\nst.global.b16 [output_addr], result;"@
}

/// Builds the shift instruction body around the opcode `op`.
fn shift_ptx(op: &str) -> (r: String)
    ensures
        r@ == shift_body(op@),
{
    let mut s = String::from_str(".reg .b16 value;\n.reg .u32 amount;\n.reg .b16 result;\n");
    s.append("ld.global.b16 value, [input_a_addr];\nld.global.u16 amount, [input_b_addr];\n");
    s.append(op);
    s.append(" result, value, amount;\nst.global.b16 [output_addr], result;");
    s
}

/// Argument names of the shift tests, in binding order.
fn shift_args() -> (r: Vec<&'static str>)
    ensures
        r@.len() == 3,
        r@[0]@ == "input_a"@,
        r@[1]@ == "input_b"@,
        r@[2]@ == "output"@,
{
    vec!["input_a", "input_b", "output"]
}

/// The three shift tests, as registered.
pub fn all_tests() -> (r: Vec<TestCase>)
    ensures
        r@.len() == 3,
        r@[0]@ == ("shl_b16"@, TestKind::Shl(Shl {})),
        r@[1]@ == ("shr_u16"@, TestKind::Shr(Shr { sign: Signedness::Unsigned })),
        r@[2]@ == ("shr_s16"@, TestKind::Shr(Shr { sign: Signedness::Signed })),
{
    vec![
        TestCase::new(String::from_str("shl_b16"), TestKind::Shl(Shl {})),
        TestCase::new(String::from_str("shr_u16"), TestKind::Shr(Shr { sign: Signedness::Unsigned })),
        TestCase::new(String::from_str("shr_s16"), TestKind::Shr(Shr { sign: Signedness::Signed })),
    ]
}

/// The `shl.b16` test: every pair of a 16-bit value and a 16-bit amount.
#[derive(Clone, Copy, Debug, PartialEq, Eq, Structural)]
pub struct Shl {}

impl Shl {
    /// Splits a scan index into its two 16-bit lanes, value then amount.
    pub fn generate(&self, input: u32) -> (r: (u16, u16))
        ensures
            r == (lane_value(input), lane_shift(input)),
    {
        ((input & 0xffff) as u16, (input >> 16) as u16)
    }

    /// Accepts exactly the host's result; otherwise returns it.
    pub fn host_verify(&self, input: (u16, u16), output: u16) -> (r: Result<(), u16>)
        ensures
            output == shl_reference(input.0, input.1) ==> r is Ok,
            output != shl_reference(input.0, input.1) ==> r == Err::<(), u16>(
                shl_reference(input.0, input.1),
            ),
    {
        let (value, shift) = input;
        let expected: u16 = if shift >= 16 {
            0
        } else {
            value << shift
        };
        if expected == output {
            Ok(())
        } else {
            Err(expected)
        }
    }

    pub fn ptx(&self) -> (r: String)
        ensures
            r@ == shift_body("shl.b16"@),
    {
        shift_ptx("shl.b16")
    }

    pub fn ptx_args(&self) -> (r: Vec<&'static str>)
        ensures
            r@.len() == 3,
            r@[0]@ == "input_a"@,
            r@[1]@ == "input_b"@,
            r@[2]@ == "output"@,
    {
        shift_args()
    }
}

/// The `shr.u16` or `shr.s16` test, by signedness.
#[derive(Clone, Copy, Debug, PartialEq, Eq, Structural)]
pub struct Shr {
    pub sign: Signedness,
}

impl Shr {
    /// Splits a scan index into its two 16-bit lanes, value bits then amount.
    pub fn generate(&self, input: u32) -> (r: (u16, u16))
        ensures
            r == (lane_value(input), lane_shift(input)),
    {
        ((input & 0xffff) as u16, (input >> 16) as u16)
    }

    /// Accepts exactly the host's result (on the value's bits); otherwise
    /// returns it.
    pub fn host_verify(&self, input: (u16, u16), output: u16) -> (r: Result<(), u16>)
        ensures
            output == shr_reference(self.sign, input.0, input.1) ==> r is Ok,
            output != shr_reference(self.sign, input.0, input.1) ==> r == Err::<(), u16>(
                shr_reference(self.sign, input.0, input.1),
            ),
    {
        let (value, shift) = input;
        let expected: u16 = match self.sign {
            Signedness::Unsigned => if shift >= 16 {
                0
            } else {
                unsigned_shr_u16(value, shift as u32)
            },
            Signedness::Signed => if shift >= 16 {
                signed_shr_i16(value as i16, 15) as u16
            } else {
                signed_shr_i16(value as i16, shift as u32) as u16
            },
        };
        if expected == output {
            Ok(())
        } else {
            Err(expected)
        }
    }

    pub fn ptx(&self) -> (r: String)
        ensures
            r@ == shift_body(
                match self.sign {
                    Signedness::Unsigned => "shr.u16"@,
                    Signedness::Signed => "shr.s16"@,
                },
            ),
    {
        match self.sign {
            Signedness::Unsigned => shift_ptx("shr.u16"),
            Signedness::Signed => shift_ptx("shr.s16"),
        }
    }

    pub fn ptx_args(&self) -> (r: Vec<&'static str>)
        ensures
            r@.len() == 3,
            r@[0]@ == "input_a"@,
            r@[1]@ == "input_b"@,
            r@[2]@ == "output"@,
    {
        shift_args()
    }
}

} // verus!
