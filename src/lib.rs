//! Differential conformance tests for individual PTX opcodes: input
//! enumeration, host reference checks, device source generation, the test
//! catalog and the per-test scan state machine.

pub mod engine;
pub mod filter;
pub mod run;
pub mod shift;
pub mod sin;
pub mod source;
pub mod testcase;
