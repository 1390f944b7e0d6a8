//! Syscall decoding and handling.
//!
//! The syscall ABI is register-passed: the call number in one register
//! selects the behavior, and unrecognized numbers are rejected at decode
//! time.

use vstd::prelude::*;
use crate::frame::Frame;
use crate::kernel::{HaltReason, Kernel, TrapCtx, TrapOutcome, Transfer};

verus! {

/// Holds when `v` is a Unicode scalar value, i.e. a value a `char` can
/// carry: not a surrogate and not beyond the last code point.
pub open spec fn valid_char_code(v: u32) -> bool {
    v < 0xD800 || (0xE000 <= v && v <= 0x10FFFF)
}

/// Relies on char::from_u32: it returns the character with the given scalar
/// value, and nothing exactly when the value is a surrogate or lies beyond
/// the last code point.
#[verifier::external_body]
fn char_from_u32(v: u32) -> (r: Option<char>)
    ensures
        r is Some <==> valid_char_code(v),
        r matches Some(c) ==> c as u32 == v,
{
    char::from_u32(v)
}

/// A decoded system call.
#[derive(Debug, Clone, Copy, PartialEq, Eq, Structural)]
pub enum SystemCall {
    /// Present in the decode table, but not yet assigned a behavior.
    Yield,
    /// Print one character on the debug output stream.
    UartDebugPrint(char),
}

impl SystemCall {
    /// Decodes a system call from the trapping task's argument registers:
    /// the call number in `r1` selects the behavior, and anything else is
    /// rejected.
    pub fn from_regs(r1: usize, r2: usize, r3: usize, r4: usize) -> (r: Option<SystemCall>)
        ensures
            r is Some <==> (r1 == 1 || (r1 == 0 && valid_char_code(r2 as u32))),
            r1 == 1 ==> r == Some(SystemCall::Yield),
            r1 == 0 && r is Some ==> (r matches Some(SystemCall::UartDebugPrint(c)) && c as u32
                == r2 as u32),
    {
        match r1 {
            1 => Some(SystemCall::Yield),
            0 => {
                if let Some(c) = char_from_u32(r2 as u32) {
                    Some(SystemCall::UartDebugPrint(c))
                } else {
                    None
                }
            },
            _ => None,
        }
    }
}

/// Handles a decoded system call: a debug print emits its character and
/// resumes the same task's frame with the program counter already advanced
/// past the trapping instruction by the entry path; the unassigned yield
/// call halts with a distinguishable diagnostic rather than silently
/// resuming.
pub fn trap_syscall(kernel: &Kernel, kind: SystemCall, ctx: TrapCtx) -> (r: TrapOutcome)
    ensures
        kind matches SystemCall::UartDebugPrint(c) ==> r == (TrapOutcome {
            output: Some(c),
            transfer: Transfer::Dispatch(ctx.frame),
        }),
        kind == SystemCall::Yield ==> r == (TrapOutcome {
            output: None,
            transfer: Transfer::Halt(HaltReason::NotImplemented),
        }),
{
    match kind {
        SystemCall::Yield => TrapOutcome {
            output: None,
            transfer: Transfer::Halt(HaltReason::NotImplemented),
        },
        SystemCall::UartDebugPrint(c) => TrapOutcome {
            output: Some(c),
            transfer: Transfer::Dispatch(ctx.frame),
        },
    }
}

} // verus!
