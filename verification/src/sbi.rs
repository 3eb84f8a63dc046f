//! The calls the kernel makes into the firmware, as values.
//!
//! The library decides which call is made and with which arguments; the code
//! that runs on the machine carries the call out.

use vstd::prelude::*;

verus! {

/// Why the machine is reset.
#[derive(Clone, Copy, Debug, PartialEq, Eq, Structural)]
pub enum ResetReason {
    /// The work is done.
    NoReason,
    /// The kernel gave up after a failure.
    SystemFailure,
}

/// One call into the firmware.
#[derive(Clone, Copy, Debug, PartialEq, Eq, Structural)]
pub enum PlatformCall {
    /// Write one character to the console.
    ConsolePutchar { c: usize },
    /// Raise the timer interrupt once the time counter reaches `deadline`.
    SetTimer { deadline: u64 },
    /// Power the machine off; the call does not come back.
    Shutdown { reason: ResetReason },
}

/// The call that writes the character `c` to the console.
pub fn console_putchar(c: usize) -> (call: PlatformCall)
    ensures
        call == (PlatformCall::ConsolePutchar { c }),
{
    PlatformCall::ConsolePutchar { c }
}

/// The call that arms the timer for the moment `timer`.
pub fn set_timer(timer: usize) -> (call: PlatformCall)
    ensures
        call == (PlatformCall::SetTimer { deadline: timer as u64 }),
{
    PlatformCall::SetTimer { deadline: timer as u64 }
}

/// The call that powers the machine off, with a failure reported if and
/// only if `failure` is set.
pub fn shutdown(failure: bool) -> (call: PlatformCall)
    ensures
        call == (PlatformCall::Shutdown {
            reason: if failure {
                ResetReason::SystemFailure
            } else {
                ResetReason::NoReason
            },
        }),
{
    if !failure {
        PlatformCall::Shutdown { reason: ResetReason::NoReason }
    } else {
        PlatformCall::Shutdown { reason: ResetReason::SystemFailure }
    }
}

} // verus!
