//! How the wrapper reads its pending termination signal and how it ends.

use vstd::prelude::*;

verus! {

/// The value of the pending-signal slot when no signal is pending.
pub const NO_PENDING_SIGNAL: i32 = 0;

/// The exit code after an error in the command line.
pub const USAGE_EXIT_CODE: i32 = 2;

/// The exit code after a failure of the wrapper itself.
pub const FAILURE_EXIT_CODE: i32 = 1;

/// The pending signal held in the slot, if any: the slot holds the number of
/// the last signal received, or zero.
pub fn pending_signal(slot: i32) -> (pending: Option<i32>)
    ensures
        pending == if slot == NO_PENDING_SIGNAL { None } else { Some(slot) },
{
    if slot == NO_PENDING_SIGNAL {
        None
    } else {
        Some(slot)
    }
}

/// The exit code used when the default action of a signal did not end the
/// process: 128 plus the signal number, as shells report it, wrapping around
/// at the end of the `i32` range.
pub fn fallback_exit_code(signal: i32) -> (code: i32)
    ensures
        code == if 128 + signal > i32::MAX { 128 + signal - 0x1_0000_0000 } else { 128 + signal },
        signal <= i32::MAX - 128 ==> code == 128 + signal,
{
    signal.wrapping_add(128)
}

} // verus!
