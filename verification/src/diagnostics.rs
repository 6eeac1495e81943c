//! The panic counter that survives resets, and what the firmware makes of
//! it at start-up.

use vstd::prelude::*;

verus! {

/// How many panics the device tolerates before it starts in safe mode.
pub const SAFE_MODE_AFTER: u32 = 5;

/// What the panic history says at start-up.
#[derive(Debug, Clone, Copy, PartialEq, Eq, Structural)]
pub enum PanicHistory {
    /// The device never panicked.
    Clean,
    /// It panicked this many times; worth a warning.
    Panicked(u32),
    /// It panicked more than `SAFE_MODE_AFTER` times: a panic loop; the
    /// device enters safe mode.
    PanicLoop(u32),
}

/// The verdict on a panic count.
pub fn check_panic_history(count: u32) -> (h: PanicHistory)
    ensures
        h == (if count == 0 {
            PanicHistory::Clean
        } else if count > SAFE_MODE_AFTER {
            PanicHistory::PanicLoop(count)
        } else {
            PanicHistory::Panicked(count)
        }),
{
    if count > 0 {
        if count > SAFE_MODE_AFTER {
            PanicHistory::PanicLoop(count)
        } else {
            PanicHistory::Panicked(count)
        }
    } else {
        PanicHistory::Clean
    }
}

/// The number of the panic being handled, from the count before it (the
/// value `fetch_add(1)` returns).
pub fn panic_number(previous: u32) -> (n: u32)
    requires
        previous < u32::MAX,
    ensures
        n == previous + 1,
{
    previous + 1
}

} // verus!
