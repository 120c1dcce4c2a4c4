//! The idle-sensing capability the driver polls before each tick.

use vstd::prelude::*;

verus! {

/// Reports elapsed seconds since the user's last physical input. The
/// production implementation polls the operating system from a background
/// thread; tests substitute a double. No contract is placed on the method:
/// the timer treats the reading as an arbitrary input.
pub trait IdleDetector: Send + Sync {
    fn get_seconds_since_last_input(&self) -> u64;
}

} // verus!
