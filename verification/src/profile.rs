//! The profiling switch: whether the engine reports timings.

use std::sync::atomic::AtomicBool;
use std::sync::atomic::Ordering;
use vstd::prelude::*;

verus! {

/// Whether profiling output is enabled, read from the process-wide switch.
///
/// The switch is shared with other threads, so no clause can say which
/// value a load observes.
pub fn is_profile_enabled(switch: &AtomicBool) -> bool {
    switch.load(Ordering::Relaxed)
}

/// Whether the value of the `UV_FFI_PROFILE` variable turns profiling on:
/// exactly when the variable is set, to `1`.
pub fn profile_requested(value: Option<&str>) -> (r: bool)
    ensures
        r == (value matches Some(v) && v@ == "1"@),
{
    match value {
        Some(v) => crate::text::str_equal(v, "1"),
        None => false,
    }
}

} // verus!
