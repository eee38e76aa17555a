//! Idle classification: a pure decision over the measured idle time and the
//! configured threshold. The measurement itself comes from the platform and
//! is handed in by the caller; on platforms without a measurement it is 0,
//! which never classifies as idle.

use vstd::prelude::*;

verus! {

/// Whether a measured idle time reaches the threshold; the boundary is
/// inclusive, so exactly `threshold_minutes` minutes of idle time counts
/// as idle.
pub open spec fn is_idle(idle_milliseconds: u64, threshold_minutes: u32) -> bool {
    idle_milliseconds >= threshold_minutes * 60000
}

/// Classifies the user as idle exactly when the measured idle time has
/// reached `threshold_minutes` minutes.
pub fn is_user_idle(idle_milliseconds: u64, threshold_minutes: u32) -> (r: bool)
    ensures
        r == is_idle(idle_milliseconds, threshold_minutes),
{
    idle_milliseconds >= (threshold_minutes as u64) * 60000
}

} // verus!
