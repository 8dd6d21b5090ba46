//! What is measured of a guest call.

use core::time::Duration;
use vstd::prelude::*;

verus! {

/// Statistics of the most recent guest call.
///
/// They are taken even when the call fails, and each call overwrites those of the one before.
#[derive(Debug)]
pub struct ExecutionStats {
    /// Elapsed time of the guest call.
    pub wall_clock: Duration,
    /// CPU time that the guest call used, where it is measured.
    pub cpu_time: Option<Duration>,
    /// Name of the monitor that ended the call (`"wall-clock"`, `"cpu-time"` or that of a custom
    /// monitor), if one did.
    pub terminated_by: Option<&'static str>,
}

impl Clone for ExecutionStats {
    fn clone(&self) -> (r: ExecutionStats)
        ensures
            r == *self,
    {
        ExecutionStats {
            wall_clock: self.wall_clock,
            cpu_time: self.cpu_time,
            terminated_by: self.terminated_by,
        }
    }
}

} // verus!
