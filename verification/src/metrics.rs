//! The memory and disk figures of the machine, as last sampled.

use vstd::prelude::*;

verus! {

/// One sample of the machine's memory and disks.
#[derive(Clone, Copy, Debug, PartialEq, Eq)]
pub struct SystemMetrics {
    pub mem_used_kib: u64,
    pub mem_total_kib: u64,
    pub disk_used_bytes: u64,
    pub disk_total_bytes: u64,
}

impl Default for SystemMetrics {
    fn default() -> (m: SystemMetrics)
        ensures
            m.mem_used_kib == 0,
            m.mem_total_kib == 0,
            m.disk_used_bytes == 0,
            m.disk_total_bytes == 0,
    {
        SystemMetrics { mem_used_kib: 0, mem_total_kib: 0, disk_used_bytes: 0, disk_total_bytes: 0 }
    }
}

} // verus!
