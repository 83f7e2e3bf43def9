//! Counts of VM exits by kind.
use vstd::prelude::*;

verus! {

/// Statistics about VM exits.
#[derive(Debug, Clone, Copy)]
pub struct ExitStats {
    pub io_exits: u64,
    pub mmio_exits: u64,
    pub hlt_exits: u64,
    pub shutdown_exits: u64,
    pub other_exits: u64,
}

impl ExitStats {
    /// The sum of all counters.
    pub open spec fn spec_total(&self) -> int {
        self.io_exits + self.mmio_exits + self.hlt_exits + self.shutdown_exits + self.other_exits
    }

    /// Every counter below its maximum, so that one more exit can be counted.
    pub open spec fn can_count(&self) -> bool {
        &&& self.io_exits < u64::MAX
        &&& self.mmio_exits < u64::MAX
        &&& self.hlt_exits < u64::MAX
        &&& self.shutdown_exits < u64::MAX
        &&& self.other_exits < u64::MAX
    }

    /// All counters at zero.
    pub fn new() -> (r: Self)
        ensures
            r.io_exits == 0,
            r.mmio_exits == 0,
            r.hlt_exits == 0,
            r.shutdown_exits == 0,
            r.other_exits == 0,
            r.spec_total() == 0,
    {
        ExitStats { io_exits: 0, mmio_exits: 0, hlt_exits: 0, shutdown_exits: 0, other_exits: 0 }
    }

    /// The number of exits counted, of all kinds.
    pub fn total(&self) -> (r: u64)
        requires
            self.spec_total() <= u64::MAX,
        ensures
            r == self.spec_total(),
    {
        self.io_exits + self.mmio_exits + self.hlt_exits + self.shutdown_exits + self.other_exits
    }
}

impl Default for ExitStats {
    fn default() -> (r: Self)
        ensures
            r.spec_total() == 0,
            r.io_exits == 0 && r.mmio_exits == 0 && r.hlt_exits == 0 && r.shutdown_exits == 0
                && r.other_exits == 0,
    {
        Self::new()
    }
}

} // verus!
