//! RAM usage, as read from the machine.

use vstd::prelude::*;

verus! {

/// RAM in bytes: all of it, and the part available for use.
pub struct MemUsage {
    pub total: u64,
    pub idle: u64,
}

impl Default for MemUsage {
    /// Zero for both figures.
    fn default() -> (r: Self)
        ensures
            r.total == 0,
            r.idle == 0,
    {
        MemUsage { total: 0, idle: 0 }
    }
}

impl MemUsage {
    /// Records a reading: `total` bytes of RAM, `idle` of them available.
    pub fn record(&mut self, total: u64, idle: u64)
        ensures
            final(self).total == total,
            final(self).idle == idle,
    {
        self.total = total;
        self.idle = idle;
    }

    /// The RAM in use: all of it but the available part.
    pub fn used(&self) -> (used: u64)
        requires
            self.idle <= self.total,
        ensures
            used == self.total - self.idle,
    {
        self.total - self.idle
    }
}

} // verus!
