//! The GPU figures of a system message.

use vstd::prelude::*;

verus! {

/// The GPU part of a system message: the adapter's name, its video memory in
/// use and in all, in bytes, and its load in percent.
#[derive(Debug)]
pub struct GPU {
    pub name: String,
    pub memory_used: u64,
    pub memory_total: u64,
    pub gpu_utilization: u32,
}

impl Default for GPU {
    /// No name, and zero for every figure.
    fn default() -> (r: Self)
        ensures
            r.name@ == Seq::<char>::empty(),
            r.memory_used == 0,
            r.memory_total == 0,
            r.gpu_utilization == 0,
    {
        GPU { name: String::new(), memory_used: 0, memory_total: 0, gpu_utilization: 0 }
    }
}

} // verus!
