//! The latest GPU reading of the monitor daemon.

use vstd::prelude::*;

use super::info::GPU;

verus! {

/// The latest GPU reading: the adapter's name, its video memory in use and in
/// all, in bytes, and its load in percent. No name means no reading yet.
pub struct GpuUsage {
    pub name: String,
    pub memory_used: u64,
    pub memory_total: u64,
    pub gpu_utilization: u32,
}

impl Default for GpuUsage {
    /// No reading: no name, and zero for every figure.
    fn default() -> (r: Self)
        ensures
            r.name@ == Seq::<char>::empty(),
            r.memory_used == 0,
            r.memory_total == 0,
            r.gpu_utilization == 0,
    {
        GpuUsage { name: String::new(), memory_used: 0, memory_total: 0, gpu_utilization: 0 }
    }
}

/// The name under which an adapter is reported: vendor, a space, model.
pub open spec fn adapter_name(vendor: Seq<char>, model: Seq<char>) -> Seq<char> {
    vendor + seq![' '] + model
}

/// The name of an adapter from its vendor and model: `"<vendor> <model>"`.
pub fn gpu_label(vendor: &str, model: &str) -> (name: String)
    ensures
        name@ == adapter_name(vendor@, model@),
{
    let mut name = String::from_str(vendor);
    name.append(" ");
    name.append(model);
    proof {
        reveal_strlit(" ");
    }
    name
}

impl GpuUsage {
    /// Replaces the reading with a new one.
    pub fn record(&mut self, name: String, memory_used: u64, memory_total: u64, gpu_utilization: u32)
        ensures
            final(self).name@ == name@,
            final(self).memory_used == memory_used,
            final(self).memory_total == memory_total,
            final(self).gpu_utilization == gpu_utilization,
    {
        self.name = name;
        self.memory_used = memory_used;
        self.memory_total = memory_total;
        self.gpu_utilization = gpu_utilization;
    }

    /// The GPU part of the next system message: the reading, when there is
    /// one with a name and a non-zero video memory size; `None` otherwise.
    pub fn gpu_info(&self) -> (info: Option<GPU>)
        ensures
            info is Some <==> (self.name@.len() > 0 && self.memory_total > 0),
            info matches Some(g) ==> {
                &&& g.name@ == self.name@
                &&& g.memory_used == self.memory_used
                &&& g.memory_total == self.memory_total
                &&& g.gpu_utilization == self.gpu_utilization
            },
    {
        if !self.name.as_str().is_empty() && self.memory_total > 0 {
            Some(
                GPU {
                    name: self.name.clone(),
                    memory_used: self.memory_used,
                    memory_total: self.memory_total,
                    gpu_utilization: self.gpu_utilization,
                },
            )
        } else {
            None
        }
    }
}

} // verus!
