//! The figures the monitor daemon gathers and sends to the plugin.

pub mod gpu;
pub mod info;
pub mod mem;

pub use gpu::GpuUsage;
pub use info::GPU;
pub use mem::MemUsage;
