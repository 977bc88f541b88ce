use zellij_load::system_info::gpu::gpu_label;
use zellij_load::system_info::{GpuUsage, MemUsage, GPU};

#[test]
fn mem_update_produces_valid_values() {
    let mut sys = sysinfo::System::new_all();
    let mut usage = MemUsage::default();
    sys.refresh_memory();
    usage.record(sys.total_memory(), sys.available_memory());
    assert!(usage.total > 0, "total memory should be nonzero");
    assert!(usage.idle <= usage.total, "idle cannot exceed total");
}

#[test]
fn mem_default_is_zero() {
    let usage = MemUsage::default();
    assert_eq!(usage.total, 0);
    assert_eq!(usage.idle, 0);
}

#[test]
fn mem_record_and_used() {
    let mut usage = MemUsage::default();
    usage.record(16_000_000_000, 4_000_000_000);
    assert_eq!(usage.total, 16_000_000_000);
    assert_eq!(usage.idle, 4_000_000_000);
    assert_eq!(usage.used(), 12_000_000_000);
    usage.record(8, 8);
    assert_eq!(usage.used(), 0);
}

#[test]
fn gpu_default_is_empty() {
    let gpu = GPU::default();
    assert_eq!(gpu.name, "");
    assert_eq!(gpu.memory_used, 0);
    assert_eq!(gpu.memory_total, 0);
    assert_eq!(gpu.gpu_utilization, 0);
}

#[test]
fn gpu_usage_without_reading_has_no_info() {
    let usage = GpuUsage::default();
    assert!(usage.gpu_info().is_none());
}

#[test]
fn gpu_usage_with_reading_gives_info() {
    let mut usage = GpuUsage::default();
    usage.record("NVIDIA RTX 4090".to_string(), 2_000_000_000, 24_000_000_000, 75);
    let gpu = usage.gpu_info().unwrap();
    assert_eq!(gpu.name, "NVIDIA RTX 4090");
    assert_eq!(gpu.memory_used, 2_000_000_000);
    assert_eq!(gpu.memory_total, 24_000_000_000);
    assert_eq!(gpu.gpu_utilization, 75);
}

#[test]
fn gpu_usage_needs_name_and_memory() {
    let mut usage = GpuUsage::default();
    usage.record(String::new(), 1, 24, 10);
    assert!(usage.gpu_info().is_none());
    usage.record("AMD Radeon".to_string(), 1, 0, 10);
    assert!(usage.gpu_info().is_none());
    usage.record("AMD Radeon".to_string(), 0, 1, 0);
    assert!(usage.gpu_info().is_some());
}

#[test]
fn gpu_label_joins_vendor_and_model() {
    assert_eq!(gpu_label("NVIDIA", "RTX 4090"), "NVIDIA RTX 4090");
    assert_eq!(gpu_label("", ""), " ");
}
