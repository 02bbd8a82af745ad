use mistralrs_oxide::cuda_backend::context::DeviceProperties;
use mistralrs_oxide::cuda_backend::errors::{CudaError, DeviceErrorTracker, RecoveryStrategy};
use mistralrs_oxide::kernels::{cuda_available, get_kernel_metadata};

#[test]
fn test_device_properties() {
    let props = DeviceProperties {
        device_id: 0,
        name: "RTX 3060".to_string(),
        major: 8,
        minor: 6,
        total_memory: 6 * 1024 * 1024 * 1024,
        shared_memory_per_block: 48 * 1024,
        max_threads_per_block: 1024,
        max_block_dim: (1024, 1024, 64),
        max_grid_dim: (2147483647, 65535, 65535),
        warp_size: 32,
        memory_clock_rate: 8000,
        memory_bus_width: 256,
        l2_cache_size: 4 * 1024 * 1024,
    };

    assert!(props.has_tensor_cores());
    assert!(props.supports_async_copy());
}

#[test]
fn test_cuda_error_codes() {
    assert_eq!(CudaError::from_raw(0), CudaError::Success);
    assert_eq!(CudaError::from_raw(2), CudaError::MemoryAllocation);
    assert_eq!(CudaError::from_raw(999), CudaError::Unknown);
}

#[test]
fn test_error_recoverability() {
    assert!(!CudaError::LaunchFailure.is_recoverable());
    assert!(CudaError::MemoryAllocation.is_recoverable());
    assert!(CudaError::InvalidDevicePointer.is_recoverable());
}

#[test]
fn test_recovery_strategy() {
    let oom = RecoveryStrategy::from_error(&CudaError::MemoryAllocation);
    assert!(matches!(oom, RecoveryStrategy::ClearCache));

    let timeout = RecoveryStrategy::from_error(&CudaError::LaunchTimeout);
    assert!(matches!(timeout, RecoveryStrategy::Retry { .. }));
}

#[test]
fn test_device_tracker() {
    let mut tracker = DeviceErrorTracker::new(2);

    tracker.record(0, CudaError::MemoryAllocation);
    tracker.record(0, CudaError::MemoryAllocation);

    assert_eq!(tracker.devices[0].error_count, 2);
    assert!(tracker.is_healthy(0));

    tracker.record(0, CudaError::MemoryAllocation);
    tracker.record(0, CudaError::MemoryAllocation);
    tracker.record(0, CudaError::MemoryAllocation);

    assert!(!tracker.is_healthy(0));

    assert_eq!(tracker.healthiest_device(), Some(1));
}

#[test]
fn test_cuda_availability() {
    let available = cuda_available();
    println!("CUDA available: {}", available);
}

#[test]
fn test_kernel_metadata() {
    let metadata = get_kernel_metadata();
    assert!(!metadata.is_empty());
    for meta in metadata {
        println!("Kernel: {} (regs: {}, shared: {})", meta.name, meta.num_regs, meta.shared_mem_bytes);
    }
}

#[test]
fn test_feature_detection() {
    // No CUDA driver answers on this machine, so the probe finds nothing.
    let features = mistralrs_oxide::GpuFeatureDetector::detect(false, &[]);
    println!("{}", features.summary());
}
