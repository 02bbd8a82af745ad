use mistralrs_oxide::GpuFeatureDetector;

#[test]
fn no_cuda_means_no_devices() {
    let f = GpuFeatureDetector::detect(false, &[Some((9, 0))]);
    assert!(!f.cuda_available);
    assert_eq!(f.device_count, 0);
    assert!(!f.tensor_cores);
    assert_eq!(f.max_compute_capability, (0, 0));
    assert_eq!(f.summary(), "No CUDA devices found");
}

#[test]
fn greatest_capability_and_flags() {
    let f = GpuFeatureDetector::detect(true, &[Some((7, 5)), None, Some((8, 6)), Some((8, 0))]);
    assert_eq!(f.device_count, 4);
    assert!(f.tensor_cores);
    assert_eq!(f.max_compute_capability, (8, 6));
    assert!(f.supports_fp16);
    assert!(f.supports_bf16);
    assert!(f.supports_async_copy);
    assert_eq!(f.summary(), "CUDA: 4 device(s), CC 8.6, Tensor Cores: true, FP16: true, BF16: true");
}

#[test]
fn old_devices_have_no_tensor_cores() {
    let f = GpuFeatureDetector::detect(true, &[Some((6, 1)), Some((5, 2))]);
    assert!(!f.tensor_cores);
    assert_eq!(f.max_compute_capability, (6, 1));
    assert!(!f.supports_bf16);
    assert!(!f.supports_async_copy);
    assert_eq!(f.summary(), "CUDA: 2 device(s), CC 6.1, Tensor Cores: false, FP16: false, BF16: false");
}

#[test]
fn unreadable_devices_leave_the_capability_at_zero() {
    let f = GpuFeatureDetector::detect(true, &[None, None]);
    assert_eq!(f.device_count, 2);
    assert_eq!(f.max_compute_capability, (0, 0));
    assert!(!f.tensor_cores);
}
