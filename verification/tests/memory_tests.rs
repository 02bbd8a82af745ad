use mistralrs_oxide::base::{DType, Device};
use mistralrs_oxide::cuda_backend::{GpuMemoryPool, PinnedMemory};
use mistralrs_oxide::error::OxideError;
use mistralrs_oxide::kernels::GpuStream;

#[test]
fn pool_books_allocations_and_keeps_the_peak() {
    let mut pool = GpuMemoryPool::new(3).unwrap();
    let s = pool.stats();
    assert_eq!((s.used_bytes, s.peak_bytes, s.device_id), (0, 0, 3));
    assert_eq!(pool.allocate(100, Ok::<u32, String>(7)).unwrap(), 7);
    assert_eq!(pool.allocate(50, Ok::<u32, String>(8)).unwrap(), 8);
    let s = pool.stats();
    assert_eq!((s.used_bytes, s.peak_bytes), (150, 150));
    assert!(s.used_bytes <= s.peak_bytes);
}

#[test]
fn pool_refusal_changes_nothing() {
    let mut pool = GpuMemoryPool::new(0).unwrap();
    pool.allocate(10, Ok::<(), String>(())).unwrap();
    match pool.allocate::<()>(20, Err("out of memory".to_string())) {
        Err(OxideError::CudaError(m)) => assert_eq!(m, "Allocation failed: out of memory"),
        _ => panic!("expected a refusal"),
    }
    let s = pool.stats();
    assert_eq!((s.used_bytes, s.peak_bytes), (10, 10));
}

#[test]
fn pool_counts_tensor_bytes_by_dtype() {
    let mut pool = GpuMemoryPool::new(1).unwrap();
    pool.allocate_for_tensor(6, DType::F32, Ok::<(), String>(())).unwrap();
    pool.allocate_for_tensor(6, DType::F16, Ok::<(), String>(())).unwrap();
    assert_eq!(pool.stats().used_bytes, 36);
}

#[test]
fn pinned_memory_is_zeroed() {
    assert_eq!(PinnedMemory::allocate(5).unwrap(), vec![0u8; 5]);
    assert_eq!(PinnedMemory::allocate_for_tensor(3, DType::F32).unwrap().len(), 12);
    assert_eq!(PinnedMemory::allocate_for_tensor(3, DType::U8).unwrap().len(), 3);
}

#[test]
fn stream_keeps_its_device() {
    let d = Device::new_cuda(2).unwrap();
    let s = GpuStream::new(&d).unwrap();
    assert!(s.device().same_device(&d));
    assert!(s.synchronize().is_ok());
    let t = GpuStream::default_stream(&Device::Cpu).unwrap();
    assert!(t.device().is_cpu());
}

#[test]
fn devices_are_the_same_by_kind_and_ordinal() {
    let a = Device::new_cuda(0).unwrap();
    let b = Device::new_cuda(0).unwrap();
    let c = Device::new_cuda(1).unwrap();
    assert!(a.same_device(&b));
    assert!(!a.same_device(&c));
    assert!(!a.same_device(&Device::Cpu));
    assert!(Device::Cpu.same_device(&Device::Cpu));
}

#[test]
fn typed_allocation_and_free_leave_the_counts() {
    let mut pool = GpuMemoryPool::new(0).unwrap();
    pool.allocate(8, Ok::<(), String>(())).unwrap();
    assert_eq!(pool.allocate_typed(Ok::<u8, String>(3)).unwrap(), 3);
    match pool.allocate_typed::<u8>(Err("busy".to_string())) {
        Err(OxideError::CudaError(m)) => assert_eq!(m, "Allocation failed: busy"),
        _ => panic!("expected a refusal"),
    }
    pool.free(vec![0u8; 8]);
    let s = pool.stats();
    assert_eq!((s.used_bytes, s.peak_bytes), (8, 8));
}
