use mistralrs_oxide::base::{DType, Device, Shape, StorageData, Tensor};
use mistralrs_oxide::cuda_backend::errors::{CudaError, DeviceErrorTracker, DeviceHealth};
use mistralrs_oxide::error::OxideError;
use mistralrs_oxide::kernels::execution::{KernelConfig, KernelExecutor};
use mistralrs_oxide::kernels::GpuOpDispatcher;
use mistralrs_oxide::loading::gguf::{GgufLoader, GgufValue};
use mistralrs_oxide::loading::safetensors::SafetensorsLoader;
use mistralrs_oxide::tokenizer::SimpleTokenizer;

fn st_file(header: &str, data: &[u8]) -> Vec<u8> {
    let mut b = Vec::new();
    b.extend_from_slice(&(header.len() as u64).to_le_bytes());
    b.extend_from_slice(header.as_bytes());
    b.extend_from_slice(data);
    b
}

#[test]
fn header_with_an_overflowing_end_is_not_read() {
    let h = r#"{"a":{"dtype":"U8","shape":[18446744073709551615],"data_offsets":[0,18446744073709551615]}}"#;
    assert!(SafetensorsLoader::load_from_bytes(&st_file(h, &[]), &Device::Cpu).is_none());
}

#[test]
fn header_refusal_and_every_tensor_loaded() {
    match SafetensorsLoader::load_from_bytes(&st_file("{not json", &[]), &Device::Cpu) {
        Some(Err(OxideError::SerializationError(_))) => {},
        _ => panic!("expected the crate's refusal"),
    }
    let h = r#"{"a":{"dtype":"F32","shape":[1],"data_offsets":[0,4]},"b":{"dtype":"F32","shape":[1],"data_offsets":[4,8]}}"#;
    let mut data = Vec::new();
    data.extend_from_slice(&1.0f32.to_le_bytes());
    data.extend_from_slice(&2.0f32.to_le_bytes());
    let loaded = SafetensorsLoader::load_from_bytes(&st_file(h, &data), &Device::Cpu).unwrap().unwrap();
    let mut names: Vec<String> = loaded.iter().map(|(n, _, _)| n.clone()).collect();
    names.sort();
    assert_eq!(names, vec!["a".to_string(), "b".to_string()]);
}

#[test]
fn saved_bytes_of_tensors() {
    let t = Tensor::from_f32_bits(&[0x3F800000, 0x40000000], Shape::new(&[2])).unwrap();
    assert_eq!(SafetensorsLoader::tensor_to_bytes(&t).unwrap(), vec![0, 0, 0x80, 0x3F, 0, 0, 0, 0x40]);
    let h = Tensor::zeros(Shape::new(&[2]), DType::F16, &Device::Cpu).unwrap();
    match SafetensorsLoader::tensor_to_bytes(&h) {
        Err(OxideError::UnsupportedOperation(m)) => assert_eq!(m, "Save not implemented for dtype F16"),
        _ => panic!("expected a refusal"),
    }
    let d = Tensor::zeros(Shape::new(&[3]), DType::F32, &Device::new_cuda(0).unwrap()).unwrap();
    assert_eq!(SafetensorsLoader::tensor_to_bytes(&d).unwrap(), vec![0u8; 12]);
}

fn gguf_with_repeated_key() -> Vec<u8> {
    let mut b = Vec::new();
    let push_u32 = |b: &mut Vec<u8>, x: u32| b.extend_from_slice(&x.to_le_bytes());
    let push_u64 = |b: &mut Vec<u8>, x: u64| b.extend_from_slice(&x.to_le_bytes());
    push_u32(&mut b, 0x46554747);
    push_u32(&mut b, 3);
    push_u64(&mut b, 0);
    push_u64(&mut b, 2);
    for v in [7u32, 9u32] {
        push_u64(&mut b, 6);
        b.extend_from_slice(b"layers");
        push_u32(&mut b, 4);
        push_u32(&mut b, v);
    }
    b
}

#[test]
fn metadata_lookup_gives_the_last_value_of_a_key() {
    let meta = match GgufLoader::parse_metadata(&gguf_with_repeated_key()) {
        Some(Ok(m)) => m,
        _ => panic!("expected a parsed file"),
    };
    assert_eq!(meta.metadata.len(), 1);
    assert_eq!(meta.num_kv, 2);
    assert!(matches!(meta.get("layers"), Some(GgufValue::Uint32(9))));
    assert!(meta.get("heads").is_none());
}

#[test]
fn dispatcher_runs_the_cpu_implementation() {
    let mut out = Tensor::zeros(Shape::new(&[1]), DType::F32, &Device::Cpu).unwrap();
    let marker = Tensor::zeros(Shape::new(&[4]), DType::F32, &Device::Cpu).unwrap();
    for d in [GpuOpDispatcher::new(&Device::Cpu), GpuOpDispatcher::new(&Device::new_cuda(0).unwrap())] {
        let r = d.execute(
            &[],
            &mut out,
            |_inputs: &[&Tensor], o: &mut Tensor| {
                *o = marker.clone();
                Ok(())
            },
            |_inputs: &[&Tensor], _o: &mut Tensor| Err(OxideError::InvalidArgument("gpu".to_string())),
        );
        assert!(r.is_ok());
        assert_eq!(out.dims(), &[4]);
    }
}

#[test]
fn health_follows_errors_since_the_last_success() {
    let mut t = DeviceErrorTracker::new(2);
    t.record(0, CudaError::KernelLaunchFailed);
    t.record(0, CudaError::KernelLaunchFailed);
    t.record(1, CudaError::KernelLaunchFailed);
    t.record(1, CudaError::KernelLaunchFailed);
    t.record(1, CudaError::KernelLaunchFailed);
    assert_eq!(t.health_status(), vec![(DeviceHealth::Warning, 0), (DeviceHealth::Critical, 1)]);
    t.record_success(1);
    t.record(0, CudaError::KernelLaunchFailed);
    assert_eq!(t.health_status(), vec![(DeviceHealth::Critical, 0), (DeviceHealth::Healthy, 1)]);
}

#[test]
fn special_tokens_round_trip() {
    let t = SimpleTokenizer::from_simple_words(vec!["hello", "world"]);
    assert_eq!(t.decode(&t.encode("hello world", true), true), "hello world ");
    assert_eq!(t.decode(&t.encode("  ", true), true), "");
}

#[test]
fn launch_geometry_up_to_the_last_item() {
    let e = KernelExecutor::new(KernelConfig { block_size_1d: 256, block_size_2d: 16, max_threads_per_block: 1024 });
    let n = usize::MAX - 256;
    let (blocks, threads) = e.launch_config_1d(n);
    assert_eq!(threads, 256);
    assert_eq!(blocks, n / 256 + 1);
}

#[test]
fn error_messages_are_present_and_distinct() {
    let kinds = [
        CudaError::Success,
        CudaError::MissingConfiguration,
        CudaError::MemoryAllocation,
        CudaError::InitializationError,
        CudaError::LaunchFailure,
        CudaError::PriorLaunchFailure,
        CudaError::LaunchTimeout,
        CudaError::LaunchOutOfResources,
        CudaError::InvalidDevicePointer,
        CudaError::InvalidMemcpyDirection,
        CudaError::InsufficientDriver,
        CudaError::NoDevice,
        CudaError::InvalidDevice,
        CudaError::StartupFailure,
        CudaError::ApiFailureBase,
        CudaError::Unknown,
        CudaError::DeviceNotInitialized,
        CudaError::KernelCompilationFailed,
        CudaError::PtxLoadFailed,
        CudaError::KernelLaunchFailed,
    ];
    for (i, a) in kinds.iter().enumerate() {
        assert!(!a.message().is_empty());
        for b in &kinds[i + 1..] {
            assert_ne!(a.message(), b.message());
        }
    }
    assert_eq!(CudaError::Success.message(), "No error");
    assert_eq!(CudaError::InvalidDevice.message(), "Invalid device ordinal");
}
