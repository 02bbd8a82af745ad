use mistralrs_oxide::base::{CpuStorage, CudaStorage, DType, Device, Layout, Shape, Storage, StorageData, Tensor};
use mistralrs_oxide::error::OxideError;
use mistralrs_oxide::ops::{add, broadcast_shape, embedding, matmul, matmul_with_bias, mul, repeat_kv};

fn f32_tensor(values: &[f32], dims: &[usize]) -> Tensor {
    let bits: Vec<u32> = values.iter().map(|v| v.to_bits()).collect();
    Tensor::from_f32_bits(&bits, Shape::new(dims)).unwrap()
}

fn i64_tensor(values: &[i64], dims: &[usize]) -> Tensor {
    let mut bytes = Vec::new();
    for v in values {
        bytes.extend_from_slice(&v.to_le_bytes());
    }
    let shape = Shape::new(dims);
    Tensor::from_storage(Storage {
        dtype: DType::I64,
        layout: Layout::contiguous(shape),
        data: StorageData::Cpu(CpuStorage { data: bytes }),
    })
}

fn host_bytes(t: &Tensor) -> Vec<u8> {
    match &t.storage().data {
        StorageData::Cpu(c) => c.data.clone(),
        StorageData::Cuda(_) => panic!("expected host data"),
    }
}

fn host_f32(t: &Tensor) -> Vec<f32> {
    host_bytes(t).chunks(4).map(|c| f32::from_le_bytes([c[0], c[1], c[2], c[3]])).collect()
}

fn message<T>(r: Result<T, OxideError>) -> String {
    match r {
        Err(OxideError::InvalidArgument(m)) => m,
        Err(other) => panic!("unexpected error {:?}", other),
        Ok(_) => panic!("expected a refusal"),
    }
}

#[test]
fn broadcast_aligns_from_the_last_dimension() {
    assert_eq!(broadcast_shape(&[2, 1, 3], &[4, 3]).unwrap(), vec![2, 4, 3]);
    assert_eq!(broadcast_shape(&[4, 3], &[2, 1, 3]).unwrap(), vec![2, 4, 3]);
    assert_eq!(broadcast_shape(&[5], &[]).unwrap(), vec![5]);
    assert_eq!(broadcast_shape(&[0], &[]).unwrap(), vec![1]);
    assert_eq!(message(broadcast_shape(&[2, 3], &[4])), "broadcast: shape mismatch [2, 3] and [4]");
}

#[test]
fn matmul_shape_and_zero_result() {
    let a = f32_tensor(&[1.0; 6], &[2, 3]);
    let b = f32_tensor(&[1.0; 12], &[3, 4]);
    let c = matmul(&a, &b).unwrap();
    assert_eq!(c.dims(), &[2, 4]);
    assert_eq!(c.dtype(), DType::F32);
    assert_eq!(host_f32(&c), vec![0.0; 8]);
}

#[test]
fn matmul_refusals() {
    let v = f32_tensor(&[1.0; 3], &[3]);
    let a = f32_tensor(&[1.0; 6], &[2, 3]);
    let b = f32_tensor(&[1.0; 8], &[2, 4]);
    assert_eq!(message(matmul(&v, &a)), "matmul requires 2D or higher dimensional tensors");
    assert_eq!(message(matmul(&a, &b)), "matmul: dimension mismatch [2, 3] @ [2, 4] - 3 != 2");
    let a3 = f32_tensor(&[1.0; 12], &[2, 2, 3]);
    let b3 = f32_tensor(&[1.0; 18], &[3, 3, 2]);
    assert_eq!(message(matmul(&a3, &b3)), "broadcast: shape mismatch [2] and [3]");
    let gpu = a.to_device(&Device::new_cuda(0).unwrap()).unwrap();
    let b2 = f32_tensor(&[1.0; 12], &[3, 4]);
    assert_eq!(message(matmul(&gpu, &b2)), "matmul requires tensors on same device");
}

#[test]
fn matmul_with_bias_broadcasts_the_bias() {
    let a = f32_tensor(&[1.0; 6], &[2, 3]);
    let b = f32_tensor(&[1.0; 12], &[3, 4]);
    let bias = f32_tensor(&[1.0; 4], &[4]);
    let c = matmul_with_bias(&a, &b, &bias).unwrap();
    assert_eq!(c.dims(), &[2, 4]);
    let bad = f32_tensor(&[1.0; 3], &[3]);
    assert_eq!(message(matmul_with_bias(&a, &b, &bad)), "broadcast: shape mismatch [2, 4] and [3]");
}

#[test]
fn elementwise_results_have_the_broadcast_shape() {
    let a = f32_tensor(&[1.0; 6], &[2, 3]);
    let b = f32_tensor(&[2.0; 3], &[3]);
    let s = add(&a, &b).unwrap();
    assert_eq!(s.dims(), &[2, 3]);
    assert_eq!(host_f32(&s), vec![0.0; 6]);
    let p = mul(&a, &b).unwrap();
    assert_eq!(p.dims(), &[2, 3]);
}

#[test]
fn add_moves_to_the_cuda_operand() {
    let a = f32_tensor(&[1.0; 3], &[3]);
    let gpu = f32_tensor(&[1.0; 3], &[3]).to_device(&Device::new_cuda(1).unwrap()).unwrap();
    let s = add(&a, &gpu).unwrap();
    match &s.storage().data {
        StorageData::Cuda(c) => assert_eq!(*c, CudaStorage { device_id: 1, ptr: 0, len: 12 }),
        _ => panic!("expected a device result"),
    }
}

#[test]
fn mul_refuses_a_host_tensor_with_a_device_one() {
    let a = f32_tensor(&[1.0; 3], &[3]);
    let gpu = f32_tensor(&[1.0; 3], &[3]).to_device(&Device::new_cuda(0).unwrap()).unwrap();
    assert_eq!(message(mul(&a, &gpu)), "Expected f32 tensor");
}

#[test]
fn embedding_gathers_rows() {
    let weight = f32_tensor(&[0.0, 1.0, 10.0, 11.0, 20.0, 21.0], &[3, 2]);
    let idx = i64_tensor(&[2, 0, 2], &[3]);
    let out = embedding(&idx, &weight).unwrap();
    assert_eq!(out.dims(), &[3, 2]);
    assert_eq!(host_f32(&out), vec![20.0, 21.0, 0.0, 1.0, 20.0, 21.0]);
}

#[test]
fn embedding_refusals() {
    let weight = f32_tensor(&[0.0; 6], &[3, 2]);
    let bad_idx = i64_tensor(&[1, 3], &[2]);
    assert_eq!(message(embedding(&bad_idx, &weight)), "embedding index 3 out of bounds for vocab size 3");
    let negative = i64_tensor(&[-1], &[1]);
    assert_eq!(
        message(embedding(&negative, &weight)),
        format!("embedding index {} out of bounds for vocab size 3", usize::MAX)
    );
    let flat = f32_tensor(&[0.0; 6], &[6]);
    assert_eq!(message(embedding(&bad_idx, &flat)), "embedding weight must be 2D");
    let short = f32_tensor(&[0.0; 2], &[2]);
    assert_eq!(message(embedding(&short, &weight)), "Expected i64 indices");
}

#[test]
fn repeat_kv_duplicates_each_head() {
    let x = f32_tensor(&[1.0, 2.0, 3.0, 4.0], &[1, 2, 1, 2]);
    let r = repeat_kv(&x, 2).unwrap();
    assert_eq!(r.dims(), &[1, 4, 1, 2]);
    assert_eq!(host_f32(&r), vec![1.0, 2.0, 1.0, 2.0, 3.0, 4.0, 3.0, 4.0]);
    let small = f32_tensor(&[1.0; 4], &[2, 2]);
    assert_eq!(
        message(repeat_kv(&small, 2)),
        "repeat_kv requires 4D tensor (batch, heads, seq_len, head_dim)"
    );
}

#[test]
fn repeat_kv_once_keeps_the_data() {
    let x = f32_tensor(&[1.0, 2.0, 3.0, 4.0, 5.0, 6.0], &[1, 3, 2, 1]);
    let r = repeat_kv(&x, 1).unwrap();
    assert_eq!(r.dims(), &[1, 3, 2, 1]);
    assert_eq!(host_f32(&r), vec![1.0, 2.0, 3.0, 4.0, 5.0, 6.0]);
}
