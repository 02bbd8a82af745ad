use mistralrs_oxide::base::{Device, Shape, StorageData, Tensor};
use mistralrs_oxide::error::OxideError;
use mistralrs_oxide::layers::{Embedding, Linear, MLP, MultiHeadAttention};

fn host_f32(t: &Tensor) -> Vec<f32> {
    match &t.storage().data {
        StorageData::Cpu(c) => c.data.chunks(4).map(|c| f32::from_le_bytes([c[0], c[1], c[2], c[3]])).collect(),
        StorageData::Cuda(_) => panic!("expected host data"),
    }
}

#[test]
fn linear_starts_at_one_hundredth() {
    let l = Linear::new(3, 2, true, &Device::Cpu).unwrap();
    assert_eq!(l.weight().dims(), &[2, 3]);
    assert_eq!(host_f32(l.weight()), vec![0.01f32; 6]);
    assert_eq!(host_f32(l.bias().unwrap()), vec![0.0f32; 2]);
    assert_eq!(l.in_features(), 3);
    assert_eq!(l.out_features(), 2);
    let nb = Linear::new(3, 2, false, &Device::Cpu).unwrap();
    assert!(nb.bias().is_none());
}

#[test]
fn linear_forward_shape() {
    let l = Linear::new(3, 2, true, &Device::Cpu).unwrap();
    let x = Tensor::from_f32_bits(&[0u32; 12], Shape::new(&[4, 3])).unwrap();
    let y = l.forward(&x).unwrap();
    assert_eq!(y.dims(), &[4, 2]);
    let wrong = Tensor::from_f32_bits(&[0u32; 8], Shape::new(&[4, 2])).unwrap();
    match l.forward(&wrong) {
        Err(OxideError::InvalidArgument(m)) => assert_eq!(m, "matmul: dimension mismatch [4, 2] @ [3, 2] - 2 != 3"),
        _ => panic!("expected a refusal"),
    }
}

#[test]
fn linear_with_a_flat_weight_refuses_forward() {
    let w = Tensor::from_f32_bits(&[0u32; 3], Shape::new(&[3])).unwrap();
    let l = Linear::from_tensors(w, None).unwrap();
    let x = Tensor::from_f32_bits(&[0u32; 3], Shape::new(&[1, 3])).unwrap();
    match l.forward(&x) {
        Err(OxideError::InvalidArgument(m)) => assert_eq!(m, "transpose: dims 0 and 1 out of range for rank 1"),
        _ => panic!("expected a refusal"),
    }
}

#[test]
fn embedding_table_starts_at_one_thousandth() {
    let e = Embedding::new(4, 2, &Device::Cpu).unwrap();
    assert_eq!(e.num_embeddings(), 4);
    assert_eq!(e.embedding_dim(), 2);
    assert_eq!(host_f32(e.weight()), vec![0.001f32; 8]);
}

#[test]
fn embedding_from_tensor_needs_two_dimensions() {
    let w = Tensor::from_f32_bits(&[0u32; 6], Shape::new(&[3, 2])).unwrap();
    let e = Embedding::from_tensor(w).unwrap();
    assert_eq!(e.num_embeddings(), 3);
    assert_eq!(e.embedding_dim(), 2);
    let flat = Tensor::from_f32_bits(&[0u32; 6], Shape::new(&[6])).unwrap();
    match Embedding::from_tensor(flat) {
        Err(OxideError::InvalidArgument(m)) => assert_eq!(m, "Embedding weight must be 2D"),
        _ => panic!("expected a refusal"),
    }
}

#[test]
fn attention_and_mlp_projection_shapes() {
    let m = MultiHeadAttention::new(8, 4, 2, &Device::Cpu).unwrap();
    assert_eq!(m.head_dim, 2);
    assert_eq!(m.q_proj.weight().dims(), &[8, 8]);
    assert_eq!(m.k_proj.weight().dims(), &[4, 8]);
    assert_eq!(m.v_proj.out_features(), 4);
    let mlp = MLP::new(4, 16, &Device::Cpu).unwrap();
    assert_eq!(mlp.gate_proj.weight().dims(), &[16, 4]);
    assert_eq!(mlp.down_proj.weight().dims(), &[4, 16]);
    let q = Linear::new(6, 6, true, &Device::Cpu).unwrap();
    let k = Linear::new(6, 6, true, &Device::Cpu).unwrap();
    let v = Linear::new(6, 6, true, &Device::Cpu).unwrap();
    let o = Linear::new(6, 6, true, &Device::Cpu).unwrap();
    let a = MultiHeadAttention::from_linear_layers(q, k, v, o, 3, 3).unwrap();
    assert_eq!(a.hidden_dim, 6);
    assert_eq!(a.head_dim, 2);
}
