use mistralrs_oxide::base::{DType, Device, Shape, Tensor};
use mistralrs_oxide::error::OxideError;

fn message<T>(r: Result<T, OxideError>) -> String {
    match r {
        Err(OxideError::InvalidArgument(m)) => m,
        _ => panic!("expected a refusal"),
    }
}

#[test]
fn tensor_refusal_messages() {
    let t = Tensor::zeros(Shape::new(&[2, 3]), DType::F32, &Device::Cpu).unwrap();
    assert_eq!(message(t.transpose(0, 2)), "transpose: dims 0 and 2 out of range for rank 2");
    assert_eq!(message(t.narrow(2, 0, 1)), "narrow: dim 2 out of range for 2 dimensions");
    assert_eq!(message(t.narrow(1, 2, 2)), "narrow: range 2..4 exceeds dimension size 3");
    assert_eq!(message(t.reshape(Shape::new(&[4]))), "reshape: shape mismatch 6 != 4");
    assert_eq!(message(Tensor::cat(&[], 0)), "cat: requires at least one tensor");
    assert_eq!(message(Tensor::cat(&[t.clone()], 2)), "cat: dim 2 out of range for rank 2");
    let u = Tensor::zeros(Shape::new(&[2, 3]), DType::F16, &Device::Cpu).unwrap();
    assert_eq!(message(Tensor::cat(&[t.clone(), u], 0)), "cat: dtype mismatch F16 != F32");
    let v = Tensor::zeros(Shape::new(&[6]), DType::F32, &Device::Cpu).unwrap();
    assert_eq!(message(Tensor::cat(&[t.clone(), v], 0)), "cat: rank mismatch 1 != 2");
}

#[test]
fn cat_sums_the_joined_dimension() {
    let a = Tensor::zeros(Shape::new(&[2, 3]), DType::F32, &Device::Cpu).unwrap();
    let b = Tensor::zeros(Shape::new(&[2, 5]), DType::F32, &Device::Cpu).unwrap();
    let c = Tensor::cat(&[a, b], 1).unwrap();
    assert_eq!(c.dims(), &[2, 8]);
}

#[test]
fn transpose_swaps_dimensions_and_strides() {
    let t = Tensor::zeros(Shape::new(&[2, 3, 4]), DType::F32, &Device::Cpu).unwrap();
    let u = t.transpose(0, 2).unwrap();
    assert_eq!(u.dims(), &[4, 3, 2]);
    assert_eq!(&u.storage().layout.strides[..3], &[1, 4, 12]);
    let back = u.transpose(0, 2).unwrap();
    assert_eq!(back.dims(), &[2, 3, 4]);
    assert!(back.is_contiguous());
}

#[test]
fn from_f32_bits_stores_little_endian_words() {
    let t = Tensor::from_f32_bits(&[0x3F800000, 2], Shape::new(&[2])).unwrap();
    assert_eq!(t.dtype(), DType::F32);
    match &t.storage().data {
        mistralrs_oxide::base::StorageData::Cpu(c) => assert_eq!(c.data, vec![0, 0, 0x80, 0x3F, 2, 0, 0, 0]),
        _ => panic!("expected host data"),
    }
}
