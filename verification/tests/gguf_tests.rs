use mistralrs_oxide::error::OxideError;
use mistralrs_oxide::loading::gguf::{ElementBits, GgmlDType, GgufLoader, GgufTensorInfo, GgufValue};

fn push_u32(b: &mut Vec<u8>, x: u32) {
    b.extend_from_slice(&x.to_le_bytes());
}

fn push_u64(b: &mut Vec<u8>, x: u64) {
    b.extend_from_slice(&x.to_le_bytes());
}

fn push_text(b: &mut Vec<u8>, s: &str) {
    push_u64(b, s.len() as u64);
    b.extend_from_slice(s.as_bytes());
}

fn header(b: &mut Vec<u8>, n_tensors: u64, n_kv: u64) {
    push_u32(b, 0x46554747);
    push_u32(b, 3);
    push_u64(b, n_tensors);
    push_u64(b, n_kv);
}

/// A file with a name, an integer and a float pair and one F32 tensor of
/// shape [2, 3] whose data follows the descriptions.
fn sample_file() -> (Vec<u8>, usize) {
    let mut b = Vec::new();
    header(&mut b, 1, 3);
    push_text(&mut b, "general.name");
    push_u32(&mut b, 11);
    push_text(&mut b, "tiny");
    push_text(&mut b, "layers");
    push_u32(&mut b, 4);
    push_u32(&mut b, 7);
    push_text(&mut b, "eps");
    push_u32(&mut b, 6);
    push_u32(&mut b, 0.5f32.to_bits());
    push_text(&mut b, "w");
    push_u32(&mut b, 2);
    push_u64(&mut b, 2);
    push_u64(&mut b, 3);
    push_u32(&mut b, 0);
    let offset_pos = b.len();
    push_u64(&mut b, 0);
    let data_start = b.len();
    b[offset_pos..offset_pos + 8].copy_from_slice(&(data_start as u64).to_le_bytes());
    for i in 0..6u32 {
        push_u32(&mut b, (i as f32).to_bits());
    }
    (b, data_start)
}

#[test]
fn parses_header_pairs_and_tensor_descriptions() {
    let (b, data_start) = sample_file();
    let meta = match GgufLoader::parse_metadata(&b) {
        Some(Ok(m)) => m,
        _ => panic!("expected a parsed file"),
    };
    assert_eq!(meta.version, 3);
    assert_eq!(meta.num_tensors, 1);
    assert_eq!(meta.num_kv, 3);
    assert_eq!(meta.metadata.len(), 3);
    assert_eq!(meta.metadata[0].0, "general.name");
    assert!(matches!(&meta.metadata[0].1, GgufValue::String(s) if s == "tiny"));
    assert!(matches!(meta.metadata[1].1, GgufValue::Uint32(7)));
    assert!(matches!(meta.metadata[2].1, GgufValue::Float32(bits) if f32::from_bits(bits) == 0.5));
    assert_eq!(meta.tensors.len(), 1);
    assert_eq!(meta.tensors[0].name, "w");
    assert_eq!(meta.tensors[0].dims, vec![2, 3]);
    assert_eq!(meta.tensors[0].dtype, GgmlDType::F32);
    assert_eq!(meta.tensors[0].offset, data_start as u64);
}

#[test]
fn decodes_f32_tensor_data() {
    let (b, _) = sample_file();
    let meta = match GgufLoader::parse_metadata(&b) {
        Some(Ok(m)) => m,
        _ => panic!("expected a parsed file"),
    };
    match GgufLoader::decode_elements(&b, &meta.tensors[0]) {
        Some(Ok((shape, ElementBits::F32(words)))) => {
            assert_eq!(shape.dims(), &[2, 3]);
            let values: Vec<f32> = words.iter().map(|w| f32::from_bits(*w)).collect();
            assert_eq!(values, vec![0.0, 1.0, 2.0, 3.0, 4.0, 5.0]);
        },
        _ => panic!("expected F32 elements"),
    }
}

#[test]
fn decodes_f16_tensor_data_as_halves() {
    let mut data = vec![0u8; 4];
    data.extend_from_slice(&0x3C00u16.to_le_bytes());
    data.extend_from_slice(&0xC000u16.to_le_bytes());
    let info = GgufTensorInfo { name: "h".to_string(), dims: vec![2], dtype: GgmlDType::F16, offset: 4 };
    match GgufLoader::decode_elements(&data, &info) {
        Some(Ok((shape, ElementBits::F16(h)))) => {
            assert_eq!(shape.dims(), &[2]);
            assert_eq!(h, vec![0x3C00, 0xC000]);
        },
        _ => panic!("expected F16 elements"),
    }
}

#[test]
fn decode_refuses_quantized_encodings() {
    let info = GgufTensorInfo { name: "q".to_string(), dims: vec![32], dtype: GgmlDType::Q4_0, offset: 0 };
    match GgufLoader::decode_elements(&[], &info) {
        Some(Err(OxideError::InvalidArgument(m))) => assert_eq!(m, "GGUF dtype Q4_0 not yet implemented"),
        _ => panic!("expected a refusal"),
    }
}

#[test]
fn decode_past_the_end_is_none() {
    let info = GgufTensorInfo { name: "w".to_string(), dims: vec![4], dtype: GgmlDType::F32, offset: 0 };
    assert!(GgufLoader::decode_elements(&[0u8; 15], &info).is_none());
    let too_many = GgufTensorInfo { name: "w".to_string(), dims: vec![1; 9], dtype: GgmlDType::F32, offset: 0 };
    assert!(GgufLoader::decode_elements(&[0u8; 64], &too_many).is_none());
}

#[test]
fn empty_tensor_needs_no_data() {
    let info = GgufTensorInfo { name: "e".to_string(), dims: vec![3, 0], dtype: GgmlDType::F32, offset: 1000 };
    match GgufLoader::decode_elements(&[], &info) {
        Some(Ok((shape, ElementBits::F32(words)))) => {
            assert_eq!(shape.dims(), &[3, 0]);
            assert!(words.is_empty());
        },
        _ => panic!("expected an empty tensor"),
    }
}

#[test]
fn refuses_small_file_and_bad_magic() {
    match GgufLoader::parse_metadata(&[1, 2, 3]) {
        Some(Err(OxideError::InvalidArgument(m))) => assert_eq!(m, "GGUF file too small"),
        _ => panic!("expected a refusal"),
    }
    match GgufLoader::parse_metadata(&[0x78, 0x56, 0x34, 0x12, 0, 0]) {
        Some(Err(OxideError::InvalidArgument(m))) => assert_eq!(m, "Invalid GGUF magic number: 0x12345678"),
        _ => panic!("expected a refusal"),
    }
}

#[test]
fn truncated_header_is_none() {
    let mut b = Vec::new();
    header(&mut b, 0, 0);
    b.truncate(20);
    assert!(GgufLoader::parse_metadata(&b).is_none());
    let mut c = Vec::new();
    header(&mut c, 0, 1);
    push_text(&mut c, "key");
    assert!(GgufLoader::parse_metadata(&c).is_none());
}

#[test]
fn refuses_unknown_value_type_and_encoding() {
    let mut b = Vec::new();
    header(&mut b, 0, 1);
    push_text(&mut b, "k");
    push_u32(&mut b, 12);
    match GgufLoader::parse_metadata(&b) {
        Some(Err(OxideError::InvalidArgument(m))) => assert_eq!(m, "Unknown GGUF value type: 12"),
        _ => panic!("expected a refusal"),
    }
    let mut c = Vec::new();
    header(&mut c, 1, 0);
    push_text(&mut c, "t");
    push_u32(&mut c, 1);
    push_u64(&mut c, 4);
    push_u32(&mut c, 4);
    push_u64(&mut c, 0);
    match GgufLoader::parse_metadata(&c) {
        Some(Err(OxideError::InvalidArgument(m))) => assert_eq!(m, "Unknown GGML dtype: 4"),
        _ => panic!("expected a refusal"),
    }
}

#[test]
fn refuses_key_that_is_not_utf8() {
    let mut b = Vec::new();
    header(&mut b, 0, 1);
    push_u64(&mut b, 2);
    b.extend_from_slice(&[0xff, 0xfe]);
    push_u32(&mut b, 0);
    b.push(1);
    match GgufLoader::parse_metadata(&b) {
        Some(Err(OxideError::InvalidArgument(m))) => assert_eq!(m, "Invalid UTF-8 in key"),
        _ => panic!("expected a refusal"),
    }
}

#[test]
fn reads_every_fixed_size_value_type() {
    let mut b = Vec::new();
    header(&mut b, 0, 10);
    let mut n = 0u32;
    let mut add = |ty: u32, bytes: &[u8]| {
        push_text(&mut b, &format!("k{}", n));
        n += 1;
        push_u32(&mut b, ty);
        b.extend_from_slice(bytes);
    };
    add(0, &[200]);
    add(1, &[0xff]);
    add(2, &500u16.to_le_bytes());
    add(3, &(-2i16).to_le_bytes());
    add(5, &(-7i32).to_le_bytes());
    add(7, &(1u64 << 40).to_le_bytes());
    add(8, &(-9i64).to_le_bytes());
    add(9, &2.5f64.to_bits().to_le_bytes());
    add(10, &[2]);
    add(10, &[0]);
    let meta = match GgufLoader::parse_metadata(&b) {
        Some(Ok(m)) => m,
        _ => panic!("expected a parsed file"),
    };
    let v: Vec<&GgufValue> = meta.metadata.iter().map(|p| &p.1).collect();
    assert!(matches!(v[0], GgufValue::Uint8(200)));
    assert!(matches!(v[1], GgufValue::Int8(-1)));
    assert!(matches!(v[2], GgufValue::Uint16(500)));
    assert!(matches!(v[3], GgufValue::Int16(-2)));
    assert!(matches!(v[4], GgufValue::Int32(-7)));
    assert!(matches!(v[5], GgufValue::Uint64(x) if *x == 1u64 << 40));
    assert!(matches!(v[6], GgufValue::Int64(-9)));
    assert!(matches!(v[7], GgufValue::Float64(x) if f64::from_bits(*x) == 2.5));
    assert!(matches!(v[8], GgufValue::Bool(true)));
    assert!(matches!(v[9], GgufValue::Bool(false)));
}

#[test]
fn ggml_type_codes_and_sizes() {
    assert_eq!(GgmlDType::from_u32(0).unwrap(), GgmlDType::F32);
    assert_eq!(GgmlDType::from_u32(15).unwrap(), GgmlDType::Q8K);
    assert!(matches!(GgmlDType::from_u32(5), Err(OxideError::InvalidArgument(m)) if m == "Unknown GGML dtype: 5"));
    assert_eq!(GgmlDType::Q4K.block_size(), 256);
    assert_eq!(GgmlDType::Q8_0.block_size(), 32);
    assert_eq!(GgmlDType::Q2K.type_size(), 276);
    assert_eq!(GgmlDType::Q6K.type_size(), 420);
    assert_eq!(GgmlDType::Q8K.type_size(), 642);
    assert_eq!(GgmlDType::Q4_0.debug_name(), "Q4_0");
}
