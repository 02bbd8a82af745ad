use mistralrs_oxide::error::OxideError;
use mistralrs_oxide::loading::gguf::ElementBits;
use mistralrs_oxide::loading::safetensors::{SafetensorEntry, SafetensorsLoader};
use mistralrs_oxide::base::Device;

fn file(header: &str, data: &[u8]) -> Vec<u8> {
    let mut b = Vec::new();
    b.extend_from_slice(&(header.len() as u64).to_le_bytes());
    b.extend_from_slice(header.as_bytes());
    b.extend_from_slice(data);
    b
}

#[test]
fn loads_f32_and_f16_tensors() {
    let mut data = Vec::new();
    data.extend_from_slice(&1.5f32.to_le_bytes());
    data.extend_from_slice(&(-2.0f32).to_le_bytes());
    data.extend_from_slice(&0x3C00u16.to_le_bytes());
    let h = r#"{"a":{"dtype":"F32","shape":[2],"data_offsets":[0,8]},"b":{"dtype":"F16","shape":[1],"data_offsets":[8,10]}}"#;
    let bytes = file(h, &data);
    let loaded = match SafetensorsLoader::load_from_bytes(&bytes, &Device::Cpu) {
        Some(Ok(v)) => v,
        _ => panic!("expected tensors"),
    };
    assert_eq!(loaded.len(), 2);
    for (name, shape, el) in loaded {
        if name == "a" {
            assert_eq!(shape.dims(), &[2]);
            match el {
                ElementBits::F32(w) => assert_eq!(w, vec![1.5f32.to_bits(), (-2.0f32).to_bits()]),
                _ => panic!("expected F32"),
            }
        } else {
            assert_eq!(name, "b");
            match el {
                ElementBits::F16(h) => assert_eq!(h, vec![0x3C00]),
                _ => panic!("expected F16"),
            }
        }
    }
}

#[test]
fn refuses_unsupported_and_undecoded_dtypes() {
    let h = r#"{"a":{"dtype":"I32","shape":[1],"data_offsets":[0,4]}}"#;
    match SafetensorsLoader::load_from_bytes(&file(h, &[0; 4]), &Device::Cpu) {
        Some(Err(OxideError::UnsupportedOperation(m))) => assert_eq!(m, "Unsupported dtype in safetensors: I32"),
        _ => panic!("expected a refusal"),
    }
    let h = r#"{"a":{"dtype":"I64","shape":[1],"data_offsets":[0,8]}}"#;
    match SafetensorsLoader::load_from_bytes(&file(h, &[0; 8]), &Device::Cpu) {
        Some(Err(OxideError::InvalidArgument(m))) => assert_eq!(m, "Dtype I64 not yet implemented for loading"),
        _ => panic!("expected a refusal"),
    }
}

#[test]
fn refuses_a_broken_file() {
    match SafetensorsLoader::load_from_bytes(&[1, 2, 3], &Device::Cpu) {
        Some(Err(OxideError::SerializationError(_))) => {},
        _ => panic!("expected a serialization error"),
    }
}

#[test]
fn entries_load_in_order() {
    let mut data = vec![0u8; 8];
    data[4..8].copy_from_slice(&7u32.to_le_bytes());
    let entries = vec![
        SafetensorEntry { name: "x".to_string(), dtype_name: "F32".to_string(), shape: vec![1], begin: 0, end: 4 },
        SafetensorEntry { name: "y".to_string(), dtype_name: "BF16".to_string(), shape: vec![2], begin: 4, end: 8 },
        SafetensorEntry { name: "z".to_string(), dtype_name: "U8".to_string(), shape: vec![1], begin: 0, end: 1 },
    ];
    let mut whole = vec![0u8; 8];
    whole.extend_from_slice(&data);
    match SafetensorsLoader::load_entries(&whole, 0, &entries[..2]) {
        Some(Ok(v)) => {
            assert_eq!(v[0].0, "x");
            assert_eq!(v[1].0, "y");
            assert!(matches!(&v[1].2, ElementBits::F16(h) if *h == vec![7, 0]));
        },
        _ => panic!("expected two tensors"),
    }
    match SafetensorsLoader::load_entries(&whole, 0, &entries) {
        Some(Err(OxideError::InvalidArgument(m))) => assert_eq!(m, "Dtype U8 not yet implemented for loading"),
        _ => panic!("expected a refusal"),
    }
    let deep = vec![SafetensorEntry { name: "d".to_string(), dtype_name: "F32".to_string(), shape: vec![1; 9], begin: 0, end: 4 }];
    assert!(SafetensorsLoader::load_entries(&whole, 0, &deep).is_none());
}
