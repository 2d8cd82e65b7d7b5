use gguf::parser::{gguf_file, gguf_tensor_info};
use gguf::{
    DecodeError, GGMLType, GGUFError, GGUFFile, GGUFHeader, GGUFMetadata, GGUFMetadataValue,
    GGUFTensorInfo, GGUfMetadataValueType, Malformation,
};

fn malformed(kind: Malformation, offset: usize) -> DecodeError {
    DecodeError::Malformed(GGUFError { kind, offset })
}

fn string_bytes(text: &str) -> Vec<u8> {
    let mut out = (text.len() as u64).to_le_bytes().to_vec();
    out.extend_from_slice(text.as_bytes());
    out
}

fn tensor_bytes(name: &str, dimensions: &[u64], type_code: u32, offset: u64) -> Vec<u8> {
    let mut out = string_bytes(name);
    out.extend_from_slice(&(dimensions.len() as u32).to_le_bytes());
    for d in dimensions {
        out.extend_from_slice(&d.to_le_bytes());
    }
    out.extend_from_slice(&type_code.to_le_bytes());
    out.extend_from_slice(&offset.to_le_bytes());
    out
}

fn header_bytes(tensor_count: u64) -> Vec<u8> {
    let mut out = b"GGUF".to_vec();
    out.extend_from_slice(&3u32.to_le_bytes());
    out.extend_from_slice(&tensor_count.to_le_bytes());
    out.extend_from_slice(&1u64.to_le_bytes());
    out.extend(string_bytes("general.architecture"));
    out.extend_from_slice(&8u32.to_le_bytes());
    out.extend(string_bytes("llama"));
    out
}

fn sample_file() -> Vec<u8> {
    let mut out = header_bytes(2);
    out.extend(tensor_bytes("token_embd.weight", &[4096, 32000], 2, 0));
    out.extend(tensor_bytes("output_norm.weight", &[4096], 0, 73_728_000));
    out
}

fn sample_decoded() -> GGUFFile {
    GGUFFile {
        header: GGUFHeader {
            version: 3,
            tensor_count: 2,
            metadata: vec![GGUFMetadata {
                key: "general.architecture".to_string(),
                value_type: GGUfMetadataValueType::String,
                value: GGUFMetadataValue::String("llama".to_string()),
            }],
        },
        tensors: vec![
            GGUFTensorInfo {
                name: "token_embd.weight".to_string(),
                dimensions: vec![4096, 32000],
                tensor_type: GGMLType::Q4_0,
                offset: 0,
            },
            GGUFTensorInfo {
                name: "output_norm.weight".to_string(),
                dimensions: vec![4096],
                tensor_type: GGMLType::F32,
                offset: 73_728_000,
            },
        ],
    }
}

#[test]
fn tensor_info() {
    let bytes = tensor_bytes("blk.0.attn_q.weight", &[4096, 4096], 12, 1 << 33);
    let expected = GGUFTensorInfo {
        name: "blk.0.attn_q.weight".to_string(),
        dimensions: vec![4096, 4096],
        tensor_type: GGMLType::Q4K,
        offset: 1 << 33,
    };
    assert_eq!(gguf_tensor_info(&bytes, 0), Ok((bytes.len(), expected)));
}

#[test]
fn tensor_info_without_dimensions() {
    let bytes = tensor_bytes("scalar", &[], 18, 64);
    let expected = GGUFTensorInfo {
        name: "scalar".to_string(),
        dimensions: vec![],
        tensor_type: GGMLType::I32,
        offset: 64,
    };
    assert_eq!(gguf_tensor_info(&bytes, 0), Ok((8 + 6 + 4 + 4 + 8, expected)));
}

#[test]
fn tensor_info_with_many_dimensions() {
    let dimensions: Vec<u64> = (1..=9).collect();
    let bytes = tensor_bytes("t", &dimensions, 1, 0);
    match gguf_tensor_info(&bytes, 0) {
        Ok((next, info)) => {
            assert_eq!(next, bytes.len());
            assert_eq!(info.dimensions, dimensions);
            assert_eq!(info.tensor_type, GGMLType::F16);
        },
        other => panic!("not decoded: {:?}", other),
    }
}

#[test]
fn tensor_offset_is_not_checked() {
    let bytes = tensor_bytes("t", &[1], 0, u64::MAX);
    match gguf_tensor_info(&bytes, 0) {
        Ok((_, info)) => assert_eq!(info.offset, u64::MAX),
        other => panic!("not decoded: {:?}", other),
    }
}

#[test]
fn tensor_info_with_reserved_type_is_malformed() {
    let bytes = tensor_bytes("t", &[2, 3], 4, 0);
    assert_eq!(
        gguf_tensor_info(&bytes, 0),
        Err(malformed(Malformation::UnknownTensorType(4), 9 + 4 + 16))
    );
    let bytes = tensor_bytes("t", &[], 5, 0);
    assert_eq!(
        gguf_tensor_info(&bytes, 0),
        Err(malformed(Malformation::UnknownTensorType(5), 13))
    );
}

#[test]
fn tensor_info_cut_short_needs_more_at_every_length() {
    let bytes = tensor_bytes("blk.0.ffn_up.weight", &[11008, 4096], 14, 12345);
    for k in 0..bytes.len() {
        assert_eq!(gguf_tensor_info(&bytes[..k], 0), Err(DecodeError::NeedMoreBytes));
    }
}

#[test]
fn tensor_info_declaring_more_dimensions_than_are_there_needs_more() {
    let mut bytes = string_bytes("t");
    bytes.extend_from_slice(&u32::MAX.to_le_bytes());
    bytes.extend_from_slice(&[0u8; 64]);
    assert_eq!(gguf_tensor_info(&bytes, 0), Err(DecodeError::NeedMoreBytes));
}

#[test]
fn file_with_two_tensors() {
    assert_eq!(GGUFFile::read(&sample_file()), Ok(Some(sample_decoded())));
}

#[test]
fn file_has_as_many_tensors_as_its_header_declares() {
    for n in 0..5u64 {
        let mut bytes = header_bytes(n);
        for i in 0..n {
            bytes.extend(tensor_bytes("t", &[i], 0, i));
        }
        match GGUFFile::read(&bytes) {
            Ok(Some(file)) => {
                assert_eq!(file.header.tensor_count, n);
                assert_eq!(file.tensors.len() as u64, n);
            },
            other => panic!("not decoded: {:?}", other),
        }
    }
}

#[test]
fn file_leaves_the_tensor_data_alone() {
    let mut bytes = sample_file();
    let end = bytes.len();
    bytes.extend_from_slice(&[0xff; 100]);
    assert_eq!(gguf_file(&bytes), Ok((end, sample_decoded())));
}

#[test]
fn file_cut_short_needs_more_at_every_length() {
    let bytes = sample_file();
    for k in 0..bytes.len() {
        assert_eq!(GGUFFile::read(&bytes[..k]), Ok(None));
    }
}

#[test]
fn file_declaring_more_tensors_than_are_there_needs_more() {
    let mut bytes = header_bytes(3);
    bytes.extend(tensor_bytes("a", &[1], 0, 0));
    bytes.extend(tensor_bytes("b", &[1], 0, 0));
    assert_eq!(GGUFFile::read(&bytes), Ok(None));
}

#[test]
fn file_with_corrupted_magic_is_malformed() {
    let mut bytes = sample_file();
    bytes[..4].copy_from_slice(b"GGUX");
    assert_eq!(
        GGUFFile::read(&bytes),
        Err(GGUFError { kind: Malformation::BadMagic, offset: 0 })
    );
}

#[test]
fn file_with_a_bad_tensor_is_malformed() {
    let mut bytes = header_bytes(2);
    let first = tensor_bytes("a", &[1], 0, 0);
    let at = bytes.len() + first.len() + 9 + 4;
    bytes.extend(first);
    bytes.extend(tensor_bytes("b", &[], 5, 0));
    assert_eq!(
        GGUFFile::read(&bytes),
        Err(GGUFError { kind: Malformation::UnknownTensorType(5), offset: at })
    );
}

#[test]
fn file_with_a_bad_tensor_name_is_malformed() {
    let mut bytes = header_bytes(1);
    let at = bytes.len() + 8;
    bytes.extend_from_slice(&1u64.to_le_bytes());
    bytes.push(0x80);
    assert_eq!(
        GGUFFile::read(&bytes),
        Err(GGUFError { kind: Malformation::InvalidUtf8, offset: at })
    );
}

#[test]
fn what_is_malformed_stays_malformed_when_bytes_follow() {
    let mut bytes = header_bytes(1);
    bytes.extend(tensor_bytes("t", &[], 4, 0));
    let verdict = GGUFFile::read(&bytes);
    assert!(verdict.is_err());
    for extra in 1..20 {
        let mut longer = bytes.clone();
        longer.extend(std::iter::repeat(0x5a).take(extra));
        assert_eq!(GGUFFile::read(&longer), verdict);
    }
}

#[test]
fn every_prefix_either_needs_more_or_agrees_with_the_whole() {
    let mut bytes = sample_file();
    bytes.extend_from_slice(&[1, 2, 3, 4, 5]);
    let whole = GGUFFile::read(&bytes);
    for k in 0..=bytes.len() {
        let part = GGUFFile::read(&bytes[..k]);
        assert!(part == Ok(None) || part == whole);
    }
}
