use gguf::parser::{gguf_metadata_value_type, gguf_tensor_type};
use gguf::{DecodeError, GGMLType, GGUFError, GGUfMetadataValueType, Malformation};

fn malformed(kind: Malformation, offset: usize) -> DecodeError {
    DecodeError::Malformed(GGUFError { kind, offset })
}

#[test]
fn value_type_codes() {
    let table = [
        (0, GGUfMetadataValueType::Uint8),
        (1, GGUfMetadataValueType::Int8),
        (2, GGUfMetadataValueType::Uint16),
        (3, GGUfMetadataValueType::Int16),
        (4, GGUfMetadataValueType::Uint32),
        (5, GGUfMetadataValueType::Int32),
        (6, GGUfMetadataValueType::Float32),
        (7, GGUfMetadataValueType::Bool),
        (8, GGUfMetadataValueType::String),
        (9, GGUfMetadataValueType::Array),
        (10, GGUfMetadataValueType::Uint64),
        (11, GGUfMetadataValueType::Int64),
        (12, GGUfMetadataValueType::Float64),
    ];
    for (code, value_type) in table {
        assert_eq!(GGUfMetadataValueType::try_from(code), Ok(value_type));
        assert_eq!(value_type.code(), code);
    }
}

#[test]
fn value_type_code_13_is_unknown() {
    assert_eq!(GGUfMetadataValueType::try_from(13), Err(Malformation::UnknownValueType(13)));
}

#[test]
fn value_type_rejects_every_code_above_12() {
    for code in [13u32, 14, 19, 255, 256, 0x0100_0000, u32::MAX] {
        assert_eq!(
            GGUfMetadataValueType::try_from(code),
            Err(Malformation::UnknownValueType(code))
        );
    }
}

#[test]
fn tensor_type_codes() {
    let table = [
        (0, GGMLType::F32),
        (1, GGMLType::F16),
        (2, GGMLType::Q4_0),
        (3, GGMLType::Q4_1),
        (6, GGMLType::Q5_0),
        (7, GGMLType::Q5_1),
        (8, GGMLType::Q8_0),
        (9, GGMLType::Q8_1),
        (10, GGMLType::Q2K),
        (11, GGMLType::Q3K),
        (12, GGMLType::Q4K),
        (13, GGMLType::Q5K),
        (14, GGMLType::Q6K),
        (15, GGMLType::Q8K),
        (16, GGMLType::I8),
        (17, GGMLType::I16),
        (18, GGMLType::I32),
        (19, GGMLType::Count),
    ];
    for (code, tensor_type) in table {
        assert_eq!(GGMLType::try_from(code), Ok(tensor_type));
        assert_eq!(tensor_type.code(), code);
    }
}

#[test]
fn tensor_type_codes_4_and_5_are_unknown() {
    assert_eq!(GGMLType::try_from(4), Err(Malformation::UnknownTensorType(4)));
    assert_eq!(GGMLType::try_from(5), Err(Malformation::UnknownTensorType(5)));
}

#[test]
fn tensor_type_rejects_every_code_above_19() {
    for code in [20u32, 21, 255, 0x0001_0000, u32::MAX] {
        assert_eq!(GGMLType::try_from(code), Err(Malformation::UnknownTensorType(code)));
    }
}

#[test]
fn every_code_either_decodes_to_its_type_or_is_handed_back() {
    for code in 0..1000u32 {
        match GGUfMetadataValueType::try_from(code) {
            Ok(t) => assert_eq!(t.code(), code),
            Err(e) => {
                assert!(code > 12);
                assert_eq!(e, Malformation::UnknownValueType(code));
            },
        }
        match GGMLType::try_from(code) {
            Ok(t) => assert_eq!(t.code(), code),
            Err(e) => {
                assert!(code == 4 || code == 5 || code > 19);
                assert_eq!(e, Malformation::UnknownTensorType(code));
            },
        }
    }
}

#[test]
fn value_type_is_read_from_four_bytes() {
    assert_eq!(
        gguf_metadata_value_type(&[8, 0, 0, 0], 0),
        Ok((4, GGUfMetadataValueType::String))
    );
    assert_eq!(
        gguf_metadata_value_type(&[0xaa, 12, 0, 0, 0, 0xbb], 1),
        Ok((5, GGUfMetadataValueType::Float64))
    );
}

#[test]
fn value_type_with_fewer_than_four_bytes_needs_more() {
    assert_eq!(gguf_metadata_value_type(&[13, 0, 0], 0), Err(DecodeError::NeedMoreBytes));
    assert_eq!(gguf_metadata_value_type(&[], 0), Err(DecodeError::NeedMoreBytes));
}

#[test]
fn unknown_value_type_carries_code_and_offset() {
    assert_eq!(
        gguf_metadata_value_type(&[13, 0, 0, 0], 0),
        Err(malformed(Malformation::UnknownValueType(13), 0))
    );
    assert_eq!(
        gguf_metadata_value_type(&[0, 0, 0x00, 0x01, 0x00, 0x00], 2),
        Err(malformed(Malformation::UnknownValueType(256), 2))
    );
}

#[test]
fn tensor_type_is_read_from_four_bytes() {
    assert_eq!(gguf_tensor_type(&[0, 0, 0, 0], 0), Ok((4, GGMLType::F32)));
    assert_eq!(gguf_tensor_type(&[19, 0, 0, 0], 0), Ok((4, GGMLType::Count)));
    assert_eq!(gguf_tensor_type(&[19, 0, 0], 0), Err(DecodeError::NeedMoreBytes));
}

#[test]
fn unknown_tensor_type_carries_code_and_offset() {
    assert_eq!(
        gguf_tensor_type(&[4, 0, 0, 0], 0),
        Err(malformed(Malformation::UnknownTensorType(4), 0))
    );
    assert_eq!(
        gguf_tensor_type(&[9, 5, 0, 0, 0], 1),
        Err(malformed(Malformation::UnknownTensorType(5), 1))
    );
    assert_eq!(
        gguf_tensor_type(&[20, 0, 0, 0], 0),
        Err(malformed(Malformation::UnknownTensorType(20), 0))
    );
}
