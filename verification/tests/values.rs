use gguf::parser::{gguf_metadata, gguf_metadata_value};
use gguf::{
    DecodeError, GGUFError, GGUFMetadata, GGUFMetadataArrayValue, GGUFMetadataValue,
    GGUfMetadataValueType, Malformation,
};

fn malformed(kind: Malformation, offset: usize) -> DecodeError {
    DecodeError::Malformed(GGUFError { kind, offset })
}

fn string_bytes(text: &str) -> Vec<u8> {
    let mut out = (text.len() as u64).to_le_bytes().to_vec();
    out.extend_from_slice(text.as_bytes());
    out
}

fn array_header(element_code: u32, count: u64) -> Vec<u8> {
    let mut out = element_code.to_le_bytes().to_vec();
    out.extend_from_slice(&count.to_le_bytes());
    out
}

fn u32_array(elements: &[u32]) -> Vec<u8> {
    let mut out = array_header(4, elements.len() as u64);
    for e in elements {
        out.extend_from_slice(&e.to_le_bytes());
    }
    out
}

fn array(value_type: GGUfMetadataValueType, value: Vec<GGUFMetadataValue>) -> GGUFMetadataValue {
    GGUFMetadataValue::Array(GGUFMetadataArrayValue {
        value_type,
        len: value.len() as u64,
        value,
    })
}

#[test]
fn scalar_values() {
    assert_eq!(gguf_metadata_value(&[200], 0, GGUfMetadataValueType::Uint8), Ok((1, GGUFMetadataValue::Uint8(200))));
    assert_eq!(gguf_metadata_value(&[200], 0, GGUfMetadataValueType::Int8), Ok((1, GGUFMetadataValue::Int8(-56))));
    assert_eq!(gguf_metadata_value(&[1, 2], 0, GGUfMetadataValueType::Uint16), Ok((2, GGUFMetadataValue::Uint16(513))));
    assert_eq!(gguf_metadata_value(&[0xff, 0xff], 0, GGUfMetadataValueType::Int16), Ok((2, GGUFMetadataValue::Int16(-1))));
    assert_eq!(gguf_metadata_value(&[3, 0, 0, 0], 0, GGUfMetadataValueType::Uint32), Ok((4, GGUFMetadataValue::Uint32(3))));
    assert_eq!(gguf_metadata_value(&[0xfd, 0xff, 0xff, 0xff], 0, GGUfMetadataValueType::Int32), Ok((4, GGUFMetadataValue::Int32(-3))));
    assert_eq!(
        gguf_metadata_value(&[9, 0, 0, 0, 0, 0, 0, 0], 0, GGUfMetadataValueType::Uint64),
        Ok((8, GGUFMetadataValue::Uint64(9)))
    );
    assert_eq!(gguf_metadata_value(&[0xff; 8], 0, GGUfMetadataValueType::Int64), Ok((8, GGUFMetadataValue::Int64(-1))));
    assert_eq!(gguf_metadata_value(&[1], 0, GGUfMetadataValueType::Bool), Ok((1, GGUFMetadataValue::Bool(true))));
    assert_eq!(gguf_metadata_value(&[0], 0, GGUfMetadataValueType::Bool), Ok((1, GGUFMetadataValue::Bool(false))));
    assert_eq!(
        gguf_metadata_value(&string_bytes("llama"), 0, GGUfMetadataValueType::String),
        Ok((13, GGUFMetadataValue::String("llama".to_string())))
    );
}

#[test]
fn floats_are_kept_as_their_bits() {
    let single = 1.5f32;
    let double = -2.25f64;
    let r = gguf_metadata_value(&single.to_le_bytes(), 0, GGUfMetadataValueType::Float32);
    assert_eq!(r, Ok((4, GGUFMetadataValue::Float32(0x3fc0_0000))));
    match r {
        Ok((_, GGUFMetadataValue::Float32(bits))) => assert_eq!(f32::from_bits(bits), single),
        _ => unreachable!(),
    }
    let r = gguf_metadata_value(&double.to_le_bytes(), 0, GGUfMetadataValueType::Float64);
    assert_eq!(r, Ok((8, GGUFMetadataValue::Float64(double.to_bits()))));
    match r {
        Ok((_, GGUFMetadataValue::Float64(bits))) => assert_eq!(f64::from_bits(bits), double),
        _ => unreachable!(),
    }
}

#[test]
fn a_nan_keeps_its_payload() {
    let bits = 0x7fc0_1234u32;
    let r = gguf_metadata_value(&bits.to_le_bytes(), 0, GGUfMetadataValueType::Float32);
    assert_eq!(r, Ok((4, GGUFMetadataValue::Float32(bits))));
}

#[test]
fn bool_value_of_2_is_malformed() {
    assert_eq!(
        gguf_metadata_value(&[2], 0, GGUfMetadataValueType::Bool),
        Err(malformed(Malformation::InvalidBool(2), 0))
    );
}

#[test]
fn array_of_three_u32() {
    let bytes = u32_array(&[1, 2, 3]);
    let expected = array(
        GGUfMetadataValueType::Uint32,
        vec![
            GGUFMetadataValue::Uint32(1),
            GGUFMetadataValue::Uint32(2),
            GGUFMetadataValue::Uint32(3),
        ],
    );
    assert_eq!(
        gguf_metadata_value(&bytes, 0, GGUfMetadataValueType::Array),
        Ok((24, expected))
    );
}

#[test]
fn array_of_five_u32_holds_all_five() {
    let bytes = u32_array(&[10, 20, 30, 40, 50]);
    match gguf_metadata_value(&bytes, 0, GGUfMetadataValueType::Array) {
        Ok((next, GGUFMetadataValue::Array(a))) => {
            assert_eq!(next, 32);
            assert_eq!(a.value_type, GGUfMetadataValueType::Uint32);
            assert_eq!(a.len, 5);
            assert_eq!(
                a.value,
                vec![
                    GGUFMetadataValue::Uint32(10),
                    GGUFMetadataValue::Uint32(20),
                    GGUFMetadataValue::Uint32(30),
                    GGUFMetadataValue::Uint32(40),
                    GGUFMetadataValue::Uint32(50),
                ]
            );
        },
        other => panic!("not an array: {:?}", other),
    }
}

#[test]
fn empty_array() {
    let bytes = array_header(8, 0);
    assert_eq!(
        gguf_metadata_value(&bytes, 0, GGUfMetadataValueType::Array),
        Ok((12, array(GGUfMetadataValueType::String, vec![])))
    );
}

#[test]
fn array_of_strings() {
    let mut bytes = array_header(8, 2);
    bytes.extend(string_bytes("a"));
    bytes.extend(string_bytes("bc"));
    let expected = array(
        GGUfMetadataValueType::String,
        vec![
            GGUFMetadataValue::String("a".to_string()),
            GGUFMetadataValue::String("bc".to_string()),
        ],
    );
    assert_eq!(
        gguf_metadata_value(&bytes, 0, GGUfMetadataValueType::Array),
        Ok((bytes.len(), expected))
    );
}

#[test]
fn array_of_arrays() {
    let mut bytes = array_header(9, 2);
    bytes.extend(u32_array(&[7]));
    bytes.extend(u32_array(&[]));
    let expected = array(
        GGUfMetadataValueType::Array,
        vec![
            array(GGUfMetadataValueType::Uint32, vec![GGUFMetadataValue::Uint32(7)]),
            array(GGUfMetadataValueType::Uint32, vec![]),
        ],
    );
    assert_eq!(
        gguf_metadata_value(&bytes, 0, GGUfMetadataValueType::Array),
        Ok((bytes.len(), expected))
    );
}

#[test]
fn arrays_nest_three_deep() {
    let mut bytes = array_header(9, 1);
    bytes.extend(array_header(9, 1));
    bytes.extend(array_header(7, 2));
    bytes.extend_from_slice(&[1, 0]);
    let expected = array(
        GGUfMetadataValueType::Array,
        vec![array(
            GGUfMetadataValueType::Array,
            vec![array(
                GGUfMetadataValueType::Bool,
                vec![GGUFMetadataValue::Bool(true), GGUFMetadataValue::Bool(false)],
            )],
        )],
    );
    assert_eq!(
        gguf_metadata_value(&bytes, 0, GGUfMetadataValueType::Array),
        Ok((38, expected))
    );
}

#[test]
fn array_leaves_what_follows_it() {
    let mut bytes = u32_array(&[1, 2]);
    bytes.extend_from_slice(&[0xee; 9]);
    match gguf_metadata_value(&bytes, 0, GGUfMetadataValueType::Array) {
        Ok((next, _)) => assert_eq!(next, 20),
        other => panic!("not decoded: {:?}", other),
    }
}

#[test]
fn array_cut_short_needs_more_at_every_length() {
    let bytes = u32_array(&[1, 2, 3]);
    for k in 0..bytes.len() {
        assert_eq!(
            gguf_metadata_value(&bytes[..k], 0, GGUfMetadataValueType::Array),
            Err(DecodeError::NeedMoreBytes)
        );
    }
}

#[test]
fn array_declaring_more_than_is_there_needs_more() {
    let mut bytes = array_header(4, u64::MAX);
    bytes.extend_from_slice(&7u32.to_le_bytes());
    assert_eq!(
        gguf_metadata_value(&bytes, 0, GGUfMetadataValueType::Array),
        Err(DecodeError::NeedMoreBytes)
    );
}

#[test]
fn array_with_unknown_element_type_is_malformed() {
    let bytes = array_header(13, 0);
    assert_eq!(
        gguf_metadata_value(&bytes, 0, GGUfMetadataValueType::Array),
        Err(malformed(Malformation::UnknownValueType(13), 0))
    );
}

#[test]
fn a_bad_element_fails_the_whole_array() {
    let mut bytes = array_header(7, 4);
    bytes.extend_from_slice(&[1, 0, 2, 1]);
    assert_eq!(
        gguf_metadata_value(&bytes, 0, GGUfMetadataValueType::Array),
        Err(malformed(Malformation::InvalidBool(2), 14))
    );
}

#[test]
fn a_bad_element_in_a_nested_array_fails_the_outer_one() {
    let mut bytes = array_header(9, 2);
    bytes.extend(u32_array(&[1]));
    bytes.extend(array_header(8, 1));
    bytes.extend_from_slice(&1u64.to_le_bytes());
    bytes.push(0xff);
    assert_eq!(
        gguf_metadata_value(&bytes, 0, GGUfMetadataValueType::Array),
        Err(malformed(Malformation::InvalidUtf8, 48))
    );
}

#[test]
fn a_bad_element_is_found_even_when_later_ones_are_missing() {
    let mut bytes = array_header(7, 100);
    bytes.extend_from_slice(&[1, 3]);
    assert_eq!(
        gguf_metadata_value(&bytes, 0, GGUfMetadataValueType::Array),
        Err(malformed(Malformation::InvalidBool(3), 13))
    );
}

#[test]
fn metadata_entry() {
    let mut bytes = string_bytes("general.name");
    bytes.extend_from_slice(&8u32.to_le_bytes());
    bytes.extend(string_bytes("test-model"));
    let expected = GGUFMetadata {
        key: "general.name".to_string(),
        value_type: GGUfMetadataValueType::String,
        value: GGUFMetadataValue::String("test-model".to_string()),
    };
    assert_eq!(gguf_metadata(&bytes, 0), Ok((bytes.len(), expected)));
}

#[test]
fn metadata_entry_may_have_an_empty_key() {
    let mut bytes = string_bytes("");
    bytes.extend_from_slice(&0u32.to_le_bytes());
    bytes.push(42);
    let expected = GGUFMetadata {
        key: String::new(),
        value_type: GGUfMetadataValueType::Uint8,
        value: GGUFMetadataValue::Uint8(42),
    };
    assert_eq!(gguf_metadata(&bytes, 0), Ok((13, expected)));
}

#[test]
fn metadata_entry_with_unknown_type_is_malformed() {
    let mut bytes = string_bytes("k");
    bytes.extend_from_slice(&13u32.to_le_bytes());
    bytes.extend_from_slice(&[0; 16]);
    assert_eq!(gguf_metadata(&bytes, 0), Err(malformed(Malformation::UnknownValueType(13), 9)));
}

#[test]
fn metadata_entry_cut_short_needs_more_at_every_length() {
    let mut bytes = string_bytes("tokenizer.ggml.tokens");
    bytes.extend_from_slice(&9u32.to_le_bytes());
    bytes.extend(array_header(8, 2));
    bytes.extend(string_bytes("<s>"));
    bytes.extend(string_bytes("</s>"));
    assert!(gguf_metadata(&bytes, 0).is_ok());
    for k in 0..bytes.len() {
        assert_eq!(gguf_metadata(&bytes[..k], 0), Err(DecodeError::NeedMoreBytes));
    }
}
