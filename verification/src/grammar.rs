//! The format, as mathematics.
//!
//! Each function here says what one field of a file decodes to when read from
//! a byte sequence at a position: the position after it and the value, or
//! `NeedMoreBytes` when the sequence ends inside the field, or `Malformed`
//! when the bytes that are there cannot belong to any file. All integers are
//! little-endian.
use vstd::prelude::*;
use vstd::utf8::{decode_utf8, valid_utf8};
use crate::error::{malformed, DecodeError, Malformation};
use crate::tags::{GGMLType, GGUfMetadataValueType};
use crate::types::{ArrayView, FileView, HeaderView, MetadataView, TensorInfoView, ValueView};

verus! {

/// The four bytes that every file starts with: "GGUF".
pub open spec fn magic_bytes() -> Seq<u8> {
    seq![0x47u8, 0x47u8, 0x55u8, 0x46u8]
}

/// True when `n` bytes lie in `s` from position `pos` on.
pub open spec fn has_bytes(s: Seq<u8>, pos: int, n: int) -> bool {
    0 <= pos && pos + n <= s.len()
}

/// The number that the two bytes at `pos` spell.
pub open spec fn le_u16_at(s: Seq<u8>, pos: int) -> int {
    s[pos] + 0x100 * s[pos + 1]
}

/// The number that the four bytes at `pos` spell.
pub open spec fn le_u32_at(s: Seq<u8>, pos: int) -> int {
    s[pos] + 0x100 * s[pos + 1] + 0x1_0000 * s[pos + 2] + 0x100_0000 * s[pos + 3]
}

/// The number that the eight bytes at `pos` spell.
pub open spec fn le_u64_at(s: Seq<u8>, pos: int) -> int {
    s[pos] + 0x100 * s[pos + 1] + 0x1_0000 * s[pos + 2] + 0x100_0000 * s[pos + 3]
        + 0x1_0000_0000 * s[pos + 4] + 0x100_0000_0000 * s[pos + 5] + 0x1_0000_0000_0000 * s[pos
        + 6] + 0x100_0000_0000_0000 * s[pos + 7]
}

/// The two's complement reading of `v`, a number below `modulus`.
pub open spec fn signed(v: int, modulus: int) -> int {
    if 2 * v < modulus {
        v
    } else {
        v - modulus
    }
}

/// One byte, as it is.
pub open spec fn spec_u8(s: Seq<u8>, pos: int) -> Result<(int, u8), DecodeError> {
    if has_bytes(s, pos, 1) {
        Ok((pos + 1, s[pos]))
    } else {
        Err(DecodeError::NeedMoreBytes)
    }
}

/// One byte, read as a signed number.
pub open spec fn spec_i8(s: Seq<u8>, pos: int) -> Result<(int, i8), DecodeError> {
    if has_bytes(s, pos, 1) {
        Ok((pos + 1, signed(s[pos] as int, 0x100) as i8))
    } else {
        Err(DecodeError::NeedMoreBytes)
    }
}

/// Two bytes, read as an unsigned number.
pub open spec fn spec_u16(s: Seq<u8>, pos: int) -> Result<(int, u16), DecodeError> {
    if has_bytes(s, pos, 2) {
        Ok((pos + 2, le_u16_at(s, pos) as u16))
    } else {
        Err(DecodeError::NeedMoreBytes)
    }
}

/// Two bytes, read as a signed number.
pub open spec fn spec_i16(s: Seq<u8>, pos: int) -> Result<(int, i16), DecodeError> {
    if has_bytes(s, pos, 2) {
        Ok((pos + 2, signed(le_u16_at(s, pos), 0x1_0000) as i16))
    } else {
        Err(DecodeError::NeedMoreBytes)
    }
}

/// Four bytes, read as an unsigned number.
pub open spec fn spec_u32(s: Seq<u8>, pos: int) -> Result<(int, u32), DecodeError> {
    if has_bytes(s, pos, 4) {
        Ok((pos + 4, le_u32_at(s, pos) as u32))
    } else {
        Err(DecodeError::NeedMoreBytes)
    }
}

/// Four bytes, read as a signed number.
pub open spec fn spec_i32(s: Seq<u8>, pos: int) -> Result<(int, i32), DecodeError> {
    if has_bytes(s, pos, 4) {
        Ok((pos + 4, signed(le_u32_at(s, pos), 0x1_0000_0000) as i32))
    } else {
        Err(DecodeError::NeedMoreBytes)
    }
}

/// Eight bytes, read as an unsigned number.
pub open spec fn spec_u64(s: Seq<u8>, pos: int) -> Result<(int, u64), DecodeError> {
    if has_bytes(s, pos, 8) {
        Ok((pos + 8, le_u64_at(s, pos) as u64))
    } else {
        Err(DecodeError::NeedMoreBytes)
    }
}

/// Eight bytes, read as a signed number.
pub open spec fn spec_i64(s: Seq<u8>, pos: int) -> Result<(int, i64), DecodeError> {
    if has_bytes(s, pos, 8) {
        Ok((pos + 8, signed(le_u64_at(s, pos), 0x1_0000_0000_0000_0000) as i64))
    } else {
        Err(DecodeError::NeedMoreBytes)
    }
}

/// One byte: 0 is false, 1 is true, anything else is malformed.
pub open spec fn spec_bool(s: Seq<u8>, pos: int) -> Result<(int, bool), DecodeError> {
    if !has_bytes(s, pos, 1) {
        Err(DecodeError::NeedMoreBytes)
    } else if s[pos] == 0 {
        Ok((pos + 1, false))
    } else if s[pos] == 1 {
        Ok((pos + 1, true))
    } else {
        Err(malformed(Malformation::InvalidBool(s[pos]), pos))
    }
}

/// An eight-byte length, then that many bytes of UTF-8. The payload is
/// looked at only once all of it is there.
pub open spec fn spec_string(s: Seq<u8>, pos: int) -> Result<(int, Seq<char>), DecodeError> {
    match spec_u64(s, pos) {
        Err(e) => Err(e),
        Ok((start, len)) => {
            if !has_bytes(s, start, len as int) {
                Err(DecodeError::NeedMoreBytes)
            } else if !valid_utf8(s.subrange(start, start + len)) {
                Err(malformed(Malformation::InvalidUtf8, start))
            } else {
                Ok((start + len, decode_utf8(s.subrange(start, start + len))))
            }
        },
    }
}

/// A four-byte code that must stand for a metadata value type.
pub open spec fn spec_value_type(s: Seq<u8>, pos: int) -> Result<
    (int, GGUfMetadataValueType),
    DecodeError,
> {
    match spec_u32(s, pos) {
        Err(e) => Err(e),
        Ok((next, code)) => match GGUfMetadataValueType::from_code(code) {
            Some(t) => Ok((next, t)),
            None => Err(malformed(Malformation::UnknownValueType(code), pos)),
        },
    }
}

/// A four-byte code that must stand for a tensor element type.
pub open spec fn spec_tensor_type(s: Seq<u8>, pos: int) -> Result<(int, GGMLType), DecodeError> {
    match spec_u32(s, pos) {
        Err(e) => Err(e),
        Ok((next, code)) => match GGMLType::from_code(code) {
            Some(t) => Ok((next, t)),
            None => Err(malformed(Malformation::UnknownTensorType(code), pos)),
        },
    }
}

/// A value of type `t`. An array is the type of its elements, an eight-byte
/// count, and that many values of that type.
pub open spec fn spec_value(s: Seq<u8>, pos: int, t: GGUfMetadataValueType) -> Result<
    (int, ValueView),
    DecodeError,
>
    decreases s.len() - pos, 0nat,
{
    match t {
        GGUfMetadataValueType::Uint8 => match spec_u8(s, pos) {
            Ok((next, v)) => Ok((next, ValueView::Uint8(v))),
            Err(e) => Err(e),
        },
        GGUfMetadataValueType::Int8 => match spec_i8(s, pos) {
            Ok((next, v)) => Ok((next, ValueView::Int8(v))),
            Err(e) => Err(e),
        },
        GGUfMetadataValueType::Uint16 => match spec_u16(s, pos) {
            Ok((next, v)) => Ok((next, ValueView::Uint16(v))),
            Err(e) => Err(e),
        },
        GGUfMetadataValueType::Int16 => match spec_i16(s, pos) {
            Ok((next, v)) => Ok((next, ValueView::Int16(v))),
            Err(e) => Err(e),
        },
        GGUfMetadataValueType::Uint32 => match spec_u32(s, pos) {
            Ok((next, v)) => Ok((next, ValueView::Uint32(v))),
            Err(e) => Err(e),
        },
        GGUfMetadataValueType::Int32 => match spec_i32(s, pos) {
            Ok((next, v)) => Ok((next, ValueView::Int32(v))),
            Err(e) => Err(e),
        },
        GGUfMetadataValueType::Float32 => match spec_u32(s, pos) {
            Ok((next, v)) => Ok((next, ValueView::Float32(v))),
            Err(e) => Err(e),
        },
        GGUfMetadataValueType::Uint64 => match spec_u64(s, pos) {
            Ok((next, v)) => Ok((next, ValueView::Uint64(v))),
            Err(e) => Err(e),
        },
        GGUfMetadataValueType::Int64 => match spec_i64(s, pos) {
            Ok((next, v)) => Ok((next, ValueView::Int64(v))),
            Err(e) => Err(e),
        },
        GGUfMetadataValueType::Float64 => match spec_u64(s, pos) {
            Ok((next, v)) => Ok((next, ValueView::Float64(v))),
            Err(e) => Err(e),
        },
        GGUfMetadataValueType::Bool => match spec_bool(s, pos) {
            Ok((next, v)) => Ok((next, ValueView::Bool(v))),
            Err(e) => Err(e),
        },
        GGUfMetadataValueType::String => match spec_string(s, pos) {
            Ok((next, v)) => Ok((next, ValueView::String(v))),
            Err(e) => Err(e),
        },
        GGUfMetadataValueType::Array => match spec_value_type(s, pos) {
            Err(e) => Err(e),
            Ok((at1, value_type)) => match spec_u64(s, at1) {
                Err(e) => Err(e),
                Ok((at2, len)) => match spec_values(s, at2, value_type, len as nat) {
                    Err(e) => Err(e),
                    Ok((next, value)) => Ok(
                        (next, ValueView::Array(ArrayView { value_type, len, value })),
                    ),
                },
            },
        },
    }
}

/// `n` values of type `t`, one after the other. The first one that fails
/// fails the whole.
pub open spec fn spec_values(s: Seq<u8>, pos: int, t: GGUfMetadataValueType, n: nat) -> Result<
    (int, Seq<ValueView>),
    DecodeError,
>
    decreases s.len() - pos, n + 1,
{
    if n == 0 {
        Ok((pos, Seq::empty()))
    } else {
        match spec_values(s, pos, t, (n - 1) as nat) {
            Err(e) => Err(e),
            Ok((p, values)) => {
                // A decoder only moves forward inside the sequence, so the
                // first branch is the one taken: see
                // `lemma_values_advance`.
                if pos <= p <= s.len() {
                    match spec_value(s, p, t) {
                        Err(e) => Err(e),
                        Ok((next, v)) => Ok((next, values.push(v))),
                    }
                } else {
                    Err(DecodeError::NeedMoreBytes)
                }
            },
        }
    }
}

/// A metadata entry: key, value type, value of that type.
pub open spec fn spec_metadata(s: Seq<u8>, pos: int) -> Result<(int, MetadataView), DecodeError> {
    match spec_string(s, pos) {
        Err(e) => Err(e),
        Ok((at1, key)) => match spec_value_type(s, at1) {
            Err(e) => Err(e),
            Ok((at2, value_type)) => match spec_value(s, at2, value_type) {
                Err(e) => Err(e),
                Ok((next, value)) => Ok((next, MetadataView { key, value_type, value })),
            },
        },
    }
}

/// `n` fields of one kind, one after the other, where `item` reads one
/// field at a position. The first one that fails fails the whole.
pub open spec fn spec_count<T>(
    item: spec_fn(int) -> Result<(int, T), DecodeError>,
    pos: int,
    n: nat,
) -> Result<(int, Seq<T>), DecodeError>
    decreases n,
{
    if n == 0 {
        Ok((pos, Seq::empty()))
    } else {
        match spec_count(item, pos, (n - 1) as nat) {
            Err(e) => Err(e),
            Ok((p, items)) => match item(p) {
                Err(e) => Err(e),
                Ok((next, v)) => Ok((next, items.push(v))),
            },
        }
    }
}

/// `n` metadata entries, one after the other.
pub open spec fn spec_metadata_list(s: Seq<u8>, pos: int, n: nat) -> Result<
    (int, Seq<MetadataView>),
    DecodeError,
> {
    spec_count(|p: int| spec_metadata(s, p), pos, n)
}

/// `n` eight-byte dimension extents, one after the other.
pub open spec fn spec_dimensions(s: Seq<u8>, pos: int, n: nat) -> Result<
    (int, Seq<u64>),
    DecodeError,
> {
    spec_count(|p: int| spec_u64(s, p), pos, n)
}

/// The magic constant at the start of `s`. Fewer than four bytes are never
/// compared.
pub open spec fn spec_magic(s: Seq<u8>) -> Result<int, DecodeError> {
    if s.len() < 4 {
        Err(DecodeError::NeedMoreBytes)
    } else if s.subrange(0, 4) != magic_bytes() {
        Err(malformed(Malformation::BadMagic, 0))
    } else {
        Ok(4)
    }
}

/// The header: magic, version, tensor count, metadata count, and that many
/// metadata entries.
pub open spec fn spec_header(s: Seq<u8>) -> Result<(int, HeaderView), DecodeError> {
    match spec_magic(s) {
        Err(e) => Err(e),
        Ok(at0) => match spec_u32(s, at0) {
            Err(e) => Err(e),
            Ok((at1, version)) => match spec_u64(s, at1) {
                Err(e) => Err(e),
                Ok((at2, tensor_count)) => match spec_u64(s, at2) {
                    Err(e) => Err(e),
                    Ok((at3, metadata_count)) => match spec_metadata_list(
                        s,
                        at3,
                        metadata_count as nat,
                    ) {
                        Err(e) => Err(e),
                        Ok((next, metadata)) => Ok(
                            (next, HeaderView { version, tensor_count, metadata }),
                        ),
                    },
                },
            },
        },
    }
}

/// A tensor descriptor: name, four-byte dimension count, that many
/// eight-byte extents, element type, eight-byte offset.
pub open spec fn spec_tensor_info(s: Seq<u8>, pos: int) -> Result<
    (int, TensorInfoView),
    DecodeError,
> {
    match spec_string(s, pos) {
        Err(e) => Err(e),
        Ok((at1, name)) => match spec_u32(s, at1) {
            Err(e) => Err(e),
            Ok((at2, n_dimensions)) => match spec_dimensions(s, at2, n_dimensions as nat) {
                Err(e) => Err(e),
                Ok((at3, dimensions)) => match spec_tensor_type(s, at3) {
                    Err(e) => Err(e),
                    Ok((at4, tensor_type)) => match spec_u64(s, at4) {
                        Err(e) => Err(e),
                        Ok((next, offset)) => Ok(
                            (next, TensorInfoView { name, dimensions, tensor_type, offset }),
                        ),
                    },
                },
            },
        },
    }
}

/// `n` tensor descriptors, one after the other.
pub open spec fn spec_tensors(s: Seq<u8>, pos: int, n: nat) -> Result<
    (int, Seq<TensorInfoView>),
    DecodeError,
> {
    spec_count(|p: int| spec_tensor_info(s, p), pos, n)
}

/// A file: the header, then as many tensor descriptors as the header
/// declares. What follows them is not read.
#[verifier::opaque]
pub open spec fn spec_file(s: Seq<u8>) -> Result<(int, FileView), DecodeError> {
    match spec_header(s) {
        Err(e) => Err(e),
        Ok((at1, header)) => match spec_tensors(s, at1, header.tensor_count as nat) {
            Err(e) => Err(e),
            Ok((next, tensors)) => Ok((next, FileView { header, tensors })),
        },
    }
}

} // verus!
