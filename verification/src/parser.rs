//! The decoders. Each reads one field from a buffer at a position and
//! returns the position after the field together with the value, exactly as
//! [`crate::grammar`] defines it.
use vstd::prelude::*;
use vstd::slice::slice_subrange;
use vstd::utf8::encode_utf8_decode_utf8;
use crate::error::{DecodeError, GGUFError, Malformation};
use crate::grammar::{
    has_bytes, magic_bytes, signed, spec_bool, spec_dimensions, spec_file, spec_header, spec_i16,
    spec_i32, spec_i64, spec_i8, spec_magic, spec_metadata, spec_metadata_list, spec_string,
    spec_tensor_info, spec_tensor_type, spec_tensors, spec_u16, spec_u32, spec_u64, spec_u8,
    spec_value, spec_value_type, spec_values,
};
use crate::progress::{
    lemma_dimensions_failure_sticks, lemma_header_advances, lemma_metadata_advances,
    lemma_metadata_list_failure_sticks, lemma_tensor_info_advances,
    lemma_tensors_failure_sticks, lemma_value_advances, lemma_values_failure_sticks,
};
use crate::tags::{GGMLType, GGUfMetadataValueType};
use crate::types::{
    lemma_array_view, metadata_view, tensors_view, values_view, GGUFFile, GGUFHeader,
    GGUFMetadata, GGUFMetadataArrayValue, GGUFMetadataValue, GGUFTensorInfo, MetadataView,
    TensorInfoView, ValueView,
};
use crate::wellformed::{lemma_file_well_formed, lemma_header_well_formed};

verus! {

/// True when a decoder's result `r` is what the grammar gives, `m`: the same
/// position and a value that stands for the same, or the same error.
pub open spec fn decodes_to<T: View>(
    r: Result<(usize, T), DecodeError>,
    m: Result<(int, T::V), DecodeError>,
) -> bool {
    match r {
        Ok((next, v)) => m == Ok::<(int, T::V), DecodeError>((next as int, v@)),
        Err(e) => m == Err::<(int, T::V), DecodeError>(e),
    }
}

/// True when `n` bytes lie in `buf` from `pos` on.
fn available(buf: &[u8], pos: usize, n: usize) -> (b: bool)
    ensures
        b == has_bytes(buf@, pos as int, n as int),
        b ==> pos + n <= usize::MAX,
{
    pos <= buf.len() && n <= buf.len() - pos
}

/// The signed reading of a byte.
fn to_i8(v: u8) -> (r: i8)
    ensures
        r == signed(v as int, 0x100),
{
    if v < 0x80 {
        v as i8
    } else {
        (v as i16 - 0x100) as i8
    }
}

/// The signed reading of a 16-bit number.
fn to_i16(v: u16) -> (r: i16)
    ensures
        r == signed(v as int, 0x1_0000),
{
    if v < 0x8000 {
        v as i16
    } else {
        (v as i32 - 0x1_0000) as i16
    }
}

/// The signed reading of a 32-bit number.
fn to_i32(v: u32) -> (r: i32)
    ensures
        r == signed(v as int, 0x1_0000_0000),
{
    if v < 0x8000_0000 {
        v as i32
    } else {
        (v as i64 - 0x1_0000_0000) as i32
    }
}

/// The signed reading of a 64-bit number.
fn to_i64(v: u64) -> (r: i64)
    ensures
        r == signed(v as int, 0x1_0000_0000_0000_0000),
{
    if v < 0x8000_0000_0000_0000 {
        v as i64
    } else {
        (v as i128 - 0x1_0000_0000_0000_0000) as i64
    }
}

/// Reads one byte.
pub fn le_u8(buf: &[u8], pos: usize) -> (r: Result<(usize, u8), DecodeError>)
    ensures
        decodes_to(r, spec_u8(buf@, pos as int)),
{
    if !available(buf, pos, 1) {
        return Err(DecodeError::NeedMoreBytes);
    }
    Ok((pos + 1, buf[pos]))
}

/// Reads one byte as a signed number.
pub fn le_i8(buf: &[u8], pos: usize) -> (r: Result<(usize, i8), DecodeError>)
    ensures
        decodes_to(r, spec_i8(buf@, pos as int)),
{
    if !available(buf, pos, 1) {
        return Err(DecodeError::NeedMoreBytes);
    }
    Ok((pos + 1, to_i8(buf[pos])))
}

/// Reads a 16-bit unsigned number.
pub fn le_u16(buf: &[u8], pos: usize) -> (r: Result<(usize, u16), DecodeError>)
    ensures
        decodes_to(r, spec_u16(buf@, pos as int)),
{
    if !available(buf, pos, 2) {
        return Err(DecodeError::NeedMoreBytes);
    }
    let v: u16 = buf[pos] as u16 + 0x100 * (buf[pos + 1] as u16);
    Ok((pos + 2, v))
}

/// Reads a 16-bit signed number.
pub fn le_i16(buf: &[u8], pos: usize) -> (r: Result<(usize, i16), DecodeError>)
    ensures
        decodes_to(r, spec_i16(buf@, pos as int)),
{
    match le_u16(buf, pos) {
        Ok((next, v)) => Ok((next, to_i16(v))),
        Err(e) => Err(e),
    }
}

/// Reads a 32-bit unsigned number.
pub fn le_u32(buf: &[u8], pos: usize) -> (r: Result<(usize, u32), DecodeError>)
    ensures
        decodes_to(r, spec_u32(buf@, pos as int)),
{
    if !available(buf, pos, 4) {
        return Err(DecodeError::NeedMoreBytes);
    }
    let v: u32 = buf[pos] as u32 + 0x100 * (buf[pos + 1] as u32) + 0x1_0000 * (buf[pos
        + 2] as u32) + 0x100_0000 * (buf[pos + 3] as u32);
    Ok((pos + 4, v))
}

/// Reads a 32-bit signed number.
pub fn le_i32(buf: &[u8], pos: usize) -> (r: Result<(usize, i32), DecodeError>)
    ensures
        decodes_to(r, spec_i32(buf@, pos as int)),
{
    match le_u32(buf, pos) {
        Ok((next, v)) => Ok((next, to_i32(v))),
        Err(e) => Err(e),
    }
}

/// Reads a 64-bit unsigned number.
pub fn le_u64(buf: &[u8], pos: usize) -> (r: Result<(usize, u64), DecodeError>)
    ensures
        decodes_to(r, spec_u64(buf@, pos as int)),
{
    if !available(buf, pos, 8) {
        return Err(DecodeError::NeedMoreBytes);
    }
    let low: u64 = buf[pos] as u64 + 0x100 * (buf[pos + 1] as u64) + 0x1_0000 * (buf[pos
        + 2] as u64) + 0x100_0000 * (buf[pos + 3] as u64);
    let high: u64 = buf[pos + 4] as u64 + 0x100 * (buf[pos + 5] as u64) + 0x1_0000 * (buf[pos
        + 6] as u64) + 0x100_0000 * (buf[pos + 7] as u64);
    Ok((pos + 8, low + 0x1_0000_0000 * high))
}

/// Reads a 64-bit signed number.
pub fn le_i64(buf: &[u8], pos: usize) -> (r: Result<(usize, i64), DecodeError>)
    ensures
        decodes_to(r, spec_i64(buf@, pos as int)),
{
    match le_u64(buf, pos) {
        Ok((next, v)) => Ok((next, to_i64(v))),
        Err(e) => Err(e),
    }
}

/// Reads a boolean: one byte, 0 or 1.
pub fn le_bool(buf: &[u8], pos: usize) -> (r: Result<(usize, bool), DecodeError>)
    ensures
        decodes_to(r, spec_bool(buf@, pos as int)),
{
    if !available(buf, pos, 1) {
        return Err(DecodeError::NeedMoreBytes);
    }
    let b = buf[pos];
    if b == 0 {
        Ok((pos + 1, false))
    } else if b == 1 {
        Ok((pos + 1, true))
    } else {
        Err(DecodeError::Malformed(GGUFError { kind: Malformation::InvalidBool(b), offset: pos }))
    }
}

/// Reads a string: an eight-byte length, then that many bytes of UTF-8.
///
/// Nothing is allocated before the whole payload is known to be in the
/// buffer, whatever length the prefix claims.
pub fn gguf_string(buf: &[u8], pos: usize) -> (r: Result<(usize, String), DecodeError>)
    ensures
        decodes_to(r, spec_string(buf@, pos as int)),
{
    let (start, len) = match le_u64(buf, pos) {
        Ok(read) => read,
        Err(e) => return Err(e),
    };
    if len > (buf.len() - start) as u64 {
        return Err(DecodeError::NeedMoreBytes);
    }
    let end = start + len as usize;
    let payload = slice_subrange(buf, start, end);
    match core::str::from_utf8(payload) {
        Ok(text) => {
            proof {
                encode_utf8_decode_utf8(text@);
            }
            Ok((end, text.to_owned()))
        },
        Err(_) => Err(
            DecodeError::Malformed(GGUFError { kind: Malformation::InvalidUtf8, offset: start }),
        ),
    }
}

/// Matches the magic constant at the front of the input.
///
/// Splits the input after the magic constant: what follows it, and the four
/// bytes themselves.
pub fn magic<'a>(input: &'a [u8]) -> (r: Result<(&'a [u8], &'a [u8]), DecodeError>)
    ensures
        match r {
            Ok((rest, found)) => {
                &&& spec_magic(input@) == Ok::<int, DecodeError>(4)
                &&& found@ == magic_bytes()
                &&& rest@ == input@.subrange(4, input@.len() as int)
            },
            Err(e) => spec_magic(input@) == Err::<int, DecodeError>(e),
        },
{
    if input.len() < 4 {
        return Err(DecodeError::NeedMoreBytes);
    }
    if input[0] != 0x47 || input[1] != 0x47 || input[2] != 0x55 || input[3] != 0x46 {
        assert(input@.subrange(0, 4)[0] == input@[0]);
        assert(input@.subrange(0, 4)[1] == input@[1]);
        assert(input@.subrange(0, 4)[2] == input@[2]);
        assert(input@.subrange(0, 4)[3] == input@[3]);
        return Err(
            DecodeError::Malformed(GGUFError { kind: Malformation::BadMagic, offset: 0 }),
        );
    }
    assert(input@.subrange(0, 4) =~= magic_bytes());
    Ok((slice_subrange(input, 4, input.len()), slice_subrange(input, 0, 4)))
}

/// Reads the type of a metadata value.
pub fn gguf_metadata_value_type(buf: &[u8], pos: usize) -> (r: Result<
    (usize, GGUfMetadataValueType),
    DecodeError,
>)
    ensures
        decodes_to(r, spec_value_type(buf@, pos as int)),
{
    let (next, code) = match le_u32(buf, pos) {
        Ok(read) => read,
        Err(e) => return Err(e),
    };
    match GGUfMetadataValueType::try_from(code) {
        Ok(t) => Ok((next, t)),
        Err(kind) => Err(DecodeError::Malformed(GGUFError { kind, offset: pos })),
    }
}

/// Reads the element type of a tensor.
pub fn gguf_tensor_type(buf: &[u8], pos: usize) -> (r: Result<(usize, GGMLType), DecodeError>)
    ensures
        decodes_to(r, spec_tensor_type(buf@, pos as int)),
{
    let (next, code) = match le_u32(buf, pos) {
        Ok(read) => read,
        Err(e) => return Err(e),
    };
    match GGMLType::try_from(code) {
        Ok(t) => Ok((next, t)),
        Err(kind) => Err(DecodeError::Malformed(GGUFError { kind, offset: pos })),
    }
}

/// Reads a metadata value of the given type.
///
/// An array is decoded element by element; the first element that fails
/// fails the array with that element's error, and no part of the array is
/// returned.
pub fn gguf_metadata_value(buf: &[u8], pos: usize, value_type: GGUfMetadataValueType) -> (r:
    Result<(usize, GGUFMetadataValue), DecodeError>)
    ensures
        decodes_to(r, spec_value(buf@, pos as int, value_type)),
    decreases buf@.len() - pos,
{
    match value_type {
        GGUfMetadataValueType::Uint8 => match le_u8(buf, pos) {
            Ok((next, v)) => Ok((next, GGUFMetadataValue::Uint8(v))),
            Err(e) => Err(e),
        },
        GGUfMetadataValueType::Int8 => match le_i8(buf, pos) {
            Ok((next, v)) => Ok((next, GGUFMetadataValue::Int8(v))),
            Err(e) => Err(e),
        },
        GGUfMetadataValueType::Uint16 => match le_u16(buf, pos) {
            Ok((next, v)) => Ok((next, GGUFMetadataValue::Uint16(v))),
            Err(e) => Err(e),
        },
        GGUfMetadataValueType::Int16 => match le_i16(buf, pos) {
            Ok((next, v)) => Ok((next, GGUFMetadataValue::Int16(v))),
            Err(e) => Err(e),
        },
        GGUfMetadataValueType::Uint32 => match le_u32(buf, pos) {
            Ok((next, v)) => Ok((next, GGUFMetadataValue::Uint32(v))),
            Err(e) => Err(e),
        },
        GGUfMetadataValueType::Int32 => match le_i32(buf, pos) {
            Ok((next, v)) => Ok((next, GGUFMetadataValue::Int32(v))),
            Err(e) => Err(e),
        },
        GGUfMetadataValueType::Float32 => match le_u32(buf, pos) {
            Ok((next, v)) => Ok((next, GGUFMetadataValue::Float32(v))),
            Err(e) => Err(e),
        },
        GGUfMetadataValueType::Uint64 => match le_u64(buf, pos) {
            Ok((next, v)) => Ok((next, GGUFMetadataValue::Uint64(v))),
            Err(e) => Err(e),
        },
        GGUfMetadataValueType::Int64 => match le_i64(buf, pos) {
            Ok((next, v)) => Ok((next, GGUFMetadataValue::Int64(v))),
            Err(e) => Err(e),
        },
        GGUfMetadataValueType::Float64 => match le_u64(buf, pos) {
            Ok((next, v)) => Ok((next, GGUFMetadataValue::Float64(v))),
            Err(e) => Err(e),
        },
        GGUfMetadataValueType::Bool => match le_bool(buf, pos) {
            Ok((next, v)) => Ok((next, GGUFMetadataValue::Bool(v))),
            Err(e) => Err(e),
        },
        GGUfMetadataValueType::String => match gguf_string(buf, pos) {
            Ok((next, v)) => Ok((next, GGUFMetadataValue::String(v))),
            Err(e) => Err(e),
        },
        GGUfMetadataValueType::Array => {
            let (at1, element_type) = match gguf_metadata_value_type(buf, pos) {
                Ok(read) => read,
                Err(e) => return Err(e),
            };
            let (start, len) = match le_u64(buf, at1) {
                Ok(read) => read,
                Err(e) => return Err(e),
            };
            let mut value: Vec<GGUFMetadataValue> = Vec::new();
            let mut cur = start;
            let mut i: u64 = 0;
            assert(values_view(value@) =~= Seq::empty());
            while i < len
                invariant
                    i <= len,
                    pos < start <= cur <= buf@.len(),
                    value_type == GGUfMetadataValueType::Array,
                    spec_value_type(buf@, pos as int) == Ok::<
                        (int, GGUfMetadataValueType),
                        DecodeError,
                    >((at1 as int, element_type)),
                    spec_u64(buf@, at1 as int) == Ok::<(int, u64), DecodeError>(
                        (start as int, len),
                    ),
                    spec_values(buf@, start as int, element_type, i as nat) == Ok::<
                        (int, Seq<ValueView>),
                        DecodeError,
                    >((cur as int, values_view(value@))),
                ensures
                    i == len,
                decreases len - i,
            {
                match gguf_metadata_value(buf, cur, element_type) {
                    Ok((next, v)) => {
                        proof {
                            lemma_value_advances(buf@, cur as int, element_type);
                            assert(values_view(value@.push(v)) =~= values_view(value@).push(v@));
                        }
                        value.push(v);
                        cur = next;
                        i += 1;
                    },
                    Err(e) => {
                        proof {
                            assert(spec_values(buf@, start as int, element_type, (i + 1) as nat)
                                == Err::<(int, Seq<ValueView>), DecodeError>(e));
                            lemma_values_failure_sticks(
                                buf@,
                                start as int,
                                element_type,
                                (i + 1) as nat,
                                len as nat,
                            );
                        }
                        return Err(e);
                    },
                }
            }
            let array = GGUFMetadataArrayValue { value_type: element_type, len, value };
            proof {
                lemma_array_view(array);
            }
            Ok((cur, GGUFMetadataValue::Array(array)))
        },
    }
}

/// Reads a metadata entry: key, value type, value.
pub fn gguf_metadata(buf: &[u8], pos: usize) -> (r: Result<(usize, GGUFMetadata), DecodeError>)
    ensures
        decodes_to(r, spec_metadata(buf@, pos as int)),
{
    let (at1, key) = match gguf_string(buf, pos) {
        Ok(read) => read,
        Err(e) => return Err(e),
    };
    let (at2, value_type) = match gguf_metadata_value_type(buf, at1) {
        Ok(read) => read,
        Err(e) => return Err(e),
    };
    let (next, value) = match gguf_metadata_value(buf, at2, value_type) {
        Ok(read) => read,
        Err(e) => return Err(e),
    };
    Ok((next, GGUFMetadata { key, value_type, value }))
}

/// Reads the header.
///
/// The header starts at the first byte of the buffer. Any version is taken
/// as it is.
pub fn gguf_header(buf: &[u8]) -> (r: Result<(usize, GGUFHeader), DecodeError>)
    ensures
        decodes_to(r, spec_header(buf@)),
{
    match magic(buf) {
        Ok(_) => {},
        Err(e) => return Err(e),
    }
    let (at1, version) = match le_u32(buf, 4) {
        Ok(read) => read,
        Err(e) => return Err(e),
    };
    let (at2, tensor_count) = match le_u64(buf, at1) {
        Ok(read) => read,
        Err(e) => return Err(e),
    };
    let (start, metadata_count) = match le_u64(buf, at2) {
        Ok(read) => read,
        Err(e) => return Err(e),
    };
    let mut metadata: Vec<GGUFMetadata> = Vec::new();
    let mut cur = start;
    let mut i: u64 = 0;
    assert(metadata_view(metadata@) =~= Seq::empty());
    while i < metadata_count
        invariant
            i <= metadata_count,
            start == 24,
            start <= cur <= buf@.len(),
            spec_magic(buf@) == Ok::<int, DecodeError>(4),
            spec_u32(buf@, 4) == Ok::<(int, u32), DecodeError>((8, version)),
            spec_u64(buf@, 8) == Ok::<(int, u64), DecodeError>((16, tensor_count)),
            spec_u64(buf@, 16) == Ok::<(int, u64), DecodeError>((24, metadata_count)),
            spec_metadata_list(buf@, 24, i as nat) == Ok::<
                (int, Seq<MetadataView>),
                DecodeError,
            >((cur as int, metadata_view(metadata@))),
        ensures
            i == metadata_count,
        decreases metadata_count - i,
    {
        match gguf_metadata(buf, cur) {
            Ok((next, entry)) => {
                proof {
                    lemma_metadata_advances(buf@, cur as int);
                    assert(metadata_view(metadata@.push(entry)) =~= metadata_view(
                        metadata@,
                    ).push(entry@));
                }
                metadata.push(entry);
                cur = next;
                i += 1;
            },
            Err(e) => {
                proof {
                    assert(spec_metadata_list(buf@, 24, (i + 1) as nat) == Err::<
                        (int, Seq<MetadataView>),
                        DecodeError,
                    >(e));
                    lemma_metadata_list_failure_sticks(
                        buf@,
                        24,
                        (i + 1) as nat,
                        metadata_count as nat,
                    );
                }
                return Err(e);
            },
        }
    }
    Ok((cur, GGUFHeader { version, tensor_count, metadata }))
}

/// Reads a tensor descriptor.
///
/// A tensor may have no dimensions at all. The offset is handed on as it
/// is.
pub fn gguf_tensor_info(buf: &[u8], pos: usize) -> (r: Result<
    (usize, GGUFTensorInfo),
    DecodeError,
>)
    ensures
        decodes_to(r, spec_tensor_info(buf@, pos as int)),
{
    let (at1, name) = match gguf_string(buf, pos) {
        Ok(read) => read,
        Err(e) => return Err(e),
    };
    let (start, n_dimensions) = match le_u32(buf, at1) {
        Ok(read) => read,
        Err(e) => return Err(e),
    };
    let mut dimensions: Vec<u64> = Vec::new();
    let mut cur = start;
    let mut i: u32 = 0;
    while i < n_dimensions
        invariant
            i <= n_dimensions,
            start <= cur <= buf@.len(),
            spec_string(buf@, pos as int) == Ok::<(int, Seq<char>), DecodeError>(
                (at1 as int, name@),
            ),
            spec_u32(buf@, at1 as int) == Ok::<(int, u32), DecodeError>(
                (start as int, n_dimensions),
            ),
            spec_dimensions(buf@, start as int, i as nat) == Ok::<(int, Seq<u64>), DecodeError>(
                (cur as int, dimensions@),
            ),
        ensures
            i == n_dimensions,
        decreases n_dimensions - i,
    {
        match le_u64(buf, cur) {
            Ok((next, extent)) => {
                dimensions.push(extent);
                cur = next;
                i += 1;
            },
            Err(e) => {
                proof {
                    assert(spec_dimensions(buf@, start as int, (i + 1) as nat) == Err::<
                        (int, Seq<u64>),
                        DecodeError,
                    >(e));
                    lemma_dimensions_failure_sticks(
                        buf@,
                        start as int,
                        (i + 1) as nat,
                        n_dimensions as nat,
                    );
                }
                return Err(e);
            },
        }
    }
    let (at4, tensor_type) = match gguf_tensor_type(buf, cur) {
        Ok(read) => read,
        Err(e) => return Err(e),
    };
    let (next, offset) = match le_u64(buf, at4) {
        Ok(read) => read,
        Err(e) => return Err(e),
    };
    Ok((next, GGUFTensorInfo { name, dimensions, tensor_type, offset }))
}

/// Reads a file.
///
/// The header, then as many tensor descriptors as the header declares.
/// Bytes after the last descriptor are left alone.
pub fn gguf_file(buf: &[u8]) -> (r: Result<(usize, GGUFFile), DecodeError>)
    ensures
        decodes_to(r, spec_file(buf@)),
{
    proof {
        reveal(spec_file);
    }
    let (start, header) = match gguf_header(buf) {
        Ok(read) => read,
        Err(e) => return Err(e),
    };
    let mut tensors: Vec<GGUFTensorInfo> = Vec::new();
    let mut cur = start;
    let mut i: u64 = 0;
    proof {
        lemma_header_advances(buf@);
        assert(tensors_view(tensors@) =~= Seq::empty());
    }
    while i < header.tensor_count
        invariant
            i <= header.tensor_count,
            start <= cur <= buf@.len(),
            spec_header(buf@) == Ok::<_, DecodeError>((start as int, header@)),
            spec_tensors(buf@, start as int, i as nat) == Ok::<
                (int, Seq<TensorInfoView>),
                DecodeError,
            >((cur as int, tensors_view(tensors@))),
        ensures
            i == header.tensor_count,
        decreases header.tensor_count - i,
    {
        match gguf_tensor_info(buf, cur) {
            Ok((next, info)) => {
                proof {
                    lemma_tensor_info_advances(buf@, cur as int);
                    assert(tensors_view(tensors@.push(info)) =~= tensors_view(tensors@).push(
                        info@,
                    ));
                }
                tensors.push(info);
                cur = next;
                i += 1;
            },
            Err(e) => {
                proof {
                    reveal(spec_file);
                    assert(spec_tensors(buf@, start as int, (i + 1) as nat) == Err::<
                        (int, Seq<TensorInfoView>),
                        DecodeError,
                    >(e));
                    lemma_tensors_failure_sticks(
                        buf@,
                        start as int,
                        (i + 1) as nat,
                        header.tensor_count as nat,
                    );
                }
                return Err(e);
            },
        }
    }
    Ok((cur, GGUFFile { header, tensors }))
}

impl GGUFHeader {
    /// Decodes the header at the start of `buf`.
    ///
    /// `Ok(None)` says that `buf` ends inside the header: the caller is to
    /// come back with the same bytes and more. `Err` says that the bytes are
    /// not a header and never will be.
    pub fn read(buf: &[u8]) -> (r: Result<Option<GGUFHeader>, GGUFError>)
        ensures
            match r {
                Ok(Some(header)) => {
                    &&& spec_header(buf@) matches Ok((_, h)) && h == header@
                    &&& header@.wf()
                },
                Ok(None) => spec_header(buf@) matches Err(DecodeError::NeedMoreBytes),
                Err(e) => spec_header(buf@) matches Err(DecodeError::Malformed(m)) && m == e,
            },
    {
        proof {
            lemma_header_well_formed(buf@);
        }
        match gguf_header(buf) {
            Ok((_, header)) => Ok(Some(header)),
            Err(DecodeError::NeedMoreBytes) => Ok(None),
            Err(DecodeError::Malformed(e)) => Err(e),
        }
    }
}

impl GGUFFile {
    /// Decodes the file at the start of `buf`: the header and all the tensor
    /// descriptors.
    ///
    /// `Ok(None)` says that `buf` ends inside them: the caller is to come
    /// back with the same bytes and more. `Err` says that the bytes are not
    /// a file and never will be.
    pub fn read(buf: &[u8]) -> (r: Result<Option<GGUFFile>, GGUFError>)
        ensures
            match r {
                Ok(Some(file)) => {
                    &&& spec_file(buf@) matches Ok((_, f)) && f == file@
                    &&& file@.wf()
                },
                Ok(None) => spec_file(buf@) matches Err(DecodeError::NeedMoreBytes),
                Err(e) => spec_file(buf@) matches Err(DecodeError::Malformed(m)) && m == e,
            },
    {
        proof {
            lemma_file_well_formed(buf@);
        }
        match gguf_file(buf) {
            Ok((_, file)) => Ok(Some(file)),
            Err(DecodeError::NeedMoreBytes) => Ok(None),
            Err(DecodeError::Malformed(e)) => Err(e),
        }
    }
}

} // verus!
