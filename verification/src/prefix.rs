//! What a decoder has settled on a buffer, it repeats on every longer
//! buffer that starts with the same bytes: a decoded field stays that field,
//! ending where it ended, and a malformation stays that malformation. Only
//! `NeedMoreBytes` can turn into something else. It follows that input cut
//! short inside a field is never taken for malformed.
use vstd::prelude::*;
use crate::error::{malformed, DecodeError, Malformation};
use crate::grammar::{
    magic_bytes, spec_bool, spec_count, spec_dimensions, spec_file, spec_header, spec_i16, spec_i32, spec_i64,
    spec_i8, spec_magic, spec_metadata, spec_metadata_list, spec_string, spec_tensor_info,
    spec_tensor_type, spec_tensors, spec_u16, spec_u32, spec_u64, spec_u8, spec_value,
    spec_value_type, spec_values,
};
use crate::progress::{lemma_file_advances, lemma_header_advances, lemma_values_advance};
use crate::tags::GGUfMetadataValueType;
use crate::types::{FileView, HeaderView};

verus! {

/// True unless `before` is `NeedMoreBytes` and `after` differs from it.
pub open spec fn settled<T>(before: Result<T, DecodeError>, after: Result<T, DecodeError>) -> bool {
    before != Err::<T, DecodeError>(DecodeError::NeedMoreBytes) ==> after == before
}

/// A prefix has the bytes of the whole, as far as it goes.
pub proof fn lemma_prefix_bytes(short: Seq<u8>, long: Seq<u8>)
    requires
        short.is_prefix_of(long),
    ensures
        short.len() <= long.len(),
        forall|i: int| 0 <= i < short.len() ==> short[i] == long[i],
        forall|i: int, j: int|
            0 <= i <= j <= short.len() ==> #[trigger] short.subrange(i, j) == long.subrange(i, j),
{
    assert forall|i: int| 0 <= i < short.len() implies short[i] == long[i] by {
        assert(short[i] == long.subrange(0, short.len() as int)[i]);
    }
    assert forall|i: int, j: int| 0 <= i <= j <= short.len() implies #[trigger] short.subrange(
        i,
        j,
    ) == long.subrange(i, j) by {
        assert(short.subrange(i, j) =~= long.subrange(i, j));
    }
}

/// The fixed-width fields, the strings and the type codes are settled.
pub proof fn lemma_scalars_extend(short: Seq<u8>, long: Seq<u8>, pos: int)
    requires
        short.is_prefix_of(long),
    ensures
        settled(spec_u8(short, pos), spec_u8(long, pos)),
        settled(spec_i8(short, pos), spec_i8(long, pos)),
        settled(spec_u16(short, pos), spec_u16(long, pos)),
        settled(spec_i16(short, pos), spec_i16(long, pos)),
        settled(spec_u32(short, pos), spec_u32(long, pos)),
        settled(spec_i32(short, pos), spec_i32(long, pos)),
        settled(spec_u64(short, pos), spec_u64(long, pos)),
        settled(spec_i64(short, pos), spec_i64(long, pos)),
        settled(spec_bool(short, pos), spec_bool(long, pos)),
        settled(spec_string(short, pos), spec_string(long, pos)),
        settled(spec_value_type(short, pos), spec_value_type(long, pos)),
        settled(spec_tensor_type(short, pos), spec_tensor_type(long, pos)),
{
    lemma_prefix_bytes(short, long);
}

/// A value is settled.
pub proof fn lemma_value_extends(
    short: Seq<u8>,
    long: Seq<u8>,
    pos: int,
    t: GGUfMetadataValueType,
)
    requires
        short.is_prefix_of(long),
    ensures
        settled(spec_value(short, pos, t), spec_value(long, pos, t)),
    decreases short.len() - pos, 0nat,
{
    lemma_scalars_extend(short, long, pos);
    if t == GGUfMetadataValueType::Array {
        lemma_scalars_extend(short, long, pos + 4);
        if let Ok((at1, element_type)) = spec_value_type(short, pos) {
            if let Ok((at2, len)) = spec_u64(short, at1) {
                lemma_values_extend(short, long, at2, element_type, len as nat);
            }
        }
    }
}

/// A run of values is settled.
pub proof fn lemma_values_extend(
    short: Seq<u8>,
    long: Seq<u8>,
    pos: int,
    t: GGUfMetadataValueType,
    n: nat,
)
    requires
        short.is_prefix_of(long),
        0 <= pos <= short.len(),
    ensures
        settled(spec_values(short, pos, t, n), spec_values(long, pos, t, n)),
    decreases short.len() - pos, n + 1,
{
    if n > 0 {
        lemma_values_extend(short, long, pos, t, (n - 1) as nat);
        lemma_values_advance(short, pos, t, (n - 1) as nat);
        if let Ok((p, _)) = spec_values(short, pos, t, (n - 1) as nat) {
            lemma_value_extends(short, long, p, t);
        }
    }
}

/// A list is settled where each of its items is.
pub proof fn lemma_count_extends<T>(
    short_item: spec_fn(int) -> Result<(int, T), DecodeError>,
    long_item: spec_fn(int) -> Result<(int, T), DecodeError>,
    pos: int,
    n: nat,
)
    requires
        forall|p: int| settled(#[trigger] short_item(p), long_item(p)),
    ensures
        settled(spec_count(short_item, pos, n), spec_count(long_item, pos, n)),
    decreases n,
{
    if n > 0 {
        lemma_count_extends(short_item, long_item, pos, (n - 1) as nat);
    }
}

/// A metadata entry is settled.
pub proof fn lemma_metadata_extends(short: Seq<u8>, long: Seq<u8>, pos: int)
    requires
        short.is_prefix_of(long),
    ensures
        settled(spec_metadata(short, pos), spec_metadata(long, pos)),
{
    lemma_scalars_extend(short, long, pos);
    if let Ok((at1, _)) = spec_string(short, pos) {
        lemma_scalars_extend(short, long, at1);
        if let Ok((at2, t)) = spec_value_type(short, at1) {
            lemma_value_extends(short, long, at2, t);
        }
    }
}

/// A run of metadata entries is settled.
pub proof fn lemma_metadata_list_extends(short: Seq<u8>, long: Seq<u8>, pos: int, n: nat)
    requires
        short.is_prefix_of(long),
    ensures
        settled(spec_metadata_list(short, pos, n), spec_metadata_list(long, pos, n)),
{
    let short_item = |p: int| spec_metadata(short, p);
    let long_item = |p: int| spec_metadata(long, p);
    assert forall|p: int| settled(#[trigger] short_item(p), long_item(p)) by {
        lemma_metadata_extends(short, long, p);
    }
    lemma_count_extends(short_item, long_item, pos, n);
}

/// A run of dimension extents is settled.
pub proof fn lemma_dimensions_extend(short: Seq<u8>, long: Seq<u8>, pos: int, n: nat)
    requires
        short.is_prefix_of(long),
    ensures
        settled(spec_dimensions(short, pos, n), spec_dimensions(long, pos, n)),
{
    let short_item = |p: int| spec_u64(short, p);
    let long_item = |p: int| spec_u64(long, p);
    assert forall|p: int| settled(#[trigger] short_item(p), long_item(p)) by {
        lemma_scalars_extend(short, long, p);
    }
    lemma_count_extends(short_item, long_item, pos, n);
}

/// The header is settled.
pub proof fn lemma_header_extends(short: Seq<u8>, long: Seq<u8>)
    requires
        short.is_prefix_of(long),
    ensures
        settled(spec_header(short), spec_header(long)),
{
    lemma_prefix_bytes(short, long);
    lemma_scalars_extend(short, long, 4);
    lemma_scalars_extend(short, long, 8);
    lemma_scalars_extend(short, long, 16);
    if let Ok((_, n)) = spec_u64(short, 16) {
        lemma_metadata_list_extends(short, long, 24, n as nat);
    }
}

/// A tensor descriptor is settled.
pub proof fn lemma_tensor_info_extends(short: Seq<u8>, long: Seq<u8>, pos: int)
    requires
        short.is_prefix_of(long),
    ensures
        settled(spec_tensor_info(short, pos), spec_tensor_info(long, pos)),
{
    lemma_scalars_extend(short, long, pos);
    if let Ok((at1, _)) = spec_string(short, pos) {
        lemma_scalars_extend(short, long, at1);
        if let Ok((at2, n)) = spec_u32(short, at1) {
            lemma_dimensions_extend(short, long, at2, n as nat);
            if let Ok((at3, _)) = spec_dimensions(short, at2, n as nat) {
                lemma_scalars_extend(short, long, at3);
                lemma_scalars_extend(short, long, at3 + 4);
            }
        }
    }
}

/// A run of tensor descriptors is settled.
pub proof fn lemma_tensors_extend(short: Seq<u8>, long: Seq<u8>, pos: int, n: nat)
    requires
        short.is_prefix_of(long),
    ensures
        settled(spec_tensors(short, pos, n), spec_tensors(long, pos, n)),
{
    let short_item = |p: int| spec_tensor_info(short, p);
    let long_item = |p: int| spec_tensor_info(long, p);
    assert forall|p: int| settled(#[trigger] short_item(p), long_item(p)) by {
        lemma_tensor_info_extends(short, long, p);
    }
    lemma_count_extends(short_item, long_item, pos, n);
}

/// The whole file is settled: once a buffer decodes, or is found malformed,
/// appending bytes to it changes nothing.
pub proof fn lemma_file_extends(short: Seq<u8>, long: Seq<u8>)
    requires
        short.is_prefix_of(long),
    ensures
        settled(spec_file(short), spec_file(long)),
{
    reveal(spec_file);
    lemma_header_extends(short, long);
    if let Ok((at1, header)) = spec_header(short) {
        lemma_tensors_extend(short, long, at1, header.tensor_count as nat);
    }
}

/// Four bytes that are not the magic constant are malformed, whatever
/// follows them.
pub proof fn lemma_bad_magic(s: Seq<u8>)
    requires
        s.len() >= 4,
        s.subrange(0, 4) != magic_bytes(),
    ensures
        spec_magic(s) == Err::<int, DecodeError>(malformed(Malformation::BadMagic, 0)),
        spec_header(s) == Err::<(int, HeaderView), DecodeError>(
            malformed(Malformation::BadMagic, 0),
        ),
        spec_file(s) == Err::<(int, FileView), DecodeError>(
            malformed(Malformation::BadMagic, 0),
        ),
{
    reveal(spec_file);
}

/// A header cut short before its end is `NeedMoreBytes`: never malformed,
/// never another header.
pub proof fn lemma_truncated_header_needs_more(s: Seq<u8>, k: int)
    requires
        spec_header(s) is Ok,
        0 <= k < spec_header(s)->Ok_0.0,
    ensures
        spec_header(s.take(k)) matches Err(DecodeError::NeedMoreBytes),
{
    lemma_header_advances(s);
    lemma_header_advances(s.take(k));
    lemma_header_extends(s.take(k), s);
}

/// A file cut short before the end of its last tensor descriptor is
/// `NeedMoreBytes`: never malformed, never another file.
pub proof fn lemma_truncated_file_needs_more(s: Seq<u8>, k: int)
    requires
        spec_file(s) is Ok,
        0 <= k < spec_file(s)->Ok_0.0,
    ensures
        spec_file(s.take(k)) matches Err(DecodeError::NeedMoreBytes),
{
    lemma_file_advances(s);
    lemma_file_advances(s.take(k));
    lemma_file_extends(s.take(k), s);
}

} // verus!
