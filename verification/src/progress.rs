//! Decoders move forward and stay inside the sequence; a list has the length
//! that was asked for; and a list that has failed stays failed however many
//! more items are asked for.
use vstd::prelude::*;
use crate::error::DecodeError;
use crate::grammar::{
    spec_count, spec_dimensions, spec_file, spec_header, spec_metadata, spec_metadata_list,
    spec_string, spec_tensor_info, spec_tensors, spec_u32, spec_u64, spec_value, spec_value_type,
    spec_values,
};
use crate::tags::GGUfMetadataValueType;

verus! {

/// A value takes at least one byte, and all its bytes lie in the sequence.
pub proof fn lemma_value_advances(s: Seq<u8>, pos: int, t: GGUfMetadataValueType)
    ensures
        spec_value(s, pos, t) matches Ok((next, _)) ==> 0 <= pos < next <= s.len(),
    decreases s.len() - pos, 0nat,
{
    if t == GGUfMetadataValueType::Array {
        if let Ok((at1, element_type)) = spec_value_type(s, pos) {
            if let Ok((at2, len)) = spec_u64(s, at1) {
                lemma_values_advance(s, at2, element_type, len as nat);
            }
        }
    }
}

/// `n` values take at least `n` bytes, all inside the sequence, and come out
/// as `n` values.
pub proof fn lemma_values_advance(s: Seq<u8>, pos: int, t: GGUfMetadataValueType, n: nat)
    requires
        0 <= pos <= s.len(),
    ensures
        spec_values(s, pos, t, n) matches Ok((next, values)) ==> pos + n <= next <= s.len()
            && values.len() == n,
    decreases s.len() - pos, n + 1,
{
    if n > 0 {
        lemma_values_advance(s, pos, t, (n - 1) as nat);
        if let Ok((p, _)) = spec_values(s, pos, t, (n - 1) as nat) {
            lemma_value_advances(s, p, t);
        }
    }
}

/// Once `i` values have failed to decode, any larger number of them fails
/// with the same error.
pub proof fn lemma_values_failure_sticks(
    s: Seq<u8>,
    pos: int,
    t: GGUfMetadataValueType,
    i: nat,
    n: nat,
)
    requires
        i <= n,
        spec_values(s, pos, t, i) is Err,
    ensures
        spec_values(s, pos, t, n) == spec_values(s, pos, t, i),
    decreases n,
{
    if i < n {
        lemma_values_failure_sticks(s, pos, t, i, (n - 1) as nat);
    }
}

/// A list of `n` items, if it decodes, has `n` items.
pub proof fn lemma_count_len<T>(
    item: spec_fn(int) -> Result<(int, T), DecodeError>,
    pos: int,
    n: nat,
)
    ensures
        spec_count(item, pos, n) matches Ok((_, items)) ==> items.len() == n,
    decreases n,
{
    if n > 0 {
        lemma_count_len(item, pos, (n - 1) as nat);
    }
}

/// Once `i` items have failed to decode, any larger number of them fails with
/// the same error.
pub proof fn lemma_count_failure_sticks<T>(
    item: spec_fn(int) -> Result<(int, T), DecodeError>,
    pos: int,
    i: nat,
    n: nat,
)
    requires
        i <= n,
        spec_count(item, pos, i) is Err,
    ensures
        spec_count(item, pos, n) == spec_count(item, pos, i),
    decreases n,
{
    if i < n {
        lemma_count_failure_sticks(item, pos, i, (n - 1) as nat);
    }
}

/// Where every item takes at least one byte and ends by `limit`, `n` items
/// take at least `n` bytes and end by `limit`.
pub proof fn lemma_count_advances<T>(
    item: spec_fn(int) -> Result<(int, T), DecodeError>,
    pos: int,
    n: nat,
    limit: int,
)
    requires
        pos <= limit,
        forall|p: int| (#[trigger] item(p)) matches Ok((next, _)) ==> p < next <= limit,
    ensures
        spec_count(item, pos, n) matches Ok((next, _)) ==> pos + n <= next <= limit,
    decreases n,
{
    if n > 0 {
        lemma_count_advances(item, pos, (n - 1) as nat, limit);
    }
}

/// A metadata entry takes at least one byte, and all its bytes lie in the
/// sequence.
pub proof fn lemma_metadata_advances(s: Seq<u8>, pos: int)
    ensures
        spec_metadata(s, pos) matches Ok((next, _)) ==> 0 <= pos < next <= s.len(),
{
    if let Ok((at1, _)) = spec_string(s, pos) {
        if let Ok((at2, t)) = spec_value_type(s, at1) {
            lemma_value_advances(s, at2, t);
        }
    }
}

/// `n` metadata entries take at least `n` bytes, all inside the sequence,
/// and come out as `n` entries.
pub proof fn lemma_metadata_list_advances(s: Seq<u8>, pos: int, n: nat)
    requires
        0 <= pos <= s.len(),
    ensures
        spec_metadata_list(s, pos, n) matches Ok((next, entries)) ==> pos + n <= next <= s.len()
            && entries.len() == n,
{
    let item = |p: int| spec_metadata(s, p);
    assert forall|p: int| (#[trigger] item(p)) matches Ok((next, _)) ==> p < next <= s.len() by {
        lemma_metadata_advances(s, p);
    }
    lemma_count_advances(item, pos, n, s.len() as int);
    lemma_count_len(item, pos, n);
}

/// Once `i` metadata entries have failed to decode, any larger number of
/// them fails with the same error.
pub proof fn lemma_metadata_list_failure_sticks(s: Seq<u8>, pos: int, i: nat, n: nat)
    requires
        i <= n,
        spec_metadata_list(s, pos, i) is Err,
    ensures
        spec_metadata_list(s, pos, n) == spec_metadata_list(s, pos, i),
{
    lemma_count_failure_sticks(|p: int| spec_metadata(s, p), pos, i, n);
}

/// Once `i` dimension extents have failed to decode, any larger number of
/// them fails with the same error.
pub proof fn lemma_dimensions_failure_sticks(s: Seq<u8>, pos: int, i: nat, n: nat)
    requires
        i <= n,
        spec_dimensions(s, pos, i) is Err,
    ensures
        spec_dimensions(s, pos, n) == spec_dimensions(s, pos, i),
{
    lemma_count_failure_sticks(|p: int| spec_u64(s, p), pos, i, n);
}

/// `n` dimension extents take `8 * n` bytes, all inside the sequence, and
/// come out as `n` extents.
pub proof fn lemma_dimensions_advance(s: Seq<u8>, pos: int, n: nat)
    requires
        0 <= pos <= s.len(),
    ensures
        spec_dimensions(s, pos, n) matches Ok((next, extents)) ==> next == pos + 8 * n && next
            <= s.len() && extents.len() == n,
    decreases n,
{
    if n > 0 {
        lemma_dimensions_advance(s, pos, (n - 1) as nat);
    }
}

/// A header takes at least 24 bytes, and all its bytes lie in the sequence.
pub proof fn lemma_header_advances(s: Seq<u8>)
    ensures
        spec_header(s) matches Ok((next, _)) ==> 24 <= next <= s.len(),
{
    if let Ok((at3, n)) = spec_u64(s, 16) {
        lemma_metadata_list_advances(s, 24, n as nat);
    }
}

/// A tensor descriptor takes at least one byte, and all its bytes lie in the
/// sequence.
pub proof fn lemma_tensor_info_advances(s: Seq<u8>, pos: int)
    ensures
        spec_tensor_info(s, pos) matches Ok((next, info)) ==> 0 <= pos < next <= s.len(),
{
    if let Ok((at1, _)) = spec_string(s, pos) {
        if let Ok((at2, n)) = spec_u32(s, at1) {
            lemma_dimensions_advance(s, at2, n as nat);
        }
    }
}

/// `n` tensor descriptors take at least `n` bytes, all inside the sequence,
/// and come out as `n` descriptors.
pub proof fn lemma_tensors_advance(s: Seq<u8>, pos: int, n: nat)
    requires
        0 <= pos <= s.len(),
    ensures
        spec_tensors(s, pos, n) matches Ok((next, tensors)) ==> pos + n <= next <= s.len()
            && tensors.len() == n,
{
    let item = |p: int| spec_tensor_info(s, p);
    assert forall|p: int| (#[trigger] item(p)) matches Ok((next, _)) ==> p < next <= s.len() by {
        lemma_tensor_info_advances(s, p);
    }
    lemma_count_advances(item, pos, n, s.len() as int);
    lemma_count_len(item, pos, n);
}

/// Once `i` tensor descriptors have failed to decode, any larger number of
/// them fails with the same error.
pub proof fn lemma_tensors_failure_sticks(s: Seq<u8>, pos: int, i: nat, n: nat)
    requires
        i <= n,
        spec_tensors(s, pos, i) is Err,
    ensures
        spec_tensors(s, pos, n) == spec_tensors(s, pos, i),
{
    lemma_count_failure_sticks(|p: int| spec_tensor_info(s, p), pos, i, n);
}

/// A decoded file ends inside the sequence, and holds as many tensor
/// descriptors as its header declares.
pub proof fn lemma_file_advances(s: Seq<u8>)
    ensures
        spec_file(s) matches Ok((next, file)) ==> 24 <= next <= s.len() && file.tensors.len()
            == file.header.tensor_count,
{
    reveal(spec_file);
    lemma_header_advances(s);
    if let Ok((at1, header)) = spec_header(s) {
        lemma_tensors_advance(s, at1, header.tensor_count as nat);
    }
}

} // verus!
