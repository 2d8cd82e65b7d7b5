//! What decodes is well-formed: a value is of the type it was decoded as,
//! and every list holds as many items as the count in front of it said.
use vstd::prelude::*;
use crate::grammar::{
    spec_file, spec_header, spec_metadata, spec_metadata_list, spec_string,
    spec_tensor_info, spec_u32, spec_u64, spec_value, spec_value_type, spec_values,
};
use crate::progress::{lemma_count_len, lemma_file_advances};
use crate::tags::GGUfMetadataValueType;

verus! {

/// A value decoded as type `t` is of type `t`, and well-formed.
pub proof fn lemma_value_well_formed(s: Seq<u8>, pos: int, t: GGUfMetadataValueType)
    ensures
        spec_value(s, pos, t) matches Ok((_, v)) ==> v.kind() == t && v.wf(),
    decreases s.len() - pos, 0nat,
{
    if t == GGUfMetadataValueType::Array {
        if let Ok((at1, element_type)) = spec_value_type(s, pos) {
            if let Ok((at2, len)) = spec_u64(s, at1) {
                lemma_values_well_formed(s, at2, element_type, len as nat);
            }
        }
    }
}

/// `n` values decoded as type `t` are `n` well-formed values of type `t`.
pub proof fn lemma_values_well_formed(s: Seq<u8>, pos: int, t: GGUfMetadataValueType, n: nat)
    ensures
        spec_values(s, pos, t, n) matches Ok((_, values)) ==> {
            &&& values.len() == n
            &&& forall|i: int|
                0 <= i < values.len() ==> (#[trigger] values[i]).kind() == t && values[i].wf()
        },
    decreases s.len() - pos, n + 1,
{
    if n > 0 {
        lemma_values_well_formed(s, pos, t, (n - 1) as nat);
        if let Ok((p, _)) = spec_values(s, pos, t, (n - 1) as nat) {
            if pos <= p <= s.len() {
                lemma_value_well_formed(s, p, t);
            }
        }
    }
}

/// A decoded metadata entry is well-formed: its value is of the type that
/// the entry names.
pub proof fn lemma_metadata_well_formed(s: Seq<u8>, pos: int)
    ensures
        spec_metadata(s, pos) matches Ok((_, entry)) ==> entry.wf(),
{
    if let Ok((at1, _)) = spec_string(s, pos) {
        if let Ok((at2, t)) = spec_value_type(s, at1) {
            lemma_value_well_formed(s, at2, t);
        }
    }
}

/// `n` decoded metadata entries are `n` well-formed entries.
pub proof fn lemma_metadata_list_well_formed(s: Seq<u8>, pos: int, n: nat)
    ensures
        spec_metadata_list(s, pos, n) matches Ok((_, entries)) ==> {
            &&& entries.len() == n
            &&& forall|i: int| 0 <= i < entries.len() ==> (#[trigger] entries[i]).wf()
        },
    decreases n,
{
    if n > 0 {
        lemma_metadata_list_well_formed(s, pos, (n - 1) as nat);
        if let Ok((p, _)) = spec_metadata_list(s, pos, (n - 1) as nat) {
            lemma_metadata_well_formed(s, p);
        }
    }
}

/// A decoded header is well-formed, and holds as many entries as the count
/// at offset 16 declares.
pub proof fn lemma_header_well_formed(s: Seq<u8>)
    ensures
        spec_header(s) matches Ok((_, header)) ==> {
            &&& header.wf()
            &&& spec_u64(s, 16) matches Ok((_, declared))
            &&& header.metadata.len() == declared
        },
{
    if let Ok((_, n)) = spec_u64(s, 16) {
        lemma_metadata_list_well_formed(s, 24, n as nat);
    }
}

/// A decoded tensor descriptor holds as many dimensions as the count after
/// its name declares.
pub proof fn lemma_tensor_info_well_formed(s: Seq<u8>, pos: int)
    ensures
        spec_tensor_info(s, pos) matches Ok((_, info)) ==> {
            &&& spec_string(s, pos) matches Ok((at1, _))
            &&& spec_u32(s, at1) matches Ok((_, declared))
            &&& info.dimensions.len() == declared
        },
{
    if let Ok((at1, _)) = spec_string(s, pos) {
        if let Ok((at2, n)) = spec_u32(s, at1) {
            lemma_count_len(|p: int| spec_u64(s, p), at2, n as nat);
        }
    }
}

/// A decoded file is well-formed: every metadata value is of the type its
/// entry names, and there are as many tensor descriptors as the header
/// declares.
pub proof fn lemma_file_well_formed(s: Seq<u8>)
    ensures
        spec_file(s) matches Ok((_, file)) ==> file.wf(),
{
    reveal(spec_file);
    lemma_header_well_formed(s);
    lemma_file_advances(s);
}

} // verus!
