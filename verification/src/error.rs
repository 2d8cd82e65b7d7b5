//! The two-tier failure model of the decoders.
use vstd::prelude::*;

verus! {

/// What is wrong with input that can never become a valid encoding.
#[derive(Debug, Clone, Copy, PartialEq, Eq, Structural)]
pub enum Malformation {
    /// The first four bytes are not the magic constant.
    BadMagic,
    /// A metadata value type code outside the known ones; holds the raw code.
    UnknownValueType(u32),
    /// A tensor element type code outside the known ones; holds the raw code.
    UnknownTensorType(u32),
    /// A boolean encoded by a byte other than 0 or 1; holds the byte.
    InvalidBool(u8),
    /// A string whose payload is not UTF-8.
    InvalidUtf8,
}

/// A fatal decoding failure: what was wrong, and the offset in the buffer of
/// the field that was wrong.
#[derive(Debug, Clone, Copy, PartialEq, Eq, Structural)]
pub struct GGUFError {
    pub kind: Malformation,
    pub offset: usize,
}

/// Why a decoder did not produce a value.
#[derive(Debug, Clone, Copy, PartialEq, Eq, Structural)]
pub enum DecodeError {
    /// The buffer ends before the field does. Not a failure of the input:
    /// the same bytes followed by more may still decode.
    NeedMoreBytes,
    /// The bytes break the format. No continuation of the buffer decodes.
    Malformed(GGUFError),
}

/// The error for a malformed field of the given kind at the given position.
pub open spec fn malformed(kind: Malformation, pos: int) -> DecodeError {
    DecodeError::Malformed(GGUFError { kind, offset: pos as usize })
}

} // verus!
