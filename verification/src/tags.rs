//! The two closed enumerations of type codes, and the total maps from raw
//! 32-bit codes onto them.
use vstd::prelude::*;
use vstd::std_specs::convert::TryFromSpecImpl;
use crate::error::Malformation;

verus! {

/// GGUF metadata value type
#[derive(Debug, Clone, Copy, PartialEq, Eq, Structural)]
pub enum GGUfMetadataValueType {
    /// The value is a 8-bit unsigned integer.
    Uint8,
    /// The value is a 8-bit signed integer.
    Int8,
    /// The value is a 16-bit unsigned little-endian integer.
    Uint16,
    /// The value is a 16-bit signed little-endian integer.
    Int16,
    /// The value is a 32-bit unsigned little-endian integer.
    Uint32,
    /// The value is a 32-bit signed little-endian integer.
    Int32,
    /// The value is a 32-bit IEEE754 floating point number.
    Float32,
    /// The value is a boolean.
    Bool,
    /// The value is a UTF-8 non-null-terminated string, with length prepended.
    String,
    /// The value is an array of other values, with the length and type prepended.
    Array,
    /// The value is a 64-bit unsigned little-endian integer.
    Uint64,
    /// The value is a 64-bit signed little-endian integer.
    Int64,
    /// The value is a 64-bit IEEE754 floating point number.
    Float64,
}

impl GGUfMetadataValueType {
    /// The code that stands for this type in a file.
    pub open spec fn spec_code(self) -> u32 {
        match self {
            GGUfMetadataValueType::Uint8 => 0,
            GGUfMetadataValueType::Int8 => 1,
            GGUfMetadataValueType::Uint16 => 2,
            GGUfMetadataValueType::Int16 => 3,
            GGUfMetadataValueType::Uint32 => 4,
            GGUfMetadataValueType::Int32 => 5,
            GGUfMetadataValueType::Float32 => 6,
            GGUfMetadataValueType::Bool => 7,
            GGUfMetadataValueType::String => 8,
            GGUfMetadataValueType::Array => 9,
            GGUfMetadataValueType::Uint64 => 10,
            GGUfMetadataValueType::Int64 => 11,
            GGUfMetadataValueType::Float64 => 12,
        }
    }

    /// The type that a code stands for: the one type with that code, if any.
    pub open spec fn from_code(code: u32) -> Option<Self> {
        if exists|t: Self| t.spec_code() == code {
            Some(choose|t: Self| t.spec_code() == code)
        } else {
            None
        }
    }

    /// No two types share a code.
    pub proof fn lemma_code_injective(a: Self, b: Self)
        requires
            a.spec_code() == b.spec_code(),
        ensures
            a == b,
    {
    }

    /// Exactly the codes 0 to 12 stand for a type, and the type that a code
    /// stands for has that code.
    pub proof fn lemma_from_code(code: u32)
        ensures
            Self::from_code(code) is Some <==> code <= 12,
            Self::from_code(code) matches Some(t) ==> t.spec_code() == code,
    {
        if code <= 12 {
            assert(GGUfMetadataValueType::Uint8.spec_code() == 0);
            assert(GGUfMetadataValueType::Int8.spec_code() == 1);
            assert(GGUfMetadataValueType::Uint16.spec_code() == 2);
            assert(GGUfMetadataValueType::Int16.spec_code() == 3);
            assert(GGUfMetadataValueType::Uint32.spec_code() == 4);
            assert(GGUfMetadataValueType::Int32.spec_code() == 5);
            assert(GGUfMetadataValueType::Float32.spec_code() == 6);
            assert(GGUfMetadataValueType::Bool.spec_code() == 7);
            assert(GGUfMetadataValueType::String.spec_code() == 8);
            assert(GGUfMetadataValueType::Array.spec_code() == 9);
            assert(GGUfMetadataValueType::Uint64.spec_code() == 10);
            assert(GGUfMetadataValueType::Int64.spec_code() == 11);
            assert(GGUfMetadataValueType::Float64.spec_code() == 12);
        }
    }

    /// Decoding the code of a type gives the type back.
    pub proof fn lemma_code_round_trip(t: Self)
        ensures
            Self::from_code(t.spec_code()) == Some(t),
    {
        Self::lemma_from_code(t.spec_code());
        Self::lemma_code_injective(Self::from_code(t.spec_code())->0, t);
    }

    /// The code that stands for this type in a file.
    #[verifier::when_used_as_spec(spec_code)]
    pub fn code(self) -> (c: u32)
        ensures
            c == self.spec_code(),
            c <= 12,
    {
        match self {
            GGUfMetadataValueType::Uint8 => 0,
            GGUfMetadataValueType::Int8 => 1,
            GGUfMetadataValueType::Uint16 => 2,
            GGUfMetadataValueType::Int16 => 3,
            GGUfMetadataValueType::Uint32 => 4,
            GGUfMetadataValueType::Int32 => 5,
            GGUfMetadataValueType::Float32 => 6,
            GGUfMetadataValueType::Bool => 7,
            GGUfMetadataValueType::String => 8,
            GGUfMetadataValueType::Array => 9,
            GGUfMetadataValueType::Uint64 => 10,
            GGUfMetadataValueType::Int64 => 11,
            GGUfMetadataValueType::Float64 => 12,
        }
    }
}

impl View for GGUfMetadataValueType {
    type V = Self;

    open spec fn view(&self) -> Self {
        *self
    }
}

impl TryFrom<u32> for GGUfMetadataValueType {
    type Error = Malformation;

    /// Maps a raw code to its type; any code above 12 is rejected and handed
    /// back in the error.
    fn try_from(item: u32) -> (r: Result<Self, Self::Error>)
        ensures
            item <= 12 <==> r is Ok,
            r matches Ok(t) ==> t.spec_code() == item,
            r matches Err(e) ==> e == Malformation::UnknownValueType(item),
    {
        proof {
            Self::lemma_from_code(item);
            if let Some(t) = Self::from_code(item) {
                assert forall|u: Self| u.spec_code() == item implies u == t by {
                    Self::lemma_code_injective(u, t);
                }
            }
        }
        Ok(
            match item {
                0 => GGUfMetadataValueType::Uint8,
                1 => GGUfMetadataValueType::Int8,
                2 => GGUfMetadataValueType::Uint16,
                3 => GGUfMetadataValueType::Int16,
                4 => GGUfMetadataValueType::Uint32,
                5 => GGUfMetadataValueType::Int32,
                6 => GGUfMetadataValueType::Float32,
                7 => GGUfMetadataValueType::Bool,
                8 => GGUfMetadataValueType::String,
                9 => GGUfMetadataValueType::Array,
                10 => GGUfMetadataValueType::Uint64,
                11 => GGUfMetadataValueType::Int64,
                12 => GGUfMetadataValueType::Float64,
                _ => return Err(Malformation::UnknownValueType(item)),
            },
        )
    }
}

impl TryFromSpecImpl<u32> for GGUfMetadataValueType {
    open spec fn obeys_try_from_spec() -> bool {
        true
    }

    open spec fn try_from_spec(v: u32) -> Result<Self, Self::Error> {
        match Self::from_code(v) {
            Some(t) => Ok(t),
            None => Err(Malformation::UnknownValueType(v)),
        }
    }
}

/// Element type of a tensor. Codes 4 and 5 are reserved and stand for no
/// type.
#[derive(Debug, Clone, Copy, PartialEq, Eq, Structural)]
pub enum GGMLType {
    F32,
    F16,
    Q4_0,
    Q4_1,
    Q5_0,
    Q5_1,
    Q8_0,
    Q8_1,
    Q2K,
    Q3K,
    Q4K,
    Q5K,
    Q6K,
    Q8K,
    I8,
    I16,
    I32,
    Count,
}

impl GGMLType {
    /// The code that stands for this type in a file.
    pub open spec fn spec_code(self) -> u32 {
        match self {
            GGMLType::F32 => 0,
            GGMLType::F16 => 1,
            GGMLType::Q4_0 => 2,
            GGMLType::Q4_1 => 3,
            GGMLType::Q5_0 => 6,
            GGMLType::Q5_1 => 7,
            GGMLType::Q8_0 => 8,
            GGMLType::Q8_1 => 9,
            GGMLType::Q2K => 10,
            GGMLType::Q3K => 11,
            GGMLType::Q4K => 12,
            GGMLType::Q5K => 13,
            GGMLType::Q6K => 14,
            GGMLType::Q8K => 15,
            GGMLType::I8 => 16,
            GGMLType::I16 => 17,
            GGMLType::I32 => 18,
            GGMLType::Count => 19,
        }
    }

    /// The type that a code stands for: the one type with that code, if any.
    pub open spec fn from_code(code: u32) -> Option<Self> {
        if exists|t: Self| t.spec_code() == code {
            Some(choose|t: Self| t.spec_code() == code)
        } else {
            None
        }
    }

    /// No two types share a code.
    pub proof fn lemma_code_injective(a: Self, b: Self)
        requires
            a.spec_code() == b.spec_code(),
        ensures
            a == b,
    {
    }

    /// Exactly the codes 0 to 3 and 6 to 19 stand for a type, and the type
    /// that a code stands for has that code.
    pub proof fn lemma_from_code(code: u32)
        ensures
            Self::from_code(code) is Some <==> (code <= 19 && code != 4 && code != 5),
            Self::from_code(code) matches Some(t) ==> t.spec_code() == code,
    {
        if code <= 19 && code != 4 && code != 5 {
            assert(GGMLType::F32.spec_code() == 0);
            assert(GGMLType::F16.spec_code() == 1);
            assert(GGMLType::Q4_0.spec_code() == 2);
            assert(GGMLType::Q4_1.spec_code() == 3);
            assert(GGMLType::Q5_0.spec_code() == 6);
            assert(GGMLType::Q5_1.spec_code() == 7);
            assert(GGMLType::Q8_0.spec_code() == 8);
            assert(GGMLType::Q8_1.spec_code() == 9);
            assert(GGMLType::Q2K.spec_code() == 10);
            assert(GGMLType::Q3K.spec_code() == 11);
            assert(GGMLType::Q4K.spec_code() == 12);
            assert(GGMLType::Q5K.spec_code() == 13);
            assert(GGMLType::Q6K.spec_code() == 14);
            assert(GGMLType::Q8K.spec_code() == 15);
            assert(GGMLType::I8.spec_code() == 16);
            assert(GGMLType::I16.spec_code() == 17);
            assert(GGMLType::I32.spec_code() == 18);
            assert(GGMLType::Count.spec_code() == 19);
        }
    }

    /// Decoding the code of a type gives the type back.
    pub proof fn lemma_code_round_trip(t: Self)
        ensures
            Self::from_code(t.spec_code()) == Some(t),
    {
        Self::lemma_from_code(t.spec_code());
        Self::lemma_code_injective(Self::from_code(t.spec_code())->0, t);
    }

    /// The code that stands for this type in a file.
    #[verifier::when_used_as_spec(spec_code)]
    pub fn code(self) -> (c: u32)
        ensures
            c == self.spec_code(),
            c <= 19,
            c != 4,
            c != 5,
    {
        match self {
            GGMLType::F32 => 0,
            GGMLType::F16 => 1,
            GGMLType::Q4_0 => 2,
            GGMLType::Q4_1 => 3,
            GGMLType::Q5_0 => 6,
            GGMLType::Q5_1 => 7,
            GGMLType::Q8_0 => 8,
            GGMLType::Q8_1 => 9,
            GGMLType::Q2K => 10,
            GGMLType::Q3K => 11,
            GGMLType::Q4K => 12,
            GGMLType::Q5K => 13,
            GGMLType::Q6K => 14,
            GGMLType::Q8K => 15,
            GGMLType::I8 => 16,
            GGMLType::I16 => 17,
            GGMLType::I32 => 18,
            GGMLType::Count => 19,
        }
    }
}

impl View for GGMLType {
    type V = Self;

    open spec fn view(&self) -> Self {
        *self
    }
}

impl TryFrom<u32> for GGMLType {
    type Error = Malformation;

    /// Maps a raw code to its type; the reserved codes 4 and 5 and any code
    /// above 19 are rejected and handed back in the error.
    fn try_from(item: u32) -> (r: Result<Self, Self::Error>)
        ensures
            (item <= 19 && item != 4 && item != 5) <==> r is Ok,
            r matches Ok(t) ==> t.spec_code() == item,
            r matches Err(e) ==> e == Malformation::UnknownTensorType(item),
    {
        proof {
            Self::lemma_from_code(item);
            if let Some(t) = Self::from_code(item) {
                assert forall|u: Self| u.spec_code() == item implies u == t by {
                    Self::lemma_code_injective(u, t);
                }
            }
        }
        Ok(
            match item {
                0 => GGMLType::F32,
                1 => GGMLType::F16,
                2 => GGMLType::Q4_0,
                3 => GGMLType::Q4_1,
                6 => GGMLType::Q5_0,
                7 => GGMLType::Q5_1,
                8 => GGMLType::Q8_0,
                9 => GGMLType::Q8_1,
                10 => GGMLType::Q2K,
                11 => GGMLType::Q3K,
                12 => GGMLType::Q4K,
                13 => GGMLType::Q5K,
                14 => GGMLType::Q6K,
                15 => GGMLType::Q8K,
                16 => GGMLType::I8,
                17 => GGMLType::I16,
                18 => GGMLType::I32,
                19 => GGMLType::Count,
                _ => return Err(Malformation::UnknownTensorType(item)),
            },
        )
    }
}

impl TryFromSpecImpl<u32> for GGMLType {
    open spec fn obeys_try_from_spec() -> bool {
        true
    }

    open spec fn try_from_spec(v: u32) -> Result<Self, Self::Error> {
        match Self::from_code(v) {
            Some(t) => Ok(t),
            None => Err(Malformation::UnknownTensorType(v)),
        }
    }
}

} // verus!
