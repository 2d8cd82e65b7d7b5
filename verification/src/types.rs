//! The decoded value tree, and the mathematical value that each part of it
//! stands for.
//!
//! Every executable type here has a view made of sequences and integers; the
//! contracts of the decoders speak of the views. Floating point values are
//! held as their IEEE 754 bit patterns.
use vstd::prelude::*;
use crate::tags::{GGMLType, GGUfMetadataValueType};

verus! {

/// GGUF metadata value
#[derive(Debug, PartialEq)]
pub enum GGUFMetadataValue {
    Uint8(u8),
    Int8(i8),
    Uint16(u16),
    Int16(i16),
    Uint32(u32),
    Int32(i32),
    /// The bit pattern of a 32-bit IEEE 754 number.
    Float32(u32),
    Uint64(u64),
    Int64(i64),
    /// The bit pattern of a 64-bit IEEE 754 number.
    Float64(u64),
    Bool(bool),
    String(String),
    Array(GGUFMetadataArrayValue),
}

/// An array value: the type of its elements, the element count as the file
/// declares it, and the elements in file order.
#[derive(Debug, PartialEq)]
pub struct GGUFMetadataArrayValue {
    pub value_type: GGUfMetadataValueType,
    pub len: u64,
    pub value: Vec<GGUFMetadataValue>,
}

/// GGUF metadata
#[derive(Debug, PartialEq)]
pub struct GGUFMetadata {
    pub key: String,
    pub value_type: GGUfMetadataValueType,
    pub value: GGUFMetadataValue,
}

/// GGUF header
#[derive(Debug, PartialEq)]
pub struct GGUFHeader {
    pub version: u32,
    pub tensor_count: u64,
    pub metadata: Vec<GGUFMetadata>,
}

/// Descriptor of one tensor. The offset is not checked against anything.
#[derive(Debug, PartialEq)]
pub struct GGUFTensorInfo {
    pub name: String,
    pub dimensions: Vec<u64>,
    pub tensor_type: GGMLType,
    pub offset: u64,
}

/// A decoded file: the header and the tensor descriptors that follow it.
#[derive(Debug, PartialEq)]
pub struct GGUFFile {
    pub header: GGUFHeader,
    pub tensors: Vec<GGUFTensorInfo>,
}

/// What a `GGUFMetadataValue` stands for.
pub enum ValueView {
    Uint8(u8),
    Int8(i8),
    Uint16(u16),
    Int16(i16),
    Uint32(u32),
    Int32(i32),
    Float32(u32),
    Uint64(u64),
    Int64(i64),
    Float64(u64),
    Bool(bool),
    String(Seq<char>),
    Array(ArrayView),
}

/// What a `GGUFMetadataArrayValue` stands for.
pub struct ArrayView {
    pub value_type: GGUfMetadataValueType,
    pub len: u64,
    pub value: Seq<ValueView>,
}

/// What a `GGUFMetadata` stands for.
pub struct MetadataView {
    pub key: Seq<char>,
    pub value_type: GGUfMetadataValueType,
    pub value: ValueView,
}

/// What a `GGUFHeader` stands for.
pub struct HeaderView {
    pub version: u32,
    pub tensor_count: u64,
    pub metadata: Seq<MetadataView>,
}

/// What a `GGUFTensorInfo` stands for.
pub struct TensorInfoView {
    pub name: Seq<char>,
    pub dimensions: Seq<u64>,
    pub tensor_type: GGMLType,
    pub offset: u64,
}

/// What a `GGUFFile` stands for.
pub struct FileView {
    pub header: HeaderView,
    pub tensors: Seq<TensorInfoView>,
}

impl ValueView {
    /// The type that this value is of.
    pub open spec fn kind(self) -> GGUfMetadataValueType {
        match self {
            ValueView::Uint8(_) => GGUfMetadataValueType::Uint8,
            ValueView::Int8(_) => GGUfMetadataValueType::Int8,
            ValueView::Uint16(_) => GGUfMetadataValueType::Uint16,
            ValueView::Int16(_) => GGUfMetadataValueType::Int16,
            ValueView::Uint32(_) => GGUfMetadataValueType::Uint32,
            ValueView::Int32(_) => GGUfMetadataValueType::Int32,
            ValueView::Float32(_) => GGUfMetadataValueType::Float32,
            ValueView::Uint64(_) => GGUfMetadataValueType::Uint64,
            ValueView::Int64(_) => GGUfMetadataValueType::Int64,
            ValueView::Float64(_) => GGUfMetadataValueType::Float64,
            ValueView::Bool(_) => GGUfMetadataValueType::Bool,
            ValueView::String(_) => GGUfMetadataValueType::String,
            ValueView::Array(_) => GGUfMetadataValueType::Array,
        }
    }

    /// True when every array in this value, at any depth, holds as many
    /// elements as it declares, all of the type it declares.
    pub open spec fn wf(self) -> bool
        decreases self,
    {
        match self {
            ValueView::Array(a) => {
                &&& a.value.len() == a.len
                &&& forall|i: int|
                    0 <= i < a.value.len() ==> (#[trigger] a.value[i]).kind() == a.value_type
                        && a.value[i].wf()
            },
            _ => true,
        }
    }
}

impl MetadataView {
    /// True when the value is of the type that the entry declares, and is
    /// well-formed.
    pub open spec fn wf(self) -> bool {
        self.value.kind() == self.value_type && self.value.wf()
    }
}

impl HeaderView {
    /// True when every entry is well-formed.
    pub open spec fn wf(self) -> bool {
        forall|i: int| 0 <= i < self.metadata.len() ==> (#[trigger] self.metadata[i]).wf()
    }
}

impl FileView {
    /// True when the header is well-formed and there are as many tensor
    /// descriptors as it declares.
    pub open spec fn wf(self) -> bool {
        self.header.wf() && self.tensors.len() == self.header.tensor_count
    }
}

/// What a decoded value stands for.
pub open spec fn value_view(v: GGUFMetadataValue) -> ValueView
    decreases v,
{
    match v {
        GGUFMetadataValue::Uint8(x) => ValueView::Uint8(x),
        GGUFMetadataValue::Int8(x) => ValueView::Int8(x),
        GGUFMetadataValue::Uint16(x) => ValueView::Uint16(x),
        GGUFMetadataValue::Int16(x) => ValueView::Int16(x),
        GGUFMetadataValue::Uint32(x) => ValueView::Uint32(x),
        GGUFMetadataValue::Int32(x) => ValueView::Int32(x),
        GGUFMetadataValue::Float32(x) => ValueView::Float32(x),
        GGUFMetadataValue::Uint64(x) => ValueView::Uint64(x),
        GGUFMetadataValue::Int64(x) => ValueView::Int64(x),
        GGUFMetadataValue::Float64(x) => ValueView::Float64(x),
        GGUFMetadataValue::Bool(x) => ValueView::Bool(x),
        GGUFMetadataValue::String(x) => ValueView::String(x@),
        GGUFMetadataValue::Array(a) => ValueView::Array(
            ArrayView {
                value_type: a.value_type,
                len: a.len,
                value: Seq::new(
                    a.value@.len(),
                    |i: int|
                        if 0 <= i < a.value@.len() {
                            value_view(a.value@[i])
                        } else {
                            arbitrary()
                        },
                ),
            },
        ),
    }
}

impl View for GGUFMetadataValue {
    type V = ValueView;

    open spec fn view(&self) -> ValueView {
        value_view(*self)
    }
}

impl View for GGUFMetadataArrayValue {
    type V = ArrayView;

    open spec fn view(&self) -> ArrayView {
        ArrayView { value_type: self.value_type, len: self.len, value: values_view(self.value@) }
    }
}

/// The values that a sequence of decoded values stands for, in order.
pub open spec fn values_view(values: Seq<GGUFMetadataValue>) -> Seq<ValueView> {
    Seq::new(values.len(), |i: int| values[i]@)
}

/// An array value stands for the array of what its elements stand for.
pub proof fn lemma_array_view(a: GGUFMetadataArrayValue)
    ensures
        GGUFMetadataValue::Array(a)@ == ValueView::Array(a@),
{
    let whole = GGUFMetadataValue::Array(a)@;
    assert(whole->Array_0.value =~= values_view(a.value@));
}

impl View for GGUFMetadata {
    type V = MetadataView;

    open spec fn view(&self) -> MetadataView {
        MetadataView { key: self.key@, value_type: self.value_type, value: self.value@ }
    }
}

/// The entries that a sequence of decoded entries stands for, in order.
pub open spec fn metadata_view(entries: Seq<GGUFMetadata>) -> Seq<MetadataView> {
    Seq::new(entries.len(), |i: int| entries[i]@)
}

impl View for GGUFHeader {
    type V = HeaderView;

    open spec fn view(&self) -> HeaderView {
        HeaderView {
            version: self.version,
            tensor_count: self.tensor_count,
            metadata: metadata_view(self.metadata@),
        }
    }
}

impl View for GGUFTensorInfo {
    type V = TensorInfoView;

    open spec fn view(&self) -> TensorInfoView {
        TensorInfoView {
            name: self.name@,
            dimensions: self.dimensions@,
            tensor_type: self.tensor_type,
            offset: self.offset,
        }
    }
}

/// The descriptors that a sequence of decoded descriptors stands for, in
/// order.
pub open spec fn tensors_view(tensors: Seq<GGUFTensorInfo>) -> Seq<TensorInfoView> {
    Seq::new(tensors.len(), |i: int| tensors[i]@)
}

impl View for GGUFFile {
    type V = FileView;

    open spec fn view(&self) -> FileView {
        FileView { header: self.header@, tensors: tensors_view(self.tensors@) }
    }
}

} // verus!
