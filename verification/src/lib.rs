//! Decoder for the GGUF container format: a header with typed metadata
//! entries, followed by tensor descriptors.
//!
//! Every decoder is a total function on a byte buffer and a cursor. Its
//! contract ties the result to the format's mathematical definition in
//! [`grammar`], which tells apart input that is a valid but unfinished prefix
//! (`NeedMoreBytes`) from input that no further bytes can repair
//! (`Malformed`).
pub mod error;
pub mod grammar;
pub mod parser;
pub mod prefix;
pub mod progress;
pub mod reader;
pub mod tags;
pub mod trusted;
pub mod types;
pub mod wellformed;

pub use error::{DecodeError, GGUFError, Malformation};
pub use reader::{read_gguf_chunks, GGUFReader, ReadError};
pub use tags::{GGMLType, GGUfMetadataValueType};
pub use types::{
    GGUFFile, GGUFHeader, GGUFMetadata, GGUFMetadataArrayValue, GGUFMetadataValue, GGUFTensorInfo,
};
