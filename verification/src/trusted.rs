//! What this crate takes on trust from code that Verus does not read:
//! `core::str::from_utf8`, and the growable byte buffer of the `bytes` crate.
use vstd::prelude::*;
use bytes::BytesMut;
use vstd::string::StringSliceAdditionalSpecFns;
use vstd::utf8::valid_utf8;

verus! {

/// `core::str::Utf8Error`, which `from_utf8` returns on failure. Verus sees
/// nothing inside it.
#[verifier::external_type_specification]
#[verifier::external_body]
pub struct ExUtf8Error(core::str::Utf8Error);

/// `core::str::from_utf8`: succeeds exactly on well-formed UTF-8, and the
/// string slice it then returns is made of the very bytes it was given.
pub assume_specification<'a>[ core::str::from_utf8 ](v: &'a [u8]) -> (r: Result<
    &'a str,
    core::str::Utf8Error,
>)
    ensures
        r is Ok <==> valid_utf8(v@),
        r matches Ok(text) ==> text.spec_bytes() == v@,
;

/// `bytes::BytesMut`, a growable byte buffer. Verus sees nothing inside it.
#[verifier::external_type_specification]
#[verifier::external_body]
pub struct ExBytesMut(bytes::BytesMut);

/// The bytes that a `BytesMut` holds, first to last. Spare capacity is no
/// part of it.
pub uninterp spec fn buffer_bytes(buffer: BytesMut) -> Seq<u8>;

/// The most bytes that this crate lets a buffer hold or make room for: half
/// of `isize::MAX`. The buffer sits in a `Vec`, which may double its
/// allocation when it grows and panics where that passes `isize::MAX`; up to
/// this limit it does not.
pub open spec fn buffer_limit() -> int {
    isize::MAX / 2
}

/// `BytesMut::with_capacity`: a buffer that holds no bytes. It allocates
/// through `Vec::with_capacity`, which panics above `isize::MAX`.
pub assume_specification[ BytesMut::with_capacity ](capacity: usize) -> (buffer: BytesMut)
    requires
        capacity <= isize::MAX,
    ensures
        buffer_bytes(buffer) == Seq::<u8>::empty(),
;

/// `BytesMut::extend_from_slice`: appends the given bytes, after making
/// room for them as `reserve` does. Claimed of a buffer that was never
/// split, advanced or frozen, which is every buffer that this crate makes.
pub assume_specification[ BytesMut::extend_from_slice ](buffer: &mut BytesMut, extend: &[u8])
    requires
        buffer_bytes(*old(buffer)).len() + extend@.len() <= buffer_limit(),
    ensures
        buffer_bytes(*final(buffer)) == buffer_bytes(*old(buffer)) + extend@,
;

/// `BytesMut::reserve`: makes room for `additional` more bytes and leaves
/// the bytes held as they are. Claimed of a buffer that was never split,
/// advanced or frozen, which is every buffer that this crate makes.
pub assume_specification[ BytesMut::reserve ](buffer: &mut BytesMut, additional: usize)
    requires
        buffer_bytes(*old(buffer)).len() + additional <= buffer_limit(),
    ensures
        buffer_bytes(*final(buffer)) == buffer_bytes(*old(buffer)),
;

/// `AsRef<[u8]>::as_ref` of `BytesMut`: the bytes held, as a slice.
#[verifier::external_body]
pub(crate) fn buffer_as_slice(buffer: &BytesMut) -> (bytes: &[u8])
    ensures
        bytes@ == buffer_bytes(*buffer),
{
    buffer.as_ref()
}

} // verus!
