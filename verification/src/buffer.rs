//! Byte buffers.
//!
//! The buffer type is `BytesMut` of the `bytes` crate. It is opaque here, and [`contents`] names
//! the bytes that it holds.

use vstd::prelude::*;

use bytes::BytesMut;

verus! {

/// A growable buffer of bytes.
#[verifier::external_type_specification]
#[verifier::external_body]
pub struct ExBytesMut(bytes::BytesMut);

/// The bytes that a buffer holds.
pub uninterp spec fn contents(buffer: BytesMut) -> Seq<u8>;

/// The number of bytes up to which a buffer is grown.
///
/// No allocation can have more than `isize::MAX` bytes. A buffer that grows may keep as much storage
/// in front of its bytes as it has bytes, from a larger buffer that it was split from, and it may
/// double all of its storage. So a quarter of the largest allocation can be filled.
pub const MAX_LEN: usize = usize::MAX / 8;

/// Tells with `BytesMut::len` how many bytes a buffer holds.
#[verifier::external_body]
pub(crate) fn len(buffer: &BytesMut) -> (n: usize)
    ensures
        n == contents(*buffer).len(),
{
    buffer.len()
}

/// Makes room for more bytes with `BytesMut::reserve`, which panics when the buffer cannot grow to
/// hold them. The bytes in the buffer stay what they are.
#[verifier::external_body]
pub(crate) fn reserve(buffer: &mut BytesMut, additional: usize)
    requires
        contents(*old(buffer)).len() + additional <= MAX_LEN,
    ensures
        contents(*final(buffer)) == contents(*old(buffer)),
{
    buffer.reserve(additional)
}

/// Appends the bytes of another buffer with `BytesMut::extend_from_slice`, which panics when the
/// buffer cannot grow to hold them.
#[verifier::external_body]
pub(crate) fn append(buffer: &mut BytesMut, more: &BytesMut)
    requires
        contents(*old(buffer)).len() + contents(*more).len() <= MAX_LEN,
    ensures
        contents(*final(buffer)) == contents(*old(buffer)) + contents(*more),
{
    buffer.extend_from_slice(more)
}

} // verus!
