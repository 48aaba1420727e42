//! Shared byte buffers of the `bytes` crate.
//!
//! `Bytes` and `BytesMut` are opaque here. `contents` and `pending` name the
//! octets that they hold, and each function below states what one method of
//! the crate does to those octets.

use bytes::{Bytes, BytesMut};
use vstd::prelude::*;

verus! {

/// An immutable, reference-counted byte buffer.
#[verifier::external_type_specification]
#[verifier::external_body]
pub struct ExBytes(bytes::Bytes);

/// A growable byte buffer.
#[verifier::external_type_specification]
#[verifier::external_body]
pub struct ExBytesMut(bytes::BytesMut);

/// The octets that a buffer holds.
pub uninterp spec fn contents(buffer: Bytes) -> Seq<u8>;

/// The octets that a growable buffer holds.
pub uninterp spec fn pending(buffer: BytesMut) -> Seq<u8>;

/// Calls `Bytes::new`, which makes an empty buffer.
#[verifier::external_body]
pub(crate) fn empty() -> (buffer: Bytes)
    ensures
        contents(buffer) == Seq::<u8>::empty(),
{
    Bytes::new()
}

/// Calls `Bytes::len`, the number of octets held.
#[verifier::external_body]
pub(crate) fn length(buffer: &Bytes) -> (len: usize)
    ensures
        len == contents(*buffer).len(),
{
    buffer.len()
}

/// Calls `Bytes::clone`, a second handle to the same octets.
#[verifier::external_body]
pub(crate) fn share(buffer: &Bytes) -> (same: Bytes)
    ensures
        contents(same) == contents(*buffer),
{
    buffer.clone()
}

/// Calls `Bytes::slice` on a range inside the buffer; a range outside it
/// panics and is ruled out.
#[verifier::external_body]
pub(crate) fn slice(buffer: &Bytes, start: usize, end: usize) -> (part: Bytes)
    requires
        start <= end <= contents(*buffer).len(),
    ensures
        contents(part) == contents(*buffer).subrange(start as int, end as int),
{
    buffer.slice(start..end)
}

/// Calls `Bytes::as_ref`, which borrows the octets.
#[verifier::external_body]
pub(crate) fn as_slice(buffer: &Bytes) -> (octets: &[u8])
    ensures
        octets@ == contents(*buffer),
{
    buffer.as_ref()
}

/// Calls `Bytes::copy_from_slice`, a buffer with a copy of the octets.
#[verifier::external_body]
pub(crate) fn copy_from_slice(octets: &[u8]) -> (buffer: Bytes)
    ensures
        contents(buffer) == octets@,
{
    Bytes::copy_from_slice(octets)
}

/// Calls `BytesMut::with_capacity`, an empty buffer; a capacity above
/// `isize::MAX` panics and is ruled out.
#[verifier::external_body]
pub(crate) fn with_capacity(capacity: usize) -> (buffer: BytesMut)
    requires
        capacity <= isize::MAX,
    ensures
        pending(buffer) == Seq::<u8>::empty(),
{
    BytesMut::with_capacity(capacity)
}

/// Calls `BytesMut::extend_from_slice`, which appends the octets; a total
/// above `isize::MAX` panics and is ruled out.
#[verifier::external_body]
pub(crate) fn extend_from_slice(buffer: &mut BytesMut, octets: &[u8])
    requires
        pending(*old(buffer)).len() + octets@.len() <= isize::MAX,
    ensures
        pending(*final(buffer)) == pending(*old(buffer)) + octets@,
{
    buffer.extend_from_slice(octets)
}

/// Calls `BytesMut::freeze`, which keeps the octets and makes them immutable.
#[verifier::external_body]
pub(crate) fn freeze(buffer: BytesMut) -> (frozen: Bytes)
    ensures
        contents(frozen) == pending(buffer),
{
    buffer.freeze()
}

} // verus!
