//! Declarations for the byte buffers of the `bytes` crate that carry data
//! between the serial connection and the codec, together with contracts for
//! the handful of buffer operations the codec relies on.

use bytes::BufMut;
use vstd::prelude::*;

verus! {

/// `bytes::BytesMut`, declared so that verified code can hold a mutable byte
/// buffer of the `bytes` crate and speak of its contents.
#[verifier::external_type_specification]
#[verifier::external_body]
pub struct ExBytesMut(bytes::BytesMut);

/// `bytes::Bytes`, declared so that verified code can hand out an immutable
/// byte run of the `bytes` crate.
#[verifier::external_type_specification]
#[verifier::external_body]
pub struct ExBytes(bytes::Bytes);

/// The bytes a `BytesMut` holds, in order.
pub uninterp spec fn bytes_mut_view(b: bytes::BytesMut) -> Seq<u8>;

/// The bytes a `Bytes` holds, in order.
pub uninterp spec fn bytes_view(b: bytes::Bytes) -> Seq<u8>;

/// Relies on `<BytesMut as AsRef<[u8]>>::as_ref`: a `BytesMut` exposes
/// exactly the bytes it holds as a slice.
#[verifier::external_body]
pub(crate) fn bytes_mut_slice(b: &bytes::BytesMut) -> (r: &[u8])
    ensures
        r@ == bytes_mut_view(*b),
{
    b.as_ref()
}

/// Relies on `BytesMut::split_to`: afterwards the buffer holds the bytes
/// from `at` on, and the returned handle holds the first `at` bytes.
/// `split_to` panics when `at` exceeds the length, so that is excluded.
#[verifier::external_body]
pub(crate) fn bytes_mut_split_to(b: &mut bytes::BytesMut, at: usize) -> (r: bytes::BytesMut)
    requires
        at <= bytes_mut_view(*old(b)).len(),
    ensures
        bytes_mut_view(r) == bytes_mut_view(*old(b)).take(at as int),
        bytes_mut_view(*final(b)) == bytes_mut_view(*old(b)).skip(at as int),
{
    b.split_to(at)
}

/// Relies on `BytesMut::reserve`: reserving capacity leaves the contents
/// unchanged. Reserving panics when the new capacity would overflow `usize`,
/// so that is excluded.
#[verifier::external_body]
pub(crate) fn bytes_mut_reserve(b: &mut bytes::BytesMut, additional: usize)
    requires
        bytes_mut_view(*old(b)).len() + additional <= usize::MAX,
    ensures
        bytes_mut_view(*final(b)) == bytes_mut_view(*old(b)),
{
    b.reserve(additional)
}

/// Relies on `<BytesMut as BufMut>::put_slice`: appends the slice's bytes,
/// growing the buffer as needed. A `BytesMut` can take up to
/// `usize::MAX - len` further bytes; more would panic, so that is excluded.
#[verifier::external_body]
pub(crate) fn bytes_mut_put_slice(b: &mut bytes::BytesMut, src: &[u8])
    requires
        bytes_mut_view(*old(b)).len() + src@.len() <= usize::MAX,
    ensures
        bytes_mut_view(*final(b)) == bytes_mut_view(*old(b)) + src@,
{
    b.put_slice(src)
}

/// Relies on `<BytesMut as BufMut>::put_u8`: appends one byte, growing the
/// buffer as needed. A full buffer of `usize::MAX` bytes would panic, so
/// that is excluded.
#[verifier::external_body]
pub(crate) fn bytes_mut_put_u8(b: &mut bytes::BytesMut, byte: u8)
    requires
        bytes_mut_view(*old(b)).len() + 1 <= usize::MAX,
    ensures
        bytes_mut_view(*final(b)) == bytes_mut_view(*old(b)).push(byte),
{
    b.put_u8(byte)
}

/// Relies on `Bytes::copy_from_slice`: creates a `Bytes` holding a copy of
/// the slice's bytes.
#[verifier::external_body]
pub(crate) fn bytes_copy_from_slice(src: &[u8]) -> (r: bytes::Bytes)
    ensures
        bytes_view(r) == src@,
{
    bytes::Bytes::copy_from_slice(src)
}

} // verus!
