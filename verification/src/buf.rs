//! The byte buffers of the `bytes` crate, as the rest of the library sees
//! them: a sequence of bytes, and what each operation does to it.
//!
//! Nothing in this file is proved. Each item states what the `bytes` crate
//! does, and the proofs elsewhere rest on it.

use vstd::prelude::*;

verus! {

/// `bytes::Bytes`, a shared immutable buffer, taken as opaque.
#[verifier::external_type_specification]
#[verifier::external_body]
pub struct ExBytes(bytes::Bytes);

/// `bytes::BytesMut`, a growable buffer, taken as opaque.
#[verifier::external_type_specification]
#[verifier::external_body]
pub struct ExBytesMut(bytes::BytesMut);

/// The bytes that a `Bytes` holds, first to last.
pub uninterp spec fn bytes_seq(b: bytes::Bytes) -> Seq<u8>;

/// The bytes that a `BytesMut` holds, first to last.
pub uninterp spec fn bytes_mut_seq(b: bytes::BytesMut) -> Seq<u8>;

/// `Bytes::new` makes a buffer that holds no byte.
pub assume_specification[ bytes::Bytes::new ]() -> (b: bytes::Bytes)
    ensures
        bytes_seq(b) == Seq::<u8>::empty(),
;

/// `Bytes::len` is the number of bytes held.
pub assume_specification[ bytes::Bytes::len ](b: &bytes::Bytes) -> (n: usize)
    ensures
        n == bytes_seq(*b).len(),
;

/// `Bytes::split_to` cuts the buffer at `at`: the bytes before it are
/// returned, the bytes from it on stay. It panics where `at` is beyond the
/// length, which the precondition excludes.
pub assume_specification[ bytes::Bytes::split_to ](b: &mut bytes::Bytes, at: usize) -> (head: bytes::Bytes)
    requires
        at <= bytes_seq(*old(b)).len(),
    ensures
        bytes_seq(head) == bytes_seq(*old(b)).take(at as int),
        bytes_seq(*final(b)) == bytes_seq(*old(b)).skip(at as int),
;

/// `BytesMut::len` is the number of bytes held.
pub assume_specification[ bytes::BytesMut::len ](b: &bytes::BytesMut) -> (n: usize)
    ensures
        n == bytes_mut_seq(*b).len(),
;

/// `BytesMut::extend_from_slice` appends the slice. It panics where the new
/// length overflows, which the precondition excludes.
pub assume_specification[ bytes::BytesMut::extend_from_slice ](b: &mut bytes::BytesMut, extend: &[u8])
    requires
        bytes_mut_seq(*old(b)).len() + extend@.len() <= usize::MAX,
    ensures
        bytes_mut_seq(*final(b)) == bytes_mut_seq(*old(b)) + extend@,
;

/// `BytesMut::freeze` turns the buffer into a `Bytes` of the same bytes.
pub assume_specification[ bytes::BytesMut::freeze ](b: bytes::BytesMut) -> (r: bytes::Bytes)
    ensures
        bytes_seq(r) == bytes_mut_seq(b),
;

/// `BytesMut::with_capacity` makes a buffer that holds no byte. It panics
/// where the capacity is beyond what can be allocated, which the
/// precondition excludes.
pub assume_specification[ bytes::BytesMut::with_capacity ](capacity: usize) -> (b: bytes::BytesMut)
    requires
        capacity <= isize::MAX,
    ensures
        bytes_mut_seq(b) == Seq::<u8>::empty(),
;

/// `BytesMut::new` makes a buffer that holds no byte.
pub assume_specification[ bytes::BytesMut::new ]() -> (b: bytes::BytesMut)
    ensures
        bytes_mut_seq(b) == Seq::<u8>::empty(),
;

/// `Bytes::from` on a slice copies the slice.
#[verifier::external_body]
pub(crate) fn bytes_from_slice(src: &[u8]) -> (b: bytes::Bytes)
    ensures
        bytes_seq(b) == src@,
{
    bytes::Bytes::from(src)
}

/// `Bytes::from` on a vector takes the vector's bytes.
#[verifier::external_body]
pub(crate) fn bytes_from_vec(src: Vec<u8>) -> (b: bytes::Bytes)
    ensures
        bytes_seq(b) == src@,
{
    bytes::Bytes::from(src)
}

/// `Bytes::as_ref` gives the bytes held as a slice.
#[verifier::external_body]
pub(crate) fn bytes_as_slice(b: &bytes::Bytes) -> (s: &[u8])
    ensures
        s@ == bytes_seq(*b),
{
    b.as_ref()
}

} // verus!
