//! The byte buffers of the `bytes` crate, as the verifier sees them.
//!
//! A `Bytes` or a `BytesMut` is opaque here. What it holds is named by
//! [`bytes_content`] and [`buffer_content`], and the contracts below say, in
//! those terms, what the crate's own methods do. None of them is proved:
//! each one restates the documentation of the method it is about.

use vstd::prelude::*;
use bytes::{Bytes, BytesMut};

verus! {

#[verifier::external_type_specification]
#[verifier::external_body]
pub struct ExBytes(bytes::Bytes);

#[verifier::external_type_specification]
#[verifier::external_body]
pub struct ExBytesMut(bytes::BytesMut);

/// The bytes that an immutable buffer holds, first to last.
pub uninterp spec fn bytes_content(b: Bytes) -> Seq<u8>;

/// The bytes that a growable buffer holds, first to last.
pub uninterp spec fn buffer_content(b: BytesMut) -> Seq<u8>;

/// `Bytes::as_ref` borrows the whole content as a slice.
pub assume_specification<'a>[ <Bytes as AsRef<[u8]>>::as_ref ](b: &'a Bytes) -> (s: &'a [u8])
    ensures
        s@ == bytes_content(*b),
;

/// `Bytes::from(Vec<u8>)` takes the vector's bytes over unchanged.
pub assume_specification[ <Bytes as From<Vec<u8>>>::from ](src: Vec<u8>) -> (b: Bytes)
    ensures
        bytes_content(b) == src@,
;

/// `Bytes::from(&[u8])` copies the slice.
pub assume_specification<'a>[ <Bytes as From<&'a [u8]>>::from ](src: &'a [u8]) -> (b: Bytes)
    ensures
        bytes_content(b) == src@,
;

/// `Bytes::clone` yields a second handle on the same content. The derived
/// `Clone` of every command with a payload goes through it.
pub assume_specification[ <Bytes as Clone>::clone ](b: &Bytes) -> (c: Bytes)
    ensures
        bytes_content(c) == bytes_content(*b),
;

/// `BytesMut::as_ref` borrows the whole content as a slice.
pub assume_specification<'a>[ <BytesMut as AsRef<[u8]>>::as_ref ](b: &'a BytesMut) -> (s: &'a [u8])
    ensures
        s@ == buffer_content(*b),
;

/// `BytesMut::split_to(at)` hands out the first `at` bytes and keeps the
/// rest. It panics when `at` exceeds the length, which `requires` excludes.
pub assume_specification[ BytesMut::split_to ](b: &mut BytesMut, at: usize) -> (head: BytesMut)
    requires
        at <= buffer_content(*old(b)).len(),
    ensures
        buffer_content(head) == buffer_content(*old(b)).subrange(0, at as int),
        buffer_content(*final(b)) == buffer_content(*old(b)).subrange(
            at as int,
            buffer_content(*old(b)).len() as int,
        ),
;

/// `BytesMut::freeze` turns the buffer immutable without touching its bytes.
pub assume_specification[ BytesMut::freeze ](b: BytesMut) -> (frozen: Bytes)
    ensures
        bytes_content(frozen) == buffer_content(b),
;

/// `BytesMut::extend_from_slice` grows the buffer as needed and appends the
/// slice. It panics only where the new capacity would overflow `usize`,
/// which no buffer in memory comes to.
pub assume_specification[ BytesMut::extend_from_slice ](b: &mut BytesMut, extend: &[u8])
    ensures
        buffer_content(*final(b)) == buffer_content(*old(b)) + extend@,
;

} // verus!
