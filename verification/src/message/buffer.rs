//! Owned byte strings of the `bytes` crate, which keys and encoded messages
//! are handed around in.

use bytes::Bytes;
use vstd::prelude::*;

verus! {

/// `bytes::Bytes` as the verifier carries it: a value of which nothing
/// is known but what `contents` names.
#[verifier::external_type_specification]
#[verifier::external_body]
pub struct ExBytes(bytes::Bytes);

/// The bytes that a `Bytes` holds, first to last.
pub uninterp spec fn contents(bytes: Bytes) -> Seq<u8>;

/// `Bytes::copy_from_slice`. Trusted: the new `Bytes` holds a copy of `data`.
#[verifier::external_body]
pub(crate) fn bytes_from_slice(data: &[u8]) -> (bytes: Bytes)
    ensures
        contents(bytes) == data@,
{
    Bytes::copy_from_slice(data)
}

/// `Bytes::from` on a `Vec<u8>`. Trusted: the new `Bytes` holds what the
/// vector held.
#[verifier::external_body]
pub(crate) fn bytes_from_vec(data: Vec<u8>) -> (bytes: Bytes)
    ensures
        contents(bytes) == data@,
{
    Bytes::from(data)
}

/// `Bytes::as_ref`. Trusted: the slice is what the `Bytes` holds.
#[verifier::external_body]
pub(crate) fn bytes_as_slice(bytes: &Bytes) -> (data: &[u8])
    ensures
        data@ == contents(*bytes),
{
    bytes.as_ref()
}

} // verus!
