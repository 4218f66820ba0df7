//! What the attributes of fixed size share: their body is an array of bytes.

use vstd::array::array_fill_for_copy_types;
use vstd::prelude::*;

use crate::message::incoming::{Failure, IncomingError, IncomingErrorTy};
use crate::message::meta::AttributeMeta;
use super::text::value_slice;
use super::{outside, value_at};

verus! {

/// What a decoder reports for a body whose length its type does not allow.
pub open spec fn bad_size() -> Failure {
    (IncomingErrorTy::BadLength, "Attribute value has the wrong length."@)
}

/// Why `value` is not the body of an attribute of `n` bytes, if it is none.
pub open spec fn fixed_failure(value: Seq<u8>, n: nat) -> Option<Failure> {
    if value.len() == n {
        None
    } else {
        Some(bad_size())
    }
}

/// The `N` bytes of `bytes` as an array.
pub(crate) fn array_of<const N: usize>(bytes: &[u8]) -> (r: [u8; N])
    requires
        bytes@.len() == N,
    ensures
        r@ == bytes@,
{
    let mut array: [u8; N] = array_fill_for_copy_types(0u8);
    let mut i: usize = 0;
    while i < N
        invariant
            i <= N,
            bytes@.len() == N,
            forall|k: int| 0 <= k < i ==> array@[k] == bytes@[k],
        decreases N - i,
    {
        array[i] = bytes[i];
        i += 1;
    }
    assert(array@ =~= bytes@);
    array
}

/// Decodes the `N` bytes that `meta` points at in `buf`.
pub(crate) fn array_at<const N: usize>(buf: &[u8], meta: &AttributeMeta) -> (r: Result<
    [u8; N],
    IncomingError,
>)
    ensures
        meta.offset + meta.len > buf@.len() ==> (r matches Err(e) && e.reports(outside())),
        meta.offset + meta.len <= buf@.len() ==> match fixed_failure(
            value_at(buf@, *meta),
            N as nat,
        ) {
            Some(failure) => r matches Err(e) && e.reports(failure),
            None => r matches Ok(a) && a@ == value_at(buf@, *meta),
        },
{
    match value_slice(buf, meta) {
        None => Err(
            IncomingError::new(IncomingErrorTy::BadLength, "Attribute lies outside the message."),
        ),
        Some(value) => if value.len() == N {
            Ok(array_of(value))
        } else {
            Err(
                IncomingError::new(
                    IncomingErrorTy::BadLength,
                    "Attribute value has the wrong length.",
                ),
            )
        },
    }
}

} // verus!
