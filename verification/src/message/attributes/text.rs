//! What the textual attributes share: their body is a string in UTF-8.

use vstd::prelude::*;
use vstd::slice::slice_subrange;
use vstd::utf8::{encode_utf8, valid_utf8};

use crate::message::incoming::{Failure, IncomingError, IncomingErrorTy};
use crate::message::meta::AttributeMeta;
use super::{outside, value_at};

verus! {

/// What a decoder reports for a textual body that is not UTF-8.
pub open spec fn bad_utf8() -> Failure {
    (IncomingErrorTy::BadUtf8, "Attribute value is not valid UTF-8."@)
}

/// Why `value` is not the body of a textual attribute, if it is none.
pub open spec fn text_failure(value: Seq<u8>) -> Option<Failure> {
    if valid_utf8(value) {
        None
    } else {
        Some(bad_utf8())
    }
}

/// `std::str::from_utf8`, with the string copied out. Trusted: it gives a
/// string exactly for the byte sequences that are UTF-8, and the string
/// then consists of these bytes.
#[verifier::external_body]
pub(crate) fn text_from_utf8(bytes: &[u8]) -> (text: Option<String>)
    ensures
        text is Some <==> valid_utf8(bytes@),
        text matches Some(s) ==> encode_utf8(s@) == bytes@,
{
    match std::str::from_utf8(bytes) {
        Ok(s) => Some(s.to_owned()),
        Err(_) => None,
    }
}

/// The body that `meta` points at, if it lies inside `buf`.
pub(crate) fn value_slice<'a>(buf: &'a [u8], meta: &AttributeMeta) -> (r: Option<&'a [u8]>)
    ensures
        r is Some <==> meta.offset + meta.len <= buf@.len(),
        r matches Some(value) ==> value@ == value_at(buf@, *meta),
{
    if meta.len > buf.len() || meta.offset > buf.len() - meta.len {
        None
    } else {
        Some(slice_subrange(buf, meta.offset, meta.offset + meta.len))
    }
}

/// Decodes the string that `meta` points at in `buf`.
pub(crate) fn text_at(buf: &[u8], meta: &AttributeMeta) -> (r: Result<String, IncomingError>)
    ensures
        meta.offset + meta.len > buf@.len() ==> (r matches Err(e) && e.reports(outside())),
        meta.offset + meta.len <= buf@.len() ==> match text_failure(value_at(buf@, *meta)) {
            Some(failure) => r matches Err(e) && e.reports(failure),
            None => r matches Ok(s) && encode_utf8(s@) == value_at(buf@, *meta),
        },
{
    match value_slice(buf, meta) {
        None => Err(
            IncomingError::new(IncomingErrorTy::BadLength, "Attribute lies outside the message."),
        ),
        Some(value) => match text_from_utf8(value) {
            Some(text) => Ok(text),
            None => Err(
                IncomingError::new(IncomingErrorTy::BadUtf8, "Attribute value is not valid UTF-8."),
            ),
        },
    }
}

} // verus!
