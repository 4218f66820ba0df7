use vstd::prelude::*;
use vstd::utf8::encode_utf8;

use crate::message::id::TransactionId;
use crate::message::incoming::{Failure, IncomingError};
use crate::message::meta::{AttributeMeta, MessageMeta};
use crate::message::wire::write_bytes;
use super::Attribute;
use super::text::{text_at, text_failure};

verus! {

/// The NONCE attribute.
///
/// See [RFC8489 Section 14.10](https://datatracker.ietf.org/doc/html/rfc8489#section-14.10) for more details.
#[derive(Debug, PartialEq)]
pub struct Nonce {
    nonce: String,
}

impl View for Nonce {
    type V = Seq<char>;

    /// The text.
    closed spec fn view(&self) -> Seq<char> {
        self.nonce@
    }
}

impl Clone for Nonce {
    fn clone(&self) -> (r: Self)
        ensures
            r@ == self@,
    {
        Self { nonce: self.nonce.clone() }
    }
}

impl Nonce {
    /// The attribute that carries the given nonce.
    pub fn new(nonce: &str) -> (r: Self)
        ensures
            r@ == nonce@,
    {
        Self { nonce: nonce.to_owned() }
    }

    /// The text.
    pub fn as_str(&self) -> (r: &str)
        ensures
            r@ == self@,
    {
        self.nonce.as_str()
    }

    /// The length of the text in bytes.
    pub fn len(&self) -> (n: usize)
        ensures
            n == encode_utf8(self@).len(),
    {
        self.nonce.as_str().as_bytes().len()
    }
}

impl Attribute for Nonce {
    const TY: u16 = 0x0015;

    const SIZE: usize = 0;

    proof fn lemma_constants()
        ensures
            Self::TY == 0x0015,
            Self::SIZE == 0,
    {
    }

    open spec fn spec_size(&self) -> nat {
        encode_utf8(self@).len()
    }

    open spec fn value(&self, id: Seq<u8>, prefix: Seq<u8>) -> Seq<u8> {
        encode_utf8(self@)
    }

    open spec fn failure(value: Seq<u8>, id: Seq<u8>) -> Option<Failure> {
        text_failure(value)
    }

    open spec fn holds(&self, value: Seq<u8>, id: Seq<u8>) -> bool {
        encode_utf8(self@) == value
    }

    proof fn lemma_size(&self, id: Seq<u8>, prefix: Seq<u8>) {
    }

    fn encode(&self, buf: &mut [u8], offset: usize, id: &TransactionId) {
        let bytes = self.nonce.as_str().as_bytes();
        write_bytes(buf, offset, bytes);
    }

    fn decode(buf: &[u8], meta: &AttributeMeta, header: &MessageMeta) -> (r: Result<
        Self,
        IncomingError,
    >) {
        match text_at(buf, meta) {
            Ok(nonce) => Ok(Self { nonce }),
            Err(e) => Err(e),
        }
    }

    fn size(&self) -> (n: usize) {
        self.nonce.as_str().as_bytes().len()
    }
}

} // verus!
