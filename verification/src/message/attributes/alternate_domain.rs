use vstd::prelude::*;
use vstd::utf8::encode_utf8;

use crate::message::id::TransactionId;
use crate::message::incoming::{Failure, IncomingError};
use crate::message::meta::{AttributeMeta, MessageMeta};
use crate::message::wire::write_bytes;
use super::Attribute;
use super::text::{text_at, text_failure};

verus! {

/// The ALTERNATE-DOMAIN attribute.
///
/// Represents the domain name that is used to verify the IP address in the
/// [AlternateServer] attribute when the transport protocol uses TLS or DTLS.
///
/// See [RFC8489 Section 14.16](https://datatracker.ietf.org/doc/html/rfc8489#section-14.16) for more details.
#[derive(Debug, PartialEq)]
pub struct AlternateDomain {
    alternate_domain: String,
}

impl View for AlternateDomain {
    type V = Seq<char>;

    /// The text.
    closed spec fn view(&self) -> Seq<char> {
        self.alternate_domain@
    }
}

impl Clone for AlternateDomain {
    fn clone(&self) -> (r: Self)
        ensures
            r@ == self@,
    {
        Self { alternate_domain: self.alternate_domain.clone() }
    }
}

impl AlternateDomain {
    /// The attribute that carries the given domain name.
    pub fn new(alternate_domain: &str) -> (r: Self)
        ensures
            r@ == alternate_domain@,
    {
        Self { alternate_domain: alternate_domain.to_owned() }
    }

    /// The text.
    pub fn as_str(&self) -> (r: &str)
        ensures
            r@ == self@,
    {
        self.alternate_domain.as_str()
    }

    /// The length of the text in bytes.
    pub fn len(&self) -> (n: usize)
        ensures
            n == encode_utf8(self@).len(),
    {
        self.alternate_domain.as_str().as_bytes().len()
    }
}

impl Attribute for AlternateDomain {
    const TY: u16 = 0x8003;

    const SIZE: usize = 0;

    proof fn lemma_constants()
        ensures
            Self::TY == 0x8003,
            Self::SIZE == 0,
    {
    }

    open spec fn spec_size(&self) -> nat {
        encode_utf8(self@).len()
    }

    open spec fn value(&self, id: Seq<u8>, prefix: Seq<u8>) -> Seq<u8> {
        encode_utf8(self@)
    }

    open spec fn failure(value: Seq<u8>, id: Seq<u8>) -> Option<Failure> {
        text_failure(value)
    }

    open spec fn holds(&self, value: Seq<u8>, id: Seq<u8>) -> bool {
        encode_utf8(self@) == value
    }

    proof fn lemma_size(&self, id: Seq<u8>, prefix: Seq<u8>) {
    }

    fn encode(&self, buf: &mut [u8], offset: usize, id: &TransactionId) {
        let bytes = self.alternate_domain.as_str().as_bytes();
        write_bytes(buf, offset, bytes);
    }

    fn decode(buf: &[u8], meta: &AttributeMeta, header: &MessageMeta) -> (r: Result<
        Self,
        IncomingError,
    >) {
        match text_at(buf, meta) {
            Ok(alternate_domain) => Ok(Self { alternate_domain }),
            Err(e) => Err(e),
        }
    }

    fn size(&self) -> (n: usize) {
        self.alternate_domain.as_str().as_bytes().len()
    }
}

} // verus!
