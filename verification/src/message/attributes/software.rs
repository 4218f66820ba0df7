use vstd::prelude::*;
use vstd::utf8::encode_utf8;

use crate::message::id::TransactionId;
use crate::message::incoming::{Failure, IncomingError};
use crate::message::meta::{AttributeMeta, MessageMeta};
use crate::message::wire::write_bytes;
use super::Attribute;
use super::text::{text_at, text_failure};

verus! {

/// The SOFTWARE attribute.
///
/// Contains a textual decription of the software being used by the agent sending the message.
///
/// Serves as a tool for diagnostic and debugging purposes.
///
/// See [RFC8489 Section 14.14](https://datatracker.ietf.org/doc/html/rfc8489#section-14.14) for more details.
#[derive(Debug, PartialEq)]
pub struct Software {
    software: String,
}

impl View for Software {
    type V = Seq<char>;

    /// The text.
    closed spec fn view(&self) -> Seq<char> {
        self.software@
    }
}

impl Clone for Software {
    fn clone(&self) -> (r: Self)
        ensures
            r@ == self@,
    {
        Self { software: self.software.clone() }
    }
}

impl Software {
    /// The attribute that carries the given description.
    pub fn new(software: &str) -> (r: Self)
        ensures
            r@ == software@,
    {
        Self { software: software.to_owned() }
    }

    /// The text.
    pub fn as_str(&self) -> (r: &str)
        ensures
            r@ == self@,
    {
        self.software.as_str()
    }

    /// The length of the text in bytes.
    pub fn len(&self) -> (n: usize)
        ensures
            n == encode_utf8(self@).len(),
    {
        self.software.as_str().as_bytes().len()
    }
}

impl Software {
    /// The size of the body of the SOFTWARE attribute of an outgoing message.
    pub open spec fn software_size() -> nat {
        encode_utf8(crate::message::SOFTWARE_DESCRIPTION@).len()
    }

    /// `msg` with the SOFTWARE attribute of an outgoing message behind it.
    pub open spec fn emitted(id: Seq<u8>, msg: Seq<u8>) -> Seq<u8> {
        crate::message::wire::appended(
            msg,
            Self::TY,
            encode_utf8(crate::message::SOFTWARE_DESCRIPTION@),
        )
    }
}

impl Attribute for Software {
    const TY: u16 = 0x8022;

    const SIZE: usize = 0;

    proof fn lemma_constants()
        ensures
            Self::TY == 0x8022,
            Self::SIZE == 0,
    {
    }

    open spec fn spec_size(&self) -> nat {
        encode_utf8(self@).len()
    }

    open spec fn value(&self, id: Seq<u8>, prefix: Seq<u8>) -> Seq<u8> {
        encode_utf8(self@)
    }

    open spec fn failure(value: Seq<u8>, id: Seq<u8>) -> Option<Failure> {
        text_failure(value)
    }

    open spec fn holds(&self, value: Seq<u8>, id: Seq<u8>) -> bool {
        encode_utf8(self@) == value
    }

    proof fn lemma_size(&self, id: Seq<u8>, prefix: Seq<u8>) {
    }

    fn encode(&self, buf: &mut [u8], offset: usize, id: &TransactionId) {
        let bytes = self.software.as_str().as_bytes();
        write_bytes(buf, offset, bytes);
    }

    fn decode(buf: &[u8], meta: &AttributeMeta, header: &MessageMeta) -> (r: Result<
        Self,
        IncomingError,
    >) {
        match text_at(buf, meta) {
            Ok(software) => Ok(Self { software }),
            Err(e) => Err(e),
        }
    }

    fn size(&self) -> (n: usize) {
        self.software.as_str().as_bytes().len()
    }
}

} // verus!
