use vstd::prelude::*;
use vstd::utf8::encode_utf8;

use crate::message::id::TransactionId;
use crate::message::incoming::{Failure, IncomingError};
use crate::message::meta::{AttributeMeta, MessageMeta};
use crate::message::wire::write_bytes;
use super::Attribute;
use super::text::{text_at, text_failure};

verus! {

/// The REALM attribute.
///
/// Presence of the REALM attribute in a request indicates that long-term
/// credentials are being used for authentication.
/// Presence in certain error responses indicates that
/// the server wishes the client to use a long term credential
/// in that realm for authentication.
///
/// See [RFC8489 Section 14.9](https://datatracker.ietf.org/doc/html/rfc8489#section-14.9) for more details.
#[derive(Debug, PartialEq)]
pub struct Realm {
    realm: String,
}

impl View for Realm {
    type V = Seq<char>;

    /// The text.
    closed spec fn view(&self) -> Seq<char> {
        self.realm@
    }
}

impl Clone for Realm {
    fn clone(&self) -> (r: Self)
        ensures
            r@ == self@,
    {
        Self { realm: self.realm.clone() }
    }
}

impl Realm {
    /// The attribute that carries the given realm.
    pub fn new(realm: &str) -> (r: Self)
        ensures
            r@ == realm@,
    {
        Self { realm: realm.to_owned() }
    }

    /// The text.
    pub fn as_str(&self) -> (r: &str)
        ensures
            r@ == self@,
    {
        self.realm.as_str()
    }

    /// The length of the text in bytes.
    pub fn len(&self) -> (n: usize)
        ensures
            n == encode_utf8(self@).len(),
    {
        self.realm.as_str().as_bytes().len()
    }
}

impl Attribute for Realm {
    const TY: u16 = 0x0014;

    const SIZE: usize = 0;

    proof fn lemma_constants()
        ensures
            Self::TY == 0x0014,
            Self::SIZE == 0,
    {
    }

    open spec fn spec_size(&self) -> nat {
        encode_utf8(self@).len()
    }

    open spec fn value(&self, id: Seq<u8>, prefix: Seq<u8>) -> Seq<u8> {
        encode_utf8(self@)
    }

    open spec fn failure(value: Seq<u8>, id: Seq<u8>) -> Option<Failure> {
        text_failure(value)
    }

    open spec fn holds(&self, value: Seq<u8>, id: Seq<u8>) -> bool {
        encode_utf8(self@) == value
    }

    proof fn lemma_size(&self, id: Seq<u8>, prefix: Seq<u8>) {
    }

    fn encode(&self, buf: &mut [u8], offset: usize, id: &TransactionId) {
        let bytes = self.realm.as_str().as_bytes();
        write_bytes(buf, offset, bytes);
    }

    fn decode(buf: &[u8], meta: &AttributeMeta, header: &MessageMeta) -> (r: Result<
        Self,
        IncomingError,
    >) {
        match text_at(buf, meta) {
            Ok(realm) => Ok(Self { realm }),
            Err(e) => Err(e),
        }
    }

    fn size(&self) -> (n: usize) {
        self.realm.as_str().as_bytes().len()
    }
}

} // verus!
