use vstd::prelude::*;
use vstd::utf8::encode_utf8;

use crate::message::hash::{digest_sha256, sha256};
use crate::message::id::TransactionId;
use crate::message::incoming::{Failure, IncomingError};
use crate::message::meta::{AttributeMeta, MessageMeta};
use crate::message::wire::write_bytes;
use super::Attribute;
use super::fixed::{array_at, fixed_failure};
use super::realm::Realm;
use super::text::{text_at, text_failure};

verus! {

/// The most bytes that a username may take.
pub const MAX_USERNAME_SIZE: usize = 513;

/// The USERNAME attribute.
///
/// Represents the username of the current client.
///
/// See [RFC8489 Section 14.3](https://datatracker.ietf.org/doc/html/rfc8489#section-14.3) for more details.
#[derive(Debug, PartialEq)]
pub struct Username {
    username: String,
}

impl View for Username {
    type V = Seq<char>;

    /// The text.
    closed spec fn view(&self) -> Seq<char> {
        self.username@
    }
}

impl Clone for Username {
    fn clone(&self) -> (r: Self)
        ensures
            r@ == self@,
    {
        Self { username: self.username.clone() }
    }
}

impl Username {
    /// The attribute that carries the given username.
    pub fn new(username: &str) -> (r: Self)
        ensures
            r@ == username@,
    {
        Self { username: username.to_owned() }
    }

    /// The text.
    pub fn as_str(&self) -> (r: &str)
        ensures
            r@ == self@,
    {
        self.username.as_str()
    }

    /// The length of the text in bytes.
    pub fn len(&self) -> (n: usize)
        ensures
            n == encode_utf8(self@).len(),
    {
        self.username.as_str().as_bytes().len()
    }
}

impl Attribute for Username {
    const TY: u16 = 0x0006;

    const SIZE: usize = 0;

    proof fn lemma_constants()
        ensures
            Self::TY == 0x0006,
            Self::SIZE == 0,
    {
    }

    open spec fn spec_size(&self) -> nat {
        encode_utf8(self@).len()
    }

    open spec fn value(&self, id: Seq<u8>, prefix: Seq<u8>) -> Seq<u8> {
        encode_utf8(self@)
    }

    open spec fn failure(value: Seq<u8>, id: Seq<u8>) -> Option<Failure> {
        text_failure(value)
    }

    open spec fn holds(&self, value: Seq<u8>, id: Seq<u8>) -> bool {
        encode_utf8(self@) == value
    }

    proof fn lemma_size(&self, id: Seq<u8>, prefix: Seq<u8>) {
    }

    fn encode(&self, buf: &mut [u8], offset: usize, id: &TransactionId) {
        let bytes = self.username.as_str().as_bytes();
        write_bytes(buf, offset, bytes);
    }

    fn decode(buf: &[u8], meta: &AttributeMeta, header: &MessageMeta) -> (r: Result<
        Self,
        IncomingError,
    >) {
        match text_at(buf, meta) {
            Ok(username) => Ok(Self { username }),
            Err(e) => Err(e),
        }
    }

    fn size(&self) -> (n: usize) {
        self.username.as_str().as_bytes().len()
    }
}

/// The bytes that a USERHASH is the SHA-256 of: the username, a colon and
/// the realm.
pub open spec fn userhash_input(username: Seq<char>, realm: Seq<char>) -> Seq<u8> {
    encode_utf8(username) + seq![0x3Au8] + encode_utf8(realm)
}

/// The USERHASH attribute.
///
/// Used as a replacement for the USERNAME attribute when username anonymity is supported.
///
/// See [RFC8489 Section 14.4](https://datatracker.ietf.org/doc/html/rfc8489#section-14.4) for more details.
#[derive(Debug, PartialEq, Eq, Clone, Copy)]
pub struct Userhash {
    userhash: [u8; 32],
}

impl View for Userhash {
    type V = Seq<u8>;

    /// The thirty-two bytes of the hash.
    closed spec fn view(&self) -> Seq<u8> {
        self.userhash@
    }
}

impl Userhash {
    /// The hash that stands for `username` in `realm`.
    pub fn new(username: Username, realm: Realm) -> (r: Self)
        ensures
            r@ == sha256(userhash_input(username@, realm@))@,
    {
        let mut input: Vec<u8> = Vec::new();
        input.extend_from_slice(username.as_str().as_bytes());
        input.push(0x3A);
        input.extend_from_slice(realm.as_str().as_bytes());
        assert(input@ =~= userhash_input(username@, realm@));

        Self { userhash: digest_sha256(input.as_slice()) }
    }

    /// The attribute that carries the given hash.
    pub fn from_array(userhash: [u8; 32]) -> (r: Self)
        ensures
            r@ == userhash@,
    {
        Self { userhash }
    }

    /// The thirty-two bytes of the hash.
    pub fn as_array(&self) -> (r: [u8; 32])
        ensures
            r@ == self@,
    {
        self.userhash
    }
}

impl Attribute for Userhash {
    const TY: u16 = 0x001E;

    const SIZE: usize = 32;

    proof fn lemma_constants()
        ensures
            Self::TY == 0x001E,
            Self::SIZE == 32,
    {
    }

    open spec fn spec_size(&self) -> nat {
        32
    }

    open spec fn value(&self, id: Seq<u8>, prefix: Seq<u8>) -> Seq<u8> {
        self@
    }

    open spec fn failure(value: Seq<u8>, id: Seq<u8>) -> Option<Failure> {
        fixed_failure(value, 32)
    }

    open spec fn holds(&self, value: Seq<u8>, id: Seq<u8>) -> bool {
        self@ == value
    }

    proof fn lemma_size(&self, id: Seq<u8>, prefix: Seq<u8>) {
    }

    fn encode(&self, buf: &mut [u8], offset: usize, id: &TransactionId) {
        write_bytes(buf, offset, self.userhash.as_slice());
    }

    fn decode(buf: &[u8], meta: &AttributeMeta, header: &MessageMeta) -> (r: Result<
        Self,
        IncomingError,
    >) {
        match array_at::<32>(buf, meta) {
            Ok(userhash) => Ok(Self { userhash }),
            Err(e) => Err(e),
        }
    }

    fn size(&self) -> (n: usize) {
        Self::SIZE
    }
}

} // verus!
