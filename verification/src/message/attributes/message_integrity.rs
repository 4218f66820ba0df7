use bytes::Bytes;
use vstd::prelude::*;
use vstd::slice::slice_subrange;

use crate::message::buffer::{bytes_as_slice, bytes_from_slice, contents};
use crate::message::hash::{hmac_sha1, hmac_sha256, mac_sha1, mac_sha256};
use crate::message::id::TransactionId;
use crate::message::incoming::{Failure, IncomingError};
use crate::message::meta::{AttributeMeta, MessageMeta};
use crate::message::wire::write_bytes;
use super::Attribute;
use super::fixed::{array_at, fixed_failure};

verus! {

/// The MESSAGE-INTEGRITY attribute.
///
/// Contains an HMAC-SHA1 of the STUN message.
///
/// See [RFC8489 Section 14.5](https://datatracker.ietf.org/doc/html/rfc8489#section-14.5) for more details.
#[derive(PartialEq)]
pub enum MessageIntegrity {
    /// The MAC that a received message carries.
    Incoming { integrity: [u8; 20] },
    /// The key that the MAC of a message under construction is computed with.
    Outgoing { key: Bytes },
}

impl MessageIntegrity {
    /// The attribute that computes its MAC with `key` when it is encoded.
    pub fn new(key: &[u8]) -> (r: Self)
        ensures
            r matches MessageIntegrity::Outgoing { key: k } && contents(k) == key@,
    {
        let key = bytes_from_slice(key);

        Self::Outgoing { key }
    }

    /// The attribute that carries the given MAC.
    pub fn from_array(integrity: [u8; 20]) -> (r: Self)
        ensures
            r == (MessageIntegrity::Incoming { integrity }),
    {
        Self::Incoming { integrity }
    }

    /// The MAC of this attribute behind the message bytes `prefix`: the one
    /// it carries, or the one its key gives over `prefix`.
    pub open spec fn mac(&self, prefix: Seq<u8>) -> [u8; 20] {
        match self {
            MessageIntegrity::Incoming { integrity } => *integrity,
            MessageIntegrity::Outgoing { key } => hmac_sha1(contents(*key), prefix),
        }
    }
}

impl Attribute for MessageIntegrity {
    const TY: u16 = 0x0008;

    const SIZE: usize = 20;

    proof fn lemma_constants()
        ensures
            Self::TY == 0x0008,
            Self::SIZE == 20,
    {
    }

    open spec fn spec_size(&self) -> nat {
        20
    }

    open spec fn value(&self, id: Seq<u8>, prefix: Seq<u8>) -> Seq<u8> {
        self.mac(prefix)@
    }

    open spec fn failure(value: Seq<u8>, id: Seq<u8>) -> Option<Failure> {
        fixed_failure(value, 20)
    }

    open spec fn holds(&self, value: Seq<u8>, id: Seq<u8>) -> bool {
        self matches MessageIntegrity::Incoming { integrity } && integrity@ == value
    }

    proof fn lemma_size(&self, id: Seq<u8>, prefix: Seq<u8>) {
    }

    /// Writes the MAC over all of `buf` in front of the attribute's header.
    /// An attribute that came from a message writes the MAC it carries.
    fn encode(&self, buf: &mut [u8], offset: usize, id: &TransactionId) {
        let mac = match self {
            Self::Outgoing { key } => mac_sha1(bytes_as_slice(key), slice_subrange(buf, 0, offset - 4)),
            Self::Incoming { integrity } => *integrity,
        };
        write_bytes(buf, offset, mac.as_slice());
    }

    fn decode(buf: &[u8], meta: &AttributeMeta, header: &MessageMeta) -> (r: Result<
        Self,
        IncomingError,
    >) {
        match array_at::<20>(buf, meta) {
            Ok(integrity) => Ok(Self::Incoming { integrity }),
            Err(e) => Err(e),
        }
    }

    fn size(&self) -> (n: usize) {
        Self::SIZE
    }
}

/// The MESSAGE-INTEGRITY-SHA256 attribute.
///
/// Contains an HMAC-SHA256 of the STUN message.
///
/// See [RFC8489 Section 14.6](https://datatracker.ietf.org/doc/html/rfc8489#section-14.6) for more details.
#[derive(PartialEq)]
pub enum MessageIntegritySha256 {
    /// The MAC that a received message carries.
    Incoming { integrity: [u8; 32] },
    /// The key that the MAC of a message under construction is computed with.
    Outgoing { key: Bytes },
}

impl MessageIntegritySha256 {
    /// The attribute that computes its MAC with `key` when it is encoded.
    pub fn new(key: &[u8]) -> (r: Self)
        ensures
            r matches MessageIntegritySha256::Outgoing { key: k } && contents(k) == key@,
    {
        let key = bytes_from_slice(key);

        Self::Outgoing { key }
    }

    /// The attribute that carries the given MAC.
    pub fn from_array(integrity: [u8; 32]) -> (r: Self)
        ensures
            r == (MessageIntegritySha256::Incoming { integrity }),
    {
        Self::Incoming { integrity }
    }

    /// The MAC of this attribute behind the message bytes `prefix`: the one
    /// it carries, or the one its key gives over `prefix`.
    pub open spec fn mac(&self, prefix: Seq<u8>) -> [u8; 32] {
        match self {
            MessageIntegritySha256::Incoming { integrity } => *integrity,
            MessageIntegritySha256::Outgoing { key } => hmac_sha256(contents(*key), prefix),
        }
    }
}

impl Attribute for MessageIntegritySha256 {
    const TY: u16 = 0x001C;

    const SIZE: usize = 32;

    proof fn lemma_constants()
        ensures
            Self::TY == 0x001C,
            Self::SIZE == 32,
    {
    }

    open spec fn spec_size(&self) -> nat {
        32
    }

    open spec fn value(&self, id: Seq<u8>, prefix: Seq<u8>) -> Seq<u8> {
        self.mac(prefix)@
    }

    open spec fn failure(value: Seq<u8>, id: Seq<u8>) -> Option<Failure> {
        fixed_failure(value, 32)
    }

    open spec fn holds(&self, value: Seq<u8>, id: Seq<u8>) -> bool {
        self matches MessageIntegritySha256::Incoming { integrity } && integrity@ == value
    }

    proof fn lemma_size(&self, id: Seq<u8>, prefix: Seq<u8>) {
    }

    /// Writes the MAC over all of `buf` in front of the attribute's header.
    /// An attribute that came from a message writes the MAC it carries.
    fn encode(&self, buf: &mut [u8], offset: usize, id: &TransactionId) {
        let mac = match self {
            Self::Outgoing { key } => mac_sha256(bytes_as_slice(key), slice_subrange(buf, 0, offset - 4)),
            Self::Incoming { integrity } => *integrity,
        };
        write_bytes(buf, offset, mac.as_slice());
    }

    fn decode(buf: &[u8], meta: &AttributeMeta, header: &MessageMeta) -> (r: Result<
        Self,
        IncomingError,
    >) {
        match array_at::<32>(buf, meta) {
            Ok(integrity) => Ok(Self::Incoming { integrity }),
            Err(e) => Err(e),
        }
    }

    fn size(&self) -> (n: usize) {
        Self::SIZE
    }
}

} // verus!
