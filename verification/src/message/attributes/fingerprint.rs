use vstd::prelude::*;
use vstd::slice::slice_subrange;

use crate::message::crc::{checksum, crc32};
use crate::message::id::TransactionId;
use crate::message::incoming::{Failure, IncomingError};
use crate::message::meta::{AttributeMeta, MessageMeta};
use crate::message::wire::{be32, read_u32, u32_at, write_u32};
use super::Attribute;
use super::fixed::{array_at, fixed_failure};

verus! {

/// What the CRC-32 is XORed with, so that it differs from the checksum of
/// a protocol that STUN is multiplexed with.
pub const FINGERPRINT_XOR: u32 = 0x5354554E;

/// The fingerprint of the message bytes `prefix`.
pub open spec fn fingerprint_of(prefix: Seq<u8>) -> u32 {
    crc32(prefix) ^ FINGERPRINT_XOR
}

/// The FINGERPRINT attribute.
///
/// Contains the CRC-32 of the STUN message in front of it, XORed with
/// `0x5354554E`.
///
/// See [RFC8489 Section 14.7](https://datatracker.ietf.org/doc/html/rfc8489#section-14.7) for more details.
#[derive(Debug, PartialEq, Eq, Clone, Copy, Structural)]
pub enum Fingerprint {
    /// The fingerprint that a received message carries.
    Incoming { fingerprint: u32 },
    /// The fingerprint of a message under construction, computed when it is encoded.
    Outgoing,
}

impl Fingerprint {
    /// The fingerprint of this attribute behind the message bytes `prefix`:
    /// the one it carries, or the one of `prefix`.
    pub open spec fn fingerprint(&self, prefix: Seq<u8>) -> u32 {
        match self {
            Fingerprint::Incoming { fingerprint } => *fingerprint,
            Fingerprint::Outgoing => fingerprint_of(prefix),
        }
    }
}

impl Attribute for Fingerprint {
    const TY: u16 = 0x8028;

    const SIZE: usize = 4;

    proof fn lemma_constants()
        ensures
            Self::TY == 0x8028,
            Self::SIZE == 4,
    {
    }

    open spec fn spec_size(&self) -> nat {
        4
    }

    open spec fn value(&self, id: Seq<u8>, prefix: Seq<u8>) -> Seq<u8> {
        be32(self.fingerprint(prefix))
    }

    open spec fn failure(value: Seq<u8>, id: Seq<u8>) -> Option<Failure> {
        fixed_failure(value, 4)
    }

    open spec fn holds(&self, value: Seq<u8>, id: Seq<u8>) -> bool {
        *self == (Fingerprint::Incoming { fingerprint: u32_at(value, 0) })
    }

    proof fn lemma_size(&self, id: Seq<u8>, prefix: Seq<u8>) {
    }

    /// Writes the fingerprint of all of `buf` in front of the attribute's
    /// header. An attribute that came from a message writes the fingerprint
    /// it carries.
    fn encode(&self, buf: &mut [u8], offset: usize, id: &TransactionId) {
        let fingerprint = match self {
            Self::Outgoing => checksum(slice_subrange(buf, 0, offset - 4)) ^ FINGERPRINT_XOR,
            Self::Incoming { fingerprint } => *fingerprint,
        };
        write_u32(buf, offset, fingerprint);
    }

    fn decode(buf: &[u8], meta: &AttributeMeta, header: &MessageMeta) -> (r: Result<
        Self,
        IncomingError,
    >) {
        match array_at::<4>(buf, meta) {
            Ok(bytes) => Ok(Self::Incoming { fingerprint: read_u32(bytes.as_slice(), 0) }),
            Err(e) => Err(e),
        }
    }

    fn size(&self) -> (n: usize) {
        Self::SIZE
    }
}

} // verus!
