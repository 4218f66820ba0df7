//! Collection of STUN Attributes.

use vstd::prelude::*;

use super::id::TransactionId;
use super::incoming::{Failure, IncomingError, IncomingErrorTy};
use super::meta::{AttributeMeta, MessageMeta};
use self::sealed::Sealed;
use super::wire::{
    appended, building, covered, kept, lemma_appended, pad, padded, read_u16, write_u16,
};

pub mod address;
mod alternate_domain;
mod alternate_server;
mod error_code;
mod fingerprint;
pub mod fixed;
mod mapped_address;
mod message_integrity;
mod nonce;
mod password_algorithms;
mod realm;
pub mod registry;
mod sealed;
mod software;
pub mod text;
mod unknown_attributes;
mod user;

pub use address::{
    lemma_address_round_trip, lemma_xor_involution, lemma_xor_round_trip, TransportAddress,
};
pub use alternate_domain::AlternateDomain;
pub use alternate_server::AlternateServer;
pub use mapped_address::{MappedAddress, XorMappedAddress};
pub use error_code::{
    is_named, lemma_code_round_trip, packed_code, unpacked_class, unpacked_code, ErrorCode,
};
pub use fingerprint::{fingerprint_of, Fingerprint, FINGERPRINT_XOR};
pub use message_integrity::{MessageIntegrity, MessageIntegritySha256};
pub use nonce::Nonce;
pub use password_algorithms::{
    algorithm_failure, algorithms_bytes, algorithms_from, lemma_algorithms_len,
    lemma_algorithms_round_trip, unknown_algorithm,
    PasswordAlgorithm, PasswordAlgorithms, MD5_PASSWORD_ALGORITHM, SHA256_PASSWORD_ALGORITHM,
};
pub use realm::Realm;
pub use registry::{
    decode_failure, is_known, is_required, looked_up, lookup, lookup_failure, unknown_required,
};
pub use software::Software;
pub use unknown_attributes::{lemma_types_round_trip, types_bytes, types_in, UnknownAttributes};
pub use user::{userhash_input, Userhash, Username, MAX_USERNAME_SIZE};

verus! {

/// What a decoder reports for a descriptor that points outside the buffer.
pub open spec fn outside() -> Failure {
    (IncomingErrorTy::BadLength, "Attribute lies outside the message."@)
}

/// The value bytes that `meta` points at in `buf`.
pub open spec fn value_at(buf: Seq<u8>, meta: AttributeMeta) -> Seq<u8> {
    buf.subrange(meta.offset as int, meta.offset + meta.len)
}

/// `msg` grown by the attribute `attr`, in a message with transaction ID `id`.
pub open spec fn emit<T: Attribute>(attr: T, id: Seq<u8>, msg: Seq<u8>) -> Seq<u8> {
    appended(msg, T::TY, attr.value(id, covered(msg, attr.spec_size() as int)))
}

/// The bytes that an attribute with a body of `size` bytes takes.
pub open spec fn attribute_size(size: nat) -> nat {
    (4 + padded(size as int)) as nat
}

/// Sealed trait for attribute types.
///
/// See [RFC8489 Section 14](https://datatracker.ietf.org/doc/html/rfc8489#section-14) for more details.
pub trait Attribute: Sealed + Sized {
    /// The type of attribute.
    ///
    /// Values of 0x0000 to 0x7FFF are comprehension-required attributes,
    /// which means that the STUN agent cannot successfully process
    /// the message unless it understands the attribute.
    ///
    /// Values of 0x8000 to 0xFFFF are comprension-optional attributes,
    /// which means that those attributes can be ignored by the STUN agent
    /// if it does not understand them.
    const TY: u16;

    /// The size of the body of the attribute.
    ///
    /// Dynamically-sized attributes have a value of 0.
    /// Any other value indicates that the attribute is statically-sized.
    const SIZE: usize;

    /// States the values of `TY` and `SIZE`, for those who see the type
    /// from outside its module.
    proof fn lemma_constants()
    ;

    /// Size of the body of the attribute in bytes, without header and padding.
    spec fn spec_size(&self) -> nat;

    /// The body of the attribute in a message with transaction ID `id`,
    /// where `prefix` is all of the message in front of the attribute's
    /// header, its length field counting the attribute already.
    spec fn value(&self, id: Seq<u8>, prefix: Seq<u8>) -> Seq<u8>;

    /// Why `value` is not the body of an attribute of this type, if it is none.
    spec fn failure(value: Seq<u8>, id: Seq<u8>) -> Option<Failure>;

    /// Whether this attribute is the one that the body `value` stands for
    /// in a message with transaction ID `id`.
    spec fn holds(&self, value: Seq<u8>, id: Seq<u8>) -> bool;

    /// The body is as long as `spec_size` says, whatever the message, and a
    /// statically-sized attribute has the size of its type.
    proof fn lemma_size(&self, id: Seq<u8>, prefix: Seq<u8>)
        ensures
            self.value(id, prefix).len() == self.spec_size(),
            Self::SIZE != 0 ==> self.spec_size() == Self::SIZE,
    ;

    /// Encode the body of the attribute into `buf` at `offset`.
    fn encode(&self, buf: &mut [u8], offset: usize, id: &TransactionId)
        requires
            4 <= offset,
            offset + self.spec_size() <= old(buf)@.len(),
        ensures
            final(buf)@ == super::wire::splice(
                old(buf)@,
                offset as int,
                self.value(id@, old(buf)@.subrange(0, offset - 4)),
            ),
    ;

    /// Decode the body of the attribute that `meta` points at in `buf`,
    /// where `header` is what the header of the message told.
    fn decode(buf: &[u8], meta: &AttributeMeta, header: &MessageMeta) -> (r: Result<
        Self,
        IncomingError,
    >)
        ensures
            meta.offset + meta.len > buf@.len() ==> (r matches Err(e) && e.reports(outside())),
            meta.offset + meta.len <= buf@.len() ==> match Self::failure(
                value_at(buf@, *meta),
                header.id@,
            ) {
                Some(failure) => r matches Err(e) && e.reports(failure),
                None => r matches Ok(a) && a.holds(value_at(buf@, *meta), header.id@),
            },
    ;

    /// Size of the body of the attribute.
    fn size(&self) -> (n: usize)
        requires
            self.spec_size() <= usize::MAX,
        ensures
            n == self.spec_size(),
    ;
}

/// Encodes the attribute header and body behind the message that `buf`
/// holds in its first `offset` bytes, and moves `offset` behind the
/// attribute and its padding.
///
/// The length field of the header counts the attribute before its body is
/// computed: a MAC or a checksum sees the message with the length that its
/// receiver will see.
pub fn encode_attribute<T: Attribute>(
    attr: &T,
    buf: &mut [u8],
    offset: &mut usize,
    id: &TransactionId,
)
    requires
        building(old(buf)@, *old(offset) as int),
        *old(offset) + 4 + padded(attr.spec_size() as int) <= old(buf)@.len(),
        *old(offset) - 20 + 4 + padded(attr.spec_size() as int) <= 0xFFFF,
    ensures
        final(buf)@.len() == old(buf)@.len(),
        *final(offset) == *old(offset) + 4 + padded(attr.spec_size() as int),
        building(final(buf)@, *final(offset) as int),
        kept(old(buf)@, final(buf)@, *old(offset) as int),
        final(buf)@.subrange(0, *final(offset) as int) == emit(
            *attr,
            id@,
            old(buf)@.subrange(0, *old(offset) as int),
        ),
{
    let ghost msg = old(buf)@.subrange(0, *old(offset) as int);
    let ghost prefix = covered(msg, attr.spec_size() as int);
    proof {
        attr.lemma_size(id@, prefix);
    }
    // adds the attribute size to the message length
    let size = attr.size();
    let aligned_size = pad(size) + 4;
    let old_size = read_u16(buf, 2);
    assert(old_size == *offset - 20) by {
        assert(msg[2] == old(buf)@[2] && msg[3] == old(buf)@[3]);
    }
    write_u16(buf, 2, old_size + aligned_size as u16);

    // encodes the attribute header
    write_u16(buf, *offset, T::TY);
    write_u16(buf, *offset + 2, size as u16);
    assert(buf@.subrange(0, *offset as int) =~= prefix);

    // encodes the attribute
    attr.encode(buf, *offset + 4, id);
    proof {
        lemma_appended(old(buf)@, *offset as int, T::TY, attr.value(id@, prefix), buf@);
    }

    // increments the offset
    *offset += aligned_size;
}

} // verus!
