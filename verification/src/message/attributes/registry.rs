//! The registry of attribute types: which types the codec knows, which
//! ones a receiver may pass over, and how one attribute of a type is
//! looked up in a message.

use vstd::prelude::*;

use crate::message::incoming::{Failure, IncomingError};
use crate::message::meta::{heeded, protection, AttributeMeta, Header, MessageMeta, Protection};
use super::{
    outside, value_at, AlternateDomain, AlternateServer, Attribute, ErrorCode, Fingerprint,
    MappedAddress, MessageIntegrity, MessageIntegritySha256, Nonce, PasswordAlgorithm,
    PasswordAlgorithms, Realm, Software, UnknownAttributes, Userhash, Username, XorMappedAddress,
};

verus! {

/// Whether `ty` is the type of one of the attributes of this crate.
pub open spec fn spec_is_known(ty: u16) -> bool {
    ty == 0x0001 || ty == 0x0006 || ty == 0x0008 || ty == 0x0009 || ty == 0x000A || ty == 0x0014
        || ty == 0x0015 || ty == 0x001C || ty == 0x001D || ty == 0x001E || ty == 0x0020 || ty
        == 0x8002 || ty == 0x8003 || ty == 0x8022 || ty == 0x8023 || ty == 0x8028
}

/// Whether a receiver that does not know the type `ty` cannot process
/// the message.
pub open spec fn spec_is_required(ty: u16) -> bool {
    ty < 0x8000
}

/// Whether `ty` is the type of one of the attributes of this crate.
#[verifier::when_used_as_spec(spec_is_known)]
pub fn is_known(ty: u16) -> (r: bool)
    ensures
        r == spec_is_known(ty),
{
    match ty {
        0x0001 | 0x0006 | 0x0008 | 0x0009 | 0x000A | 0x0014 | 0x0015 | 0x001C | 0x001D | 0x001E
        | 0x0020 | 0x8002 | 0x8003 | 0x8022 | 0x8023 | 0x8028 => true,
        _ => false,
    }
}

/// Whether a receiver that does not know the type `ty` cannot process
/// the message.
#[verifier::when_used_as_spec(spec_is_required)]
pub fn is_required(ty: u16) -> (r: bool)
    ensures
        r == spec_is_required(ty),
{
    ty < 0x8000
}

/// The registry knows the type of every attribute of this crate.
pub proof fn lemma_registry()
    ensures
        spec_is_known(MappedAddress::TY),
        spec_is_known(Username::TY),
        spec_is_known(MessageIntegrity::TY),
        spec_is_known(ErrorCode::TY),
        spec_is_known(UnknownAttributes::TY),
        spec_is_known(Realm::TY),
        spec_is_known(Nonce::TY),
        spec_is_known(MessageIntegritySha256::TY),
        spec_is_known(PasswordAlgorithm::TY),
        spec_is_known(Userhash::TY),
        spec_is_known(XorMappedAddress::TY),
        spec_is_known(PasswordAlgorithms::TY),
        spec_is_known(AlternateDomain::TY),
        spec_is_known(Software::TY),
        spec_is_known(AlternateServer::TY),
        spec_is_known(Fingerprint::TY),
{
    MappedAddress::lemma_constants();
    Username::lemma_constants();
    MessageIntegrity::lemma_constants();
    ErrorCode::lemma_constants();
    UnknownAttributes::lemma_constants();
    Realm::lemma_constants();
    Nonce::lemma_constants();
    MessageIntegritySha256::lemma_constants();
    PasswordAlgorithm::lemma_constants();
    Userhash::lemma_constants();
    XorMappedAddress::lemma_constants();
    PasswordAlgorithms::lemma_constants();
    AlternateDomain::lemma_constants();
    Software::lemma_constants();
    AlternateServer::lemma_constants();
    Fingerprint::lemma_constants();
}

/// The types, in order, of those of the first `n` attributes that a
/// receiver heeds, has to understand and does not know.
pub open spec fn unknown_required(attributes: Seq<AttributeMeta>, n: int) -> Seq<u16>
    decreases n,
{
    if n <= 0 {
        Seq::empty()
    } else if heeded(attributes, n - 1) && spec_is_required(attributes[n - 1].ty) && !spec_is_known(
        attributes[n - 1].ty,
    ) {
        unknown_required(attributes, n - 1).push(attributes[n - 1].ty)
    } else {
        unknown_required(attributes, n - 1)
    }
}

/// Why an attribute of type `T` cannot be decoded from where `meta`
/// points in `buf`, if it cannot.
pub open spec fn decode_failure<T: Attribute>(
    buf: Seq<u8>,
    meta: AttributeMeta,
    id: Seq<u8>,
) -> Option<Failure> {
    if meta.offset + meta.len > buf.len() {
        Some(outside())
    } else {
        T::failure(value_at(buf, meta), id)
    }
}

/// Why the attribute of type `T` that the receiver of a message goes by
/// cannot be decoded, if there is one and it cannot.
pub open spec fn lookup_failure<T: Attribute>(buf: Seq<u8>, header: Header) -> Option<Failure> {
    match header.find(T::TY) {
        Some(i) => decode_failure::<T>(buf, header.attributes[i], header.id),
        None => None,
    }
}

/// Whether `found` is the attribute of type `T` that the receiver of a
/// message goes by: the last one that it heeds, or none.
pub open spec fn looked_up<T: Attribute>(buf: Seq<u8>, header: Header, found: Option<T>) -> bool {
    match header.find(T::TY) {
        Some(i) => found matches Some(a) && a.holds(value_at(buf, header.attributes[i]), header.id),
        None => found is None,
    }
}

/// Decodes the attribute of type `T` that the receiver of a message goes
/// by: the last one that it heeds. Gives `None` where there is none.
pub fn lookup<T: Attribute>(buf: &[u8], header: &MessageMeta) -> (r: Result<
    Option<T>,
    IncomingError,
>)
    ensures
        match lookup_failure::<T>(buf@, header@) {
            Some(failure) => r matches Err(e) && e.reports(failure),
            None => r matches Ok(found) && looked_up(buf@, header@, found),
        },
{
    match header.find(T::TY) {
        None => Ok(None),
        Some(i) => {
            let meta = &header.attributes[i];
            match T::decode(buf, meta, header) {
                Ok(a) => Ok(Some(a)),
                Err(e) => Err(e),
            }
        },
    }
}

impl MessageMeta {
    /// Collects the types of the attributes that a receiver heeds, has to
    /// understand and does not know, for the UNKNOWN-ATTRIBUTES of an
    /// error response.
    pub fn unknown_attributes(&self) -> (r: UnknownAttributes)
        ensures
            r@ == unknown_required(self.attributes@, self.attributes@.len() as int),
    {
        let n = self.attributes.len();
        let mut state = Protection::Open;
        let mut unknown: Vec<u16> = Vec::new();
        let mut i: usize = 0;
        while i < n
            invariant
                i <= n,
                n == self.attributes@.len(),
                state == protection(self.attributes@, i as int),
                unknown@ == unknown_required(self.attributes@, i as int),
            decreases n - i,
        {
            let ty = self.attributes[i].ty;
            if state.heeds(ty) && is_required(ty) && !is_known(ty) {
                unknown.push(ty);
            }
            state = state.step(ty);
            i += 1;
        }
        UnknownAttributes::new(unknown)
    }
}

} // verus!
