use vstd::prelude::*;

use super::attributes::{
    lookup, lookup_failure, looked_up, value_at, Attribute, MessageIntegrity,
    MessageIntegritySha256, Nonce, PasswordAlgorithm, Realm, Userhash, Username,
};
use super::incoming::{Failure, IncomingError};
use super::meta::{Header, MessageMeta};

verus! {

/// What a received message carries for its authentication: the
/// attributes of the credentials and the MACs, as far as a receiver heeds
/// them.
#[derive(Debug, PartialEq)]
pub struct Authentication {
    pub username: Option<Username>,
    pub userhash: Option<Userhash>,
    pub nonce: Option<Nonce>,
    pub realm: Option<Realm>,
    pub algorithm: Option<PasswordAlgorithm>,
    /// The MAC of MESSAGE-INTEGRITY.
    pub integrity: Option<[u8; 20]>,
    /// The MAC of MESSAGE-INTEGRITY-SHA256.
    pub integrity_sha256: Option<[u8; 32]>,
}

/// `first`, or `second` where `first` names no failure.
pub open spec fn or_else(first: Option<Failure>, second: Option<Failure>) -> Option<Failure> {
    if first is Some {
        first
    } else {
        second
    }
}

/// Why the attributes of the credentials cannot be decoded, if one
/// cannot: the first failure among USERNAME, USERHASH, NONCE, REALM and
/// PASSWORD-ALGORITHM.
pub open spec fn credentials_failure(buf: Seq<u8>, header: Header) -> Option<Failure> {
    or_else(
        lookup_failure::<Username>(buf, header),
        or_else(
            lookup_failure::<Userhash>(buf, header),
            or_else(
                lookup_failure::<Nonce>(buf, header),
                or_else(
                    lookup_failure::<Realm>(buf, header),
                    lookup_failure::<PasswordAlgorithm>(buf, header),
                ),
            ),
        ),
    )
}

/// Why the authentication attributes cannot be decoded, if one cannot:
/// the first failure among those of the credentials, MESSAGE-INTEGRITY
/// and MESSAGE-INTEGRITY-SHA256.
pub open spec fn authentication_failure(buf: Seq<u8>, header: Header) -> Option<Failure> {
    or_else(
        credentials_failure(buf, header),
        or_else(
            lookup_failure::<MessageIntegrity>(buf, header),
            lookup_failure::<MessageIntegritySha256>(buf, header),
        ),
    )
}

/// Whether a receiver finds an authentication attribute in the message.
pub open spec fn has_authentication(header: Header) -> bool {
    ||| header.find(Username::TY) is Some
    ||| header.find(Userhash::TY) is Some
    ||| header.find(Nonce::TY) is Some
    ||| header.find(Realm::TY) is Some
    ||| header.find(PasswordAlgorithm::TY) is Some
    ||| header.find(MessageIntegrity::TY) is Some
    ||| header.find(MessageIntegritySha256::TY) is Some
}

/// Whether `mac` is the body of the attribute of type `ty` that a
/// receiver goes by, or `None` where there is none.
pub open spec fn mac_found<const N: usize>(
    buf: Seq<u8>,
    header: Header,
    ty: u16,
    mac: Option<[u8; N]>,
) -> bool {
    match header.find(ty) {
        Some(i) => mac matches Some(m) && m@ == value_at(buf, header.attributes[i]),
        None => mac is None,
    }
}

/// The MACs of a received message.
struct Macs {
    integrity: Option<[u8; 20]>,
    integrity_sha256: Option<[u8; 32]>,
}

/// The attributes of the credentials of a received message.
struct Identity {
    username: Option<Username>,
    userhash: Option<Userhash>,
    nonce: Option<Nonce>,
    realm: Option<Realm>,
    algorithm: Option<PasswordAlgorithm>,
}

/// Decodes the attributes of the credentials that a receiver goes by.
fn decode_identity(buf: &[u8], header: &MessageMeta) -> (r: Result<Identity, IncomingError>)
    ensures
        match credentials_failure(buf@, header@) {
            Some(failure) => r matches Err(e) && e.reports(failure),
            None => r matches Ok(found) && looked_up(buf@, header@, found.username) && looked_up(
                buf@,
                header@,
                found.userhash,
            ) && looked_up(buf@, header@, found.nonce) && looked_up(buf@, header@, found.realm)
                && looked_up(buf@, header@, found.algorithm),
        },
{
    let username = match lookup::<Username>(buf, header) {
        Ok(found) => found,
        Err(e) => {
            return Err(e);
        },
    };
    let userhash = match lookup::<Userhash>(buf, header) {
        Ok(found) => found,
        Err(e) => {
            return Err(e);
        },
    };
    let nonce = match lookup::<Nonce>(buf, header) {
        Ok(found) => found,
        Err(e) => {
            return Err(e);
        },
    };
    let realm = match lookup::<Realm>(buf, header) {
        Ok(found) => found,
        Err(e) => {
            return Err(e);
        },
    };
    let algorithm = match lookup::<PasswordAlgorithm>(buf, header) {
        Ok(found) => found,
        Err(e) => {
            return Err(e);
        },
    };
    Ok(Identity { username, userhash, nonce, realm, algorithm })
}

/// Decodes the MACs that a receiver goes by.
fn decode_macs(buf: &[u8], header: &MessageMeta) -> (r: Result<Macs, IncomingError>)
    ensures
        match or_else(
            lookup_failure::<MessageIntegrity>(buf@, header@),
            lookup_failure::<MessageIntegritySha256>(buf@, header@),
        ) {
            Some(failure) => r matches Err(e) && e.reports(failure),
            None => r matches Ok(found) && mac_found(
                buf@,
                header@,
                MessageIntegrity::TY,
                found.integrity,
            ) && mac_found(buf@, header@, MessageIntegritySha256::TY, found.integrity_sha256),
        },
{
    let integrity = match lookup::<MessageIntegrity>(buf, header) {
        Ok(Some(MessageIntegrity::Incoming { integrity })) => Some(integrity),
        Ok(_) => None,
        Err(e) => {
            return Err(e);
        },
    };
    let integrity_sha256 = match lookup::<MessageIntegritySha256>(buf, header) {
        Ok(Some(MessageIntegritySha256::Incoming { integrity })) => Some(integrity),
        Ok(_) => None,
        Err(e) => {
            return Err(e);
        },
    };
    Ok(Macs { integrity, integrity_sha256 })
}

impl Authentication {
    /// Whether this is what a receiver finds of authentication in the
    /// message `buf` with the given header.
    pub open spec fn describes(&self, buf: Seq<u8>, header: Header) -> bool {
        &&& looked_up(buf, header, self.username)
        &&& looked_up(buf, header, self.userhash)
        &&& looked_up(buf, header, self.nonce)
        &&& looked_up(buf, header, self.realm)
        &&& looked_up(buf, header, self.algorithm)
        &&& mac_found(buf, header, MessageIntegrity::TY, self.integrity)
        &&& mac_found(buf, header, MessageIntegritySha256::TY, self.integrity_sha256)
    }

    /// Decodes the authentication attributes that a receiver goes by.
    /// Gives `None` where the message carries none.
    pub fn decode(buf: &[u8], header: &MessageMeta) -> (r: Result<Option<Self>, IncomingError>)
        ensures
            match authentication_failure(buf@, header@) {
                Some(failure) => r matches Err(e) && e.reports(failure),
                None => r matches Ok(found) && (found is Some <==> has_authentication(header@))
                    && (found matches Some(a) ==> a.describes(buf@, header@)),
            },
    {
        let identity = match decode_identity(buf, header) {
            Ok(found) => found,
            Err(e) => {
                return Err(e);
            },
        };
        let macs = match decode_macs(buf, header) {
            Ok(found) => found,
            Err(e) => {
                return Err(e);
            },
        };
        if identity.username.is_none() && identity.userhash.is_none() && identity.nonce.is_none()
            && identity.realm.is_none() && identity.algorithm.is_none()
            && macs.integrity.is_none() && macs.integrity_sha256.is_none() {
            return Ok(None);
        }
        Ok(
            Some(
                Authentication {
                    username: identity.username,
                    userhash: identity.userhash,
                    nonce: identity.nonce,
                    realm: identity.realm,
                    algorithm: identity.algorithm,
                    integrity: macs.integrity,
                    integrity_sha256: macs.integrity_sha256,
                },
            ),
        )
    }
}

} // verus!
