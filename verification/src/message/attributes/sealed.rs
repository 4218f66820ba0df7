use vstd::prelude::*;

use super::alternate_domain::AlternateDomain;
use super::alternate_server::AlternateServer;
use super::error_code::ErrorCode;
use super::fingerprint::Fingerprint;
use super::mapped_address::{MappedAddress, XorMappedAddress};
use super::message_integrity::{MessageIntegrity, MessageIntegritySha256};
use super::nonce::Nonce;
use super::password_algorithms::{PasswordAlgorithm, PasswordAlgorithms};
use super::realm::Realm;
use super::software::Software;
use super::unknown_attributes::UnknownAttributes;
use super::user::{Userhash, Username};

verus! {

/// Closes the set of attributes: only the types of this crate are attributes.
pub trait Sealed {

}

impl Sealed for Username {

}

impl Sealed for Realm {

}

impl Sealed for Nonce {

}

impl Sealed for Software {

}

impl Sealed for AlternateDomain {

}

impl Sealed for Userhash {

}

impl Sealed for MessageIntegrity {

}

impl Sealed for MessageIntegritySha256 {

}

impl Sealed for Fingerprint {

}

impl Sealed for PasswordAlgorithm {

}

impl Sealed for PasswordAlgorithms {

}

impl Sealed for MappedAddress {

}

impl Sealed for XorMappedAddress {

}

impl Sealed for AlternateServer {

}

impl Sealed for ErrorCode {

}

impl Sealed for UnknownAttributes {

}

} // verus!
