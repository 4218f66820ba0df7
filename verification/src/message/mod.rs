//! STUN messages: the header, the attributes, and the two directions a
//! message takes through the codec.

use vstd::prelude::*;

pub mod attributes;
pub mod buffer;
pub mod crc;
pub mod hash;
pub mod methods;
pub mod wire;

mod authentication;
mod authorization;
mod id;
mod incoming;
mod integrity;
mod meta;
mod outgoing;
pub mod round_trip;
mod sealed;

pub use authentication::{
    authentication_failure, credentials_failure, has_authentication, mac_found, or_else,
    Authentication,
};
pub use authorization::{
    algorithm_or_md5, key_input, long_term_key, short_term_key, spec_long_term_key, Authorization,
    Credentials, Integrity,
};
pub use id::{id_byte, TransactionId};
pub use incoming::{
    fingerprint_failure, fingerprint_mismatch, has_fingerprint, hex, hex_digit, incoming_failure,
    opaque, unknown_attribute, unknown_class, unknown_method, Failure, IncomingError,
    IncomingErrorTy, IncomingMessage, OpaqueAttribute,
};
pub use integrity::{
    altered_in, integrity_mismatch, integrity_verifies, lemma_altered_sha1_is_rejected,
    lemma_altered_sha256_is_rejected, mac_fails, protected, same_bytes, sha1_verifies,
    sha256_verifies, verify_integrity,
};
pub use meta::{
    class_of, declared_end, header_failure, heeded, last_heeded, lemma_last_heeded,
    lemma_type_round_trip, lemma_walk_bounds, message_type, method_of, parsed, protection, walk,
    walked, AttributeMeta, Header, MessageMeta, Protection, FINGERPRINT, MESSAGE_INTEGRITY,
    MESSAGE_INTEGRITY_SHA256,
};
pub use outgoing::{OutgoingMessage, SOFTWARE_DESCRIPTION};

use self::sealed::Sealed;
use attributes::unknown_required;
use methods::{Method, MethodTy, BINDING_METHOD};
use wire::{building, kept};

verus! {

/// The magic cookie that every header carries in bytes 4 to 8.
pub const MAGIC: u32 = 0x2112A442;

/// Sealed trait for message class types.
pub trait Class: Sealed + Sized {
    const CLASS: u16;

    const METHOD: u16;

    /// The bytes that the attributes of the body take.
    spec fn spec_size(&self) -> nat;

    /// Whether each attribute of the body is as short as its kind demands.
    spec fn fits(&self) -> bool;

    /// `msg` with the attributes of the body behind it, in a message with
    /// transaction ID `id`.
    spec fn emitted(&self, id: Seq<u8>, msg: Seq<u8>) -> Seq<u8>;

    /// Encodes the attributes of the body behind the message that `buf`
    /// holds in its first `offset` bytes.
    fn encode(&self, buf: &mut [u8], offset: &mut usize, id: &TransactionId)
        requires
            building(old(buf)@, *old(offset) as int),
            *old(offset) + self.spec_size() <= old(buf)@.len(),
            *old(offset) - 20 + self.spec_size() <= 0xFFFF,
        ensures
            final(buf)@.len() == old(buf)@.len(),
            *final(offset) == *old(offset) + self.spec_size(),
            building(final(buf)@, *final(offset) as int),
            kept(old(buf)@, final(buf)@, *old(offset) as int),
            final(buf)@.subrange(0, *final(offset) as int) == self.emitted(
                id@,
                old(buf)@.subrange(0, *old(offset) as int),
            ),
    ;

    /// The bytes that the attributes of the body take.
    fn size(&self) -> (n: usize)
        requires
            self.spec_size() <= usize::MAX,
        ensures
            n == self.spec_size(),
    ;

    /// The bytes that the attributes of the body take, if each is as
    /// short as its kind demands and a message has room for all.
    fn checked_size(&self) -> (r: Option<usize>)
        ensures
            r == (if self.fits() && self.spec_size() <= 0xFFFF {
                Some(self.spec_size() as usize)
            } else {
                None
            }),
    ;
}

/// Request Message Class.
pub struct Request<T: Method> {
    pub method: T,
    pub authorization: Option<Authorization>,
}

pub const REQUEST_CLASS: u16 = 0b00;

impl<T: Method> Class for Request<T> {
    const CLASS: u16 = REQUEST_CLASS;

    const METHOD: u16 = T::METHOD;

    open spec fn spec_size(&self) -> nat {
        self.method.spec_size() + (match self.authorization {
            Some(a) => a.spec_size(),
            None => 0,
        })
    }

    open spec fn fits(&self) -> bool {
        match self.authorization {
            Some(a) => a.fits(),
            None => true,
        }
    }

    open spec fn emitted(&self, id: Seq<u8>, msg: Seq<u8>) -> Seq<u8> {
        match self.authorization {
            Some(a) => a.emitted(id, self.method.emitted(id, msg)),
            None => self.method.emitted(id, msg),
        }
    }

    fn encode(&self, buf: &mut [u8], offset: &mut usize, id: &TransactionId) {
        self.method.encode(buf, offset, id);

        if let Some(ref a) = self.authorization {
            a.encode(buf, offset, id);
        }
    }

    fn size(&self) -> (n: usize) {
        let mut size = self.method.size();

        if let Some(ref a) = self.authorization {
            size += a.size();
        }
        size
    }

    fn checked_size(&self) -> (r: Option<usize>) {
        let method = match self.method.checked_size() {
            Some(n) => n,
            None => {
                return None;
            },
        };
        let authorization = match &self.authorization {
            Some(a) => match a.checked_size() {
                Some(n) => n,
                None => {
                    return None;
                },
            },
            None => 0,
        };
        if authorization > 0xFFFF - method {
            None
        } else {
            Some(method + authorization)
        }
    }
}

impl<T: Method> Request<T> {
    /// States the values of `CLASS` and `METHOD`, for those who see the
    /// type from outside its module.
    pub proof fn lemma_constants()
        ensures
            <Self as Class>::CLASS == REQUEST_CLASS,
            <Self as Class>::METHOD == T::METHOD,
    {
    }
}

/// The class of a decoded message, with what the class carries.
#[derive(Debug, PartialEq)]
pub enum ClassTy {
    Request { method: MethodTy, authorization: Option<Authentication> },
}

/// Why the body of the message `buf` with the given header cannot be
/// decoded, if it cannot: the class is no request, the method is not
/// known, a receiver heeds a comprehension-required attribute of a type
/// that it does not know, or an authentication attribute is malformed.
pub open spec fn body_failure(buf: Seq<u8>, header: Header) -> Option<Failure> {
    let unknown = unknown_required(header.attributes, header.attributes.len() as int);
    if header.class != REQUEST_CLASS {
        Some(unknown_class(header.class))
    } else if header.method != BINDING_METHOD {
        Some(unknown_method(header.method))
    } else if unknown.len() > 0 {
        Some(unknown_attribute(unknown[0]))
    } else {
        authentication_failure(buf, header)
    }
}

impl ClassTy {
    /// Whether this is the body of the message `buf` with the given header.
    pub open spec fn describes(&self, buf: Seq<u8>, header: Header) -> bool {
        &&& self matches ClassTy::Request { method, authorization }
        &&& method == MethodTy::Binding(methods::Binding)
        &&& authorization is Some <==> has_authentication(header)
        &&& authorization matches Some(a) ==> a.describes(buf, header)
    }

    /// Decodes the body of the message `buf`, where `meta` is what its
    /// header told.
    pub fn decode(buf: &[u8], meta: &MessageMeta) -> (r: Result<Self, IncomingError>)
        ensures
            match body_failure(buf@, meta@) {
                Some(failure) => r matches Err(e) && e.reports(failure),
                None => r matches Ok(body) && body.describes(buf@, meta@),
            },
    {
        if meta.class != REQUEST_CLASS {
            return Err(
                IncomingError::unknown(IncomingErrorTy::UnknownClass, "Unknown class: ", meta.class),
            );
        }
        let method = match MethodTy::decode(meta) {
            Ok(method) => method,
            Err(e) => {
                return Err(e);
            },
        };
        let unknown = meta.unknown_attributes();
        if unknown.attributes().len() > 0 {
            return Err(
                IncomingError::unknown(
                    IncomingErrorTy::UnknownComprehensionRequiredAttribute,
                    "Unknown comprehension-required attribute: ",
                    unknown.attributes()[0],
                ),
            );
        }
        match Authentication::decode(buf, meta) {
            Ok(authorization) => Ok(ClassTy::Request { method, authorization }),
            Err(e) => Err(e),
        }
    }
}

} // verus!
