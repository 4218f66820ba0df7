use vstd::prelude::*;
use vstd::slice::slice_subrange;
use vstd::utf8::{encode_utf8, valid_utf8};

use crate::message::id::TransactionId;
use crate::message::incoming::{Failure, IncomingError, IncomingErrorTy};
use crate::message::meta::{AttributeMeta, MessageMeta};
use crate::message::wire::{be32, read_u32, splice, u32_at, write_bytes, write_u32};
use super::fixed::bad_size;
use super::text::{bad_utf8, text_from_utf8, value_slice};
use super::{outside, Attribute};

verus! {

/// The ERROR-CODE attribute.
///
/// See [RFC8489 Section 14.8](https://datatracker.ietf.org/doc/html/rfc8489#section-14.8) for more details.
#[derive(Debug, PartialEq)]
pub enum ErrorCode {
    TryAlternate,
    BadRequest,
    Unauthenticated,
    UnknownAttribute,
    StaleNonce,
    ServerError,
    Other(u32, String),
}

/// Whether `code` is one of the codes that have a variant of their own.
pub open spec fn is_named(code: u32) -> bool {
    code == 300 || code == 400 || code == 401 || code == 420 || code == 438 || code == 500
}

/// The four bytes in front of the reason, as an integer: the class in
/// bits 8 to 10, the number in the low byte.
pub open spec fn packed_code(code: u32) -> u32 {
    ((code / 100) << 8 | (code % 100)) & 0x07FF
}

/// The code that the four bytes in front of the reason stand for.
pub open spec fn unpacked_code(packed: u32) -> u32 {
    ((((packed & 0x07FF) >> 8) * 100) + ((packed & 0x07FF) & 0x00FF)) as u32
}

/// The class, the hundreds of the code, that the four bytes stand for.
pub open spec fn unpacked_class(packed: u32) -> u32 {
    (packed & 0x07FF) >> 8
}

/// What a decoder reports for an error class outside 3 to 6.
pub open spec fn bad_class() -> Failure {
    (IncomingErrorTy::BadFormat, "Error class must be between 3 and 6."@)
}

/// Packing and unpacking are inverse on the codes of the classes 3 to 6
/// with a number below 100, and give such a class.
pub proof fn lemma_code_round_trip(code: u32)
    requires
        300 <= code <= 699,
    ensures
        unpacked_code(u32_at(be32(packed_code(code)), 0)) == code,
        3 <= unpacked_class(u32_at(be32(packed_code(code)), 0)) <= 6,
{
    let packed = packed_code(code);
    crate::message::wire::lemma_be32_value(packed);
    let class = (packed & 0x07FF) >> 8;
    let number = (packed & 0x07FF) & 0x00FF;
    assert(class == code / 100 && number == code % 100) by (bit_vector)
        requires
            300 <= code <= 699,
            packed == ((code / 100) << 8 | (code % 100)) & 0x07FF,
            class == (packed & 0x07FF) >> 8,
            number == (packed & 0x07FF) & 0x00FF,
    ;
}

impl ErrorCode {
    /// The code of the error.
    pub open spec fn spec_code(&self) -> u32 {
        match self {
            Self::TryAlternate => 300,
            Self::BadRequest => 400,
            Self::Unauthenticated => 401,
            Self::UnknownAttribute => 420,
            Self::StaleNonce => 438,
            Self::ServerError => 500,
            Self::Other(c, _) => *c,
        }
    }

    /// The reason phrase of the error.
    pub open spec fn spec_reason(&self) -> Seq<char> {
        match self {
            Self::TryAlternate => "Try Alternate"@,
            Self::BadRequest => "Bad Request"@,
            Self::Unauthenticated => "Unauthenticated"@,
            Self::UnknownAttribute => "Unknown Attribute"@,
            Self::StaleNonce => "Stale Nonce"@,
            Self::ServerError => "Server Error"@,
            Self::Other(_, r) => r@,
        }
    }

    /// Whether this is the error that `code` and `reason` make: the
    /// variant of `code` where it has one, else `Other` with both.
    pub open spec fn made_of(&self, code: u32, reason: Seq<char>) -> bool {
        &&& self.spec_code() == code
        &&& self is Other <==> !is_named(code)
        &&& self is Other ==> self.spec_reason() == reason
    }

    /// The code of the error.
    pub fn code(&self) -> (code: u32)
        ensures
            code == self.spec_code(),
    {
        match self {
            Self::TryAlternate => 300,
            Self::BadRequest => 400,
            Self::Unauthenticated => 401,
            Self::UnknownAttribute => 420,
            Self::StaleNonce => 438,
            Self::ServerError => 500,
            Self::Other(c, _) => *c,
        }
    }

    /// The reason phrase of the error.
    pub fn reason(&self) -> (reason: &str)
        ensures
            reason@ == self.spec_reason(),
    {
        match self {
            Self::TryAlternate => "Try Alternate",
            Self::BadRequest => "Bad Request",
            Self::Unauthenticated => "Unauthenticated",
            Self::UnknownAttribute => "Unknown Attribute",
            Self::StaleNonce => "Stale Nonce",
            Self::ServerError => "Server Error",
            Self::Other(_, r) => r.as_str(),
        }
    }

    /// The error that `code` and `reason` make.
    pub fn from_parts(code: u32, reason: String) -> (r: Self)
        ensures
            r.made_of(code, reason@),
    {
        match code {
            300 => Self::TryAlternate,
            400 => Self::BadRequest,
            401 => Self::Unauthenticated,
            420 => Self::UnknownAttribute,
            438 => Self::StaleNonce,
            500 => Self::ServerError,
            _ => Self::Other(code, reason),
        }
    }
}

impl Attribute for ErrorCode {
    const TY: u16 = 0x0009;

    const SIZE: usize = 0;

    proof fn lemma_constants()
        ensures
            Self::TY == 0x0009,
            Self::SIZE == 0,
    {
    }

    open spec fn spec_size(&self) -> nat {
        4 + encode_utf8(self.spec_reason()).len()
    }

    open spec fn value(&self, id: Seq<u8>, prefix: Seq<u8>) -> Seq<u8> {
        be32(packed_code(self.spec_code())) + encode_utf8(self.spec_reason())
    }

    open spec fn failure(value: Seq<u8>, id: Seq<u8>) -> Option<Failure> {
        if value.len() < 4 {
            Some(bad_size())
        } else if !(3 <= unpacked_class(u32_at(value, 0)) <= 6) {
            Some(bad_class())
        } else if !valid_utf8(value.skip(4)) {
            Some(bad_utf8())
        } else {
            None
        }
    }

    open spec fn holds(&self, value: Seq<u8>, id: Seq<u8>) -> bool {
        exists|reason: Seq<char>|
            encode_utf8(reason) == value.skip(4) && #[trigger] self.made_of(
                unpacked_code(u32_at(value, 0)),
                reason,
            )
    }

    proof fn lemma_size(&self, id: Seq<u8>, prefix: Seq<u8>) {
    }

    fn encode(&self, buf: &mut [u8], offset: usize, id: &TransactionId) {
        let total = buf.len();
        let code = self.code();

        let class = code / 100;
        let number = code % 100;

        let encoded_code = (class << 8 | number) & 0x07FF;

        write_u32(buf, offset, encoded_code);

        let reason = self.reason();

        write_bytes(buf, offset + 4, reason.as_bytes());
        assert(buf@ =~= splice(old(buf)@, offset as int, self.value(id@, Seq::empty())));
    }

    fn decode(buf: &[u8], meta: &AttributeMeta, header: &MessageMeta) -> (r: Result<
        Self,
        IncomingError,
    >) {
        let value = match value_slice(buf, meta) {
            None => {
                return Err(
                    IncomingError::new(
                        IncomingErrorTy::BadLength,
                        "Attribute lies outside the message.",
                    ),
                );
            },
            Some(value) => value,
        };
        if value.len() < 4 {
            return Err(
                IncomingError::new(
                    IncomingErrorTy::BadLength,
                    "Attribute value has the wrong length.",
                ),
            );
        }
        let packed = read_u32(value, 0);
        let encoded_code = packed & 0x07FF;

        let class = encoded_code >> 8;
        let number = encoded_code & 0x00FF;
        assert(class <= 7 && number <= 255) by (bit_vector)
            requires
                class == (packed & 0x07FF) >> 8,
                number == (packed & 0x07FF) & 0x00FF,
        ;

        if class < 3 || class > 6 {
            return Err(
                IncomingError::new(
                    IncomingErrorTy::BadFormat,
                    "Error class must be between 3 and 6.",
                ),
            );
        }
        let code = class * 100 + number;

        let text = slice_subrange(value, 4, value.len());
        assert(text@ =~= value@.skip(4));
        match text_from_utf8(text) {
            Some(reason) => {
                let error = Self::from_parts(code, reason);
                assert(error.made_of(unpacked_code(u32_at(value@, 0)), reason@));
                Ok(error)
            },
            None => Err(
                IncomingError::new(IncomingErrorTy::BadUtf8, "Attribute value is not valid UTF-8."),
            ),
        }
    }

    fn size(&self) -> (n: usize) {
        4 + self.reason().as_bytes().len()
    }
}

} // verus!
