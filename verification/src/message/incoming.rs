use vstd::prelude::*;
use vstd::slice::{slice_subrange, slice_to_vec};
use vstd::string::StringExecFns;

use super::attributes::fixed::bad_size;
use super::attributes::registry::{spec_is_known, spec_is_required};
use super::attributes::{
    fingerprint_of, is_known, is_required, looked_up, lookup, lookup_failure, value_at, Attribute,
    Fingerprint, Software, FINGERPRINT_XOR,
};
use super::crc::checksum;
use super::id::TransactionId;
use super::meta::{
    declared_end, header_failure, heeded, lemma_walk_bounds, parsed, protection, walk,
    AttributeMeta, Header, MessageMeta, Protection, FINGERPRINT,
};
use super::wire::u32_at;
use super::{body_failure, ClassTy};

verus! {

/// An incoming STUN message.
#[derive(Debug, PartialEq)]
pub struct IncomingMessage {
    pub transaction_id: TransactionId,
    pub body: ClassTy,
    pub software: Option<Software>,
    pub fingerprint: Option<Fingerprint>,
    /// The attributes of types that the codec does not know and may pass
    /// over, in the order of the message.
    pub unknown: Vec<OpaqueAttribute>,
}

/// An attribute of a type that the codec does not know: its type and its
/// body as they came.
#[derive(Debug, PartialEq, Eq)]
pub struct OpaqueAttribute {
    pub ty: u16,
    pub value: Vec<u8>,
}

impl View for OpaqueAttribute {
    type V = (u16, Seq<u8>);

    open spec fn view(&self) -> (u16, Seq<u8>) {
        (self.ty, self.value@)
    }
}

/// Why a message could not be decoded.
#[derive(Debug)]
pub struct IncomingError {
    pub ty: IncomingErrorTy,
    pub reason: String,
}

/// The kinds of decode failure.
#[derive(Debug, PartialEq, Eq, Clone, Copy, Structural)]
pub enum IncomingErrorTy {
    /// A field holds a value that the format forbids.
    BadFormat,
    /// The buffer, the declared length and the attributes do not fit together.
    BadLength,
    /// The magic cookie is not the one of STUN.
    BadMagic,
    /// The class of the message is not known.
    UnknownClass,
    /// The method of the message is not known.
    UnknownMethod,
    /// A comprehension-required attribute is not known.
    UnknownComprehensionRequiredAttribute,
    /// A recomputed MAC differs from the one that the message carries.
    IntegrityMismatch,
    /// The recomputed CRC differs from the one that the message carries.
    FingerprintMismatch,
    /// A textual attribute does not hold UTF-8.
    BadUtf8,
}

/// A failure as contracts speak of it: the kind and the text of the reason.
pub type Failure = (IncomingErrorTy, Seq<char>);

/// The digit of `d` in base sixteen.
pub open spec fn hex_digit(d: int) -> char {
    if d == 0 {
        '0'
    } else if d == 1 {
        '1'
    } else if d == 2 {
        '2'
    } else if d == 3 {
        '3'
    } else if d == 4 {
        '4'
    } else if d == 5 {
        '5'
    } else if d == 6 {
        '6'
    } else if d == 7 {
        '7'
    } else if d == 8 {
        '8'
    } else if d == 9 {
        '9'
    } else if d == 10 {
        'a'
    } else if d == 11 {
        'b'
    } else if d == 12 {
        'c'
    } else if d == 13 {
        'd'
    } else if d == 14 {
        'e'
    } else {
        'f'
    }
}

/// `value` in base sixteen behind `0x`, without leading zeros.
pub open spec fn hex(value: u16) -> Seq<char> {
    seq!['0', 'x'] + (if value >= 0x1000 {
        seq![hex_digit(value as int / 0x1000)]
    } else {
        Seq::empty()
    }) + (if value >= 0x100 {
        seq![hex_digit(value as int / 0x100 % 16)]
    } else {
        Seq::empty()
    }) + (if value >= 0x10 {
        seq![hex_digit(value as int / 0x10 % 16)]
    } else {
        Seq::empty()
    }) + seq![hex_digit(value as int % 16)]
}

/// What a decoder reports for a class that it does not know.
pub open spec fn unknown_class(class: u16) -> Failure {
    (IncomingErrorTy::UnknownClass, "Unknown class: "@ + hex(class) + "."@)
}

/// What a decoder reports for a method that it does not know.
pub open spec fn unknown_method(method: u16) -> Failure {
    (IncomingErrorTy::UnknownMethod, "Unknown method: "@ + hex(method) + "."@)
}

/// What a decoder reports for a comprehension-required attribute of a
/// type that it does not know.
pub open spec fn unknown_attribute(ty: u16) -> Failure {
    (
        IncomingErrorTy::UnknownComprehensionRequiredAttribute,
        "Unknown comprehension-required attribute: "@ + hex(ty) + "."@,
    )
}

/// The digit of `d` in base sixteen, as a string.
fn digit(d: u16) -> (r: &'static str)
    requires
        d < 16,
    ensures
        r@ == seq![hex_digit(d as int)],
{
    proof {
        reveal_strlit("0");
        reveal_strlit("1");
        reveal_strlit("2");
        reveal_strlit("3");
        reveal_strlit("4");
        reveal_strlit("5");
        reveal_strlit("6");
        reveal_strlit("7");
        reveal_strlit("8");
        reveal_strlit("9");
        reveal_strlit("a");
        reveal_strlit("b");
        reveal_strlit("c");
        reveal_strlit("d");
        reveal_strlit("e");
        reveal_strlit("f");
    }
    let r = match d {
        0 => "0",
        1 => "1",
        2 => "2",
        3 => "3",
        4 => "4",
        5 => "5",
        6 => "6",
        7 => "7",
        8 => "8",
        9 => "9",
        10 => "a",
        11 => "b",
        12 => "c",
        13 => "d",
        14 => "e",
        _ => "f",
    };
    assert(r@ =~= seq![hex_digit(d as int)]);
    r
}

/// Appends `value` in base sixteen behind `0x` to `text`.
fn push_hex(text: &mut String, value: u16)
    ensures
        final(text)@ == old(text)@ + hex(value),
{
    proof {
        reveal_strlit("0x");
    }
    text.append("0x");
    if value >= 0x1000 {
        text.append(digit(value / 0x1000));
    }
    if value >= 0x100 {
        text.append(digit(value / 0x100 % 16));
    }
    if value >= 0x10 {
        text.append(digit(value / 0x10 % 16));
    }
    text.append(digit(value % 16));
    assert(text@ =~= old(text)@ + hex(value));
}

impl IncomingError {
    /// Whether this error is of kind `failure.0` and gives `failure.1` as its reason.
    pub open spec fn reports(&self, failure: Failure) -> bool {
        self.ty == failure.0 && self.reason@ == failure.1
    }

    /// An error of kind `ty` with the given reason.
    pub fn new(ty: IncomingErrorTy, reason: &str) -> (e: Self)
        ensures
            e.reports((ty, reason@)),
    {
        IncomingError { ty, reason: reason.to_owned() }
    }

    /// An error of kind `ty` whose reason is `what`, the offending `value`
    /// in base sixteen and a full stop.
    pub fn unknown(ty: IncomingErrorTy, what: &str, value: u16) -> (e: Self)
        ensures
            e.reports((ty, what@ + hex(value) + "."@)),
    {
        let mut reason = what.to_owned();
        push_hex(&mut reason, value);
        reason.append(".");
        IncomingError { ty, reason }
    }
}

/// What a decoder reports for a fingerprint that is not the one of the message.
pub open spec fn fingerprint_mismatch() -> Failure {
    (IncomingErrorTy::FingerprintMismatch, "Fingerprint does not match the message."@)
}

/// Whether the last attribute of the message is a FINGERPRINT.
pub open spec fn has_fingerprint(header: Header) -> bool {
    header.attributes.len() > 0 && header.attributes.last().ty == FINGERPRINT
}

/// Why the FINGERPRINT at the end of the message `buf` cannot be
/// accepted, if there is one and it cannot: it does not hold four bytes,
/// or not the fingerprint of the bytes in front of it.
pub open spec fn fingerprint_failure(buf: Seq<u8>, header: Header) -> Option<Failure> {
    if has_fingerprint(header) {
        let last = header.attributes.last();
        if last.len != 4 {
            Some(bad_size())
        } else if u32_at(buf, last.offset as int) != fingerprint_of(
            buf.subrange(0, last.offset - 4),
        ) {
            Some(fingerprint_mismatch())
        } else {
            None
        }
    } else {
        None
    }
}

/// Type and body of those of the first `n` attributes that a receiver
/// heeds, may pass over and does not know.
pub open spec fn opaque(buf: Seq<u8>, attributes: Seq<AttributeMeta>, n: int) -> Seq<
    (u16, Seq<u8>),
>
    decreases n,
{
    if n <= 0 {
        Seq::empty()
    } else if heeded(attributes, n - 1) && !spec_is_required(attributes[n - 1].ty)
        && !spec_is_known(attributes[n - 1].ty) {
        opaque(buf, attributes, n - 1).push(
            (attributes[n - 1].ty, value_at(buf, attributes[n - 1])),
        )
    } else {
        opaque(buf, attributes, n - 1)
    }
}

/// Why the message `buf` cannot be decoded, if it cannot: the first
/// failure among those of the header and the attribute walk, of the body,
/// of SOFTWARE and of FINGERPRINT.
pub open spec fn incoming_failure(buf: Seq<u8>) -> Option<Failure> {
    if header_failure(buf) is Some {
        header_failure(buf)
    } else if body_failure(buf, parsed(buf)) is Some {
        body_failure(buf, parsed(buf))
    } else if lookup_failure::<Software>(buf, parsed(buf)) is Some {
        lookup_failure::<Software>(buf, parsed(buf))
    } else {
        fingerprint_failure(buf, parsed(buf))
    }
}

/// Decodes the FINGERPRINT at the end of the message, if there is one,
/// and holds it against the message.
fn decode_fingerprint(buf: &[u8], meta: &MessageMeta) -> (r: Result<
    Option<Fingerprint>,
    IncomingError,
>)
    requires
        meta.describes(buf@),
    ensures
        match fingerprint_failure(buf@, meta@) {
            Some(failure) => r matches Err(e) && e.reports(failure),
            None => r == Ok::<Option<Fingerprint>, IncomingError>(
                if has_fingerprint(meta@) {
                    Some(
                        Fingerprint::Incoming {
                            fingerprint: u32_at(buf@, meta@.attributes.last().offset as int),
                        },
                    )
                } else {
                    None
                },
            ),
        },
{
    let n = meta.attributes.len();
    if n == 0 || meta.attributes[n - 1].ty != FINGERPRINT {
        return Ok(None);
    }
    let last = &meta.attributes[n - 1];
    proof {
        lemma_walk_bounds(buf@, 20, declared_end(buf@), n - 1);
        Fingerprint::lemma_constants();
    }
    match Fingerprint::decode(buf, last, meta) {
        Ok(Fingerprint::Incoming { fingerprint }) => {
            assert(value_at(buf@, *last)[0] == buf@[last.offset as int]);
            assert(value_at(buf@, *last)[1] == buf@[last.offset + 1]);
            assert(value_at(buf@, *last)[2] == buf@[last.offset + 2]);
            assert(value_at(buf@, *last)[3] == buf@[last.offset + 3]);
            let expected = checksum(slice_subrange(buf, 0, last.offset - 4)) ^ FINGERPRINT_XOR;
            if fingerprint == expected {
                Ok(Some(Fingerprint::Incoming { fingerprint }))
            } else {
                Err(
                    IncomingError::new(
                        IncomingErrorTy::FingerprintMismatch,
                        "Fingerprint does not match the message.",
                    ),
                )
            }
        },
        Ok(Fingerprint::Outgoing) => Ok(None),
        Err(e) => Err(e),
    }
}

/// Copies out the attributes that a receiver heeds, may pass over and
/// does not know.
fn collect_opaque(buf: &[u8], meta: &MessageMeta) -> (r: Vec<OpaqueAttribute>)
    requires
        meta.describes(buf@),
    ensures
        r@.map_values(|a: OpaqueAttribute| a@) == opaque(
            buf@,
            meta@.attributes,
            meta@.attributes.len() as int,
        ),
{
    let n = meta.attributes.len();
    let mut state = Protection::Open;
    let mut unknown: Vec<OpaqueAttribute> = Vec::new();
    let mut i: usize = 0;
    while i < n
        invariant
            i <= n,
            n == meta.attributes@.len(),
            meta.describes(buf@),
            state == protection(meta.attributes@, i as int),
            unknown@.map_values(|a: OpaqueAttribute| a@) == opaque(
                buf@,
                meta.attributes@,
                i as int,
            ),
        decreases n - i,
    {
        let attr = &meta.attributes[i];
        if state.heeds(attr.ty) && !is_required(attr.ty) && !is_known(attr.ty) {
            proof {
                lemma_walk_bounds(buf@, 20, declared_end(buf@), i as int);
            }
            let value = slice_to_vec(slice_subrange(buf, attr.offset, attr.offset + attr.len));
            let ghost before = unknown@;
            unknown.push(OpaqueAttribute { ty: attr.ty, value });
            assert(unknown@.map_values(|a: OpaqueAttribute| a@) =~= before.map_values(
                |a: OpaqueAttribute| a@,
            ).push((attr.ty, value_at(buf@, *attr))));
        }
        state = state.step(attr.ty);
        i += 1;
    }
    unknown
}

impl IncomingMessage {
    /// Whether this is what the message `buf` holds.
    pub open spec fn describes(&self, buf: Seq<u8>) -> bool {
        &&& self.transaction_id@ == parsed(buf).id
        &&& self.body.describes(buf, parsed(buf))
        &&& looked_up(buf, parsed(buf), self.software)
        &&& self.fingerprint == (if has_fingerprint(parsed(buf)) {
            Some(
                Fingerprint::Incoming {
                    fingerprint: u32_at(buf, parsed(buf).attributes.last().offset as int),
                },
            )
        } else {
            None
        })
        &&& self.unknown@.map_values(|a: OpaqueAttribute| a@) == opaque(
            buf,
            parsed(buf).attributes,
            parsed(buf).attributes.len() as int,
        )
    }

    /// Decodes the message that `buf` holds.
    ///
    /// Fails exactly on the buffers that `incoming_failure` names, with
    /// the kind and the reason given there.
    pub fn decode(buf: &[u8]) -> (r: Result<Self, IncomingError>)
        ensures
            match incoming_failure(buf@) {
                Some(failure) => r matches Err(e) && e.reports(failure),
                None => r matches Ok(message) && message.describes(buf@),
            },
    {
        let meta = match MessageMeta::decode(buf) {
            Ok(meta) => meta,
            Err(e) => {
                return Err(e);
            },
        };
        let body = match ClassTy::decode(buf, &meta) {
            Ok(body) => body,
            Err(e) => {
                return Err(e);
            },
        };
        let software = match lookup::<Software>(buf, &meta) {
            Ok(software) => software,
            Err(e) => {
                return Err(e);
            },
        };
        let fingerprint = match decode_fingerprint(buf, &meta) {
            Ok(fingerprint) => fingerprint,
            Err(e) => {
                return Err(e);
            },
        };
        let unknown = collect_opaque(buf, &meta);

        Ok(Self { transaction_id: meta.id, body, software, fingerprint, unknown })
    }
}

} // verus!
