//! What a receiver makes of an encoded Binding request.

use vstd::prelude::*;
use vstd::utf8::encode_utf8;

use crate::message::attributes::registry::lemma_registry;
use crate::message::attributes::{
    fingerprint_of, userhash_input, Attribute, Fingerprint, MessageIntegrity,
    MessageIntegritySha256, Nonce, PasswordAlgorithm, Realm, Software, Userhash, Username,
};
use crate::message::authorization::{Authorization, Credentials};
use crate::message::hash::{hmac_sha1, hmac_sha256, sha256};
use crate::message::meta::{
    class_of, header_failure, message_type, method_of, parsed, walk, Header, FINGERPRINT,
};
use crate::message::methods::{Binding, Method, BINDING_METHOD};
use crate::message::outgoing::{header, OutgoingMessage, SOFTWARE_DESCRIPTION};
use crate::message::wire::{appended, be32, covered, is_message, kept};
use crate::message::{Class, Request, REQUEST_CLASS};
use super::parts::credentials_noted;
use super::parts::integrity_noted;
use super::parts::lemma_credentials_noted;
use super::parts::lemma_integrity_noted;
use super::summary::{
    attributes_of, lemma_header_noted, lemma_noted, lemma_parses, lemma_summarized, noted, nothing,
    summarizes, Found, Summary,
};

verus! {

/// The header of a Binding request with transaction ID `id`.
pub open spec fn request_header(id: Seq<u8>) -> Seq<u8> {
    header(message_type(REQUEST_CLASS, BINDING_METHOD), id)
}

/// The Binding request `out` as far as its body goes, without SOFTWARE
/// and FINGERPRINT.
pub open spec fn body_wire(out: OutgoingMessage<Request<Binding>>) -> Seq<u8> {
    out.body.emitted(out.transaction_id@, request_header(out.transaction_id@))
}

/// What a receiver makes of the body of the Binding request `out`.
#[verifier::opaque]
pub open spec fn body_noted(out: OutgoingMessage<Request<Binding>>) -> Summary {
    match out.body.authorization {
        Some(a) => integrity_noted(
            a.integrity,
            a.credentials.spec_key(),
            credentials_noted(a.credentials, nothing(), request_header(out.transaction_id@)),
            a.credentials.emitted(out.transaction_id@, request_header(out.transaction_id@)),
        ),
        None => nothing(),
    }
}

/// The Binding request `out` with SOFTWARE behind its body, where it is
/// asked for, and without FINGERPRINT.
pub open spec fn software_wire(out: OutgoingMessage<Request<Binding>>) -> Seq<u8> {
    if out.software {
        Software::emitted(out.transaction_id@, body_wire(out))
    } else {
        body_wire(out)
    }
}

/// What a receiver makes of the Binding request `out` without its FINGERPRINT.
#[verifier::opaque]
pub open spec fn software_noted(out: OutgoingMessage<Request<Binding>>) -> Summary {
    if out.software {
        noted(body_noted(out), body_wire(out), Software::TY, encode_utf8(SOFTWARE_DESCRIPTION@))
    } else {
        body_noted(out)
    }
}

/// What a receiver makes of the Binding request `out`.
#[verifier::opaque]
pub open spec fn wire_noted(out: OutgoingMessage<Request<Binding>>) -> Summary {
    if out.fingerprint {
        noted(
            software_noted(out),
            software_wire(out),
            Fingerprint::TY,
            be32(fingerprint_of(covered(software_wire(out), 4))),
        )
    } else {
        software_noted(out)
    }
}

/// A receiver of the body of a Binding request finds its attributes.
pub proof fn lemma_body_noted(out: OutgoingMessage<Request<Binding>>)
    requires
        out.body.spec_size() <= 0xFFFF,
    ensures
        summarizes(body_wire(out), body_noted(out)),
        body_wire(out).len() == 20 + out.body.spec_size(),
        kept(request_header(out.transaction_id@), body_wire(out), 20),
{
    reveal(body_noted);
    let id = out.transaction_id@;
    let h = request_header(id);
    lemma_header_noted(message_type(REQUEST_CLASS, BINDING_METHOD), id);
    match out.body.authorization {
        Some(a) => {
            lemma_credentials_noted(a.credentials, id, h, nothing());
            lemma_integrity_noted(
                a.integrity,
                a.credentials.spec_key(),
                a.credentials.emitted(id, h),
                credentials_noted(a.credentials, nothing(), h),
            );
        },
        None => {},
    }
}

/// A receiver of a Binding request finds its attributes: `wire_noted`
/// tells what a receiver makes of `wire`.
pub proof fn lemma_wire_noted(out: OutgoingMessage<Request<Binding>>)
    requires
        out.spec_size() - 20 <= 0xFFFF,
    ensures
        out.wire() == (if out.fingerprint {
            appended(
                software_wire(out),
                Fingerprint::TY,
                be32(fingerprint_of(covered(software_wire(out), 4))),
            )
        } else {
            software_wire(out)
        }),
        summarizes(software_wire(out), software_noted(out)),
        summarizes(out.wire(), wire_noted(out)),
        out.wire().len() == out.spec_size(),
        software_wire(out).len() == out.spec_size() - (if out.fingerprint {
            8int
        } else {
            0int
        }),
        kept(request_header(out.transaction_id@), out.wire(), 20),
{
    reveal(software_noted);
    reveal(wire_noted);
    lemma_registry();
    Request::<Binding>::lemma_constants();
    Binding::lemma_constants();
    lemma_body_noted(out);
    if out.software {
        lemma_noted(
            body_wire(out),
            body_noted(out),
            Software::TY,
            encode_utf8(SOFTWARE_DESCRIPTION@),
        );
    }
    if out.fingerprint {
        lemma_noted(
            software_wire(out),
            software_noted(out),
            Fingerprint::TY,
            be32(fingerprint_of(covered(software_wire(out), 4))),
        );
    }
}

/// Whether the credentials `c` put a USERHASH in place of the USERNAME.
pub open spec fn anonymous(c: Credentials) -> bool {
    c matches Credentials::LongTerm { anonymity, .. } && anonymity
}

/// The realm of long-term credentials.
pub open spec fn realm_of(c: Credentials) -> Realm {
    c->LongTerm_realm
}

/// The nonce of long-term credentials.
pub open spec fn nonce_of(c: Credentials) -> Nonce {
    c->LongTerm_nonce
}

/// The password algorithm that long-term credentials name, if they name one.
pub open spec fn algorithm_of(c: Credentials) -> Option<PasswordAlgorithm> {
    match c {
        Credentials::LongTerm { algorithm, .. } => algorithm,
        Credentials::ShortTerm { .. } => None,
    }
}

/// The message in front of the MESSAGE-INTEGRITY of a request with the
/// authorization `a`.
pub open spec fn sha1_front(a: Authorization, id: Seq<u8>) -> Seq<u8> {
    a.credentials.emitted(id, request_header(id))
}

/// The message in front of the MESSAGE-INTEGRITY-SHA256 of a request
/// with the authorization `a`.
pub open spec fn sha256_front(a: Authorization, id: Seq<u8>) -> Seq<u8> {
    if a.integrity.has_sha1() {
        appended(
            sha1_front(a, id),
            MessageIntegrity::TY,
            hmac_sha1(a.credentials.spec_key(), covered(sha1_front(a, id), 20))@,
        )
    } else {
        sha1_front(a, id)
    }
}

/// What a receiver of a Binding request with an authorization goes by,
/// type by type.
pub proof fn lemma_found_authorized(out: OutgoingMessage<Request<Binding>>)
    requires
        out.body.authorization is Some,
    ensures
        ({
            let a = out.body.authorization.unwrap();
            let c = a.credentials;
            let id = out.transaction_id@;
            let found = wire_noted(out).found;
            &&& found.contains_key(Username::TY) <==> !anonymous(c)
            &&& found.contains_key(Username::TY) ==> found[Username::TY].value == encode_utf8(
                c.username()@,
            )
            &&& found.contains_key(Userhash::TY) <==> anonymous(c)
            &&& found.contains_key(Userhash::TY) ==> found[Userhash::TY].value == sha256(
                userhash_input(c.username()@, realm_of(c)@),
            )@
            &&& found.contains_key(Nonce::TY) <==> c is LongTerm
            &&& found.contains_key(Nonce::TY) ==> found[Nonce::TY].value == encode_utf8(
                nonce_of(c)@,
            )
            &&& found.contains_key(Realm::TY) <==> c is LongTerm
            &&& found.contains_key(Realm::TY) ==> found[Realm::TY].value == encode_utf8(
                realm_of(c)@,
            )
            &&& found.contains_key(PasswordAlgorithm::TY) <==> algorithm_of(c) is Some
            &&& found.contains_key(PasswordAlgorithm::TY) ==> found[PasswordAlgorithm::TY].value
                == algorithm_of(c).unwrap().bytes()
            &&& found.contains_key(MessageIntegrity::TY) <==> a.integrity.has_sha1()
            &&& found.contains_key(MessageIntegrity::TY) ==> found[MessageIntegrity::TY]
                == (Found {
                value: hmac_sha1(c.spec_key(), covered(sha1_front(a, id), 20))@,
                front: sha1_front(a, id),
            })
            &&& found.contains_key(MessageIntegritySha256::TY) <==> a.integrity.has_sha256()
            &&& found.contains_key(MessageIntegritySha256::TY) ==> found[MessageIntegritySha256::TY]
                == (Found {
                value: hmac_sha256(c.spec_key(), covered(sha256_front(a, id), 32))@,
                front: sha256_front(a, id),
            })
            &&& !found.contains_key(Software::TY)
            &&& wire_noted(out).last == Some(
                if out.fingerprint {
                    Fingerprint::TY
                } else if out.software {
                    Software::TY
                } else if a.integrity.has_sha256() {
                    MessageIntegritySha256::TY
                } else {
                    MessageIntegrity::TY
                },
            )
        }),
{
    reveal(credentials_noted);
    reveal(integrity_noted);
    reveal(body_noted);
    reveal(software_noted);
    reveal(wire_noted);
    Username::lemma_constants();
    Userhash::lemma_constants();
    Nonce::lemma_constants();
    Realm::lemma_constants();
    PasswordAlgorithm::lemma_constants();
    MessageIntegrity::lemma_constants();
    MessageIntegritySha256::lemma_constants();
    Software::lemma_constants();
    Fingerprint::lemma_constants();
}

/// What a receiver of a Binding request without an authorization goes by.
pub proof fn lemma_found_plain(out: OutgoingMessage<Request<Binding>>)
    requires
        out.body.authorization is None,
    ensures
        ({
            let found = wire_noted(out).found;
            &&& !found.contains_key(Username::TY)
            &&& !found.contains_key(Userhash::TY)
            &&& !found.contains_key(Nonce::TY)
            &&& !found.contains_key(Realm::TY)
            &&& !found.contains_key(PasswordAlgorithm::TY)
            &&& !found.contains_key(MessageIntegrity::TY)
            &&& !found.contains_key(MessageIntegritySha256::TY)
            &&& found.contains_key(Software::TY) <==> out.software
            &&& found.contains_key(Software::TY) ==> found[Software::TY].value == encode_utf8(
                SOFTWARE_DESCRIPTION@,
            )
            &&& wire_noted(out).last == (if out.fingerprint {
                Some(Fingerprint::TY)
            } else if out.software {
                Some(Software::TY)
            } else {
                None
            })
        }),
{
    reveal(body_noted);
    reveal(software_noted);
    reveal(wire_noted);
    Username::lemma_constants();
    Userhash::lemma_constants();
    Nonce::lemma_constants();
    Realm::lemma_constants();
    PasswordAlgorithm::lemma_constants();
    MessageIntegrity::lemma_constants();
    MessageIntegritySha256::lemma_constants();
    Software::lemma_constants();
    Fingerprint::lemma_constants();
}

/// The type field of a Binding request.
pub proof fn lemma_request_type()
    ensures
        message_type(REQUEST_CLASS, BINDING_METHOD) == 0x0001,
        0x0001u16 & 0xC000 == 0,
        class_of(0x0001) == REQUEST_CLASS,
        method_of(0x0001) == BINDING_METHOD,
{
    assert(((((0x01u16 & 0x1F80) << 2) | ((0x01u16 & 0x0070) << 1) | (0x01u16 & 0x000F) | ((0u16
        & 0x0002) << 7) | ((0u16 & 0x0001) << 4)) & 0x3FFF) == 0x0001) by (bit_vector);
    assert(0x0001u16 & 0xC000 == 0) by (bit_vector);
    assert(((0x0001u16 & 0x0100) >> 7 | (0x0001u16 & 0x0010) >> 4) == 0) by (bit_vector);
    assert(((0x0001u16 & 0x3E00) >> 2 | (0x0001u16 & 0x00E0) >> 1 | (0x0001u16 & 0x000F)) == 1)
        by (bit_vector);
}

/// The encoded Binding request `out` has a valid header and attribute
/// walk: the header tells a request, the Binding method and the
/// transaction ID of `out`.
pub proof fn lemma_wire_parses(out: OutgoingMessage<Request<Binding>>)
    requires
        out.spec_size() - 20 <= 0xFFFF,
    ensures
        header_failure(out.wire()) is None,
        parsed(out.wire()) == (Header {
            class: REQUEST_CLASS,
            method: BINDING_METHOD,
            id: out.transaction_id@,
            attributes: attributes_of(out.wire()),
        }),
{
    lemma_wire_noted(out);
    lemma_request_type();
    lemma_parses(out.wire(), wire_noted(out), 0x0001, out.transaction_id@);
}

/// The last attribute of an encoded Binding request is a FINGERPRINT
/// exactly where one was asked for.
pub proof fn lemma_last_type(out: OutgoingMessage<Request<Binding>>)
    ensures
        wire_noted(out).last == Some(FINGERPRINT) <==> out.fingerprint,
{
    Fingerprint::lemma_constants();
    Software::lemma_constants();
    MessageIntegrity::lemma_constants();
    MessageIntegritySha256::lemma_constants();
    if out.body.authorization is Some {
        lemma_found_authorized(out);
    } else {
        lemma_found_plain(out);
    }
}

/// An encoded Binding request is a message of whole attributes, and so
/// is what stands in front of its FINGERPRINT.
pub proof fn lemma_wire_shape(out: OutgoingMessage<Request<Binding>>)
    requires
        out.encodable(),
    ensures
        is_message(software_wire(out)),
        walk(software_wire(out), 20, software_wire(out).len() as int) is Some,
        out.fingerprint ==> software_wire(out).len() - 20 + 8 <= 0xFFFF && out.wire() == appended(
            software_wire(out),
            FINGERPRINT,
            be32(fingerprint_of(covered(software_wire(out), 4))),
        ),
        !out.fingerprint ==> out.wire() == software_wire(out),
{
    lemma_wire_noted(out);
    lemma_summarized(software_wire(out), software_noted(out));
    Fingerprint::lemma_constants();
}

} // verus!
