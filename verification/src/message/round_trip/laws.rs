//! The laws of the codec: what holds of every Binding request that it
//! encodes, and of what a receiver decodes from it.

use vstd::prelude::*;

use crate::message::attributes::registry::{looked_up, lookup_failure};
use crate::message::attributes::{
    fingerprint_of, unknown_required, userhash_input, Attribute, Fingerprint, MessageIntegrity,
    MessageIntegritySha256, Nonce, PasswordAlgorithm, Realm, Software, Userhash, Username,
};
use crate::message::authentication::{
    authentication_failure, credentials_failure, has_authentication,
};
use crate::message::authorization::{Authorization, Integrity};
use crate::message::hash::{hmac_sha1, hmac_sha256, sha256};
use crate::message::incoming::{
    fingerprint_failure, has_fingerprint, incoming_failure, opaque, IncomingMessage,
};
use crate::message::integrity::{integrity_verifies, sha1_verifies, sha256_verifies};
use crate::message::meta::{message_type, parsed};
use crate::message::methods::{Binding, Method, MethodTy, BINDING_METHOD};
use crate::message::outgoing::{ends_with_fingerprint, OutgoingMessage, SOFTWARE_DESCRIPTION};
use crate::message::wire::u32_at;
use crate::message::{Authentication, Class, ClassTy, Request, REQUEST_CLASS};
use super::parts::credentials_noted;
use super::parts::lemma_algorithm;
use super::parts::lemma_covered_kept;
use super::parts::lemma_credentials_noted;
use super::parts::lemma_fingerprint_appended;
use super::parts::lemma_last_mac;
use super::parts::lemma_text;
use super::request::{
    algorithm_of, anonymous, lemma_found_authorized, lemma_found_plain, lemma_last_type,
    lemma_wire_noted, lemma_wire_parses, lemma_wire_shape, nonce_of, realm_of, request_header,
    sha1_front, sha256_front, software_wire, wire_noted,
};
use super::summary::{
    attributes_of, lemma_header_noted, lemma_lookup, lemma_opaque_of_known, lemma_summarized,
    nothing, summarizes,
};

verus! {

/// The MESSAGE-INTEGRITY of an encoded Binding request holds the MAC
/// that `verify_integrity` asks for.
pub proof fn lemma_sha1_verifies(out: OutgoingMessage<Request<Binding>>)
    requires
        out.encodable(),
        out.body.authorization is Some,
        out.body.authorization.unwrap().integrity.has_sha1(),
    ensures
        sha1_verifies(
            out.wire(),
            parsed(out.wire()),
            out.body.authorization.unwrap().credentials.spec_key(),
        ),
{
    let w = out.wire();
    let a = out.body.authorization.unwrap();
    let s = wire_noted(out);
    lemma_wire_noted(out);
    lemma_wire_parses(out);
    lemma_found_authorized(out);
    lemma_lookup::<MessageIntegrity>(w, s);
    MessageIntegrity::lemma_constants();
    let front = sha1_front(a, out.transaction_id@);
    lemma_covered_kept(front, w, 20);
}

/// The MESSAGE-INTEGRITY-SHA256 of an encoded Binding request holds the
/// MAC that `verify_integrity` asks for.
pub proof fn lemma_sha256_verifies(out: OutgoingMessage<Request<Binding>>)
    requires
        out.encodable(),
        out.body.authorization is Some,
        out.body.authorization.unwrap().integrity.has_sha256(),
    ensures
        sha256_verifies(
            out.wire(),
            parsed(out.wire()),
            out.body.authorization.unwrap().credentials.spec_key(),
        ),
{
    let w = out.wire();
    let a = out.body.authorization.unwrap();
    let s = wire_noted(out);
    lemma_wire_noted(out);
    lemma_wire_parses(out);
    lemma_found_authorized(out);
    lemma_lookup::<MessageIntegritySha256>(w, s);
    MessageIntegritySha256::lemma_constants();
    let front = sha256_front(a, out.transaction_id@);
    lemma_covered_kept(front, w, 32);
}

/// Integrity coverage: each integrity attribute of an encoded Binding
/// request holds the MAC, under the key of the credentials, of the
/// message in front of the attribute with a length field that ends
/// behind the attribute. So the request passes `verify_integrity` with
/// that key.
pub proof fn lemma_integrity_coverage(out: OutgoingMessage<Request<Binding>>)
    requires
        out.encodable(),
        out.body.authorization is Some,
    ensures
        integrity_verifies(
            out.wire(),
            out.body.authorization.unwrap().credentials.spec_key(),
            out.body.authorization.unwrap().integrity,
        ),
{
    lemma_wire_parses(out);
    if out.body.authorization.unwrap().integrity.has_sha1() {
        lemma_sha1_verifies(out);
    }
    if out.body.authorization.unwrap().integrity.has_sha256() {
        lemma_sha256_verifies(out);
    }
}

/// Where an integrity attribute is the last attribute of an encoded
/// Binding request, it holds the MAC of the encoded bytes in front of
/// the attribute as they are: MESSAGE-INTEGRITY the HMAC-SHA1 where it
/// stands alone, MESSAGE-INTEGRITY-SHA256 the HMAC-SHA256.
pub proof fn lemma_integrity_last(out: OutgoingMessage<Request<Binding>>)
    requires
        out.encodable(),
        out.body.authorization is Some,
        !out.software,
        !out.fingerprint,
    ensures
        out.body.authorization.unwrap().integrity == Integrity::Sha1 ==> out.wire().len() >= 44
            && out.wire().subrange(out.wire().len() - 20, out.wire().len() as int) == hmac_sha1(
            out.body.authorization.unwrap().credentials.spec_key(),
            out.wire().subrange(0, out.wire().len() - 24),
        )@,
        out.body.authorization.unwrap().integrity.has_sha256() ==> out.wire().len() >= 56
            && out.wire().subrange(out.wire().len() - 32, out.wire().len() as int) == hmac_sha256(
            out.body.authorization.unwrap().credentials.spec_key(),
            out.wire().subrange(0, out.wire().len() - 36),
        )@,
{
    let a = out.body.authorization.unwrap();
    let id = out.transaction_id@;
    Request::<Binding>::lemma_constants();
    Binding::lemma_constants();
    lemma_header_noted(message_type(REQUEST_CLASS, BINDING_METHOD), id);
    assert(out.body.spec_size() == a.credentials.spec_size() + a.integrity.spec_size());
    lemma_credentials_noted(a.credentials, id, request_header(id), nothing());
    let front = a.credentials.emitted(id, request_header(id));
    lemma_summarized(front, credentials_noted(a.credentials, nothing(), request_header(id)));
    assert(out.wire() == a.integrity.emitted(a.credentials.spec_key(), front));
    lemma_last_mac(a.integrity, a.credentials.spec_key(), front);
}

/// A receiver of an encoded Binding request can decode the attributes of
/// its credentials.
pub proof fn lemma_credentials_decode(out: OutgoingMessage<Request<Binding>>)
    requires
        out.encodable(),
    ensures
        credentials_failure(out.wire(), parsed(out.wire())) is None,
{
    let w = out.wire();
    let s = wire_noted(out);
    lemma_wire_noted(out);
    lemma_wire_parses(out);
    lemma_lookup::<Username>(w, s);
    lemma_lookup::<Userhash>(w, s);
    lemma_lookup::<Nonce>(w, s);
    lemma_lookup::<Realm>(w, s);
    lemma_lookup::<PasswordAlgorithm>(w, s);
    match out.body.authorization {
        Some(a) => {
            lemma_found_authorized(out);
            let c = a.credentials;
            lemma_text(c.username()@);
            if c is LongTerm {
                lemma_text(nonce_of(c)@);
                lemma_text(realm_of(c)@);
                if algorithm_of(c) is Some {
                    lemma_algorithm(algorithm_of(c).unwrap());
                }
            }
        },
        None => {
            lemma_found_plain(out);
        },
    }
}

/// A receiver of an encoded Binding request can decode its
/// authentication attributes.
pub proof fn lemma_authentication_decodes(out: OutgoingMessage<Request<Binding>>)
    requires
        out.encodable(),
    ensures
        authentication_failure(out.wire(), parsed(out.wire())) is None,
{
    let w = out.wire();
    let s = wire_noted(out);
    lemma_wire_noted(out);
    lemma_wire_parses(out);
    lemma_credentials_decode(out);
    lemma_lookup::<MessageIntegrity>(w, s);
    lemma_lookup::<MessageIntegritySha256>(w, s);
    match out.body.authorization {
        Some(a) => {
            lemma_found_authorized(out);
        },
        None => {
            lemma_found_plain(out);
        },
    }
}

/// The FINGERPRINT of an encoded Binding request is its last attribute
/// and holds the fingerprint of the bytes in front of it.
pub proof fn lemma_fingerprint_value(out: OutgoingMessage<Request<Binding>>)
    requires
        out.encodable(),
        out.fingerprint,
    ensures
        ends_with_fingerprint(out.wire()),
        attributes_of(out.wire()).len() > 0,
        attributes_of(out.wire()).last().offset == out.wire().len() - 4,
        attributes_of(out.wire()).last().len == 4,
{
    lemma_wire_shape(out);
    lemma_fingerprint_appended(software_wire(out));
}

/// A receiver of an encoded Binding request finds a FINGERPRINT at its
/// end exactly where one was asked for, and finds it to be the
/// fingerprint of the bytes in front of it.
pub proof fn lemma_fingerprint_decodes(out: OutgoingMessage<Request<Binding>>)
    requires
        out.encodable(),
    ensures
        has_fingerprint(parsed(out.wire())) == out.fingerprint,
        fingerprint_failure(out.wire(), parsed(out.wire())) is None,
        out.fingerprint ==> out.wire().len() >= 28 && parsed(out.wire()).attributes.last().offset
            == out.wire().len() - 4 && u32_at(out.wire(), out.wire().len() - 4) == fingerprint_of(
            out.wire().subrange(0, out.wire().len() - 8),
        ),
{
    reveal(summarizes);
    lemma_wire_noted(out);
    lemma_wire_parses(out);
    lemma_last_type(out);
    if out.fingerprint {
        lemma_fingerprint_value(out);
    }
}

/// A receiver of an encoded Binding request knows the type of each of
/// its attributes.
pub proof fn lemma_nothing_unknown(out: OutgoingMessage<Request<Binding>>)
    requires
        out.encodable(),
    ensures
        unknown_required(
            parsed(out.wire()).attributes,
            parsed(out.wire()).attributes.len() as int,
        ) == Seq::<u16>::empty(),
        opaque(out.wire(), parsed(out.wire()).attributes, parsed(out.wire()).attributes.len() as int)
            == Seq::<(u16, Seq<u8>)>::empty(),
{
    reveal(summarizes);
    lemma_wire_noted(out);
    lemma_wire_parses(out);
    let attributes = attributes_of(out.wire());
    lemma_opaque_of_known(out.wire(), attributes, attributes.len() as int);
}

/// A receiver of an encoded Binding request finds its SOFTWARE exactly
/// where one was asked for and no integrity attribute stands in front
/// of it.
pub proof fn lemma_software_decodes(out: OutgoingMessage<Request<Binding>>)
    requires
        out.encodable(),
    ensures
        lookup_failure::<Software>(out.wire(), parsed(out.wire())) is None,
        forall|field: Option<Software>|
            #[trigger] looked_up(out.wire(), parsed(out.wire()), field) ==> (if out.software
                && out.body.authorization is None {
                field matches Some(software) && software@ == SOFTWARE_DESCRIPTION@
            } else {
                field is None
            }),
{
    let w = out.wire();
    lemma_wire_noted(out);
    lemma_wire_parses(out);
    lemma_lookup::<Software>(w, wire_noted(out));
    lemma_text(SOFTWARE_DESCRIPTION@);
    if out.body.authorization is Some {
        lemma_found_authorized(out);
    } else {
        lemma_found_plain(out);
    }
}

/// Decoding an encoded Binding request does not fail.
pub proof fn lemma_decodes(out: OutgoingMessage<Request<Binding>>)
    requires
        out.encodable(),
    ensures
        incoming_failure(out.wire()) is None,
{
    lemma_wire_parses(out);
    lemma_nothing_unknown(out);
    lemma_authentication_decodes(out);
    lemma_software_decodes(out);
    lemma_fingerprint_decodes(out);
}

/// Whether `view` is what a receiver has to find of the authorization
/// `a`: the username or its hash, nonce, realm and password algorithm as
/// they were given, and a MAC for each integrity attribute asked for.
pub open spec fn received(a: Authorization, view: Authentication) -> bool {
    let c = a.credentials;
    &&& if anonymous(c) {
        view.username is None && (view.userhash matches Some(h) && h@ == sha256(
            userhash_input(c.username()@, realm_of(c)@),
        )@)
    } else {
        view.userhash is None && (view.username matches Some(u) && u@ == c.username()@)
    }
    &&& if c is LongTerm {
        (view.nonce matches Some(n) && n@ == nonce_of(c)@) && (view.realm matches Some(r) && r@
            == realm_of(c)@)
    } else {
        view.nonce is None && view.realm is None
    }
    &&& view.algorithm == algorithm_of(c)
    &&& view.integrity is Some <==> a.integrity.has_sha1()
    &&& view.integrity_sha256 is Some <==> a.integrity.has_sha256()
}

/// What a receiver finds of the credentials of an encoded Binding
/// request is what they were made of.
pub proof fn lemma_credentials_received(out: OutgoingMessage<Request<Binding>>, view: Authentication)
    requires
        out.encodable(),
        out.body.authorization is Some,
        view.describes(out.wire(), parsed(out.wire())),
    ensures
        ({
            let c = out.body.authorization.unwrap().credentials;
            &&& if anonymous(c) {
                view.username is None && (view.userhash matches Some(h) && h@ == sha256(
                    userhash_input(c.username()@, realm_of(c)@),
                )@)
            } else {
                view.userhash is None && (view.username matches Some(u) && u@
                    == c.username()@)
            }
            &&& if c is LongTerm {
                (view.nonce matches Some(n) && n@ == nonce_of(c)@) && (view.realm matches Some(r)
                    && r@ == realm_of(c)@)
            } else {
                view.nonce is None && view.realm is None
            }
            &&& view.algorithm == algorithm_of(c)
        }),
{
    let w = out.wire();
    let s = wire_noted(out);
    let c = out.body.authorization.unwrap().credentials;
    lemma_wire_noted(out);
    lemma_wire_parses(out);
    lemma_found_authorized(out);
    lemma_lookup::<Username>(w, s);
    lemma_lookup::<Userhash>(w, s);
    lemma_lookup::<Nonce>(w, s);
    lemma_lookup::<Realm>(w, s);
    lemma_lookup::<PasswordAlgorithm>(w, s);
    lemma_text(c.username()@);
    if c is LongTerm {
        lemma_text(nonce_of(c)@);
        lemma_text(realm_of(c)@);
        if algorithm_of(c) is Some {
            lemma_algorithm(algorithm_of(c).unwrap());
        }
    }
}

/// A receiver of an encoded Binding request finds a MAC for each
/// integrity attribute asked for.
pub proof fn lemma_macs_received(out: OutgoingMessage<Request<Binding>>, view: Authentication)
    requires
        out.encodable(),
        out.body.authorization is Some,
        view.describes(out.wire(), parsed(out.wire())),
    ensures
        view.integrity is Some <==> out.body.authorization.unwrap().integrity.has_sha1(),
        view.integrity_sha256 is Some <==> out.body.authorization.unwrap().integrity.has_sha256(),
{
    let w = out.wire();
    let s = wire_noted(out);
    lemma_wire_noted(out);
    lemma_wire_parses(out);
    lemma_found_authorized(out);
    lemma_lookup::<MessageIntegrity>(w, s);
    lemma_lookup::<MessageIntegritySha256>(w, s);
}

/// A receiver finds authentication attributes in an encoded Binding
/// request exactly where it has an authorization.
pub proof fn lemma_has_authentication(out: OutgoingMessage<Request<Binding>>)
    requires
        out.encodable(),
    ensures
        has_authentication(parsed(out.wire())) <==> out.body.authorization is Some,
{
    let w = out.wire();
    let s = wire_noted(out);
    lemma_wire_noted(out);
    lemma_wire_parses(out);
    lemma_lookup::<Username>(w, s);
    lemma_lookup::<Userhash>(w, s);
    lemma_lookup::<Nonce>(w, s);
    lemma_lookup::<Realm>(w, s);
    lemma_lookup::<PasswordAlgorithm>(w, s);
    lemma_lookup::<MessageIntegrity>(w, s);
    lemma_lookup::<MessageIntegritySha256>(w, s);
    if out.body.authorization is Some {
        lemma_found_authorized(out);
    } else {
        lemma_found_plain(out);
    }
}

/// Round trip: decoding an encoded Binding request does not fail, and
/// what it gives tells the request again: the transaction ID, the class
/// and the method, the attributes of the credentials as they were given
/// with a MAC for each integrity attribute asked for, the FINGERPRINT
/// where one was asked for, and no attribute of an unknown type.
/// SOFTWARE shows where it was asked for and no integrity attribute
/// stands in front of it, behind which a receiver passes over it.
pub proof fn lemma_round_trip(out: OutgoingMessage<Request<Binding>>, incoming: IncomingMessage)
    requires
        out.encodable(),
        incoming.describes(out.wire()),
    ensures
        incoming_failure(out.wire()) is None,
        incoming.transaction_id@ == out.transaction_id@,
        incoming.body matches ClassTy::Request { method, authorization } && method
            == MethodTy::Binding(Binding) && (match out.body.authorization {
            Some(a) => authorization matches Some(view) && received(a, view),
            None => authorization is None,
        }),
        if out.software && out.body.authorization is None {
            incoming.software matches Some(software) && software@ == SOFTWARE_DESCRIPTION@
        } else {
            incoming.software is None
        },
        incoming.fingerprint == (if out.fingerprint {
            Some(
                Fingerprint::Incoming {
                    fingerprint: fingerprint_of(out.wire().subrange(0, out.wire().len() - 8)),
                },
            )
        } else {
            None
        }),
        incoming.unknown@.len() == 0,
{
    lemma_decodes(out);
    lemma_wire_parses(out);
    lemma_has_authentication(out);
    lemma_software_decodes(out);
    lemma_fingerprint_decodes(out);
    lemma_nothing_unknown(out);
    match incoming.body {
        ClassTy::Request { method, authorization } => {
            if let Some(view) = authorization {
                lemma_credentials_received(out, view);
                lemma_macs_received(out, view);
            }
        },
    }
    assert(incoming.unknown@.map_values(|a: crate::message::OpaqueAttribute| a@).len()
        == incoming.unknown@.len());
}

} // verus!
