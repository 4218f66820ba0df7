//! What the parts of a request put on the wire, and what a receiver makes
//! of each.

use vstd::prelude::*;
use vstd::utf8::{encode_utf8, encode_utf8_decode_utf8, encode_utf8_valid_utf8};

use crate::message::attributes::registry::lemma_registry;
use crate::message::attributes::text::text_failure;
use crate::message::attributes::{
    algorithm_failure, fingerprint_of, userhash_input, Attribute, MessageIntegrity,
    MessageIntegritySha256, Nonce, PasswordAlgorithm, Realm, Userhash, Username,
};
use crate::message::authorization::{Credentials, Integrity};
use crate::message::hash::{hmac_sha1, hmac_sha256, sha256};
use crate::message::incoming::opaque;
use crate::message::meta::{walk, FINGERPRINT};
use crate::message::outgoing::{ends_with_fingerprint, lemma_fingerprint_last};
use crate::message::wire::{
    appended, be16, be32, covered, is_message, kept, lemma_appended_kept, lemma_appended_parts,
    lemma_be16_value, u16_at,
};
use super::summary::{
    appended_meta, attributes_of, lemma_noted, lemma_summarized, lemma_walk_extends, noted,
    summarizes, Summary,
};

verus! {

/// What a receiver makes of a message that grew by the attributes of the
/// credentials `c` behind `msg`.
#[verifier::opaque]
pub open spec fn credentials_noted(c: Credentials, s: Summary, msg: Seq<u8>) -> Summary {
    match c {
        Credentials::LongTerm { username, nonce, realm, anonymity, algorithm, .. } => {
            let user_ty = if anonymity {
                Userhash::TY
            } else {
                Username::TY
            };
            let user = if anonymity {
                sha256(userhash_input(username@, realm@))@
            } else {
                encode_utf8(username@)
            };
            let with_user = appended(msg, user_ty, user);
            let with_nonce = appended(with_user, Nonce::TY, encode_utf8(nonce@));
            let with_realm = appended(with_nonce, Realm::TY, encode_utf8(realm@));
            let noted_realm = noted(
                noted(noted(s, msg, user_ty, user), with_user, Nonce::TY, encode_utf8(nonce@)),
                with_nonce,
                Realm::TY,
                encode_utf8(realm@),
            );
            match algorithm {
                Some(algorithm) => noted(
                    noted_realm,
                    with_realm,
                    PasswordAlgorithm::TY,
                    algorithm.bytes(),
                ),
                None => noted_realm,
            }
        },
        Credentials::ShortTerm { username, .. } => noted(
            s,
            msg,
            Username::TY,
            encode_utf8(username@),
        ),
    }
}

/// What a receiver makes of a message that grew by the integrity
/// attributes of `integrity`, computed with `key`, behind `msg`.
#[verifier::opaque]
pub open spec fn integrity_noted(integrity: Integrity, key: Seq<u8>, s: Summary, msg: Seq<u8>) -> Summary {
    let sha1 = hmac_sha1(key, covered(msg, 20))@;
    let with_sha1 = if integrity.has_sha1() {
        appended(msg, MessageIntegrity::TY, sha1)
    } else {
        msg
    };
    let noted_sha1 = if integrity.has_sha1() {
        noted(s, msg, MessageIntegrity::TY, sha1)
    } else {
        s
    };
    if integrity.has_sha256() {
        noted(
            noted_sha1,
            with_sha1,
            MessageIntegritySha256::TY,
            hmac_sha256(key, covered(with_sha1, 32))@,
        )
    } else {
        noted_sha1
    }
}

/// A receiver of a message that grew by the attributes of credentials
/// finds each of them.
pub proof fn lemma_credentials_noted(c: Credentials, id: Seq<u8>, msg: Seq<u8>, s: Summary)
    requires
        summarizes(msg, s),
        msg.len() - 20 + c.spec_size() <= 0xFFFF,
    ensures
        summarizes(c.emitted(id, msg), credentials_noted(c, s, msg)),
        c.emitted(id, msg).len() == msg.len() + c.spec_size(),
        kept(msg, c.emitted(id, msg), msg.len() as int),
{
    reveal(credentials_noted);
    reveal(summarizes);
    lemma_registry();
    lemma_summarized(msg, s);
    match c {
        Credentials::LongTerm { username, nonce, realm, anonymity, algorithm, .. } => {
            let user_ty = if anonymity {
                Userhash::TY
            } else {
                Username::TY
            };
            let user = if anonymity {
                sha256(userhash_input(username@, realm@))@
            } else {
                encode_utf8(username@)
            };
            let s1 = noted(s, msg, user_ty, user);
            let m1 = appended(msg, user_ty, user);
            lemma_noted(msg, s, user_ty, user);
            let s2 = noted(s1, m1, Nonce::TY, encode_utf8(nonce@));
            let m2 = appended(m1, Nonce::TY, encode_utf8(nonce@));
            lemma_noted(m1, s1, Nonce::TY, encode_utf8(nonce@));
            let s3 = noted(s2, m2, Realm::TY, encode_utf8(realm@));
            let m3 = appended(m2, Realm::TY, encode_utf8(realm@));
            lemma_noted(m2, s2, Realm::TY, encode_utf8(realm@));
            match algorithm {
                Some(algorithm) => {
                    lemma_noted(m3, s3, PasswordAlgorithm::TY, algorithm.bytes());
                },
                None => {},
            }
        },
        Credentials::ShortTerm { username, .. } => {
            lemma_noted(msg, s, Username::TY, encode_utf8(username@));
        },
    }
}

/// A receiver of a message that grew by integrity attributes finds each
/// of them that it heeds.
pub proof fn lemma_integrity_noted(integrity: Integrity, key: Seq<u8>, msg: Seq<u8>, s: Summary)
    requires
        summarizes(msg, s),
        msg.len() - 20 + integrity.spec_size() <= 0xFFFF,
    ensures
        summarizes(integrity.emitted(key, msg), integrity_noted(integrity, key, s, msg)),
        integrity.emitted(key, msg).len() == msg.len() + integrity.spec_size(),
        kept(msg, integrity.emitted(key, msg), msg.len() as int),
{
    reveal(integrity_noted);
    lemma_registry();
    lemma_summarized(msg, s);
    let sha1 = hmac_sha1(key, covered(msg, 20))@;
    let with_sha1 = if integrity.has_sha1() {
        appended(msg, MessageIntegrity::TY, sha1)
    } else {
        msg
    };
    let noted_sha1 = if integrity.has_sha1() {
        noted(s, msg, MessageIntegrity::TY, sha1)
    } else {
        s
    };
    if integrity.has_sha1() {
        lemma_noted(msg, s, MessageIntegrity::TY, sha1);
    }
    if integrity.has_sha256() {
        lemma_noted(
            with_sha1,
            noted_sha1,
            MessageIntegritySha256::TY,
            hmac_sha256(key, covered(with_sha1, 32))@,
        );
    }
}

/// What an attribute covers does not depend on the length field of the
/// message in front of it.
pub proof fn lemma_covered_kept(front: Seq<u8>, msg: Seq<u8>, size: int)
    requires
        4 <= front.len() <= msg.len(),
        kept(front, msg, front.len() as int),
    ensures
        covered(msg.subrange(0, front.len() as int), size) == covered(front, size),
{
    assert(covered(msg.subrange(0, front.len() as int), size) =~= covered(front, size));
}

/// The last integrity attribute behind a message holds the MAC of the
/// bytes in front of it as they are.
pub proof fn lemma_last_mac(integrity: Integrity, key: Seq<u8>, msg: Seq<u8>)
    requires
        is_message(msg),
        msg.len() - 20 + integrity.spec_size() <= 0xFFFF,
    ensures
        ({
            let grown = integrity.emitted(key, msg);
            &&& integrity == Integrity::Sha1 ==> grown.len() >= 44 && grown.subrange(
                grown.len() - 20,
                grown.len() as int,
            ) == hmac_sha1(key, grown.subrange(0, grown.len() - 24))@
            &&& integrity.has_sha256() ==> grown.len() >= 56 && grown.subrange(
                grown.len() - 32,
                grown.len() as int,
            ) == hmac_sha256(key, grown.subrange(0, grown.len() - 36))@
        }),
{
    MessageIntegrity::lemma_constants();
    MessageIntegritySha256::lemma_constants();
    let sha1 = hmac_sha1(key, covered(msg, 20))@;
    if integrity.has_sha1() {
        lemma_appended_parts(msg, MessageIntegrity::TY, sha1);
    }
    let front = if integrity.has_sha1() {
        appended(msg, MessageIntegrity::TY, sha1)
    } else {
        msg
    };
    if integrity.has_sha256() {
        lemma_appended_parts(
            front,
            MessageIntegritySha256::TY,
            hmac_sha256(key, covered(front, 32))@,
        );
    }
}

/// The bytes of a text are the body of a textual attribute, and of no
/// other text.
pub proof fn lemma_text(text: Seq<char>)
    ensures
        text_failure(encode_utf8(text)) is None,
        forall|other: Seq<char>| #[trigger] encode_utf8(other) == encode_utf8(text) ==> other == text,
{
    encode_utf8_valid_utf8(text);
    encode_utf8_decode_utf8(text);
    assert forall|other: Seq<char>| #[trigger] encode_utf8(other) == encode_utf8(text) implies other
        == text by {
        encode_utf8_decode_utf8(other);
    }
}

/// The body of a PASSWORD-ALGORITHM holds the algorithm that it was made of.
pub proof fn lemma_algorithm(algorithm: PasswordAlgorithm)
    ensures
        algorithm_failure(algorithm.bytes(), 0) is None,
        PasswordAlgorithm::of_id(u16_at(algorithm.bytes(), 0)) == Some(algorithm),
{
    lemma_be16_value(algorithm.spec_id());
    lemma_be16_value(0);
    let bytes = algorithm.bytes();
    assert(bytes[0] == be16(algorithm.spec_id())[0] && bytes[1] == be16(algorithm.spec_id())[1]);
    assert(bytes[2] == be16(0)[0] && bytes[3] == be16(0)[1]);
}

/// A FINGERPRINT put behind a message is its last attribute and holds
/// the fingerprint of the bytes in front of it.
pub proof fn lemma_fingerprint_appended(front: Seq<u8>)
    requires
        is_message(front),
        walk(front, 20, front.len() as int) is Some,
        front.len() - 20 + 8 <= 0xFFFF,
    ensures
        ({
            let grown = appended(front, FINGERPRINT, be32(fingerprint_of(covered(front, 4))));
            &&& ends_with_fingerprint(grown)
            &&& walk(grown, 20, grown.len() as int) is Some
            &&& attributes_of(grown).len() > 0
            &&& attributes_of(grown).last().offset == grown.len() - 4
            &&& attributes_of(grown).last().len == 4
        }),
{
    let value = be32(fingerprint_of(covered(front, 4)));
    let grown = appended(front, FINGERPRINT, value);
    lemma_appended_parts(front, FINGERPRINT, value);
    lemma_appended_kept(front, FINGERPRINT, value);
    lemma_walk_extends(front, grown, 20, front.len() as int, FINGERPRINT, 4);
    lemma_fingerprint_last(front);
    assert(attributes_of(grown).last() == appended_meta(front, FINGERPRINT, value));
}

} // verus!
