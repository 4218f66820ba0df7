//! Holding the MACs of a received message against a key.

use vstd::prelude::*;
use vstd::slice::{slice_subrange, slice_to_vec};

use super::attributes::{value_at, Attribute, MessageIntegrity, MessageIntegritySha256};
use super::authorization::Integrity;
use super::hash::{hmac_sha1, hmac_sha256, mac_sha1, mac_sha256};
use super::incoming::{incoming_failure, Failure, IncomingError, IncomingErrorTy, IncomingMessage};
use super::meta::{
    declared_end, header_failure, lemma_last_heeded, lemma_walk_bounds, parsed, walk,
    AttributeMeta, Header, MessageMeta, MESSAGE_INTEGRITY, MESSAGE_INTEGRITY_SHA256,
};
use super::wire::{covered, padded, u16_at, write_u16};

verus! {

/// What the MAC of the integrity attribute at `meta` covers: all of `buf`
/// in front of the header of the attribute, with a length field that
/// counts the attributes up to this one and no more.
pub open spec fn protected(buf: Seq<u8>, meta: AttributeMeta) -> Seq<u8> {
    covered(buf.subrange(0, meta.offset - 4), meta.len as int)
}

/// Whether the MESSAGE-INTEGRITY that a receiver of `buf` goes by holds
/// the HMAC-SHA1 under `key` of what it covers.
pub open spec fn sha1_verifies(buf: Seq<u8>, header: Header, key: Seq<u8>) -> bool {
    header.find(MessageIntegrity::TY) matches Some(i) && header.attributes[i].len == 20
        && value_at(buf, header.attributes[i]) == hmac_sha1(
        key,
        protected(buf, header.attributes[i]),
    )@
}

/// Whether the MESSAGE-INTEGRITY-SHA256 that a receiver of `buf` goes by
/// holds the HMAC-SHA256 under `key` of what it covers.
pub open spec fn sha256_verifies(buf: Seq<u8>, header: Header, key: Seq<u8>) -> bool {
    header.find(MessageIntegritySha256::TY) matches Some(i) && header.attributes[i].len == 32
        && value_at(buf, header.attributes[i]) == hmac_sha256(
        key,
        protected(buf, header.attributes[i]),
    )@
}

/// Whether `buf` is a message that carries the integrity attributes of
/// `integrity`, each with the MAC under `key` of what it covers.
pub open spec fn integrity_verifies(buf: Seq<u8>, key: Seq<u8>, integrity: Integrity) -> bool {
    &&& header_failure(buf) is None
    &&& integrity.has_sha1() ==> sha1_verifies(buf, parsed(buf), key)
    &&& integrity.has_sha256() ==> sha256_verifies(buf, parsed(buf), key)
}

/// What a decoder reports for a MAC that is not the one of the message.
pub open spec fn integrity_mismatch() -> Failure {
    (IncomingErrorTy::IntegrityMismatch, "MAC does not match the message."@)
}

/// Whether a MESSAGE-INTEGRITY or a MESSAGE-INTEGRITY-SHA256 that a
/// receiver of `buf` goes by does not hold the MAC under `key`.
pub open spec fn mac_fails(buf: Seq<u8>, header: Header, key: Seq<u8>) -> bool {
    ||| header.find(MessageIntegrity::TY) is Some && !sha1_verifies(buf, header, key)
    ||| header.find(MessageIntegritySha256::TY) is Some && !sha256_verifies(buf, header, key)
}

/// Compares two byte strings in a time that depends on their lengths alone.
pub fn same_bytes(a: &[u8], b: &[u8]) -> (r: bool)
    ensures
        r == (a@ == b@),
{
    if a.len() != b.len() {
        return false;
    }
    let n = a.len();
    let mut difference: u8 = 0;
    let mut i: usize = 0;
    assert(a@.take(0) =~= b@.take(0));
    while i < n
        invariant
            i <= n,
            n == a@.len(),
            n == b@.len(),
            difference == 0 <==> a@.take(i as int) == b@.take(i as int),
        decreases n - i,
    {
        let x = a[i];
        let y = b[i];
        let before = difference;
        difference = difference | (x ^ y);
        assert((before | (x ^ y)) == 0 <==> (before == 0 && x == y)) by (bit_vector);
        proof {
            let p = a@.take(i as int);
            let q = b@.take(i as int);
            let p1 = a@.take(i + 1);
            let q1 = b@.take(i + 1);
            assert(p1.drop_last() =~= p && q1.drop_last() =~= q);
            assert(p1.last() == x && q1.last() == y);
            if p == q && x == y {
                assert(p1 =~= q1);
            }
        }
        i += 1;
    }
    assert(a@.take(n as int) =~= a@ && b@.take(n as int) =~= b@);
    difference == 0
}

/// The bytes that the MAC of the integrity attribute at `meta` covers.
fn protected_bytes(buf: &[u8], meta: &AttributeMeta) -> (r: Vec<u8>)
    requires
        24 <= meta.offset,
        meta.offset + meta.len <= buf@.len(),
        meta.len % 4 == 0,
        meta.offset - 20 + meta.len <= 0xFFFF,
    ensures
        r@ == protected(buf@, *meta),
{
    let mut prefix = slice_to_vec(slice_subrange(buf, 0, meta.offset - 4));
    write_u16(prefix.as_mut_slice(), 2, (meta.offset - 20 + meta.len) as u16);
    prefix
}

/// Whether the MESSAGE-INTEGRITY that a receiver goes by, if there is
/// one, holds the HMAC-SHA1 under `key`.
fn check_sha1(buf: &[u8], meta: &MessageMeta, key: &[u8]) -> (r: Option<bool>)
    requires
        meta.describes(buf@),
    ensures
        r is Some <==> meta@.find(MessageIntegrity::TY) is Some,
        r matches Some(ok) ==> ok == sha1_verifies(buf@, meta@, key@),
        r is None ==> !sha1_verifies(buf@, meta@, key@),
{
    proof {
        MessageIntegrity::lemma_constants();
    }
    match meta.find(MESSAGE_INTEGRITY) {
        None => None,
        Some(i) => {
            let attr = &meta.attributes[i];
            proof {
                lemma_walk_bounds(buf@, 20, declared_end(buf@), i as int);
            }
            if attr.len != 20 {
                return Some(false);
            }
            let covered = protected_bytes(buf, attr);
            let mac = mac_sha1(key, covered.as_slice());
            let value = slice_subrange(buf, attr.offset, attr.offset + attr.len);
            Some(same_bytes(value, mac.as_slice()))
        },
    }
}

/// Whether the MESSAGE-INTEGRITY-SHA256 that a receiver goes by, if there
/// is one, holds the HMAC-SHA256 under `key`.
fn check_sha256(buf: &[u8], meta: &MessageMeta, key: &[u8]) -> (r: Option<bool>)
    requires
        meta.describes(buf@),
    ensures
        r is Some <==> meta@.find(MessageIntegritySha256::TY) is Some,
        r matches Some(ok) ==> ok == sha256_verifies(buf@, meta@, key@),
        r is None ==> !sha256_verifies(buf@, meta@, key@),
{
    proof {
        MessageIntegritySha256::lemma_constants();
    }
    match meta.find(MESSAGE_INTEGRITY_SHA256) {
        None => None,
        Some(i) => {
            let attr = &meta.attributes[i];
            proof {
                lemma_walk_bounds(buf@, 20, declared_end(buf@), i as int);
            }
            if attr.len != 32 {
                return Some(false);
            }
            let covered = protected_bytes(buf, attr);
            let mac = mac_sha256(key, covered.as_slice());
            let value = slice_subrange(buf, attr.offset, attr.offset + attr.len);
            Some(same_bytes(value, mac.as_slice()))
        },
    }
}

/// Whether `buf` is a message that carries the integrity attributes of
/// `integrity`, each with the MAC under `key` of what it covers.
///
/// A MAC covers the message in front of its attribute, with a length
/// field that ends behind the attribute.
pub fn verify_integrity(buf: &[u8], key: &[u8], integrity: Integrity) -> (r: bool)
    ensures
        r == integrity_verifies(buf@, key@, integrity),
{
    let meta = match MessageMeta::decode(buf) {
        Ok(meta) => meta,
        Err(_) => {
            return false;
        },
    };
    if integrity.has_sha1() {
        match check_sha1(buf, &meta, key) {
            Some(true) => {},
            _ => {
                return false;
            },
        }
    }
    if integrity.has_sha256() {
        match check_sha256(buf, &meta, key) {
            Some(true) => {},
            _ => {
                return false;
            },
        }
    }
    true
}

impl IncomingMessage {
    /// Decodes the message that `buf` holds, and holds its MACs against
    /// `key`.
    ///
    /// Fails where `decode` fails, and with `IntegrityMismatch` where a
    /// MESSAGE-INTEGRITY or a MESSAGE-INTEGRITY-SHA256 that a receiver
    /// goes by does not hold the MAC under `key` of what it covers.
    pub fn decode_with_key(buf: &[u8], key: &[u8]) -> (r: Result<Self, IncomingError>)
        ensures
            match incoming_failure(buf@) {
                Some(failure) => r matches Err(e) && e.reports(failure),
                None => if mac_fails(buf@, parsed(buf@), key@) {
                    r matches Err(e) && e.reports(integrity_mismatch())
                } else {
                    r matches Ok(message) && message.describes(buf@)
                },
            },
    {
        let message = match Self::decode(buf) {
            Ok(message) => message,
            Err(e) => {
                return Err(e);
            },
        };
        let meta = match MessageMeta::decode(buf) {
            Ok(meta) => meta,
            Err(e) => {
                return Err(e);
            },
        };
        let sha1 = check_sha1(buf, &meta, key);
        let sha256 = check_sha256(buf, &meta, key);
        match (sha1, sha256) {
            (Some(false), _) | (_, Some(false)) => Err(
                IncomingError::new(
                    IncomingErrorTy::IntegrityMismatch,
                    "MAC does not match the message.",
                ),
            ),
            _ => Ok(message),
        }
    }
}

/// Whether `altered` is `buf` with other bytes in the body of the
/// attribute at `meta`, and nowhere else.
pub open spec fn altered_in(buf: Seq<u8>, altered: Seq<u8>, meta: AttributeMeta) -> bool {
    &&& altered.len() == buf.len()
    &&& altered != buf
    &&& forall|k: int|
        0 <= k < buf.len() && !(meta.offset <= k < meta.offset + meta.len) ==> altered[k] == buf[k]
}

/// The attribute walk does not depend on the body of an attribute:
/// where `b` differs from `a` in the body of attribute `j` of the walk
/// alone, or in front of where the walk starts, the walk is the same.
pub proof fn lemma_walk_same(a: Seq<u8>, b: Seq<u8>, pos: int, end: int, lo: int, hi: int, j: int)
    requires
        0 <= pos <= end <= a.len(),
        end <= usize::MAX,
        a.len() == b.len(),
        walk(a, pos, end) is Some,
        forall|k: int| 0 <= k < a.len() && !(lo <= k < hi) ==> a[k] == b[k],
        (j < 0 && hi <= pos) || (0 <= j < walk(a, pos, end).unwrap().len() && walk(
            a,
            pos,
            end,
        ).unwrap()[j].offset == lo && walk(a, pos, end).unwrap()[j].offset + walk(
            a,
            pos,
            end,
        ).unwrap()[j].len == hi),
    ensures
        walk(b, pos, end) == walk(a, pos, end),
    decreases end - pos,
{
    if pos < end {
        let len = u16_at(a, pos + 2) as int;
        let next = pos + 4 + padded(len);
        if j >= 0 {
            lemma_walk_bounds(a, pos, end, j);
        }
        assert(u16_at(b, pos) == u16_at(a, pos));
        assert(u16_at(b, pos + 2) == u16_at(a, pos + 2));
        if j > 0 {
            let rest = walk(a, next, end).unwrap();
            assert(walk(a, pos, end).unwrap()[j] == rest[j - 1]);
            lemma_walk_same(a, b, next, end, lo, hi, j - 1);
        } else {
            lemma_walk_same(a, b, next, end, lo, hi, -1);
        }
    }
}

/// A message that differs from a valid one in the body of one attribute
/// alone has the same header and the same attribute walk.
pub proof fn lemma_parsed_same(buf: Seq<u8>, altered: Seq<u8>, j: int)
    requires
        header_failure(buf) is None,
        0 <= j < parsed(buf).attributes.len(),
        altered_in(buf, altered, parsed(buf).attributes[j]),
    ensures
        header_failure(altered) is None,
        parsed(altered) == parsed(buf),
{
    let meta = parsed(buf).attributes[j];
    lemma_walk_bounds(buf, 20, declared_end(buf), j);
    lemma_walk_same(
        buf,
        altered,
        20,
        declared_end(buf),
        meta.offset as int,
        meta.offset + meta.len,
        j,
    );
    assert(altered.subrange(8, 20) =~= buf.subrange(8, 20));
}

/// Rejection, as far as it holds of every key: a message that carries
/// the MAC of a MESSAGE-INTEGRITY attribute does so no longer once bytes
/// of this MAC, and no others, are changed.
pub proof fn lemma_altered_sha1_is_rejected(buf: Seq<u8>, altered: Seq<u8>, key: Seq<u8>)
    requires
        header_failure(buf) is None,
        sha1_verifies(buf, parsed(buf), key),
        altered_in(
            buf,
            altered,
            parsed(buf).attributes[parsed(buf).find(MessageIntegrity::TY).unwrap()],
        ),
    ensures
        !sha1_verifies(altered, parsed(altered), key),
        !integrity_verifies(altered, key, Integrity::Sha1),
        !integrity_verifies(altered, key, Integrity::Both),
{
    let header = parsed(buf);
    let j = header.find(MessageIntegrity::TY).unwrap();
    let meta = header.attributes[j];
    lemma_last_heeded(header.attributes, MessageIntegrity::TY, header.attributes.len() as int);
    lemma_walk_bounds(buf, 20, declared_end(buf), j);
    lemma_parsed_same(buf, altered, j);
    assert(protected(altered, meta) =~= protected(buf, meta));
    if value_at(altered, meta) == value_at(buf, meta) {
        assert forall|k: int| 0 <= k < buf.len() implies altered[k] == buf[k] by {
            if meta.offset <= k < meta.offset + meta.len {
                assert(altered[k] == value_at(altered, meta)[k - meta.offset]);
                assert(buf[k] == value_at(buf, meta)[k - meta.offset]);
            }
        }
        assert(altered =~= buf);
    }
}

/// Rejection, as far as it holds of every key: a message that carries
/// the MAC of a MESSAGE-INTEGRITY-SHA256 attribute does so no longer
/// once bytes of this MAC, and no others, are changed.
pub proof fn lemma_altered_sha256_is_rejected(buf: Seq<u8>, altered: Seq<u8>, key: Seq<u8>)
    requires
        header_failure(buf) is None,
        sha256_verifies(buf, parsed(buf), key),
        altered_in(
            buf,
            altered,
            parsed(buf).attributes[parsed(buf).find(MessageIntegritySha256::TY).unwrap()],
        ),
    ensures
        !sha256_verifies(altered, parsed(altered), key),
        !integrity_verifies(altered, key, Integrity::Sha256),
        !integrity_verifies(altered, key, Integrity::Both),
{
    let header = parsed(buf);
    let j = header.find(MessageIntegritySha256::TY).unwrap();
    let meta = header.attributes[j];
    lemma_last_heeded(
        header.attributes,
        MessageIntegritySha256::TY,
        header.attributes.len() as int,
    );
    lemma_walk_bounds(buf, 20, declared_end(buf), j);
    lemma_parsed_same(buf, altered, j);
    assert(protected(altered, meta) =~= protected(buf, meta));
    if value_at(altered, meta) == value_at(buf, meta) {
        assert forall|k: int| 0 <= k < buf.len() implies altered[k] == buf[k] by {
            if meta.offset <= k < meta.offset + meta.len {
                assert(altered[k] == value_at(altered, meta)[k - meta.offset]);
                assert(buf[k] == value_at(buf, meta)[k - meta.offset]);
            }
        }
        assert(altered =~= buf);
    }
}

} // verus!
