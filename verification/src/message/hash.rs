//! The hash functions and MACs of the RustCrypto crates, as the codec uses
//! them: each takes bytes and gives a digest of fixed size.

use hmac::Mac;
use sha2::Digest;
use vstd::prelude::*;

verus! {

/// The MD5 digest of `data`.
pub uninterp spec fn md5(data: Seq<u8>) -> [u8; 16];

/// The SHA-256 digest of `data`.
pub uninterp spec fn sha256(data: Seq<u8>) -> [u8; 32];

/// The HMAC-SHA1 of `data` under `key`.
pub uninterp spec fn hmac_sha1(key: Seq<u8>, data: Seq<u8>) -> [u8; 20];

/// The HMAC-SHA256 of `data` under `key`.
pub uninterp spec fn hmac_sha256(key: Seq<u8>, data: Seq<u8>) -> [u8; 32];

/// Runs `md5::Md5` of the `md-5` crate over `data`: a new hasher, one
/// `update` with all of `data`, then `finalize`. Trusted: the sixteen bytes
/// that come out are what the contracts call `md5(data)`; they depend on
/// `data` alone.
#[verifier::external_body]
pub(crate) fn digest_md5(data: &[u8]) -> (digest: [u8; 16])
    ensures
        digest == md5(data@),
{
    let mut hasher = md5::Md5::new();
    hasher.update(data);
    hasher.finalize().into()
}

/// Runs `sha2::Sha256` over `data`: a new hasher, one `update` with all of
/// `data`, then `finalize`. Trusted: the thirty-two bytes that come out are
/// what the contracts call `sha256(data)`; they depend on `data` alone.
#[verifier::external_body]
pub(crate) fn digest_sha256(data: &[u8]) -> (digest: [u8; 32])
    ensures
        digest == sha256(data@),
{
    let mut hasher = sha2::Sha256::new();
    hasher.update(data);
    hasher.finalize().into()
}

/// Runs `hmac::Hmac<sha1::Sha1>` over `data`: `new_from_slice` with `key`
/// (which accepts a key of any length), one `update`, then `finalize` and
/// `into_bytes`. Trusted: the twenty bytes that come out are what the
/// contracts call `hmac_sha1(key, data)`; they depend on the two alone.
#[verifier::external_body]
pub(crate) fn mac_sha1(key: &[u8], data: &[u8]) -> (mac: [u8; 20])
    ensures
        mac == hmac_sha1(key@, data@),
{
    let mut mac = <hmac::Hmac<sha1::Sha1> as Mac>::new_from_slice(key).unwrap();
    mac.update(data);
    mac.finalize().into_bytes().into()
}

/// Runs `hmac::Hmac<sha2::Sha256>` over `data`: `new_from_slice` with `key`
/// (which accepts a key of any length), one `update`, then `finalize` and
/// `into_bytes`. Trusted: the thirty-two bytes that come out are what the
/// contracts call `hmac_sha256(key, data)`; they depend on the two alone.
#[verifier::external_body]
pub(crate) fn mac_sha256(key: &[u8], data: &[u8]) -> (mac: [u8; 32])
    ensures
        mac == hmac_sha256(key@, data@),
{
    let mut mac = <hmac::Hmac<sha2::Sha256> as Mac>::new_from_slice(key).unwrap();
    mac.update(data);
    mac.finalize().into_bytes().into()
}

} // verus!
