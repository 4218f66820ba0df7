//! What holds of every encoded message, on a range of messages.

use flashbang::message::attributes::{
    Nonce, PasswordAlgorithm, Realm, Software, TransportAddress, Userhash, Username,
    MD5_PASSWORD_ALGORITHM, SHA256_PASSWORD_ALGORITHM,
};
use flashbang::message::crc::checksum;
use flashbang::message::methods::{Binding, MethodTy};
use flashbang::message::{
    verify_integrity, Authorization, ClassTy, Credentials, IncomingMessage, Integrity,
    OutgoingMessage, Request, TransactionId, SOFTWARE_DESCRIPTION,
};
use hmac::Mac;
use sha2::Digest;

fn credentials(long_term: bool, anonymity: bool, algorithm: Option<PasswordAlgorithm>) -> Credentials {
    if long_term {
        Credentials::new_long_term(
            Username::new("b\u{00F6}b"),
            Nonce::new("f//499k954d6OL34oL9FSTvy64sA"),
            Realm::new("example.org"),
            "s3cret",
            anonymity,
            algorithm,
        )
    } else {
        Credentials::new_short_term(Username::new("Alice"), "Password")
    }
}

/// Requests of every shape: with and without authorization, each kind
/// of credentials and integrity, with and without SOFTWARE and
/// FINGERPRINT.
fn requests() -> Vec<OutgoingMessage<Request<Binding>>> {
    let mut all = Vec::new();
    for software in [false, true] {
        for fingerprint in [false, true] {
            all.push(OutgoingMessage {
                transaction_id: TransactionId::new(0xa1a2a3a4a5a6a7a8a9aaabac),
                body: Request { method: Binding, authorization: None },
                software,
                fingerprint,
            });
            for integrity in [Integrity::Both, Integrity::Sha1, Integrity::Sha256] {
                for (long_term, anonymity, algorithm) in [
                    (false, false, None),
                    (true, false, None),
                    (true, true, None),
                    (true, false, Some(MD5_PASSWORD_ALGORITHM)),
                    (true, true, Some(SHA256_PASSWORD_ALGORITHM)),
                ] {
                    all.push(OutgoingMessage {
                        transaction_id: TransactionId::new(0xa1a2a3a4a5a6a7a8a9aaabac),
                        body: Request {
                            method: Binding,
                            authorization: Some(Authorization {
                                credentials: credentials(long_term, anonymity, algorithm),
                                integrity,
                            }),
                        },
                        software,
                        fingerprint,
                    });
                }
            }
        }
    }
    all
}

#[test]
fn alignment_length_and_magic() {
    for request in requests() {
        let bytes = request.encode();
        assert_eq!(bytes.len(), request.size());
        assert_eq!(bytes.len() % 4, 0);
        assert_eq!(u16::from_be_bytes([bytes[2], bytes[3]]) as usize, bytes.len() - 20);
        assert_eq!(&bytes[4..8], &0x2112A442u32.to_be_bytes());
        assert_eq!(&bytes[0..2], &[0x00, 0x01]);
        assert_eq!(&bytes[8..20], &request.transaction_id.0);
        assert_eq!(request.try_encode().as_deref(), Some(&bytes[..]));
    }
}

#[test]
fn fingerprint_covers_what_stands_in_front() {
    for request in requests() {
        let bytes = request.encode();
        let n = bytes.len();
        if request.fingerprint {
            assert_eq!(&bytes[n - 8..n - 4], &[0x80, 0x28, 0x00, 0x04]);
            let fingerprint = u32::from_be_bytes([bytes[n - 4], bytes[n - 3], bytes[n - 2], bytes[n - 1]]);
            assert_eq!(fingerprint, checksum(&bytes[..n - 8]) ^ 0x5354554E);
        }
    }
}

#[test]
fn crc32_check_value() {
    assert_eq!(checksum(b"123456789"), 0xCBF43926);
    assert_eq!(checksum(b""), 0);
}

/// Where the attribute of type `ty` starts in `bytes`.
fn attribute(bytes: &[u8], ty: u16) -> Option<usize> {
    let mut pos = 20;
    while pos < bytes.len() {
        let len = u16::from_be_bytes([bytes[pos + 2], bytes[pos + 3]]) as usize;
        if u16::from_be_bytes([bytes[pos], bytes[pos + 1]]) == ty {
            return Some(pos);
        }
        pos += 4 + (len + 3) / 4 * 4;
    }
    None
}

#[test]
fn integrity_covers_what_stands_in_front() {
    for request in requests() {
        let Some(authorization) = &request.body.authorization else {
            continue;
        };
        let key = authorization.credentials.key();
        let bytes = request.encode();
        assert!(verify_integrity(&bytes, &key, authorization.integrity));

        if let Some(at) = attribute(&bytes, 0x0008) {
            let mut covered = bytes[..at].to_vec();
            covered[2..4].copy_from_slice(&((at + 24 - 20) as u16).to_be_bytes());
            let mut mac = <hmac::Hmac<sha1::Sha1> as Mac>::new_from_slice(&key).unwrap();
            mac.update(&covered);
            assert_eq!(&bytes[at + 4..at + 24], &mac.finalize().into_bytes()[..]);
            assert!(authorization.integrity != Integrity::Sha256);
        } else {
            assert!(authorization.integrity == Integrity::Sha256);
        }
        if let Some(at) = attribute(&bytes, 0x001C) {
            let mut covered = bytes[..at].to_vec();
            covered[2..4].copy_from_slice(&((at + 36 - 20) as u16).to_be_bytes());
            let mut mac = <hmac::Hmac<sha2::Sha256> as Mac>::new_from_slice(&key).unwrap();
            mac.update(&covered);
            assert_eq!(&bytes[at + 4..at + 36], &mac.finalize().into_bytes()[..]);
            if !request.software && !request.fingerprint {
                // the last attribute: the length field is the one of the message
                assert_eq!(covered, &bytes[..at]);
            }
        } else {
            assert!(authorization.integrity == Integrity::Sha1);
        }
    }
}

#[test]
fn round_trip() {
    for request in requests() {
        let bytes = request.encode();
        let message = IncomingMessage::decode(&bytes).expect("an encoded message decodes");
        assert_eq!(message.transaction_id, request.transaction_id);
        assert!(message.unknown.is_empty());
        let ClassTy::Request { method, authorization } = message.body;
        assert_eq!(method, MethodTy::Binding(Binding));
        match (&request.body.authorization, authorization) {
            (None, None) => {
                let software = Software::new(SOFTWARE_DESCRIPTION);
                assert_eq!(message.software, if request.software { Some(software) } else { None });
            }
            (Some(sent), Some(view)) => {
                assert_eq!(message.software, None);
                match &sent.credentials {
                    Credentials::LongTerm { username, nonce, realm, anonymity, algorithm, .. } => {
                        if *anonymity {
                            assert_eq!(view.username, None);
                            assert_eq!(
                                view.userhash,
                                Some(Userhash::new(username.clone(), realm.clone()))
                            );
                        } else {
                            assert_eq!(view.username.as_ref(), Some(username));
                            assert_eq!(view.userhash, None);
                        }
                        assert_eq!(view.nonce.as_ref(), Some(nonce));
                        assert_eq!(view.realm.as_ref(), Some(realm));
                        assert_eq!(view.algorithm, *algorithm);
                    }
                    Credentials::ShortTerm { username, .. } => {
                        assert_eq!(view.username.as_ref(), Some(username));
                        assert_eq!(view.userhash, None);
                        assert_eq!(view.nonce, None);
                        assert_eq!(view.realm, None);
                        assert_eq!(view.algorithm, None);
                    }
                }
                assert_eq!(view.integrity.is_some(), sent.integrity.has_sha1());
                assert_eq!(view.integrity_sha256.is_some(), sent.integrity.has_sha256());
            }
            _ => panic!("authorization does not show as it was sent"),
        }
        match message.fingerprint {
            Some(flashbang::message::attributes::Fingerprint::Incoming { fingerprint }) => {
                assert!(request.fingerprint);
                assert_eq!(fingerprint, checksum(&bytes[..bytes.len() - 8]) ^ 0x5354554E);
            }
            Some(_) => panic!("a decoded fingerprint carries its value"),
            None => assert!(!request.fingerprint),
        }
    }
}

#[test]
fn xor_is_an_involution() {
    let ids = [TransactionId::new(0), TransactionId::new(0x78ad3433c6ad72c029da412e), TransactionId::new(u128::MAX)];
    let addresses = [
        TransportAddress::V4 { octets: [192, 0, 2, 1], port: 32853 },
        TransportAddress::V4 { octets: [0, 0, 0, 0], port: 0 },
        TransportAddress::V6 {
            octets: [0x20, 0x01, 0x0d, 0xb8, 0x12, 0x34, 0x56, 0x78, 0x00, 0x11, 0x22, 0x33, 0x44, 0x55, 0x66, 0x77],
            port: 32853,
        },
        TransportAddress::V6 { octets: [0xff; 16], port: 0xffff },
    ];
    for id in &ids {
        for address in &addresses {
            assert_eq!(address.xor(id).xor(id), *address);
        }
    }
    // the obfuscated forms of the sample response of RFC 5769
    let id = TransactionId([0xb7, 0xe7, 0xa7, 0x01, 0xbc, 0x34, 0xd6, 0x86, 0xfa, 0x87, 0xdf, 0xae]);
    assert_eq!(
        addresses[0].xor(&id),
        TransportAddress::V4 { octets: [0xe1, 0x12, 0xa6, 0x43], port: 0xa147 }
    );
    assert_eq!(
        addresses[2].xor(&id),
        TransportAddress::V6 {
            octets: [0x01, 0x13, 0xa9, 0xfa, 0xa5, 0xd3, 0xf1, 0x79, 0xbc, 0x25, 0xf4, 0xb5, 0xbe, 0xd2, 0xb9, 0xd9],
            port: 0xa147,
        }
    );
}

#[test]
fn userhash_is_sha256_of_username_colon_realm() {
    let userhash = Userhash::new(
        Username::new("\u{30DE}\u{30C8}\u{30EA}\u{30C3}\u{30AF}\u{30B9}"),
        Realm::new("example.org"),
    );
    let mut hasher = sha2::Sha256::new();
    hasher.update("\u{30DE}\u{30C8}\u{30EA}\u{30C3}\u{30AF}\u{30B9}:example.org".as_bytes());
    let expected: [u8; 32] = hasher.finalize().into();
    assert_eq!(userhash.as_array(), expected);
    assert_eq!(
        userhash.as_array(),
        [
            0x4a, 0x3c, 0xf3, 0x8f, 0xef, 0x69, 0x92, 0xbd, 0xa9, 0x52, 0xc6, 0x78, 0x04, 0x17,
            0xda, 0x0f, 0x24, 0x81, 0x94, 0x15, 0x56, 0x9e, 0x60, 0xb2, 0x05, 0xc4, 0x6e, 0x41,
            0x40, 0x7f, 0x17, 0x04,
        ]
    );
}

#[test]
fn keys() {
    // the key of RFC 5389, section 15.4
    let key = flashbang::message::long_term_key(&Username::new("user"), &Realm::new("realm"), "pass", None);
    assert_eq!(
        &key[..],
        &[0x84, 0x93, 0xfb, 0xc5, 0x3b, 0xa5, 0x82, 0xfb, 0x4c, 0x04, 0x4c, 0x45, 0x6b, 0xdc, 0x40, 0xeb]
    );
    let md5 = flashbang::message::long_term_key(
        &Username::new("user"),
        &Realm::new("realm"),
        "pass",
        Some(MD5_PASSWORD_ALGORITHM),
    );
    assert_eq!(key, md5);
    let sha256 = flashbang::message::long_term_key(
        &Username::new("user"),
        &Realm::new("realm"),
        "pass",
        Some(SHA256_PASSWORD_ALGORITHM),
    );
    let mut hasher = sha2::Sha256::new();
    hasher.update(b"user:realm:pass");
    assert_eq!(&sha256[..], &hasher.finalize()[..]);
    assert_eq!(&flashbang::message::short_term_key("Password")[..], b"Password");
    assert_eq!(&MD5_PASSWORD_ALGORITHM.hash(b"")[..], &[
        0xd4, 0x1d, 0x8c, 0xd9, 0x8f, 0x00, 0xb2, 0x04, 0xe9, 0x80, 0x09, 0x98, 0xec, 0xf8, 0x42, 0x7e
    ]);
}

#[test]
fn transaction_ids() {
    assert_eq!(TransactionId::new(32).0, [0, 0, 0, 0, 0, 0, 0, 0, 0, 0, 0, 32]);
    assert_eq!(
        TransactionId::new(0x78ad3433c6ad72c029da412e).0,
        [0x78, 0xad, 0x34, 0x33, 0xc6, 0xad, 0x72, 0xc0, 0x29, 0xda, 0x41, 0x2e]
    );
    // the top 32 bits are discarded
    assert_eq!(TransactionId::new(0xdeadbeef_000000000000000000000001), TransactionId::new(1));
    assert!(TransactionId::new(5).same(&TransactionId::new(5)));
    assert!(!TransactionId::new(5).same(&TransactionId::new(6)));
    let random = TransactionId::default();
    assert_eq!(random.0.len(), 12);
}

#[test]
fn usernames_of_more_than_513_bytes_do_not_encode() {
    let request = |len: usize| OutgoingMessage {
        transaction_id: TransactionId::new(1),
        body: Request {
            method: Binding,
            authorization: Some(Authorization {
                credentials: Credentials::new_short_term(Username::new(&"u".repeat(len)), "Password"),
                integrity: Integrity::Sha1,
            }),
        },
        software: false,
        fingerprint: false,
    };
    let longest = request(513).try_encode().expect("513 bytes are allowed");
    assert_eq!(longest.len(), 20 + 4 + 516 + 24);
    assert!(request(514).try_encode().is_none());
}
