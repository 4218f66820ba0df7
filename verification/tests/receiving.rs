//! What a receiver heeds of the attributes of a message.

use flashbang::message::attributes::{Software, Username};
use flashbang::message::methods::Binding;
use flashbang::message::{
    short_term_key, verify_integrity, AttributeMeta, Authorization, ClassTy, Credentials,
    IncomingMessage, Integrity, MessageMeta, OpaqueAttribute, OutgoingMessage, Request,
    TransactionId,
};

fn request(integrity: Option<Integrity>) -> Vec<u8> {
    let message = OutgoingMessage {
        transaction_id: TransactionId::new(0x0102030405060708090a0b0c),
        body: Request {
            method: Binding,
            authorization: integrity.map(|integrity| Authorization {
                credentials: Credentials::new_short_term(Username::new("Alice"), "Password"),
                integrity,
            }),
        },
        software: false,
        fingerprint: false,
    };
    message.encode().to_vec()
}

/// `buf` with one more attribute behind it, the length field counting it.
fn with(mut buf: Vec<u8>, ty: u16, value: &[u8]) -> Vec<u8> {
    buf.extend_from_slice(&ty.to_be_bytes());
    buf.extend_from_slice(&(value.len() as u16).to_be_bytes());
    buf.extend_from_slice(value);
    while buf.len() % 4 != 0 {
        buf.push(0);
    }
    let len = (buf.len() - 20) as u16;
    buf[2..4].copy_from_slice(&len.to_be_bytes());
    buf
}

fn username(message: &IncomingMessage) -> Option<&str> {
    let ClassTy::Request { authorization, .. } = &message.body;
    authorization.as_ref().and_then(|a| a.username.as_ref()).map(|u| u.as_str())
}

#[test]
fn header_and_walk() {
    let buf = request(Some(Integrity::Sha1));
    let meta = MessageMeta::decode(&buf).ok().expect("header is valid");
    assert_eq!(meta.class, 0);
    assert_eq!(meta.method, 1);
    assert_eq!(meta.id, TransactionId::new(0x0102030405060708090a0b0c));
    assert_eq!(
        meta.attributes,
        vec![
            AttributeMeta { ty: 0x0006, offset: 24, len: 5 },
            AttributeMeta { ty: 0x0008, offset: 36, len: 20 },
        ]
    );
    assert_eq!(meta.find(0x0006), Some(0));
    assert_eq!(meta.find(0x0008), Some(1));
    assert_eq!(meta.find(0x8028), None);
}

#[test]
fn every_class_and_method_unpacks() {
    for class in 0..4u16 {
        for method in [0u16, 1, 2, 0x00f, 0x010, 0x070, 0x080, 0xf80, 0xfff, 0xabc] {
            let ty = ((method & 0x1F80) << 2)
                | ((method & 0x0070) << 1)
                | (method & 0x000F)
                | ((class & 0x0002) << 7)
                | ((class & 0x0001) << 4);
            let mut buf = request(None);
            buf[0..2].copy_from_slice(&ty.to_be_bytes());
            let meta = MessageMeta::decode(&buf).ok().expect("header is valid");
            assert_eq!((meta.class, meta.method), (class, method));
        }
    }
}

#[test]
fn attributes_behind_the_integrity_are_passed_over() {
    let key = short_term_key("Password");
    let buf = request(Some(Integrity::Sha1));
    // a second USERNAME, SOFTWARE and an unknown comprehension-required
    // attribute behind MESSAGE-INTEGRITY
    let buf = with(buf, 0x0006, b"Mallory");
    let buf = with(buf, 0x8022, b"agent");
    let buf = with(buf, 0x7f00, b"");
    let message = IncomingMessage::decode(&buf).expect("what stands behind is passed over");
    assert_eq!(username(&message), Some("Alice"));
    assert_eq!(message.software, None);
    assert!(message.unknown.is_empty());
    assert!(verify_integrity(&buf, &key, Integrity::Sha1));
    let meta = MessageMeta::decode(&buf).ok().unwrap();
    assert_eq!(meta.find(0x0006), Some(0));
    assert_eq!(meta.find(0x8022), None);
    assert_eq!(meta.unknown_attributes().attributes().len(), 0);
}

#[test]
fn sha256_behind_sha1_is_heeded_and_sha1_behind_sha256_is_not() {
    let buf = request(Some(Integrity::Both));
    let meta = MessageMeta::decode(&buf).ok().unwrap();
    assert_eq!(meta.find(0x0008), Some(1));
    assert_eq!(meta.find(0x001C), Some(2));

    let buf = with(request(Some(Integrity::Sha256)), 0x0008, &[0u8; 20]);
    let meta = MessageMeta::decode(&buf).ok().unwrap();
    assert_eq!(meta.find(0x001C), Some(1));
    assert_eq!(meta.find(0x0008), None);
    let ClassTy::Request { authorization, .. } = IncomingMessage::decode(&buf).unwrap().body;
    let view = authorization.unwrap();
    assert!(view.integrity.is_none());
    assert!(view.integrity_sha256.is_some());
}

#[test]
fn the_last_of_two_attributes_of_a_type_counts() {
    let buf = with(with(request(None), 0x0006, b"first"), 0x0006, b"second");
    let message = IncomingMessage::decode(&buf).unwrap();
    assert_eq!(username(&message), Some("second"));
}

#[test]
fn unknown_optional_attributes_are_handed_on() {
    let buf = with(with(with(request(None), 0x8022, b"agent"), 0xc001, b"abc"), 0x8fff, b"");
    let message = IncomingMessage::decode(&buf).unwrap();
    assert_eq!(message.software, Some(Software::new("agent")));
    assert_eq!(
        message.unknown,
        vec![
            OpaqueAttribute { ty: 0xc001, value: b"abc".to_vec() },
            OpaqueAttribute { ty: 0x8fff, value: vec![] },
        ]
    );
    let ClassTy::Request { authorization, .. } = message.body;
    assert!(authorization.is_none());
}

#[test]
fn a_fingerprint_counts_at_the_end_alone() {
    let crc = flashbang::message::crc::checksum;
    // a FINGERPRINT in the middle is not held against the message
    let buf = with(with(request(None), 0x8028, &[1, 2, 3, 4]), 0x8022, b"agent");
    let message = IncomingMessage::decode(&buf).unwrap();
    assert_eq!(message.fingerprint, None);
    // one at the end is
    let mut buf = with(request(None), 0x8028, &[0, 0, 0, 0]);
    let n = buf.len();
    assert!(IncomingMessage::decode(&buf).is_err());
    let fingerprint = crc(&buf[..n - 8]) ^ 0x5354554E;
    buf[n - 4..].copy_from_slice(&fingerprint.to_be_bytes());
    let message = IncomingMessage::decode(&buf).unwrap();
    assert_eq!(
        message.fingerprint,
        Some(flashbang::message::attributes::Fingerprint::Incoming { fingerprint })
    );
}
