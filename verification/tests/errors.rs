//! Every kind of decode failure, on the smallest change of a valid
//! message that gives it.

use flashbang::message::attributes::Username;
use flashbang::message::methods::Binding;
use flashbang::message::{
    short_term_key, verify_integrity, Authorization, Credentials, IncomingErrorTy,
    IncomingMessage, Integrity, MessageMeta, OutgoingMessage, Request, TransactionId,
};

fn request(integrity: Integrity, fingerprint: bool) -> Vec<u8> {
    let message = OutgoingMessage {
        transaction_id: TransactionId::new(0x0102030405060708090a0b0c),
        body: Request {
            method: Binding,
            authorization: Some(Authorization {
                credentials: Credentials::new_short_term(Username::new("Alice"), "Password"),
                integrity,
            }),
        },
        software: false,
        fingerprint,
    };
    message.encode().to_vec()
}

fn plain() -> Vec<u8> {
    let message = OutgoingMessage {
        transaction_id: TransactionId::new(7),
        body: Request { method: Binding, authorization: None },
        software: false,
        fingerprint: false,
    };
    message.encode().to_vec()
}

fn kind(buf: &[u8]) -> IncomingErrorTy {
    IncomingMessage::decode(buf).expect_err("decoding has to fail").ty
}

fn reason(buf: &[u8]) -> String {
    IncomingMessage::decode(buf).expect_err("decoding has to fail").reason
}

#[test]
fn too_short_for_a_header() {
    let buf = plain();
    assert_eq!(kind(&buf[..16]), IncomingErrorTy::BadLength);
    assert_eq!(reason(&buf[..16]), "Message length was too small for 20-byte header.");
    assert_eq!(kind(&[]), IncomingErrorTy::BadLength);
}

#[test]
fn length_not_aligned() {
    let mut buf = plain();
    buf.push(0);
    assert_eq!(kind(&buf), IncomingErrorTy::BadLength);
    assert_eq!(reason(&buf), "Message length must be aligned to a 32-bit boundary.");
}

#[test]
fn top_bits_of_type_set() {
    let mut buf = plain();
    buf[0] = 0x80;
    assert_eq!(kind(&buf), IncomingErrorTy::BadFormat);
    assert_eq!(reason(&buf), "The first two bits MUST be zero.");
    buf[0] = 0x40;
    assert_eq!(kind(&buf), IncomingErrorTy::BadFormat);
}

#[test]
fn wrong_magic() {
    let mut buf = plain();
    buf[7] = 0x43;
    assert_eq!(kind(&buf), IncomingErrorTy::BadMagic);
    assert_eq!(reason(&buf), "Magic number was incorrect.");
}

#[test]
fn declared_length_exceeds_buffer() {
    let mut buf = plain();
    buf[3] = 4;
    assert_eq!(kind(&buf), IncomingErrorTy::BadLength);
    assert_eq!(reason(&buf), "Declared length exceeds the message.");
}

#[test]
fn attribute_walk_overshoots() {
    // USERNAME of five bytes announced, but the declared length ends
    // behind its fourth byte.
    let mut buf = request(Integrity::Sha1, false);
    buf.truncate(28);
    buf[2] = 0;
    buf[3] = 8;
    assert_eq!(kind(&buf), IncomingErrorTy::BadLength);
    assert_eq!(reason(&buf), "Attributes do not end at the declared length.");
    // A declared length that ends inside an attribute header.
    let mut buf = plain();
    buf.extend_from_slice(&[0x80, 0x22, 0x00, 0x00]);
    buf[3] = 2;
    assert_eq!(kind(&buf), IncomingErrorTy::BadLength);
}

#[test]
fn trailing_bytes_behind_the_declared_length_are_passed_over() {
    let mut buf = plain();
    buf.extend_from_slice(&[0xff, 0xff, 0xff, 0xff]);
    let message = IncomingMessage::decode(&buf).expect("decoding has to succeed");
    assert_eq!(message.transaction_id, TransactionId::new(7));
}

#[test]
fn unknown_class() {
    // type 0x0011: Binding indication
    let mut buf = plain();
    buf[1] = 0x11;
    assert_eq!(kind(&buf), IncomingErrorTy::UnknownClass);
    assert_eq!(reason(&buf), "Unknown class: 0x1.");
    // type 0x0111: Binding error response
    buf[0] = 0x01;
    assert_eq!(reason(&buf), "Unknown class: 0x3.");
}

#[test]
fn unknown_method() {
    let mut buf = plain();
    buf[1] = 0x02;
    assert_eq!(kind(&buf), IncomingErrorTy::UnknownMethod);
    assert_eq!(reason(&buf), "Unknown method: 0x2.");
    buf[0] = 0x3e;
    buf[1] = 0xef;
    assert_eq!(reason(&buf), "Unknown method: 0xfff.");
}

#[test]
fn unknown_comprehension_required_attribute() {
    let mut buf = plain();
    buf.extend_from_slice(&[0x7f, 0x00, 0x00, 0x00]);
    buf[3] = 4;
    assert_eq!(kind(&buf), IncomingErrorTy::UnknownComprehensionRequiredAttribute);
    assert_eq!(reason(&buf), "Unknown comprehension-required attribute: 0x7f00.");
    let unknown = MessageMeta::decode(&buf).ok().expect("header is valid").unknown_attributes();
    assert_eq!(unknown.attributes(), &vec![0x7f00]);
}

#[test]
fn bad_utf8() {
    let mut buf = request(Integrity::Sha1, false);
    // first byte of "Alice"
    assert_eq!(buf[24], b'A');
    buf[24] = 0xff;
    assert_eq!(kind(&buf), IncomingErrorTy::BadUtf8);
    assert_eq!(reason(&buf), "Attribute value is not valid UTF-8.");
}

#[test]
fn fingerprint_mismatch() {
    let buf = request(Integrity::Sha1, true);
    assert!(IncomingMessage::decode(&buf).is_ok());
    let mut flipped = buf.clone();
    let last = flipped.len() - 1;
    flipped[last] ^= 0x01;
    assert_eq!(kind(&flipped), IncomingErrorTy::FingerprintMismatch);
    // a flip in front of the fingerprint shows too
    let mut flipped = buf.clone();
    flipped[40] ^= 0x10;
    assert_eq!(kind(&flipped), IncomingErrorTy::FingerprintMismatch);
}

#[test]
fn integrity_mismatch() {
    let buf = request(Integrity::Both, false);
    let key = short_term_key("Password");
    assert!(IncomingMessage::decode_with_key(&buf, &key).is_ok());
    let wrong = short_term_key("password");
    let error = IncomingMessage::decode_with_key(&buf, &wrong).expect_err("wrong key");
    assert_eq!(error.ty, IncomingErrorTy::IntegrityMismatch);
    assert_eq!(error.reason, "MAC does not match the message.");
    // a message without integrity attributes has no MAC to fail
    assert!(IncomingMessage::decode_with_key(&plain(), &wrong).is_ok());
    // but it does not verify
    assert!(!verify_integrity(&plain(), &key, Integrity::Sha1));
}

#[test]
fn wrong_size_of_a_fixed_attribute() {
    // MESSAGE-INTEGRITY with a body of four bytes
    let mut buf = plain();
    buf.extend_from_slice(&[0x00, 0x08, 0x00, 0x04, 1, 2, 3, 4]);
    buf[3] = 8;
    assert_eq!(kind(&buf), IncomingErrorTy::BadLength);
    assert_eq!(reason(&buf), "Attribute value has the wrong length.");
}
