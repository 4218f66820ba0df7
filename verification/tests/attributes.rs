//! The attributes one by one: what each puts on the wire and what each
//! reads from it.

use flashbang::message::attributes::{
    encode_attribute, AlternateDomain, AlternateServer, Attribute, ErrorCode, Fingerprint,
    MappedAddress, MessageIntegrity, MessageIntegritySha256, Nonce, PasswordAlgorithm,
    PasswordAlgorithms, Realm, Software, TransportAddress, UnknownAttributes, Userhash, Username,
    XorMappedAddress, MD5_PASSWORD_ALGORITHM, SHA256_PASSWORD_ALGORITHM,
};
use flashbang::message::{
    AttributeMeta, IncomingError, IncomingErrorTy, MessageMeta, TransactionId,
};
use hmac::Mac;

const ID: TransactionId =
    TransactionId([0xb7, 0xe7, 0xa7, 0x01, 0xbc, 0x34, 0xd6, 0x86, 0xfa, 0x87, 0xdf, 0xae]);

/// A Binding request with transaction ID `ID` and without attributes,
/// with room for `room` bytes of attributes.
fn empty(room: usize) -> Vec<u8> {
    let mut buf = vec![0u8; 20 + room];
    buf[1] = 0x01;
    buf[4..8].copy_from_slice(&0x2112A442u32.to_be_bytes());
    buf[8..20].copy_from_slice(&ID.0);
    buf
}

fn header() -> MessageMeta {
    MessageMeta { class: 0, method: 1, id: ID, attributes: vec![] }
}

/// The attribute as `encode_attribute` writes it behind an empty message.
fn encoded<T: Attribute>(attr: &T) -> Vec<u8> {
    let room = 4 + (attr.size() + 3) / 4 * 4;
    let mut buf = empty(room);
    let mut offset = 20;
    encode_attribute(attr, &mut buf, &mut offset, &ID);
    assert_eq!(offset, 20 + room);
    assert_eq!(u16::from_be_bytes([buf[2], buf[3]]) as usize, room);
    assert_eq!(u16::from_be_bytes([buf[20], buf[21]]), T::TY);
    assert_eq!(u16::from_be_bytes([buf[22], buf[23]]) as usize, attr.size());
    if T::SIZE != 0 {
        assert_eq!(T::SIZE, attr.size());
    }
    buf[24..].to_vec()
}

/// What decoding `value` as the body of an attribute of type `T` gives.
fn decoded<T: Attribute>(value: &[u8]) -> Result<T, IncomingError> {
    let mut buf = empty(0);
    buf.extend_from_slice(value);
    let meta = AttributeMeta { ty: T::TY, offset: 20, len: value.len() };
    T::decode(&buf, &meta, &header())
}

fn failure<T: Attribute>(value: &[u8]) -> (IncomingErrorTy, String) {
    match decoded::<T>(value) {
        Ok(_) => panic!("decoding has to fail"),
        Err(e) => (e.ty, e.reason),
    }
}

#[test]
fn types_and_sizes() {
    assert_eq!(MappedAddress::TY, 0x0001);
    assert_eq!(Username::TY, 0x0006);
    assert_eq!((MessageIntegrity::TY, MessageIntegrity::SIZE), (0x0008, 20));
    assert_eq!(ErrorCode::TY, 0x0009);
    assert_eq!(UnknownAttributes::TY, 0x000A);
    assert_eq!(Realm::TY, 0x0014);
    assert_eq!(Nonce::TY, 0x0015);
    assert_eq!((MessageIntegritySha256::TY, MessageIntegritySha256::SIZE), (0x001C, 32));
    assert_eq!(PasswordAlgorithm::TY, 0x001D);
    assert_eq!((Userhash::TY, Userhash::SIZE), (0x001E, 32));
    assert_eq!(XorMappedAddress::TY, 0x0020);
    assert_eq!(PasswordAlgorithms::TY, 0x8002);
    assert_eq!(AlternateDomain::TY, 0x8003);
    assert_eq!(Software::TY, 0x8022);
    assert_eq!(AlternateServer::TY, 0x8023);
    assert_eq!((Fingerprint::TY, Fingerprint::SIZE), (0x8028, 4));
    for ty in [
        0x0001, 0x0006, 0x0008, 0x0009, 0x000A, 0x0014, 0x0015, 0x001C, 0x001D, 0x001E, 0x0020,
        0x8002, 0x8003, 0x8022, 0x8023, 0x8028,
    ] {
        assert!(flashbang::message::attributes::is_known(ty));
    }
    assert!(!flashbang::message::attributes::is_known(0x0002));
    assert!(flashbang::message::attributes::is_required(0x7fff));
    assert!(!flashbang::message::attributes::is_required(0x8000));
}

#[test]
fn text_attributes() {
    assert_eq!(encoded(&Username::new("Alice")), b"Alice\0\0\0");
    assert_eq!(encoded(&Realm::new("example.org")), b"example.org\0");
    assert_eq!(encoded(&Nonce::new("abcd")), b"abcd");
    assert_eq!(encoded(&Software::new("")), b"");
    assert_eq!(encoded(&AlternateDomain::new("stun.example")), b"stun.example");
    assert_eq!(Username::new("\u{30DE}").size(), 3);
    assert_eq!(Username::new("\u{30DE}").len(), 3);

    assert_eq!(decoded::<Username>(b"Alice").ok(), Some(Username::new("Alice")));
    assert_eq!(decoded::<Realm>("b\u{00F6}b".as_bytes()).ok(), Some(Realm::new("b\u{00F6}b")));
    assert_eq!(decoded::<Nonce>(b"").ok().unwrap().as_str(), "");
    assert_eq!(decoded::<Software>(b"agent 1.0").ok().unwrap().as_str(), "agent 1.0");
    assert_eq!(decoded::<AlternateDomain>(b"x.org").ok().unwrap().as_str(), "x.org");
    assert_eq!(failure::<Nonce>(&[0xc3]).0, IncomingErrorTy::BadUtf8);
    assert_eq!(failure::<Software>(&[0xed, 0xa0, 0x80]).0, IncomingErrorTy::BadUtf8);
    assert_eq!(Username::new("Alice").clone(), Username::new("Alice"));
}

#[test]
fn descriptor_outside_the_message() {
    let buf = empty(0);
    let meta = AttributeMeta { ty: Username::TY, offset: 16, len: 5 };
    let error = Username::decode(&buf, &meta, &header()).err().expect("outside");
    assert_eq!(error.ty, IncomingErrorTy::BadLength);
    assert_eq!(error.reason, "Attribute lies outside the message.");
    let meta = AttributeMeta { ty: Username::TY, offset: usize::MAX, len: usize::MAX };
    assert!(Userhash::decode(&buf, &meta, &header()).is_err());
    assert!(MappedAddress::decode(&buf, &meta, &header()).is_err());
    assert!(ErrorCode::decode(&buf, &meta, &header()).is_err());
    assert!(UnknownAttributes::decode(&buf, &meta, &header()).is_err());
    assert!(PasswordAlgorithm::decode(&buf, &meta, &header()).is_err());
    assert!(PasswordAlgorithms::decode(&buf, &meta, &header()).is_err());
}

#[test]
fn mapped_address() {
    let v4 = TransportAddress::V4 { octets: [192, 0, 2, 1], port: 32853 };
    let v6 = TransportAddress::V6 {
        octets: [0x20, 0x01, 0x0d, 0xb8, 0x12, 0x34, 0x56, 0x78, 0x00, 0x11, 0x22, 0x33, 0x44, 0x55, 0x66, 0x77],
        port: 32853,
    };
    assert_eq!(MappedAddress::new(v4).size(), 8);
    assert_eq!(MappedAddress::new(v6).size(), 20);
    assert_eq!(v4.port(), 32853);
    assert_eq!(encoded(&MappedAddress::new(v4)), [0x00, 0x01, 0x80, 0x55, 192, 0, 2, 1]);
    assert_eq!(
        encoded(&AlternateServer::new(v6)),
        [
            0x00, 0x02, 0x80, 0x55, 0x20, 0x01, 0x0d, 0xb8, 0x12, 0x34, 0x56, 0x78, 0x00, 0x11,
            0x22, 0x33, 0x44, 0x55, 0x66, 0x77
        ]
    );
    assert_eq!(decoded::<MappedAddress>(&encoded(&MappedAddress::new(v4))).ok().unwrap().addr(), v4);
    assert_eq!(decoded::<MappedAddress>(&encoded(&MappedAddress::new(v6))).ok().unwrap().addr(), v6);
    assert_eq!(decoded::<AlternateServer>(&encoded(&AlternateServer::new(v4))).ok().unwrap().addr(), v4);

    let mut attribute = MappedAddress::new(v4);
    attribute.set_addr(v6);
    assert_eq!(attribute.addr(), v6);

    assert_eq!(
        failure::<MappedAddress>(&[0x01, 0x01, 0x80, 0x55, 192, 0, 2, 1]),
        (IncomingErrorTy::BadFormat, "The first byte of an address MUST be zero.".to_string())
    );
    assert_eq!(
        failure::<MappedAddress>(&[0x00, 0x03, 0x80, 0x55, 192, 0, 2, 1]),
        (IncomingErrorTy::BadFormat, "Family must be 1 or 2.".to_string())
    );
    assert_eq!(failure::<MappedAddress>(&[0x00, 0x01, 0x80]).0, IncomingErrorTy::BadLength);
    assert_eq!(failure::<MappedAddress>(&[0x00, 0x02, 0x80, 0x55, 192, 0, 2, 1]).0, IncomingErrorTy::BadLength);
    assert_eq!(failure::<AlternateServer>(&[0x00, 0x01, 0x80, 0x55, 192, 0, 2]).0, IncomingErrorTy::BadLength);
}

#[test]
fn xor_mapped_address() {
    // the attributes of the sample responses of RFC 5769
    let v4 = TransportAddress::V4 { octets: [192, 0, 2, 1], port: 32853 };
    let v6 = TransportAddress::V6 {
        octets: [0x20, 0x01, 0x0d, 0xb8, 0x12, 0x34, 0x56, 0x78, 0x00, 0x11, 0x22, 0x33, 0x44, 0x55, 0x66, 0x77],
        port: 32853,
    };
    let wire4 = [0x00, 0x01, 0xa1, 0x47, 0xe1, 0x12, 0xa6, 0x43];
    let wire6 = [
        0x00, 0x02, 0xa1, 0x47, 0x01, 0x13, 0xa9, 0xfa, 0xa5, 0xd3, 0xf1, 0x79, 0xbc, 0x25, 0xf4,
        0xb5, 0xbe, 0xd2, 0xb9, 0xd9,
    ];
    assert_eq!(encoded(&XorMappedAddress::new(v4)), wire4);
    assert_eq!(encoded(&XorMappedAddress::new(v6)), wire6);
    assert_eq!(decoded::<XorMappedAddress>(&wire4).ok().unwrap().addr(), v4);
    assert_eq!(decoded::<XorMappedAddress>(&wire6).ok().unwrap().addr(), v6);
    assert_eq!(failure::<XorMappedAddress>(&[0x00, 0x00, 0xa1, 0x47, 1, 2, 3, 4]).0, IncomingErrorTy::BadFormat);
    let mut attribute = XorMappedAddress::new(v4);
    attribute.set_addr(v6);
    assert_eq!(attribute.addr(), v6);
}

#[test]
fn error_code() {
    assert_eq!(ErrorCode::Unauthenticated.code(), 401);
    assert_eq!(ErrorCode::Unauthenticated.reason(), "Unauthenticated");
    for (error, code, reason) in [
        (ErrorCode::TryAlternate, 300, "Try Alternate"),
        (ErrorCode::BadRequest, 400, "Bad Request"),
        (ErrorCode::Unauthenticated, 401, "Unauthenticated"),
        (ErrorCode::UnknownAttribute, 420, "Unknown Attribute"),
        (ErrorCode::StaleNonce, 438, "Stale Nonce"),
        (ErrorCode::ServerError, 500, "Server Error"),
        (ErrorCode::Other(699, "Other".to_string()), 699, "Other"),
    ] {
        assert_eq!(error.code(), code);
        assert_eq!(error.reason(), reason);
        assert_eq!(ErrorCode::from_parts(code, reason.to_string()), error);
        assert_eq!(error.size(), 4 + reason.len());
        let wire = encoded(&error);
        assert_eq!(&wire[..4], &[0, 0, (code / 100) as u8, (code % 100) as u8]);
        assert_eq!(&wire[4..4 + reason.len()], reason.as_bytes());
        assert_eq!(decoded::<ErrorCode>(&wire[..4 + reason.len()]).ok(), Some(error));
    }
    // the variant of a code goes before the reason that came with it
    assert_eq!(ErrorCode::from_parts(438, "anything".to_string()), ErrorCode::StaleNonce);
    assert_eq!(decoded::<ErrorCode>(&[0, 0, 4, 20, b'x']).ok(), Some(ErrorCode::UnknownAttribute));
    // the bits in front of the class are reserved and passed over
    assert_eq!(decoded::<ErrorCode>(&[0xff, 0xff, 0xfc, 0]).ok(), Some(ErrorCode::BadRequest));
    assert_eq!(
        failure::<ErrorCode>(&[0, 0, 2, 0]),
        (IncomingErrorTy::BadFormat, "Error class must be between 3 and 6.".to_string())
    );
    assert_eq!(failure::<ErrorCode>(&[0, 0, 7, 0]).0, IncomingErrorTy::BadFormat);
    assert_eq!(failure::<ErrorCode>(&[0, 0, 4]).0, IncomingErrorTy::BadLength);
    assert_eq!(failure::<ErrorCode>(&[0, 0, 4, 0, 0xff]).0, IncomingErrorTy::BadUtf8);
}

#[test]
fn unknown_attributes() {
    let attribute = UnknownAttributes::new(vec![0x0002, 0x7f00, 0x1234]);
    assert_eq!(attribute.size(), 6);
    assert_eq!(encoded(&attribute), [0x00, 0x02, 0x7f, 0x00, 0x12, 0x34, 0, 0]);
    let read = decoded::<UnknownAttributes>(&[0x00, 0x02, 0x7f, 0x00, 0x12, 0x34]).ok().unwrap();
    assert_eq!(read, attribute);
    assert_eq!(read.attributes(), &vec![0x0002, 0x7f00, 0x1234]);
    assert_eq!(decoded::<UnknownAttributes>(&[]).ok().unwrap().attributes().len(), 0);
    assert_eq!(failure::<UnknownAttributes>(&[0x00, 0x02, 0x7f]).0, IncomingErrorTy::BadLength);
}

#[test]
fn password_algorithms() {
    assert_eq!(MD5_PASSWORD_ALGORITHM.id(), 1);
    assert_eq!(SHA256_PASSWORD_ALGORITHM.id(), 2);
    assert_eq!(PasswordAlgorithm::from_id(1), Some(PasswordAlgorithm::Md5));
    assert_eq!(PasswordAlgorithm::from_id(2), Some(PasswordAlgorithm::Sha256));
    assert_eq!(PasswordAlgorithm::from_id(3), None);
    assert_eq!(encoded(&MD5_PASSWORD_ALGORITHM), [0, 1, 0, 0]);
    assert_eq!(encoded(&SHA256_PASSWORD_ALGORITHM), [0, 2, 0, 0]);
    assert_eq!(decoded::<PasswordAlgorithm>(&[0, 2, 0, 0]).ok(), Some(PasswordAlgorithm::Sha256));
    // parameters are passed over
    assert_eq!(decoded::<PasswordAlgorithm>(&[0, 1, 0, 2, 9, 9]).ok(), Some(PasswordAlgorithm::Md5));
    assert_eq!(
        failure::<PasswordAlgorithm>(&[0, 3, 0, 0]),
        (IncomingErrorTy::BadFormat, "Unknown password algorithm.".to_string())
    );
    assert_eq!(failure::<PasswordAlgorithm>(&[0, 1, 0]).0, IncomingErrorTy::BadLength);
    assert_eq!(failure::<PasswordAlgorithm>(&[0, 1, 0, 1]).0, IncomingErrorTy::BadLength);

    let list = PasswordAlgorithms::new(vec![PasswordAlgorithm::Sha256, PasswordAlgorithm::Md5]);
    assert_eq!(list.size(), 8);
    assert_eq!(encoded(&list), [0, 2, 0, 0, 0, 1, 0, 0]);
    assert_eq!(decoded::<PasswordAlgorithms>(&[0, 2, 0, 0, 0, 1, 0, 0]).ok(), Some(list));
    // each algorithm is padded to a 32-bit boundary
    let padded = decoded::<PasswordAlgorithms>(&[0, 1, 0, 1, 9, 0, 0, 0, 0, 2, 0, 0]).ok().unwrap();
    assert_eq!(padded.algorithms(), &vec![PasswordAlgorithm::Md5, PasswordAlgorithm::Sha256]);
    assert_eq!(decoded::<PasswordAlgorithms>(&[]).ok().unwrap().algorithms().len(), 0);
    assert_eq!(failure::<PasswordAlgorithms>(&[0, 1, 0, 0, 0, 9, 0, 0]).0, IncomingErrorTy::BadFormat);
    assert_eq!(failure::<PasswordAlgorithms>(&[0, 1, 0, 0, 0, 2]).0, IncomingErrorTy::BadLength);
}

#[test]
fn fixed_attributes() {
    let hash = [7u8; 32];
    assert_eq!(encoded(&Userhash::from_array(hash)), hash);
    assert_eq!(decoded::<Userhash>(&hash).ok(), Some(Userhash::from_array(hash)));
    assert_eq!(failure::<Userhash>(&hash[..31]).0, IncomingErrorTy::BadLength);

    let mac = [9u8; 20];
    assert_eq!(encoded(&MessageIntegrity::from_array(mac)), mac);
    assert!(decoded::<MessageIntegrity>(&mac).ok() == Some(MessageIntegrity::from_array(mac)));
    assert_eq!(failure::<MessageIntegrity>(&[9u8; 32]).0, IncomingErrorTy::BadLength);
    let mac = [3u8; 32];
    assert_eq!(encoded(&MessageIntegritySha256::from_array(mac)), mac);
    assert!(decoded::<MessageIntegritySha256>(&mac).ok() == Some(MessageIntegritySha256::from_array(mac)));
    assert_eq!(failure::<MessageIntegritySha256>(&[9u8; 20]).0, IncomingErrorTy::BadLength);

    let fingerprint = Fingerprint::Incoming { fingerprint: 0xe57a3bcf };
    assert_eq!(encoded(&fingerprint), [0xe5, 0x7a, 0x3b, 0xcf]);
    assert_eq!(decoded::<Fingerprint>(&[0xe5, 0x7a, 0x3b, 0xcf]).ok(), Some(fingerprint));
    assert_eq!(failure::<Fingerprint>(&[0xe5, 0x7a, 0x3b]).0, IncomingErrorTy::BadLength);
}

#[test]
fn outgoing_integrity_covers_the_message_in_front() {
    // behind an empty message, the MAC covers the header with a length
    // field that counts the attribute
    let mut covered = empty(0);
    covered[3] = 24;
    let mut mac = <hmac::Hmac<sha1::Sha1> as Mac>::new_from_slice(b"key").unwrap();
    mac.update(&covered);
    assert_eq!(encoded(&MessageIntegrity::new(b"key")), &mac.finalize().into_bytes()[..]);

    covered[3] = 36;
    let mut mac = <hmac::Hmac<sha2::Sha256> as Mac>::new_from_slice(b"key").unwrap();
    mac.update(&covered);
    assert_eq!(encoded(&MessageIntegritySha256::new(b"key")), &mac.finalize().into_bytes()[..]);

    covered[3] = 8;
    let crc = flashbang::message::crc::checksum(&covered) ^ 0x5354554E;
    assert_eq!(encoded(&Fingerprint::Outgoing), crc.to_be_bytes());
}
