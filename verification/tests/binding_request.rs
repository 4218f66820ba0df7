use flashbang::message::attributes::Username;
use flashbang::message::methods::Binding;
use flashbang::message::{
    Authorization, Credentials, Integrity, OutgoingMessage, Request, TransactionId,
};
use stun::attributes::ATTR_USERNAME;
use stun::message::{Message, BINDING_REQUEST};

#[test]
fn binding_request() {
    // "stun" crate
    let mut test_message = Message::new();

    test_message
        .build(&[
            Box::new(BINDING_REQUEST),
            Box::new(stun::agent::TransactionId([
                0, 0, 0, 0, 0, 0, 0, 0, 0, 0, 0, 32,
            ])),
            Box::new(stun::textattrs::Username::new(
                ATTR_USERNAME,
                "Alice".into(),
            )),
            Box::new(stun::integrity::MessageIntegrity::new_short_term_integrity(
                "Password".into(),
            )),
            Box::new(stun::fingerprint::FingerprintAttr),
        ])
        .expect("Failed to build");

    let test_output = &*test_message.marshal_binary().unwrap();

    // "flashbang" crate
    let message = OutgoingMessage {
        transaction_id: TransactionId::new(32),
        body: Request {
            method: Binding,
            authorization: Some(Authorization {
                credentials: Credentials::new_short_term(Username::new("Alice"), "Password"),
                integrity: Integrity::Sha1,
            }),
        },
        software: false,
        fingerprint: true,
    };

    let buf = message.encode();

    assert_eq!(test_output, &*buf);
}
