use bytes::Bytes;
use vstd::prelude::*;
use vstd::utf8::encode_utf8;

use super::attributes::{
    attribute_size, emit, encode_attribute, userhash_input, Attribute, MessageIntegrity,
    MessageIntegritySha256, Nonce, PasswordAlgorithm, Realm, Userhash, Username, MAX_USERNAME_SIZE,
    MD5_PASSWORD_ALGORITHM,
};
use super::buffer::{bytes_as_slice, bytes_from_slice, contents};
use super::hash::{hmac_sha1, hmac_sha256, sha256};
use super::id::TransactionId;
use super::wire::{appended, building, covered, kept, pad};

verus! {

/// The credentials of a request and the integrity attributes that it asks for.
#[derive(PartialEq)]
pub struct Authorization {
    pub credentials: Credentials,
    pub integrity: Integrity,
}

/// The credentials that a request is made with.
///
/// There is no `Debug` for them: a password must not reach a log.
#[derive(PartialEq)]
pub enum Credentials {
    /// Long-term credentials.
    LongTerm {
        username: Username,
        nonce: Nonce,
        realm: Realm,
        password: String,
        anonymity: bool,
        algorithm: Option<PasswordAlgorithm>,
    },
    /// Short-term credentials.
    ShortTerm { username: Username, password: String },
}

/// The integrity attributes that a message carries.
#[derive(Default, PartialEq, Eq, Debug, Clone, Copy, Structural)]
pub enum Integrity {
    /// Both MESSAGE-INTEGRITY and MESSAGE-INTEGRITY-SHA256 attributes.
    #[default]
    Both,
    /// The legacy MESSAGE-INTEGRITY attribute.
    Sha1,
    /// The MESSAGE-INTEGRITY-SHA256 attribute.
    Sha256,
}

/// The bytes that a long-term key is the hash of: the username, the realm
/// and the password, with colons between them.
pub open spec fn key_input(username: Seq<char>, realm: Seq<char>, password: Seq<char>) -> Seq<u8> {
    encode_utf8(username) + seq![0x3Au8] + encode_utf8(realm) + seq![0x3Au8] + encode_utf8(
        password,
    )
}

/// The algorithm that derives the key where `algorithm` names none: MD5.
pub open spec fn algorithm_or_md5(algorithm: Option<PasswordAlgorithm>) -> PasswordAlgorithm {
    match algorithm {
        Some(algorithm) => algorithm,
        None => PasswordAlgorithm::Md5,
    }
}

/// The key of long-term credentials: the hash, by `algorithm` or by MD5
/// where there is none, of username, realm and password.
pub open spec fn spec_long_term_key(
    username: Seq<char>,
    realm: Seq<char>,
    password: Seq<char>,
    algorithm: Option<PasswordAlgorithm>,
) -> Seq<u8> {
    algorithm_or_md5(algorithm).digest(key_input(username, realm, password))
}

/// Derives the key of long-term credentials.
pub fn long_term_key(
    username: &Username,
    realm: &Realm,
    password: &str,
    algorithm: Option<PasswordAlgorithm>,
) -> (key: Bytes)
    ensures
        contents(key) == spec_long_term_key(username@, realm@, password@, algorithm),
{
    let alg = match algorithm {
        Some(alg) => alg,
        None => MD5_PASSWORD_ALGORITHM,
    };
    let mut input: Vec<u8> = Vec::new();
    input.extend_from_slice(username.as_str().as_bytes());
    input.push(0x3A);
    input.extend_from_slice(realm.as_str().as_bytes());
    input.push(0x3A);
    input.extend_from_slice(password.as_bytes());
    assert(input@ =~= key_input(username@, realm@, password@));

    alg.hash(input.as_slice())
}

/// Derives the key of short-term credentials: the password as it is.
pub fn short_term_key(password: &str) -> (key: Bytes)
    ensures
        contents(key) == encode_utf8(password@),
{
    bytes_from_slice(password.as_bytes())
}

impl Integrity {
    /// Whether a MESSAGE-INTEGRITY attribute is asked for.
    pub open spec fn spec_has_sha1(&self) -> bool {
        *self == Integrity::Both || *self == Integrity::Sha1
    }

    /// Whether a MESSAGE-INTEGRITY-SHA256 attribute is asked for.
    pub open spec fn spec_has_sha256(&self) -> bool {
        *self == Integrity::Both || *self == Integrity::Sha256
    }

    /// Whether a MESSAGE-INTEGRITY attribute is asked for.
    #[verifier::when_used_as_spec(spec_has_sha1)]
    pub fn has_sha1(&self) -> (r: bool)
        ensures
            r == self.spec_has_sha1(),
    {
        match self {
            Integrity::Both => true,
            Integrity::Sha1 => true,
            Integrity::Sha256 => false,
        }
    }

    /// Whether a MESSAGE-INTEGRITY-SHA256 attribute is asked for.
    #[verifier::when_used_as_spec(spec_has_sha256)]
    pub fn has_sha256(&self) -> (r: bool)
        ensures
            r == self.spec_has_sha256(),
    {
        match self {
            Integrity::Both => true,
            Integrity::Sha1 => false,
            Integrity::Sha256 => true,
        }
    }

    /// The bytes that the integrity attributes take.
    pub open spec fn spec_size(&self) -> nat {
        (if self.has_sha1() {
            attribute_size(20)
        } else {
            0
        }) + (if self.has_sha256() {
            attribute_size(32)
        } else {
            0
        })
    }

    /// `msg` with the integrity attributes behind it, each computed with
    /// `key`: MESSAGE-INTEGRITY first, so that the MAC of
    /// MESSAGE-INTEGRITY-SHA256 covers it.
    pub open spec fn emitted(&self, key: Seq<u8>, msg: Seq<u8>) -> Seq<u8> {
        let with_sha1 = if self.has_sha1() {
            appended(msg, MessageIntegrity::TY, hmac_sha1(key, covered(msg, 20))@)
        } else {
            msg
        };
        if self.has_sha256() {
            appended(
                with_sha1,
                MessageIntegritySha256::TY,
                hmac_sha256(key, covered(with_sha1, 32))@,
            )
        } else {
            with_sha1
        }
    }
}

impl Integrity {
    /// Encodes the integrity attributes, computed with `key`.
    pub fn encode(&self, key: &[u8], buf: &mut [u8], offset: &mut usize, id: &TransactionId)
        requires
            building(old(buf)@, *old(offset) as int),
            *old(offset) + self.spec_size() <= old(buf)@.len(),
            *old(offset) - 20 + self.spec_size() <= 0xFFFF,
        ensures
            final(buf)@.len() == old(buf)@.len(),
            *final(offset) == *old(offset) + self.spec_size(),
            building(final(buf)@, *final(offset) as int),
            kept(old(buf)@, final(buf)@, *old(offset) as int),
            final(buf)@.subrange(0, *final(offset) as int) == self.emitted(
                key@,
                old(buf)@.subrange(0, *old(offset) as int),
            ),
    {
        if self.has_sha1() {
            encode_attribute(&MessageIntegrity::new(key), buf, offset, id)
        }
        if self.has_sha256() {
            encode_attribute(&MessageIntegritySha256::new(key), buf, offset, id)
        }
    }
}

impl Credentials {
    /// Encodes the attributes of the credentials.
    pub fn encode(&self, buf: &mut [u8], offset: &mut usize, id: &TransactionId)
        requires
            building(old(buf)@, *old(offset) as int),
            *old(offset) + self.spec_size() <= old(buf)@.len(),
            *old(offset) - 20 + self.spec_size() <= 0xFFFF,
        ensures
            final(buf)@.len() == old(buf)@.len(),
            *final(offset) == *old(offset) + self.spec_size(),
            building(final(buf)@, *final(offset) as int),
            kept(old(buf)@, final(buf)@, *old(offset) as int),
            final(buf)@.subrange(0, *final(offset) as int) == self.emitted(
                id@,
                old(buf)@.subrange(0, *old(offset) as int),
            ),
    {
        match self {
            Credentials::LongTerm { username, nonce, realm, password, anonymity, algorithm } => {
                match anonymity {
                    true => encode_attribute(
                        &Userhash::new(username.clone(), realm.clone()),
                        buf,
                        offset,
                        id,
                    ),
                    false => encode_attribute(username, buf, offset, id),
                }

                encode_attribute(nonce, buf, offset, id);

                encode_attribute(realm, buf, offset, id);

                match algorithm {
                    Some(alg) => {
                        encode_attribute(alg, buf, offset, id);
                    },
                    None => {},
                };
            },
            Credentials::ShortTerm { username, password } => {
                encode_attribute(username, buf, offset, id);
            },
        }
    }

    /// Long-term credentials: the key is the hash, by `algorithm` or by
    /// MD5 where there is none, of username, realm and password. With
    /// `anonymity`, a USERHASH goes in place of the USERNAME.
    pub fn new_long_term(
        username: Username,
        nonce: Nonce,
        realm: Realm,
        password: &str,
        anonymity: bool,
        algorithm: Option<PasswordAlgorithm>,
    ) -> (r: Self)
        ensures
            r matches Credentials::LongTerm {
                username: u,
                nonce: n,
                realm: re,
                password: p,
                anonymity: an,
                algorithm: al,
            } && u == username && n == nonce && re == realm && p@ == password@ && an == anonymity
                && al == algorithm,
    {
        Self::LongTerm {
            username,
            nonce,
            realm,
            password: password.to_owned(),
            anonymity,
            algorithm,
        }
    }

    /// Short-term credentials: the key is the password.
    pub fn new_short_term(username: Username, password: &str) -> (r: Self)
        ensures
            r matches Credentials::ShortTerm { username: u, password: p } && u == username && p@
                == password@,
    {
        Self::ShortTerm { username, password: password.to_owned() }
    }

    /// The username of the credentials.
    pub open spec fn username(&self) -> Username {
        match self {
            Credentials::LongTerm { username, .. } => *username,
            Credentials::ShortTerm { username, .. } => *username,
        }
    }

    /// The key that the integrity attributes are computed with.
    pub open spec fn spec_key(&self) -> Seq<u8> {
        match self {
            Credentials::LongTerm { username, realm, password, algorithm, .. } => spec_long_term_key(
                username@,
                realm@,
                password@,
                *algorithm,
            ),
            Credentials::ShortTerm { password, .. } => encode_utf8(password@),
        }
    }

    /// The bytes that the attributes of the credentials take.
    pub open spec fn spec_size(&self) -> nat {
        match self {
            Credentials::LongTerm { username, nonce, realm, anonymity, algorithm, .. } => (if *anonymity {
                attribute_size(32)
            } else {
                attribute_size(username.spec_size())
            }) + attribute_size(nonce.spec_size()) + attribute_size(realm.spec_size())
                + (match algorithm {
                Some(algorithm) => attribute_size(4),
                None => 0,
            }),
            Credentials::ShortTerm { username, .. } => attribute_size(username.spec_size()),
        }
    }

    /// `msg` with the attributes of the credentials behind it: USERHASH
    /// or USERNAME, and for long-term credentials NONCE, REALM and
    /// PASSWORD-ALGORITHM, if there is one.
    pub open spec fn emitted(&self, id: Seq<u8>, msg: Seq<u8>) -> Seq<u8> {
        match self {
            Credentials::LongTerm { username, nonce, realm, anonymity, algorithm, .. } => {
                let with_user = if *anonymity {
                    appended(msg, Userhash::TY, sha256(userhash_input(username@, realm@))@)
                } else {
                    emit(*username, id, msg)
                };
                let with_realm = emit(*realm, id, emit(*nonce, id, with_user));
                match algorithm {
                    Some(algorithm) => emit(*algorithm, id, with_realm),
                    None => with_realm,
                }
            },
            Credentials::ShortTerm { username, .. } => emit(*username, id, msg),
        }
    }

    /// Derives the key that the integrity attributes are computed with.
    pub fn key(&self) -> (key: Bytes)
        ensures
            contents(key) == self.spec_key(),
    {
        match self {
            Credentials::LongTerm { username, realm, password, algorithm, .. } => long_term_key(
                username,
                realm,
                password.as_str(),
                *algorithm,
            ),
            Credentials::ShortTerm { password, .. } => short_term_key(password.as_str()),
        }
    }
}

impl Authorization {
    /// The bytes that the authorization attributes take.
    pub open spec fn spec_size(&self) -> nat {
        self.credentials.spec_size() + self.integrity.spec_size()
    }

    /// Whether each attribute is as short as its kind demands: the
    /// username takes at most 513 bytes, nonce and realm at most 65535.
    pub open spec fn fits(&self) -> bool {
        match self.credentials {
            Credentials::LongTerm { username, nonce, realm, .. } => username.spec_size()
                <= MAX_USERNAME_SIZE && nonce.spec_size() <= 0xFFFF && realm.spec_size() <= 0xFFFF,
            Credentials::ShortTerm { username, .. } => username.spec_size() <= MAX_USERNAME_SIZE,
        }
    }

    /// The size of the authorization attributes, if each attribute is as
    /// short as its kind demands.
    pub fn checked_size(&self) -> (r: Option<usize>)
        ensures
            r == (if self.fits() {
                Some(self.spec_size() as usize)
            } else {
                None
            }),
            self.fits() ==> self.spec_size() <= 0x30000,
    {
        match &self.credentials {
            Credentials::LongTerm { username, nonce, realm, .. } => {
                if username.len() > MAX_USERNAME_SIZE || nonce.len() > 0xFFFF || realm.len()
                    > 0xFFFF {
                    return None;
                }
            },
            Credentials::ShortTerm { username, .. } => {
                if username.len() > MAX_USERNAME_SIZE {
                    return None;
                }
            },
        }
        Some(self.size())
    }

    /// `msg` with the authorization attributes behind it: those of the
    /// credentials, then the integrity attributes, computed with the key
    /// of the credentials.
    pub open spec fn emitted(&self, id: Seq<u8>, msg: Seq<u8>) -> Seq<u8> {
        self.integrity.emitted(self.credentials.spec_key(), self.credentials.emitted(id, msg))
    }

    /// Encodes the authorization attributes.
    pub fn encode(&self, buf: &mut [u8], offset: &mut usize, id: &TransactionId)
        requires
            building(old(buf)@, *old(offset) as int),
            *old(offset) + self.spec_size() <= old(buf)@.len(),
            *old(offset) - 20 + self.spec_size() <= 0xFFFF,
        ensures
            final(buf)@.len() == old(buf)@.len(),
            *final(offset) == *old(offset) + self.spec_size(),
            building(final(buf)@, *final(offset) as int),
            kept(old(buf)@, final(buf)@, *old(offset) as int),
            final(buf)@.subrange(0, *final(offset) as int) == self.emitted(
                id@,
                old(buf)@.subrange(0, *old(offset) as int),
            ),
    {
        self.credentials.encode(buf, offset, id);

        let key = self.credentials.key();

        self.integrity.encode(bytes_as_slice(&key), buf, offset, id);
    }

    /// Calculates the size of the authorization attributes.
    pub fn size(&self) -> (size: usize)
        requires
            self.spec_size() <= usize::MAX,
        ensures
            size == self.spec_size(),
    {
        let mut size: usize = 0;
        proof {
            Userhash::lemma_constants();
            MessageIntegrity::lemma_constants();
            MessageIntegritySha256::lemma_constants();
        }

        match &self.credentials {
            Credentials::LongTerm { username, nonce, realm, anonymity, algorithm, .. } => {
                size += match anonymity {
                    true => pad(Userhash::SIZE) + 4,
                    false => pad(username.size()) + 4,
                };

                size += pad(nonce.size()) + 4;

                size += pad(realm.size()) + 4;

                if let Some(alg) = algorithm {
                    size += pad(alg.size()) + 4;
                }
            },
            Credentials::ShortTerm { username, .. } => {
                size += pad(username.size()) + 4;
            },
        }

        if self.integrity.has_sha1() {
            size += pad(MessageIntegrity::SIZE) + 4;
        }
        if self.integrity.has_sha256() {
            size += pad(MessageIntegritySha256::SIZE) + 4;
        }
        size
    }
}

} // verus!
