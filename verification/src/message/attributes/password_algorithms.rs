use bytes::Bytes;
use vstd::prelude::*;

use crate::message::buffer::{bytes_from_slice, contents};
use crate::message::hash::{digest_md5, digest_sha256, md5, sha256};
use crate::message::id::TransactionId;
use crate::message::incoming::{Failure, IncomingError, IncomingErrorTy};
use crate::message::meta::{AttributeMeta, MessageMeta};
use crate::message::wire::{be16, pad, padded, read_u16, splice, u16_at, write_u16};
use super::fixed::bad_size;
use super::text::value_slice;
use super::{outside, value_at, Attribute};

verus! {

/// The PASSWORD-ALGORITHM attribute.
///
/// Contains the algorithm that the server must use to derive a key for the long-term password.
///
/// An algorithm is comprised of an ID and parameters.
/// Neither the MD5 nor the SHA256 algorithm uses parameters: none are
/// written, and those of a received attribute are passed over.
///
/// See [RFC8489 Section 14.12](https://datatracker.ietf.org/doc/html/rfc8489#section-14.12) for more details.
#[derive(Debug, PartialEq, Eq, Clone, Copy, Structural)]
pub enum PasswordAlgorithm {
    Md5,
    Sha256,
}

/// The MD5 PASSWORD-ALGORITHM attribute.
pub const MD5_PASSWORD_ALGORITHM: PasswordAlgorithm = PasswordAlgorithm::Md5;

/// The SHA-256 PASSWORD-ALGORITHM attribute.
pub const SHA256_PASSWORD_ALGORITHM: PasswordAlgorithm = PasswordAlgorithm::Sha256;

/// What a decoder reports for an algorithm ID that it does not know.
pub open spec fn unknown_algorithm() -> Failure {
    (IncomingErrorTy::BadFormat, "Unknown password algorithm."@)
}

/// Why no algorithm stands at `pos` in `value`, if none does.
pub open spec fn algorithm_failure(value: Seq<u8>, pos: int) -> Option<Failure> {
    if pos + 4 > value.len() || pos + 4 + u16_at(value, pos + 2) > value.len() {
        Some(bad_size())
    } else if PasswordAlgorithm::of_id(u16_at(value, pos)) is None {
        Some(unknown_algorithm())
    } else {
        None
    }
}

/// The algorithms that stand back to back in `value` from `pos` on, each
/// padded to a 32-bit boundary, or why they cannot be read.
pub open spec fn algorithms_from(value: Seq<u8>, pos: int) -> Result<
    Seq<PasswordAlgorithm>,
    Failure,
>
    decreases value.len() + 4 - pos,
{
    if pos >= value.len() {
        Ok(Seq::empty())
    } else {
        match algorithm_failure(value, pos) {
            Some(failure) => Err(failure),
            None => match algorithms_from(
                value,
                pos + 4 + padded(u16_at(value, pos + 2) as int),
            ) {
                Ok(rest) => Ok(seq![PasswordAlgorithm::of_id(u16_at(value, pos)).unwrap()] + rest),
                Err(failure) => Err(failure),
            },
        }
    }
}

/// The bodies of `algorithms`, back to back.
pub open spec fn algorithms_bytes(algorithms: Seq<PasswordAlgorithm>) -> Seq<u8>
    decreases algorithms.len(),
{
    if algorithms.len() == 0 {
        Seq::empty()
    } else {
        algorithms_bytes(algorithms.drop_last()) + algorithms.last().bytes()
    }
}

/// Every algorithm takes four bytes.
pub proof fn lemma_algorithms_len(algorithms: Seq<PasswordAlgorithm>)
    ensures
        algorithms_bytes(algorithms).len() == 4 * algorithms.len(),
    decreases algorithms.len(),
{
    if algorithms.len() > 0 {
        lemma_algorithms_len(algorithms.drop_last());
    }
}

/// Algorithms that were read up to the end of `a` are followed by
/// `algorithm` where its body stands behind `a`.
pub proof fn lemma_algorithms_extend(a: Seq<u8>, pos: int, algorithm: PasswordAlgorithm)
    requires
        0 <= pos <= a.len(),
        algorithms_from(a, pos) is Ok,
        (a.len() - pos) % 4 == 0,
    ensures
        algorithms_from(a + algorithm.bytes(), pos) == Ok::<Seq<PasswordAlgorithm>, Failure>(
            algorithms_from(a, pos)->Ok_0.push(algorithm),
        ),
    decreases a.len() - pos,
{
    let b = a + algorithm.bytes();
    crate::message::wire::lemma_be16_value(algorithm.spec_id());
    crate::message::wire::lemma_be16_value(0);
    if pos >= a.len() {
        assert(b[pos] == be16(algorithm.spec_id())[0] && b[pos + 1] == be16(
            algorithm.spec_id(),
        )[1]);
        assert(b[pos + 2] == be16(0)[0] && b[pos + 3] == be16(0)[1]);
        assert(algorithms_from(b, pos + 4) == Ok::<Seq<PasswordAlgorithm>, Failure>(Seq::empty()));
        assert(seq![algorithm] + Seq::<PasswordAlgorithm>::empty() =~= Seq::<
            PasswordAlgorithm,
        >::empty().push(algorithm));
    } else {
        let next = pos + 4 + padded(u16_at(a, pos + 2) as int);
        assert(u16_at(b, pos) == u16_at(a, pos));
        assert(u16_at(b, pos + 2) == u16_at(a, pos + 2));
        let found = PasswordAlgorithm::of_id(u16_at(a, pos)).unwrap();
        lemma_algorithms_extend(a, next, algorithm);
        let rest = algorithms_from(a, next)->Ok_0;
        assert(seq![found] + rest.push(algorithm) =~= (seq![found] + rest).push(algorithm));
    }
}

/// The body of a PASSWORD-ALGORITHMS holds the algorithms that it was
/// made of.
pub proof fn lemma_algorithms_round_trip(algorithms: Seq<PasswordAlgorithm>)
    ensures
        algorithms_from(algorithms_bytes(algorithms), 0) == Ok::<Seq<PasswordAlgorithm>, Failure>(
            algorithms,
        ),
    decreases algorithms.len(),
{
    if algorithms.len() > 0 {
        let front = algorithms.drop_last();
        lemma_algorithms_round_trip(front);
        lemma_algorithms_len(front);
        lemma_algorithms_extend(algorithms_bytes(front), 0, algorithms.last());
        assert(front.push(algorithms.last()) =~= algorithms);
    } else {
        assert(algorithms =~= Seq::empty());
    }
}

/// Reads the algorithm at `pos` in `value` and the length of its parameters.
fn algorithm_at(value: &[u8], pos: usize) -> (r: Result<(PasswordAlgorithm, usize), IncomingError>)
    requires
        pos <= value@.len(),
    ensures
        match algorithm_failure(value@, pos as int) {
            Some(failure) => r matches Err(e) && e.reports(failure),
            None => r matches Ok(found) && Some(found.0) == PasswordAlgorithm::of_id(
                u16_at(value@, pos as int),
            ) && found.1 == u16_at(value@, pos + 2),
        },
{
    if value.len() - pos < 4 {
        return Err(
            IncomingError::new(IncomingErrorTy::BadLength, "Attribute value has the wrong length."),
        );
    }
    let id = read_u16(value, pos);
    let len = read_u16(value, pos + 2) as usize;
    if len > value.len() - pos - 4 {
        return Err(
            IncomingError::new(IncomingErrorTy::BadLength, "Attribute value has the wrong length."),
        );
    }
    match PasswordAlgorithm::from_id(id) {
        Some(algorithm) => Ok((algorithm, len)),
        None => Err(IncomingError::new(IncomingErrorTy::BadFormat, "Unknown password algorithm.")),
    }
}

impl PasswordAlgorithm {
    /// The ID of the algorithm in the registry of IANA.
    pub open spec fn spec_id(&self) -> u16 {
        match self {
            PasswordAlgorithm::Md5 => 0x0001,
            PasswordAlgorithm::Sha256 => 0x0002,
        }
    }

    /// The algorithm with the given ID, if there is one.
    pub open spec fn of_id(id: u16) -> Option<Self> {
        if id == 0x0001 {
            Some(PasswordAlgorithm::Md5)
        } else if id == 0x0002 {
            Some(PasswordAlgorithm::Sha256)
        } else {
            None
        }
    }

    /// What the algorithm makes of `input`.
    pub open spec fn digest(&self, input: Seq<u8>) -> Seq<u8> {
        match self {
            PasswordAlgorithm::Md5 => md5(input)@,
            PasswordAlgorithm::Sha256 => sha256(input)@,
        }
    }

    /// The body of the attribute: the ID and the length of no parameters.
    pub open spec fn bytes(&self) -> Seq<u8> {
        be16(self.spec_id()) + be16(0)
    }

    /// The ID of the algorithm in the registry of IANA.
    pub fn id(&self) -> (id: u16)
        ensures
            id == self.spec_id(),
    {
        match self {
            PasswordAlgorithm::Md5 => 0x0001,
            PasswordAlgorithm::Sha256 => 0x0002,
        }
    }

    /// The algorithm with the given ID, if there is one.
    pub fn from_id(id: u16) -> (r: Option<Self>)
        ensures
            r == Self::of_id(id),
    {
        if id == 0x0001 {
            Some(PasswordAlgorithm::Md5)
        } else if id == 0x0002 {
            Some(PasswordAlgorithm::Sha256)
        } else {
            None
        }
    }

    /// Hashes `input` with the algorithm.
    pub fn hash(&self, input: &[u8]) -> (r: Bytes)
        ensures
            contents(r) == self.digest(input@),
    {
        match self {
            PasswordAlgorithm::Md5 => {
                let digest = digest_md5(input);
                bytes_from_slice(digest.as_slice())
            },
            PasswordAlgorithm::Sha256 => {
                let digest = digest_sha256(input);
                bytes_from_slice(digest.as_slice())
            },
        }
    }
}

impl Attribute for PasswordAlgorithm {
    const TY: u16 = 0x001D;

    const SIZE: usize = 0;

    proof fn lemma_constants()
        ensures
            Self::TY == 0x001D,
            Self::SIZE == 0,
    {
    }

    open spec fn spec_size(&self) -> nat {
        4
    }

    open spec fn value(&self, id: Seq<u8>, prefix: Seq<u8>) -> Seq<u8> {
        self.bytes()
    }

    open spec fn failure(value: Seq<u8>, id: Seq<u8>) -> Option<Failure> {
        algorithm_failure(value, 0)
    }

    open spec fn holds(&self, value: Seq<u8>, id: Seq<u8>) -> bool {
        Some(*self) == Self::of_id(u16_at(value, 0))
    }

    proof fn lemma_size(&self, id: Seq<u8>, prefix: Seq<u8>) {
    }

    fn encode(&self, buf: &mut [u8], offset: usize, id: &TransactionId) {
        let total = buf.len();
        write_u16(buf, offset, self.id());
        write_u16(buf, offset + 2, 0);
        assert(buf@ =~= splice(old(buf)@, offset as int, self.bytes()));
    }

    fn decode(buf: &[u8], meta: &AttributeMeta, header: &MessageMeta) -> (r: Result<
        Self,
        IncomingError,
    >) {
        match value_slice(buf, meta) {
            None => Err(
                IncomingError::new(
                    IncomingErrorTy::BadLength,
                    "Attribute lies outside the message.",
                ),
            ),
            Some(value) => match algorithm_at(value, 0) {
                Ok(found) => Ok(found.0),
                Err(e) => Err(e),
            },
        }
    }

    fn size(&self) -> (n: usize) {
        4
    }
}

/// The PASSWORD-ALGORITHMS attribute.
///
/// Contains the list of algorithms that the server can use to derive the long-term password.
///
/// See [RFC8489 Section 14.11](https://datatracker.ietf.org/doc/html/rfc8489#section-14.11) for more details.
#[derive(Debug, PartialEq)]
pub struct PasswordAlgorithms {
    algorithms: Vec<PasswordAlgorithm>,
}

impl View for PasswordAlgorithms {
    type V = Seq<PasswordAlgorithm>;

    /// The algorithms, in the order of preference.
    closed spec fn view(&self) -> Seq<PasswordAlgorithm> {
        self.algorithms@
    }
}

impl PasswordAlgorithms {
    /// The attribute that offers `algorithms`.
    pub fn new(algorithms: Vec<PasswordAlgorithm>) -> (r: Self)
        ensures
            r@ == algorithms@,
    {
        Self { algorithms }
    }

    /// The algorithms, in the order of preference.
    pub fn algorithms(&self) -> (r: &Vec<PasswordAlgorithm>)
        ensures
            r@ == self@,
    {
        &self.algorithms
    }
}

impl Attribute for PasswordAlgorithms {
    const TY: u16 = 0x8002;

    const SIZE: usize = 0;

    proof fn lemma_constants()
        ensures
            Self::TY == 0x8002,
            Self::SIZE == 0,
    {
    }

    open spec fn spec_size(&self) -> nat {
        4 * self@.len()
    }

    open spec fn value(&self, id: Seq<u8>, prefix: Seq<u8>) -> Seq<u8> {
        algorithms_bytes(self@)
    }

    open spec fn failure(value: Seq<u8>, id: Seq<u8>) -> Option<Failure> {
        match algorithms_from(value, 0) {
            Ok(_) => None,
            Err(failure) => Some(failure),
        }
    }

    open spec fn holds(&self, value: Seq<u8>, id: Seq<u8>) -> bool {
        Ok::<Seq<PasswordAlgorithm>, Failure>(self@) == algorithms_from(value, 0)
    }

    proof fn lemma_size(&self, id: Seq<u8>, prefix: Seq<u8>) {
        lemma_algorithms_len(self@);
    }

    fn encode(&self, buf: &mut [u8], offset: usize, id: &TransactionId) {
        let n = self.algorithms.len();
        let total = buf.len();
        let mut i: usize = 0;
        while i < n
            invariant
                i <= n,
                n == self@.len(),
                offset + 4 * n <= total,
                buf@.len() == total,
                buf@ == splice(old(buf)@, offset as int, algorithms_bytes(self@.take(i as int))),
            decreases n - i,
        {
            proof {
                lemma_algorithms_len(self@.take(i as int));
                lemma_algorithms_len(self@.take(i + 1));
                assert(self@.take(i + 1).drop_last() =~= self@.take(i as int));
            }
            let at = offset + 4 * i;
            write_u16(buf, at, self.algorithms[i].id());
            write_u16(buf, at + 2, 0);
            i += 1;
            assert(buf@ =~= splice(
                old(buf)@,
                offset as int,
                algorithms_bytes(self@.take(i as int)),
            ));
        }
        assert(self@.take(n as int) =~= self@);
    }

    fn decode(buf: &[u8], meta: &AttributeMeta, header: &MessageMeta) -> (r: Result<
        Self,
        IncomingError,
    >) {
        let value = match value_slice(buf, meta) {
            None => {
                return Err(
                    IncomingError::new(
                        IncomingErrorTy::BadLength,
                        "Attribute lies outside the message.",
                    ),
                );
            },
            Some(value) => value,
        };
        let len = value.len();
        let mut i: usize = 0;
        let mut algorithms: Vec<PasswordAlgorithm> = Vec::new();

        while i < len
            invariant
                len == value@.len(),
                value@ == value_at(buf@, *meta),
                meta.offset + meta.len <= buf@.len(),
                algorithms_from(value@, 0) == match algorithms_from(value@, i as int) {
                    Ok(rest) => Ok::<Seq<PasswordAlgorithm>, Failure>(algorithms@ + rest),
                    Err(failure) => Err(failure),
                },
            decreases len - i,
        {
            let found = match algorithm_at(value, i) {
                Ok(found) => found,
                Err(e) => {
                    return Err(e);
                },
            };
            let ghost before = algorithms@;
            algorithms.push(found.0);
            let step = 4 + pad(found.1);
            proof {
                if let Ok(rest) = algorithms_from(value@, i + step) {
                    assert(before + (seq![found.0] + rest) =~= algorithms@ + rest);
                }
            }
            if step >= len - i {
                i = len;
            } else {
                i += step;
            }
        }
        assert(algorithms@ + Seq::<PasswordAlgorithm>::empty() =~= algorithms@);

        Ok(Self { algorithms })
    }

    fn size(&self) -> (n: usize) {
        self.algorithms.len() * 4
    }
}

} // verus!
