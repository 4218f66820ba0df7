use vstd::prelude::*;

use crate::message::id::TransactionId;
use crate::message::incoming::{Failure, IncomingError, IncomingErrorTy};
use crate::message::meta::{AttributeMeta, MessageMeta};
use crate::message::wire::{be16, read_u16, splice, u16_at, write_u16};
use super::fixed::bad_size;
use super::text::value_slice;
use super::{outside, Attribute};

verus! {

/// The UNKNOWN-ATTRIBUTES attribute.
///
/// Contains a list of attribute types that were not
/// understood by the server.
///
/// See [RFC8489 Section 14.13](https://datatracker.ietf.org/doc/html/rfc8489#section-14.13) for more details.
#[derive(Debug, PartialEq)]
pub struct UnknownAttributes {
    attributes: Vec<u16>,
}

/// The attribute types `types`, two bytes each, back to back.
pub open spec fn types_bytes(types: Seq<u16>) -> Seq<u8> {
    Seq::new(2 * types.len(), |i: int| be16(types[i / 2])[i % 2])
}

/// The attribute types that stand back to back in `value`.
pub open spec fn types_in(value: Seq<u8>) -> Seq<u16> {
    Seq::new(value.len() / 2, |i: int| u16_at(value, 2 * i))
}

/// The body of an UNKNOWN-ATTRIBUTES holds the types that it was made of.
pub proof fn lemma_types_round_trip(types: Seq<u16>)
    ensures
        types_bytes(types).len() % 2 == 0,
        types_in(types_bytes(types)) == types,
{
    let bytes = types_bytes(types);
    assert forall|i: int| 0 <= i < types.len() implies types_in(bytes)[i] == types[i] by {
        crate::message::wire::lemma_be16_value(types[i]);
        assert(bytes[2 * i] == be16(types[i])[0]);
        assert(bytes[2 * i + 1] == be16(types[i])[1]);
    }
    assert(types_in(bytes) =~= types);
}

impl View for UnknownAttributes {
    type V = Seq<u16>;

    /// The attribute types.
    closed spec fn view(&self) -> Seq<u16> {
        self.attributes@
    }
}

impl UnknownAttributes {
    /// The attribute that lists `attributes`.
    pub fn new(attributes: Vec<u16>) -> (r: Self)
        ensures
            r@ == attributes@,
    {
        Self { attributes }
    }

    /// The attribute types.
    pub fn attributes(&self) -> (r: &Vec<u16>)
        ensures
            r@ == self@,
    {
        &self.attributes
    }
}

impl Attribute for UnknownAttributes {
    const TY: u16 = 0x000A;

    const SIZE: usize = 0;

    proof fn lemma_constants()
        ensures
            Self::TY == 0x000A,
            Self::SIZE == 0,
    {
    }

    open spec fn spec_size(&self) -> nat {
        2 * self@.len()
    }

    open spec fn value(&self, id: Seq<u8>, prefix: Seq<u8>) -> Seq<u8> {
        types_bytes(self@)
    }

    open spec fn failure(value: Seq<u8>, id: Seq<u8>) -> Option<Failure> {
        if value.len() % 2 != 0 {
            Some(bad_size())
        } else {
            None
        }
    }

    open spec fn holds(&self, value: Seq<u8>, id: Seq<u8>) -> bool {
        self@ == types_in(value)
    }

    proof fn lemma_size(&self, id: Seq<u8>, prefix: Seq<u8>) {
    }

    fn encode(&self, buf: &mut [u8], offset: usize, id: &TransactionId) {
        let n = self.attributes.len();
        let total = buf.len();
        let mut i: usize = 0;
        while i < n
            invariant
                i <= n,
                n == self@.len(),
                offset + 2 * n <= total,
                buf@.len() == total,
                buf@ == splice(old(buf)@, offset as int, types_bytes(self@).take(2 * i)),
            decreases n - i,
        {
            write_u16(buf, offset + 2 * i, self.attributes[i]);
            i += 1;
            assert(buf@ =~= splice(old(buf)@, offset as int, types_bytes(self@).take(2 * i)));
        }
        assert(types_bytes(self@).take(2 * n) =~= types_bytes(self@));
    }

    fn decode(buf: &[u8], meta: &AttributeMeta, header: &MessageMeta) -> (r: Result<
        Self,
        IncomingError,
    >) {
        let value = match value_slice(buf, meta) {
            None => {
                return Err(
                    IncomingError::new(
                        IncomingErrorTy::BadLength,
                        "Attribute lies outside the message.",
                    ),
                );
            },
            Some(value) => value,
        };
        if value.len() % 2 != 0 {
            return Err(
                IncomingError::new(
                    IncomingErrorTy::BadLength,
                    "Attribute value has the wrong length.",
                ),
            );
        }
        let len = value.len();
        let n = len / 2;
        let mut attributes: Vec<u16> = Vec::new();
        let mut i: usize = 0;
        while i < n
            invariant
                i <= n,
                len == value@.len(),
                n == len / 2,
                len % 2 == 0,
                attributes@ == types_in(value@).take(i as int),
            decreases n - i,
        {
            attributes.push(read_u16(value, 2 * i));
            i += 1;
            assert(attributes@ =~= types_in(value@).take(i as int));
        }
        assert(types_in(value@).take(n as int) =~= types_in(value@));

        Ok(Self { attributes })
    }

    fn size(&self) -> (n: usize) {
        self.attributes.len() * 2
    }
}

} // verus!
