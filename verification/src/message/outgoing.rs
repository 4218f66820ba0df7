use bytes::Bytes;
use vstd::prelude::*;

use super::attributes::{
    attribute_size, emit, encode_attribute, fingerprint_of, Attribute, Fingerprint, Software,
};
use super::buffer::{bytes_from_vec, contents};
use super::id::TransactionId;
use super::meta::{message_type, FINGERPRINT};
use super::wire::{
    appended, be16, be32, building, covered, is_message, kept, lemma_appended_parts,
    lemma_be16_value, lemma_be32_value, pad, u16_at, u32_at, write_bytes, write_u16, write_u32,
    zeros,
};
use super::{Class, MAGIC};

verus! {

/// What the SOFTWARE attribute of an outgoing message says.
pub const SOFTWARE_DESCRIPTION: &'static str = "flashbang";

/// An outgoing STUN message.
pub struct OutgoingMessage<T: Class> {
    pub transaction_id: TransactionId,
    pub body: T,
    pub software: bool,
    pub fingerprint: bool,
}

/// The header of a message without attributes.
pub open spec fn header(ty: u16, id: Seq<u8>) -> Seq<u8> {
    be16(ty) + be16(0) + be32(MAGIC) + id
}

/// Whether the last attribute of `msg` is a FINGERPRINT that holds the
/// fingerprint of all bytes of `msg` in front of it.
pub open spec fn ends_with_fingerprint(msg: Seq<u8>) -> bool {
    &&& msg.len() >= 28
    &&& u16_at(msg, msg.len() - 8) == FINGERPRINT
    &&& u16_at(msg, msg.len() - 6) == 4
    &&& u32_at(msg, msg.len() - 4) == fingerprint_of(msg.subrange(0, msg.len() - 8))
}

/// A message that grew by a FINGERPRINT ends with the fingerprint of the
/// bytes in front of it.
pub proof fn lemma_fingerprint_last(msg: Seq<u8>)
    requires
        is_message(msg),
        msg.len() - 20 + 8 <= 0xFFFF,
    ensures
        ends_with_fingerprint(appended(msg, FINGERPRINT, be32(fingerprint_of(covered(msg, 4))))),
{
    let value = be32(fingerprint_of(covered(msg, 4)));
    let grown = appended(msg, FINGERPRINT, value);
    lemma_appended_parts(msg, FINGERPRINT, value);
    lemma_be32_value(fingerprint_of(covered(msg, 4)));
    let at = msg.len() as int;
    assert(grown.subrange(0, at) =~= grown.subrange(0, grown.len() - 8));
    assert(grown.subrange(at + 4, at + 8) =~= value);
    assert(grown[at + 4] == value[0] && grown[at + 5] == value[1] && grown[at + 6] == value[2]
        && grown[at + 7] == value[3]);
}

/// Writes the header of a message without attributes into a zeroed buffer.
fn encode_header(buf: &mut [u8], ty: u16, id: &TransactionId)
    requires
        old(buf)@.len() >= 20,
        old(buf)@ == zeros(old(buf)@.len() as int),
    ensures
        final(buf)@.len() == old(buf)@.len(),
        building(final(buf)@, 20),
        final(buf)@.subrange(0, 20) == header(ty, id@),
{
    write_u16(buf, 0, ty);

    // skip encoding the message size
    // certain attributes require the size to only include up to the attribute
    // instead, the size is incremented as the message is encoded

    // encode the magic symbol
    write_u32(buf, 4, MAGIC);

    // encode the transaction id
    write_bytes(buf, 8, id.0.as_slice());
    assert(buf@.subrange(0, 20) =~= header(ty, id@));
    assert(buf@.subrange(0, 20)[2] == 0 && buf@.subrange(0, 20)[3] == 0);
}

/// What a message keeps of its header while attributes are put behind it.
pub proof fn lemma_header_kept(start: Seq<u8>, end: Seq<u8>, ty: u16, id: Seq<u8>)
    requires
        start.len() >= 20,
        end.len() >= 20,
        id.len() == 12,
        start.subrange(0, 20) == header(ty, id),
        kept(start, end, 20),
    ensures
        u16_at(end, 0) == ty,
        end.subrange(4, 8) == be32(MAGIC),
        u32_at(end, 4) == MAGIC,
        end.subrange(8, 20) == id,
{
    let head = start.subrange(0, 20);
    assert forall|i: int| 0 <= i < 20 implies start[i] == header(ty, id)[i] by {
        assert(start[i] == head[i]);
    }
    lemma_be16_value(ty);
    lemma_be32_value(MAGIC);
    assert(end[0] == be16(ty)[0] && end[1] == be16(ty)[1]);
    assert(end.subrange(4, 8) =~= be32(MAGIC));
    assert(end[4] == be32(MAGIC)[0] && end[5] == be32(MAGIC)[1] && end[6] == be32(MAGIC)[2]
        && end[7] == be32(MAGIC)[3]);
    assert(end.subrange(8, 20) =~= id);
}

impl<T: Class> OutgoingMessage<T> {
    /// The size of the encoded message.
    pub open spec fn spec_size(&self) -> nat {
        20 + self.body.spec_size() + (if self.software {
            attribute_size(Software::software_size())
        } else {
            0
        }) + (if self.fingerprint {
            attribute_size(4)
        } else {
            0
        })
    }

    /// Whether the message can be encoded: every attribute is as short as
    /// its kind demands, and the length field has room for all of them.
    pub open spec fn encodable(&self) -> bool {
        self.body.fits() && self.spec_size() - 20 <= 0xFFFF
    }

    /// The message on the wire: the header, the attributes of the body,
    /// then SOFTWARE and FINGERPRINT where they are asked for.
    pub open spec fn wire(&self) -> Seq<u8> {
        self.with_tail(
            self.body.emitted(
                self.transaction_id@,
                header(message_type(T::CLASS, T::METHOD), self.transaction_id@),
            ),
        )
    }

    /// Encodes the message.
    ///
    /// The result is `wire()`. It is a whole number of 32-bit words, its
    /// length field counts the bytes behind the header, it carries the
    /// magic cookie and the transaction ID, and where a fingerprint is
    /// asked for, its last four bytes are the fingerprint of all bytes in
    /// front of the FINGERPRINT attribute.
    pub fn encode(&self) -> (r: Bytes)
        requires
            self.encodable(),
        ensures
            contents(r) == self.wire(),
            contents(r).len() == self.spec_size(),
            contents(r).len() % 4 == 0,
            u16_at(contents(r), 0) == message_type(T::CLASS, T::METHOD),
            u16_at(contents(r), 2) == contents(r).len() - 20,
            contents(r).subrange(4, 8) == be32(MAGIC),
            u32_at(contents(r), 4) == MAGIC,
            contents(r).subrange(8, 20) == self.transaction_id@,
            self.fingerprint ==> ends_with_fingerprint(contents(r)),
    {
        let size = self.size();

        let mut buf: Vec<u8> = vec![0u8; size];
        assert(buf@ =~= zeros(size as int));

        // encode message type (and conduct sanity check for top two bits)
        let ty = ((T::METHOD & 0x1F80) << 2) | ((T::METHOD & 0x0070) << 1) | (T::METHOD & 0x000F)
            | ((T::CLASS & 0x0002) << 7) | ((T::CLASS & 0x0001) << 4);
        encode_header(buf.as_mut_slice(), ty & 0x3FFF, &self.transaction_id);
        let ghost start = buf@;

        // set initial offset to be the size of the header
        let mut offset: usize = 20;

        // encode the message body
        self.body.encode(buf.as_mut_slice(), &mut offset, &self.transaction_id);

        // encode the SOFTWARE and FINGERPRINT attributes, if desired
        self.encode_tail(buf.as_mut_slice(), &mut offset);
        proof {
            assert(buf@.subrange(0, size as int) =~= buf@);
            lemma_header_kept(start, buf@, ty & 0x3FFF, self.transaction_id@);
        }

        bytes_from_vec(buf)
    }

    /// `body` with SOFTWARE and FINGERPRINT behind it, where they are asked for.
    pub open spec fn with_tail(&self, body: Seq<u8>) -> Seq<u8> {
        let with_software = if self.software {
            Software::emitted(self.transaction_id@, body)
        } else {
            body
        };
        if self.fingerprint {
            emit(Fingerprint::Outgoing, self.transaction_id@, with_software)
        } else {
            with_software
        }
    }

    /// The bytes that SOFTWARE and FINGERPRINT take, where they are asked for.
    pub open spec fn tail_size(&self) -> nat {
        (if self.software {
            attribute_size(Software::software_size())
        } else {
            0
        }) + (if self.fingerprint {
            attribute_size(4)
        } else {
            0
        })
    }

    /// Encodes SOFTWARE and FINGERPRINT, where they are asked for, behind
    /// the message that `buf` holds in its first `offset` bytes.
    fn encode_tail(&self, buf: &mut [u8], offset: &mut usize)
        requires
            building(old(buf)@, *old(offset) as int),
            *old(offset) + self.tail_size() <= old(buf)@.len(),
            *old(offset) - 20 + self.tail_size() <= 0xFFFF,
        ensures
            final(buf)@.len() == old(buf)@.len(),
            *final(offset) == *old(offset) + self.tail_size(),
            building(final(buf)@, *final(offset) as int),
            kept(old(buf)@, final(buf)@, *old(offset) as int),
            final(buf)@.subrange(0, *final(offset) as int) == self.with_tail(
                old(buf)@.subrange(0, *old(offset) as int),
            ),
            self.fingerprint ==> ends_with_fingerprint(
                final(buf)@.subrange(0, *final(offset) as int),
            ),
    {
        if self.software {
            encode_attribute(
                &Software::new(SOFTWARE_DESCRIPTION),
                buf,
                offset,
                &self.transaction_id,
            );
        }
        let ghost unsigned = buf@.subrange(0, *offset as int);

        if self.fingerprint {
            proof {
                Fingerprint::lemma_constants();
            }
            encode_attribute(&Fingerprint::Outgoing, buf, offset, &self.transaction_id);
            proof {
                lemma_fingerprint_last(unsigned);
            }
        }
    }

    /// Encodes the message, if it can be encoded.
    pub fn try_encode(&self) -> (r: Option<Bytes>)
        ensures
            r is Some <==> self.encodable(),
            r matches Some(bytes) ==> contents(bytes) == self.wire(),
    {
        let body = match self.body.checked_size() {
            Some(n) => n,
            None => {
                return None;
            },
        };
        let mut tail: usize = 0;
        if self.software {
            let software = Software::new(SOFTWARE_DESCRIPTION);
            if software.len() > 0xFFFF {
                return None;
            }
            tail += pad(software.len()) + 4;
        }
        if self.fingerprint {
            tail += 8;
        }
        if tail > 0xFFFF - body {
            return None;
        }
        Some(self.encode())
    }

    /// The size of the encoded message.
    pub fn size(&self) -> (size: usize)
        requires
            self.spec_size() <= usize::MAX,
        ensures
            size == self.spec_size(),
    {
        let mut size = 20 + self.body.size();

        if self.software {
            size += pad(Software::new(SOFTWARE_DESCRIPTION).size()) + 4;
        }
        if self.fingerprint {
            proof {
                Fingerprint::lemma_constants();
            }
            size += pad(Fingerprint::SIZE) + 4;
        }
        size
    }
}

} // verus!
