//! Transport addresses as the address attributes carry them.

use vstd::prelude::*;

use crate::message::MAGIC;
use crate::message::id::TransactionId;
use crate::message::incoming::{Failure, IncomingError, IncomingErrorTy};
use crate::message::meta::AttributeMeta;
use crate::message::wire::{be16, be32, read_u16, splice, u16_at, write_bytes, write_u16};
use super::fixed::bad_size;
use super::text::value_slice;
use super::{outside, value_at};

verus! {

/// An IP address and a port.
#[derive(Debug, PartialEq, Eq, Clone, Copy)]
#[allow(inconsistent_fields)]
pub enum TransportAddress {
    /// An IPv4 address, its four bytes in network order.
    V4 { octets: [u8; 4], port: u16 },
    /// An IPv6 address, its sixteen bytes in network order.
    V6 { octets: [u8; 16], port: u16 },
}

/// The family of IPv4 addresses.
pub const FAMILY_V4: u8 = 0x01;

/// The family of IPv6 addresses.
pub const FAMILY_V6: u8 = 0x02;

/// Byte `i` of the magic cookie in network order.
pub open spec fn magic_byte(i: int) -> u8 {
    be32(MAGIC)[i]
}

/// The top sixteen bits of the magic cookie, which a port is XORed with.
pub open spec fn magic_port() -> u16 {
    (MAGIC >> 16) as u16
}

/// What a decoder reports for an address whose first byte is not zero.
pub open spec fn bad_reserved() -> Failure {
    (IncomingErrorTy::BadFormat, "The first byte of an address MUST be zero."@)
}

/// What a decoder reports for an address of an unknown family.
pub open spec fn bad_family() -> Failure {
    (IncomingErrorTy::BadFormat, "Family must be 1 or 2."@)
}

/// Why `value` is not the body of an address attribute, if it is none.
pub open spec fn address_failure(value: Seq<u8>) -> Option<Failure> {
    if value.len() < 4 {
        Some(bad_size())
    } else if value[0] != 0 {
        Some(bad_reserved())
    } else if value[1] == FAMILY_V4 {
        if value.len() == 8 {
            None
        } else {
            Some(bad_size())
        }
    } else if value[1] == FAMILY_V6 {
        if value.len() == 20 {
            None
        } else {
            Some(bad_size())
        }
    } else {
        Some(bad_family())
    }
}

/// The address that the body `value` holds as it is.
pub open spec fn address_in(value: Seq<u8>) -> TransportAddress {
    if value[1] == FAMILY_V4 {
        TransportAddress::V4 {
            octets: [value[4], value[5], value[6], value[7]],
            port: u16_at(value, 2),
        }
    } else {
        TransportAddress::V6 {
            octets: [
                value[4],
                value[5],
                value[6],
                value[7],
                value[8],
                value[9],
                value[10],
                value[11],
                value[12],
                value[13],
                value[14],
                value[15],
                value[16],
                value[17],
                value[18],
                value[19],
            ],
            port: u16_at(value, 2),
        }
    }
}

/// The magic cookie in bytes, and its top half.
pub proof fn lemma_magic()
    ensures
        magic_byte(0) == 0x21,
        magic_byte(1) == 0x12,
        magic_byte(2) == 0xA4,
        magic_byte(3) == 0x42,
        magic_port() == 0x2112,
{
    assert((0x2112A442u32 >> 16) as u16 == 0x2112u16) by (bit_vector);
}

impl TransportAddress {
    /// The family of the address as an attribute names it.
    pub open spec fn family(&self) -> u8 {
        match self {
            TransportAddress::V4 { .. } => FAMILY_V4,
            TransportAddress::V6 { .. } => FAMILY_V6,
        }
    }

    /// The port.
    pub open spec fn spec_port(&self) -> u16 {
        match self {
            TransportAddress::V4 { port, .. } => *port,
            TransportAddress::V6 { port, .. } => *port,
        }
    }

    /// The bytes of the IP address in network order.
    pub open spec fn octets(&self) -> Seq<u8> {
        match self {
            TransportAddress::V4 { octets, .. } => octets@,
            TransportAddress::V6 { octets, .. } => octets@,
        }
    }

    /// The body of an attribute that carries the address as it is: a zero
    /// byte, the family, the port and the IP address.
    pub open spec fn bytes(&self) -> Seq<u8> {
        seq![0u8, self.family()] + be16(self.spec_port()) + self.octets()
    }

    /// The address obfuscated for a message with transaction ID `id`: the
    /// port XORed with the top half of the magic cookie, an IPv4 address
    /// with the magic cookie, an IPv6 address with the magic cookie
    /// followed by `id`.
    pub open spec fn spec_xor(&self, id: Seq<u8>) -> TransportAddress {
        match self {
            TransportAddress::V4 { octets, port } => TransportAddress::V4 {
                octets: [
                    octets[0] ^ magic_byte(0),
                    octets[1] ^ magic_byte(1),
                    octets[2] ^ magic_byte(2),
                    octets[3] ^ magic_byte(3),
                ],
                port: *port ^ magic_port(),
            },
            TransportAddress::V6 { octets, port } => TransportAddress::V6 {
                octets: [
                    octets[0] ^ magic_byte(0),
                    octets[1] ^ magic_byte(1),
                    octets[2] ^ magic_byte(2),
                    octets[3] ^ magic_byte(3),
                    octets[4] ^ id[0],
                    octets[5] ^ id[1],
                    octets[6] ^ id[2],
                    octets[7] ^ id[3],
                    octets[8] ^ id[4],
                    octets[9] ^ id[5],
                    octets[10] ^ id[6],
                    octets[11] ^ id[7],
                    octets[12] ^ id[8],
                    octets[13] ^ id[9],
                    octets[14] ^ id[10],
                    octets[15] ^ id[11],
                ],
                port: *port ^ magic_port(),
            },
        }
    }

    /// The port.
    pub fn port(&self) -> (port: u16)
        ensures
            port == self.spec_port(),
    {
        match self {
            TransportAddress::V4 { port, .. } => *port,
            TransportAddress::V6 { port, .. } => *port,
        }
    }

    /// The size of the body of an attribute that carries the address.
    pub fn size(&self) -> (n: usize)
        ensures
            n == self.bytes().len(),
            n == 8 || n == 20,
    {
        match self {
            TransportAddress::V4 { .. } => 8,
            TransportAddress::V6 { .. } => 20,
        }
    }

    /// Obfuscates the address for a message with transaction ID `id`, or
    /// takes the obfuscation off again.
    pub fn xor(&self, id: &TransactionId) -> (r: Self)
        ensures
            r == self.spec_xor(id@),
    {
        proof {
            lemma_magic();
        }
        match self {
            TransportAddress::V4 { octets, port } => TransportAddress::V4 {
                octets: [octets[0] ^ 0x21, octets[1] ^ 0x12, octets[2] ^ 0xA4, octets[3] ^ 0x42],
                port: *port ^ 0x2112,
            },
            TransportAddress::V6 { octets, port } => TransportAddress::V6 {
                octets: [
                    octets[0] ^ 0x21,
                    octets[1] ^ 0x12,
                    octets[2] ^ 0xA4,
                    octets[3] ^ 0x42,
                    octets[4] ^ id.0[0],
                    octets[5] ^ id.0[1],
                    octets[6] ^ id.0[2],
                    octets[7] ^ id.0[3],
                    octets[8] ^ id.0[4],
                    octets[9] ^ id.0[5],
                    octets[10] ^ id.0[6],
                    octets[11] ^ id.0[7],
                    octets[12] ^ id.0[8],
                    octets[13] ^ id.0[9],
                    octets[14] ^ id.0[10],
                    octets[15] ^ id.0[11],
                ],
                port: *port ^ 0x2112,
            },
        }
    }

    /// Writes the body of an attribute that carries the address as it is.
    pub fn write(&self, buf: &mut [u8], offset: usize)
        requires
            offset + self.bytes().len() <= old(buf)@.len(),
        ensures
            final(buf)@ == splice(old(buf)@, offset as int, self.bytes()),
    {
        let total = buf.len();
        // sanity check: first 8 bits MUST be set to 0
        buf[offset] = 0;

        // encode the family, port and address
        match self {
            TransportAddress::V4 { octets, port } => {
                buf[offset + 1] = FAMILY_V4;
                write_u16(buf, offset + 2, *port);
                write_bytes(buf, offset + 4, octets.as_slice());
            },
            TransportAddress::V6 { octets, port } => {
                buf[offset + 1] = FAMILY_V6;
                write_u16(buf, offset + 2, *port);
                write_bytes(buf, offset + 4, octets.as_slice());
            },
        }
        assert(buf@ =~= splice(old(buf)@, offset as int, self.bytes()));
    }

    /// Reads the address that `meta` points at in `buf` as it is.
    pub fn read(buf: &[u8], meta: &AttributeMeta) -> (r: Result<Self, IncomingError>)
        ensures
            meta.offset + meta.len > buf@.len() ==> (r matches Err(e) && e.reports(outside())),
            meta.offset + meta.len <= buf@.len() ==> match address_failure(value_at(buf@, *meta)) {
                Some(failure) => r matches Err(e) && e.reports(failure),
                None => r matches Ok(addr) && addr == address_in(value_at(buf@, *meta)),
            },
    {
        let value = match value_slice(buf, meta) {
            None => {
                return Err(
                    IncomingError::new(
                        IncomingErrorTy::BadLength,
                        "Attribute lies outside the message.",
                    ),
                );
            },
            Some(value) => value,
        };
        if value.len() < 4 {
            return Err(
                IncomingError::new(
                    IncomingErrorTy::BadLength,
                    "Attribute value has the wrong length.",
                ),
            );
        }
        if value[0] != 0 {
            return Err(
                IncomingError::new(
                    IncomingErrorTy::BadFormat,
                    "The first byte of an address MUST be zero.",
                ),
            );
        }
        match value[1] {
            0x01 => {
                if value.len() != 8 {
                    return Err(
                        IncomingError::new(
                            IncomingErrorTy::BadLength,
                            "Attribute value has the wrong length.",
                        ),
                    );
                }
                let port = read_u16(value, 2);

                let octets: [u8; 4] = [value[4], value[5], value[6], value[7]];

                Ok(TransportAddress::V4 { octets, port })
            },
            0x02 => {
                if value.len() != 20 {
                    return Err(
                        IncomingError::new(
                            IncomingErrorTy::BadLength,
                            "Attribute value has the wrong length.",
                        ),
                    );
                }
                let port = read_u16(value, 2);

                let octets: [u8; 16] = [
                    value[4],
                    value[5],
                    value[6],
                    value[7],
                    value[8],
                    value[9],
                    value[10],
                    value[11],
                    value[12],
                    value[13],
                    value[14],
                    value[15],
                    value[16],
                    value[17],
                    value[18],
                    value[19],
                ];

                Ok(TransportAddress::V6 { octets, port })
            },
            _ => Err(IncomingError::new(IncomingErrorTy::BadFormat, "Family must be 1 or 2.")),
        }
    }
}

/// Obfuscating an address twice for the same message gives the address back.
pub proof fn lemma_xor_involution(addr: TransportAddress, id: Seq<u8>)
    ensures
        addr.spec_xor(id).spec_xor(id) == addr,
{
    assert forall|x: u8, y: u8| (x ^ y) ^ y == x by {
        assert((x ^ y) ^ y == x) by (bit_vector);
    }
    assert forall|x: u16, y: u16| (x ^ y) ^ y == x by {
        assert((x ^ y) ^ y == x) by (bit_vector);
    }
    match addr {
        TransportAddress::V4 { octets, port } => {
            let twice = addr.spec_xor(id).spec_xor(id);
            assert(twice->V4_octets =~= octets);
        },
        TransportAddress::V6 { octets, port } => {
            let twice = addr.spec_xor(id).spec_xor(id);
            assert(twice->V6_octets =~= octets);
        },
    }
}

/// The body of an address attribute holds the address that it was made of.
pub proof fn lemma_address_round_trip(addr: TransportAddress)
    ensures
        address_failure(addr.bytes()) is None,
        address_in(addr.bytes()) == addr,
{
    crate::message::wire::lemma_be16_value(addr.spec_port());
    let value = addr.bytes();
    assert(u16_at(value, 2) == u16_at(be16(addr.spec_port()), 0));
    match addr {
        TransportAddress::V4 { octets, port } => {
            assert(address_in(value)->V4_octets =~= octets);
        },
        TransportAddress::V6 { octets, port } => {
            assert(address_in(value)->V6_octets =~= octets);
        },
    }
}

/// The body of an XOR-MAPPED-ADDRESS holds the address that it was made
/// of: taking the obfuscation off what was read gives the address, for
/// every transaction ID.
pub proof fn lemma_xor_round_trip(addr: TransportAddress, id: Seq<u8>)
    ensures
        address_failure(addr.spec_xor(id).bytes()) is None,
        address_in(addr.spec_xor(id).bytes()).spec_xor(id) == addr,
{
    lemma_address_round_trip(addr.spec_xor(id));
    lemma_xor_involution(addr, id);
}

} // verus!
