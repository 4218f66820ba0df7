use vstd::prelude::*;

use crate::message::id::TransactionId;
use crate::message::incoming::{Failure, IncomingError};
use crate::message::meta::{AttributeMeta, MessageMeta};
use super::Attribute;
use super::address::{address_failure, address_in, TransportAddress};

verus! {

/// The ALTERNATE-SERVER attribute.
///
/// Represents an alternate transport address that the client should try.
///
/// See [RFC8489 Section 14.15](https://datatracker.ietf.org/doc/html/rfc8489#section-14.15) for more details.
#[derive(Debug, PartialEq, Eq, Clone, Copy)]
pub struct AlternateServer {
    addr: TransportAddress,
}

impl View for AlternateServer {
    type V = TransportAddress;

    /// The address.
    closed spec fn view(&self) -> TransportAddress {
        self.addr
    }
}

impl AlternateServer {
    /// The attribute that carries the given address.
    pub fn new(addr: TransportAddress) -> (r: Self)
        ensures
            r@ == addr,
    {
        Self { addr }
    }

    /// The address.
    pub fn addr(&self) -> (addr: TransportAddress)
        ensures
            addr == self@,
    {
        self.addr
    }

    /// Puts `addr` in place of the address.
    pub fn set_addr(&mut self, addr: TransportAddress)
        ensures
            final(self)@ == addr,
    {
        self.addr = addr;
    }
}

impl Attribute for AlternateServer {
    const TY: u16 = 0x8023;

    const SIZE: usize = 0;

    proof fn lemma_constants()
        ensures
            Self::TY == 0x8023,
            Self::SIZE == 0,
    {
    }

    open spec fn spec_size(&self) -> nat {
        match self@ {
            TransportAddress::V4 { .. } => 8,
            TransportAddress::V6 { .. } => 20,
        }
    }

    open spec fn value(&self, id: Seq<u8>, prefix: Seq<u8>) -> Seq<u8> {
        self@.bytes()
    }

    open spec fn failure(value: Seq<u8>, id: Seq<u8>) -> Option<Failure> {
        address_failure(value)
    }

    open spec fn holds(&self, value: Seq<u8>, id: Seq<u8>) -> bool {
        self@ == address_in(value)
    }

    proof fn lemma_size(&self, id: Seq<u8>, prefix: Seq<u8>) {
    }

    fn encode(&self, buf: &mut [u8], offset: usize, id: &TransactionId) {
        self.addr.write(buf, offset);
    }

    fn decode(buf: &[u8], meta: &AttributeMeta, header: &MessageMeta) -> (r: Result<
        Self,
        IncomingError,
    >) {
        match TransportAddress::read(buf, meta) {
            Ok(addr) => Ok(Self { addr }),
            Err(e) => Err(e),
        }
    }

    fn size(&self) -> (n: usize) {
        self.addr.size()
    }
}

} // verus!
