use vstd::prelude::*;

use crate::message::id::TransactionId;
use crate::message::meta::MessageMeta;
use super::Method;

verus! {

/// The Binding method, which asks for the reflexive transport address of
/// the sender.
#[derive(Debug, PartialEq, Eq, Clone, Copy, Structural)]
pub struct Binding;

pub const BINDING_METHOD: u16 = 0x01;

impl Method for Binding {
    const METHOD: u16 = 0x01;

    proof fn lemma_constants()
        ensures
            Self::METHOD == BINDING_METHOD,
    {
    }

    open spec fn spec_size(&self) -> nat {
        0
    }

    open spec fn emitted(&self, id: Seq<u8>, msg: Seq<u8>) -> Seq<u8> {
        msg
    }

    fn encode(&self, buf: &mut [u8], offset: &mut usize, id: &TransactionId) {
    }

    fn decode(meta: &MessageMeta) -> Self {
        Self
    }

    fn size(&self) -> (n: usize) {
        0
    }

    fn checked_size(&self) -> (r: Option<usize>) {
        Some(0)
    }
}

} // verus!
