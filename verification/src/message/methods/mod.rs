//! The methods of STUN messages.

use vstd::prelude::*;

use self::sealed::Sealed;
use super::id::TransactionId;
use super::incoming::{unknown_method, IncomingError, IncomingErrorTy};
use super::meta::MessageMeta;
use super::wire::{building, kept};

mod binding;
mod sealed;

pub use binding::{Binding, BINDING_METHOD};

verus! {

/// The method of a decoded message.
#[derive(Debug, PartialEq, Eq, Clone, Copy, Structural)]
pub enum MethodTy {
    Binding(Binding),
}

impl MethodTy {
    /// The method that the header names, or `UnknownMethod`.
    pub fn decode(meta: &MessageMeta) -> (r: Result<Self, IncomingError>)
        ensures
            meta.method == BINDING_METHOD ==> r == Ok::<Self, IncomingError>(
                MethodTy::Binding(Binding),
            ),
            meta.method != BINDING_METHOD ==> (r matches Err(e) && e.reports(
                unknown_method(meta.method),
            )),
    {
        return match meta.method {
            BINDING_METHOD => Ok(MethodTy::Binding(Binding::decode(meta))),
            m => Err(IncomingError::unknown(IncomingErrorTy::UnknownMethod, "Unknown method: ", m)),
        };
    }
}

/// Sealed trait for method types.
pub trait Method: Sealed + Sized {
    const METHOD: u16;

    /// States the value of `METHOD`, for those who see the type from
    /// outside its module.
    proof fn lemma_constants()
    ;

    /// The bytes that the attributes of the method take.
    spec fn spec_size(&self) -> nat;

    /// `msg` with the attributes of the method behind it, in a message
    /// with transaction ID `id`.
    spec fn emitted(&self, id: Seq<u8>, msg: Seq<u8>) -> Seq<u8>;

    /// Encodes the attributes of the method behind the message that `buf`
    /// holds in its first `offset` bytes.
    fn encode(&self, buf: &mut [u8], offset: &mut usize, id: &TransactionId)
        requires
            building(old(buf)@, *old(offset) as int),
            *old(offset) + self.spec_size() <= old(buf)@.len(),
            *old(offset) - 20 + self.spec_size() <= 0xFFFF,
        ensures
            final(buf)@.len() == old(buf)@.len(),
            *final(offset) == *old(offset) + self.spec_size(),
            building(final(buf)@, *final(offset) as int),
            kept(old(buf)@, final(buf)@, *old(offset) as int),
            final(buf)@.subrange(0, *final(offset) as int) == self.emitted(
                id@,
                old(buf)@.subrange(0, *old(offset) as int),
            ),
    ;

    /// The method of a message with the given header.
    fn decode(meta: &MessageMeta) -> Self;

    /// The bytes that the attributes of the method take.
    fn size(&self) -> (n: usize)
        requires
            self.spec_size() <= usize::MAX,
        ensures
            n == self.spec_size(),
    ;

    /// The bytes that the attributes of the method take, if a message
    /// has room for them.
    fn checked_size(&self) -> (r: Option<usize>)
        ensures
            r == (if self.spec_size() <= 0xFFFF {
                Some(self.spec_size() as usize)
            } else {
                None
            }),
    ;
}

} // verus!
