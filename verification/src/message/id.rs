use vstd::prelude::*;

verus! {

/// A 96-bit transaction ID.
#[derive(Debug, PartialEq, Eq, Clone, Copy)]
pub struct TransactionId(pub [u8; 12]);

impl View for TransactionId {
    type V = Seq<u8>;

    /// The twelve bytes as they stand in a header.
    open spec fn view(&self) -> Seq<u8> {
        self.0@
    }
}

/// Byte `i` of the twelve-byte network-order form of the low 96 bits of `id`.
pub open spec fn id_byte(id: u128, i: int) -> u8 {
    ((id >> (((11 - i) * 8) as u128)) & 0xff) as u8
}

/// Hands out twelve bytes from the thread-local generator of the `rand`
/// crate, `rand::random`. Nothing is claimed of them: every outcome is a
/// transaction ID.
#[verifier::external_body]
fn random_id_bytes() -> (bytes: [u8; 12]) {
    rand::random()
}

impl TransactionId {
    /// Creates a new transaction ID from a `u128`.
    ///
    /// The top 32 bits are discarded, leaving the bottom 96 bits.
    pub fn new(id: u128) -> (r: Self)
        ensures
            forall|i: int| 0 <= i < 12 ==> r@[i] == id_byte(id, i),
    {
        let bytes: [u8; 12] = [
            ((id >> 88) & 0xff) as u8,
            ((id >> 80) & 0xff) as u8,
            ((id >> 72) & 0xff) as u8,
            ((id >> 64) & 0xff) as u8,
            ((id >> 56) & 0xff) as u8,
            ((id >> 48) & 0xff) as u8,
            ((id >> 40) & 0xff) as u8,
            ((id >> 32) & 0xff) as u8,
            ((id >> 24) & 0xff) as u8,
            ((id >> 16) & 0xff) as u8,
            ((id >> 8) & 0xff) as u8,
            (id & 0xff) as u8,
        ];
        assert(id >> 0 == id) by (bit_vector);
        TransactionId(bytes)
    }

    /// Whether the two IDs hold the same bytes.
    pub fn same(&self, other: &Self) -> (r: bool)
        ensures
            r == (self@ == other@),
    {
        let mut i: usize = 0;
        while i < 12
            invariant
                i <= 12,
                forall|k: int| 0 <= k < i ==> self.0@[k] == other.0@[k],
            decreases 12 - i,
        {
            if self.0[i] != other.0[i] {
                return false;
            }
            i += 1;
        }
        assert(self@ =~= other@);
        true
    }
}

impl Default for TransactionId {
    /// A transaction ID drawn at random, as a request needs one.
    fn default() -> (r: Self)
        ensures
            r@.len() == 12,
    {
        TransactionId(random_id_bytes())
    }
}

} // verus!
