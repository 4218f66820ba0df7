//! CRC-32 as IEEE 802.3 defines it, bit by bit.

use vstd::prelude::*;

verus! {

/// The generator polynomial of IEEE 802.3, bits reflected.
pub const POLYNOMIAL: u32 = 0xEDB8_8320;

/// One step of the division: the register moves one bit to the right, and
/// the polynomial is taken off where a one fell out.
pub open spec fn shift(crc: u32) -> u32 {
    if crc & 1 == 1 {
        (crc >> 1) ^ POLYNOMIAL
    } else {
        crc >> 1
    }
}

/// `n` steps of the division.
pub open spec fn shifts(crc: u32, n: nat) -> u32
    decreases n,
{
    if n == 0 {
        crc
    } else {
        shift(shifts(crc, (n - 1) as nat))
    }
}

/// The register after `data` went through it, starting from `crc`.
pub open spec fn fold(crc: u32, data: Seq<u8>) -> u32
    decreases data.len(),
{
    if data.len() == 0 {
        crc
    } else {
        shifts(fold(crc, data.drop_last()) ^ data.last() as u32, 8)
    }
}

/// The CRC-32 of `data`.
pub open spec fn crc32(data: Seq<u8>) -> u32 {
    fold(0xFFFF_FFFF, data) ^ 0xFFFF_FFFF
}

/// Computes the CRC-32 of `data`.
pub fn checksum(data: &[u8]) -> (crc: u32)
    ensures
        crc == crc32(data@),
{
    let mut crc: u32 = 0xFFFF_FFFF;
    let mut i: usize = 0;
    while i < data.len()
        invariant
            i <= data@.len(),
            crc == fold(0xFFFF_FFFF, data@.take(i as int)),
        decreases data@.len() - i,
    {
        let ghost before = crc;
        crc = crc ^ (data[i] as u32);
        let mut bit: u8 = 0;
        while bit < 8
            invariant
                bit <= 8,
                crc == shifts(before ^ data@[i as int] as u32, bit as nat),
            decreases 8 - bit,
        {
            crc = if crc & 1 == 1 {
                (crc >> 1) ^ POLYNOMIAL
            } else {
                crc >> 1
            };
            bit += 1;
        }
        assert(data@.take(i + 1).drop_last() =~= data@.take(i as int));
        i += 1;
    }
    assert(data@.take(i as int) =~= data@);
    crc ^ 0xFFFF_FFFF
}

} // verus!
