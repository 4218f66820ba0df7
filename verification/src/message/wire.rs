//! Bytes on the wire: big-endian integers, 32-bit alignment, and the image of
//! a message that grows attribute by attribute.

use vstd::prelude::*;

verus! {

/// `n` rounded up to the next multiple of four.
pub open spec fn padded(n: int) -> int {
    (n + 3) / 4 * 4
}

/// The two bytes of `x` in network order.
pub open spec fn be16(x: u16) -> Seq<u8> {
    seq![(x / 256) as u8, (x % 256) as u8]
}

/// The four bytes of `x` in network order.
pub open spec fn be32(x: u32) -> Seq<u8> {
    seq![
        (x / 0x100_0000) as u8,
        (x / 0x1_0000 % 256) as u8,
        (x / 0x100 % 256) as u8,
        (x % 256) as u8,
    ]
}

/// The 16-bit integer that `buf` holds in network order at `i`.
pub open spec fn u16_at(buf: Seq<u8>, i: int) -> u16 {
    (buf[i] as int * 256 + buf[i + 1] as int) as u16
}

/// The 32-bit integer that `buf` holds in network order at `i`.
pub open spec fn u32_at(buf: Seq<u8>, i: int) -> u32 {
    (buf[i] as int * 0x100_0000 + buf[i + 1] as int * 0x1_0000 + buf[i + 2] as int * 0x100 + buf[i
        + 3] as int) as u32
}

/// `n` zero bytes.
pub open spec fn zeros(n: int) -> Seq<u8> {
    Seq::new(n as nat, |i: int| 0u8)
}

/// `buf` with the bytes from `at` on overwritten by `bytes`.
pub open spec fn splice(buf: Seq<u8>, at: int, bytes: Seq<u8>) -> Seq<u8> {
    Seq::new(
        buf.len(),
        |i: int|
            if at <= i < at + bytes.len() {
                bytes[i - at]
            } else {
                buf[i]
            },
    )
}

/// Whether `msg` is a message as far as it has been written: a header and
/// whole attributes behind it, counted by the header's length field.
pub open spec fn is_message(msg: Seq<u8>) -> bool {
    &&& msg.len() >= 20
    &&& msg.len() % 4 == 0
    &&& msg.len() - 20 <= 0xFFFF
    &&& u16_at(msg, 2) == msg.len() - 20
}

/// `msg` with its length field announcing `body` bytes behind the header.
pub open spec fn with_length(msg: Seq<u8>, body: int) -> Seq<u8> {
    splice(msg, 2, be16(body as u16))
}

/// One attribute on the wire: type, length of the value, the value, and
/// zeros up to the next 32-bit boundary.
pub open spec fn attribute_bytes(ty: u16, value: Seq<u8>) -> Seq<u8> {
    be16(ty) + be16(value.len() as u16) + value + zeros(padded(value.len() as int) - value.len())
}

/// What the value of an attribute of `size` bytes is computed over when the
/// attribute comes behind `msg`: all of `msg`, its length field counting the
/// new attribute already.
pub open spec fn covered(msg: Seq<u8>, size: int) -> Seq<u8> {
    with_length(msg, msg.len() - 20 + 4 + padded(size))
}

/// `msg` grown by one attribute.
pub open spec fn appended(msg: Seq<u8>, ty: u16, value: Seq<u8>) -> Seq<u8> {
    covered(msg, value.len() as int) + attribute_bytes(ty, value)
}

/// Whether `buf` holds a message in its first `offset` bytes and zeros behind it.
pub open spec fn building(buf: Seq<u8>, offset: int) -> bool {
    &&& 20 <= offset <= buf.len()
    &&& is_message(buf.subrange(0, offset))
    &&& forall|i: int| offset <= i < buf.len() ==> buf[i] == 0
}

/// Whether `new` holds the first `upto` bytes of `old`, but for the length
/// field in bytes 2 and 3.
pub open spec fn kept(old: Seq<u8>, new: Seq<u8>, upto: int) -> bool {
    forall|i: int| 0 <= i < upto && i != 2 && i != 3 ==> new[i] == old[i]
}

/// Rounds `n` up to the next multiple of four.
pub(crate) fn pad(n: usize) -> (r: usize)
    requires
        n + 3 <= usize::MAX,
    ensures
        r == padded(n as int),
        n <= r < n + 4,
        r % 4 == 0,
{
    (n + 3) / 4 * 4
}

/// Reads the 16-bit integer at `i`.
pub(crate) fn read_u16(buf: &[u8], i: usize) -> (r: u16)
    requires
        i + 2 <= buf@.len(),
    ensures
        r == u16_at(buf@, i as int),
{
    let hi: u16 = buf[i] as u16;
    let lo: u16 = buf[i + 1] as u16;
    hi * 256 + lo
}

/// Reads the 32-bit integer at `i`.
pub(crate) fn read_u32(buf: &[u8], i: usize) -> (r: u32)
    requires
        i + 4 <= buf@.len(),
    ensures
        r == u32_at(buf@, i as int),
{
    let a: u32 = buf[i] as u32;
    let b: u32 = buf[i + 1] as u32;
    let c: u32 = buf[i + 2] as u32;
    let d: u32 = buf[i + 3] as u32;
    a * 0x100_0000 + b * 0x1_0000 + c * 0x100 + d
}

/// Writes `x` in network order at `i`.
pub(crate) fn write_u16(buf: &mut [u8], i: usize, x: u16)
    requires
        i + 2 <= old(buf)@.len(),
    ensures
        final(buf)@ == splice(old(buf)@, i as int, be16(x)),
{
    buf[i] = (x / 256) as u8;
    buf[i + 1] = (x % 256) as u8;
    assert(buf@ =~= splice(old(buf)@, i as int, be16(x)));
}

/// Writes `x` in network order at `i`.
pub(crate) fn write_u32(buf: &mut [u8], i: usize, x: u32)
    requires
        i + 4 <= old(buf)@.len(),
    ensures
        final(buf)@ == splice(old(buf)@, i as int, be32(x)),
{
    buf[i] = (x / 0x100_0000) as u8;
    buf[i + 1] = (x / 0x1_0000 % 256) as u8;
    buf[i + 2] = (x / 0x100 % 256) as u8;
    buf[i + 3] = (x % 256) as u8;
    assert(buf@ =~= splice(old(buf)@, i as int, be32(x)));
}

/// Copies `bytes` into `buf` at `at`.
pub(crate) fn write_bytes(buf: &mut [u8], at: usize, bytes: &[u8])
    requires
        at + bytes@.len() <= old(buf)@.len(),
    ensures
        final(buf)@ == splice(old(buf)@, at as int, bytes@),
{
    let n = bytes.len();
    let total = buf.len();
    let mut i: usize = 0;
    while i < n
        invariant
            i <= n,
            n == bytes@.len(),
            at + n <= total,
            buf@.len() == total,
            buf@ == splice(old(buf)@, at as int, bytes@.take(i as int)),
        decreases n - i,
    {
        buf[at + i] = bytes[i];
        i += 1;
        assert(buf@ =~= splice(old(buf)@, at as int, bytes@.take(i as int)));
    }
    assert(bytes@.take(n as int) =~= bytes@);
}

/// What four writes make of a buffer that holds a message: the new length,
/// the type and the length of an attribute and its body give the message
/// grown by the attribute.
pub proof fn lemma_appended(old: Seq<u8>, offset: int, ty: u16, value: Seq<u8>, new: Seq<u8>)
    requires
        building(old, offset),
        value.len() <= 0xFFFF,
        offset + 4 + padded(value.len() as int) <= old.len(),
        offset - 20 + 4 + padded(value.len() as int) <= 0xFFFF,
        new == splice(
            splice(
                splice(
                    splice(old, 2, be16((offset - 20 + 4 + padded(value.len() as int)) as u16)),
                    offset,
                    be16(ty),
                ),
                offset + 2,
                be16(value.len() as u16),
            ),
            offset + 4,
            value,
        ),
    ensures
        new.len() == old.len(),
        building(new, offset + 4 + padded(value.len() as int)),
        kept(old, new, offset),
        new.subrange(0, offset + 4 + padded(value.len() as int)) == appended(
            old.subrange(0, offset),
            ty,
            value,
        ),
{
    let msg = old.subrange(0, offset);
    let end = offset + 4 + padded(value.len() as int);
    let len = (end - 20) as u16;
    let grown = new.subrange(0, end);
    let expected = appended(msg, ty, value);
    assert(grown.len() == expected.len());
    assert forall|i: int| 0 <= i < grown.len() implies grown[i] == expected[i] by {
        if i < offset {
            assert(expected[i] == covered(msg, value.len() as int)[i]);
        } else {
            assert(expected[i] == attribute_bytes(ty, value)[i - offset]);
            if i >= offset + 4 + value.len() {
                assert(old[i] == 0);
            }
        }
    }
    assert(grown =~= expected);
    lemma_be16_value(len);
    assert(grown[2] == be16(len)[0] && grown[3] == be16(len)[1]);
}

/// Where the parts of a message lie that grew by one attribute.
pub proof fn lemma_appended_parts(msg: Seq<u8>, ty: u16, value: Seq<u8>)
    requires
        is_message(msg),
        value.len() <= 0xFFFF,
        msg.len() - 20 + 4 + padded(value.len() as int) <= 0xFFFF,
    ensures
        appended(msg, ty, value).len() == msg.len() + 4 + padded(value.len() as int),
        is_message(appended(msg, ty, value)),
        appended(msg, ty, value).subrange(0, msg.len() as int) == covered(
            msg,
            value.len() as int,
        ),
        u16_at(appended(msg, ty, value), msg.len() as int) == ty,
        u16_at(appended(msg, ty, value), msg.len() as int + 2) == value.len(),
        appended(msg, ty, value).subrange(
            msg.len() as int + 4,
            msg.len() as int + 4 + value.len(),
        ) == value,
{
    let grown = appended(msg, ty, value);
    let at = msg.len() as int;
    let len = (at - 20 + 4 + padded(value.len() as int)) as u16;
    lemma_be16_value(ty);
    lemma_be16_value(value.len() as u16);
    lemma_be16_value(len);
    assert(grown.subrange(0, at) =~= covered(msg, value.len() as int));
    assert(grown.subrange(at + 4, at + 4 + value.len()) =~= value);
    assert(grown[at] == be16(ty)[0] && grown[at + 1] == be16(ty)[1]);
    assert(grown[at + 2] == be16(value.len() as u16)[0] && grown[at + 3] == be16(
        value.len() as u16,
    )[1]);
    assert(grown[2] == be16(len)[0] && grown[3] == be16(len)[1]);
}

/// A message that grows by one attribute keeps its bytes, but for the
/// length field, and the padding of the attribute is zero.
pub proof fn lemma_appended_kept(msg: Seq<u8>, ty: u16, value: Seq<u8>)
    requires
        msg.len() >= 4,
    ensures
        kept(msg, appended(msg, ty, value), msg.len() as int),
        forall|i: int|
            msg.len() + 4 + value.len() <= i < msg.len() + 4 + padded(value.len() as int)
                ==> appended(msg, ty, value)[i] == 0,
{
}

/// The bytes of `be16` make up the integer again.
pub proof fn lemma_be16_value(x: u16)
    ensures
        u16_at(be16(x), 0) == x,
{
}

/// The bytes of `be32` make up the integer again.
pub proof fn lemma_be32_value(x: u32)
    ensures
        u32_at(be32(x), 0) == x,
{
    assert((x / 0x100_0000) * 0x100_0000 + (x / 0x1_0000 % 256) * 0x1_0000 + (x / 0x100 % 256)
        * 0x100 + x % 256 == x) by (bit_vector);
}

} // verus!
