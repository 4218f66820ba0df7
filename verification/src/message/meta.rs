use vstd::prelude::*;

use super::MAGIC;
use super::id::TransactionId;
use super::incoming::{Failure, IncomingError, IncomingErrorTy};
use super::wire::{pad, padded, read_u16, read_u32, u16_at, u32_at};

verus! {

/// What the header and the attribute walk tell about a message.
pub struct MessageMeta {
    pub class: u16,
    pub method: u16,
    pub id: TransactionId,
    pub attributes: Vec<AttributeMeta>,
}

/// A header and its attribute walk as contracts speak of them.
pub ghost struct Header {
    pub class: u16,
    pub method: u16,
    pub id: Seq<u8>,
    pub attributes: Seq<AttributeMeta>,
}

impl View for MessageMeta {
    type V = Header;

    open spec fn view(&self) -> Header {
        Header {
            class: self.class,
            method: self.method,
            id: self.id@,
            attributes: self.attributes@,
        }
    }
}

/// Where one attribute lies in the buffer: its type, the offset of its
/// value and the length of the value without padding.
#[derive(Debug, PartialEq, Eq, Clone, Copy, Structural)]
pub struct AttributeMeta {
    pub ty: u16,
    pub offset: usize,
    pub len: usize,
}

/// The 16-bit message type that packs a class and a method.
pub open spec fn message_type(class: u16, method: u16) -> u16 {
    (((method & 0x1F80) << 2) | ((method & 0x0070) << 1) | (method & 0x000F) | ((class & 0x0002)
        << 7) | ((class & 0x0001) << 4)) & 0x3FFF
}

/// The class that a message type holds.
pub open spec fn class_of(ty: u16) -> u16 {
    (ty & 0x0100) >> 7 | (ty & 0x0010) >> 4
}

/// The method that a message type holds.
pub open spec fn method_of(ty: u16) -> u16 {
    (ty & 0x3E00) >> 2 | (ty & 0x00E0) >> 1 | (ty & 0x000F)
}

/// Packing and unpacking are inverse: a message type gives back the
/// class and the method that it was made of, and its top two bits are zero.
pub proof fn lemma_type_round_trip(class: u16, method: u16)
    requires
        class < 4,
        method < 0x1000,
    ensures
        class_of(message_type(class, method)) == class,
        method_of(message_type(class, method)) == method,
        message_type(class, method) & 0xC000 == 0,
{
    let ty = message_type(class, method);
    assert(((ty & 0x0100) >> 7 | (ty & 0x0010) >> 4) == class && ((ty & 0x3E00) >> 2 | (ty
        & 0x00E0) >> 1 | (ty & 0x000F)) == method && ty & 0xC000 == 0) by (bit_vector)
        requires
            class < 4,
            method < 0x1000,
            ty == (((method & 0x1F80) << 2) | ((method & 0x0070) << 1) | (method & 0x000F) | ((
            class & 0x0002) << 7) | ((class & 0x0001) << 4)) & 0x3FFF,
    ;
}

/// The attributes that lie back to back in `buf` from `pos` to `end`, or
/// `None` where an attribute reaches past `end`.
pub open spec fn walk(buf: Seq<u8>, pos: int, end: int) -> Option<Seq<AttributeMeta>>
    decreases end - pos,
{
    if pos >= end {
        Some(Seq::empty())
    } else if pos + 4 > end {
        None
    } else {
        let len = u16_at(buf, pos + 2) as int;
        let next = pos + 4 + padded(len);
        if next > end {
            None
        } else {
            match walk(buf, next, end) {
                Some(rest) => Some(
                    seq![
                        AttributeMeta {
                            ty: u16_at(buf, pos),
                            offset: (pos + 4) as usize,
                            len: len as usize,
                        },
                    ] + rest,
                ),
                None => None,
            }
        }
    }
}

/// The end of the attributes that the header of `buf` declares.
pub open spec fn declared_end(buf: Seq<u8>) -> int {
    20 + u16_at(buf, 2)
}

/// Why `buf` has no valid header and attribute walk, if it has none.
pub open spec fn header_failure(buf: Seq<u8>) -> Option<Failure> {
    if buf.len() < 20 {
        Some((IncomingErrorTy::BadLength, "Message length was too small for 20-byte header."@))
    } else if buf.len() % 4 != 0 {
        Some((IncomingErrorTy::BadLength, "Message length must be aligned to a 32-bit boundary."@))
    } else if u16_at(buf, 0) & 0xC000 != 0 {
        Some((IncomingErrorTy::BadFormat, "The first two bits MUST be zero."@))
    } else if u32_at(buf, 4) != MAGIC {
        Some((IncomingErrorTy::BadMagic, "Magic number was incorrect."@))
    } else if declared_end(buf) > buf.len() {
        Some((IncomingErrorTy::BadLength, "Declared length exceeds the message."@))
    } else if walk(buf, 20, declared_end(buf)) is None {
        Some((IncomingErrorTy::BadLength, "Attributes do not end at the declared length."@))
    } else {
        None
    }
}

/// `head`, then what the rest of a walk gave.
pub open spec fn walked(head: Seq<AttributeMeta>, rest: Option<Seq<AttributeMeta>>) -> Option<
    Seq<AttributeMeta>,
> {
    match rest {
        Some(rest) => Some(head + rest),
        None => None,
    }
}

/// Every attribute of a walk lies between its start and its end.
pub proof fn lemma_walk_bounds(buf: Seq<u8>, pos: int, end: int, i: int)
    requires
        0 <= pos <= end <= usize::MAX,
        walk(buf, pos, end) is Some,
        0 <= i < walk(buf, pos, end).unwrap().len(),
    ensures
        pos + 4 <= walk(buf, pos, end).unwrap()[i].offset,
        walk(buf, pos, end).unwrap()[i].offset + padded(walk(buf, pos, end).unwrap()[i].len as int)
            <= end,
        walk(buf, pos, end).unwrap()[i].len <= 0xFFFF,
        walk(buf, pos, end).unwrap()[i].len == u16_at(
            buf,
            walk(buf, pos, end).unwrap()[i].offset - 2,
        ),
        walk(buf, pos, end).unwrap()[i].ty == u16_at(
            buf,
            walk(buf, pos, end).unwrap()[i].offset - 4,
        ),
    decreases end - pos,
{
    if pos < end && i > 0 {
        let next = pos + 4 + padded(u16_at(buf, pos + 2) as int);
        lemma_walk_bounds(buf, next, end, i - 1);
    }
}

/// What the header and the attribute walk of `buf` give, where
/// `header_failure` names no failure.
pub open spec fn parsed(buf: Seq<u8>) -> Header {
    Header {
        class: class_of(u16_at(buf, 0)),
        method: method_of(u16_at(buf, 0)),
        id: buf.subrange(8, 20),
        attributes: walk(buf, 20, declared_end(buf)).unwrap(),
    }
}

impl MessageMeta {
    /// Whether this is what the header and the attribute walk of `buf` give.
    pub open spec fn describes(&self, buf: Seq<u8>) -> bool {
        header_failure(buf) is None && self@ == parsed(buf)
    }

    /// Parses the header of `buf` and walks its attributes.
    ///
    /// Fails exactly on the buffers that `header_failure` names, with the
    /// kind and the reason given there.
    #[verifier::loop_isolation(false)]
    pub fn decode(buf: &[u8]) -> (r: Result<Self, IncomingError>)
        ensures
            match header_failure(buf@) {
                Some(failure) => r matches Err(e) && e.reports(failure),
                None => r matches Ok(meta) && meta.describes(buf@),
            },
    {
        let buf_len = buf.len();

        if buf_len < 20 {
            return Err(
                IncomingError::new(
                    IncomingErrorTy::BadLength,
                    "Message length was too small for 20-byte header.",
                ),
            );
        }
        if buf_len % 4 != 0 {
            return Err(
                IncomingError::new(
                    IncomingErrorTy::BadLength,
                    "Message length must be aligned to a 32-bit boundary.",
                ),
            );
        }
        let ty = read_u16(buf, 0);

        if ty & 0xC000 != 0 {
            return Err(
                IncomingError::new(IncomingErrorTy::BadFormat, "The first two bits MUST be zero."),
            );
        }
        let class = (ty & 0x0100) >> 7 | (ty & 0x0010) >> 4;

        let method = (ty & 0x3E00) >> 2 | (ty & 0x00E0) >> 1 | (ty & 0x000F);

        let len = read_u16(buf, 2) as usize;

        let magic = read_u32(buf, 4);

        if magic != MAGIC {
            return Err(IncomingError::new(IncomingErrorTy::BadMagic, "Magic number was incorrect."));
        }
        if len > buf_len - 20 {
            return Err(
                IncomingError::new(
                    IncomingErrorTy::BadLength,
                    "Declared length exceeds the message.",
                ),
            );
        }
        let id = TransactionId(
            [
                buf[8],
                buf[9],
                buf[10],
                buf[11],
                buf[12],
                buf[13],
                buf[14],
                buf[15],
                buf[16],
                buf[17],
                buf[18],
                buf[19],
            ],
        );
        assert(id@ =~= buf@.subrange(8, 20));

        let end: usize = 20 + len;
        let mut attributes: Vec<AttributeMeta> = Vec::new();
        let mut pos: usize = 20;

        while pos != end
            invariant
                20 <= pos <= end,
                walk(buf@, 20, end as int) == walked(attributes@, walk(buf@, pos as int, end as int)),
            decreases end - pos,
        {
            if end - pos < 4 {
                return Err(
                    IncomingError::new(
                        IncomingErrorTy::BadLength,
                        "Attributes do not end at the declared length.",
                    ),
                );
            }
            let ty = read_u16(buf, pos);
            let len = read_u16(buf, pos + 2) as usize;
            let step = 4 + pad(len);
            if step > end - pos {
                return Err(
                    IncomingError::new(
                        IncomingErrorTy::BadLength,
                        "Attributes do not end at the declared length.",
                    ),
                );
            }
            let ghost before = attributes@;
            attributes.push(AttributeMeta { ty, offset: pos + 4, len });
            proof {
                let rest = walk(buf@, pos + step, end as int);
                if rest is Some {
                    assert(before + (seq![AttributeMeta { ty, offset: (pos + 4) as usize, len }]
                        + rest.unwrap()) =~= attributes@ + rest.unwrap());
                }
            }
            pos += step;
        }
        assert(attributes@ + Seq::<AttributeMeta>::empty() =~= attributes@);

        Ok(Self { class, method, id, attributes })
    }
}

/// The type of MESSAGE-INTEGRITY attributes.
pub const MESSAGE_INTEGRITY: u16 = 0x0008;

/// The type of MESSAGE-INTEGRITY-SHA256 attributes.
pub const MESSAGE_INTEGRITY_SHA256: u16 = 0x001C;

/// The type of FINGERPRINT attributes.
pub const FINGERPRINT: u16 = 0x8028;

/// How far the integrity attributes of a message have been passed: what
/// comes behind them is not protected, and a receiver passes over it.
#[derive(Debug, PartialEq, Eq, Clone, Copy, Structural)]
pub enum Protection {
    /// No integrity attribute has been passed yet.
    Open,
    /// MESSAGE-INTEGRITY has been passed.
    Sha1,
    /// MESSAGE-INTEGRITY-SHA256 has been passed.
    Sha256,
}

impl Protection {
    /// The state behind an attribute of type `ty`.
    pub open spec fn spec_step(self, ty: u16) -> Protection {
        if ty == MESSAGE_INTEGRITY_SHA256 {
            Protection::Sha256
        } else if ty == MESSAGE_INTEGRITY && self == Protection::Open {
            Protection::Sha1
        } else {
            self
        }
    }

    /// Whether a receiver in this state heeds an attribute of type `ty`:
    /// behind MESSAGE-INTEGRITY only MESSAGE-INTEGRITY-SHA256 and
    /// FINGERPRINT, behind MESSAGE-INTEGRITY-SHA256 only FINGERPRINT.
    pub open spec fn spec_heeds(self, ty: u16) -> bool {
        match self {
            Protection::Open => true,
            Protection::Sha1 => ty == MESSAGE_INTEGRITY_SHA256 || ty == FINGERPRINT,
            Protection::Sha256 => ty == FINGERPRINT,
        }
    }

    /// The state behind an attribute of type `ty`.
    #[verifier::when_used_as_spec(spec_step)]
    pub fn step(self, ty: u16) -> (r: Protection)
        ensures
            r == self.spec_step(ty),
    {
        if ty == MESSAGE_INTEGRITY_SHA256 {
            Protection::Sha256
        } else if ty == MESSAGE_INTEGRITY {
            match self {
                Protection::Open => Protection::Sha1,
                other => other,
            }
        } else {
            self
        }
    }

    /// Whether a receiver in this state heeds an attribute of type `ty`.
    #[verifier::when_used_as_spec(spec_heeds)]
    pub fn heeds(self, ty: u16) -> (r: bool)
        ensures
            r == self.spec_heeds(ty),
    {
        match self {
            Protection::Open => true,
            Protection::Sha1 => ty == MESSAGE_INTEGRITY_SHA256 || ty == FINGERPRINT,
            Protection::Sha256 => ty == FINGERPRINT,
        }
    }
}

/// The state of a receiver in front of attribute `i` of `attributes`.
pub open spec fn protection(attributes: Seq<AttributeMeta>, i: int) -> Protection
    decreases i,
{
    if i <= 0 {
        Protection::Open
    } else {
        protection(attributes, i - 1).spec_step(attributes[i - 1].ty)
    }
}

/// Whether a receiver heeds attribute `i` of `attributes`.
pub open spec fn heeded(attributes: Seq<AttributeMeta>, i: int) -> bool {
    protection(attributes, i).spec_heeds(attributes[i].ty)
}

/// The last of the first `n` attributes that is of type `ty` and heeded.
pub open spec fn last_heeded(attributes: Seq<AttributeMeta>, ty: u16, n: int) -> Option<int>
    decreases n,
{
    if n <= 0 {
        None
    } else if attributes[n - 1].ty == ty && heeded(attributes, n - 1) {
        Some(n - 1)
    } else {
        last_heeded(attributes, ty, n - 1)
    }
}

/// What `last_heeded` finds is one of the attributes, of the type asked
/// for, and heeded.
pub proof fn lemma_last_heeded(attributes: Seq<AttributeMeta>, ty: u16, n: int)
    requires
        n <= attributes.len(),
    ensures
        last_heeded(attributes, ty, n) matches Some(i) ==> 0 <= i < n && attributes[i].ty == ty
            && heeded(attributes, i),
    decreases n,
{
    if n > 0 {
        lemma_last_heeded(attributes, ty, n - 1);
    }
}

impl Header {
    /// The last heeded attribute of type `ty`.
    pub open spec fn find(&self, ty: u16) -> Option<int> {
        last_heeded(self.attributes, ty, self.attributes.len() as int)
    }
}

impl MessageMeta {
    /// Finds the last attribute of type `ty` that a receiver heeds.
    pub fn find(&self, ty: u16) -> (r: Option<usize>)
        ensures
            r is None <==> self@.find(ty) is None,
            r matches Some(i) ==> self@.find(ty) == Some(i as int) && i < self.attributes@.len(),
    {
        let n = self.attributes.len();
        let mut state = Protection::Open;
        let mut found: Option<usize> = None;
        let mut i: usize = 0;
        while i < n
            invariant
                i <= n,
                n == self.attributes@.len(),
                state == protection(self.attributes@, i as int),
                found is None <==> last_heeded(self.attributes@, ty, i as int) is None,
                found matches Some(k) ==> last_heeded(self.attributes@, ty, i as int) == Some(
                    k as int,
                ) && k < i,
            decreases n - i,
        {
            let attr = &self.attributes[i];
            if attr.ty == ty && state.heeds(attr.ty) {
                found = Some(i);
            }
            state = state.step(attr.ty);
            i += 1;
        }
        found
    }
}

} // verus!
