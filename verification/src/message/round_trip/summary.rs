//! What a receiver makes of a message that grows attribute by attribute.

use vstd::prelude::*;

use crate::message::attributes::registry::{looked_up, lookup_failure, spec_is_known};
use crate::message::attributes::{attribute_size, unknown_required, value_at, Attribute};
use crate::message::incoming::opaque;
use crate::message::meta::{
    class_of, declared_end, header_failure, last_heeded, lemma_last_heeded, method_of, parsed,
    protection, walk, AttributeMeta, Header, Protection,
};
use crate::message::outgoing::{header, lemma_header_kept};
use crate::message::wire::{
    appended, is_message, kept, lemma_appended_kept, lemma_appended_parts, padded, u16_at,
};

verus! {

/// Where the attribute lies that `appended` puts behind `msg`.
pub open spec fn appended_meta(msg: Seq<u8>, ty: u16, value: Seq<u8>) -> AttributeMeta {
    AttributeMeta { ty, offset: (msg.len() + 4) as usize, len: value.len() as usize }
}

/// A walk that ended at `end` goes on over one more attribute behind it.
pub proof fn lemma_walk_extends(
    a: Seq<u8>,
    b: Seq<u8>,
    pos: int,
    end: int,
    ty: u16,
    len: int,
)
    requires
        0 <= pos <= end <= a.len(),
        walk(a, pos, end) is Some,
        forall|i: int| pos <= i < end ==> a[i] == b[i],
        0 <= len <= 0xFFFF,
        end + 4 + padded(len) <= b.len(),
        u16_at(b, end) == ty,
        u16_at(b, end + 2) == len,
    ensures
        walk(b, pos, end + 4 + padded(len)) == Some(
            walk(a, pos, end).unwrap().push(
                AttributeMeta { ty, offset: (end + 4) as usize, len: len as usize },
            ),
        ),
    decreases end - pos,
{
    let new_end = end + 4 + padded(len);
    let meta = AttributeMeta { ty, offset: (end + 4) as usize, len: len as usize };
    if pos == end {
        assert(walk(b, new_end, new_end) == Some(Seq::<AttributeMeta>::empty()));
        assert(seq![meta] + Seq::<AttributeMeta>::empty() =~= Seq::<AttributeMeta>::empty().push(
            meta,
        ));
    } else {
        let n = u16_at(a, pos + 2) as int;
        let next = pos + 4 + padded(n);
        assert(u16_at(b, pos) == u16_at(a, pos));
        assert(u16_at(b, pos + 2) == u16_at(a, pos + 2));
        lemma_walk_extends(a, b, next, end, ty, len);
        let head = AttributeMeta { ty: u16_at(a, pos), offset: (pos + 4) as usize, len: n as usize };
        let rest = walk(a, next, end).unwrap();
        assert(seq![head] + rest.push(meta) =~= (seq![head] + rest).push(meta));
    }
}

/// The state of a receiver in front of an attribute depends on the
/// attributes in front of it alone.
pub proof fn lemma_protection_prefix(a: Seq<AttributeMeta>, b: Seq<AttributeMeta>, i: int)
    requires
        0 <= i <= a.len(),
        i <= b.len(),
        forall|k: int| 0 <= k < i ==> a[k] == b[k],
    ensures
        protection(a, i) == protection(b, i),
    decreases i,
{
    if i > 0 {
        lemma_protection_prefix(a, b, i - 1);
    }
}

/// What a receiver goes by among the first `n` attributes depends on
/// these attributes alone.
pub proof fn lemma_last_heeded_prefix(
    a: Seq<AttributeMeta>,
    b: Seq<AttributeMeta>,
    ty: u16,
    n: int,
)
    requires
        0 <= n <= a.len(),
        n <= b.len(),
        forall|k: int| 0 <= k < n ==> a[k] == b[k],
    ensures
        last_heeded(a, ty, n) == last_heeded(b, ty, n),
    decreases n,
{
    if n > 0 {
        lemma_last_heeded_prefix(a, b, ty, n - 1);
        lemma_protection_prefix(a, b, n - 1);
    }
}

/// A message with attributes of known types alone holds no attribute for
/// a receiver to pass over as opaque.
pub proof fn lemma_opaque_of_known(buf: Seq<u8>, attributes: Seq<AttributeMeta>, n: int)
    requires
        0 <= n <= attributes.len(),
        forall|k: int| 0 <= k < n ==> spec_is_known(#[trigger] attributes[k].ty),
    ensures
        opaque(buf, attributes, n) == Seq::<(u16, Seq<u8>)>::empty(),
        unknown_required(attributes, n) == Seq::<u16>::empty(),
    decreases n,
{
    if n > 0 {
        lemma_opaque_of_known(buf, attributes, n - 1);
    }
}

/// One attribute as a receiver finds it: its body, and the message that
/// stood in front of it when it was put.
pub ghost struct Found {
    pub value: Seq<u8>,
    pub front: Seq<u8>,
}

/// What a receiver makes of the attributes of a message: its state
/// behind the last one, the attribute that it goes by for each type, and
/// the type of the last one.
pub ghost struct Summary {
    pub state: Protection,
    pub found: Map<u16, Found>,
    pub last: Option<u16>,
}

/// The attributes of the message `msg`.
pub open spec fn attributes_of(msg: Seq<u8>) -> Seq<AttributeMeta> {
    walk(msg, 20, msg.len() as int).unwrap()
}

/// Whether `found` tells what a receiver of `msg` goes by for the type `ty`.
pub open spec fn finds(msg: Seq<u8>, ty: u16, found: Map<u16, Found>) -> bool {
    match last_heeded(attributes_of(msg), ty, attributes_of(msg).len() as int) {
        Some(i) => {
            &&& found.contains_key(ty)
            &&& attributes_of(msg)[i].len == found[ty].value.len()
            &&& attributes_of(msg)[i].offset == found[ty].front.len() + 4
            &&& value_at(msg, attributes_of(msg)[i]) == found[ty].value
            &&& kept(found[ty].front, msg, found[ty].front.len() as int)
        },
        None => !found.contains_key(ty),
    }
}

/// Whether every attribute of `msg` is of a known type and lies inside `msg`.
pub open spec fn all_known(msg: Seq<u8>) -> bool {
    forall|k: int|
        0 <= k < attributes_of(msg).len() ==> spec_is_known(#[trigger] attributes_of(msg)[k].ty)
            && 24 <= attributes_of(msg)[k].offset && attributes_of(msg)[k].offset
            + attributes_of(msg)[k].len <= msg.len()
}

/// Whether `msg` is a message of whole attributes of known types, of
/// which `s` tells what a receiver makes.
#[verifier::opaque]
pub open spec fn summarizes(msg: Seq<u8>, s: Summary) -> bool {
    &&& is_message(msg)
    &&& walk(msg, 20, msg.len() as int) is Some
    &&& all_known(msg)
    &&& protection(attributes_of(msg), attributes_of(msg).len() as int) == s.state
    &&& forall|ty: u16| finds(msg, ty, s.found)
    &&& s.last == (if attributes_of(msg).len() > 0 {
        Some(attributes_of(msg).last().ty)
    } else {
        None
    })
}

/// A message that a summary tells of is a message of whole attributes.
pub proof fn lemma_summarized(msg: Seq<u8>, s: Summary)
    requires
        summarizes(msg, s),
    ensures
        is_message(msg),
        walk(msg, 20, msg.len() as int) is Some,
{
    reveal(summarizes);
}

/// What a receiver makes of a message that grew by an attribute of type
/// `ty` with the body `value` behind `msg`.
pub open spec fn noted(s: Summary, msg: Seq<u8>, ty: u16, value: Seq<u8>) -> Summary {
    Summary {
        state: s.state.spec_step(ty),
        found: if s.state.spec_heeds(ty) {
            s.found.insert(ty, Found { value, front: msg })
        } else {
            s.found
        },
        last: Some(ty),
    }
}

/// What a receiver makes of a message without attributes.
pub open spec fn nothing() -> Summary {
    Summary { state: Protection::Open, found: Map::empty(), last: None }
}

/// A receiver of a message that grew by one attribute finds what it found
/// before, and the new attribute where it heeds it.
pub proof fn lemma_noted(msg: Seq<u8>, s: Summary, ty: u16, value: Seq<u8>)
    requires
        summarizes(msg, s),
        spec_is_known(ty),
        value.len() <= 0xFFFF,
        msg.len() - 20 + 4 + padded(value.len() as int) <= 0xFFFF,
    ensures
        summarizes(appended(msg, ty, value), noted(s, msg, ty, value)),
        attributes_of(appended(msg, ty, value)) == attributes_of(msg).push(
            appended_meta(msg, ty, value),
        ),
        appended(msg, ty, value).len() == msg.len() + attribute_size(value.len()),
        kept(msg, appended(msg, ty, value), msg.len() as int),
        is_message(msg),
        is_message(appended(msg, ty, value)),
{
    reveal(summarizes);
    let grown = appended(msg, ty, value);
    let old = attributes_of(msg);
    let meta = appended_meta(msg, ty, value);
    let n = old.len() as int;
    let after = noted(s, msg, ty, value);
    lemma_appended_parts(msg, ty, value);
    lemma_appended_kept(msg, ty, value);
    lemma_walk_extends(msg, grown, 20, msg.len() as int, ty, value.len() as int);
    let new = attributes_of(grown);
    assert(new == old.push(meta));
    assert(new.last() == meta);
    lemma_protection_prefix(old, new, n);
    assert(protection(new, n + 1) == s.state.spec_step(ty));
    assert(all_known(grown)) by {
        assert forall|k: int| 0 <= k < new.len() implies spec_is_known(#[trigger] new[k].ty) && 24
            <= new[k].offset && new[k].offset + new[k].len <= grown.len() by {
            if k < n {
                assert(new[k] == old[k]);
                assert(spec_is_known(old[k].ty));
            }
        }
    }
    assert forall|t: u16| finds(grown, t, after.found) by {
        lemma_last_heeded_prefix(old, new, t, n);
        assert(finds(msg, t, s.found));
        if t == ty && s.state.spec_heeds(ty) {
            assert(last_heeded(new, t, n + 1) == Some(n));
        } else {
            assert(last_heeded(new, t, n + 1) == last_heeded(old, t, n));
            match last_heeded(old, t, n) {
                Some(i) => {
                    lemma_last_heeded(old, t, n);
                    assert(new[i] == old[i]);
                    assert(spec_is_known(old[i].ty));
                    assert(value_at(grown, new[i]) =~= value_at(msg, old[i]));
                },
                None => {},
            }
        }
    }
}

/// A header alone is a message in which a receiver finds nothing.
pub proof fn lemma_header_noted(ty: u16, id: Seq<u8>)
    requires
        id.len() == 12,
    ensures
        summarizes(header(ty, id), nothing()),
        header(ty, id).len() == 20,
{
    reveal(summarizes);
    let h = header(ty, id);
    assert(h.len() == 20);
    assert(h[2] == 0 && h[3] == 0);
    assert(walk(h, 20, 20) == Some(Seq::<AttributeMeta>::empty()));
    assert forall|t: u16| finds(h, t, nothing().found) by {
        assert(last_heeded(attributes_of(h), t, 0) is None);
    }
}

/// A message that a summary tells of, behind the header of type `ty` and
/// transaction ID `id`, has a valid header and attribute walk.
pub proof fn lemma_parses(msg: Seq<u8>, s: Summary, ty: u16, id: Seq<u8>)
    requires
        summarizes(msg, s),
        id.len() == 12,
        ty & 0xC000 == 0,
        kept(header(ty, id), msg, 20),
    ensures
        header_failure(msg) is None,
        parsed(msg) == (Header {
            class: class_of(ty),
            method: method_of(ty),
            id,
            attributes: attributes_of(msg),
        }),
{
    reveal(summarizes);
    let h = header(ty, id);
    assert(h.subrange(0, 20) =~= h);
    lemma_header_kept(h, msg, ty, id);
    assert(declared_end(msg) == msg.len());
}

/// How the attribute of type `T` that a receiver of `msg` goes by shows
/// in the summary of `msg`.
pub proof fn lemma_lookup<T: Attribute>(msg: Seq<u8>, s: Summary)
    requires
        summarizes(msg, s),
        header_failure(msg) is None,
    ensures
        parsed(msg).find(T::TY) is Some <==> s.found.contains_key(T::TY),
        parsed(msg).find(T::TY) matches Some(i) ==> 0 <= i < parsed(msg).attributes.len() && 24
            <= parsed(msg).attributes[i].offset && parsed(msg).attributes[i].offset + parsed(
            msg,
        ).attributes[i].len <= msg.len() && value_at(msg, parsed(msg).attributes[i])
            == s.found[T::TY].value && parsed(
            msg,
        ).attributes[i].len == s.found[T::TY].value.len() && parsed(msg).attributes[i].offset
            == s.found[T::TY].front.len() + 4 && kept(
            s.found[T::TY].front,
            msg,
            s.found[T::TY].front.len() as int,
        ),
        lookup_failure::<T>(msg, parsed(msg)) == (if s.found.contains_key(T::TY) {
            T::failure(s.found[T::TY].value, parsed(msg).id)
        } else {
            None
        }),
        forall|field: Option<T>|
            #[trigger] looked_up(msg, parsed(msg), field) <==> (if s.found.contains_key(T::TY) {
                field matches Some(a) && a.holds(s.found[T::TY].value, parsed(msg).id)
            } else {
                field is None
            }),
{
    reveal(summarizes);
    assert(declared_end(msg) == msg.len());
    assert(parsed(msg).attributes == attributes_of(msg));
    assert(finds(msg, T::TY, s.found));
    let n = attributes_of(msg).len() as int;
    lemma_last_heeded(attributes_of(msg), T::TY, n);
    match last_heeded(attributes_of(msg), T::TY, n) {
        Some(i) => {
            assert(spec_is_known(attributes_of(msg)[i].ty));
        },
        None => {},
    }
}

} // verus!
