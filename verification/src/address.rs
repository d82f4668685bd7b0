//! Storage-address derivation. Every record is addressable purely from its
//! logical key — the configuration singleton, a sequencer's owner, or a
//! request's (owner, sequence) identity — and the derivation is injective,
//! so no two logical keys ever share a storage address.

use vstd::prelude::*;

use crate::identity::Identity;

verus! {

/// The logical key of a stored record.
#[derive(Clone, Copy, PartialEq, Eq, Structural, Debug)]
pub enum RecordKey {
    /// The singleton configuration record.
    State,
    /// The sequencer bound to `owner`.
    Counter { owner: Identity },
    /// The request with identity (owner, sequence).
    Request { owner: Identity, sequence: u64 },
}

/// The little-endian bytes of a 64-bit word.
pub open spec fn u64_le_bytes(x: u64) -> Seq<u8> {
    seq![
        (x & 0xff) as u8,
        ((x >> 8) & 0xff) as u8,
        ((x >> 16) & 0xff) as u8,
        ((x >> 24) & 0xff) as u8,
        ((x >> 32) & 0xff) as u8,
        ((x >> 40) & 0xff) as u8,
        ((x >> 48) & 0xff) as u8,
        ((x >> 56) & 0xff) as u8,
    ]
}

/// The 32 bytes of an identity: its four words, each little endian.
pub open spec fn identity_bytes(id: Identity) -> Seq<u8> {
    u64_le_bytes(id.w0) + u64_le_bytes(id.w1) + u64_le_bytes(id.w2) + u64_le_bytes(id.w3)
}

/// The storage address of a record: a tag byte naming the record kind,
/// followed by the bytes of the key's fields.
pub open spec fn spec_derive_address(key: RecordKey) -> Seq<u8> {
    match key {
        RecordKey::State => seq![1u8],
        RecordKey::Counter { owner } => seq![2u8] + identity_bytes(owner),
        RecordKey::Request { owner, sequence } => seq![3u8] + identity_bytes(owner)
            + u64_le_bytes(sequence),
    }
}

proof fn lemma_byte_bounds(x: u64)
    ensures
        x & 0xff < 256,
        (x >> 8) & 0xff < 256,
        (x >> 16) & 0xff < 256,
        (x >> 24) & 0xff < 256,
        (x >> 32) & 0xff < 256,
        (x >> 40) & 0xff < 256,
        (x >> 48) & 0xff < 256,
        (x >> 56) & 0xff < 256,
{
    assert(x & 0xff < 256 && (x >> 8) & 0xff < 256 && (x >> 16) & 0xff < 256 && (x >> 24) & 0xff
        < 256 && (x >> 32) & 0xff < 256 && (x >> 40) & 0xff < 256 && (x >> 48) & 0xff < 256 && (x
        >> 56) & 0xff < 256) by (bit_vector);
}

/// A word is recoverable from its bytes: the encoding is injective.
proof fn lemma_u64_le_bytes_injective(x: u64, y: u64)
    requires
        u64_le_bytes(x) == u64_le_bytes(y),
    ensures
        x == y,
{
    lemma_byte_bounds(x);
    lemma_byte_bounds(y);
    assert(u64_le_bytes(x)[0] == u64_le_bytes(y)[0]);
    assert(u64_le_bytes(x)[1] == u64_le_bytes(y)[1]);
    assert(u64_le_bytes(x)[2] == u64_le_bytes(y)[2]);
    assert(u64_le_bytes(x)[3] == u64_le_bytes(y)[3]);
    assert(u64_le_bytes(x)[4] == u64_le_bytes(y)[4]);
    assert(u64_le_bytes(x)[5] == u64_le_bytes(y)[5]);
    assert(u64_le_bytes(x)[6] == u64_le_bytes(y)[6]);
    assert(u64_le_bytes(x)[7] == u64_le_bytes(y)[7]);
    assert(x == y) by (bit_vector)
        requires
            x & 0xff == y & 0xff,
            (x >> 8) & 0xff == (y >> 8) & 0xff,
            (x >> 16) & 0xff == (y >> 16) & 0xff,
            (x >> 24) & 0xff == (y >> 24) & 0xff,
            (x >> 32) & 0xff == (y >> 32) & 0xff,
            (x >> 40) & 0xff == (y >> 40) & 0xff,
            (x >> 48) & 0xff == (y >> 48) & 0xff,
            (x >> 56) & 0xff == (y >> 56) & 0xff,
    ;
}

/// An identity is recoverable from its bytes: the encoding is injective.
proof fn lemma_identity_bytes_injective(a: Identity, b: Identity)
    requires
        identity_bytes(a) == identity_bytes(b),
    ensures
        a == b,
{
    assert(u64_le_bytes(a.w0) =~= identity_bytes(a).subrange(0, 8));
    assert(u64_le_bytes(a.w1) =~= identity_bytes(a).subrange(8, 16));
    assert(u64_le_bytes(a.w2) =~= identity_bytes(a).subrange(16, 24));
    assert(u64_le_bytes(a.w3) =~= identity_bytes(a).subrange(24, 32));
    assert(u64_le_bytes(b.w0) =~= identity_bytes(b).subrange(0, 8));
    assert(u64_le_bytes(b.w1) =~= identity_bytes(b).subrange(8, 16));
    assert(u64_le_bytes(b.w2) =~= identity_bytes(b).subrange(16, 24));
    assert(u64_le_bytes(b.w3) =~= identity_bytes(b).subrange(24, 32));
    lemma_u64_le_bytes_injective(a.w0, b.w0);
    lemma_u64_le_bytes_injective(a.w1, b.w1);
    lemma_u64_le_bytes_injective(a.w2, b.w2);
    lemma_u64_le_bytes_injective(a.w3, b.w3);
}

/// Law (no collisions): the address derivation is injective — no two
/// logical keys share a storage address.
pub proof fn lemma_derive_address_injective(k1: RecordKey, k2: RecordKey)
    requires
        spec_derive_address(k1) == spec_derive_address(k2),
    ensures
        k1 == k2,
{
    let a1 = spec_derive_address(k1);
    let a2 = spec_derive_address(k2);
    assert(a1[0] == a2[0]);
    match (k1, k2) {
        (RecordKey::Counter { owner: o1 }, RecordKey::Counter { owner: o2 }) => {
            assert(identity_bytes(o1) =~= a1.subrange(1, 33));
            assert(identity_bytes(o2) =~= a2.subrange(1, 33));
            lemma_identity_bytes_injective(o1, o2);
        },
        (
            RecordKey::Request { owner: o1, sequence: s1 },
            RecordKey::Request { owner: o2, sequence: s2 },
        ) => {
            assert(identity_bytes(o1) =~= a1.subrange(1, 33));
            assert(identity_bytes(o2) =~= a2.subrange(1, 33));
            assert(u64_le_bytes(s1) =~= a1.subrange(33, 41));
            assert(u64_le_bytes(s2) =~= a2.subrange(33, 41));
            lemma_identity_bytes_injective(o1, o2);
            lemma_u64_le_bytes_injective(s1, s2);
        },
        _ => {},
    }
}

fn push_u64_le(out: &mut Vec<u8>, x: u64)
    ensures
        final(out)@ == old(out)@ + u64_le_bytes(x),
{
    proof {
        lemma_byte_bounds(x);
    }
    out.push((x & 0xff) as u8);
    out.push(((x >> 8) & 0xff) as u8);
    out.push(((x >> 16) & 0xff) as u8);
    out.push(((x >> 24) & 0xff) as u8);
    out.push(((x >> 32) & 0xff) as u8);
    out.push(((x >> 40) & 0xff) as u8);
    out.push(((x >> 48) & 0xff) as u8);
    out.push(((x >> 56) & 0xff) as u8);
    assert(out@ =~= old(out)@ + u64_le_bytes(x));
}

fn push_identity(out: &mut Vec<u8>, id: Identity)
    ensures
        final(out)@ == old(out)@ + identity_bytes(id),
{
    push_u64_le(out, id.w0);
    push_u64_le(out, id.w1);
    push_u64_le(out, id.w2);
    push_u64_le(out, id.w3);
    assert(out@ =~= old(out)@ + identity_bytes(id));
}

/// Derives the storage address of the record `key` names.
pub fn derive_address(key: &RecordKey) -> (r: Vec<u8>)
    ensures
        r@ == spec_derive_address(*key),
{
    let mut out: Vec<u8> = Vec::new();
    match key {
        RecordKey::State => {
            out.push(1);
            assert(out@ =~= spec_derive_address(*key));
        },
        RecordKey::Counter { owner } => {
            out.push(2);
            push_identity(&mut out, *owner);
            assert(out@ =~= spec_derive_address(*key));
        },
        RecordKey::Request { owner, sequence } => {
            out.push(3);
            push_identity(&mut out, *owner);
            push_u64_le(&mut out, *sequence);
            assert(out@ =~= spec_derive_address(*key));
        },
    }
    out
}

} // verus!
