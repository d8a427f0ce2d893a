//! The hash: one-shot absorption under the hash domain.
use vstd::prelude::*;
use crate::api::{absorb_hash128_batch_into, absorb_hash256_batch_into, absorb_with_domain};
use crate::bytes::{from_le16, le16};
use crate::constants::Domain;
use crate::dispatch::{digest128, digest256};
use crate::types::{Hash128, Hash256};

verus! {

/// The 256-bit digest of `data`: both absorbed words, little-endian.
pub open spec fn spec_hash256(data: Seq<u8>) -> Seq<u8> {
    digest256(data, Domain::Hash.spec_tag())
}

/// The 128-bit digest of `data`: the first absorbed word, little-endian.
pub open spec fn spec_hash128(data: Seq<u8>) -> Seq<u8> {
    digest128(data, Domain::Hash.spec_tag())
}

pub fn hash256(data: &[u8]) -> (r: Hash256)
    ensures
        r.0@ == spec_hash256(data@),
{
    let (s0, s1) = absorb_with_domain(data, Domain::Hash.tag());
    Hash256::from_state(s0, s1)
}

pub fn hash128(data: &[u8]) -> (r: Hash128)
    ensures
        r.0@ == spec_hash128(data@),
{
    let (s0, _s1) = absorb_with_domain(data, Domain::Hash.tag());
    Hash128::from_state(s0)
}

/// Hashes independent messages, returning one 256-bit digest each, in
/// order.
pub fn hash256_many(messages: &[&[u8]]) -> (r: Vec<Hash256>)
    ensures
        r@.len() == messages@.len(),
        forall|i: int|
            0 <= i < messages@.len() ==> (#[trigger] r@[i]).0@ == spec_hash256(messages@[i]@),
{
    let n = messages.len();
    let mut out: Vec<Hash256> = Vec::new();
    let mut i: usize = 0;
    while i < n
        invariant
            n == messages@.len(),
            i <= n,
            out@.len() == i,
        decreases n - i,
    {
        out.push(Hash256::default());
        i = i + 1;
    }
    hash256_many_into(messages, out.as_mut_slice());
    out
}

/// Hashes independent messages, returning one 128-bit digest each, in
/// order.
pub fn hash128_many(messages: &[&[u8]]) -> (r: Vec<Hash128>)
    ensures
        r@.len() == messages@.len(),
        forall|i: int|
            0 <= i < messages@.len() ==> (#[trigger] r@[i]).0@ == spec_hash128(messages@[i]@),
{
    let n = messages.len();
    let mut out: Vec<Hash128> = Vec::new();
    let mut i: usize = 0;
    while i < n
        invariant
            n == messages@.len(),
            i <= n,
            out@.len() == i,
        decreases n - i,
    {
        out.push(Hash128::default());
        i = i + 1;
    }
    hash128_many_into(messages, out.as_mut_slice());
    out
}

/// Hashes independent messages into `out`; `out` must have one slot per
/// message.
pub fn hash256_many_into(messages: &[&[u8]], out: &mut [Hash256])
    requires
        messages@.len() == old(out)@.len(),
    ensures
        final(out)@.len() == old(out)@.len(),
        forall|i: int|
            0 <= i < messages@.len() ==> (#[trigger] final(out)@[i]).0@ == spec_hash256(
                messages@[i]@,
            ),
{
    absorb_hash256_batch_into(messages, Domain::Hash.tag(), out);
}

/// Hashes independent messages into `out`, 128-bit digests; `out` must
/// have one slot per message.
pub fn hash128_many_into(messages: &[&[u8]], out: &mut [Hash128])
    requires
        messages@.len() == old(out)@.len(),
    ensures
        final(out)@.len() == old(out)@.len(),
        forall|i: int|
            0 <= i < messages@.len() ==> (#[trigger] final(out)@[i]).0@ == spec_hash128(
                messages@[i]@,
            ),
{
    absorb_hash128_batch_into(messages, Domain::Hash.tag(), out);
}

/// The 128-bit digest is the first half of the 256-bit digest of the same
/// message.
pub proof fn lemma_hash128_is_prefix_of_hash256(data: Seq<u8>)
    ensures
        spec_hash128(data) == spec_hash256(data).subrange(0, 16),
{
    let s = crate::api::spec_absorb(data, Domain::Hash.spec_tag());
    assert(le16(s.0) =~= (le16(s.0) + le16(s.1)).subrange(0, 16));
}

/// The 256-bit digest is the state absorbed under the hash tag (1): the
/// first word little-endian in bytes 0..16, the second in bytes 16..32;
/// the 128-bit digest is the first word alone.
pub proof fn lemma_digest_layout(data: Seq<u8>)
    ensures
        spec_hash256(data).len() == 32,
        from_le16(spec_hash256(data).subrange(0, 16)) == crate::api::spec_absorb(data, 1).0,
        from_le16(spec_hash256(data).subrange(16, 32)) == crate::api::spec_absorb(data, 1).1,
        spec_hash128(data).len() == 16,
        from_le16(spec_hash128(data)) == crate::api::spec_absorb(data, 1).0,
{
    let s = crate::api::spec_absorb(data, 1);
    crate::dispatch::lemma_block_layout(s.0, s.1);
    crate::bytes::lemma_from_le16_le16(s.0);
}

} // verus!
