//! Batch stream lanes and the dispatcher that advances them, scalar or in
//! parallel.
use vstd::prelude::*;
use rayon::iter::{
    IndexedParallelIterator, IntoParallelRefIterator, IntoParallelRefMutIterator,
    ParallelIterator,
};
use rayon::slice::ParallelSliceMut;
use crate::api::{absorb_with_domain, spec_absorb};
use crate::bytes::{from_le16, le16};
use crate::engine::{spec_stream_step, stream_step};
use crate::types::{Hash128, Hash256};

verus! {

/// Per-lane state of a block-aligned stream: the two state words and the
/// step counter of the next engine round.
#[derive(Debug, Clone, Copy)]
pub struct StreamLane {
    pub s0: u128,
    pub s1: u128,
    pub step: u64,
}

/// The 32 output bytes of a state: both words, little-endian, `s0` first.
pub open spec fn block_of(s0: u128, s1: u128) -> Seq<u8> {
    le16(s0) + le16(s1)
}

/// An output block holds `s0` little-endian in bytes 0..16 and `s1` in
/// bytes 16..32.
pub proof fn lemma_block_layout(s0: u128, s1: u128)
    ensures
        block_of(s0, s1).len() == 32,
        from_le16(block_of(s0, s1).subrange(0, 16)) == s0,
        from_le16(block_of(s0, s1).subrange(16, 32)) == s1,
{
    assert(block_of(s0, s1).subrange(0, 16) =~= le16(s0));
    assert(block_of(s0, s1).subrange(16, 32) =~= le16(s1));
    crate::bytes::lemma_from_le16_le16(s0);
    crate::bytes::lemma_from_le16_le16(s1);
}

/// The lane after one engine round; the step counter wraps.
pub open spec fn lane_next(l: StreamLane) -> StreamLane {
    let (a, b) = spec_stream_step(l.s0, l.s1, l.step);
    StreamLane { s0: a, s1: b, step: l.step.wrapping_add(1) }
}

/// The lane after `k` engine rounds.
pub open spec fn lane_advance(l: StreamLane, k: nat) -> StreamLane
    decreases k,
{
    if k == 0 {
        l
    } else {
        lane_next(lane_advance(l, (k - 1) as nat))
    }
}

/// The step counter: after `k` engine rounds from a lane at step `s`, the
/// counter is `s + k` modulo 2^64, and the next round evaluates the engine
/// at exactly that counter.
pub proof fn lemma_lane_advance_step(l: StreamLane, k: nat)
    ensures
        lane_advance(l, k).step as int == (l.step as int + k) % 0x1_0000_0000_0000_0000,
        ({
            let a = lane_advance(l, k);
            let b = lane_advance(l, k + 1);
            (b.s0, b.s1) == spec_stream_step(
                a.s0,
                a.s1,
                ((l.step as int + k) % 0x1_0000_0000_0000_0000) as u64,
            )
        }),
    decreases k,
{
    let m: int = 0x1_0000_0000_0000_0000;
    if k == 0 {
        vstd::arithmetic::div_mod::lemma_small_mod(l.step as nat, m as nat);
    } else {
        lemma_lane_advance_step(l, (k - 1) as nat);
        let p = lane_advance(l, (k - 1) as nat).step as int;
        assert(p == (l.step as int + k - 1) % m);
        vstd::arithmetic::div_mod::lemma_add_mod_noop(l.step as int + k - 1, 1, m);
        vstd::arithmetic::div_mod::lemma_small_mod(1, m as nat);
        vstd::arithmetic::div_mod::lemma_mod_bound(l.step as int + k - 1, m);
        if p + 1 < m {
            vstd::arithmetic::div_mod::lemma_small_mod((p + 1) as nat, m as nat);
        } else {
            assert(p + 1 == m);
            vstd::arithmetic::div_mod::lemma_mod_self_0(m);
        }
    }
    assert(lane_advance(l, k + 1) == lane_next(lane_advance(l, k)));
}

/// The output block of a lane's current state.
pub open spec fn lane_block(l: StreamLane) -> Seq<u8> {
    block_of(l.s0, l.s1)
}

/// The concatenated output of the next `k` engine rounds of a lane.
pub open spec fn lane_blocks(l: StreamLane, k: nat) -> Seq<u8>
    decreases k,
{
    if k == 0 {
        Seq::empty()
    } else {
        lane_blocks(l, (k - 1) as nat) + lane_block(lane_advance(l, k))
    }
}

pub proof fn lemma_lane_blocks_len(l: StreamLane, k: nat)
    ensures
        lane_blocks(l, k).len() == 32 * k,
    decreases k,
{
    if k > 0 {
        lemma_lane_blocks_len(l, (k - 1) as nat);
    }
}

pub proof fn lemma_lane_advance_add(l: StreamLane, j: nat, k: nat)
    ensures
        lane_advance(l, j + k) == lane_advance(lane_advance(l, j), k),
    decreases k,
{
    if k > 0 {
        lemma_lane_advance_add(l, j, (k - 1) as nat);
        assert((j + k - 1) as nat == j + (k - 1) as nat);
    }
}

pub proof fn lemma_lane_blocks_add(l: StreamLane, j: nat, k: nat)
    ensures
        lane_blocks(l, j + k) == lane_blocks(l, j) + lane_blocks(lane_advance(l, j), k),
    decreases k,
{
    if k == 0 {
        assert(lane_blocks(l, j) + lane_blocks(lane_advance(l, j), 0) =~= lane_blocks(l, j));
    } else {
        lemma_lane_blocks_add(l, j, (k - 1) as nat);
        lemma_lane_advance_add(l, j, k);
        assert((j + k - 1) as nat == j + (k - 1) as nat);
        assert(lane_blocks(l, j + k) =~= lane_blocks(l, j) + lane_blocks(
            lane_advance(l, j),
            k,
        ));
    }
}

/// The output block of a state as an array.
pub fn block_array(s0: u128, s1: u128) -> (r: [u8; 32])
    ensures
        r@ == block_of(s0, s1),
{
    let r = [s0 as u8, (s0 >> 8u32) as u8, (s0 >> 16u32) as u8, (s0 >> 24u32) as u8, (s0 >> 32u32) as u8, (s0 >> 40u32) as u8, (s0 >> 48u32) as u8, (s0 >> 56u32) as u8, (s0 >> 64u32) as u8, (s0 >> 72u32) as u8, (s0 >> 80u32) as u8, (s0 >> 88u32) as u8, (s0 >> 96u32) as u8, (s0 >> 104u32) as u8, (s0 >> 112u32) as u8, (s0 >> 120u32) as u8,
        s1 as u8, (s1 >> 8u32) as u8, (s1 >> 16u32) as u8, (s1 >> 24u32) as u8, (s1 >> 32u32) as u8, (s1 >> 40u32) as u8, (s1 >> 48u32) as u8, (s1 >> 56u32) as u8, (s1 >> 64u32) as u8, (s1 >> 72u32) as u8, (s1 >> 80u32) as u8, (s1 >> 88u32) as u8, (s1 >> 96u32) as u8, (s1 >> 104u32) as u8, (s1 >> 112u32) as u8, (s1 >> 120u32) as u8];
    assert(r@ =~= block_of(s0, s1));
    r
}

/// Advances a lane by one engine round and returns the new block.
pub fn lane_step(lane: &mut StreamLane) -> (blk: [u8; 32])
    ensures
        *final(lane) == lane_next(*old(lane)),
        blk@ == lane_block(lane_next(*old(lane))),
{
    let (s0, s1) = stream_step(lane.s0, lane.s1, lane.step);
    lane.s0 = s0;
    lane.s1 = s1;
    lane.step = lane.step.wrapping_add(1);
    block_array(s0, s1)
}

// ------------------------------------------------------------------
// Execution policy
// ------------------------------------------------------------------

/// Message count from which batch hashing runs in parallel.
pub const MT_THRESHOLD_MESSAGES: usize = 1664;

/// Total input size in bytes from which batch hashing runs in parallel.
pub const MT_THRESHOLD_BYTES: usize = 65536;

/// Lanes per parallel work unit for single-step stream dispatch.
pub const PARALLEL_CHUNK_STATES: usize = 288;

/// Lanes per parallel work unit for multi-step stream dispatch.
pub const PARALLEL_CHUNK_STATES_MANY: usize = 34;

/// Lane count from which single-step stream dispatch runs in parallel.
pub const MT_THRESHOLD_STREAMS: usize = 1536;

/// Work size (lanes times steps) from which multi-step stream dispatch
/// runs in parallel.
pub const MT_THRESHOLD_STREAMS_MANY: usize = 1536;

// ------------------------------------------------------------------
// Batch hashing
// ------------------------------------------------------------------

/// The 256-bit digest of `data` under `domain`: both absorbed words.
pub open spec fn digest256(data: Seq<u8>, domain: u128) -> Seq<u8> {
    let s = spec_absorb(data, domain);
    block_of(s.0, s.1)
}

/// The 128-bit digest of `data` under `domain`: the first absorbed word.
pub open spec fn digest128(data: Seq<u8>, domain: u128) -> Seq<u8> {
    le16(spec_absorb(data, domain).0)
}

/// Total length of a sequence of messages.
pub open spec fn total_len(messages: Seq<&[u8]>) -> nat
    decreases messages.len(),
{
    if messages.len() == 0 {
        0
    } else {
        total_len(messages.drop_last()) + messages.last()@.len()
    }
}

/// Absorbs one message and stores its 256-bit digest in `out`.
pub fn absorb_into256(m: &[u8], domain: u128, out: &mut Hash256)
    ensures
        final(out).0@ == digest256(m@, domain),
{
    let (s0, s1) = absorb_with_domain(m, domain);
    *out = Hash256::from_state(s0, s1);
}

/// Absorbs one message and stores its 128-bit digest in `out`.
pub fn absorb_into128(m: &[u8], domain: u128, out: &mut Hash128)
    ensures
        final(out).0@ == digest128(m@, domain),
{
    let (s0, _s1) = absorb_with_domain(m, domain);
    *out = Hash128::from_state(s0);
}

/// Whether the messages hold at least `limit` bytes in total.
fn total_len_at_least(messages: &[&[u8]], limit: usize) -> (r: bool)
    ensures
        r == (total_len(messages@) >= limit),
{
    if limit == 0 {
        return true;
    }
    let n = messages.len();
    let mut sum: usize = 0;
    let mut i: usize = 0;
    while i < n
        invariant
            n == messages@.len(),
            i <= n,
            sum == total_len(messages@.subrange(0, i as int)),
            sum < limit,
        decreases n - i,
    {
        let m = messages[i];
        proof {
            assert(messages@.subrange(0, i + 1).drop_last() =~= messages@.subrange(0, i as int));
        }
        if m.len() >= limit - sum {
            proof {
                lemma_total_len_prefix_mono(messages@, (i + 1) as nat);
            }
            return true;
        }
        sum = sum + m.len();
        i = i + 1;
    }
    proof {
        assert(messages@.subrange(0, n as int) =~= messages@);
    }
    false
}

/// A prefix holds no more bytes than the whole.
proof fn lemma_total_len_prefix_mono(s: Seq<&[u8]>, k: nat)
    requires
        k <= s.len(),
    ensures
        total_len(s.subrange(0, k as int)) <= total_len(s),
    decreases s.len() - k,
{
    if k < s.len() {
        lemma_total_len_prefix_mono(s, k + 1);
        assert(s.subrange(0, (k + 1) as int).drop_last() =~= s.subrange(0, k as int));
    } else {
        assert(s.subrange(0, k as int) =~= s);
    }
}

/// Hashes every message into the matching slot of `out` on rayon's
/// worker pool, which rayon builds on first use and reuses afterwards.
///
/// Trusted: rayon's `par_iter().zip(par_iter_mut()).for_each(..)` applies
/// the closure exactly once to every pair `(messages[i], &mut out[i])` and
/// touches nothing else; the closure is the verified `absorb_into256`.
#[verifier::external_body]
fn par_hash256_into(messages: &[&[u8]], domain: u128, out: &mut [Hash256])
    requires
        messages@.len() == old(out)@.len(),
    ensures
        final(out)@.len() == old(out)@.len(),
        forall|i: int|
            0 <= i < messages@.len() ==> (#[trigger] final(out)@[i]).0@ == digest256(
                messages@[i]@,
                domain,
            ),
{
    messages.par_iter().zip(out.par_iter_mut()).for_each(|(m, o)| absorb_into256(m, domain, o));
}

/// Hashes every message into the matching slot of `out` on rayon's
/// worker pool, keeping the first word only.
///
/// Trusted: as `par_hash256_into`, with the verified `absorb_into128` as
/// the closure.
#[verifier::external_body]
fn par_hash128_into(messages: &[&[u8]], domain: u128, out: &mut [Hash128])
    requires
        messages@.len() == old(out)@.len(),
    ensures
        final(out)@.len() == old(out)@.len(),
        forall|i: int|
            0 <= i < messages@.len() ==> (#[trigger] final(out)@[i]).0@ == digest128(
                messages@[i]@,
                domain,
            ),
{
    messages.par_iter().zip(out.par_iter_mut()).for_each(|(m, o)| absorb_into128(m, domain, o));
}

/// Hashes `messages` into `out`, in parallel for large workloads.
pub fn dispatch_hash256_batch_into(messages: &[&[u8]], domain: u128, out: &mut [Hash256])
    requires
        messages@.len() == old(out)@.len(),
    ensures
        final(out)@.len() == old(out)@.len(),
        forall|i: int|
            0 <= i < messages@.len() ==> (#[trigger] final(out)@[i]).0@ == digest256(
                messages@[i]@,
                domain,
            ),
{
    let len = messages.len();
    if len == 0 {
        return;
    }
    if len > 1 && (len >= MT_THRESHOLD_MESSAGES || total_len_at_least(
        messages,
        MT_THRESHOLD_BYTES,
    )) {
        par_hash256_into(messages, domain, out);
        return;
    }
    let mut i: usize = 0;
    while i < len
        invariant
            len == messages@.len(),
            out@.len() == len,
            i <= len,
            forall|k: int|
                0 <= k < i ==> (#[trigger] out@[k]).0@ == digest256(messages@[k]@, domain),
        decreases len - i,
    {
        let mut h = out[i];
        absorb_into256(messages[i], domain, &mut h);
        out[i] = h;
        i = i + 1;
    }
}

/// Hashes `messages` into `out`, keeping the first word only; in parallel
/// for large workloads.
pub fn dispatch_hash128_batch_into(messages: &[&[u8]], domain: u128, out: &mut [Hash128])
    requires
        messages@.len() == old(out)@.len(),
    ensures
        final(out)@.len() == old(out)@.len(),
        forall|i: int|
            0 <= i < messages@.len() ==> (#[trigger] final(out)@[i]).0@ == digest128(
                messages@[i]@,
                domain,
            ),
{
    let len = messages.len();
    if len == 0 {
        return;
    }
    if len > 1 && (len >= MT_THRESHOLD_MESSAGES || total_len_at_least(
        messages,
        MT_THRESHOLD_BYTES,
    )) {
        par_hash128_into(messages, domain, out);
        return;
    }
    let mut i: usize = 0;
    while i < len
        invariant
            len == messages@.len(),
            out@.len() == len,
            i <= len,
            forall|k: int|
                0 <= k < i ==> (#[trigger] out@[k]).0@ == digest128(messages@[k]@, domain),
        decreases len - i,
    {
        let mut h = out[i];
        absorb_into128(messages[i], domain, &mut h);
        out[i] = h;
        i = i + 1;
    }
}

// ------------------------------------------------------------------
// Batch streams
// ------------------------------------------------------------------

/// Every lane advanced by one round, and its new block written to the
/// matching output slot.
pub open spec fn lockstep_done(
    old_lanes: Seq<StreamLane>,
    lanes: Seq<StreamLane>,
    out: Seq<[u8; 32]>,
) -> bool {
    &&& lanes.len() == old_lanes.len()
    &&& out.len() == old_lanes.len()
    &&& forall|i: int|
        0 <= i < old_lanes.len() ==> #[trigger] lanes[i] == lane_next(old_lanes[i]) && out[i]@
            == lane_block(lane_next(old_lanes[i]))
}

/// The block that stream-major output holds at position `k`: lane
/// `k / steps`, round `k % steps + 1`.
pub open spec fn many_block(old_lanes: Seq<StreamLane>, steps: nat, k: int) -> Seq<u8> {
    lane_block(lane_advance(old_lanes[k / steps as int], (k % steps as int + 1) as nat))
}

/// Every lane advanced by `steps` rounds, and all its blocks written in
/// order, lane after lane (stream-major).
pub open spec fn many_done(
    old_lanes: Seq<StreamLane>,
    lanes: Seq<StreamLane>,
    out: Seq<[u8; 32]>,
    steps: nat,
) -> bool {
    &&& lanes.len() == old_lanes.len()
    &&& out.len() == old_lanes.len() * steps
    &&& forall|i: int|
        0 <= i < old_lanes.len() ==> #[trigger] lanes[i] == lane_advance(old_lanes[i], steps)
    &&& forall|k: int| 0 <= k < out.len() ==> #[trigger] out[k]@ == many_block(old_lanes, steps, k)
}

/// Advances every lane by one round, writing one block per lane.
pub fn process_lanes_scalar(lanes: &mut [StreamLane], out: &mut [[u8; 32]])
    requires
        old(lanes)@.len() == old(out)@.len(),
    ensures
        lockstep_done(old(lanes)@, final(lanes)@, final(out)@),
{
    let n = lanes.len();
    let mut i: usize = 0;
    while i < n
        invariant
            n == lanes@.len(),
            lanes@.len() == old(lanes)@.len(),
            out@.len() == n,
            i <= n,
            forall|k: int|
                0 <= k < i ==> #[trigger] lanes@[k] == lane_next(old(lanes)@[k]) && out@[k]@
                    == lane_block(lane_next(old(lanes)@[k])),
            forall|k: int| i <= k < n ==> #[trigger] lanes@[k] == old(lanes)@[k],
        decreases n - i,
    {
        let mut lane = lanes[i];
        let blk = lane_step(&mut lane);
        lanes[i] = lane;
        out[i] = blk;
        i = i + 1;
    }
}

/// Advances every lane by one round on rayon's worker pool.
///
/// Trusted: rayon's `par_chunks_mut(..).zip(par_chunks_mut(..)).for_each(..)`
/// splits both slices into matching consecutive chunks that together cover
/// them and applies the closure, the verified `process_lanes_scalar`,
/// exactly once to every pair of chunks.
#[verifier::external_body]
fn par_process_lanes(lanes: &mut [StreamLane], out: &mut [[u8; 32]])
    requires
        old(lanes)@.len() == old(out)@.len(),
    ensures
        lockstep_done(old(lanes)@, final(lanes)@, final(out)@),
{
    lanes.par_chunks_mut(PARALLEL_CHUNK_STATES).zip(out.par_chunks_mut(PARALLEL_CHUNK_STATES))
        .for_each(|(l, o)| process_lanes_scalar(l, o));
}

/// Advances every lane by one lockstep round.
pub fn dispatch_streams(lanes: &mut [StreamLane], out: &mut [[u8; 32]])
    requires
        old(lanes)@.len() == old(out)@.len(),
    ensures
        lockstep_done(old(lanes)@, final(lanes)@, final(out)@),
{
    let len = lanes.len();
    if len == 0 {
        return;
    }
    if len > 1 && len >= MT_THRESHOLD_STREAMS {
        par_process_lanes(lanes, out);
        return;
    }
    process_lanes_scalar(lanes, out);
}

proof fn lemma_many_index(i: int, j: int, steps: int, n: int)
    requires
        0 <= i < n,
        0 <= j < steps,
    ensures
        0 <= i * steps + j < n * steps,
        (i * steps + j) / steps == i,
        (i * steps + j) % steps == j,
        i * steps + j + 1 <= (i + 1) * steps,
{
    assert(0 <= i * steps + j < n * steps && i * steps + j + 1 <= (i + 1) * steps)
        by (nonlinear_arith)
        requires
            0 <= i < n,
            0 <= j < steps,
    ;
    vstd::arithmetic::div_mod::lemma_fundamental_div_mod_converse(i * steps + j, steps, i, j);
}

/// Advances each lane by `steps` rounds; output is stream-major.
pub fn process_lanes_many_scalar(lanes: &mut [StreamLane], out: &mut [[u8; 32]], steps: usize)
    requires
        old(out)@.len() == old(lanes)@.len() * steps,
    ensures
        many_done(old(lanes)@, final(lanes)@, final(out)@, steps as nat),
{
    let n = lanes.len();
    let ghost ol = old(lanes)@;
    let mut i: usize = 0;
    let mut k: usize = 0;
    while i < n
        invariant
            n == lanes@.len(),
            n == ol.len(),
            ol == old(lanes)@,
            out@.len() == n * steps,
            i <= n,
            k == i * steps,
            forall|m: int| 0 <= m < i ==> #[trigger] lanes@[m] == lane_advance(ol[m], steps as nat),
            forall|m: int| i <= m < n ==> #[trigger] lanes@[m] == ol[m],
            forall|q: int| 0 <= q < k ==> #[trigger] out@[q]@ == many_block(ol, steps as nat, q),
        decreases n - i,
    {
        let mut lane = lanes[i];
        let mut j: usize = 0;
        while j < steps
            invariant
                n == lanes@.len(),
                n == ol.len(),
                out@.len() == n * steps,
                i < n,
                j <= steps,
                k == i * steps + j,
                lane == lane_advance(ol[i as int], j as nat),
                forall|q: int| 0 <= q < k ==> #[trigger] out@[q]@ == many_block(ol, steps as nat, q),
            decreases steps - j,
        {
            proof {
                lemma_many_index(i as int, j as int, steps as int, n as int);
            }
            let blk = lane_step(&mut lane);
            out[k] = blk;
            proof {
                assert(out@[k as int]@ == many_block(ol, steps as nat, k as int));
            }
            j = j + 1;
            k = k + 1;
        }
        lanes[i] = lane;
        proof {
            assert(k == (i + 1) * steps) by (nonlinear_arith)
                requires
                    k == i * steps + steps,
            ;
        }
        i = i + 1;
    }
}

/// Advances each lane by `steps` rounds on rayon's worker pool.
///
/// Trusted: rayon's `par_chunks_mut(..).zip(par_chunks_mut(..)).for_each(..)`
/// splits the lanes into consecutive chunks of `PARALLEL_CHUNK_STATES_MANY`
/// and the output into the matching chunks of `steps` times as many
/// blocks, and applies the closure, the verified
/// `process_lanes_many_scalar`, exactly once to every pair of chunks.
/// Rayon refuses a chunk size of 0, hence `steps > 0`; with more lanes than
/// one chunk holds, `PARALLEL_CHUNK_STATES_MANY * steps` is below the
/// output length and cannot overflow.
#[verifier::external_body]
fn par_process_lanes_many(
    lanes: &mut [StreamLane],
    out: &mut [[u8; 32]],
    steps: usize,
)
    requires
        old(out)@.len() == old(lanes)@.len() * steps,
        old(lanes)@.len() > PARALLEL_CHUNK_STATES_MANY,
        steps > 0,
    ensures
        many_done(old(lanes)@, final(lanes)@, final(out)@, steps as nat),
{
    lanes.par_chunks_mut(PARALLEL_CHUNK_STATES_MANY)
        .zip(out.par_chunks_mut(PARALLEL_CHUNK_STATES_MANY * steps))
        .for_each(|(l, o)| process_lanes_many_scalar(l, o, steps));
}

/// Advances each lane by `steps` rounds in one dispatch. Output is
/// stream-major: each lane's blocks in step order, lane after lane.
pub fn dispatch_streams_many(lanes: &mut [StreamLane], out: &mut [[u8; 32]], steps: usize)
    requires
        old(out)@.len() == old(lanes)@.len() * steps,
    ensures
        many_done(old(lanes)@, final(lanes)@, final(out)@, steps as nat),
{
    let n = lanes.len();
    if n == 0 || steps == 0 {
        proof {
            assert forall|i: int| 0 <= i < n implies #[trigger] lanes@[i] == lane_advance(
                old(lanes)@[i],
                steps as nat,
            ) by {}
            assert(out@.len() == 0) by (nonlinear_arith)
                requires
                    out@.len() == n * steps,
                    n == 0 || steps == 0,
            ;
        }
        return;
    }
    if steps == 1 {
        let ghost ol = old(lanes)@;
        dispatch_streams(lanes, out);
        proof {
            assert forall|k: int| 0 <= k < out@.len() implies #[trigger] out@[k]@ == many_block(
                ol,
                1,
                k,
            ) by {
                assert(k / 1 == k && k % 1 == 0);
                assert(lanes@[k] == lane_next(ol[k]));
                assert(lane_advance(ol[k], 1) == lane_next(lane_advance(ol[k], 0)));
            }
            assert forall|i: int| 0 <= i < n implies #[trigger] lanes@[i] == lane_advance(
                ol[i],
                1,
            ) by {
                assert(lane_advance(ol[i], 1) == lane_next(lane_advance(ol[i], 0)));
            }
        }
        return;
    }
    let real_chunks = n / PARALLEL_CHUNK_STATES_MANY + if n % PARALLEL_CHUNK_STATES_MANY != 0 {
        1
    } else {
        0
    };
    let go_parallel = real_chunks >= 2 && out.len() >= MT_THRESHOLD_STREAMS_MANY;
    if go_parallel {
        par_process_lanes_many(lanes, out, steps);
        return;
    }
    process_lanes_many_scalar(lanes, out, steps);
}

} // verus!
