//! Internal pipeline shared by the public constructions: branch derivation,
//! message absorption and the buffered single-stream state.
use vstd::prelude::*;
use crate::bytes::{from_le16, u128_from_le_at};
use crate::constants::{IV_S0, IV_S1, STREAM_INIT_MASK};
use crate::dispatch::{
    StreamLane, block_array, digest128, digest256, dispatch_hash128_batch_into,
    dispatch_hash256_batch_into, lane_advance, lane_block, lane_blocks, lane_next,
    lemma_lane_advance_add, lemma_lane_blocks_add, lemma_lane_blocks_len,
};
use crate::engine::{evaluate_scalar, spec_evaluate, stream_step};
use crate::types::{Hash128, Hash256};

verus! {

/// Version of the public interface.
pub const LUSTRO_API_VERSION: u32 = 1;

/// Returns the version of the public interface.
pub fn lustro_api_version() -> (v: u32)
    ensures
        v == LUSTRO_API_VERSION,
{
    LUSTRO_API_VERSION
}

// ------------------------------------------------------------------
// Branch derivation
// ------------------------------------------------------------------

/// Stage 1 of branch derivation: applies the domain tag and the stream
/// initialisation mask.
pub open spec fn spec_prepare_base(s0: u128, s1: u128, domain: u128) -> (u128, u128) {
    (s0 ^ domain, s1 ^ STREAM_INIT_MASK)
}

/// Stage 2 of branch derivation: mixes the branch identifier into the
/// second word and evaluates the engine once.
pub open spec fn spec_derive_branch(base_s0: u128, base_s1: u128, id: u128) -> (u128, u128) {
    spec_evaluate(base_s0, base_s1 ^ id)
}

/// Both stages of branch derivation.
pub open spec fn spec_fork_lane(s0: u128, s1: u128, domain: u128, id: u128) -> (u128, u128) {
    let b = spec_prepare_base(s0, s1, domain);
    spec_derive_branch(b.0, b.1, id)
}

/// The fresh lane derived from `l`'s state words under `domain` and `id`;
/// the step counter starts at 0.
pub open spec fn child_lane(l: StreamLane, domain: u128, id: u128) -> StreamLane {
    let s = spec_fork_lane(l.s0, l.s1, domain, id);
    StreamLane { s0: s.0, s1: s.1, step: 0 }
}

/// The lane held in a snapshot record.
pub open spec fn record_lane(r: (u128, u128, u64)) -> StreamLane {
    StreamLane { s0: r.0, s1: r.1, step: r.2 }
}

/// The snapshot record of a lane.
pub open spec fn lane_record_of(l: StreamLane) -> (u128, u128, u64) {
    (l.s0, l.s1, l.step)
}

pub fn prepare_base(s0: u128, s1: u128, domain: u128) -> (r: (u128, u128))
    ensures
        r == spec_prepare_base(s0, s1, domain),
{
    (s0 ^ domain, s1 ^ STREAM_INIT_MASK)
}

pub fn derive_branch_stream(base_s0: u128, base_s1: u128, id: u128) -> (r: (u128, u128))
    ensures
        r == spec_derive_branch(base_s0, base_s1, id),
{
    evaluate_scalar(base_s0, base_s1 ^ id)
}

/// Derives a forked lane from raw state words.
pub fn fork_lane(s0: u128, s1: u128, domain: u128, id: u128) -> (r: (u128, u128))
    ensures
        r == spec_fork_lane(s0, s1, domain, id),
{
    let (b0, b1) = prepare_base(s0, s1, domain);
    derive_branch_stream(b0, b1, id)
}

// ------------------------------------------------------------------
// Absorption
// ------------------------------------------------------------------

/// The encoded bit length of a message of `len` bytes: the 64-bit bit
/// count in the low half, the same count rotated left by 17 in the high
/// half.
pub open spec fn len_commitment(len: nat) -> u128 {
    let len64 = (len as u64).wrapping_mul(8);
    let rot = (len64 << 17u32) | (len64 >> 47u32);
    ((rot as u128) << 64u32) | (len64 as u128)
}

/// The state before any block is absorbed.
pub open spec fn absorb_init(len: nat, domain: u128) -> (u128, u128) {
    (IV_S0 ^ domain, IV_S1 ^ len_commitment(len))
}

/// Absorbs one 32-byte block: XOR into both words, then one evaluation.
pub open spec fn absorb_block(st: (u128, u128), block: Seq<u8>) -> (u128, u128) {
    spec_evaluate(
        st.0 ^ from_le16(block.subrange(0, 16)),
        st.1 ^ from_le16(block.subrange(16, 32)),
    )
}

/// The state after absorbing the first `k` full blocks of `data`.
pub open spec fn absorb_blocks(data: Seq<u8>, domain: u128, k: nat) -> (u128, u128)
    decreases k,
{
    if k == 0 {
        absorb_init(data.len(), domain)
    } else {
        absorb_block(
            absorb_blocks(data, domain, (k - 1) as nat),
            data.subrange(32 * (k - 1), (32 * k) as int),
        )
    }
}

/// The final block: the remainder, the byte 0x80, then zeros up to 32 bytes.
pub open spec fn terminator_block(rem: Seq<u8>) -> Seq<u8> {
    rem + seq![0x80u8] + Seq::new((31 - rem.len()) as nat, |i: int| 0u8)
}

/// The terminator round over a partial final block. A remainder shorter
/// than 16 bytes additionally XORs its first word into the second.
pub open spec fn absorb_terminator(st: (u128, u128), rem: Seq<u8>) -> (u128, u128) {
    let buf = terminator_block(rem);
    let b0 = from_le16(buf.subrange(0, 16));
    let b1 = from_le16(buf.subrange(16, 32));
    let t1 = st.1 ^ b1;
    spec_evaluate(st.0 ^ b0, if rem.len() < 16 { t1 ^ b0 } else { t1 })
}

/// The state obtained by absorbing `data` under `domain`. A non-empty
/// message whose length is a multiple of 32 has no terminator round.
pub open spec fn spec_absorb(data: Seq<u8>, domain: u128) -> (u128, u128) {
    let n = data.len() / 32;
    let st = absorb_blocks(data, domain, n);
    if data.len() % 32 == 0 && data.len() > 0 {
        st
    } else {
        absorb_terminator(st, data.subrange((32 * n) as int, data.len() as int))
    }
}

/// Absorption reads the message in consecutive 32-byte blocks: round `k`
/// XORs bytes `32k - 32 .. 32k - 16`, read little-endian, into the first
/// word and bytes `32k - 16 .. 32k` into the second, then evaluates the
/// engine once.
pub proof fn lemma_absorb_round_reads_block(data: Seq<u8>, domain: u128, k: nat)
    requires
        1 <= k,
        32 * k <= data.len(),
    ensures
        absorb_blocks(data, domain, k) == spec_evaluate(
            absorb_blocks(data, domain, (k - 1) as nat).0 ^ from_le16(
                data.subrange(32 * k - 32, 32 * k - 16),
            ),
            absorb_blocks(data, domain, (k - 1) as nat).1 ^ from_le16(
                data.subrange(32 * k - 16, 32 * k as int),
            ),
        ),
{
    let blk = data.subrange(32 * (k - 1), (32 * k) as int);
    assert(blk.subrange(0, 16) =~= data.subrange(32 * k - 32, 32 * k - 16));
    assert(blk.subrange(16, 32) =~= data.subrange(32 * k - 16, 32 * k as int));
}

/// The state after `k` full blocks depends on the message only through its
/// length and its first `32k` bytes.
pub proof fn lemma_absorb_prefix(a: Seq<u8>, b: Seq<u8>, domain: u128, k: nat)
    requires
        a.len() == b.len(),
        32 * k <= a.len(),
        a.subrange(0, 32 * k as int) == b.subrange(0, 32 * k as int),
    ensures
        absorb_blocks(a, domain, k) == absorb_blocks(b, domain, k),
    decreases k,
{
    if k > 0 {
        let j = (k - 1) as nat;
        assert(a.subrange(0, 32 * j as int) =~= a.subrange(0, 32 * k as int).subrange(0, 32 * j as int));
        assert(b.subrange(0, 32 * j as int) =~= b.subrange(0, 32 * k as int).subrange(0, 32 * j as int));
        lemma_absorb_prefix(a, b, domain, j);
        assert(a.subrange(32 * j as int, 32 * k as int) =~= a.subrange(0, 32 * k as int).subrange(
            32 * j as int,
            32 * k as int,
        ));
        assert(b.subrange(32 * j as int, 32 * k as int) =~= b.subrange(0, 32 * k as int).subrange(
            32 * j as int,
            32 * k as int,
        ));
    }
}

proof fn lemma_xor_cancel(p: u128, x: u128, y: u128)
    by (bit_vector)
    requires
        p ^ x == p ^ y,
    ensures
        x == y,
{
}

/// Every byte of a full block enters its round: two messages of the same
/// length that agree before block `k` but differ inside it reach round `k`
/// in the same state and XOR different words into it.
pub proof fn lemma_absorb_block_changes_input(a: Seq<u8>, b: Seq<u8>, domain: u128, k: nat)
    requires
        a.len() == b.len(),
        1 <= k,
        32 * k <= a.len(),
        a.subrange(0, 32 * k - 32) == b.subrange(0, 32 * k - 32),
        a.subrange(32 * k - 32, 32 * k as int) != b.subrange(32 * k - 32, 32 * k as int),
    ensures
        absorb_blocks(a, domain, (k - 1) as nat) == absorb_blocks(b, domain, (k - 1) as nat),
        ({
            let p = absorb_blocks(a, domain, (k - 1) as nat);
            (p.0 ^ from_le16(a.subrange(32 * k - 32, 32 * k - 16)), p.1 ^ from_le16(
                a.subrange(32 * k - 16, 32 * k as int),
            )) != (p.0 ^ from_le16(b.subrange(32 * k - 32, 32 * k - 16)), p.1 ^ from_le16(
                b.subrange(32 * k - 16, 32 * k as int),
            ))
        }),
{
    let j = (k - 1) as nat;
    assert(32 * j == 32 * k - 32);
    lemma_absorb_prefix(a, b, domain, j);
    let p = absorb_blocks(a, domain, j);
    let a0 = a.subrange(32 * k - 32, 32 * k - 16);
    let a1 = a.subrange(32 * k - 16, 32 * k as int);
    let b0 = b.subrange(32 * k - 32, 32 * k - 16);
    let b1 = b.subrange(32 * k - 16, 32 * k as int);
    if (p.0 ^ from_le16(a0), p.1 ^ from_le16(a1)) == (p.0 ^ from_le16(b0), p.1 ^ from_le16(b1)) {
        lemma_xor_cancel(p.0, from_le16(a0), from_le16(b0));
        lemma_xor_cancel(p.1, from_le16(a1), from_le16(b1));
        crate::bytes::lemma_from_le16_injective(a0, b0);
        crate::bytes::lemma_from_le16_injective(a1, b1);
        assert(a.subrange(32 * k - 32, 32 * k as int) =~= a0 + a1);
        assert(b.subrange(32 * k - 32, 32 * k as int) =~= b0 + b1);
    }
}

proof fn lemma_join_low(hi: u64, lo: u64)
    by (bit_vector)
    ensures
        ((((hi as u128) << 64u32) | (lo as u128)) as u64) == lo,
{
}

/// The message length is committed in the initial state: the low 64 bits
/// of the commitment are the bit count, and messages of different lengths
/// (below 2^61 bytes) start absorption from different states.
pub proof fn lemma_length_committed(l1: nat, l2: nat, domain: u128)
    requires
        l1 < 0x2000_0000_0000_0000,
        l2 < 0x2000_0000_0000_0000,
    ensures
        (len_commitment(l1) as u64) == 8 * l1,
        l1 != l2 ==> absorb_init(l1, domain) != absorb_init(l2, domain),
{
    let m: nat = 0x1_0000_0000_0000_0000;
    let x1 = (l1 as u64).wrapping_mul(8);
    let x2 = (l2 as u64).wrapping_mul(8);
    vstd::arithmetic::div_mod::lemma_small_mod(8 * l1, m);
    vstd::arithmetic::div_mod::lemma_small_mod(8 * l2, m);
    assert(x1 == 8 * l1);
    assert(x2 == 8 * l2);
    lemma_join_low(((x1 << 17u32) | (x1 >> 47u32)), x1);
    lemma_join_low(((x2 << 17u32) | (x2 >> 47u32)), x2);
    if l1 != l2 && absorb_init(l1, domain) == absorb_init(l2, domain) {
        lemma_xor_cancel(IV_S1, len_commitment(l1), len_commitment(l2));
    }
}

/// The final partial block: the remaining bytes, then the byte 0x80, then
/// zeros up to 32 bytes.
pub proof fn lemma_terminator_block_layout(rem: Seq<u8>)
    requires
        rem.len() < 32,
    ensures
        terminator_block(rem).len() == 32,
        terminator_block(rem).subrange(0, rem.len() as int) == rem,
        terminator_block(rem)[rem.len() as int] == 0x80u8,
        forall|j: int| rem.len() < j < 32 ==> #[trigger] terminator_block(rem)[j] == 0u8,
{
    assert(terminator_block(rem).subrange(0, rem.len() as int) =~= rem);
}

/// The rounds of absorption: it starts from the IVs with the domain XORed
/// into the first word and the length commitment into the second, takes
/// one round per full 32-byte block, and then stops if the message is
/// non-empty and a multiple of 32 bytes long; otherwise a terminator round
/// absorbs the padded remainder, folding its first word also into the
/// second word when fewer than 16 bytes remain.
pub proof fn lemma_absorb_rounds(data: Seq<u8>, domain: u128)
    ensures
        absorb_blocks(data, domain, 0) == (IV_S0 ^ domain, IV_S1 ^ len_commitment(data.len())),
        ({
            let n = data.len() / 32;
            let st = absorb_blocks(data, domain, n);
            let rem = data.subrange(32 * n as int, data.len() as int);
            let buf = terminator_block(rem);
            let w0 = from_le16(buf.subrange(0, 16));
            let w1 = from_le16(buf.subrange(16, 32));
            &&& (data.len() % 32 == 0 && data.len() > 0) ==> spec_absorb(data, domain) == st
            &&& !(data.len() % 32 == 0 && data.len() > 0) ==> spec_absorb(data, domain)
                == spec_evaluate(
                st.0 ^ w0,
                if rem.len() < 16 {
                    st.1 ^ w1 ^ w0
                } else {
                    st.1 ^ w1
                },
            )
        }),
{
}

/// Absorbs `data` block by block with domain and bit-length separation.
pub fn absorb_with_domain(data: &[u8], domain: u128) -> (r: (u128, u128))
    ensures
        r == spec_absorb(data@, domain),
{
    let len64 = (data.len() as u64).wrapping_mul(8);
    let rot = (len64 << 17u32) | (len64 >> 47u32);
    let mut s0 = IV_S0 ^ domain;
    let mut s1 = IV_S1 ^ (((rot as u128) << 64u32) | (len64 as u128));
    let dlen = data.len();
    let n = dlen / 32;
    let mut i: usize = 0;
    while i < n
        invariant
            dlen == data@.len(),
            n == data@.len() / 32,
            i <= n,
            (s0, s1) == absorb_blocks(data@, domain, i as nat),
        decreases n - i,
    {
        assert(i * 32 + 32 <= data@.len()) by (nonlinear_arith)
            requires
                i < n,
                n == data@.len() / 32,
        ;
        let off = i * 32;
        let b0 = u128_from_le_at(data, off);
        let b1 = u128_from_le_at(data, off + 16);
        proof {
            let blk = data@.subrange(32 * i, 32 * (i + 1));
            assert(blk.subrange(0, 16) =~= data@.subrange(off as int, off + 16));
            assert(blk.subrange(16, 32) =~= data@.subrange(off + 16, off + 32));
        }
        let (t0, t1) = evaluate_scalar(s0 ^ b0, s1 ^ b1);
        s0 = t0;
        s1 = t1;
        i = i + 1;
    }
    if data.len() % 32 == 0 && data.len() > 0 {
        return (s0, s1);
    }
    assert(n * 32 <= data@.len()) by (nonlinear_arith)
        requires
            n == data@.len() / 32,
    ;
    let rem = &data[n * 32..data.len()];
    finalize_terminator(s0, s1, rem)
}

/// Absorbs the final partial block with 0x80 termination and zero padding.
fn finalize_terminator(s0: u128, s1: u128, remainder: &[u8]) -> (r: (u128, u128))
    requires
        remainder@.len() < 32,
    ensures
        r == absorb_terminator((s0, s1), remainder@),
{
    let mut buf = [0u8; 32];
    let rl = remainder.len();
    let mut j: usize = 0;
    while j < rl
        invariant
            rl == remainder@.len(),
            rl < 32,
            j <= rl,
            buf@.len() == 32,
            forall|k: int| 0 <= k < j ==> buf@[k] == remainder@[k],
            forall|k: int| j <= k < 32 ==> buf@[k] == 0u8,
        decreases rl - j,
    {
        buf[j] = remainder[j];
        j = j + 1;
    }
    buf[rl] = 0x80u8;
    assert(buf@ =~= terminator_block(remainder@));
    let b0 = u128_from_le_at(buf.as_slice(), 0);
    let b1 = u128_from_le_at(buf.as_slice(), 16);
    let mut t1 = s1 ^ b1;
    if rl < 16 {
        t1 = t1 ^ b0;
    }
    evaluate_scalar(s0 ^ b0, t1)
}

/// Hashes independent messages into `out` (256-bit digests).
pub fn absorb_hash256_batch_into(messages: &[&[u8]], domain: u128, out: &mut [Hash256])
    requires
        messages@.len() == old(out)@.len(),
    ensures
        final(out)@.len() == old(out)@.len(),
        forall|i: int|
            0 <= i < messages@.len() ==> (#[trigger] final(out)@[i]).0@ == digest256(
                messages@[i]@,
                domain,
            ),
{
    dispatch_hash256_batch_into(messages, domain, out);
}

/// Hashes independent messages into `out` (128-bit digests).
pub fn absorb_hash128_batch_into(messages: &[&[u8]], domain: u128, out: &mut [Hash128])
    requires
        messages@.len() == old(out)@.len(),
    ensures
        final(out)@.len() == old(out)@.len(),
        forall|i: int|
            0 <= i < messages@.len() ==> (#[trigger] final(out)@[i]).0@ == digest128(
                messages@[i]@,
                domain,
            ),
{
    dispatch_hash128_batch_into(messages, domain, out);
}

// ------------------------------------------------------------------
// Buffered single stream
// ------------------------------------------------------------------

/// The mathematical state of a buffered stream: its lane and the read
/// position `cursor` inside the lane's current block.
#[derive(Clone, Copy)]
pub struct StreamView {
    pub lane: StreamLane,
    pub cursor: u8,
}

/// The fresh stream over the state words `(s0, s1)`: step 0 and an empty
/// buffer.
pub open spec fn fresh_view(s: (u128, u128)) -> StreamView {
    StreamView { lane: StreamLane { s0: s.0, s1: s.1, step: 0 }, cursor: 32 }
}

/// The bytes of the current block not yet handed out. A cursor of 0 or of
/// 32 or more leaves nothing buffered.
pub open spec fn buffered(v: StreamView) -> Seq<u8> {
    if 0 < v.cursor < 32 {
        lane_block(v.lane).subrange(v.cursor as int, 32)
    } else {
        Seq::empty()
    }
}

/// The number of engine rounds needed to hand out `len` bytes when `avail`
/// bytes are buffered.
pub open spec fn refills_for(avail: nat, len: nat) -> nat {
    if len <= avail {
        0
    } else {
        ((len - avail + 31) / 32) as nat
    }
}

/// The next `len` bytes of the stream: the buffered bytes, then the
/// blocks of the following engine rounds.
pub open spec fn fill_output(v: StreamView, len: nat) -> Seq<u8> {
    (buffered(v) + lane_blocks(v.lane, refills_for(buffered(v).len(), len))).take(len as int)
}

/// The stream state after handing out `len` bytes.
pub open spec fn fill_state(v: StreamView, len: nat) -> StreamView {
    let a = buffered(v).len();
    if len == 0 {
        v
    } else if len <= a {
        StreamView { lane: v.lane, cursor: (v.cursor + len) as u8 }
    } else {
        let r = (len - a) as nat;
        StreamView {
            lane: lane_advance(v.lane, ((r + 31) / 32) as nat),
            cursor: if r % 32 == 0 { 32u8 } else { (r % 32) as u8 },
        }
    }
}

/// Copies `src[from..from + n]` into `out[at..at + n]`, leaving
/// `out[..at]` unchanged.
fn copy_part(out: &mut [u8], at: usize, src: &[u8; 32], from: usize, n: usize)
    requires
        at + n <= old(out)@.len(),
        from + n <= 32,
    ensures
        final(out)@.len() == old(out)@.len(),
        final(out)@.subrange(0, at as int) == old(out)@.subrange(0, at as int),
        final(out)@.subrange(at as int, at + n) == src@.subrange(from as int, from + n),
{
    let olen = out.len();
    let mut k: usize = 0;
    while k < n
        invariant
            olen == out@.len(),
            at + n <= out@.len(),
            from + n <= 32,
            k <= n,
            out@.len() == old(out)@.len(),
            forall|i: int| 0 <= i < at ==> out@[i] == old(out)@[i],
            forall|i: int| at <= i < at + k ==> #[trigger] out@[i] == src@[from + i - at],
        decreases n - k,
    {
        out[at + k] = src[from + k];
        k = k + 1;
    }
    assert(out@.subrange(0, at as int) =~= old(out)@.subrange(0, at as int));
    assert(out@.subrange(at as int, at + n) =~= src@.subrange(from as int, from + n));
}

/// Buffered stream state shared by the PRNG and the XOF.
#[derive(Clone, Copy)]
pub struct StreamState {
    lane: StreamLane,
    cursor: u8,
}

impl View for StreamState {
    type V = StreamView;

    closed spec fn view(&self) -> StreamView {
        StreamView { lane: self.lane, cursor: self.cursor }
    }
}

impl StreamState {
    #[verifier::type_invariant]
    closed spec fn inv(self) -> bool {
        self.cursor <= 32
    }

    /// The stream state whose view is `v`.
    pub closed spec fn from_view(v: StreamView) -> StreamState {
        StreamState { lane: v.lane, cursor: v.cursor }
    }

    /// A stream state is determined by its view.
    pub proof fn lemma_from_view(s: StreamState)
        ensures
            Self::from_view(s@) == s,
    {
    }

    /// `from_view` builds a state with the given view.
    pub proof fn lemma_view_of_from_view(v: StreamView)
        ensures
            Self::from_view(v)@ == v,
    {
    }

    /// A stream with an empty output buffer at step 0.
    pub fn new(s0: u128, s1: u128) -> (r: Self)
        ensures
            r@ == fresh_view((s0, s1)),
    {
        StreamState { lane: StreamLane { s0, s1, step: 0 }, cursor: 32 }
    }

    /// Advances the stream by one engine round; the new block is fully
    /// buffered.
    fn refill(&mut self)
        ensures
            final(self)@ == (StreamView { lane: lane_next(old(self)@.lane), cursor: 0 }),
    {
        proof {
            use_type_invariant(&*self);
        }
        let (s0, s1) = stream_step(self.lane.s0, self.lane.s1, self.lane.step);
        self.lane = StreamLane { s0, s1, step: self.lane.step.wrapping_add(1) };
        self.cursor = 0;
    }

    /// Hands out the next `out.len()` bytes of the stream.
    #[verifier::rlimit(60)]
    pub fn fill_bytes(&mut self, out: &mut [u8])
        ensures
            final(self)@ == fill_state(old(self)@, old(out)@.len() as nat),
            final(out)@ == fill_output(old(self)@, old(out)@.len() as nat),
    {
        proof {
            use_type_invariant(&*self);
        }
        let ghost v0 = self@;
        let ghost a0 = buffered(v0).len();
        let ghost l0 = v0.lane;
        let len = out.len();
        let mut written: usize = 0;
        if self.cursor > 0 && self.cursor < 32 && len > 0 {
            let pos = self.cursor as usize;
            let avail = 32 - pos;
            let chunk = if avail < len {
                avail
            } else {
                len
            };
            let blk = block_array(self.lane.s0, self.lane.s1);
            copy_part(out, 0, &blk, pos, chunk);
            self.cursor = self.cursor + chunk as u8;
            written = chunk;
            proof {
                assert(out@.subrange(0, written as int) =~= (buffered(v0) + lane_blocks(
                    l0,
                    0,
                )).subrange(0, written as int));
            }
        } else {
            proof {
                assert(out@.subrange(0, 0) =~= (buffered(v0) + lane_blocks(l0, 0)).subrange(0, 0));
            }
        }
        let ghost c1 = self.cursor;
        let mut bulk_ran = false;
        let ghost mut j: nat = 0;
        while len - written >= 32
            invariant
                len == out@.len(),
                written <= len,
                a0 == buffered(v0).len(),
                a0 < 32,
                l0 == v0.lane,
                self.lane == lane_advance(l0, j),
                written == (if a0 < len { a0 } else { len as nat }) + 32 * j,
                j > 0 ==> a0 < len,
                bulk_ran == (j > 0),
                !bulk_ran ==> self.cursor == c1,
                out@.subrange(0, written as int) == (buffered(v0) + lane_blocks(l0, j)).subrange(
                    0,
                    written as int,
                ),
            decreases len - written,
        {
            proof {
                use_type_invariant(&*self);
            }
            self.refill();
            let blk = block_array(self.lane.s0, self.lane.s1);
            let ghost prev = out@;
            copy_part(out, written, &blk, 0, 32);
            proof {
                lemma_lane_blocks_len(l0, j);
                let e0 = buffered(v0) + lane_blocks(l0, j);
                let e1 = buffered(v0) + lane_blocks(l0, j + 1);
                assert(e1 =~= e0 + lane_block(lane_advance(l0, j + 1)));
                assert(e0.len() == written);
                assert(out@.subrange(0, written + 32) =~= out@.subrange(0, written as int)
                    + out@.subrange(written as int, written + 32));
                assert(out@.subrange(0, written + 32) =~= e1.subrange(0, written + 32));
                j = j + 1;
            }
            written = written + 32;
            bulk_ran = true;
        }
        if bulk_ran {
            self.cursor = 32;
        }
        let ghost j1 = j;
        if written < len {
            proof {
                use_type_invariant(&*self);
            }
            self.refill();
            let blk = block_array(self.lane.s0, self.lane.s1);
            let chunk = len - written;
            copy_part(out, written, &blk, 0, chunk);
            self.cursor = chunk as u8;
            proof {
                lemma_lane_blocks_len(l0, j);
                let e0 = buffered(v0) + lane_blocks(l0, j);
                let e1 = buffered(v0) + lane_blocks(l0, j + 1);
                assert(e1 =~= e0 + lane_block(lane_advance(l0, j + 1)));
                assert(out@.subrange(0, len as int) =~= out@.subrange(0, written as int)
                    + out@.subrange(written as int, len as int));
                assert(out@.subrange(0, len as int) =~= e1.subrange(0, len as int));
                j = j + 1;
            }
            written = len;
        }
        proof {
            let n = refills_for(a0, len as nat);
            if len as nat > a0 {
                let r = (len - a0) as nat;
                assert(j1 == r / 32 && (j == j1 + 1 <==> r % 32 != 0) && (j == j1 || j == j1
                    + 1)) by (nonlinear_arith)
                    requires
                        j1 * 32 + a0 + 32 > len,
                        j1 * 32 + a0 <= len,
                        r == len - a0,
                        (j == j1 + 1) == (j1 * 32 + a0 < len),
                        j == j1 || j == j1 + 1,
                ;
                assert(n == j) by (nonlinear_arith)
                    requires
                        n == (r + 31) / 32,
                        j1 == r / 32,
                        (j == j1 + 1) <==> r % 32 != 0,
                        j == j1 || j == j1 + 1,
                ;
            }
            lemma_lane_blocks_len(l0, j);
            assert(out@ =~= out@.subrange(0, len as int));
            assert(out@ =~= fill_output(v0, len as nat));
        }
    }

    /// Reads exactly `N` bytes of the stream.
    pub fn read_bytes<const N: usize>(&mut self) -> (r: [u8; N])
        requires
            N <= 32,
        ensures
            final(self)@ == fill_state(old(self)@, N as nat),
            r@ == fill_output(old(self)@, N as nat),
    {
        let mut out = [0u8; N];
        self.fill_bytes(&mut out);
        out
    }

    /// Returns the next full block: always one engine round; the buffer is
    /// left empty.
    pub fn read_full_block(&mut self) -> (r: [u8; 32])
        ensures
            final(self)@ == (StreamView { lane: lane_next(old(self)@.lane), cursor: 32 }),
            r@ == lane_block(lane_next(old(self)@.lane)),
    {
        self.refill();
        self.cursor = 32;
        block_array(self.lane.s0, self.lane.s1)
    }

    /// Derives a fresh stream from the current state words and `id`. Neither
    /// the step counter nor the cursor enter the derivation.
    pub fn fork(&self, domain: u128, id: u128) -> (r: Self)
        ensures
            r@ == fresh_view(spec_fork_lane(self@.lane.s0, self@.lane.s1, domain, id)),
    {
        let (s0, s1) = fork_lane(self.lane.s0, self.lane.s1, domain, id);
        Self::new(s0, s1)
    }

    /// All state components: `(s0, s1, step, cursor)`.
    pub fn to_parts(&self) -> (r: (u128, u128, u64, u8))
        ensures
            r == (self@.lane.s0, self@.lane.s1, self@.lane.step, self@.cursor),
            r.3 <= 32,
    {
        proof {
            use_type_invariant(self);
        }
        (self.lane.s0, self.lane.s1, self.lane.step, self.cursor)
    }

    /// Rebuilds a stream from its components.
    pub fn from_parts(s0: u128, s1: u128, step: u64, cursor: u8) -> (r: Self)
        requires
            cursor <= 32,
        ensures
            r@ == (StreamView { lane: StreamLane { s0, s1, step }, cursor }),
    {
        StreamState { lane: StreamLane { s0, s1, step }, cursor }
    }
}

// ------------------------------------------------------------------
// Laws of the buffered stream
// ------------------------------------------------------------------

/// The buffered bytes followed by the next `k` blocks.
pub open spec fn stream_prefix(v: StreamView, k: nat) -> Seq<u8> {
    buffered(v) + lane_blocks(v.lane, k)
}

proof fn lemma_buffered_len(v: StreamView)
    ensures
        buffered(v).len() < 32,
        0 < v.cursor < 32 ==> buffered(v).len() == 32 - v.cursor,
        !(0 < v.cursor < 32) ==> buffered(v).len() == 0,
{
}

/// Enough refills: `refills_for(a, n)` blocks cover `n` bytes, and any
/// larger number of blocks gives the same first `n` bytes.
proof fn lemma_fill_output_extend(v: StreamView, n: nat, k: nat)
    requires
        k >= refills_for(buffered(v).len(), n),
    ensures
        stream_prefix(v, k).len() >= n,
        fill_output(v, n) == stream_prefix(v, k).take(n as int),
{
    let a = buffered(v).len();
    let r = refills_for(a, n);
    lemma_buffered_len(v);
    lemma_lane_blocks_len(v.lane, r);
    lemma_lane_blocks_len(v.lane, k);
    if n > a {
        assert(a + 32 * r >= n) by (nonlinear_arith)
            requires
                r == (n - a + 31) / 32,
                n > a,
        ;
    }
    assert(a + 32 * k >= a + 32 * r) by (nonlinear_arith)
        requires
            k >= r,
    ;
    lemma_lane_blocks_add(v.lane, r, (k - r) as nat);
    assert((r + (k - r) as nat) as nat == k);
    let sr = stream_prefix(v, r);
    let sk = stream_prefix(v, k);
    assert(sk =~= sr + lane_blocks(lane_advance(v.lane, r), (k - r) as nat));
    assert(sk.take(n as int) =~= sr.take(n as int));
}

/// The arithmetic of the refill count.
proof fn lemma_refill_arith(a: nat, x: nat)
    requires
        x > a,
    ensures
        ({
            let r1 = (x - a) as nat;
            let k1 = (r1 + 31) / 32;
            &&& k1 >= 1
            &&& r1 <= 32 * k1
            &&& r1 > 32 * (k1 - 1)
            &&& (r1 % 32 == 0 ==> r1 == 32 * k1)
            &&& (r1 % 32 != 0 ==> r1 == 32 * (k1 - 1) + r1 % 32)
        }),
{
    let r1 = (x - a) as nat;
    let k1 = (r1 + 31) / 32;
    assert(k1 >= 1 && r1 <= 32 * k1 && r1 > 32 * (k1 - 1) && (r1 % 32 == 0 ==> r1 == 32 * k1)
        && (r1 % 32 != 0 ==> r1 == 32 * (k1 - 1) + r1 % 32)) by (nonlinear_arith)
        requires
            r1 > 0,
            k1 == (r1 + 31) / 32,
    ;
}

/// After handing out `x` bytes, the rest of the stream is the old stream
/// from byte `x` on.
proof fn lemma_fill_suffix(v: StreamView, x: nat, k: nat)
    requires
        k >= refills_for(buffered(v).len(), x),
    ensures
        fill_state(v, x).lane == lane_advance(v.lane, refills_for(buffered(v).len(), x)),
        stream_prefix(v, k).len() >= x,
        stream_prefix(v, k).subrange(x as int, stream_prefix(v, k).len() as int)
            == stream_prefix(fill_state(v, x), (k - refills_for(buffered(v).len(), x)) as nat),
{
    let a = buffered(v).len();
    let k1 = refills_for(a, x);
    let w = fill_state(v, x);
    let l = v.lane;
    lemma_buffered_len(v);
    lemma_buffered_len(w);
    lemma_fill_output_extend(v, x, k);
    lemma_lane_blocks_len(l, k);
    let s = stream_prefix(v, k);
    if x == 0 {
        assert(s.subrange(0, s.len() as int) =~= s);
    } else if x <= a {
        assert(buffered(w) =~= buffered(v).subrange(x as int, a as int));
        assert(s.subrange(x as int, s.len() as int) =~= stream_prefix(w, k));
    } else {
        lemma_refill_arith(a, x);
        let r1 = (x - a) as nat;
        lemma_lane_blocks_add(l, k1, (k - k1) as nat);
        assert((k1 + (k - k1) as nat) as nat == k);
        lemma_lane_blocks_len(l, k1);
        lemma_lane_blocks_len(l, (k1 - 1) as nat);
        let adv = lane_advance(l, k1);
        assert(w.lane == adv);
        let head = lane_blocks(l, k1);
        assert(head =~= lane_blocks(l, (k1 - 1) as nat) + lane_block(adv));
        let tail = lane_blocks(adv, (k - k1) as nat);
        assert(s =~= buffered(v) + head + tail);
        // The bytes of the last fetched block not yet handed out.
        let off = (r1 - 32 * (k1 - 1)) as int;
        assert(0 < off <= 32);
        assert(buffered(w) =~= lane_block(adv).subrange(off, 32));
        assert(s.subrange(x as int, s.len() as int) =~= lane_block(adv).subrange(off, 32) + tail);
    }
}

/// Handing out `x` bytes and then `y` bytes gives the same bytes, and the
/// same final state, as handing out `x + y` bytes at once.
pub proof fn lemma_fill_concat(v: StreamView, x: nat, y: nat)
    ensures
        fill_output(v, x + y) == fill_output(v, x) + fill_output(fill_state(v, x), y),
        fill_state(v, x + y) == fill_state(fill_state(v, x), y),
{
    let a = buffered(v).len();
    let w = fill_state(v, x);
    let aw = buffered(w).len();
    let kx = refills_for(a, x);
    let ky = refills_for(aw, y);
    let kxy = refills_for(a, (x + y) as nat);
    lemma_buffered_len(v);
    lemma_buffered_len(w);
    // State part.
    lemma_fill_state_concat(v, x, y);
    // Byte part.
    let k = kx + ky + kxy;
    lemma_fill_output_extend(v, (x + y) as nat, k);
    lemma_fill_output_extend(v, x, k);
    lemma_fill_suffix(v, x, k);
    lemma_fill_output_extend(w, y, (k - kx) as nat);
    let s = stream_prefix(v, k);
    assert(s.take((x + y) as int) =~= s.take(x as int) + s.subrange(x as int, s.len() as int).take(
        y as int,
    ));
}

proof fn lemma_fill_state_concat(v: StreamView, x: nat, y: nat)
    ensures
        fill_state(v, x + y) == fill_state(fill_state(v, x), y),
{
    let a = buffered(v).len();
    let w = fill_state(v, x);
    let aw = buffered(w).len();
    lemma_buffered_len(v);
    lemma_buffered_len(w);
    if x == 0 || y == 0 {
        assert((x + y) as nat == x || (x + y) as nat == y);
    } else if x + y <= a {
    } else if x <= a {
        assert(aw == a - x);
    } else {
        lemma_refill_arith(a, x);
        let r1 = (x - a) as nat;
        let k1 = (r1 + 31) / 32;
        let r = (x + y - a) as nat;
        assert(r1 + aw == 32 * k1);
        if y <= aw {
            assert((r + 31) / 32 == k1 && (r % 32 == 0 <==> r1 % 32 + y == 32) && (r % 32 != 0
                ==> r % 32 == r1 % 32 + y)) by (nonlinear_arith)
                requires
                    r == r1 + y,
                    r1 + aw == 32 * k1,
                    aw == 32 - r1 % 32,
                    0 < y <= aw,
                    k1 >= 1,
            ;
        } else {
            let ry = (y - aw) as nat;
            assert((r + 31) / 32 == k1 + (ry + 31) / 32 && r % 32 == ry % 32) by (nonlinear_arith)
                requires
                    r == 32 * k1 + ry,
            ;
            lemma_lane_advance_add(v.lane, k1, ((ry + 31) / 32) as nat);
        }
    }
}

} // verus!
