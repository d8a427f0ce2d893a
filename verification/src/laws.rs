//! Properties that relate several operations of the library.
use vstd::prelude::*;
use crate::api::{
    StreamView, buffered, child_lane, fill_output, fill_state, fresh_view, lane_record_of,
    record_lane, refills_for, spec_absorb, spec_fork_lane,
};
use crate::bytes::from_le16;
use crate::constants::STREAM_INIT_MASK;
use crate::engine::spec_evaluate;
use crate::prng::prng_lane;
use crate::dispatch::{
    StreamLane, lane_advance, lane_block, lane_blocks, lane_next, lemma_lane_blocks_len, many_block,
};
use crate::types::{
    SnapshotError, decode_batch, decode_single, encode_batch, encode_single,
    lemma_batch_roundtrip, lemma_single_roundtrip,
};

verus! {

/// A single-stream snapshot restores the exact stream position: decoding
/// the bytes encoded from a stream state gives back its words, step and
/// cursor.
pub proof fn lemma_stream_snapshot_roundtrip(v: StreamView, kind: u8)
    requires
        v.cursor <= 32,
    ensures
        decode_single(encode_single(kind, v.lane.s0, v.lane.s1, v.lane.step, v.cursor), kind) is Ok,
        ({
            let p = decode_single(
                encode_single(kind, v.lane.s0, v.lane.s1, v.lane.step, v.cursor),
                kind,
            )->Ok_0;
            StreamView { lane: StreamLane { s0: p.0, s1: p.1, step: p.2 }, cursor: p.3 } == v
        }),
{
    lemma_single_roundtrip(kind, v.lane.s0, v.lane.s1, v.lane.step, v.cursor);
}

/// A batch snapshot restores every lane's words and step, in order.
pub proof fn lemma_batch_snapshot_roundtrip(lanes: Seq<StreamLane>, kind: u8)
    requires
        lanes.len() <= u64::MAX,
    ensures
        decode_batch(encode_batch(kind, lanes.map_values(|l: StreamLane| lane_record_of(l))), kind)
            is Ok,
        decode_batch(
            encode_batch(kind, lanes.map_values(|l: StreamLane| lane_record_of(l))),
            kind,
        )->Ok_0.map_values(|r: (u128, u128, u64)| record_lane(r)) == lanes,
{
    let recs = lanes.map_values(|l: StreamLane| lane_record_of(l));
    lemma_batch_roundtrip(kind, recs);
    assert(recs.map_values(|r: (u128, u128, u64)| record_lane(r)) =~= lanes);
}

/// Single-stream snapshot bytes are rejected by a batch decoder expecting
/// another kind.
pub proof fn lemma_single_rejected_as_batch(
    kind: u8,
    other: u8,
    s0: u128,
    s1: u128,
    step: u64,
    cursor: u8,
)
    requires
        kind != other,
    ensures
        decode_batch(encode_single(kind, s0, s1, step, cursor), other) == Err::<
            Seq<(u128, u128, u64)>,
            SnapshotError,
        >(SnapshotError::InvalidKind),
{
}

/// Forking ignores how much of the current block was consumed: handing out
/// bytes that are already buffered does not change any child.
pub proof fn lemma_fork_ignores_cursor(v: StreamView, len: nat, domain: u128, id: u128)
    requires
        len <= buffered(v).len(),
    ensures
        fresh_view(
            spec_fork_lane(fill_state(v, len).lane.s0, fill_state(v, len).lane.s1, domain, id),
        ) == fresh_view(spec_fork_lane(v.lane.s0, v.lane.s1, domain, id)),
{
}

/// A lane forked inside a batch starts at step 0 and is the lane that the
/// single-stream fork of the same state words starts from: the parent's
/// step counter plays no part.
pub proof fn lemma_child_lane_is_fresh_fork(l: StreamLane, domain: u128, id: u128, step: u64)
    ensures
        child_lane(l, domain, id).step == 0,
        child_lane(l, domain, id) == fresh_view(spec_fork_lane(l.s0, l.s1, domain, id)).lane,
        child_lane(l, domain, id) == child_lane(
            StreamLane { s0: l.s0, s1: l.s1, step },
            domain,
            id,
        ),
{
}

/// Forking over a range of identifiers is forking with the identifiers
/// `first`, `first + 1`, ... (wrapping).
pub proof fn lemma_fork_range_is_fork(
    lanes: Seq<StreamLane>,
    domain: u128,
    first: u128,
    ids: Seq<u128>,
)
    requires
        ids.len() == lanes.len(),
        forall|i: int| 0 <= i < ids.len() ==> #[trigger] ids[i] == first.wrapping_add(i as u128),
    ensures
        forall|i: int|
            0 <= i < lanes.len() ==> #[trigger] child_lane(lanes[i], domain, first.wrapping_add(
                i as u128,
            )) == child_lane(lanes[i], domain, ids[i]),
{
}

/// A batch over a range of stream identifiers is the batch over the
/// identifiers `first`, `first + 1`, ... (wrapping): lane by lane, the same
/// streams of the same seed.
pub proof fn lemma_new_range_is_new(seed: Seq<u8>, first: u128, ids: Seq<u128>)
    requires
        forall|i: int| 0 <= i < ids.len() ==> #[trigger] ids[i] == first.wrapping_add(i as u128),
    ensures
        forall|i: int|
            0 <= i < ids.len() ==> #[trigger] prng_lane(seed, first.wrapping_add(i as u128))
                == prng_lane(seed, ids[i]),
{
}

/// Stream-major output of a multi-step fill holds, at position
/// `i * steps + j`, the block that lane `i` produces in the `j`-th of
/// `steps` successive lockstep fills; lane `i` ends where `steps` lockstep
/// fills leave it.
pub proof fn lemma_many_is_transposed_lockstep(lanes: Seq<StreamLane>, steps: nat, i: int, j: int)
    requires
        0 <= i < lanes.len(),
        0 <= j < steps,
    ensures
        0 <= i * steps + j < lanes.len() * steps,
        many_block(lanes, steps, i * steps + j) == lane_block(
            lane_next(lane_advance(lanes[i], j as nat)),
        ),
{
    assert(0 <= i * steps + j < lanes.len() * steps) by (nonlinear_arith)
        requires
            0 <= i < lanes.len(),
            0 <= j < steps,
    ;
    vstd::arithmetic::div_mod::lemma_fundamental_div_mod_converse(
        i * steps + j,
        steps as int,
        i,
        j,
    );
}

/// Block `j` of the output of `k` rounds is the block of the state after
/// round `j + 1`.
pub proof fn lemma_lane_blocks_index(l: StreamLane, k: nat, j: int)
    requires
        0 <= j < k,
    ensures
        lane_blocks(l, k).len() == 32 * k,
        lane_blocks(l, k).subrange(32 * j, 32 * j + 32) == lane_block(lane_advance(l, (j + 1) as nat)),
    decreases k,
{
    lemma_lane_blocks_len(l, k);
    lemma_lane_blocks_len(l, (k - 1) as nat);
    if j < k - 1 {
        lemma_lane_blocks_index(l, (k - 1) as nat, j);
        assert(lane_blocks(l, k).subrange(32 * j, 32 * j + 32) =~= lane_blocks(
            l,
            (k - 1) as nat,
        ).subrange(32 * j, 32 * j + 32));
    } else {
        assert(lane_blocks(l, k).subrange(32 * j, 32 * j + 32) =~= lane_block(
            lane_advance(l, k),
        ));
    }
}

/// A stream with nothing buffered hands out, as its next `32k` bytes, the
/// blocks of its next `k` engine rounds in order, and is then at the end
/// of the last of them.
pub proof fn lemma_fresh_stream_output(l: StreamLane, k: nat, j: int)
    requires
        0 <= j < k,
    ensures
        fill_output(StreamView { lane: l, cursor: 32 }, 32 * k).len() == 32 * k,
        fill_output(StreamView { lane: l, cursor: 32 }, 32 * k).subrange(32 * j, 32 * j + 32)
            == lane_block(lane_advance(l, (j + 1) as nat)),
        fill_state(StreamView { lane: l, cursor: 32 }, 32 * k) == (StreamView {
            lane: lane_advance(l, k),
            cursor: 32,
        }),
{
    let v = StreamView { lane: l, cursor: 32 };
    assert(buffered(v) =~= Seq::<u8>::empty());
    assert(refills_for(0, 32 * k) == k) by (nonlinear_arith)
        requires
            k > 0,
    ;
    assert((32 * k + 31) / 32 == k && (32 * k) % 32 == 0) by (nonlinear_arith)
        requires
            k > 0,
    ;
    lemma_lane_blocks_index(l, k, j);
    assert(buffered(v) + lane_blocks(l, k) =~= lane_blocks(l, k));
    assert(fill_output(v, 32 * k) =~= lane_blocks(l, k));
}

/// The initial states: a XOF over `m` starts at step 0, with nothing
/// buffered, from the words of `m` absorbed under the XOF tag (3); PRNG
/// stream `id` of `seed` starts at step 0 from one engine evaluation of
/// the seed's words (bytes 0..16 and 16..32, little-endian) with the PRNG
/// tag (2) XORed into the first and the stream mask and `id` into the
/// second.
pub proof fn lemma_initial_states(m: Seq<u8>, seed: Seq<u8>, id: u128)
    ensures
        crate::xof::xof_initial(m) == (StreamView {
            lane: StreamLane { s0: spec_absorb(m, 3).0, s1: spec_absorb(m, 3).1, step: 0 },
            cursor: 32,
        }),
        ({
            let e = spec_evaluate(
                from_le16(seed.subrange(0, 16)) ^ 2,
                from_le16(seed.subrange(16, 32)) ^ STREAM_INIT_MASK ^ id,
            );
            crate::prng::prng_initial(seed, id) == (StreamView {
                lane: StreamLane { s0: e.0, s1: e.1, step: 0 },
                cursor: 32,
            })
        }),
{
}

} // verus!
