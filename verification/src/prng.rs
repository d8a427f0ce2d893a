//! The PRNG: seeded output streams selected by a stream identifier.
use vstd::prelude::*;
use crate::api::{
    StreamState, StreamView, child_lane, derive_branch_stream, fill_output, fill_state,
    fork_lane, fresh_view, lane_record_of, prepare_base, record_lane, spec_fork_lane,
    spec_prepare_base,
};
use crate::bytes::{from_le16, from_le4, from_le8, u128_from_le_at, u32_from_le_at, u64_from_le_at};
use crate::constants::Domain;
use crate::dispatch::{
    StreamLane, dispatch_streams, dispatch_streams_many, lane_block, lane_next, lockstep_done,
    many_done,
};
use crate::xof::copy_lanes;
use crate::types::{LustroPrngBatchSnapshot, LustroPrngSnapshot, Seed256, StreamId};

verus! {

/// The two state words read from a seed: bytes 0..16 and 16..32,
/// little-endian.
pub open spec fn seed_words(seed: Seq<u8>) -> (u128, u128) {
    (from_le16(seed.subrange(0, 16)), from_le16(seed.subrange(16, 32)))
}

/// The lane of stream `id` of `seed`, before any output.
pub open spec fn prng_lane(seed: Seq<u8>, id: u128) -> StreamLane {
    let w = seed_words(seed);
    child_lane(StreamLane { s0: w.0, s1: w.1, step: 0 }, Domain::Prng.spec_tag(), id)
}

/// The state of a fresh PRNG stream `id` of `seed`.
pub open spec fn prng_initial(seed: Seq<u8>, id: u128) -> StreamView {
    StreamView { lane: prng_lane(seed, id), cursor: 32 }
}

/// Reads the state words of a seed.
fn seed_state(seed: &Seed256) -> (r: (u128, u128))
    ensures
        r == seed_words(seed.0@),
{
    let s0 = u128_from_le_at(seed.0.as_slice(), 0);
    let s1 = u128_from_le_at(seed.0.as_slice(), 16);
    (s0, s1)
}

/// A single PRNG output stream. Cloning preserves the exact state and
/// future output.
pub struct LustroPrng {
    state: StreamState,
}

impl View for LustroPrng {
    type V = StreamView;

    closed spec fn view(&self) -> StreamView {
        self.state@
    }
}

impl Clone for LustroPrng {
    fn clone(&self) -> (r: Self)
        ensures
            r@ == self@,
    {
        LustroPrng { state: self.state }
    }
}

impl LustroPrng {
    /// Stream `stream_id` of `seed`.
    pub fn new(seed: &Seed256, stream_id: StreamId) -> (r: Self)
        ensures
            r@ == prng_initial(seed.0@, stream_id.0),
    {
        let (s0, s1) = seed_state(seed);
        let (b0, b1) = prepare_base(s0, s1, Domain::Prng.tag());
        let (c0, c1) = derive_branch_stream(b0, b1, stream_id.get());
        LustroPrng { state: StreamState::new(c0, c1) }
    }

    /// The next 4 bytes of the stream, little-endian.
    pub fn next_u32(&mut self) -> (r: u32)
        ensures
            r == from_le4(fill_output(old(self)@, 4)),
            final(self)@ == fill_state(old(self)@, 4),
    {
        let b = self.state.read_bytes::<4>();
        let r = u32_from_le_at(b.as_slice(), 0);
        assert(b@.subrange(0, 4) =~= b@);
        r
    }

    /// The next 8 bytes of the stream, little-endian.
    pub fn next_u64(&mut self) -> (r: u64)
        ensures
            r == from_le8(fill_output(old(self)@, 8)),
            final(self)@ == fill_state(old(self)@, 8),
    {
        let b = self.state.read_bytes::<8>();
        let r = u64_from_le_at(b.as_slice(), 0);
        assert(b@.subrange(0, 8) =~= b@);
        r
    }

    /// The next 16 bytes of the stream, little-endian.
    pub fn next_u128(&mut self) -> (r: u128)
        ensures
            r == from_le16(fill_output(old(self)@, 16)),
            final(self)@ == fill_state(old(self)@, 16),
    {
        let b = self.state.read_bytes::<16>();
        let r = u128_from_le_at(b.as_slice(), 0);
        assert(b@.subrange(0, 16) =~= b@);
        r
    }

    /// One engine round; returns its whole block, whatever was buffered.
    pub fn next_block(&mut self) -> (r: [u8; 32])
        ensures
            r@ == lane_block(lane_next(old(self)@.lane)),
            final(self)@ == (StreamView { lane: lane_next(old(self)@.lane), cursor: 32 }),
    {
        self.state.read_full_block()
    }

    /// Fills `out` with the next bytes of the stream.
    pub fn fill_bytes(&mut self, out: &mut [u8])
        ensures
            final(out)@ == fill_output(old(self)@, old(out)@.len() as nat),
            final(self)@ == fill_state(old(self)@, old(out)@.len() as nat),
    {
        self.state.fill_bytes(out);
    }

    /// Derives a child stream from the current state words and `id`.
    pub fn fork(&self, id: StreamId) -> (r: Self)
        ensures
            r@ == fresh_view(
                spec_fork_lane(self@.lane.s0, self@.lane.s1, Domain::Prng.spec_tag(), id.0),
            ),
    {
        LustroPrng { state: self.state.fork(Domain::Prng.tag(), id.get()) }
    }

    /// Exports the complete stream state.
    pub fn export_snapshot(&self) -> (r: LustroPrngSnapshot)
        ensures
            r.parts() == (self@.lane.s0, self@.lane.s1, self@.lane.step, self@.cursor),
    {
        let (s0, s1, step, cursor) = self.state.to_parts();
        LustroPrngSnapshot::new(s0, s1, step, cursor)
    }

    /// Restores a stream from a snapshot.
    pub fn import_snapshot(snapshot: LustroPrngSnapshot) -> (r: Self)
        ensures
            r@ == (StreamView {
                lane: StreamLane {
                    s0: snapshot.parts().0,
                    s1: snapshot.parts().1,
                    step: snapshot.parts().2,
                },
                cursor: snapshot.parts().3,
            }),
    {
        let (s0, s1, step, cursor) = snapshot.into_parts();
        LustroPrng { state: StreamState::from_parts(s0, s1, step, cursor) }
    }
}

/// A batch of independent PRNG streams of one seed, advanced in lockstep.
pub struct LustroPrngBatch {
    streams: Vec<StreamLane>,
}

impl View for LustroPrngBatch {
    type V = Seq<StreamLane>;

    closed spec fn view(&self) -> Seq<StreamLane> {
        self.streams@
    }
}

impl Clone for LustroPrngBatch {
    fn clone(&self) -> (r: Self)
        ensures
            r@ == self@,
    {
        LustroPrngBatch { streams: copy_lanes(&self.streams) }
    }
}

impl LustroPrngBatch {
    /// One stream per identifier, in order, all of the same seed.
    pub fn new(seed: &Seed256, stream_ids: &[StreamId]) -> (r: Self)
        ensures
            r@.len() == stream_ids@.len(),
            forall|i: int|
                0 <= i < stream_ids@.len() ==> #[trigger] r@[i] == prng_lane(
                    seed.0@,
                    stream_ids@[i].0,
                ),
    {
        let (s0, s1) = seed_state(seed);
        let (b0, b1) = prepare_base(s0, s1, Domain::Prng.tag());
        let n = stream_ids.len();
        let mut streams: Vec<StreamLane> = Vec::new();
        let mut i: usize = 0;
        while i < n
            invariant
                n == stream_ids@.len(),
                (b0, b1) == spec_prepare_base(seed_words(seed.0@).0, seed_words(seed.0@).1, Domain::Prng.spec_tag()),
                i <= n,
                streams@.len() == i,
                forall|k: int|
                    0 <= k < i ==> #[trigger] streams@[k] == prng_lane(seed.0@, stream_ids@[k].0),
            decreases n - i,
        {
            let (c0, c1) = derive_branch_stream(b0, b1, stream_ids[i].get());
            streams.push(StreamLane { s0: c0, s1: c1, step: 0 });
            i = i + 1;
        }
        LustroPrngBatch { streams }
    }

    /// `count` streams with identifiers `first`, `first + 1`, ... (wrapping).
    pub fn new_range(seed: &Seed256, first_stream_id: StreamId, count: usize) -> (r: Self)
        ensures
            r@.len() == count,
            forall|i: int|
                0 <= i < count ==> #[trigger] r@[i] == prng_lane(
                    seed.0@,
                    first_stream_id.0.wrapping_add(i as u128),
                ),
    {
        let (s0, s1) = seed_state(seed);
        let (b0, b1) = prepare_base(s0, s1, Domain::Prng.tag());
        let first = first_stream_id.get();
        let mut streams: Vec<StreamLane> = Vec::new();
        let mut i: usize = 0;
        while i < count
            invariant
                (b0, b1) == spec_prepare_base(seed_words(seed.0@).0, seed_words(seed.0@).1, Domain::Prng.spec_tag()),
                i <= count,
                streams@.len() == i,
                forall|k: int|
                    0 <= k < i ==> #[trigger] streams@[k] == prng_lane(
                        seed.0@,
                        first.wrapping_add(k as u128),
                    ),
            decreases count - i,
        {
            let (c0, c1) = derive_branch_stream(b0, b1, first.wrapping_add(i as u128));
            streams.push(StreamLane { s0: c0, s1: c1, step: 0 });
            i = i + 1;
        }
        LustroPrngBatch { streams }
    }

    pub fn len(&self) -> (r: usize)
        ensures
            r == self@.len(),
    {
        self.streams.len()
    }

    pub fn is_empty(&self) -> (r: bool)
        ensures
            r == (self@.len() == 0),
    {
        self.streams.len() == 0
    }

    /// Advances every stream by one round in lockstep and writes one block
    /// per stream, in stream order. `out` must have one slot per stream.
    pub fn fill_blocks(&mut self, out: &mut [[u8; 32]])
        requires
            old(out)@.len() == old(self)@.len(),
        ensures
            lockstep_done(old(self)@, final(self)@, final(out)@),
    {
        dispatch_streams(self.streams.as_mut_slice(), out);
    }

    /// Advances every stream by `steps` rounds. Output is stream-major:
    /// all blocks of stream 0 in step order, then stream 1, and so on.
    /// `out` must have `len() * steps` slots.
    pub fn fill_blocks_many(&mut self, out: &mut [[u8; 32]], steps: usize)
        requires
            old(out)@.len() == old(self)@.len() * steps,
        ensures
            many_done(old(self)@, final(self)@, final(out)@, steps as nat),
    {
        dispatch_streams_many(self.streams.as_mut_slice(), out, steps);
    }

    /// Derives one child per stream with the matching identifier; every
    /// child starts at step 0. `ids` must have one entry per stream.
    pub fn fork(&self, ids: &[StreamId]) -> (r: Self)
        requires
            ids@.len() == self@.len(),
        ensures
            r@.len() == self@.len(),
            forall|i: int|
                0 <= i < self@.len() ==> #[trigger] r@[i] == child_lane(
                    self@[i],
                    Domain::Prng.spec_tag(),
                    ids@[i].0,
                ),
    {
        let n = self.streams.len();
        let mut streams: Vec<StreamLane> = Vec::new();
        let mut i: usize = 0;
        while i < n
            invariant
                n == self@.len(),
                n == ids@.len(),
                i <= n,
                streams@.len() == i,
                forall|k: int|
                    0 <= k < i ==> #[trigger] streams@[k] == child_lane(
                        self@[k],
                        Domain::Prng.spec_tag(),
                        ids@[k].0,
                    ),
            decreases n - i,
        {
            let lane = self.streams[i];
            let (s0, s1) = fork_lane(lane.s0, lane.s1, Domain::Prng.tag(), ids[i].get());
            streams.push(StreamLane { s0, s1, step: 0 });
            i = i + 1;
        }
        LustroPrngBatch { streams }
    }

    /// Derives one child per stream with identifiers `first`, `first + 1`,
    /// ... (wrapping).
    pub fn fork_range(&self, first: StreamId) -> (r: Self)
        ensures
            r@.len() == self@.len(),
            forall|i: int|
                0 <= i < self@.len() ==> #[trigger] r@[i] == child_lane(
                    self@[i],
                    Domain::Prng.spec_tag(),
                    first.0.wrapping_add(i as u128),
                ),
    {
        let first = first.get();
        let n = self.streams.len();
        let mut streams: Vec<StreamLane> = Vec::new();
        let mut i: usize = 0;
        while i < n
            invariant
                n == self@.len(),
                i <= n,
                streams@.len() == i,
                forall|k: int|
                    0 <= k < i ==> #[trigger] streams@[k] == child_lane(
                        self@[k],
                        Domain::Prng.spec_tag(),
                        first.wrapping_add(k as u128),
                    ),
            decreases n - i,
        {
            let lane = self.streams[i];
            let child_id = first.wrapping_add(i as u128);
            let (s0, s1) = fork_lane(lane.s0, lane.s1, Domain::Prng.tag(), child_id);
            streams.push(StreamLane { s0, s1, step: 0 });
            i = i + 1;
        }
        LustroPrngBatch { streams }
    }

    /// Exports every lane's state; batch snapshots have no cursor.
    pub fn export_snapshot(&self) -> (r: LustroPrngBatchSnapshot)
        ensures
            r.lanes() == self@.map_values(|l: StreamLane| lane_record_of(l)),
    {
        let n = self.streams.len();
        let mut lanes: Vec<(u128, u128, u64)> = Vec::new();
        let mut i: usize = 0;
        while i < n
            invariant
                n == self@.len(),
                i <= n,
                lanes@ == self@.subrange(0, i as int).map_values(|l: StreamLane| lane_record_of(l)),
            decreases n - i,
        {
            let lane = self.streams[i];
            lanes.push((lane.s0, lane.s1, lane.step));
            i = i + 1;
            assert(lanes@ =~= self@.subrange(0, i as int).map_values(
                |l: StreamLane| lane_record_of(l),
            ));
        }
        assert(self@.subrange(0, n as int) =~= self@);
        LustroPrngBatchSnapshot::new(lanes)
    }

    /// Restores a batch from a snapshot.
    pub fn import_snapshot(snapshot: LustroPrngBatchSnapshot) -> (r: Self)
        ensures
            r@ == snapshot.lanes().map_values(|rec: (u128, u128, u64)| record_lane(rec)),
    {
        let lanes = snapshot.into_lanes();
        let n = lanes.len();
        let mut streams: Vec<StreamLane> = Vec::new();
        let mut i: usize = 0;
        while i < n
            invariant
                n == lanes@.len(),
                i <= n,
                streams@ == lanes@.subrange(0, i as int).map_values(
                    |rec: (u128, u128, u64)| record_lane(rec),
                ),
            decreases n - i,
        {
            let (s0, s1, step) = lanes[i];
            streams.push(StreamLane { s0, s1, step });
            i = i + 1;
            assert(streams@ =~= lanes@.subrange(0, i as int).map_values(
                |rec: (u128, u128, u64)| record_lane(rec),
            ));
        }
        assert(lanes@.subrange(0, n as int) =~= lanes@);
        LustroPrngBatch { streams }
    }
}

impl vstd::std_specs::convert::FromSpecImpl<Seed256> for LustroPrng {
    open spec fn obeys_from_spec() -> bool {
        true
    }

    /// Stream 0 of the seed.
    closed spec fn from_spec(v: Seed256) -> Self {
        LustroPrng { state: StreamState::from_view(prng_initial(v.0@, 0)) }
    }
}

impl From<Seed256> for LustroPrng {
    /// Creates stream 0 of `seed`; use `LustroPrng::new` for another stream.
    fn from(seed: Seed256) -> (r: Self) {
        let r = LustroPrng::new(&seed, StreamId(0));
        proof {
            StreamState::lemma_from_view(r.state);
        }
        r
    }
}

impl vstd::std_specs::convert::FromSpecImpl<[u8; 32]> for LustroPrng {
    open spec fn obeys_from_spec() -> bool {
        true
    }

    /// Stream 0 of the seed.
    closed spec fn from_spec(v: [u8; 32]) -> Self {
        LustroPrng { state: StreamState::from_view(prng_initial(v@, 0)) }
    }
}

impl From<[u8; 32]> for LustroPrng {
    /// Creates stream 0 of the raw seed; use `LustroPrng::new` for another
    /// stream.
    fn from(seed: [u8; 32]) -> (r: Self) {
        let r = LustroPrng::new(&Seed256::from_bytes(seed), StreamId(0));
        proof {
            StreamState::lemma_from_view(r.state);
        }
        r
    }
}

/// A LustroPrng made from a seed alone is stream 0 of that seed.
pub proof fn lemma_from_seed_is_stream_zero(seed: Seed256, raw: [u8; 32])
    ensures
        <LustroPrng as vstd::std_specs::convert::FromSpec<Seed256>>::from_spec(seed)@
            == prng_initial(seed.0@, 0),
        <LustroPrng as vstd::std_specs::convert::FromSpec<[u8; 32]>>::from_spec(raw)@
            == prng_initial(raw@, 0),
{
    StreamState::lemma_view_of_from_view(prng_initial(seed.0@, 0));
    StreamState::lemma_view_of_from_view(prng_initial(raw@, 0));
}

} // verus!
