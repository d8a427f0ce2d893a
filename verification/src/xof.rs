//! The XOF: an output stream derived from an absorbed message.
use vstd::prelude::*;
use crate::api::{
    StreamState, StreamView, absorb_with_domain, child_lane, fill_output, fill_state,
    fork_lane, fresh_view, lane_record_of, record_lane, spec_absorb, spec_fork_lane,
};
use crate::bytes::{from_le16, from_le8, u128_from_le_at, u64_from_le_at};
use crate::constants::Domain;
use crate::dispatch::{
    StreamLane, dispatch_streams, dispatch_streams_many, lane_block, lane_next, lockstep_done,
    many_done,
};
use crate::types::{LustroXofBatchSnapshot, LustroXofSnapshot, StreamId};

verus! {

/// The state of a fresh XOF over `message`.
pub open spec fn xof_initial(message: Seq<u8>) -> StreamView {
    fresh_view(spec_absorb(message, Domain::Xof.spec_tag()))
}

/// A single XOF output stream. Cloning preserves the exact state and
/// future output.
pub struct LustroXof {
    state: StreamState,
}

impl View for LustroXof {
    type V = StreamView;

    closed spec fn view(&self) -> StreamView {
        self.state@
    }
}

impl Clone for LustroXof {
    fn clone(&self) -> (r: Self)
        ensures
            r@ == self@,
    {
        LustroXof { state: self.state }
    }
}

impl LustroXof {
    /// Absorbs `message` and starts the output stream.
    pub fn new(message: &[u8]) -> (r: Self)
        ensures
            r@ == xof_initial(message@),
    {
        let (s0, s1) = absorb_with_domain(message, Domain::Xof.tag());
        LustroXof { state: StreamState::new(s0, s1) }
    }

    /// The next 8 bytes of the stream, little-endian.
    pub fn next_u64(&mut self) -> (r: u64)
        ensures
            r == from_le8(fill_output(old(self)@, 8)),
            final(self)@ == fill_state(old(self)@, 8),
    {
        let b = self.state.read_bytes::<8>();
        let r = u64_from_le_at(b.as_slice(), 0);
        assert(b@.subrange(0, 8) =~= b@);
        r
    }

    /// The next 16 bytes of the stream, little-endian.
    pub fn next_u128(&mut self) -> (r: u128)
        ensures
            r == from_le16(fill_output(old(self)@, 16)),
            final(self)@ == fill_state(old(self)@, 16),
    {
        let b = self.state.read_bytes::<16>();
        let r = u128_from_le_at(b.as_slice(), 0);
        assert(b@.subrange(0, 16) =~= b@);
        r
    }

    /// One engine round; returns its whole block, whatever was buffered.
    pub fn next_block(&mut self) -> (r: [u8; 32])
        ensures
            r@ == lane_block(lane_next(old(self)@.lane)),
            final(self)@ == (StreamView { lane: lane_next(old(self)@.lane), cursor: 32 }),
    {
        self.state.read_full_block()
    }

    /// Fills `out` with the next bytes of the stream.
    pub fn fill_bytes(&mut self, out: &mut [u8])
        ensures
            final(out)@ == fill_output(old(self)@, old(out)@.len() as nat),
            final(self)@ == fill_state(old(self)@, old(out)@.len() as nat),
    {
        self.state.fill_bytes(out);
    }

    /// Derives a child stream from the current state words and `id`.
    pub fn fork(&self, id: StreamId) -> (r: Self)
        ensures
            r@ == fresh_view(
                spec_fork_lane(self@.lane.s0, self@.lane.s1, Domain::Xof.spec_tag(), id.0),
            ),
    {
        LustroXof { state: self.state.fork(Domain::Xof.tag(), id.get()) }
    }

    /// Exports the complete stream state.
    pub fn export_snapshot(&self) -> (r: LustroXofSnapshot)
        ensures
            r.parts() == (self@.lane.s0, self@.lane.s1, self@.lane.step, self@.cursor),
    {
        let (s0, s1, step, cursor) = self.state.to_parts();
        LustroXofSnapshot::new(s0, s1, step, cursor)
    }

    /// Restores a stream from a snapshot.
    pub fn import_snapshot(snapshot: LustroXofSnapshot) -> (r: Self)
        ensures
            r@ == (StreamView {
                lane: StreamLane {
                    s0: snapshot.parts().0,
                    s1: snapshot.parts().1,
                    step: snapshot.parts().2,
                },
                cursor: snapshot.parts().3,
            }),
    {
        let (s0, s1, step, cursor) = snapshot.into_parts();
        LustroXof { state: StreamState::from_parts(s0, s1, step, cursor) }
    }
}

/// A batch of independent XOF streams advanced in lockstep.
pub struct LustroXofBatch {
    streams: Vec<StreamLane>,
}

impl View for LustroXofBatch {
    type V = Seq<StreamLane>;

    closed spec fn view(&self) -> Seq<StreamLane> {
        self.streams@
    }
}

impl Clone for LustroXofBatch {
    fn clone(&self) -> (r: Self)
        ensures
            r@ == self@,
    {
        LustroXofBatch { streams: copy_lanes(&self.streams) }
    }
}

/// A copy of the lanes.
pub fn copy_lanes(lanes: &Vec<StreamLane>) -> (r: Vec<StreamLane>)
    ensures
        r@ == lanes@,
{
    let n = lanes.len();
    let mut out: Vec<StreamLane> = Vec::new();
    let mut i: usize = 0;
    while i < n
        invariant
            n == lanes@.len(),
            i <= n,
            out@ == lanes@.subrange(0, i as int),
        decreases n - i,
    {
        out.push(lanes[i]);
        i = i + 1;
        assert(out@ =~= lanes@.subrange(0, i as int));
    }
    assert(lanes@.subrange(0, n as int) =~= lanes@);
    out
}

impl LustroXofBatch {
    /// Absorbs each message independently; lane `i` is the fresh stream of
    /// message `i`.
    pub fn new(messages: &[&[u8]]) -> (r: Self)
        ensures
            r@.len() == messages@.len(),
            forall|i: int|
                0 <= i < messages@.len() ==> #[trigger] r@[i] == xof_initial(messages@[i]@).lane,
    {
        let n = messages.len();
        let mut streams: Vec<StreamLane> = Vec::new();
        let mut i: usize = 0;
        while i < n
            invariant
                n == messages@.len(),
                i <= n,
                streams@.len() == i,
                forall|k: int|
                    0 <= k < i ==> #[trigger] streams@[k] == xof_initial(messages@[k]@).lane,
            decreases n - i,
        {
            let (s0, s1) = absorb_with_domain(messages[i], Domain::Xof.tag());
            streams.push(StreamLane { s0, s1, step: 0 });
            i = i + 1;
        }
        LustroXofBatch { streams }
    }

    pub fn len(&self) -> (r: usize)
        ensures
            r == self@.len(),
    {
        self.streams.len()
    }

    pub fn is_empty(&self) -> (r: bool)
        ensures
            r == (self@.len() == 0),
    {
        self.streams.len() == 0
    }

    /// Advances every stream by one round in lockstep and writes one block
    /// per stream, in stream order. `out` must have one slot per stream.
    pub fn fill_blocks(&mut self, out: &mut [[u8; 32]])
        requires
            old(out)@.len() == old(self)@.len(),
        ensures
            lockstep_done(old(self)@, final(self)@, final(out)@),
    {
        dispatch_streams(self.streams.as_mut_slice(), out);
    }

    /// Advances every stream by `steps` rounds. Output is stream-major:
    /// all blocks of stream 0 in step order, then stream 1, and so on.
    /// `out` must have `len() * steps` slots.
    pub fn fill_blocks_many(&mut self, out: &mut [[u8; 32]], steps: usize)
        requires
            old(out)@.len() == old(self)@.len() * steps,
        ensures
            many_done(old(self)@, final(self)@, final(out)@, steps as nat),
    {
        dispatch_streams_many(self.streams.as_mut_slice(), out, steps);
    }

    /// Derives one child per stream with the matching identifier; every
    /// child starts at step 0. `ids` must have one entry per stream.
    pub fn fork(&self, ids: &[StreamId]) -> (r: Self)
        requires
            ids@.len() == self@.len(),
        ensures
            r@.len() == self@.len(),
            forall|i: int|
                0 <= i < self@.len() ==> #[trigger] r@[i] == child_lane(
                    self@[i],
                    Domain::Xof.spec_tag(),
                    ids@[i].0,
                ),
    {
        let n = self.streams.len();
        let mut streams: Vec<StreamLane> = Vec::new();
        let mut i: usize = 0;
        while i < n
            invariant
                n == self@.len(),
                n == ids@.len(),
                i <= n,
                streams@.len() == i,
                forall|k: int|
                    0 <= k < i ==> #[trigger] streams@[k] == child_lane(
                        self@[k],
                        Domain::Xof.spec_tag(),
                        ids@[k].0,
                    ),
            decreases n - i,
        {
            let lane = self.streams[i];
            let (s0, s1) = fork_lane(lane.s0, lane.s1, Domain::Xof.tag(), ids[i].get());
            streams.push(StreamLane { s0, s1, step: 0 });
            i = i + 1;
        }
        LustroXofBatch { streams }
    }

    /// Derives one child per stream with identifiers `first`, `first + 1`,
    /// ... (wrapping).
    pub fn fork_range(&self, first: StreamId) -> (r: Self)
        ensures
            r@.len() == self@.len(),
            forall|i: int|
                0 <= i < self@.len() ==> #[trigger] r@[i] == child_lane(
                    self@[i],
                    Domain::Xof.spec_tag(),
                    first.0.wrapping_add(i as u128),
                ),
    {
        let first = first.get();
        let n = self.streams.len();
        let mut streams: Vec<StreamLane> = Vec::new();
        let mut i: usize = 0;
        while i < n
            invariant
                n == self@.len(),
                i <= n,
                streams@.len() == i,
                forall|k: int|
                    0 <= k < i ==> #[trigger] streams@[k] == child_lane(
                        self@[k],
                        Domain::Xof.spec_tag(),
                        first.wrapping_add(k as u128),
                    ),
            decreases n - i,
        {
            let lane = self.streams[i];
            let child_id = first.wrapping_add(i as u128);
            let (s0, s1) = fork_lane(lane.s0, lane.s1, Domain::Xof.tag(), child_id);
            streams.push(StreamLane { s0, s1, step: 0 });
            i = i + 1;
        }
        LustroXofBatch { streams }
    }

    /// Exports every lane's state; batch snapshots have no cursor.
    pub fn export_snapshot(&self) -> (r: LustroXofBatchSnapshot)
        ensures
            r.lanes() == self@.map_values(|l: StreamLane| lane_record_of(l)),
    {
        let n = self.streams.len();
        let mut lanes: Vec<(u128, u128, u64)> = Vec::new();
        let mut i: usize = 0;
        while i < n
            invariant
                n == self@.len(),
                i <= n,
                lanes@ == self@.subrange(0, i as int).map_values(|l: StreamLane| lane_record_of(l)),
            decreases n - i,
        {
            let lane = self.streams[i];
            lanes.push((lane.s0, lane.s1, lane.step));
            i = i + 1;
            assert(lanes@ =~= self@.subrange(0, i as int).map_values(
                |l: StreamLane| lane_record_of(l),
            ));
        }
        assert(self@.subrange(0, n as int) =~= self@);
        LustroXofBatchSnapshot::new(lanes)
    }

    /// Restores a batch from a snapshot.
    pub fn import_snapshot(snapshot: LustroXofBatchSnapshot) -> (r: Self)
        ensures
            r@ == snapshot.lanes().map_values(|rec: (u128, u128, u64)| record_lane(rec)),
    {
        let lanes = snapshot.into_lanes();
        let n = lanes.len();
        let mut streams: Vec<StreamLane> = Vec::new();
        let mut i: usize = 0;
        while i < n
            invariant
                n == lanes@.len(),
                i <= n,
                streams@ == lanes@.subrange(0, i as int).map_values(
                    |rec: (u128, u128, u64)| record_lane(rec),
                ),
            decreases n - i,
        {
            let (s0, s1, step) = lanes[i];
            streams.push(StreamLane { s0, s1, step });
            i = i + 1;
            assert(streams@ =~= lanes@.subrange(0, i as int).map_values(
                |rec: (u128, u128, u64)| record_lane(rec),
            ));
        }
        assert(lanes@.subrange(0, n as int) =~= lanes@);
        LustroXofBatch { streams }
    }
}

} // verus!
