//! Domain types: digests, seeds, stream identifiers and snapshots.
use vstd::prelude::*;
use crate::bytes::{
    from_le16, from_le8, le16, le8, u128_from_le_at, u128_to_le, u64_from_le_at, u64_to_le,
    write_at, append_bytes, lemma_from_le16_le16, lemma_from_le8_le8,
};
use crate::dispatch::{block_array, block_of};

verus! {

// ------------------------------------------------------------------
// Digests
// ------------------------------------------------------------------

/// A 128-bit digest.
#[derive(Clone, Copy, PartialEq, Eq, Debug)]
pub struct Hash128(pub [u8; 16]);

/// A 256-bit digest.
#[derive(Clone, Copy, PartialEq, Eq, Debug)]
pub struct Hash256(pub [u8; 32]);

impl Default for Hash128 {
    /// The all-zero digest.
    fn default() -> (r: Self)
        ensures
            r.0@ == Seq::new(16, |i: int| 0u8),
    {
        let r = Hash128([0u8; 16]);
        assert(r.0@ =~= Seq::new(16, |i: int| 0u8));
        r
    }
}

impl Default for Hash256 {
    /// The all-zero digest.
    fn default() -> (r: Self)
        ensures
            r.0@ == Seq::new(32, |i: int| 0u8),
    {
        let r = Hash256([0u8; 32]);
        assert(r.0@ =~= Seq::new(32, |i: int| 0u8));
        r
    }
}

impl Hash128 {
    pub fn as_bytes(&self) -> (r: &[u8; 16])
        ensures
            *r == self.0,
    {
        &self.0
    }

    /// The digest of a state: its first word, little-endian.
    pub(crate) fn from_state(s0: u128) -> (r: Self)
        ensures
            r.0@ == le16(s0),
    {
        Hash128(u128_to_le(s0))
    }
}

impl Hash256 {
    pub fn as_bytes(&self) -> (r: &[u8; 32])
        ensures
            *r == self.0,
    {
        &self.0
    }

    /// The digest of a state: both words, little-endian, `s0` first.
    pub(crate) fn from_state(s0: u128, s1: u128) -> (r: Self)
        ensures
            r.0@ == block_of(s0, s1),
    {
        Hash256(block_array(s0, s1))
    }
}


#[verifier::external_type_specification]
#[verifier::external_body]
pub struct ExTryFromSliceError(core::array::TryFromSliceError);

/// Copies a slice into an array of `N` bytes.
///
/// Trusted: std's `<[u8; N] as TryFrom<&[u8]>>::try_from` succeeds exactly
/// when the slice holds `N` bytes, and then returns a copy of them.
#[verifier::external_body]
fn slice_to_array<const N: usize>(bytes: &[u8]) -> (r: Result<[u8; N], core::array::TryFromSliceError>)
    ensures
        r is Ok <==> bytes@.len() == N,
        r matches Ok(a) ==> a@ == bytes@,
{
    <[u8; N]>::try_from(bytes)
}

impl AsRef<[u8; 16]> for Hash128 {
    /// The bytes, as an array.
    fn as_ref(&self) -> &[u8; 16]
        returns
            &self.0,
    {
        &self.0
    }
}

impl AsRef<[u8]> for Hash128 {
    /// The bytes, as a slice.
    fn as_ref(&self) -> &[u8]
        returns
            vstd::array::spec_array_as_slice(&self.0),
    {
        &self.0
    }
}

impl<'a> TryFrom<&'a [u8]> for Hash128 {
    type Error = core::array::TryFromSliceError;

    /// Succeeds exactly when `bytes` holds 16 bytes, and then copies them.
    fn try_from(bytes: &'a [u8]) -> (r: Result<Self, Self::Error>)
        ensures
            r is Ok <==> bytes@.len() == 16,
            r matches Ok(h) ==> h.0@ == bytes@,
    {
        match slice_to_array::<16>(bytes) {
            Ok(a) => Ok(Hash128(a)),
            Err(e) => Err(e),
        }
    }
}

impl<'a> vstd::std_specs::convert::TryFromSpecImpl<&'a [u8]> for Hash128 {
    /// The error value is not modelled; `try_from` states its own result.
    open spec fn obeys_try_from_spec() -> bool {
        false
    }

    open spec fn try_from_spec(v: &'a [u8]) -> Result<Self, core::array::TryFromSliceError> {
        arbitrary()
    }
}

impl AsRef<[u8; 32]> for Hash256 {
    /// The bytes, as an array.
    fn as_ref(&self) -> &[u8; 32]
        returns
            &self.0,
    {
        &self.0
    }
}

impl AsRef<[u8]> for Hash256 {
    /// The bytes, as a slice.
    fn as_ref(&self) -> &[u8]
        returns
            vstd::array::spec_array_as_slice(&self.0),
    {
        &self.0
    }
}

impl<'a> TryFrom<&'a [u8]> for Hash256 {
    type Error = core::array::TryFromSliceError;

    /// Succeeds exactly when `bytes` holds 32 bytes, and then copies them.
    fn try_from(bytes: &'a [u8]) -> (r: Result<Self, Self::Error>)
        ensures
            r is Ok <==> bytes@.len() == 32,
            r matches Ok(h) ==> h.0@ == bytes@,
    {
        match slice_to_array::<32>(bytes) {
            Ok(a) => Ok(Hash256(a)),
            Err(e) => Err(e),
        }
    }
}

impl<'a> vstd::std_specs::convert::TryFromSpecImpl<&'a [u8]> for Hash256 {
    /// The error value is not modelled; `try_from` states its own result.
    open spec fn obeys_try_from_spec() -> bool {
        false
    }

    open spec fn try_from_spec(v: &'a [u8]) -> Result<Self, core::array::TryFromSliceError> {
        arbitrary()
    }
}

// ------------------------------------------------------------------
// Stream identifiers and seeds
// ------------------------------------------------------------------

/// Identifies a stream; different identifiers derive different streams
/// from the same seed or parent.
#[derive(Clone, Copy, Debug, PartialEq, Eq, Hash, Structural)]
pub struct StreamId(pub u128);

impl StreamId {
    pub fn get(self) -> (r: u128)
        ensures
            r == self.0,
    {
        self.0
    }
}

impl Default for StreamId {
    /// Stream 0.
    fn default() -> (r: Self)
        ensures
            r.0 == 0,
    {
        StreamId(0)
    }
}

/// 256-bit seed material. `Copy` is intentional; no `Debug` is offered so
/// that the seed is never printed.
#[derive(Clone, Copy, PartialEq, Eq)]
pub struct Seed256(pub [u8; 32]);

impl Seed256 {
    pub fn from_bytes(bytes: [u8; 32]) -> (r: Self)
        ensures
            r.0 == bytes,
    {
        Seed256(bytes)
    }

    pub fn as_bytes(&self) -> (r: &[u8; 32])
        ensures
            *r == self.0,
    {
        &self.0
    }
}

impl AsRef<[u8; 32]> for Seed256 {
    /// The bytes, as an array.
    fn as_ref(&self) -> &[u8; 32]
        returns
            &self.0,
    {
        &self.0
    }
}

impl AsRef<[u8]> for Seed256 {
    /// The bytes, as a slice.
    fn as_ref(&self) -> &[u8]
        returns
            vstd::array::spec_array_as_slice(&self.0),
    {
        &self.0
    }
}

impl<'a> TryFrom<&'a [u8]> for Seed256 {
    type Error = core::array::TryFromSliceError;

    /// Succeeds exactly when `bytes` holds 32 bytes, and then copies them.
    fn try_from(bytes: &'a [u8]) -> (r: Result<Self, Self::Error>)
        ensures
            r is Ok <==> bytes@.len() == 32,
            r matches Ok(h) ==> h.0@ == bytes@,
    {
        match slice_to_array::<32>(bytes) {
            Ok(a) => Ok(Seed256(a)),
            Err(e) => Err(e),
        }
    }
}

impl<'a> vstd::std_specs::convert::TryFromSpecImpl<&'a [u8]> for Seed256 {
    /// The error value is not modelled; `try_from` states its own result.
    open spec fn obeys_try_from_spec() -> bool {
        false
    }

    open spec fn try_from_spec(v: &'a [u8]) -> Result<Self, core::array::TryFromSliceError> {
        arbitrary()
    }
}

// ------------------------------------------------------------------
// Snapshots
// ------------------------------------------------------------------

/// Version byte of every snapshot format.
pub const SNAPSHOT_VERSION: u8 = 1;

/// Length of a single-stream snapshot.
pub const SINGLE_SNAPSHOT_LEN: usize = 56;

/// Length of the header of a batch snapshot.
pub const BATCH_HEADER_LEN: usize = 16;

/// Length of one lane record of a batch snapshot.
pub const BATCH_LANE_LEN: usize = 48;

/// The generator family encoded in a snapshot; `code` gives the byte
/// stored in the format.
#[derive(Clone, Copy, PartialEq, Eq, Debug, Structural)]
pub enum SnapshotKind {
    Prng,
    Xof,
    PrngBatch,
    XofBatch,
}

impl SnapshotKind {
    pub open spec fn spec_code(self) -> u8 {
        match self {
            SnapshotKind::Prng => 1,
            SnapshotKind::Xof => 2,
            SnapshotKind::PrngBatch => 3,
            SnapshotKind::XofBatch => 4,
        }
    }

    #[verifier::when_used_as_spec(spec_code)]
    pub fn code(self) -> (c: u8)
        ensures
            c == self.spec_code(),
    {
        match self {
            SnapshotKind::Prng => 1,
            SnapshotKind::Xof => 2,
            SnapshotKind::PrngBatch => 3,
            SnapshotKind::XofBatch => 4,
        }
    }
}

/// Why snapshot bytes were rejected.
#[derive(Clone, Copy, PartialEq, Eq, Debug, Structural)]
pub enum SnapshotError {
    UnsupportedVersion,
    InvalidKind,
    InvalidCursor,
    InvalidLength,
}

/// `n` zero bytes.
pub open spec fn zeros(n: nat) -> Seq<u8> {
    Seq::new(n, |i: int| 0u8)
}

/// The 56-byte single-stream format: version, kind, 6 reserved bytes,
/// `s0`, `s1`, `step`, `cursor`, 7 reserved bytes.
pub open spec fn encode_single(kind: u8, s0: u128, s1: u128, step: u64, cursor: u8) -> Seq<u8> {
    seq![SNAPSHOT_VERSION, kind] + zeros(6) + le16(s0) + le16(s1) + le8(step) + seq![cursor]
        + zeros(7)
}

/// Decoding of the single-stream format, checking version, then kind,
/// then the cursor bound, before any state field is read.
pub open spec fn decode_single(b: Seq<u8>, kind: u8) -> Result<
    (u128, u128, u64, u8),
    SnapshotError,
> {
    if b[0] != SNAPSHOT_VERSION {
        Err(SnapshotError::UnsupportedVersion)
    } else if b[1] != kind {
        Err(SnapshotError::InvalidKind)
    } else if b[48] > 32 {
        Err(SnapshotError::InvalidCursor)
    } else {
        Ok(
            (
                from_le16(b.subrange(8, 24)),
                from_le16(b.subrange(24, 40)),
                from_le8(b.subrange(40, 48)),
                b[48],
            ),
        )
    }
}

fn encode_single_snapshot(kind: SnapshotKind, s0: u128, s1: u128, step: u64, cursor: u8) -> (r: [u8; 56])
    ensures
        r@ == encode_single(kind.spec_code(), s0, s1, step, cursor),
{
    let mut bytes = [0u8; 56];
    bytes[0] = SNAPSHOT_VERSION;
    bytes[1] = kind.code();
    let b0 = u128_to_le(s0);
    let b1 = u128_to_le(s1);
    let b2 = u64_to_le(step);
    write_at(&mut bytes, 8, &b0);
    write_at(&mut bytes, 24, &b1);
    write_at(&mut bytes, 40, &b2);
    bytes[48] = cursor;
    assert(bytes@ =~= encode_single(kind.spec_code(), s0, s1, step, cursor));
    bytes
}

fn decode_single_snapshot(bytes: &[u8; 56], expected_kind: SnapshotKind) -> (r: Result<
    (u128, u128, u64, u8),
    SnapshotError,
>)
    ensures
        r == decode_single(bytes@, expected_kind.spec_code()),
{
    if bytes[0] != SNAPSHOT_VERSION {
        return Err(SnapshotError::UnsupportedVersion);
    }
    if bytes[1] != expected_kind.code() {
        return Err(SnapshotError::InvalidKind);
    }
    let cursor = bytes[48];
    if cursor > 32 {
        return Err(SnapshotError::InvalidCursor);
    }
    let s0 = u128_from_le_at(bytes.as_slice(), 8);
    let s1 = u128_from_le_at(bytes.as_slice(), 24);
    let step = u64_from_le_at(bytes.as_slice(), 40);
    Ok((s0, s1, step, cursor))
}

/// Serialised PRNG stream state.
#[derive(Clone, Copy, PartialEq, Eq, Debug)]
pub struct LustroPrngSnapshot {
    s0: u128,
    s1: u128,
    step: u64,
    cursor: u8,
}

impl LustroPrngSnapshot {
    #[verifier::type_invariant]
    closed spec fn inv(self) -> bool {
        self.cursor <= 32
    }

    /// The stream state held: `(s0, s1, step, cursor)`.
    pub closed spec fn parts(self) -> (u128, u128, u64, u8) {
        (self.s0, self.s1, self.step, self.cursor)
    }

    pub(crate) fn new(s0: u128, s1: u128, step: u64, cursor: u8) -> (r: Self)
        requires
            cursor <= 32,
        ensures
            r.parts() == (s0, s1, step, cursor),
    {
        LustroPrngSnapshot { s0, s1, step, cursor }
    }

    pub(crate) fn into_parts(self) -> (r: (u128, u128, u64, u8))
        ensures
            r == self.parts(),
            r.3 <= 32,
    {
        proof {
            use_type_invariant(&self);
        }
        (self.s0, self.s1, self.step, self.cursor)
    }

    /// Serialises to the stable 56-byte format.
    pub fn to_le_bytes(&self) -> (r: [u8; 56])
        ensures
            r@ == encode_single(
                SnapshotKind::Prng.spec_code(),
                self.parts().0,
                self.parts().1,
                self.parts().2,
                self.parts().3,
            ),
    {
        encode_single_snapshot(SnapshotKind::Prng, self.s0, self.s1, self.step, self.cursor)
    }

    /// Deserialises a PRNG snapshot from the 56-byte format.
    pub fn from_le_bytes(bytes: &[u8; 56]) -> (r: Result<Self, SnapshotError>)
        ensures
            match r {
                Ok(s) => decode_single(bytes@, SnapshotKind::Prng.spec_code()) == Ok::<
                    (u128, u128, u64, u8),
                    SnapshotError,
                >(s.parts()),
                Err(e) => decode_single(bytes@, SnapshotKind::Prng.spec_code()) == Err::<
                    (u128, u128, u64, u8),
                    SnapshotError,
                >(e),
            },
    {
        match decode_single_snapshot(bytes, SnapshotKind::Prng) {
            Ok((s0, s1, step, cursor)) => Ok(LustroPrngSnapshot { s0, s1, step, cursor }),
            Err(e) => Err(e),
        }
    }
}

/// Serialised XOF stream state.
#[derive(Clone, Copy, PartialEq, Eq, Debug)]
pub struct LustroXofSnapshot {
    s0: u128,
    s1: u128,
    step: u64,
    cursor: u8,
}

impl LustroXofSnapshot {
    #[verifier::type_invariant]
    closed spec fn inv(self) -> bool {
        self.cursor <= 32
    }

    /// The stream state held: `(s0, s1, step, cursor)`.
    pub closed spec fn parts(self) -> (u128, u128, u64, u8) {
        (self.s0, self.s1, self.step, self.cursor)
    }

    pub(crate) fn new(s0: u128, s1: u128, step: u64, cursor: u8) -> (r: Self)
        requires
            cursor <= 32,
        ensures
            r.parts() == (s0, s1, step, cursor),
    {
        LustroXofSnapshot { s0, s1, step, cursor }
    }

    pub(crate) fn into_parts(self) -> (r: (u128, u128, u64, u8))
        ensures
            r == self.parts(),
            r.3 <= 32,
    {
        proof {
            use_type_invariant(&self);
        }
        (self.s0, self.s1, self.step, self.cursor)
    }

    /// Serialises to the stable 56-byte format.
    pub fn to_le_bytes(&self) -> (r: [u8; 56])
        ensures
            r@ == encode_single(
                SnapshotKind::Xof.spec_code(),
                self.parts().0,
                self.parts().1,
                self.parts().2,
                self.parts().3,
            ),
    {
        encode_single_snapshot(SnapshotKind::Xof, self.s0, self.s1, self.step, self.cursor)
    }

    /// Deserialises a XOF snapshot from the 56-byte format.
    pub fn from_le_bytes(bytes: &[u8; 56]) -> (r: Result<Self, SnapshotError>)
        ensures
            match r {
                Ok(s) => decode_single(bytes@, SnapshotKind::Xof.spec_code()) == Ok::<
                    (u128, u128, u64, u8),
                    SnapshotError,
                >(s.parts()),
                Err(e) => decode_single(bytes@, SnapshotKind::Xof.spec_code()) == Err::<
                    (u128, u128, u64, u8),
                    SnapshotError,
                >(e),
            },
    {
        match decode_single_snapshot(bytes, SnapshotKind::Xof) {
            Ok((s0, s1, step, cursor)) => Ok(LustroXofSnapshot { s0, s1, step, cursor }),
            Err(e) => Err(e),
        }
    }
}

/// Decoding recovers the encoded state when the cursor is in range.
pub proof fn lemma_single_roundtrip(kind: u8, s0: u128, s1: u128, step: u64, cursor: u8)
    requires
        cursor <= 32,
    ensures
        decode_single(encode_single(kind, s0, s1, step, cursor), kind) == Ok::<
            (u128, u128, u64, u8),
            SnapshotError,
        >((s0, s1, step, cursor)),
{
    let b = encode_single(kind, s0, s1, step, cursor);
    assert(b.subrange(8, 24) =~= le16(s0));
    assert(b.subrange(24, 40) =~= le16(s1));
    assert(b.subrange(40, 48) =~= le8(step));
    lemma_from_le16_le16(s0);
    lemma_from_le16_le16(s1);
    lemma_from_le8_le8(step);
}

/// Layout of the 56-byte single-stream format: version at 0, kind at 1,
/// zeros at 2..8, `s0` little-endian at 8..24, `s1` at 24..40, `step`
/// little-endian at 40..48, the cursor at 48 and zeros at 49..56.
pub proof fn lemma_single_layout(kind: u8, s0: u128, s1: u128, step: u64, cursor: u8)
    ensures
        ({
            let b = encode_single(kind, s0, s1, step, cursor);
            &&& b.len() == 56
            &&& b[0] == SNAPSHOT_VERSION
            &&& b[1] == kind
            &&& forall|j: int| 2 <= j < 8 ==> b[j] == 0u8
            &&& from_le16(b.subrange(8, 24)) == s0
            &&& from_le16(b.subrange(24, 40)) == s1
            &&& from_le8(b.subrange(40, 48)) == step
            &&& b[48] == cursor
            &&& forall|j: int| 49 <= j < 56 ==> b[j] == 0u8
        }),
{
    let b = encode_single(kind, s0, s1, step, cursor);
    assert(b.subrange(8, 24) =~= le16(s0));
    assert(b.subrange(24, 40) =~= le16(s1));
    assert(b.subrange(40, 48) =~= le8(step));
    lemma_from_le16_le16(s0);
    lemma_from_le16_le16(s1);
    lemma_from_le8_le8(step);
}

/// What the single-stream decoder reads: it succeeds exactly on the right
/// version and kind with a cursor of at most 32, and then returns `s0`
/// read little-endian at 8..24, `s1` at 24..40, `step` at 40..48 and the
/// cursor at 48.
pub proof fn lemma_single_decode_fields(b: Seq<u8>, kind: u8)
    requires
        b.len() == 56,
    ensures
        decode_single(b, kind) is Ok <==> (b[0] == SNAPSHOT_VERSION && b[1] == kind && b[48]
            <= 32),
        decode_single(b, kind) is Ok ==> decode_single(b, kind)->Ok_0 == (
            from_le16(b.subrange(8, 24)),
            from_le16(b.subrange(24, 40)),
            from_le8(b.subrange(40, 48)),
            b[48],
        ),
{
}

/// Bytes encoded for one kind are rejected as `InvalidKind` by the decoder
/// of another kind.
pub proof fn lemma_single_kind_mismatch(
    kind: u8,
    other: u8,
    s0: u128,
    s1: u128,
    step: u64,
    cursor: u8,
)
    requires
        kind != other,
    ensures
        decode_single(encode_single(kind, s0, s1, step, cursor), other) == Err::<
            (u128, u128, u64, u8),
            SnapshotError,
        >(SnapshotError::InvalidKind),
{
}

// ------------------------------------------------------------------
// Batch snapshots
// ------------------------------------------------------------------

/// One 48-byte lane record: `s0`, `s1`, `step`, 8 reserved bytes.
pub open spec fn lane_record(l: (u128, u128, u64)) -> Seq<u8> {
    le16(l.0) + le16(l.1) + le8(l.2) + zeros(8)
}

/// The encoded length of a batch snapshot of `lane_count` lanes, or `None`
/// when it does not fit in `usize`.
pub fn batch_snapshot_encoded_len(lane_count: usize) -> (r: Option<usize>)
    ensures
        16 + 48 * lane_count <= usize::MAX ==> r == Some((16 + 48 * lane_count) as usize),
        16 + 48 * lane_count > usize::MAX ==> r is None,
{
    if lane_count > (usize::MAX - BATCH_HEADER_LEN) / BATCH_LANE_LEN {
        return None;
    }
    Some(lane_count * BATCH_LANE_LEN + BATCH_HEADER_LEN)
}

/// The lane records of all lanes, in order.
pub open spec fn lane_records(ls: Seq<(u128, u128, u64)>) -> Seq<u8>
    decreases ls.len(),
{
    if ls.len() == 0 {
        Seq::empty()
    } else {
        lane_records(ls.drop_last()) + lane_record(ls.last())
    }
}

/// The 16-byte batch header: version, kind, 6 reserved bytes, lane count.
pub open spec fn batch_header(kind: u8, count: u64) -> Seq<u8> {
    seq![SNAPSHOT_VERSION, kind] + zeros(6) + le8(count)
}

/// The variable-length batch format: header, then one record per lane.
pub open spec fn encode_batch(kind: u8, ls: Seq<(u128, u128, u64)>) -> Seq<u8> {
    batch_header(kind, ls.len() as u64) + lane_records(ls)
}

/// The lane held by a 48-byte record.
pub open spec fn decode_lane_record(b: Seq<u8>) -> (u128, u128, u64) {
    (from_le16(b.subrange(0, 16)), from_le16(b.subrange(16, 32)), from_le8(b.subrange(32, 40)))
}

/// Decoding of the batch format: a header must be present; then version,
/// kind, and an exact total length of `16 + 48 * lane_count` are checked.
pub open spec fn decode_batch(b: Seq<u8>, kind: u8) -> Result<Seq<(u128, u128, u64)>, SnapshotError> {
    if b.len() < BATCH_HEADER_LEN {
        Err(SnapshotError::InvalidLength)
    } else if b[0] != SNAPSHOT_VERSION {
        Err(SnapshotError::UnsupportedVersion)
    } else if b[1] != kind {
        Err(SnapshotError::InvalidKind)
    } else {
        let lc = from_le8(b.subrange(8, 16));
        if b.len() != 16 + 48 * lc {
            Err(SnapshotError::InvalidLength)
        } else {
            Ok(
                Seq::new(
                    lc as nat,
                    |i: int| decode_lane_record(b.subrange(16 + 48 * i, 16 + 48 * i + 48)),
                ),
            )
        }
    }
}

proof fn lemma_lane_records_len(ls: Seq<(u128, u128, u64)>)
    ensures
        lane_records(ls).len() == 48 * ls.len(),
    decreases ls.len(),
{
    if ls.len() > 0 {
        lemma_lane_records_len(ls.drop_last());
    }
}

/// The record of lane `i` sits at offset `48 * i`.
proof fn lemma_lane_records_index(ls: Seq<(u128, u128, u64)>, i: int)
    requires
        0 <= i < ls.len(),
    ensures
        lane_records(ls).subrange(48 * i, 48 * i + 48) == lane_record(ls[i]),
    decreases ls.len(),
{
    lemma_lane_records_len(ls.drop_last());
    if i < ls.len() - 1 {
        lemma_lane_records_index(ls.drop_last(), i);
        assert(lane_records(ls).subrange(48 * i, 48 * i + 48) =~= lane_records(
            ls.drop_last(),
        ).subrange(48 * i, 48 * i + 48));
    } else {
        assert(lane_records(ls).subrange(48 * i, 48 * i + 48) =~= lane_record(ls[i]));
    }
}

fn encode_batch_header(kind: SnapshotKind, lane_count: u64) -> (r: [u8; 16])
    ensures
        r@ == batch_header(kind.spec_code(), lane_count),
{
    let mut bytes = [0u8; 16];
    bytes[0] = SNAPSHOT_VERSION;
    bytes[1] = kind.code();
    let c = u64_to_le(lane_count);
    write_at(&mut bytes, 8, &c);
    assert(bytes@ =~= batch_header(kind.spec_code(), lane_count));
    bytes
}

fn encode_batch_lane(bytes: &mut [u8], s0: u128, s1: u128, step: u64)
    requires
        old(bytes)@.len() == BATCH_LANE_LEN,
    ensures
        final(bytes)@ == le16(s0) + le16(s1) + le8(step) + old(bytes)@.subrange(40, 48),
{
    let b0 = u128_to_le(s0);
    let b1 = u128_to_le(s1);
    let b2 = u64_to_le(step);
    let ghost orig = bytes@;
    write_at(bytes, 0, &b0);
    write_at(bytes, 16, &b1);
    write_at(bytes, 32, &b2);
    assert(bytes@ =~= le16(s0) + le16(s1) + le8(step) + orig.subrange(40, 48));
}

fn decode_batch_lane(bytes: &[u8], start: usize) -> (r: (u128, u128, u64))
    requires
        start + 48 <= bytes@.len(),
    ensures
        r == decode_lane_record(bytes@.subrange(start as int, start + 48)),
{
    let _blen = bytes.len();
    let s0 = u128_from_le_at(bytes, start);
    let s1 = u128_from_le_at(bytes, start + 16);
    let step = u64_from_le_at(bytes, start + 32);
    let ghost rec = bytes@.subrange(start as int, start + 48);
    assert(rec.subrange(0, 16) =~= bytes@.subrange(start as int, start + 16));
    assert(rec.subrange(16, 32) =~= bytes@.subrange(start + 16, start + 32));
    assert(rec.subrange(32, 40) =~= bytes@.subrange(start + 32, start + 40));
    (s0, s1, step)
}

/// Validates the header and the exact encoded length; returns the lane
/// count.
fn decode_batch_header(bytes: &[u8], expected_kind: SnapshotKind) -> (r: Result<u64, SnapshotError>)
    ensures
        match r {
            Ok(lc) => {
                &&& bytes@.len() >= BATCH_HEADER_LEN
                &&& bytes@[0] == SNAPSHOT_VERSION
                &&& bytes@[1] == expected_kind.spec_code()
                &&& lc == from_le8(bytes@.subrange(8, 16))
                &&& bytes@.len() == 16 + 48 * lc
            },
            Err(e) => decode_batch(bytes@, expected_kind.spec_code()) == Err::<
                Seq<(u128, u128, u64)>,
                SnapshotError,
            >(e),
        },
{
    let len = bytes.len();
    if len < BATCH_HEADER_LEN {
        return Err(SnapshotError::InvalidLength);
    }
    if bytes[0] != SNAPSHOT_VERSION {
        return Err(SnapshotError::UnsupportedVersion);
    }
    if bytes[1] != expected_kind.code() {
        return Err(SnapshotError::InvalidKind);
    }
    let lane_count = u64_from_le_at(bytes, 8);
    if lane_count as u128 > usize::MAX as u128 {
        return Err(SnapshotError::InvalidLength);
    }
    let lc = lane_count as usize;
    if lc > (usize::MAX - BATCH_HEADER_LEN) / BATCH_LANE_LEN {
        return Err(SnapshotError::InvalidLength);
    }
    let expected_len = lc * BATCH_LANE_LEN + BATCH_HEADER_LEN;
    if len != expected_len {
        return Err(SnapshotError::InvalidLength);
    }
    Ok(lane_count)
}

fn encode_batch_lanes(kind: SnapshotKind, lanes: &Vec<(u128, u128, u64)>) -> (r: Vec<u8>)
    ensures
        r@ == encode_batch(kind.spec_code(), lanes@),
{
    let n = lanes.len();
    let mut out: Vec<u8> = Vec::new();
    let header = encode_batch_header(kind, n as u64);
    append_bytes(&mut out, &header);
    let mut i: usize = 0;
    while i < n
        invariant
            n == lanes@.len(),
            i <= n,
            out@ == batch_header(kind.spec_code(), n as u64) + lane_records(
                lanes@.subrange(0, i as int),
            ),
        decreases n - i,
    {
        let (s0, s1, step) = lanes[i];
        let mut rec = [0u8; 48];
        encode_batch_lane(&mut rec, s0, s1, step);
        assert(rec@ =~= lane_record(lanes@[i as int]));
        append_bytes(&mut out, &rec);
        proof {
            assert(lanes@.subrange(0, i + 1).drop_last() =~= lanes@.subrange(0, i as int));
            assert(out@ =~= batch_header(kind.spec_code(), n as u64) + lane_records(
                lanes@.subrange(0, i + 1),
            ));
        }
        i = i + 1;
    }
    assert(lanes@.subrange(0, n as int) =~= lanes@);
    out
}

fn decode_batch_lanes(bytes: &[u8], expected_kind: SnapshotKind) -> (r: Result<
    Vec<(u128, u128, u64)>,
    SnapshotError,
>)
    ensures
        match r {
            Ok(v) => decode_batch(bytes@, expected_kind.spec_code()) == Ok::<
                Seq<(u128, u128, u64)>,
                SnapshotError,
            >(v@),
            Err(e) => decode_batch(bytes@, expected_kind.spec_code()) == Err::<
                Seq<(u128, u128, u64)>,
                SnapshotError,
            >(e),
        },
{
    let lane_count = match decode_batch_header(bytes, expected_kind) {
        Ok(lc) => lc,
        Err(e) => {
            return Err(e);
        },
    };
    let blen = bytes.len();
    let n = lane_count as usize;
    let ghost spec_lanes = decode_batch(bytes@, expected_kind.spec_code())->Ok_0;
    let mut lanes: Vec<(u128, u128, u64)> = Vec::new();
    let mut i: usize = 0;
    while i < n
        invariant
            n == lane_count,
            blen == bytes@.len(),
            bytes@.len() == 16 + 48 * n,
            spec_lanes.len() == n,
            spec_lanes == Seq::new(
                n as nat,
                |k: int| decode_lane_record(bytes@.subrange(16 + 48 * k, 16 + 48 * k + 48)),
            ),
            i <= n,
            lanes@ == spec_lanes.subrange(0, i as int),
        decreases n - i,
    {
        assert(16 + 48 * i + 48 <= bytes@.len()) by (nonlinear_arith)
            requires
                i < n,
                bytes@.len() == 16 + 48 * n,
        ;
        let start = BATCH_HEADER_LEN + i * BATCH_LANE_LEN;
        let lane = decode_batch_lane(bytes, start);
        lanes.push(lane);
        assert(lanes@ =~= spec_lanes.subrange(0, i + 1));
        i = i + 1;
    }
    assert(spec_lanes.subrange(0, n as int) =~= spec_lanes);
    Ok(lanes)
}

proof fn lemma_batch_record_decode(kind: u8, ls: Seq<(u128, u128, u64)>, i: int)
    requires
        0 <= i < ls.len(),
    ensures
        decode_lane_record(encode_batch(kind, ls).subrange(16 + 48 * i, 16 + 48 * i + 48))
            == ls[i],
{
    let b = encode_batch(kind, ls);
    lemma_lane_records_len(ls);
    lemma_lane_records_index(ls, i);
    let rec = b.subrange(16 + 48 * i, 16 + 48 * i + 48);
    assert(rec =~= lane_records(ls).subrange(48 * i, 48 * i + 48));
    assert(rec.subrange(0, 16) =~= le16(ls[i].0));
    assert(rec.subrange(16, 32) =~= le16(ls[i].1));
    assert(rec.subrange(32, 40) =~= le8(ls[i].2));
    lemma_from_le16_le16(ls[i].0);
    lemma_from_le16_le16(ls[i].1);
    lemma_from_le8_le8(ls[i].2);
}

/// Decoding recovers the lanes of an encoded batch.
pub proof fn lemma_batch_roundtrip(kind: u8, ls: Seq<(u128, u128, u64)>)
    requires
        ls.len() <= u64::MAX,
    ensures
        decode_batch(encode_batch(kind, ls), kind) == Ok::<Seq<(u128, u128, u64)>, SnapshotError>(
            ls,
        ),
{
    let b = encode_batch(kind, ls);
    lemma_lane_records_len(ls);
    assert(b.subrange(8, 16) =~= le8(ls.len() as u64));
    lemma_from_le8_le8(ls.len() as u64);
    let d = decode_batch(b, kind)->Ok_0;
    assert forall|i: int| 0 <= i < ls.len() implies #[trigger] d[i] == ls[i] by {
        lemma_batch_record_decode(kind, ls, i);
    }
    assert(d =~= ls);
}

/// Layout of the batch format: version at 0, kind at 1, zeros at 2..8,
/// the lane count little-endian at 8..16; then the 48-byte record of lane
/// `i` at `16 + 48 * i`, holding `s0` little-endian at record bytes 0..16,
/// `s1` at 16..32, `step` at 32..40 and zeros at 40..48.
pub proof fn lemma_batch_layout(kind: u8, ls: Seq<(u128, u128, u64)>, i: int)
    requires
        ls.len() <= u64::MAX,
        0 <= i < ls.len(),
    ensures
        ({
            let b = encode_batch(kind, ls);
            let at = 16 + 48 * i;
            &&& b.len() == 16 + 48 * ls.len()
            &&& b[0] == SNAPSHOT_VERSION
            &&& b[1] == kind
            &&& forall|j: int| 2 <= j < 8 ==> b[j] == 0u8
            &&& from_le8(b.subrange(8, 16)) == ls.len()
            &&& from_le16(b.subrange(at, at + 16)) == ls[i].0
            &&& from_le16(b.subrange(at + 16, at + 32)) == ls[i].1
            &&& from_le8(b.subrange(at + 32, at + 40)) == ls[i].2
            &&& forall|j: int| at + 40 <= j < at + 48 ==> b[j] == 0u8
        }),
{
    let b = encode_batch(kind, ls);
    let at = 16 + 48 * i;
    lemma_lane_records_len(ls);
    lemma_lane_records_index(ls, i);
    assert(b.subrange(8, 16) =~= le8(ls.len() as u64));
    lemma_from_le8_le8(ls.len() as u64);
    let rec = b.subrange(at, at + 48);
    assert(rec =~= lane_records(ls).subrange(48 * i, 48 * i + 48));
    assert(rec.subrange(0, 16) =~= le16(ls[i].0));
    assert(rec.subrange(16, 32) =~= le16(ls[i].1));
    assert(rec.subrange(32, 40) =~= le8(ls[i].2));
    assert(b.subrange(at, at + 16) =~= rec.subrange(0, 16));
    assert(b.subrange(at + 16, at + 32) =~= rec.subrange(16, 32));
    assert(b.subrange(at + 32, at + 40) =~= rec.subrange(32, 40));
    assert forall|j: int| at + 40 <= j < at + 48 implies b[j] == 0u8 by {
        assert(b[j] == rec[j - at]);
    }
    lemma_from_le16_le16(ls[i].0);
    lemma_from_le16_le16(ls[i].1);
    lemma_from_le8_le8(ls[i].2);
}

/// What the batch decoder reads: on success the input is exactly
/// `16 + 48 * n` bytes for the `n` lanes returned, and lane `i` is `s0`
/// read little-endian at `16 + 48 * i`, `s1` 16 bytes on and `step` at
/// record bytes 32..40.
pub proof fn lemma_batch_decode_fields(b: Seq<u8>, kind: u8, i: int)
    requires
        decode_batch(b, kind) is Ok,
        0 <= i < decode_batch(b, kind)->Ok_0.len(),
    ensures
        ({
            let ls = decode_batch(b, kind)->Ok_0;
            let at = 16 + 48 * i;
            &&& b.len() == 16 + 48 * ls.len()
            &&& b[0] == SNAPSHOT_VERSION
            &&& b[1] == kind
            &&& ls.len() == from_le8(b.subrange(8, 16))
            &&& ls[i] == (
                from_le16(b.subrange(at, at + 16)),
                from_le16(b.subrange(at + 16, at + 32)),
                from_le8(b.subrange(at + 32, at + 40)),
            )
        }),
{
    let ls = decode_batch(b, kind)->Ok_0;
    let at = 16 + 48 * i;
    let n = ls.len() as int;
    assert(at + 48 <= 16 + 48 * n) by (nonlinear_arith)
        requires
            0 <= i < n,
            at == 16 + 48 * i,
    ;
    let rec = b.subrange(at, at + 48);
    assert(rec.subrange(0, 16) =~= b.subrange(at, at + 16));
    assert(rec.subrange(16, 32) =~= b.subrange(at + 16, at + 32));
    assert(rec.subrange(32, 40) =~= b.subrange(at + 32, at + 40));
}

/// Bytes encoded for one batch kind are rejected as `InvalidKind` by the
/// decoder of another kind.
pub proof fn lemma_batch_kind_mismatch(kind: u8, other: u8, ls: Seq<(u128, u128, u64)>)
    requires
        kind != other,
    ensures
        decode_batch(encode_batch(kind, ls), other) == Err::<
            Seq<(u128, u128, u64)>,
            SnapshotError,
        >(SnapshotError::InvalidKind),
{
}

/// Serialised PRNG batch state: one `(s0, s1, step)` per lane.
#[derive(Clone, PartialEq, Eq, Debug)]
pub struct LustroPrngBatchSnapshot {
    lanes: Vec<(u128, u128, u64)>,
}

impl LustroPrngBatchSnapshot {
    /// The lanes held, in order.
    pub closed spec fn lanes(&self) -> Seq<(u128, u128, u64)> {
        self.lanes@
    }

    pub(crate) fn new(lanes: Vec<(u128, u128, u64)>) -> (r: Self)
        ensures
            r.lanes() == lanes@,
    {
        LustroPrngBatchSnapshot { lanes }
    }

    pub(crate) fn into_lanes(self) -> (r: Vec<(u128, u128, u64)>)
        ensures
            r@ == self.lanes(),
    {
        self.lanes
    }

    /// Serialises to the variable-length batch format.
    pub fn to_le_bytes(&self) -> (r: Vec<u8>)
        ensures
            r@ == encode_batch(SnapshotKind::PrngBatch.spec_code(), self.lanes()),
    {
        encode_batch_lanes(SnapshotKind::PrngBatch, &self.lanes)
    }

    /// Deserialises a PRNG batch snapshot; trailing or missing bytes are
    /// rejected.
    pub fn from_le_bytes(bytes: &[u8]) -> (r: Result<Self, SnapshotError>)
        ensures
            match r {
                Ok(s) => decode_batch(bytes@, SnapshotKind::PrngBatch.spec_code()) == Ok::<
                    Seq<(u128, u128, u64)>,
                    SnapshotError,
                >(s.lanes()),
                Err(e) => decode_batch(bytes@, SnapshotKind::PrngBatch.spec_code()) == Err::<
                    Seq<(u128, u128, u64)>,
                    SnapshotError,
                >(e),
            },
    {
        match decode_batch_lanes(bytes, SnapshotKind::PrngBatch) {
            Ok(lanes) => Ok(LustroPrngBatchSnapshot { lanes }),
            Err(e) => Err(e),
        }
    }
}

/// Serialised XOF batch state: one `(s0, s1, step)` per lane.
#[derive(Clone, PartialEq, Eq, Debug)]
pub struct LustroXofBatchSnapshot {
    lanes: Vec<(u128, u128, u64)>,
}

impl LustroXofBatchSnapshot {
    /// The lanes held, in order.
    pub closed spec fn lanes(&self) -> Seq<(u128, u128, u64)> {
        self.lanes@
    }

    pub(crate) fn new(lanes: Vec<(u128, u128, u64)>) -> (r: Self)
        ensures
            r.lanes() == lanes@,
    {
        LustroXofBatchSnapshot { lanes }
    }

    pub(crate) fn into_lanes(self) -> (r: Vec<(u128, u128, u64)>)
        ensures
            r@ == self.lanes(),
    {
        self.lanes
    }

    /// Serialises to the variable-length batch format.
    pub fn to_le_bytes(&self) -> (r: Vec<u8>)
        ensures
            r@ == encode_batch(SnapshotKind::XofBatch.spec_code(), self.lanes()),
    {
        encode_batch_lanes(SnapshotKind::XofBatch, &self.lanes)
    }

    /// Deserialises a XOF batch snapshot; trailing or missing bytes are
    /// rejected.
    pub fn from_le_bytes(bytes: &[u8]) -> (r: Result<Self, SnapshotError>)
        ensures
            match r {
                Ok(s) => decode_batch(bytes@, SnapshotKind::XofBatch.spec_code()) == Ok::<
                    Seq<(u128, u128, u64)>,
                    SnapshotError,
                >(s.lanes()),
                Err(e) => decode_batch(bytes@, SnapshotKind::XofBatch.spec_code()) == Err::<
                    Seq<(u128, u128, u64)>,
                    SnapshotError,
                >(e),
            },
    {
        match decode_batch_lanes(bytes, SnapshotKind::XofBatch) {
            Ok(lanes) => Ok(LustroXofBatchSnapshot { lanes }),
            Err(e) => Err(e),
        }
    }
}

} // verus!
