use lustro::prng::{LustroPrng, LustroPrngBatch};
use lustro::types::{LustroPrngBatchSnapshot, LustroPrngSnapshot, LustroXofSnapshot, Seed256, SnapshotError, StreamId};

fn hex(bytes: &[u8]) -> String {
    let mut s = String::new();
    for b in bytes {
        s.push_str(&format!("{:02x}", b));
    }
    s
}

fn seed_range() -> Seed256 {
    let mut b = [0u8; 32];
    for (i, x) in b.iter_mut().enumerate() {
        *x = i as u8;
    }
    Seed256::from_bytes(b)
}

#[test]
fn prng_known_values() {
    let seed = Seed256::from_bytes([0u8; 32]);
    let mut rng = LustroPrng::new(&seed, StreamId(0));
    assert_eq!(rng.next_u64(), 0x44f8a9378c98c633);
    let mut r7 = LustroPrng::new(&seed_range(), StreamId(7));
    assert_eq!(r7.next_u128(), 0xe872b8ce970ade23d92805efc1d3eaa4);
    let parent = LustroPrng::new(&seed, StreamId(0));
    let mut child = parent.fork(StreamId(42));
    assert_eq!(
        hex(&child.next_block()),
        "1c6a0aadd9ee63fa6dbd4d1706d3d35fff93b44893c3129c55eb2a42a43c241b"
    );
}

#[test]
fn streams_differ_by_id() {
    let seed = seed_range();
    let mut a = LustroPrng::new(&seed, StreamId(1));
    let mut b = LustroPrng::new(&seed, StreamId(2));
    assert_ne!(a.next_block(), b.next_block());
}

#[test]
fn from_seed_is_stream_zero() {
    let seed = seed_range();
    let mut a: LustroPrng = LustroPrng::from(seed);
    let mut b: LustroPrng = LustroPrng::from(*seed.as_bytes());
    let mut c = LustroPrng::new(&seed, StreamId(0));
    let x = c.next_block();
    assert_eq!(a.next_block(), x);
    assert_eq!(b.next_block(), x);
}

#[test]
fn prng_fill_concatenation() {
    let seed = seed_range();
    let mut whole = LustroPrng::new(&seed, StreamId(3));
    let mut expected = vec![0u8; 100];
    whole.fill_bytes(&mut expected);
    let mut parts = LustroPrng::new(&seed, StreamId(3));
    let mut got = vec![0u8; 100];
    let (a, rest) = got.split_at_mut(7);
    let (b, c) = rest.split_at_mut(50);
    parts.fill_bytes(a);
    parts.fill_bytes(b);
    parts.fill_bytes(c);
    assert_eq!(got, expected);
}

#[test]
fn prng_clone_and_snapshot() {
    let mut rng = LustroPrng::new(&seed_range(), StreamId(5));
    let _ = rng.next_u64();
    let mut copy = rng.clone();
    let bytes = rng.export_snapshot().to_le_bytes();
    assert_eq!(bytes[1], 1);
    let mut restored = LustroPrng::import_snapshot(LustroPrngSnapshot::from_le_bytes(&bytes).unwrap());
    let a = rng.next_u128();
    assert_eq!(copy.next_u128(), a);
    assert_eq!(restored.next_u128(), a);
    // A PRNG snapshot is not a XOF snapshot.
    assert_eq!(LustroXofSnapshot::from_le_bytes(&bytes), Err(SnapshotError::InvalidKind));
}

#[test]
fn batch_lanes_are_single_streams() {
    let seed = seed_range();
    let ids = [StreamId(0), StreamId(1), StreamId(2), StreamId(3)];
    let mut batch = LustroPrngBatch::new(&seed, &ids);
    let mut out = vec![[0u8; 32]; batch.len()];
    batch.fill_blocks(&mut out);
    for (i, id) in ids.iter().enumerate() {
        let mut single = LustroPrng::new(&seed, *id);
        assert_eq!(out[i], single.next_block());
    }
}

#[test]
fn new_range_is_new_with_sequential_ids() {
    let seed = seed_range();
    let a = LustroPrngBatch::new_range(&seed, StreamId(u128::MAX), 3);
    let b = LustroPrngBatch::new(&seed, &[StreamId(u128::MAX), StreamId(0), StreamId(1)]);
    assert_eq!(a.export_snapshot(), b.export_snapshot());
    assert_eq!(a.len(), 3);
    assert!(LustroPrngBatch::new_range(&seed, StreamId(0), 0).is_empty());
}

#[test]
fn batch_fork_and_fork_range() {
    let seed = seed_range();
    let batch = LustroPrngBatch::new_range(&seed, StreamId(0), 4);
    let children = batch.fork_range(StreamId(100));
    let by_ids = batch.fork(&[StreamId(100), StreamId(101), StreamId(102), StreamId(103)]);
    assert_eq!(children.export_snapshot(), by_ids.export_snapshot());
    let mut out = vec![[0u8; 32]; 4];
    let mut c = children.clone();
    c.fill_blocks(&mut out);
    for i in 0..4u128 {
        let parent = LustroPrng::new(&seed, StreamId(i));
        let mut child = parent.fork(StreamId(100 + i));
        assert_eq!(out[i as usize], child.next_block());
    }
}

#[test]
fn parallel_dispatch_matches_single_streams() {
    let seed = seed_range();
    let n = 2000usize;
    let mut batch = LustroPrngBatch::new_range(&seed, StreamId(0), n);
    let mut out = vec![[0u8; 32]; n];
    batch.fill_blocks(&mut out);
    for i in [0usize, 1, 287, 288, 1535, 1999] {
        let mut single = LustroPrng::new(&seed, StreamId(i as u128));
        assert_eq!(out[i], single.next_block());
    }
    let steps = 2;
    let mut many = LustroPrngBatch::new_range(&seed, StreamId(0), n);
    let mut out_many = vec![[0u8; 32]; n * steps];
    many.fill_blocks_many(&mut out_many, steps);
    for i in [0usize, 33, 34, 35, 1999] {
        let mut single = LustroPrng::new(&seed, StreamId(i as u128));
        assert_eq!(out_many[i * steps], single.next_block());
        assert_eq!(out_many[i * steps + 1], single.next_block());
    }
}

#[test]
fn fill_blocks_many_single_step_equals_fill_blocks() {
    let seed = seed_range();
    let mut a = LustroPrngBatch::new_range(&seed, StreamId(7), 5);
    let mut b = LustroPrngBatch::new_range(&seed, StreamId(7), 5);
    let mut oa = vec![[0u8; 32]; 5];
    let mut ob = vec![[0u8; 32]; 5];
    a.fill_blocks(&mut oa);
    b.fill_blocks_many(&mut ob, 1);
    assert_eq!(oa, ob);
}

#[test]
fn prng_batch_snapshot_roundtrip() {
    let seed = seed_range();
    let mut batch = LustroPrngBatch::new_range(&seed, StreamId(0), 3);
    let mut out = vec![[0u8; 32]; 3];
    batch.fill_blocks(&mut out);
    let bytes = batch.export_snapshot().to_le_bytes();
    assert_eq!(bytes.len(), 16 + 3 * 48);
    assert_eq!(&bytes[8..16], &3u64.to_le_bytes());
    let mut restored = LustroPrngBatch::import_snapshot(LustroPrngBatchSnapshot::from_le_bytes(&bytes).unwrap());
    let mut a = vec![[0u8; 32]; 3];
    let mut b = vec![[0u8; 32]; 3];
    batch.fill_blocks(&mut a);
    restored.fill_blocks(&mut b);
    assert_eq!(a, b);
    let empty = LustroPrngBatch::new(&seed, &[]).export_snapshot().to_le_bytes();
    assert_eq!(empty.len(), 16);
    assert!(LustroPrngBatchSnapshot::from_le_bytes(&empty).is_ok());
}

#[test]
fn next_u32_reads_four_stream_bytes() {
    let seed = seed_range();
    let mut bytes = LustroPrng::new(&seed, StreamId(9));
    let mut expected = [0u8; 12];
    bytes.fill_bytes(&mut expected);
    let mut words = LustroPrng::new(&seed, StreamId(9));
    for k in 0..3 {
        let mut b = [0u8; 4];
        b.copy_from_slice(&expected[4 * k..4 * k + 4]);
        assert_eq!(words.next_u32(), u32::from_le_bytes(b));
    }
    let mut rest_a = [0u8; 20];
    let mut rest_b = [0u8; 20];
    bytes.fill_bytes(&mut rest_a);
    words.fill_bytes(&mut rest_b);
    assert_eq!(rest_a, rest_b);
}
