use lustro::types::{LustroPrngSnapshot, LustroXofBatchSnapshot, LustroXofSnapshot, SnapshotError, StreamId};
use lustro::xof::{LustroXof, LustroXofBatch};

fn hex(bytes: &[u8]) -> String {
    let mut s = String::new();
    for b in bytes {
        s.push_str(&format!("{:02x}", b));
    }
    s
}

#[test]
fn xof_known_values() {
    let mut x = LustroXof::new(b"hello world");
    assert_eq!(
        hex(&x.next_block()),
        "f700c304cad3d4569069364f7cc64ef0a031290642d534e3940c9077c42fd279"
    );
    let mut y = LustroXof::new(b"hello world");
    let mut out = [0u8; 40];
    y.fill_bytes(&mut out);
    assert_eq!(
        hex(&out),
        "f700c304cad3d4569069364f7cc64ef0a031290642d534e3940c9077c42fd2793d8f490fa1930da3"
    );
}

#[test]
fn fill_concatenation() {
    let total = 200usize;
    let mut whole = LustroXof::new(b"concat");
    let mut expected = vec![0u8; total];
    whole.fill_bytes(&mut expected);
    for split in [0usize, 1, 5, 16, 31, 32, 33, 64, 100, 199, 200] {
        for split2 in [0usize, 3, 32] {
            if split + split2 > total {
                continue;
            }
            let mut x = LustroXof::new(b"concat");
            let mut got = vec![0u8; total];
            let (a, rest) = got.split_at_mut(split);
            let (b, c) = rest.split_at_mut(split2);
            x.fill_bytes(a);
            x.fill_bytes(b);
            x.fill_bytes(c);
            assert_eq!(got, expected);
            // The final positions agree as well.
            assert_eq!(x.export_snapshot(), whole.export_snapshot());
        }
    }
}

#[test]
fn typed_reads_come_from_the_byte_stream() {
    let mut a = LustroXof::new(b"typed");
    let mut b = LustroXof::new(b"typed");
    let mut buf = [0u8; 24];
    b.fill_bytes(&mut buf);
    let u = a.next_u64();
    let v = a.next_u128();
    assert_eq!(u.to_le_bytes(), buf[0..8]);
    assert_eq!(v.to_le_bytes(), buf[8..24]);
}

#[test]
fn next_block_ignores_cursor() {
    let mut a = LustroXof::new(b"blk");
    let mut b = LustroXof::new(b"blk");
    let _ = a.next_u64();
    let mut first = [0u8; 32];
    b.fill_bytes(&mut first);
    // `a` discards the rest of its first block.
    let blk_a = a.next_block();
    let blk_b = b.next_block();
    assert_eq!(blk_a, blk_b);
    let mut two = LustroXof::new(b"blk");
    let _ = two.next_block();
    assert_eq!(two.next_block(), blk_a);
}

#[test]
fn fork_is_deterministic_and_ignores_cursor() {
    let mut parent = LustroXof::new(b"parent");
    let mut one = [0u8; 1];
    parent.fill_bytes(&mut one);
    let mut consumed = parent.clone();
    let _ = consumed.next_u64();
    let _ = consumed.next_u128();
    let mut f1 = parent.fork(StreamId(9));
    let mut f2 = consumed.fork(StreamId(9));
    let mut f3 = parent.fork(StreamId(10));
    let b1 = f1.next_block();
    assert_eq!(b1, f2.next_block());
    assert_ne!(b1, f3.next_block());
    // Forking leaves the parent untouched.
    let mut p1 = parent.clone();
    let mut p2 = LustroXof::new(b"parent");
    p2.fill_bytes(&mut one);
    assert_eq!(p1.next_block(), p2.next_block());
}

#[test]
fn fork_child_starts_at_step_zero() {
    let mut parent = LustroXof::new(b"p");
    let _ = parent.next_block();
    let _ = parent.next_block();
    let child = parent.fork(StreamId(1));
    let snap = child.export_snapshot().to_le_bytes();
    assert_eq!(&snap[40..48], &[0u8; 8]);
    assert_eq!(snap[48], 32);
}

#[test]
fn snapshot_resumes_exactly() {
    let mut x = LustroXof::new(b"snap");
    let _ = x.next_u64();
    let bytes = x.export_snapshot().to_le_bytes();
    assert_eq!(bytes.len(), 56);
    assert_eq!(bytes[0], 1);
    assert_eq!(bytes[1], 2);
    assert_eq!(bytes[48], 8);
    let snap = LustroXofSnapshot::from_le_bytes(&bytes).unwrap();
    let mut y = LustroXof::import_snapshot(snap);
    let mut a = [0u8; 70];
    let mut b = [0u8; 70];
    x.fill_bytes(&mut a);
    y.fill_bytes(&mut b);
    assert_eq!(a, b);
}

#[test]
fn snapshot_errors() {
    let x = LustroXof::new(b"err");
    let good = x.export_snapshot().to_le_bytes();
    let mut bad_version = good;
    bad_version[0] = 2;
    assert_eq!(LustroXofSnapshot::from_le_bytes(&bad_version), Err(SnapshotError::UnsupportedVersion));
    // A XOF snapshot is not a PRNG snapshot.
    assert_eq!(LustroPrngSnapshot::from_le_bytes(&good), Err(SnapshotError::InvalidKind));
    let mut bad_cursor = good;
    bad_cursor[48] = 33;
    assert_eq!(LustroXofSnapshot::from_le_bytes(&bad_cursor), Err(SnapshotError::InvalidCursor));
    // Version is checked before kind, kind before cursor.
    let mut both = good;
    both[0] = 9;
    both[1] = 9;
    both[48] = 200;
    assert_eq!(LustroXofSnapshot::from_le_bytes(&both), Err(SnapshotError::UnsupportedVersion));
    both[0] = 1;
    assert_eq!(LustroXofSnapshot::from_le_bytes(&both), Err(SnapshotError::InvalidKind));
}

#[test]
fn batch_matches_single_streams() {
    let msgs: [&[u8]; 3] = [b"msg0", b"msg1", b"msg2"];
    let mut batch = LustroXofBatch::new(&msgs);
    assert_eq!(batch.len(), 3);
    assert!(!batch.is_empty());
    let mut out = vec![[0u8; 32]; 3];
    batch.fill_blocks(&mut out);
    batch.fill_blocks(&mut out);
    for (i, m) in msgs.iter().enumerate() {
        let mut x = LustroXof::new(m);
        let _ = x.next_block();
        assert_eq!(out[i], x.next_block());
    }
    assert!(LustroXofBatch::new(&[]).is_empty());
}

#[test]
fn fill_blocks_many_is_stream_major() {
    let msgs: [&[u8]; 4] = [b"a", b"bb", b"ccc", b""];
    let steps = 3;
    let mut many = LustroXofBatch::new(&msgs);
    let mut out = vec![[0u8; 32]; 4 * steps];
    many.fill_blocks_many(&mut out, steps);
    let mut lock = LustroXofBatch::new(&msgs);
    for j in 0..steps {
        let mut round = vec![[0u8; 32]; 4];
        lock.fill_blocks(&mut round);
        for i in 0..4 {
            assert_eq!(out[i * steps + j], round[i]);
        }
    }
    assert_eq!(many.export_snapshot(), lock.export_snapshot());
    let mut empty: Vec<[u8; 32]> = Vec::new();
    many.fill_blocks_many(&mut empty, 0);
}

#[test]
fn fork_range_is_fork_with_sequential_ids() {
    let msgs: [&[u8]; 3] = [b"x", b"y", b"z"];
    let batch = LustroXofBatch::new(&msgs);
    let first = u128::MAX - 1;
    let ids = [StreamId(u128::MAX - 1), StreamId(u128::MAX), StreamId(0)];
    let a = batch.fork_range(StreamId(first));
    let b = batch.fork(&ids);
    assert_eq!(a.export_snapshot(), b.export_snapshot());
    for (i, m) in msgs.iter().enumerate() {
        let single = LustroXof::new(m).fork(ids[i]);
        let lane = &a.export_snapshot().to_le_bytes()[16 + 48 * i..16 + 48 * i + 40];
        assert_eq!(lane, &single.export_snapshot().to_le_bytes()[8..48]);
    }
}

#[test]
fn batch_snapshot_roundtrip() {
    let msgs: [&[u8]; 2] = [b"one", b"two"];
    let mut batch = LustroXofBatch::new(&msgs);
    let mut out = vec![[0u8; 32]; 2];
    batch.fill_blocks(&mut out);
    let bytes = batch.export_snapshot().to_le_bytes();
    assert_eq!(bytes.len(), 16 + 2 * 48);
    assert_eq!(bytes[1], 4);
    let snap = LustroXofBatchSnapshot::from_le_bytes(&bytes).unwrap();
    let mut restored = LustroXofBatch::import_snapshot(snap);
    let mut a = vec![[0u8; 32]; 2];
    let mut b = vec![[0u8; 32]; 2];
    batch.fill_blocks(&mut a);
    restored.fill_blocks(&mut b);
    assert_eq!(a, b);
    let cloned = restored.clone();
    assert_eq!(cloned.export_snapshot(), restored.export_snapshot());
}

#[test]
fn batch_snapshot_errors() {
    let msgs: [&[u8]; 1] = [b"one"];
    let bytes = LustroXofBatch::new(&msgs).export_snapshot().to_le_bytes();
    assert_eq!(LustroXofBatchSnapshot::from_le_bytes(&bytes[..10]), Err(SnapshotError::InvalidLength));
    assert_eq!(LustroXofBatchSnapshot::from_le_bytes(&bytes[..bytes.len() - 1]), Err(SnapshotError::InvalidLength));
    let mut longer = bytes.clone();
    longer.push(0);
    assert_eq!(LustroXofBatchSnapshot::from_le_bytes(&longer), Err(SnapshotError::InvalidLength));
    let mut v = bytes.clone();
    v[0] = 0;
    assert_eq!(LustroXofBatchSnapshot::from_le_bytes(&v), Err(SnapshotError::UnsupportedVersion));
    let mut k = bytes.clone();
    k[1] = 3;
    assert_eq!(LustroXofBatchSnapshot::from_le_bytes(&k), Err(SnapshotError::InvalidKind));
    let mut huge = bytes.clone();
    huge[8..16].copy_from_slice(&u64::MAX.to_le_bytes());
    assert_eq!(LustroXofBatchSnapshot::from_le_bytes(&huge), Err(SnapshotError::InvalidLength));
    // A single-stream snapshot is not a batch snapshot.
    let single = LustroXof::new(b"one").export_snapshot().to_le_bytes();
    assert_eq!(LustroXofBatchSnapshot::from_le_bytes(&single), Err(SnapshotError::InvalidKind));
}
