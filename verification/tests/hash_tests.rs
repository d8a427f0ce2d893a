use lustro::hash::{hash128, hash128_many, hash128_many_into, hash256, hash256_many, hash256_many_into};
use lustro::lustro_api_version;
use lustro::types::{Hash128, Hash256};

fn hex(bytes: &[u8]) -> String {
    let mut s = String::new();
    for b in bytes {
        s.push_str(&format!("{:02x}", b));
    }
    s
}

#[test]
fn api_version_is_one() {
    assert_eq!(lustro_api_version(), 1);
}

#[test]
fn hash256_known_values() {
    assert_eq!(
        hex(hash256(b"hello world").as_bytes()),
        "a6affa69e45470153a84df2c6c433c21df8a8f1cee901dd0c4ee675120eca758"
    );
    assert_eq!(
        hex(hash256(b"").as_bytes()),
        "dbc551055d814b783044ea1e78d3ee5ff296276980e2d11eca9e9827a5b6f8b6"
    );
    assert_eq!(
        hex(hash256(&[0xABu8; 32]).as_bytes()),
        "310b65e1128fb9cf552ab820dce64ad2dd1fc53394eada1de9dbcaae32e7d466"
    );
    assert_eq!(
        hex(hash256(&[0xABu8; 33]).as_bytes()),
        "2a2daaf647c166b62d52a40c0f1409bc12966e9dcd4fe9854d113c06a990a3cc"
    );
    assert_eq!(
        hex(hash256(&[0x01u8; 20]).as_bytes()),
        "3acd2bd08bc2d154ee77593199b3e23a2c445caf693a83129435a64232dde6ac"
    );
}

#[test]
fn hash128_known_value() {
    assert_eq!(hex(hash128(b"hello world").as_bytes()), "a6affa69e45470153a84df2c6c433c21");
}

#[test]
fn hash128_is_prefix_of_hash256() {
    for len in [0usize, 1, 15, 16, 17, 31, 32, 33, 64, 100] {
        let data: Vec<u8> = (0..len).map(|i| (i * 7 + 3) as u8).collect();
        let h256 = hash256(&data);
        let h128 = hash128(&data);
        assert_eq!(&h256.as_bytes()[..16], &h128.as_bytes()[..]);
    }
}

#[test]
fn length_is_committed() {
    // Messages that differ only in trailing zero bytes hash differently.
    let a = hash256(&[0u8; 5]);
    let b = hash256(&[0u8; 6]);
    let c = hash256(&[0u8; 32]);
    let d = hash256(&[0u8; 31]);
    assert_ne!(a, b);
    assert_ne!(c, d);
}

#[test]
fn many_matches_single() {
    let msgs: Vec<Vec<u8>> = (0..10).map(|i| vec![i as u8; i * 5]).collect();
    let refs: Vec<&[u8]> = msgs.iter().map(|m| m.as_slice()).collect();
    let h256 = hash256_many(&refs);
    let h128 = hash128_many(&refs);
    assert_eq!(h256.len(), 10);
    for (i, m) in refs.iter().enumerate() {
        assert_eq!(h256[i], hash256(m));
        assert_eq!(h128[i], hash128(m));
    }
    assert!(hash256_many(&[]).is_empty());
}

#[test]
fn many_parallel_path_by_count() {
    let msgs: Vec<Vec<u8>> = (0..2000u32).map(|i| i.to_le_bytes().to_vec()).collect();
    let refs: Vec<&[u8]> = msgs.iter().map(|m| m.as_slice()).collect();
    let mut out = vec![Hash256::default(); refs.len()];
    hash256_many_into(&refs, &mut out);
    let mut out128 = vec![Hash128::default(); refs.len()];
    hash128_many_into(&refs, &mut out128);
    for (i, m) in refs.iter().enumerate() {
        assert_eq!(out[i], hash256(m));
        assert_eq!(out128[i], hash128(m));
    }
}

#[test]
fn many_parallel_path_by_bytes() {
    let msgs: Vec<Vec<u8>> = (0..3).map(|i| vec![i as u8; 40_000]).collect();
    let refs: Vec<&[u8]> = msgs.iter().map(|m| m.as_slice()).collect();
    let out = hash256_many(&refs);
    let out128 = hash128_many(&refs);
    for (i, m) in refs.iter().enumerate() {
        assert_eq!(out[i], hash256(m));
        assert_eq!(out128[i], hash128(m));
    }
}
