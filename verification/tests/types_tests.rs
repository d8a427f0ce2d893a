use lustro::constants::Domain;
use lustro::errors::LustroError;
use lustro::types::{Hash128, Hash256, Seed256, SnapshotKind, StreamId};

#[test]
fn domain_tags() {
    assert_eq!(Domain::Hash.tag(), 1);
    assert_eq!(Domain::Prng.tag(), 2);
    assert_eq!(Domain::Xof.tag(), 3);
}

#[test]
fn snapshot_kind_codes() {
    assert_eq!(SnapshotKind::Prng.code(), 1);
    assert_eq!(SnapshotKind::Xof.code(), 2);
    assert_eq!(SnapshotKind::PrngBatch.code(), 3);
    assert_eq!(SnapshotKind::XofBatch.code(), 4);
}

#[test]
fn stream_id_get_and_default() {
    assert_eq!(StreamId(77).get(), 77);
    assert_eq!(StreamId::default(), StreamId(0));
}

#[test]
fn try_from_slices() {
    let bytes: Vec<u8> = (0..40u8).collect();
    let h = Hash128::try_from(&bytes[..16]).unwrap();
    assert_eq!(h.as_bytes(), &bytes[..16]);
    assert!(Hash128::try_from(&bytes[..15]).is_err());
    let h2 = Hash256::try_from(&bytes[..32]).unwrap();
    assert_eq!(AsRef::<[u8]>::as_ref(&h2), &bytes[..32]);
    assert!(Hash256::try_from(&bytes[..33]).is_err());
    let s = Seed256::try_from(&bytes[8..40]).unwrap();
    assert_eq!(AsRef::<[u8; 32]>::as_ref(&s), s.as_bytes());
    assert!(Seed256::try_from(&bytes[..0]).is_err());
    assert_eq!(Seed256::from_bytes([5u8; 32]).as_bytes(), &[5u8; 32]);
}

#[test]
fn defaults_are_zero() {
    assert_eq!(Hash128::default(), Hash128([0u8; 16]));
    assert_eq!(Hash256::default(), Hash256([0u8; 32]));
}

#[test]
fn error_messages() {
    assert_eq!(LustroError::Success.message(), "ok");
    assert_eq!(LustroError::InvalidLength.message(), "invalid input length");
    assert_eq!(LustroError::InvalidPointer.message(), "invalid pointer");
    assert_eq!(LustroError::OutputTooSmall.message(), "output buffer too small");
    assert_eq!(LustroError::AlreadyFinalised.message(), "context already finalised");
    assert_eq!(LustroError::VerificationFailed.message(), "verification failed");
    assert_eq!(LustroError::InternalPanic.message(), "internal panic caught at FFI boundary");
}

#[test]
fn as_ref_views_the_bytes() {
    let h1 = Hash128([3u8; 16]);
    assert_eq!(AsRef::<[u8; 16]>::as_ref(&h1), &[3u8; 16]);
    assert_eq!(AsRef::<[u8]>::as_ref(&h1), &[3u8; 16][..]);
    let h2 = Hash256([4u8; 32]);
    assert_eq!(AsRef::<[u8; 32]>::as_ref(&h2), &[4u8; 32]);
    assert_eq!(AsRef::<[u8]>::as_ref(&h2), &[4u8; 32][..]);
    let s = Seed256([6u8; 32]);
    assert_eq!(AsRef::<[u8; 32]>::as_ref(&s), &[6u8; 32]);
    assert_eq!(AsRef::<[u8]>::as_ref(&s), &[6u8; 32][..]);
}
