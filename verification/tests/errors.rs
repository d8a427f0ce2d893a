use lustro::errors::{block_fill_blocks, fixed_batch_sizes, var_batch_size, LustroError};

#[test]
fn test_abi_discriminants() {
    assert_eq!(LustroError::Success as i32, 0);
    assert_eq!(LustroError::InvalidLength as i32, 1);
    assert_eq!(LustroError::InvalidPointer as i32, 2);
    assert_eq!(LustroError::OutputTooSmall as i32, 3);
    assert_eq!(LustroError::AlreadyFinalised as i32, 4);
    assert_eq!(LustroError::VerificationFailed as i32, 5);
    assert_eq!(LustroError::InternalPanic as i32, 6);
}

#[test]
fn status_codes_match_discriminants() {
    let all = [
        LustroError::Success,
        LustroError::InvalidLength,
        LustroError::InvalidPointer,
        LustroError::OutputTooSmall,
        LustroError::AlreadyFinalised,
        LustroError::VerificationFailed,
        LustroError::InternalPanic,
    ];
    for e in all.iter() {
        assert_eq!(e.code(), *e as i32);
    }
}

#[test]
fn fixed_batch_checks() {
    assert_eq!(fixed_batch_sizes(4, 3, 32, false, false), Ok((12, 128)));
    assert_eq!(fixed_batch_sizes(0, 3, 32, true, true), Ok((0, 0)));
    assert_eq!(fixed_batch_sizes(4, 0, 16, true, false), Ok((0, 64)));
    // Overflow is reported before a null pointer.
    assert_eq!(fixed_batch_sizes(usize::MAX, 2, 32, true, true), Err(LustroError::InvalidLength));
    assert_eq!(fixed_batch_sizes(usize::MAX / 2, 1, 32, true, true), Err(LustroError::InvalidLength));
    assert_eq!(fixed_batch_sizes(4, 3, 32, true, true), Err(LustroError::InvalidPointer));
    assert_eq!(fixed_batch_sizes(4, 3, 32, false, true), Err(LustroError::InvalidPointer));
}

#[test]
fn var_batch_checks() {
    assert_eq!(var_batch_size(0, 32, true, true, true), Ok(0));
    assert_eq!(var_batch_size(3, 32, false, false, false), Ok(96));
    assert_eq!(var_batch_size(3, 16, true, false, false), Err(LustroError::InvalidPointer));
    assert_eq!(var_batch_size(usize::MAX, 32, false, false, true), Err(LustroError::InvalidLength));
    assert_eq!(var_batch_size(3, 32, false, false, true), Err(LustroError::InvalidPointer));
}

#[test]
fn block_fill_checks() {
    assert_eq!(block_fill_blocks(4, 1, 128, false), Ok(4));
    assert_eq!(block_fill_blocks(4, 3, 384, false), Ok(12));
    assert_eq!(block_fill_blocks(4, 3, 383, false), Err(LustroError::InvalidLength));
    assert_eq!(block_fill_blocks(0, 3, 0, true), Ok(0));
    assert_eq!(block_fill_blocks(4, 0, 0, true), Ok(0));
    assert_eq!(block_fill_blocks(0, 3, 32, true), Err(LustroError::InvalidLength));
    assert_eq!(block_fill_blocks(4, 1, 128, true), Err(LustroError::InvalidPointer));
    assert_eq!(block_fill_blocks(usize::MAX, 2, 0, false), Err(LustroError::InvalidLength));
    assert_eq!(block_fill_blocks(usize::MAX / 16, 1, 0, false), Err(LustroError::InvalidLength));
}
