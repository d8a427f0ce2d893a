//! Status codes of the C interface.
use vstd::prelude::*;

verus! {

/// Status codes returned across the C interface. The discriminants,
/// taken in declaration order, are 0 through 6.
#[derive(Debug, Clone, Copy, PartialEq, Eq, Structural)]
pub enum LustroError {
    Success,
    InvalidLength,
    InvalidPointer,
    OutputTooSmall,
    AlreadyFinalised,
    VerificationFailed,
    InternalPanic,
}

impl LustroError {
    /// The numeric status code carried across the C interface.
    pub open spec fn spec_code(self) -> i32 {
        match self {
            LustroError::Success => 0,
            LustroError::InvalidLength => 1,
            LustroError::InvalidPointer => 2,
            LustroError::OutputTooSmall => 3,
            LustroError::AlreadyFinalised => 4,
            LustroError::VerificationFailed => 5,
            LustroError::InternalPanic => 6,
        }
    }

    pub fn code(&self) -> (c: i32)
        ensures
            c == self.spec_code(),
    {
        match self {
            LustroError::Success => 0,
            LustroError::InvalidLength => 1,
            LustroError::InvalidPointer => 2,
            LustroError::OutputTooSmall => 3,
            LustroError::AlreadyFinalised => 4,
            LustroError::VerificationFailed => 5,
            LustroError::InternalPanic => 6,
        }
    }

    /// The human-readable description of the status.
    pub open spec fn spec_message(self) -> Seq<char> {
        match self {
            LustroError::Success => "ok"@,
            LustroError::InvalidLength => "invalid input length"@,
            LustroError::InvalidPointer => "invalid pointer"@,
            LustroError::OutputTooSmall => "output buffer too small"@,
            LustroError::AlreadyFinalised => "context already finalised"@,
            LustroError::VerificationFailed => "verification failed"@,
            LustroError::InternalPanic => "internal panic caught at FFI boundary"@,
        }
    }

    pub fn message(&self) -> (r: &'static str)
        ensures
            r@ == self.spec_message(),
    {
        match self {
            LustroError::Success => "ok",
            LustroError::InvalidLength => "invalid input length",
            LustroError::InvalidPointer => "invalid pointer",
            LustroError::OutputTooSmall => "output buffer too small",
            LustroError::AlreadyFinalised => "context already finalised",
            LustroError::VerificationFailed => "verification failed",
            LustroError::InternalPanic => "internal panic caught at FFI boundary",
        }
    }
}

/// The outcome of the argument checks of a batch hash call over `n`
/// messages of `message_len` bytes each, laid out back to back, with
/// digests of `width` bytes: the input and output sizes, checked for
/// overflow first, then the data and output pointers, which may be null
/// only where their size is 0.
pub open spec fn fixed_batch_check(
    n: nat,
    message_len: nat,
    width: nat,
    data_null: bool,
    out_null: bool,
) -> Result<(usize, usize), LustroError> {
    let total_in = n * message_len;
    let total_out = n * width;
    if total_in > usize::MAX || total_out > usize::MAX {
        Err(LustroError::InvalidLength)
    } else if data_null && total_in > 0 {
        Err(LustroError::InvalidPointer)
    } else if out_null && total_out > 0 {
        Err(LustroError::InvalidPointer)
    } else {
        Ok((total_in as usize, total_out as usize))
    }
}

/// The outcome of the argument checks of a batch hash call over `n`
/// messages given by a pointer array and a length array, with digests of
/// `width` bytes: an empty batch passes; otherwise both arrays must be
/// present, the output size must not overflow, and the output pointer may
/// be null only where that size is 0.
pub open spec fn var_batch_check(
    n: nat,
    width: nat,
    ptrs_null: bool,
    lens_null: bool,
    out_null: bool,
) -> Result<usize, LustroError> {
    if n == 0 {
        Ok(0usize)
    } else if ptrs_null || lens_null {
        Err(LustroError::InvalidPointer)
    } else if n * width > usize::MAX {
        Err(LustroError::InvalidLength)
    } else if out_null && n * width > 0 {
        Err(LustroError::InvalidPointer)
    } else {
        Ok((n * width) as usize)
    }
}

/// Checks the arguments of a batch hash call over fixed-length messages;
/// on success gives the input and output sizes in bytes.
pub fn fixed_batch_sizes(
    n: usize,
    message_len: usize,
    width: usize,
    data_null: bool,
    out_null: bool,
) -> (r: Result<(usize, usize), LustroError>)
    ensures
        r == fixed_batch_check(n as nat, message_len as nat, width as nat, data_null, out_null),
{
    let total_in = match n.checked_mul(message_len) {
        Some(v) => v,
        None => return Err(LustroError::InvalidLength),
    };
    let total_out = match n.checked_mul(width) {
        Some(v) => v,
        None => return Err(LustroError::InvalidLength),
    };
    if data_null && total_in > 0 {
        return Err(LustroError::InvalidPointer);
    }
    if out_null && total_out > 0 {
        return Err(LustroError::InvalidPointer);
    }
    Ok((total_in, total_out))
}

/// Checks the arguments of a batch hash call over variable-length
/// messages; on success gives the output size in bytes. Each message's own
/// pointer is checked by the caller as it is read.
pub fn var_batch_size(
    n: usize,
    width: usize,
    ptrs_null: bool,
    lens_null: bool,
    out_null: bool,
) -> (r: Result<usize, LustroError>)
    ensures
        r == var_batch_check(n as nat, width as nat, ptrs_null, lens_null, out_null),
{
    if n == 0 {
        return Ok(0);
    }
    if ptrs_null || lens_null {
        return Err(LustroError::InvalidPointer);
    }
    let total_out = match n.checked_mul(width) {
        Some(v) => v,
        None => return Err(LustroError::InvalidLength),
    };
    if out_null && total_out > 0 {
        return Err(LustroError::InvalidPointer);
    }
    Ok(total_out)
}

/// The outcome of the argument checks of a block fill over `lanes`
/// streams and `steps` rounds into an output of `out_len` bytes: the
/// expected size `lanes * steps * 32` must not overflow and must equal
/// `out_len`; an empty fill then passes whatever the pointer; otherwise
/// the output pointer must be present. On success, the number of blocks to
/// write.
pub open spec fn block_fill_check(lanes: nat, steps: nat, out_len: nat, out_null: bool) -> Result<
    usize,
    LustroError,
> {
    let expected = lanes * steps * 32;
    if expected > usize::MAX || out_len != expected {
        Err(LustroError::InvalidLength)
    } else if lanes == 0 || steps == 0 {
        Ok(0usize)
    } else if out_null {
        Err(LustroError::InvalidPointer)
    } else {
        Ok((lanes * steps) as usize)
    }
}

/// Checks the arguments of a block fill over `lanes` streams and `steps`
/// rounds into `out_len` bytes; on success gives the number of blocks to
/// write (0 for an empty fill, which writes nothing).
pub fn block_fill_blocks(lanes: usize, steps: usize, out_len: usize, out_null: bool) -> (r: Result<
    usize,
    LustroError,
>)
    ensures
        r == block_fill_check(lanes as nat, steps as nat, out_len as nat, out_null),
{
    let blocks = match lanes.checked_mul(steps) {
        Some(v) => v,
        None => {
            proof {
                assert(lanes * steps * 32 >= lanes * steps) by (nonlinear_arith)
                    requires
                        lanes * steps >= 0,
                ;
            }
            return Err(LustroError::InvalidLength);
        },
    };
    let expected = match blocks.checked_mul(32) {
        Some(v) => v,
        None => return Err(LustroError::InvalidLength),
    };
    if out_len != expected {
        return Err(LustroError::InvalidLength);
    }
    if lanes == 0 || steps == 0 {
        return Ok(0);
    }
    if out_null {
        return Err(LustroError::InvalidPointer);
    }
    Ok(blocks)
}

} // verus!
