//! The core transformation: the Initial Diffusion Module (IDM) and the
//! Evolving Representation Dynamics round (ERD) over a 256-bit state held
//! as two 128-bit words.
//!
//! The rotation amounts and the ERD multiplier and Weyl increment are this
//! crate's own definition of the engine. Every digest and stream of the
//! library is determined by them; an engine with other values gives other
//! outputs.
use vstd::prelude::*;

verus! {

/// Multiplier of the ERD round (odd, so multiplication is invertible).
pub const ERD_MUL: u128 = 0x9E3779B97F4A7C15F39CC0605CEDC835u128;

/// Weyl increment of the ERD counter perturbation (odd).
pub const ERD_WEYL: u128 = 0xD1B54A32D192ED03AEF4D2B4A7F2B7D1u128;

/// Left rotation of a 128-bit word by `k` bits, `0 < k < 128`.
pub open spec fn spec_rotl(x: u128, k: u32) -> u128
    recommends
        0 < k < 128,
{
    (x << k) | (x >> ((128 - k) as u32))
}

#[verifier::when_used_as_spec(spec_rotl)]
pub fn rotl(x: u128, k: u32) -> (r: u128)
    requires
        0 < k < 128,
    ensures
        r == spec_rotl(x, k),
{
    (x << k) | (x >> (128 - k))
}

/// The IDM: initial mixing layer of the state.
pub open spec fn spec_idm(s0: u128, s1: u128) -> (u128, u128) {
    let a = s0 ^ spec_rotl(s1, 23);
    let b = s1.wrapping_add(a);
    let a2 = a ^ spec_rotl(b, 67);
    let b2 = b ^ (a2 >> 41u32);
    (a2, b2)
}

/// The ERD round: a state permutation perturbed by a Weyl sequence driven
/// by the step counter.
pub open spec fn spec_erd(s0: u128, s1: u128, step: u64) -> (u128, u128) {
    let w = ERD_WEYL.wrapping_mul((step as u128 + 1) as u128);
    let x0 = s0.wrapping_add(w);
    let x1 = s1 ^ x0.wrapping_mul(ERD_MUL);
    let y0 = x0 ^ spec_rotl(x1, 89);
    let y1 = x1.wrapping_add(spec_rotl(y0, 37));
    (y0, y1)
}

/// One counter-driven engine evaluation: IDM followed by ERD at `step`.
pub open spec fn spec_stream_step(s0: u128, s1: u128, step: u64) -> (u128, u128) {
    let (a, b) = spec_idm(s0, s1);
    spec_erd(a, b, step)
}

/// The stateless engine evaluation: the counter-driven one at step 0.
pub open spec fn spec_evaluate(s0: u128, s1: u128) -> (u128, u128) {
    spec_stream_step(s0, s1, 0)
}

pub fn idm_scalar_ref(s0: u128, s1: u128) -> (r: (u128, u128))
    ensures
        r == spec_idm(s0, s1),
{
    let a = s0 ^ rotl(s1, 23);
    let b = s1.wrapping_add(a);
    let a2 = a ^ rotl(b, 67);
    let b2 = b ^ (a2 >> 41u32);
    (a2, b2)
}

pub fn erd_round_scalar_ref(s0: u128, s1: u128, step: u64) -> (r: (u128, u128))
    ensures
        r == spec_erd(s0, s1, step),
{
    let w = ERD_WEYL.wrapping_mul(step as u128 + 1);
    let x0 = s0.wrapping_add(w);
    let x1 = s1 ^ x0.wrapping_mul(ERD_MUL);
    let y0 = x0 ^ rotl(x1, 89);
    let y1 = x1.wrapping_add(rotl(y0, 37));
    (y0, y1)
}

/// Counter-driven evaluation, called once per output block of a stream.
pub fn stream_step(s0: u128, s1: u128, step: u64) -> (r: (u128, u128))
    ensures
        r == spec_stream_step(s0, s1, step),
{
    let (a, b) = idm_scalar_ref(s0, s1);
    erd_round_scalar_ref(a, b, step)
}

/// Stateless evaluation, used for absorption and branch derivation.
pub fn evaluate_scalar(s0: u128, s1: u128) -> (r: (u128, u128))
    ensures
        r == spec_evaluate(s0, s1),
{
    let (a, b) = idm_scalar_ref(s0, s1);
    erd_round_scalar_ref(a, b, 0)
}

} // verus!
