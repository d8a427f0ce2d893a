//! Little-endian encoding of 64- and 128-bit words.
use vstd::prelude::*;

verus! {

/// The 16 little-endian bytes of `x`.
pub open spec fn le16(x: u128) -> Seq<u8> {
    seq![
        x as u8, (x >> 8u32) as u8, (x >> 16u32) as u8, (x >> 24u32) as u8,
        (x >> 32u32) as u8, (x >> 40u32) as u8, (x >> 48u32) as u8, (x >> 56u32) as u8,
        (x >> 64u32) as u8, (x >> 72u32) as u8, (x >> 80u32) as u8, (x >> 88u32) as u8,
        (x >> 96u32) as u8, (x >> 104u32) as u8, (x >> 112u32) as u8, (x >> 120u32) as u8,
    ]
}

/// The 128-bit word whose little-endian bytes are `s[0..16]`.
pub open spec fn from_le16(s: Seq<u8>) -> u128 {
    (s[0] as u128) | ((s[1] as u128) << 8u32) | ((s[2] as u128) << 16u32)
        | ((s[3] as u128) << 24u32) | ((s[4] as u128) << 32u32) | ((s[5] as u128) << 40u32)
        | ((s[6] as u128) << 48u32) | ((s[7] as u128) << 56u32) | ((s[8] as u128) << 64u32)
        | ((s[9] as u128) << 72u32) | ((s[10] as u128) << 80u32) | ((s[11] as u128) << 88u32)
        | ((s[12] as u128) << 96u32) | ((s[13] as u128) << 104u32) | ((s[14] as u128) << 112u32)
        | ((s[15] as u128) << 120u32)
}

/// The 8 little-endian bytes of `x`.
pub open spec fn le8(x: u64) -> Seq<u8> {
    seq![
        x as u8, (x >> 8u32) as u8, (x >> 16u32) as u8, (x >> 24u32) as u8,
        (x >> 32u32) as u8, (x >> 40u32) as u8, (x >> 48u32) as u8, (x >> 56u32) as u8,
    ]
}

/// The 64-bit word whose little-endian bytes are `s[0..8]`.
pub open spec fn from_le8(s: Seq<u8>) -> u64 {
    (s[0] as u64) | ((s[1] as u64) << 8u32) | ((s[2] as u64) << 16u32)
        | ((s[3] as u64) << 24u32) | ((s[4] as u64) << 32u32) | ((s[5] as u64) << 40u32)
        | ((s[6] as u64) << 48u32) | ((s[7] as u64) << 56u32)
}

/// The 32-bit word whose little-endian bytes are `s[0..4]`.
pub open spec fn from_le4(s: Seq<u8>) -> u32 {
    (s[0] as u32) | ((s[1] as u32) << 8u32) | ((s[2] as u32) << 16u32) | ((s[3] as u32) << 24u32)
}

proof fn lemma_le8_sum(b0: u8, b1: u8, b2: u8, b3: u8, b4: u8, b5: u8, b6: u8, b7: u8)
    by (bit_vector)
    ensures
        ((b0 as u64) | ((b1 as u64) << 8u32) | ((b2 as u64) << 16u32) | ((b3 as u64) << 24u32)
            | ((b4 as u64) << 32u32) | ((b5 as u64) << 40u32) | ((b6 as u64) << 48u32) | ((b7
            as u64) << 56u32)) == b0 + 0x100 * b1 + 0x1_0000 * b2 + 0x100_0000 * b3
            + 0x1_0000_0000 * b4 + 0x100_0000_0000 * b5 + 0x1_0000_0000_0000 * b6
            + 0x100_0000_0000_0000 * b7,
{
}

/// Little-endian reading: byte `j` of `s[0..8]` carries weight `256^j`.
pub proof fn lemma_from_le8_value(s: Seq<u8>)
    requires
        s.len() == 8,
    ensures
        from_le8(s) == s[0] + 0x100 * s[1] + 0x1_0000 * s[2] + 0x100_0000 * s[3]
            + 0x1_0000_0000 * s[4] + 0x100_0000_0000 * s[5] + 0x1_0000_0000_0000 * s[6]
            + 0x100_0000_0000_0000 * s[7],
{
    lemma_le8_sum(s[0], s[1], s[2], s[3], s[4], s[5], s[6], s[7]);
}

proof fn lemma_le16_halves(
    b0: u8, b1: u8, b2: u8, b3: u8, b4: u8, b5: u8, b6: u8, b7: u8,
    b8: u8, b9: u8, b10: u8, b11: u8, b12: u8, b13: u8, b14: u8, b15: u8,
)
    by (bit_vector)
    ensures
        ((b0 as u128) | ((b1 as u128) << 8u32) | ((b2 as u128) << 16u32) | ((b3 as u128) << 24u32)
            | ((b4 as u128) << 32u32) | ((b5 as u128) << 40u32) | ((b6 as u128) << 48u32) | ((b7
            as u128) << 56u32) | ((b8 as u128) << 64u32) | ((b9 as u128) << 72u32) | ((b10
            as u128) << 80u32) | ((b11 as u128) << 88u32) | ((b12 as u128) << 96u32) | ((b13
            as u128) << 104u32) | ((b14 as u128) << 112u32) | ((b15 as u128) << 120u32))
            == (((b0 as u64) | ((b1 as u64) << 8u32) | ((b2 as u64) << 16u32) | ((b3 as u64)
            << 24u32) | ((b4 as u64) << 32u32) | ((b5 as u64) << 40u32) | ((b6 as u64) << 48u32)
            | ((b7 as u64) << 56u32)) as u128) + 0x1_0000_0000_0000_0000 * (((b8 as u64) | ((b9
            as u64) << 8u32) | ((b10 as u64) << 16u32) | ((b11 as u64) << 24u32) | ((b12 as u64)
            << 32u32) | ((b13 as u64) << 40u32) | ((b14 as u64) << 48u32) | ((b15 as u64)
            << 56u32)) as u128),
{
}

/// Little-endian reading of 16 bytes: the first 8 bytes are the low
/// 64-bit half, the last 8 the high half.
pub proof fn lemma_from_le16_value(s: Seq<u8>)
    requires
        s.len() == 16,
    ensures
        from_le16(s) == from_le8(s.subrange(0, 8)) + 0x1_0000_0000_0000_0000 * from_le8(
            s.subrange(8, 16),
        ),
{
    let lo = s.subrange(0, 8);
    let hi = s.subrange(8, 16);
    assert(lo[0] == s[0] && lo[1] == s[1] && lo[2] == s[2] && lo[3] == s[3] && lo[4] == s[4]
        && lo[5] == s[5] && lo[6] == s[6] && lo[7] == s[7]);
    assert(hi[0] == s[8] && hi[1] == s[9] && hi[2] == s[10] && hi[3] == s[11] && hi[4] == s[12]
        && hi[5] == s[13] && hi[6] == s[14] && hi[7] == s[15]);
    lemma_le16_halves(
        s[0], s[1], s[2], s[3], s[4], s[5], s[6], s[7],
        s[8], s[9], s[10], s[11], s[12], s[13], s[14], s[15],
    );
}

proof fn lemma_le16_bytes_injective(b0: u8, b1: u8, b2: u8, b3: u8, b4: u8, b5: u8, b6: u8, b7: u8, b8: u8, b9: u8, b10: u8, b11: u8, b12: u8, b13: u8, b14: u8, b15: u8, c0: u8, c1: u8, c2: u8, c3: u8, c4: u8, c5: u8, c6: u8, c7: u8, c8: u8, c9: u8, c10: u8, c11: u8, c12: u8, c13: u8, c14: u8, c15: u8)
    by (bit_vector)
    requires
        (b0 as u128) | ((b1 as u128) << 8u32) | ((b2 as u128) << 16u32) | ((b3 as u128) << 24u32) | ((b4 as u128) << 32u32) | ((b5 as u128) << 40u32) | ((b6 as u128) << 48u32) | ((b7 as u128) << 56u32) | ((b8 as u128) << 64u32) | ((b9 as u128) << 72u32) | ((b10 as u128) << 80u32) | ((b11 as u128) << 88u32) | ((b12 as u128) << 96u32) | ((b13 as u128) << 104u32) | ((b14 as u128) << 112u32) | ((b15 as u128) << 120u32) == (c0 as u128) | ((c1 as u128) << 8u32) | ((c2 as u128) << 16u32) | ((c3 as u128) << 24u32) | ((c4 as u128) << 32u32) | ((c5 as u128) << 40u32) | ((c6 as u128) << 48u32) | ((c7 as u128) << 56u32) | ((c8 as u128) << 64u32) | ((c9 as u128) << 72u32) | ((c10 as u128) << 80u32) | ((c11 as u128) << 88u32) | ((c12 as u128) << 96u32) | ((c13 as u128) << 104u32) | ((c14 as u128) << 112u32) | ((c15 as u128) << 120u32),
    ensures
        b0 == c0 && b1 == c1 && b2 == c2 && b3 == c3 && b4 == c4 && b5 == c5 && b6 == c6 && b7 == c7 && b8 == c8 && b9 == c9 && b10 == c10 && b11 == c11 && b12 == c12 && b13 == c13 && b14 == c14 && b15 == c15,
{
}

/// Distinct 16-byte sequences are read as distinct words.
pub proof fn lemma_from_le16_injective(s: Seq<u8>, t: Seq<u8>)
    requires
        s.len() == 16,
        t.len() == 16,
        from_le16(s) == from_le16(t),
    ensures
        s == t,
{
    lemma_le16_bytes_injective(
        s[0], s[1], s[2], s[3], s[4], s[5], s[6], s[7], s[8], s[9], s[10], s[11], s[12], s[13], s[14], s[15],
        t[0], t[1], t[2], t[3], t[4], t[5], t[6], t[7], t[8], t[9], t[10], t[11], t[12], t[13], t[14], t[15],
    );
    assert(s =~= t);
}

pub proof fn lemma_from_le16_le16(x: u128)
    ensures
        from_le16(le16(x)) == x,
{
    let s = le16(x);
    assert(s[0] == x as u8);
    assert(s[1] == (x >> 8u32) as u8);
    assert(s[15] == (x >> 120u32) as u8);
    assert(x == (((x as u8) as u128) | ((((x >> 8u32) as u8) as u128) << 8u32) | ((((x
        >> 16u32) as u8) as u128) << 16u32) | ((((x >> 24u32) as u8) as u128) << 24u32) | ((((x
        >> 32u32) as u8) as u128) << 32u32) | ((((x >> 40u32) as u8) as u128) << 40u32) | ((((x
        >> 48u32) as u8) as u128) << 48u32) | ((((x >> 56u32) as u8) as u128) << 56u32) | ((((x
        >> 64u32) as u8) as u128) << 64u32) | ((((x >> 72u32) as u8) as u128) << 72u32) | ((((x
        >> 80u32) as u8) as u128) << 80u32) | ((((x >> 88u32) as u8) as u128) << 88u32) | ((((x
        >> 96u32) as u8) as u128) << 96u32) | ((((x >> 104u32) as u8) as u128) << 104u32) | ((((x
        >> 112u32) as u8) as u128) << 112u32) | ((((x >> 120u32) as u8) as u128) << 120u32)))
        by (bit_vector);
}

pub proof fn lemma_from_le8_le8(x: u64)
    ensures
        from_le8(le8(x)) == x,
{
    let s = le8(x);
    assert(s[0] == x as u8);
    assert(s[1] == (x >> 8u32) as u8);
    assert(s[2] == (x >> 16u32) as u8);
    assert(s[3] == (x >> 24u32) as u8);
    assert(s[4] == (x >> 32u32) as u8);
    assert(s[5] == (x >> 40u32) as u8);
    assert(s[6] == (x >> 48u32) as u8);
    assert(s[7] == (x >> 56u32) as u8);
    assert(x == (((x as u8) as u64) | ((((x >> 8u32) as u8) as u64) << 8u32) | ((((x >> 16u32) as u8) as u64) << 16u32) | ((((x >> 24u32) as u8) as u64) << 24u32) | ((((x >> 32u32) as u8) as u64) << 32u32) | ((((x >> 40u32) as u8) as u64) << 40u32) | ((((x >> 48u32) as u8) as u64) << 48u32) | ((((x >> 56u32) as u8) as u64) << 56u32))) by (bit_vector);
}

/// The little-endian bytes of a 128-bit word.
pub fn u128_to_le(x: u128) -> (r: [u8; 16])
    ensures
        r@ == le16(x),
{
    let r = [x as u8, (x >> 8u32) as u8, (x >> 16u32) as u8, (x >> 24u32) as u8, (x >> 32u32) as u8, (x >> 40u32) as u8, (x >> 48u32) as u8, (x >> 56u32) as u8, (x >> 64u32) as u8, (x >> 72u32) as u8, (x >> 80u32) as u8, (x >> 88u32) as u8, (x >> 96u32) as u8, (x >> 104u32) as u8, (x >> 112u32) as u8, (x >> 120u32) as u8];
    assert(r@ =~= le16(x));
    r
}

/// The little-endian bytes of a 64-bit word.
pub fn u64_to_le(x: u64) -> (r: [u8; 8])
    ensures
        r@ == le8(x),
{
    let r = [x as u8, (x >> 8u32) as u8, (x >> 16u32) as u8, (x >> 24u32) as u8, (x >> 32u32) as u8, (x >> 40u32) as u8, (x >> 48u32) as u8, (x >> 56u32) as u8];
    assert(r@ =~= le8(x));
    r
}

/// Reads the 128-bit word stored little-endian at `b[off..off + 16]`.
pub fn u128_from_le_at(b: &[u8], off: usize) -> (r: u128)
    requires
        off + 16 <= b@.len(),
    ensures
        r == from_le16(b@.subrange(off as int, off + 16)),
{
    let ghost s = b@.subrange(off as int, off + 16);
    assert(s[0] == b@[off + 0]);assert(s[1] == b@[off + 1]);assert(s[2] == b@[off + 2]);assert(s[3] == b@[off + 3]);assert(s[4] == b@[off + 4]);assert(s[5] == b@[off + 5]);assert(s[6] == b@[off + 6]);assert(s[7] == b@[off + 7]);assert(s[8] == b@[off + 8]);assert(s[9] == b@[off + 9]);assert(s[10] == b@[off + 10]);assert(s[11] == b@[off + 11]);assert(s[12] == b@[off + 12]);assert(s[13] == b@[off + 13]);assert(s[14] == b@[off + 14]);assert(s[15] == b@[off + 15]);
    (b[off] as u128)
        | ((b[off + 1] as u128) << 8u32)
        | ((b[off + 2] as u128) << 16u32)
        | ((b[off + 3] as u128) << 24u32)
        | ((b[off + 4] as u128) << 32u32)
        | ((b[off + 5] as u128) << 40u32)
        | ((b[off + 6] as u128) << 48u32)
        | ((b[off + 7] as u128) << 56u32)
        | ((b[off + 8] as u128) << 64u32)
        | ((b[off + 9] as u128) << 72u32)
        | ((b[off + 10] as u128) << 80u32)
        | ((b[off + 11] as u128) << 88u32)
        | ((b[off + 12] as u128) << 96u32)
        | ((b[off + 13] as u128) << 104u32)
        | ((b[off + 14] as u128) << 112u32)
        | ((b[off + 15] as u128) << 120u32)
}

/// Reads the 64-bit word stored little-endian at `b[off..off + 8]`.
/// Reads the 32-bit little-endian word at `b[off..off + 4]`.
pub fn u32_from_le_at(b: &[u8], off: usize) -> (r: u32)
    requires
        off + 4 <= b@.len(),
    ensures
        r == from_le4(b@.subrange(off as int, off + 4)),
{
    let ghost s = b@.subrange(off as int, off + 4);
    assert(s[0] == b@[off + 0] && s[1] == b@[off + 1] && s[2] == b@[off + 2] && s[3] == b@[off + 3]);
    (b[off] as u32) | ((b[off + 1] as u32) << 8u32) | ((b[off + 2] as u32) << 16u32) | ((b[off
        + 3] as u32) << 24u32)
}

pub fn u64_from_le_at(b: &[u8], off: usize) -> (r: u64)
    requires
        off + 8 <= b@.len(),
    ensures
        r == from_le8(b@.subrange(off as int, off + 8)),
{
    let ghost s = b@.subrange(off as int, off + 8);
    assert(s[0] == b@[off + 0]);assert(s[1] == b@[off + 1]);assert(s[2] == b@[off + 2]);assert(s[3] == b@[off + 3]);assert(s[4] == b@[off + 4]);assert(s[5] == b@[off + 5]);assert(s[6] == b@[off + 6]);assert(s[7] == b@[off + 7]);
    (b[off] as u64)
        | ((b[off + 1] as u64) << 8u32)
        | ((b[off + 2] as u64) << 16u32)
        | ((b[off + 3] as u64) << 24u32)
        | ((b[off + 4] as u64) << 32u32)
        | ((b[off + 5] as u64) << 40u32)
        | ((b[off + 6] as u64) << 48u32)
        | ((b[off + 7] as u64) << 56u32)
}

/// Copies `src` into `out` at offset `at`.
pub fn write_at(out: &mut [u8], at: usize, src: &[u8])
    requires
        at + src@.len() <= old(out)@.len(),
    ensures
        final(out)@ == old(out)@.subrange(0, at as int) + src@ + old(out)@.subrange(
            at + src@.len(),
            old(out)@.len() as int,
        ),
{
    let n = src.len();
    let olen = out.len();
    let mut k: usize = 0;
    while k < n
        invariant
            n == src@.len(),
            olen == out@.len(),
            olen == old(out)@.len(),
            at + n <= olen,
            k <= n,
            forall|i: int| 0 <= i < at ==> #[trigger] out@[i] == old(out)@[i],
            forall|i: int| at + n <= i < olen ==> #[trigger] out@[i] == old(out)@[i],
            forall|i: int| at <= i < at + k ==> #[trigger] out@[i] == src@[i - at],
        decreases n - k,
    {
        out[at + k] = src[k];
        k = k + 1;
    }
    assert(out@ =~= old(out)@.subrange(0, at as int) + src@ + old(out)@.subrange(
        at + src@.len(),
        old(out)@.len() as int,
    ));
}

/// Appends `src` to `out`.
pub fn append_bytes(out: &mut Vec<u8>, src: &[u8])
    ensures
        final(out)@ == old(out)@ + src@,
{
    let n = src.len();
    let mut k: usize = 0;
    while k < n
        invariant
            n == src@.len(),
            k <= n,
            out@ == old(out)@ + src@.subrange(0, k as int),
        decreases n - k,
    {
        out.push(src[k]);
        k = k + 1;
        assert(out@ =~= old(out)@ + src@.subrange(0, k as int));
    }
    assert(src@.subrange(0, n as int) =~= src@);
}

} // verus!
