//! Little-endian integers as the monitor's wire formats store them.

use vstd::prelude::*;

verus! {

/// The unsigned value of two little-endian bytes.
pub open spec fn le_u16(b0: u8, b1: u8) -> int {
    b0 + 256 * b1
}

/// The signed (two's complement) value of two little-endian bytes.
pub open spec fn le_i16(b0: u8, b1: u8) -> int {
    let u = le_u16(b0, b1);
    if u >= 0x8000 {
        u - 0x1_0000
    } else {
        u
    }
}

/// The unsigned value of four little-endian bytes.
pub open spec fn le_u32(b0: u8, b1: u8, b2: u8, b3: u8) -> int {
    b0 + 0x100 * b1 + 0x1_0000 * b2 + 0x100_0000 * b3
}

/// The signed (two's complement) value of four little-endian bytes.
pub open spec fn le_i32(b0: u8, b1: u8, b2: u8, b3: u8) -> int {
    let u = le_u32(b0, b1, b2, b3);
    if u >= 0x8000_0000 {
        u - 0x1_0000_0000
    } else {
        u
    }
}

/// The unsigned little-endian value of the two bytes of `s` at `off`.
pub open spec fn u16_at(s: Seq<u8>, off: int) -> int {
    le_u16(s[off], s[off + 1])
}

/// The unsigned little-endian value of the four bytes of `s` at `off`.
pub open spec fn u32_at(s: Seq<u8>, off: int) -> int {
    le_u32(s[off], s[off + 1], s[off + 2], s[off + 3])
}

/// The unsigned little-endian value of the eight bytes of `s` at `off`.
pub open spec fn u64_at(s: Seq<u8>, off: int) -> int {
    u32_at(s, off) + 0x1_0000_0000 * u32_at(s, off + 4)
}

/// The two little-endian bytes of `v` (what `i16::to_le_bytes` gives).
pub open spec fn i16_le_bytes(v: i16) -> Seq<u8> {
    let u: int = if v < 0 {
        v + 0x1_0000
    } else {
        v as int
    };
    seq![(u % 256) as u8, (u / 256) as u8]
}

/// The value of `n` truncated to 16 bits and read as signed (what `n as i16`
/// gives for an unsigned `n`).
pub open spec fn wrap_i16(n: int) -> int {
    let m = n % 0x1_0000;
    if m >= 0x8000 {
        m - 0x1_0000
    } else {
        m
    }
}

/// Decodes a little-endian `i16` (as `i16::from_le_bytes`).
pub fn i16_from_le(b0: u8, b1: u8) -> (v: i16)
    ensures
        v == le_i16(b0, b1),
{
    let u: u32 = b0 as u32 + (b1 as u32) * 256;
    if u >= 0x8000 {
        (u as i32 - 0x1_0000) as i16
    } else {
        u as i16
    }
}

/// Decodes a little-endian `u32` (as `u32::from_le_bytes`).
pub fn u32_from_le(b0: u8, b1: u8, b2: u8, b3: u8) -> (v: u32)
    ensures
        v == le_u32(b0, b1, b2, b3),
{
    b0 as u32 + (b1 as u32) * 0x100 + (b2 as u32) * 0x1_0000 + (b3 as u32) * 0x100_0000
}

/// Decodes a little-endian `i32` (as `i32::from_le_bytes`).
pub fn i32_from_le(b0: u8, b1: u8, b2: u8, b3: u8) -> (v: i32)
    ensures
        v == le_i32(b0, b1, b2, b3),
{
    let u = u32_from_le(b0, b1, b2, b3);
    if u >= 0x8000_0000 {
        (u as i64 - 0x1_0000_0000) as i32
    } else {
        u as i32
    }
}

/// Reads the little-endian `u32` at `off` in `s`.
pub fn read_u32_at(s: &[u8], off: usize) -> (v: u32)
    requires
        off + 4 <= s@.len(),
    ensures
        v == u32_at(s@, off as int),
{
    u32_from_le(s[off], s[off + 1], s[off + 2], s[off + 3])
}

/// Reads the little-endian `u64` at `off` in `s`.
pub fn read_u64_at(s: &[u8], off: usize) -> (v: u64)
    requires
        off + 8 <= s@.len(),
    ensures
        v == u64_at(s@, off as int),
{
    let _len = s.len();
    let lo = read_u32_at(s, off) as u64;
    let hi = read_u32_at(s, off + 4) as u64;
    lo + hi * 0x1_0000_0000
}

/// Appends the little-endian bytes of `v` to `out` (as `i16::to_le_bytes`).
pub fn push_i16_le(out: &mut Vec<u8>, v: i16)
    ensures
        final(out)@ == old(out)@ + i16_le_bytes(v),
{
    let u: u32 = if v < 0 {
        (v as i32 + 0x1_0000) as u32
    } else {
        v as u32
    };
    out.push((u % 256) as u8);
    out.push((u / 256) as u8);
    assert(final(out)@ =~= old(out)@ + i16_le_bytes(v));
}

/// Appends `bytes` to `out`.
pub fn push_bytes(out: &mut Vec<u8>, bytes: &[u8])
    ensures
        final(out)@ == old(out)@ + bytes@,
{
    let ghost start = out@;
    let mut i: usize = 0;
    while i < bytes.len()
        invariant
            0 <= i <= bytes@.len(),
            out@ == start + bytes@.take(i as int),
        decreases bytes@.len() - i,
    {
        out.push(bytes[i]);
        i = i + 1;
        assert(out@ =~= start + bytes@.take(i as int));
    }
    assert(bytes@.take(i as int) =~= bytes@);
}

/// Encoding an `i16` and decoding the two bytes gives the value back.
pub proof fn lemma_i16_roundtrip(v: i16)
    ensures
        i16_le_bytes(v).len() == 2,
        le_i16(i16_le_bytes(v)[0], i16_le_bytes(v)[1]) == v,
{
}

/// Copies the `N` bytes of `s` at `off` into an array.
pub fn copy_array<const N: usize>(s: &[u8], off: usize) -> (a: [u8; N])
    requires
        off + N <= s@.len(),
    ensures
        a@ == s@.subrange(off as int, off + N),
{
    let mut a: [u8; N] = vstd::array::array_fill_for_copy_types::<u8, N>(0);
    let len = s.len();
    let mut k: usize = 0;
    while k < N
        invariant
            len == s@.len(),
            off + N <= s@.len(),
            0 <= k <= N,
            a@.len() == N,
            forall|j: int| 0 <= j < k ==> a@[j] == s@[off + j],
        decreases N - k,
    {
        a[k] = s[off + k];
        k = k + 1;
    }
    assert(a@ =~= s@.subrange(off as int, off + N));
    a
}

} // verus!
