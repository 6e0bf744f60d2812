//! Reading little-endian numbers and fixed-size fields out of byte buffers.

use vstd::prelude::*;

verus! {

/// The 16-bit number stored in `s` at `at`, low byte first.
pub open spec fn le_u16(s: Seq<u8>, at: int) -> u16 {
    (s[at] as int + 256 * (s[at + 1] as int)) as u16
}

/// The 32-bit number stored in `s` at `at`, low byte first.
pub open spec fn le_u32(s: Seq<u8>, at: int) -> u32 {
    (s[at] as int + 256 * (s[at + 1] as int) + 65536 * (s[at + 2] as int) + 16777216 * (s[at
        + 3] as int)) as u32
}

/// Reads the 16-bit number stored in `b` at `at`.
pub fn read_u16(b: &[u8], at: usize) -> (v: u16)
    requires
        at + 2 <= b.len(),
    ensures
        v == le_u16(b@, at as int),
{
    b[at] as u16 + (b[at + 1] as u16) * 256
}

/// Reads the 32-bit number stored in `b` at `at`.
pub fn read_u32(b: &[u8], at: usize) -> (v: u32)
    requires
        at + 4 <= b.len(),
    ensures
        v == le_u32(b@, at as int),
{
    b[at] as u32 + (b[at + 1] as u32) * 256 + (b[at + 2] as u32) * 65536 + (b[at + 3] as u32)
        * 16777216
}

/// Fills `dst` with the `N` bytes of `src` that start at `at`.
pub fn read_bytes<const N: usize>(dst: &mut [u8; N], src: &[u8], at: usize)
    requires
        at + N <= src.len(),
    ensures
        final(dst)@ == src@.subrange(at as int, at + N),
{
    let mut i: usize = 0;
    while i < N
        invariant
            0 <= i <= N,
            at + N <= src.len(),
            forall|j: int| 0 <= j < i ==> dst@[j] == src@[at + j],
        decreases N - i,
    {
        dst[i] = src[at + i];
        i += 1;
    }
    assert(dst@ =~= src@.subrange(at as int, at + N));
}

/// Writes the bytes of `src` over those of `dst` that start at `at`.
pub fn write_bytes(dst: &mut [u8], at: usize, src: &[u8])
    requires
        at + src.len() <= old(dst).len(),
    ensures
        final(dst)@ == old(dst)@.subrange(0, at as int) + src@ + old(dst)@.subrange(
            at + src.len(),
            old(dst).len() as int,
        ),
{
    let n = src.len();
    let mut i: usize = 0;
    while i < n
        invariant
            0 <= i <= n,
            n == src.len(),
            dst.len() == old(dst).len(),
            at + n <= dst.len(),
            forall|j: int| 0 <= j < dst.len() && !(at <= j < at + i) ==> dst@[j] == old(dst)@[j],
            forall|j: int| at <= j < at + i ==> dst@[j] == src@[j - at],
        decreases n - i,
    {
        dst[at + i] = src[i];
        i += 1;
    }
    assert(dst@ =~= old(dst)@.subrange(0, at as int) + src@ + old(dst)@.subrange(
        at + src.len(),
        old(dst).len() as int,
    ));
}

} // verus!
