//! Little-endian integers as they stand in a list's header and in an
//! instruction payload.

use vstd::prelude::*;

verus! {

/// The number spelled by the first four bytes of `b`, least significant
/// byte first.
pub open spec fn le_u32(b: Seq<u8>) -> nat
    recommends
        b.len() >= 4,
{
    (b[0] as nat) + 256 * (b[1] as nat) + 65536 * (b[2] as nat) + 16777216 * (b[3] as nat)
}

/// The four bytes that spell `n`, least significant byte first.
pub open spec fn u32_le(n: nat) -> Seq<u8>
    recommends
        n <= u32::MAX,
{
    seq![
        (n % 256) as u8,
        ((n / 256) % 256) as u8,
        ((n / 65536) % 256) as u8,
        ((n / 16777216) % 256) as u8,
    ]
}

/// The number spelled by the first eight bytes of `b`, least significant
/// byte first.
pub open spec fn le_u64(b: Seq<u8>) -> nat
    recommends
        b.len() >= 8,
{
    le_u32(b) + 4294967296 * le_u32(b.subrange(4, 8))
}

/// Reading back the four bytes written for `n` gives `n`.
pub proof fn lemma_le_u32_of_u32_le(n: nat)
    requires
        n <= u32::MAX,
    ensures
        u32_le(n).len() == 4,
        le_u32(u32_le(n)) == n,
{
}

/// Reads the little-endian `u32` that starts at `at`.
pub fn read_u32_le(buf: &[u8], at: usize) -> (n: u32)
    requires
        at + 4 <= buf.len(),
    ensures
        n == le_u32(buf@.subrange(at as int, at + 4)),
{
    let b0: u32 = buf[at] as u32;
    let b1: u32 = buf[at + 1] as u32;
    let b2: u32 = buf[at + 2] as u32;
    let b3: u32 = buf[at + 3] as u32;
    b0 + 256 * b1 + 65536 * b2 + 16777216 * b3
}

/// Writes `n` as four little-endian bytes starting at `at`; every other
/// byte of `buf` keeps its value.
pub fn write_u32_le(buf: &mut [u8], at: usize, n: u32)
    requires
        at + 4 <= old(buf).len(),
    ensures
        final(buf)@ == old(buf)@.subrange(0, at as int) + u32_le(n as nat) + old(buf)@.subrange(
            at + 4,
            old(buf).len() as int,
        ),
{
    buf[at] = (n % 256) as u8;
    buf[at + 1] = ((n / 256) % 256) as u8;
    buf[at + 2] = ((n / 65536) % 256) as u8;
    buf[at + 3] = ((n / 16777216) % 256) as u8;
}

} // verus!
