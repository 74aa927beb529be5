//! The Internet ones-complement checksum.
//!
//! Data is summed as big-endian 16-bit words (an odd trailing byte is
//! padded with zero), carries are folded back in, and the result is
//! complemented.

use vstd::prelude::*;

verus! {

use crate::buffer::be16;

/// Sum of the big-endian 16-bit words of `b` from index `i` on, with an odd
/// final byte treated as the high half of a word.
pub open spec fn sum16(b: Seq<u8>, i: int) -> int
    decreases b.len() - i,
{
    if i + 2 <= b.len() {
        be16(b, i) + sum16(b, i + 2)
    } else if i + 1 == b.len() {
        b[i] * 256
    } else {
        0
    }
}

/// Fold the carries of a sum back into 16 bits.  Three rounds reach the
/// fixpoint for every sum a packet can produce.
pub open spec fn fold_carries(x: int) -> int {
    let f1 = x % 0x10000 + x / 0x10000;
    let f2 = f1 % 0x10000 + f1 / 0x10000;
    f2 % 0x10000 + f2 / 0x10000
}

/// The ones-complement checksum of `b` prefixed by an already-summed
/// pseudo-header contribution `psum`.
pub open spec fn checksum_of(psum: int, b: Seq<u8>) -> u16 {
    (0xffff - (fold_carries(psum + sum16(b, 0)) % 0x10000)) as u16
}

/// The word sum is non-negative and bounded by one full word per byte.
pub proof fn lemma_sum16_bounds(b: Seq<u8>, i: int)
    requires
        0 <= i <= b.len(),
    ensures
        0 <= sum16(b, i),
        sum16(b, i) <= (b.len() - i) * 0x10000,
    decreases b.len() - i,
{
    if i + 2 <= b.len() {
        lemma_sum16_bounds(b, i + 2);
        assert((b.len() - i) * 0x10000 == (b.len() - i - 2) * 0x10000 + 2 * 0x10000) by (
        nonlinear_arith);
    } else if i + 1 == b.len() {
        assert((b.len() - i) * 0x10000 == 0x10000);
    } else {
    }
}

/// Sum the 16-bit words of `data`.
pub fn sum_words(data: &Vec<u8>) -> (r: u64)
    requires
        data@.len() <= 0x10000,
    ensures
        r == sum16(data@, 0),
        r <= 0x10000 * 0x10000,
{
    let n = data.len();
    let mut sum: u64 = 0;
    let mut i: usize = 0;
    proof {
        lemma_sum16_bounds(data@, 0);
    }
    while i + 2 <= n
        invariant
            i <= n,
            n == data@.len(),
            n <= 0x10000,
            sum == sum16(data@, 0) - sum16(data@, i as int),
            0 <= sum <= 0x10000 * 0x10000,
        decreases n - i,
    {
        proof {
            lemma_sum16_bounds(data@, i as int);
            lemma_sum16_bounds(data@, i + 2);
            lemma_sum16_bounds(data@, 0);
        }
        let w: u64 = (data[i] as u64) * 256 + (data[i + 1] as u64);
        sum = sum + w;
        i = i + 2;
    }
    if i < n {
        proof {
            lemma_sum16_bounds(data@, i as int);
            lemma_sum16_bounds(data@, 0);
        }
        sum = sum + (data[i] as u64) * 256;
    }
    sum
}

/// Compute the ones-complement checksum of `data` with pseudo-header
/// contribution `psum`.
pub fn compute(psum: u64, data: &Vec<u8>) -> (r: u16)
    requires
        psum <= 0xffff_ffff,
        data@.len() <= 0x10000,
    ensures
        r == checksum_of(psum as int, data@),
{
    let s: u64 = psum + sum_words(data);
    let f1: u64 = s % 0x10000 + s / 0x10000;
    let f2: u64 = f1 % 0x10000 + f1 / 0x10000;
    let f3: u64 = f2 % 0x10000 + f2 / 0x10000;
    0xffff - (f3 % 0x10000) as u16
}

} // verus!
