//! Byte-range helpers shared by the cipher core and the DMA staging ring:
//! copying a range of one buffer into another, and the splice function that
//! the copy contracts are stated with.

use vstd::prelude::*;

verus! {

/// `s` with the bytes starting at `at` replaced by `patch`.
pub open spec fn spec_splice(s: Seq<u8>, at: int, patch: Seq<u8>) -> Seq<u8>
    recommends
        0 <= at,
        at + patch.len() <= s.len(),
{
    Seq::new(
        s.len(),
        |i: int|
            if at <= i < at + patch.len() {
                patch[i - at]
            } else {
                s[i]
            },
    )
}

/// Position `c·k + j` sits in chunk `k` at offset `j`, when `0 <= j < c`.
pub proof fn lemma_chunk_index(c: int, k: int, j: int)
    requires
        c > 0,
        0 <= k,
        0 <= j < c,
    ensures
        (c * k + j) / c == k,
        (c * k + j) % c == j,
{
    assert((c * k + j) / c == k) by (nonlinear_arith)
        requires
            c > 0,
            0 <= k,
            0 <= j < c,
    ;
    assert((c * k + j) % c == j) by (nonlinear_arith)
        requires
            c > 0,
            0 <= k,
            0 <= j < c,
    ;
}

/// A fresh copy of `n` bytes of `src` starting at `s0`.
pub fn take_range(src: &Vec<u8>, s0: usize, n: usize) -> (out: Vec<u8>)
    requires
        s0 + n <= src@.len(),
    ensures
        out@ == src@.subrange(s0 as int, s0 + n),
{
    let m = src.len();
    let mut out: Vec<u8> = Vec::new();
    let mut i: usize = 0;
    while i < n
        invariant
            i <= n,
            s0 + n <= m,
            m == src@.len(),
            out@ == src@.subrange(s0 as int, s0 + i),
        decreases n - i,
    {
        out.push(src[s0 + i]);
        assert(out@ =~= src@.subrange(s0 as int, s0 + i + 1));
        i += 1;
    }
    out
}

/// Copies `n` bytes of `src` starting at `s0` into `dst` starting at `d0`.
pub fn copy_range(dst: &mut Vec<u8>, d0: usize, src: &Vec<u8>, s0: usize, n: usize)
    requires
        d0 + n <= old(dst)@.len(),
        s0 + n <= src@.len(),
    ensures
        final(dst)@ == spec_splice(old(dst)@, d0 as int, src@.subrange(s0 as int, s0 + n)),
        final(dst)@.len() == old(dst)@.len(),
{
    let dl = dst.len();
    let sl = src.len();
    let mut i: usize = 0;
    while i < n
        invariant
            i <= n,
            d0 + n <= dl,
            s0 + n <= sl,
            dl == dst@.len(),
            sl == src@.len(),
            dst@.len() == old(dst)@.len(),
            forall|q: int| d0 <= q < d0 + i ==> #[trigger] dst@[q] == src@[s0 + (q - d0)],
            forall|q: int|
                0 <= q < dst@.len() && !(d0 <= q < d0 + i) ==> #[trigger] dst@[q] == old(
                    dst,
                )@[q],
        decreases n - i,
    {
        let v = src[s0 + i];
        dst.set(d0 + i, v);
        i += 1;
    }
    assert(dst@ =~= spec_splice(old(dst)@, d0 as int, src@.subrange(s0 as int, s0 + n)));
}

} // verus!
