//! ChaCha keystream core.
//!
//! The cipher state is sixteen 32-bit words: four constants, eight key words,
//! a 32-bit block counter at index 12 and three nonce words.  Every public
//! operation is specified against the mathematical round function below, so
//! the keystream a core produces is pinned down byte for byte.

use vstd::prelude::*;

verus! {

/// Wrapping 32-bit addition.
pub open spec fn wadd(x: u32, y: u32) -> u32 {
    vstd::wrapping::u32_specs::wrapping_add(x, y)
}

/// Rotation of a 32-bit word left by `n` bits, for `1 <= n <= 31`.
pub open spec fn spec_rotl(x: u32, n: u32) -> u32
    recommends
        1 <= n < 32,
{
    (x << n) | (x >> (32 - n) as u32)
}

/// The standard ChaCha quarter round applied to indices `a, b, c, d` of a
/// sixteen-word state.
pub open spec fn spec_quarter_round(s: Seq<u32>, a: int, b: int, c: int, d: int) -> Seq<u32>
    recommends
        s.len() == 16,
        0 <= a < 16,
        0 <= b < 16,
        0 <= c < 16,
        0 <= d < 16,
{
    let s1 = s.update(a, wadd(s[a], s[b]));
    let s2 = s1.update(d, spec_rotl(s1[d] ^ s1[a], 16));
    let s3 = s2.update(c, wadd(s2[c], s2[d]));
    let s4 = s3.update(b, spec_rotl(s3[b] ^ s3[c], 12));
    let s5 = s4.update(a, wadd(s4[a], s4[b]));
    let s6 = s5.update(d, spec_rotl(s5[d] ^ s5[a], 8));
    let s7 = s6.update(c, wadd(s6[c], s6[d]));
    s7.update(b, spec_rotl(s7[b] ^ s7[c], 7))
}

/// One full round: the quarter round on the four columns, then on the four
/// diagonals.
pub open spec fn spec_double_round(s: Seq<u32>) -> Seq<u32>
    recommends
        s.len() == 16,
{
    let s = spec_quarter_round(s, 0, 4, 8, 12);
    let s = spec_quarter_round(s, 1, 5, 9, 13);
    let s = spec_quarter_round(s, 2, 6, 10, 14);
    let s = spec_quarter_round(s, 3, 7, 11, 15);
    let s = spec_quarter_round(s, 0, 5, 10, 15);
    let s = spec_quarter_round(s, 1, 6, 11, 12);
    let s = spec_quarter_round(s, 2, 7, 8, 13);
    spec_quarter_round(s, 3, 4, 9, 14)
}

/// `n` full rounds; ChaCha20 runs 10, ChaCha12 runs 6, ChaCha8 runs 4.
pub open spec fn spec_rounds(s: Seq<u32>, n: nat) -> Seq<u32>
    decreases n,
{
    if n == 0 {
        s
    } else {
        spec_double_round(spec_rounds(s, (n - 1) as nat))
    }
}

/// Word-wise wrapping sum of two sixteen-word states.
pub open spec fn spec_sum_words(a: Seq<u32>, b: Seq<u32>) -> Seq<u32>
    recommends
        a.len() == b.len(),
{
    Seq::new(a.len(), |i: int| wadd(a[i], b[i]))
}

/// The ChaCha permutation with the final feed-forward: `n` full rounds, then
/// the initial state added back word-wise.
pub open spec fn spec_run_rounds(s: Seq<u32>, n: nat) -> Seq<u32>
    recommends
        s.len() == 16,
{
    spec_sum_words(spec_rounds(s, n), s)
}

/// Rotates a 32-bit word left by `n` bits.
pub fn rotl(x: u32, n: u32) -> (r: u32)
    requires
        1 <= n < 32,
    ensures
        r == spec_rotl(x, n),
{
    (x << n) | (x >> (32 - n))
}

/// The ChaCha quarter round on state indices `a, b, c, d`.
pub fn quarter_round(a: usize, b: usize, c: usize, d: usize, state: &mut Vec<u32>)
    requires
        a < 16,
        b < 16,
        c < 16,
        d < 16,
        old(state)@.len() == 16,
    ensures
        final(state)@ == spec_quarter_round(old(state)@, a as int, b as int, c as int, d as int),
        final(state)@.len() == 16,
{
    let v = state[a].wrapping_add(state[b]);
    state.set(a, v);
    let v = rotl(state[d] ^ state[a], 16);
    state.set(d, v);
    let v = state[c].wrapping_add(state[d]);
    state.set(c, v);
    let v = rotl(state[b] ^ state[c], 12);
    state.set(b, v);
    let v = state[a].wrapping_add(state[b]);
    state.set(a, v);
    let v = rotl(state[d] ^ state[a], 8);
    state.set(d, v);
    let v = state[c].wrapping_add(state[d]);
    state.set(c, v);
    let v = rotl(state[b] ^ state[c], 7);
    state.set(b, v);
}

/// Runs `rounds` full rounds over a copy of `state` and adds the initial
/// state back in, producing the next keystream block as sixteen words.
pub fn run_rounds(state: &Vec<u32>, rounds: usize) -> (res: Vec<u32>)
    requires
        state@.len() == 16,
    ensures
        res@ == spec_run_rounds(state@, rounds as nat),
        res@.len() == 16,
{
    let mut res: Vec<u32> = Vec::new();
    let mut i: usize = 0;
    while i < 16
        invariant
            i <= 16,
            state@.len() == 16,
            res@ == state@.subrange(0, i as int),
        decreases 16 - i,
    {
        res.push(state[i]);
        i += 1;
    }
    assert(res@ =~= state@);
    let mut k: usize = 0;
    while k < rounds
        invariant
            k <= rounds,
            state@.len() == 16,
            res@.len() == 16,
            res@ == spec_rounds(state@, k as nat),
        decreases rounds - k,
    {
        quarter_round(0, 4, 8, 12, &mut res);
        quarter_round(1, 5, 9, 13, &mut res);
        quarter_round(2, 6, 10, 14, &mut res);
        quarter_round(3, 7, 11, 15, &mut res);
        quarter_round(0, 5, 10, 15, &mut res);
        quarter_round(1, 6, 11, 12, &mut res);
        quarter_round(2, 7, 8, 13, &mut res);
        quarter_round(3, 4, 9, 14, &mut res);
        k += 1;
        assert(res@ == spec_rounds(state@, k as nat));
    }
    let ghost permuted = res@;
    let mut j: usize = 0;
    while j < 16
        invariant
            j <= 16,
            state@.len() == 16,
            res@.len() == 16,
            permuted == spec_rounds(state@, rounds as nat),
            forall|i: int| 0 <= i < j ==> res@[i] == wadd(permuted[i], state@[i]),
            forall|i: int| j <= i < 16 ==> res@[i] == permuted[i],
        decreases 16 - j,
    {
        let v = res[j].wrapping_add(state[j]);
        res.set(j, v);
        j += 1;
    }
    assert(res@ =~= spec_run_rounds(state@, rounds as nat));
    res
}

/// The 32-bit word at byte offset `off` of `b`, read little-endian.
pub open spec fn spec_le_word(b: Seq<u8>, off: int) -> u32
    recommends
        0 <= off,
        off + 4 <= b.len(),
{
    (b[off] as u32) | ((b[off + 1] as u32) << 8) | ((b[off + 2] as u32) << 16) | ((b[off
        + 3] as u32) << 24)
}

/// A byte sequence of length `4·n` read as `n` little-endian words.
pub open spec fn spec_le_words(b: Seq<u8>) -> Seq<u32> {
    Seq::new(b.len() / 4, |i: int| spec_le_word(b, 4 * i))
}

/// Byte `k` (k in 0..4) of the little-endian serialization of `w`.
pub open spec fn spec_word_byte(w: u32, k: int) -> u8
    recommends
        0 <= k < 4,
{
    (w >> (8 * k) as u32) as u8
}

/// Little-endian serialization of a word sequence.
pub open spec fn spec_words_le_bytes(ws: Seq<u32>) -> Seq<u8> {
    Seq::new(4 * ws.len(), |i: int| spec_word_byte(ws[i / 4], i % 4))
}

/// The four state constants: "expand 32-byte k".
pub open spec fn spec_constants() -> Seq<u32> {
    seq![0x6170_7865u32, 0x3320_646eu32, 0x7962_2d32u32, 0x6b20_6574u32]
}

/// The initial sixteen-word state built from a 32-byte key, a 12-byte nonce
/// and a 32-bit block counter, laid out as in RFC 8439.
pub open spec fn spec_chacha_init(key: Seq<u8>, nonce: Seq<u8>, ctr: u32) -> Seq<u32>
    recommends
        key.len() == 32,
        nonce.len() == 12,
{
    spec_constants() + spec_le_words(key) + seq![ctr] + spec_le_words(nonce)
}

/// The 64 keystream bytes produced from state `s` by `r` full rounds.
pub open spec fn spec_block_bytes(s: Seq<u32>, r: nat) -> Seq<u8>
    recommends
        s.len() == 16,
{
    spec_words_le_bytes(spec_run_rounds(s, r))
}

/// Keystream byte `i` of the stream that starts at state `s` (the block
/// counter of byte `i` is the counter of `s` plus `i / 64`, truncated to 32
/// bits).
pub open spec fn spec_ks_at(s: Seq<u32>, r: nat, i: int) -> u8
    recommends
        s.len() == 16,
        0 <= i,
{
    spec_block_bytes(s.update(12, ((s[12] + i / 64) % 0x1_0000_0000) as u32), r)[i % 64]
}

/// The next `n` keystream bytes from state `s`.
pub open spec fn spec_keystream(s: Seq<u32>, r: nat, n: nat) -> Seq<u8>
    recommends
        s.len() == 16,
{
    Seq::new(n, |i: int| spec_ks_at(s, r, i))
}

/// Pointwise XOR of `data` with the first `data.len()` bytes of `ks`.
pub open spec fn spec_xor(data: Seq<u8>, ks: Seq<u8>) -> Seq<u8>
    recommends
        ks.len() >= data.len(),
{
    Seq::new(data.len(), |i: int| data[i] ^ ks[i])
}

/// Number of keystream blocks needed to cover `n` bytes.
pub open spec fn spec_blocks_of(n: nat) -> nat {
    (n + 63) / 64
}

/// Reads the little-endian 32-bit word at byte offset `off` of `b`.
fn load_word(b: &Vec<u8>, off: usize) -> (w: u32)
    requires
        off + 4 <= b@.len(),
    ensures
        w == spec_le_word(b@, off as int),
{
    let n = b.len();
    assert(off + 4 <= n);
    (b[off] as u32) | ((b[off + 1] as u32) << 8) | ((b[off + 2] as u32) << 16) | ((b[off
        + 3] as u32) << 24)
}

/// The ChaCha core function: a deterministic keystream generator with an
/// explicit 32-bit block counter.
pub struct ChaChaCore {
    /// Sixteen-word cipher state.
    pub state: Vec<u32>,
    /// Number of full rounds the permutation runs (10 for ChaCha20).
    pub rounds: usize,
}

impl ChaChaCore {
    /// The state is well formed when it holds exactly sixteen words.
    pub open spec fn wf(&self) -> bool {
        self.state@.len() == 16
    }

    /// Initializes the state from a 32-byte key and a 12-byte nonce with the
    /// block counter at zero; `rounds` full rounds are run per block.
    pub fn new(key: &Vec<u8>, iv: &Vec<u8>, rounds: usize) -> (core: ChaChaCore)
        requires
            key@.len() == 32,
            iv@.len() == 12,
        ensures
            core.wf(),
            core.state@ == spec_chacha_init(key@, iv@, 0),
            core.rounds == rounds,
    {
        let mut state: Vec<u32> = Vec::new();
        state.push(0x6170_7865);
        state.push(0x3320_646e);
        state.push(0x7962_2d32);
        state.push(0x6b20_6574);
        let mut i: usize = 0;
        while i < 8
            invariant
                i <= 8,
                key@.len() == 32,
                state@.len() == 4 + i,
                state@.subrange(0, 4) == spec_constants(),
                forall|j: int| 4 <= j < 4 + i ==> #[trigger] state@[j] == spec_le_word(
                    key@,
                    4 * (j - 4),
                ),
            decreases 8 - i,
        {
            let w = load_word(key, 4 * i);
            state.push(w);
            assert(state@.subrange(0, 4) =~= spec_constants());
            i += 1;
        }
        state.push(0);
        let mut i: usize = 0;
        while i < 3
            invariant
                i <= 3,
                iv@.len() == 12,
                key@.len() == 32,
                state@.len() == 13 + i,
                state@.subrange(0, 4) == spec_constants(),
                forall|j: int| 4 <= j < 12 ==> #[trigger] state@[j] == spec_le_word(
                    key@,
                    4 * (j - 4),
                ),
                state@[12] == 0u32,
                forall|j: int| 13 <= j < 13 + i ==> #[trigger] state@[j] == spec_le_word(
                    iv@,
                    4 * (j - 13),
                ),
            decreases 3 - i,
        {
            let w = load_word(iv, 4 * i);
            state.push(w);
            assert(state@.subrange(0, 4) =~= spec_constants());
            i += 1;
        }
        assert(state@ =~= spec_chacha_init(key@, iv@, 0));
        ChaChaCore { state, rounds }
    }

    /// Reads the block counter: the index of the next keystream block.
    pub fn get_block_pos(&self) -> (pos: u32)
        requires
            self.wf(),
        ensures
            pos == self.state@[12],
    {
        self.state[12]
    }

    /// Seeks to block index `pos`; constants, key and nonce are untouched.
    pub fn set_block_pos(&mut self, pos: u32)
        requires
            old(self).wf(),
        ensures
            final(self).wf(),
            final(self).state@ == old(self).state@.update(12, pos),
            final(self).rounds == old(self).rounds,
    {
        self.state.set(12, pos);
    }

    /// Number of keystream blocks that may still be produced before the
    /// 32-bit counter would wrap.
    pub fn remaining_blocks(&self) -> (r: Option<usize>)
        requires
            self.wf(),
        ensures
            r == Some((u32::MAX - self.state@[12]) as usize),
    {
        let rem: u32 = u32::MAX - self.state[12];
        Some(rem as usize)
    }

    /// Computes one keystream block with the current state, XORs it into
    /// `block`, and adds one to the block counter.
    pub fn apply_keystream_block(&mut self, block: &mut Vec<u8>)
        requires
            old(self).wf(),
            old(block)@.len() == 64,
            old(self).state@[12] < 0xFFFF_FFFF,
        ensures
            final(self).wf(),
            final(self).rounds == old(self).rounds,
            final(self).state@ == old(self).state@.update(
                12,
                (old(self).state@[12] + 1) as u32,
            ),
            final(block)@ == spec_xor(
                old(block)@,
                spec_block_bytes(old(self).state@, old(self).rounds as nat),
            ),
    {
        let words = run_rounds(&self.state, self.rounds);
        let ghost ks = spec_block_bytes(self.state@, self.rounds as nat);
        let mut j: usize = 0;
        while j < 64
            invariant
                j <= 64,
                words@ == spec_run_rounds(self.state@, self.rounds as nat),
                words@.len() == 16,
                block@.len() == 64,
                ks == spec_block_bytes(self.state@, self.rounds as nat),
                forall|i: int| 0 <= i < j ==> block@[i] == (old(block)@[i] ^ ks[i]),
                forall|i: int| j <= i < 64 ==> block@[i] == old(block)@[i],
            decreases 64 - j,
        {
            let b = #[verifier::truncate] ((words[j / 4] >> ((j % 4) * 8) as u32) as u8);
            assert(b == ks[j as int]);
            let v = block[j] ^ b;
            block.set(j, v);
            j += 1;
        }
        let c = self.state[12];
        self.state.set(12, c + 1);
        assert(block@ =~= spec_xor(old(block)@, ks));
    }

    /// XORs the keystream into `buf`: the iteration of
    /// [`Self::apply_keystream_block`] over 64-byte chunks, a short trailing
    /// chunk taking the corresponding prefix of one more block.  An empty
    /// buffer is a no-op and does not advance the counter.
    pub fn apply_keystream(&mut self, buf: &mut Vec<u8>)
        requires
            old(self).wf(),
            old(self).state@[12] + spec_blocks_of(old(buf)@.len() as nat) <= 0xFFFF_FFFF,
        ensures
            final(self).wf(),
            final(self).rounds == old(self).rounds,
            final(self).state@ == old(self).state@.update(
                12,
                (old(self).state@[12] + spec_blocks_of(old(buf)@.len() as nat)) as u32,
            ),
            final(buf)@ == spec_xor(
                old(buf)@,
                spec_keystream(
                    old(self).state@,
                    old(self).rounds as nat,
                    old(buf)@.len() as nat,
                ),
            ),
            final(buf)@.len() == old(buf)@.len(),
    {
        let ghost s0 = self.state@;
        let ghost p0 = self.state@[12];
        let ghost r = self.rounds as nat;
        let n = buf.len();
        let ghost nb = spec_blocks_of(n as nat);
        let full: usize = n / 64;
        let tail: usize = n % 64;
        proof {
            assert(64 * (n as int / 64) + n as int % 64 == n);
            assert(full <= nb && (tail > 0 ==> full + 1 == nb) && (tail == 0 ==> full == nb))
                by (nonlinear_arith)
                requires
                    full == n as int / 64,
                    tail == n as int % 64,
                    nb == (n + 63) as int / 64,
                    n >= 0,
            ;
        }
        let mut k: usize = 0;
        while k < full
            invariant
                self.wf(),
                self.rounds as nat == r,
                buf@.len() == n,
                n == old(buf)@.len(),
                full == n as int / 64,
                64 * full <= n,
                k <= full,
                s0.len() == 16,
                p0 == s0[12],
                full <= nb,
                nb == spec_blocks_of(n as nat),
                p0 + nb <= 0xFFFF_FFFF,
                self.state@ =~= s0.update(12, (p0 + k) as u32),
                forall|i: int|
                    0 <= i < 64 * k ==> #[trigger] buf@[i] == (old(buf)@[i] ^ spec_ks_at(
                        s0,
                        r,
                        i,
                    )),
                forall|i: int| 64 * k <= i < n ==> #[trigger] buf@[i] == old(buf)@[i],
            decreases full - k,
        {
            proof {
                assert(64 * (k + 1) <= 64 * full) by (nonlinear_arith)
                    requires
                        k < full,
                ;
            }
            let ghost pre = buf@;
            let ghost sk = self.state@;
            let mut blk = crate::bytes::take_range(buf, 64 * k, 64);
            self.apply_keystream_block(&mut blk);
            crate::bytes::copy_range(buf, 64 * k, &blk, 0, 64);
            proof {
                assert(self.state@ =~= s0.update(12, (p0 + k + 1) as u32));
                assert forall|i: int| 64 * k <= i < 64 * (k + 1) implies #[trigger] buf@[i] == (
                old(buf)@[i] ^ spec_ks_at(s0, r, i)) by {
                    let j = i - 64 * k;
                    crate::bytes::lemma_chunk_index(64, k as int, j);
                    assert(buf@[i] == blk@[j]);
                    assert(blk@[j] == pre[i] ^ spec_block_bytes(sk, r)[j]);
                    assert(((s0[12] + i / 64) % 0x1_0000_0000) as u32 == (p0 + k) as u32);
                    assert(s0.update(12, ((s0[12] + i / 64) % 0x1_0000_0000) as u32) =~= sk);
                }
                assert forall|i: int| 64 * (k + 1) <= i < n implies #[trigger] buf@[i] == old(
                buf)@[i] by {
                    assert(buf@[i] == pre[i]);
                }
            }
            k += 1;
        }
        if tail > 0 {
            let ghost pre = buf@;
            let ghost sk = self.state@;
            let mut blk = crate::bytes::take_range(buf, 64 * full, tail);
            let mut z: usize = tail;
            while z < 64
                invariant
                    z <= 64,
                    blk@.len() == z,
                    blk@.subrange(0, tail as int) == pre.subrange(64 * full, 64 * full + tail),
                    tail <= z,
                decreases 64 - z,
            {
                blk.push(0);
                assert(blk@.subrange(0, tail as int) =~= pre.subrange(
                    64 * full,
                    64 * full + tail,
                ));
                z += 1;
            }
            self.apply_keystream_block(&mut blk);
            crate::bytes::copy_range(buf, 64 * full, &blk, 0, tail);
            proof {
                assert(self.state@ =~= s0.update(12, (p0 + nb) as u32));
                assert forall|i: int| 64 * full <= i < n implies #[trigger] buf@[i] == (
                old(buf)@[i] ^ spec_ks_at(s0, r, i)) by {
                    let j = i - 64 * full;
                    crate::bytes::lemma_chunk_index(64, full as int, j);
                    assert(buf@[i] == blk@[j]);
                    assert(pre.subrange(64 * full, 64 * full + tail)[j] == pre[i]);
                    assert(((s0[12] + i / 64) % 0x1_0000_0000) as u32 == (p0 + full) as u32);
                    assert(s0.update(12, ((s0[12] + i / 64) % 0x1_0000_0000) as u32) =~= sk);
                }
                assert forall|i: int| 0 <= i < 64 * full implies #[trigger] buf@[i] == (
                old(buf)@[i] ^ spec_ks_at(s0, r, i)) by {
                    assert(buf@[i] == pre[i]);
                }
            }
        }
        proof {
            if n == 0 {
                assert(s0.update(12, (p0 + nb) as u32) =~= s0.update(12, p0));
                assert(s0.update(12, p0) =~= s0);
            }
            assert(self.state@ =~= s0.update(12, (p0 + nb) as u32));
            assert(buf@ =~= spec_xor(old(buf)@, spec_keystream(s0, r, n as nat)));
        }
    }
}

/// The HChaCha state: constants, key words and four input words; no counter.
pub open spec fn spec_hchacha_state(key: Seq<u8>, input: Seq<u8>) -> Seq<u32>
    recommends
        key.len() == 32,
        input.len() == 16,
{
    spec_constants() + spec_le_words(key) + spec_le_words(input)
}

/// The HChaCha function: `r` full rounds over the state built from the key
/// and a 16-byte input, then words 0..4 and 12..16 serialized little-endian
/// as a 32-byte subkey.  No feed-forward is added.
pub open spec fn spec_hchacha(key: Seq<u8>, input: Seq<u8>, r: nat) -> Seq<u8>
    recommends
        key.len() == 32,
        input.len() == 16,
{
    let e = spec_rounds(spec_hchacha_state(key, input), r);
    spec_words_le_bytes(e.subrange(0, 4) + e.subrange(12, 16))
}

/// Derives a 32-byte subkey from a key and a 16-byte input by running the
/// ChaCha rounds without the final feed-forward.
pub fn hchacha(key: &Vec<u8>, input: &Vec<u8>, rounds: usize) -> (out: Vec<u8>)
    requires
        key@.len() == 32,
        input@.len() == 16,
    ensures
        out@ == spec_hchacha(key@, input@, rounds as nat),
        out@.len() == 32,
{
    let mut state: Vec<u32> = Vec::new();
    state.push(0x6170_7865);
    state.push(0x3320_646e);
    state.push(0x7962_2d32);
    state.push(0x6b20_6574);
    let mut i: usize = 0;
    while i < 8
        invariant
            i <= 8,
            key@.len() == 32,
            state@.len() == 4 + i,
            state@.subrange(0, 4) == spec_constants(),
            forall|j: int| 4 <= j < 4 + i ==> #[trigger] state@[j] == spec_le_word(
                key@,
                4 * (j - 4),
            ),
        decreases 8 - i,
    {
        let w = load_word(key, 4 * i);
        state.push(w);
        assert(state@.subrange(0, 4) =~= spec_constants());
        i += 1;
    }
    let mut i: usize = 0;
    while i < 4
        invariant
            i <= 4,
            key@.len() == 32,
            input@.len() == 16,
            state@.len() == 12 + i,
            state@.subrange(0, 4) == spec_constants(),
            forall|j: int| 4 <= j < 12 ==> #[trigger] state@[j] == spec_le_word(
                key@,
                4 * (j - 4),
            ),
            forall|j: int| 12 <= j < 12 + i ==> #[trigger] state@[j] == spec_le_word(
                input@,
                4 * (j - 12),
            ),
        decreases 4 - i,
    {
        let w = load_word(input, 4 * i);
        state.push(w);
        assert(state@.subrange(0, 4) =~= spec_constants());
        i += 1;
    }
    let ghost s0 = spec_hchacha_state(key@, input@);
    assert(state@ =~= s0);
    let mut k: usize = 0;
    while k < rounds
        invariant
            k <= rounds,
            state@.len() == 16,
            state@ == spec_rounds(s0, k as nat),
        decreases rounds - k,
    {
        quarter_round(0, 4, 8, 12, &mut state);
        quarter_round(1, 5, 9, 13, &mut state);
        quarter_round(2, 6, 10, 14, &mut state);
        quarter_round(3, 7, 11, 15, &mut state);
        quarter_round(0, 5, 10, 15, &mut state);
        quarter_round(1, 6, 11, 12, &mut state);
        quarter_round(2, 7, 8, 13, &mut state);
        quarter_round(3, 4, 9, 14, &mut state);
        k += 1;
        assert(state@ == spec_rounds(s0, k as nat));
    }
    let ghost e = spec_rounds(s0, rounds as nat);
    let ghost sel = e.subrange(0, 4) + e.subrange(12, 16);
    let mut out: Vec<u8> = Vec::new();
    let mut w: usize = 0;
    while w < 8
        invariant
            w <= 8,
            state@ == e,
            state@.len() == 16,
            sel == e.subrange(0, 4) + e.subrange(12, 16),
            out@.len() == 4 * w,
            forall|q: int| 0 <= q < 4 * w ==> #[trigger] out@[q] == spec_word_byte(
                sel[q / 4],
                q % 4,
            ),
        decreases 8 - w,
    {
        let word = if w < 4 {
            state[w]
        } else {
            state[w + 8]
        };
        assert(word == sel[w as int]);
        let mut j: usize = 0;
        while j < 4
            invariant
                j <= 4,
                w < 8,
                word == sel[w as int],
                sel == e.subrange(0, 4) + e.subrange(12, 16),
                out@.len() == 4 * w + j,
                forall|q: int| 0 <= q < 4 * w + j ==> #[trigger] out@[q] == spec_word_byte(
                    sel[q / 4],
                    q % 4,
                ),
            decreases 4 - j,
        {
            out.push(#[verifier::truncate] ((word >> ((j * 8) as u32)) as u8));
            proof {
                crate::bytes::lemma_chunk_index(4, w as int, j as int);
            }
            j += 1;
        }
        w += 1;
    }
    assert(out@ =~= spec_words_le_bytes(sel));
    out
}

/// The XChaCha core function: an extended 24-byte nonce is folded into a
/// subkey by HChaCha, and the low 8 nonce bytes form the working nonce.
pub struct XChaChaCore(pub ChaChaCore);

impl XChaChaCore {
    /// The working nonce of an XChaCha call: four zero bytes followed by the
    /// last 8 bytes of the extended nonce.
    pub open spec fn spec_working_nonce(iv: Seq<u8>) -> Seq<u8>
        recommends
            iv.len() == 24,
    {
        seq![0u8, 0u8, 0u8, 0u8] + iv.subrange(16, 24)
    }

    /// Initializes from a 32-byte key and a 24-byte extended nonce.
    pub fn new(key: &Vec<u8>, iv: &Vec<u8>, rounds: usize) -> (core: XChaChaCore)
        requires
            key@.len() == 32,
            iv@.len() == 24,
        ensures
            core.0.wf(),
            core.0.rounds == rounds,
            core.0.state@ == spec_chacha_init(
                spec_hchacha(key@, iv@.subrange(0, 16), rounds as nat),
                Self::spec_working_nonce(iv@),
                0,
            ),
    {
        let prefix = crate::bytes::take_range(iv, 0, 16);
        let subkey = hchacha(key, &prefix, rounds);
        let mut padded_iv: Vec<u8> = Vec::new();
        padded_iv.push(0);
        padded_iv.push(0);
        padded_iv.push(0);
        padded_iv.push(0);
        let mut i: usize = 0;
        while i < 8
            invariant
                i <= 8,
                iv@.len() == 24,
                padded_iv@.len() == 4 + i,
                padded_iv@.subrange(0, 4) == seq![0u8, 0u8, 0u8, 0u8],
                forall|j: int| 4 <= j < 4 + i ==> #[trigger] padded_iv@[j] == iv@[16 + (j - 4)],
            decreases 8 - i,
        {
            padded_iv.push(iv[16 + i]);
            assert(padded_iv@.subrange(0, 4) =~= seq![0u8, 0u8, 0u8, 0u8]);
            i += 1;
        }
        assert(padded_iv@ =~= Self::spec_working_nonce(iv@));
        XChaChaCore(ChaChaCore::new(&subkey, &padded_iv, rounds))
    }

    /// Reads the block counter.
    pub fn get_block_pos(&self) -> (pos: u32)
        requires
            self.0.wf(),
        ensures
            pos == self.0.state@[12],
    {
        self.0.get_block_pos()
    }

    /// Seeks to block index `pos`.
    pub fn set_block_pos(&mut self, pos: u32)
        requires
            old(self).0.wf(),
        ensures
            final(self).0.wf(),
            final(self).0.state@ == old(self).0.state@.update(12, pos),
            final(self).0.rounds == old(self).0.rounds,
    {
        self.0.set_block_pos(pos);
    }

    /// Number of keystream blocks left before the counter would wrap.
    pub fn remaining_blocks(&self) -> (r: Option<usize>)
        requires
            self.0.wf(),
        ensures
            r == Some((u32::MAX - self.0.state@[12]) as usize),
    {
        self.0.remaining_blocks()
    }

    /// XORs the keystream into `buf`.
    pub fn apply_keystream(&mut self, buf: &mut Vec<u8>)
        requires
            old(self).0.wf(),
            old(self).0.state@[12] + spec_blocks_of(old(buf)@.len() as nat) <= 0xFFFF_FFFF,
        ensures
            final(self).0.wf(),
            final(self).0.rounds == old(self).0.rounds,
            final(self).0.state@ == old(self).0.state@.update(
                12,
                (old(self).0.state@[12] + spec_blocks_of(old(buf)@.len() as nat)) as u32,
            ),
            final(buf)@ == spec_xor(
                old(buf)@,
                spec_keystream(
                    old(self).0.state@,
                    old(self).0.rounds as nat,
                    old(buf)@.len() as nat,
                ),
            ),
    {
        self.0.apply_keystream(buf);
    }
}

/// The legacy "djb" construction with a 64-bit nonce: the 8 nonce bytes are
/// padded on the left with four zero bytes, so the low word of the nonce
/// doubles as a second counter word that this implementation keeps at zero.
pub struct ChaCha20LegacyCore(pub ChaChaCore);

impl ChaCha20LegacyCore {
    /// Initializes from a 32-byte key and an 8-byte nonce; 10 full rounds.
    pub fn new(key: &Vec<u8>, iv: &Vec<u8>) -> (core: ChaCha20LegacyCore)
        requires
            key@.len() == 32,
            iv@.len() == 8,
        ensures
            core.0.wf(),
            core.0.rounds == 10,
            core.0.state@ == spec_chacha_init(key@, seq![0u8, 0u8, 0u8, 0u8] + iv@, 0),
    {
        let mut padded_iv: Vec<u8> = Vec::new();
        padded_iv.push(0);
        padded_iv.push(0);
        padded_iv.push(0);
        padded_iv.push(0);
        let mut i: usize = 0;
        while i < 8
            invariant
                i <= 8,
                iv@.len() == 8,
                padded_iv@.len() == 4 + i,
                padded_iv@.subrange(0, 4) == seq![0u8, 0u8, 0u8, 0u8],
                forall|j: int| 4 <= j < 4 + i ==> #[trigger] padded_iv@[j] == iv@[j - 4],
            decreases 8 - i,
        {
            padded_iv.push(iv[i]);
            assert(padded_iv@.subrange(0, 4) =~= seq![0u8, 0u8, 0u8, 0u8]);
            i += 1;
        }
        assert(padded_iv@ =~= seq![0u8, 0u8, 0u8, 0u8] + iv@);
        ChaCha20LegacyCore(ChaChaCore::new(key, &padded_iv, 10))
    }

    /// Reads the block counter.
    pub fn get_block_pos(&self) -> (pos: u32)
        requires
            self.0.wf(),
        ensures
            pos == self.0.state@[12],
    {
        self.0.get_block_pos()
    }

    /// Seeks to block index `pos`.
    pub fn set_block_pos(&mut self, pos: u32)
        requires
            old(self).0.wf(),
        ensures
            final(self).0.wf(),
            final(self).0.state@ == old(self).0.state@.update(12, pos),
            final(self).0.rounds == old(self).0.rounds,
    {
        self.0.set_block_pos(pos);
    }

    /// Number of keystream blocks left before the counter would wrap.
    pub fn remaining_blocks(&self) -> (r: Option<usize>)
        requires
            self.0.wf(),
        ensures
            r == Some((u32::MAX - self.0.state@[12]) as usize),
    {
        self.0.remaining_blocks()
    }

    /// XORs the keystream into `buf`.
    pub fn apply_keystream(&mut self, buf: &mut Vec<u8>)
        requires
            old(self).0.wf(),
            old(self).0.state@[12] + spec_blocks_of(old(buf)@.len() as nat) <= 0xFFFF_FFFF,
        ensures
            final(self).0.wf(),
            final(self).0.rounds == old(self).0.rounds,
            final(self).0.state@ == old(self).0.state@.update(
                12,
                (old(self).0.state@[12] + spec_blocks_of(old(buf)@.len() as nat)) as u32,
            ),
            final(buf)@ == spec_xor(
                old(buf)@,
                spec_keystream(
                    old(self).0.state@,
                    old(self).0.rounds as nat,
                    old(buf)@.len() as nat,
                ),
            ),
    {
        self.0.apply_keystream(buf);
    }
}

/// What encrypting `data` under `key` and `iv` yields: each byte XORed with
/// the ChaCha20 keystream byte at its own position, the counter starting at
/// zero.  Decryption is the same function, so this is also what decrypting
/// yields.
pub open spec fn spec_encrypted(data: Seq<u8>, key: Seq<u8>, iv: Seq<u8>) -> Seq<u8>
    recommends
        key.len() == 32,
        iv.len() == 12,
{
    Seq::new(
        data.len(),
        |i: int| data[i] ^ spec_ks_at(spec_chacha_init(key, iv, 0), 10, i),
    )
}

/// Law: encrypting twice with the same key and nonce gives the data back;
/// the keystream byte cancels under XOR.
pub proof fn lemma_encrypt_involutive(data: Seq<u8>, key: Seq<u8>, iv: Seq<u8>)
    ensures
        spec_encrypted(spec_encrypted(data, key, iv), key, iv) == data,
{
    assert(forall|x: u8, y: u8| ((x ^ y) ^ y) == x) by (bit_vector);
    assert(spec_encrypted(spec_encrypted(data, key, iv), key, iv) =~= data);
}

/// Law: applying the keystream to an empty buffer is a no-op — it takes no
/// keystream bytes and does not advance the counter.  The two terms are the
/// very spec terms that [`ChaChaCore::apply_keystream`] promises for a
/// zero-length buffer.
pub proof fn lemma_empty_apply_is_noop(s: Seq<u32>, r: nat)
    requires
        s.len() == 16,
    ensures
        s.update(12, (s[12] + spec_blocks_of(0)) as u32) == s,
        spec_keystream(s, r, 0) == Seq::<u8>::empty(),
{
    assert(s.update(12, (s[12] + spec_blocks_of(0)) as u32) =~= s);
    assert(spec_keystream(s, r, 0) =~= Seq::<u8>::empty());
}

/// Law: seeking to block index `p`, producing one block, seeking back to `p`
/// and producing again yields the same block, and the counter equals `p + 1`
/// after each production.  The two productions are the very spec terms that
/// [`ChaChaCore::set_block_pos`] and [`ChaChaCore::apply_keystream_block`]
/// promise.
pub proof fn lemma_seek_round_trip(s: Seq<u32>, p: u32, r: nat)
    requires
        s.len() == 16,
        p < 0xFFFF_FFFF,
    ensures
        s.update(12, p).update(12, (p + 1) as u32)[12] == p + 1,
        spec_block_bytes(s.update(12, p).update(12, (p + 1) as u32).update(12, p), r)
            == spec_block_bytes(s.update(12, p), r),
        s.update(12, p).update(12, (p + 1) as u32).update(12, p).update(
            12,
            (p + 1) as u32,
        )[12] == p + 1,
{
    assert(s.update(12, p).update(12, (p + 1) as u32).update(12, p) =~= s.update(12, p));
}

/// Law: a keystream byte read through a seek equals the byte of the
/// zero-counter stream at the absolute position, when the seek lands on a
/// block boundary: seeking to block `p` and reading byte `j` of the stream
/// from there reads byte `64·p + j` of the whole stream.
pub proof fn lemma_ks_seek(s: Seq<u32>, r: nat, p: int, j: int)
    requires
        s.len() == 16,
        s[12] == 0,
        0 <= p,
        0 <= j,
        p + j / 64 <= 0xFFFF_FFFF,
    ensures
        spec_ks_at(s.update(12, p as u32), r, j) == spec_ks_at(s, r, 64 * p + j),
{
    let t = s.update(12, p as u32);
    assert((64 * p + j) / 64 == p + j / 64 && (64 * p + j) % 64 == j % 64) by (nonlinear_arith)
        requires
            0 <= p,
            0 <= j,
    ;
    assert(t[12] == p);
    assert(((t[12] + j / 64) % 0x1_0000_0000) as u32 == (p + j / 64) as u32);
    assert(((s[12] + (64 * p + j) / 64) % 0x1_0000_0000) as u32 == (p + j / 64) as u32);
    assert(t.update(12, (p + j / 64) as u32) =~= s.update(12, (p + j / 64) as u32));
}

} // verus!
