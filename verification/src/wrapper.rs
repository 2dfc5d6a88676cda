//! Shard dispatcher and cluster entry wrapper.
//!
//! The wrapper owns the cluster handle and the L1 staging allocation across
//! calls.  A call builds the shared control block, forks the core team into
//! the entry point, and joins; the entry point drives the staging ring
//! round by round, each core encrypting its own shard of the work buffer
//! with the cipher seeked to the shard's absolute keystream position.  The
//! contract of [`PulpWrapper::run`] pins the whole engine down: the bytes
//! that come back are exactly the serial ChaCha20 keystream XOR, whatever
//! the core count, the buffer size or the source location.

use vstd::prelude::*;

use crate::buf::{spec_min, spec_sat_sub, BufAlloc, DmaBuf};
use crate::bytes::take_range;
use crate::chacha::{
    lemma_ks_seek, spec_blocks_of, spec_chacha_init, spec_encrypted, spec_ks_at, ChaChaCore,
};
use crate::cluster::{Cluster, Device};

verus! {

/// Where the source buffer lives; the staging ring reaches external RAM
/// through a device handle.
pub enum SourceLocation {
    /// Cluster-local scratchpad; not supported by the engine.
    L1,
    /// On-die SRAM reachable by the cluster DMA.
    L2,
    /// Off-die RAM reached through its controller device.
    Ram(Device),
}

/// The cluster-shared control block: written by the wrapper before the
/// fork, read-only to the cores during execution.
pub struct CoreData {
    /// The data being encrypted.
    pub source: Vec<u8>,
    /// The 32-byte cipher key.
    pub key: Vec<u8>,
    /// The 12-byte nonce.
    pub iv: Vec<u8>,
    /// Where `source` lives.
    pub loc: SourceLocation,
}

impl CoreData {
    /// Gathers the per-call inputs into the control block.
    pub fn new(source: Vec<u8>, key: Vec<u8>, iv: Vec<u8>, loc: SourceLocation) -> (r: CoreData)
        ensures
            r.source@ == source@,
            r.key@ == key@,
            r.iv@ == iv@,
            r.loc == loc,
    {
        CoreData { source, key, iv, loc }
    }
}

/// A sub-buffer size `b` that is a positive multiple of `64 * n` splits
/// into `n` shards of `b / n` bytes, each a whole number of 64-byte blocks.
proof fn lemma_shard_mod64(b: int, n: int)
    requires
        n >= 1,
        b >= 64 * n,
        b % (64 * n) == 0,
    ensures
        b % 64 == 0,
        (b / n) % 64 == 0,
        (b / n) * n == b,
{
    let m = 64 * n;
    vstd::arithmetic::div_mod::lemma_fundamental_div_mod(b, m);
    let q = b / m;
    assert(b == n * (64 * q) && (64 * q) * n + 0 == b && 64 * (n * q) + 0 == b) by (nonlinear_arith)
        requires
            b == m * q + 0,
            m == 64 * n,
    ;
    vstd::arithmetic::div_mod::lemma_fundamental_div_mod_converse_div(b, n, 64 * q, 0);
    vstd::arithmetic::div_mod::lemma_fundamental_div_mod_converse_mod(b, 64, n * q, 0);
    assert((b / n) * n == b);
    assert((64 * q) % 64 == 0) by (nonlinear_arith);
}

/// A multiple of a multiple of 64 is a multiple of 64.
proof fn lemma_mul_mod64(r: int, b: int)
    requires
        r >= 0,
        b >= 0,
        b % 64 == 0,
    ensures
        (r * b) % 64 == 0,
{
    vstd::arithmetic::div_mod::lemma_fundamental_div_mod(b, 64);
    let k = b / 64;
    assert((r * k) * 64 + 0 == r * b) by (nonlinear_arith)
        requires
            b == 64 * k + 0,
    ;
    vstd::arithmetic::div_mod::lemma_fundamental_div_mod_converse_mod(r * b, 64, r * k, 0);
}

/// One round of the shard dispatcher: every core takes its shard of the
/// current work buffer, seeks its cipher to the shard's absolute keystream
/// position, and XORs the keystream in.  The work buffer held bytes
/// `past .. past + work_buf_len` of the original source and now holds
/// their encryption; nothing else changes.
fn process_round(
    cipher: &mut ChaChaCore,
    buf: &mut DmaBuf,
    past: usize,
    Ghost(orig): Ghost<Seq<u8>>,
    Ghost(init): Ghost<Seq<u32>>,
)
    requires
        old(buf).wf(),
        old(cipher).wf(),
        old(cipher).rounds == 10,
        init.len() == 16,
        init[12] == 0,
        forall|i: int| 0 <= i < 16 && i != 12 ==> old(cipher).state@[i] == init[i],
        orig.len() == old(buf).source@.len(),
        past == old(buf).rounds * old(buf).buf_len,
        past <= orig.len(),
        orig.len() + 3 * old(buf).buf_len <= usize::MAX,
        orig.len() + 2 * old(buf).buf_len <= 0xFFFF_FFFF * 64,
        forall|q: int|
            old(buf).counters@[0] <= q < old(buf).counters@[0] + old(buf).work_buf_len
                ==> #[trigger] old(buf).l1@[q] == orig[past + (q - old(buf).counters@[0])],
    ensures
        final(buf).wf(),
        final(cipher).wf(),
        final(cipher).rounds == 10,
        forall|i: int| 0 <= i < 16 && i != 12 ==> final(cipher).state@[i] == init[i],
        final(buf).source@ == old(buf).source@,
        final(buf).rounds == old(buf).rounds,
        final(buf).buf_len == old(buf).buf_len,
        final(buf).cores == old(buf).cores,
        final(buf).counters@ == old(buf).counters@,
        final(buf).work_buf_len == old(buf).work_buf_len,
        final(buf).last_transfer == old(buf).last_transfer,
        final(buf).l1@.len() == old(buf).l1@.len(),
        forall|q: int|
            0 <= q < old(buf).l1@.len() && !(old(buf).counters@[0] <= q < old(buf).counters@[0]
                + old(buf).work_buf_len) ==> #[trigger] final(buf).l1@[q] == old(buf).l1@[q],
        forall|q: int|
            old(buf).counters@[0] <= q < old(buf).counters@[0] + old(buf).work_buf_len
                ==> #[trigger] final(buf).l1@[q] == (orig[past + (q - old(buf).counters@[0])]
                ^ spec_ks_at(init, 10, past + (q - old(buf).counters@[0]))),
{
    let ghost c0 = old(buf).counters@[0] as int;
    let ghost w = old(buf).work_buf_len as int;
    let ghost l10 = old(buf).l1@;
    let ghost b0 = old(buf).buf_len as int;
    let ghost n0 = old(buf).cores as int;
    let cores = buf.cores;
    let shard_size = buf.buf_len / buf.cores;
    proof {
        lemma_shard_mod64(b0, n0);
        lemma_mul_mod64(old(buf).rounds as int, b0);
        assert(past % 64 == 0);
        assert(shard_size == b0 / n0);
    }
    let mut core: usize = 0;
    while core < cores
        invariant
            buf.wf(),
            cipher.wf(),
            cipher.rounds == 10,
            init.len() == 16,
            init[12] == 0,
            forall|i: int| 0 <= i < 16 && i != 12 ==> cipher.state@[i] == init[i],
            core <= cores,
            cores == buf.cores,
            buf.cores == n0,
            buf.buf_len == b0,
            shard_size == b0 / n0,
            shard_size * n0 == b0,
            shard_size % 64 == 0,
            b0 % 64 == 0,
            past % 64 == 0,
            past == buf.rounds * b0,
            past <= orig.len(),
            orig.len() == buf.source@.len(),
            orig.len() + 3 * b0 <= usize::MAX,
            orig.len() + 2 * b0 <= 0xFFFF_FFFF * 64,
            buf.source@ == old(buf).source@,
            buf.rounds == old(buf).rounds,
            buf.counters@ == old(buf).counters@,
            buf.work_buf_len == old(buf).work_buf_len,
            buf.last_transfer == old(buf).last_transfer,
            buf.l1@.len() == l10.len(),
            c0 == buf.counters@[0],
            w == buf.work_buf_len,
            forall|q: int| c0 <= q < c0 + w ==> #[trigger] l10[q] == orig[past + (q - c0)],
            forall|q: int|
                0 <= q < l10.len() && !(c0 <= q < c0 + w) ==> #[trigger] buf.l1@[q] == l10[q],
            forall|q: int|
                c0 <= q < c0 + spec_min(core * shard_size, w) ==> #[trigger] buf.l1@[q] == (
                orig[past + (q - c0)] ^ spec_ks_at(init, 10, past + (q - c0))),
            forall|q: int|
                c0 + spec_min(core * shard_size, w) <= q < c0 + w ==> #[trigger] buf.l1@[q]
                    == l10[q],
        decreases cores - core,
    {
        proof {
            lemma_shard_bounds_round(b0, n0, core as int);
        }
        let base = core * shard_size;
        let mut shard = buf.get_work_buf(core);
        let ghost slen = buf.spec_shard_len(core as int);
        let ghost shard0 = shard@;
        let pos = (past + base) / 64;
        proof {
            lemma_mul_mod64(core as int, shard_size as int);
            assert((past + base) % 64 == 0);
            vstd::arithmetic::div_mod::lemma_fundamental_div_mod((past + base) as int, 64);
            assert(64 * pos == past + base);
            assert(pos <= 0xFFFF_FFFF);
        }
        cipher.set_block_pos(pos as u32);
        let ghost seeked = cipher.state@;
        proof {
            assert(seeked =~= init.update(12, pos as u32));
            assert(slen <= shard_size);
            assert(pos + spec_blocks_of(shard@.len() as nat) <= 0xFFFF_FFFF) by {
                assert(64 * pos + slen <= orig.len() + b0);
                assert(spec_blocks_of(slen as nat) <= slen / 64 + 1);
            }
        }
        cipher.apply_keystream(&mut shard);
        buf.set_work_buf(core, &shard);
        proof {
            assert forall|q: int| c0 + base <= q < c0 + base + slen implies #[trigger] buf.l1@[q]
                == (orig[past + (q - c0)] ^ spec_ks_at(init, 10, past + (q - c0))) by {
                let j = q - (c0 + base);
                assert(shard@[j] == shard0[j] ^ spec_ks_at(seeked, 10, j));
                assert(shard0[j] == l10[q]);
                assert(l10[q] == orig[past + (q - c0)]);
                assert(spec_ks_at(seeked, 10, j) == spec_ks_at(init.update(12, pos as u32), 10, j));
                lemma_ks_seek(init, 10, pos as int, j);
                assert(64 * pos + j == past + (q - c0));
            }
            assert(spec_min((core + 1) * shard_size as int, w) <= base + slen + shard_size)
                by (nonlinear_arith)
                requires
                    base == core * shard_size,
                    slen == spec_min(shard_size as int, spec_sat_sub(w, base as int)),
                    shard_size >= 0,
                    core >= 0,
                    w >= 0,
            ;
            assert((core + 1) * shard_size == base + shard_size) by (nonlinear_arith)
                requires
                    base == core * shard_size,
            ;
        }
        core += 1;
    }
    proof {
        assert(spec_min(cores as int * shard_size as int, w) == w) by (nonlinear_arith)
            requires
                shard_size * (cores as int) == b0,
                cores as int == n0,
                n0 >= 1,
                0 <= w <= b0,
        ;
    }
}

/// The per-core entry point, run by the forked team: builds the staging
/// ring of the flavor `loc` asks for, then drives the round loop and the
/// tail round, and flushes.  In this model the team's data-parallel work is
/// carried out core by core inside [`process_round`]; the barriers and the
/// DMA waits sit inside the ring operations exactly where the cores would
/// meet them.
fn entry_point(data: CoreData, l1_alloc: BufAlloc, cores: usize, buf_len: usize) -> (r: (
    Vec<u8>,
    BufAlloc,
))
    requires
        data.key@.len() == 32,
        data.iv@.len() == 12,
        !(data.loc is L1),
        cores >= 1,
        buf_len >= 64 * cores,
        buf_len as int % (64 * cores as int) == 0,
        l1_alloc.buf@.len() == 3 * buf_len,
        data.source@.len() + 3 * buf_len <= usize::MAX,
        data.source@.len() + 2 * buf_len <= 0xFFFF_FFFF * 64,
    ensures
        r.0@ == spec_encrypted(data.source@, data.key@, data.iv@),
        r.1.buf@.len() == 3 * buf_len,
{
    let CoreData { source, key, iv, loc } = data;
    let ghost orig = source@;
    let len = source.len();
    if len == 0 {
        proof {
            assert(source@ =~= spec_encrypted(orig, key@, iv@));
        }
        return (source, l1_alloc);
    }
    let mut cipher = ChaChaCore::new(&key, &iv, 10);
    let ghost init = cipher.state@;
    proof {
        assert(crate::chacha::spec_le_words(key@).len() == 8);
        assert(crate::chacha::spec_le_words(iv@).len() == 3);
        assert(init[12] == 0);
    }
    let mut buf = match loc {
        SourceLocation::L2 => DmaBuf::new_from_l2(source, l1_alloc, buf_len, cores),
        SourceLocation::Ram(dev) => DmaBuf::new_from_ram(source, l1_alloc, &dev, buf_len, cores),
        SourceLocation::L1 => {
            proof {
                assert(false);
            }
            vstd::pervasive::unreached()
        },
    };
    let full_rounds = len / buf_len;
    proof {
        vstd::arithmetic::div_mod::lemma_fundamental_div_mod(len as int, buf_len as int);
    }
    let mut past: usize = 0;
    let mut r: usize = 0;
    while r < full_rounds
        invariant
            buf.wf(),
            cipher.wf(),
            cipher.rounds == 10,
            init == spec_chacha_init(key@, iv@, 0),
            init.len() == 16,
            init[12] == 0,
            forall|i: int| 0 <= i < 16 && i != 12 ==> cipher.state@[i] == init[i],
            buf.buf_len == buf_len,
            buf.cores == cores,
            cores >= 1,
            buf_len >= 64 * cores,
            r <= full_rounds,
            full_rounds == len as int / buf_len as int,
            past == r * buf_len,
            past <= len,
            len == orig.len(),
            buf.source@.len() == len,
            len + 3 * buf_len <= usize::MAX,
            len + 2 * buf_len <= 0xFFFF_FFFF * 64,
            buf.rounds == r,
            forall|i: int|
                0 <= i < past ==> #[trigger] buf.source@[i] == (orig[i] ^ spec_ks_at(
                    init,
                    10,
                    i,
                )),
            forall|i: int| past <= i < len ==> #[trigger] buf.source@[i] == orig[i],
            forall|q: int|
                buf.counters@[0] <= q < buf.counters@[0] + buf.work_buf_len
                    ==> #[trigger] buf.l1@[q] == orig[past + (q - buf.counters@[0])],
            forall|q: int|
                buf.counters@[1] <= q < buf.counters@[1] + buf.last_transfer
                    ==> #[trigger] buf.l1@[q] == orig[past + buf_len + (q - buf.counters@[1])],
        decreases full_rounds - r,
    {
        proof {
            vstd::arithmetic::div_mod::lemma_fundamental_div_mod(len as int, buf_len as int);
            vstd::arithmetic::div_mod::lemma_mod_bound(len as int, buf_len as int);
            assert(r * buf_len + buf_len <= full_rounds * buf_len) by (nonlinear_arith)
                requires
                    r < full_rounds,
                    buf_len >= 0,
            ;
            assert(full_rounds * buf_len <= len) by (nonlinear_arith)
                requires
                    len == buf_len * full_rounds + len as int % buf_len as int,
                    len as int % buf_len as int >= 0,
            ;
        }
        round_step(&mut cipher, &mut buf, past, Ghost(orig), Ghost(init));
        proof {
            assert((r + 1) * buf_len == r * buf_len + buf_len) by (nonlinear_arith);
            assert(spec_min(past + buf_len, len as int) == past + buf_len);
        }
        past = past + buf_len;
        r = r + 1;
    }
    if len > past {
        round_step(&mut cipher, &mut buf, past, Ghost(orig), Ghost(init));
        proof {
            vstd::arithmetic::div_mod::lemma_fundamental_div_mod(len as int, buf_len as int);
            vstd::arithmetic::div_mod::lemma_mod_bound(len as int, buf_len as int);
            assert(full_rounds * buf_len == buf_len * full_rounds) by (nonlinear_arith);
            assert(len - past < buf_len);
            assert(spec_min(past + buf_len, len as int) == len);
        }
    }
    proof {
        if buf.rounds == 0 {
            assert(past == 0 && len <= past);
            assert(false);
        }
        assert forall|i: int| 0 <= i < len implies #[trigger] buf.source@[i] == (orig[i]
            ^ spec_ks_at(init, 10, i)) by {}
    }
    buf.flush();
    let (out, alloc) = buf.into_parts();
    proof {
        assert(out@ =~= spec_encrypted(orig, key@, iv@));
    }
    (out, alloc)
}

/// One full pipeline step: a dispatcher round over the current work buffer
/// followed by an `advance` of the staging ring.  Extends the encrypted
/// prefix of the source by the length of the finished work slab and keeps
/// the pipeline-content invariants of the round loop.
fn round_step(
    cipher: &mut ChaChaCore,
    buf: &mut DmaBuf,
    past: usize,
    Ghost(orig): Ghost<Seq<u8>>,
    Ghost(init): Ghost<Seq<u32>>,
)
    requires
        old(buf).wf(),
        old(cipher).wf(),
        old(cipher).rounds == 10,
        init.len() == 16,
        init[12] == 0,
        forall|i: int| 0 <= i < 16 && i != 12 ==> old(cipher).state@[i] == init[i],
        orig.len() == old(buf).source@.len(),
        past == old(buf).rounds * old(buf).buf_len,
        past < orig.len(),
        orig.len() + 3 * old(buf).buf_len <= usize::MAX,
        orig.len() + 2 * old(buf).buf_len <= 0xFFFF_FFFF * 64,
        forall|i: int|
            0 <= i < past ==> #[trigger] old(buf).source@[i] == (orig[i] ^ spec_ks_at(
                init,
                10,
                i,
            )),
        forall|i: int| past <= i < orig.len() ==> #[trigger] old(buf).source@[i] == orig[i],
        forall|q: int|
            old(buf).counters@[0] <= q < old(buf).counters@[0] + old(buf).work_buf_len
                ==> #[trigger] old(buf).l1@[q] == orig[past + (q - old(buf).counters@[0])],
        forall|q: int|
            old(buf).counters@[1] <= q < old(buf).counters@[1] + old(buf).last_transfer
                ==> #[trigger] old(buf).l1@[q] == orig[past + old(buf).buf_len + (q - old(
                buf).counters@[1])],
    ensures
        final(buf).wf(),
        final(cipher).wf(),
        final(cipher).rounds == 10,
        forall|i: int| 0 <= i < 16 && i != 12 ==> final(cipher).state@[i] == init[i],
        final(buf).buf_len == old(buf).buf_len,
        final(buf).cores == old(buf).cores,
        final(buf).rounds == old(buf).rounds + 1,
        final(buf).source@.len() == old(buf).source@.len(),
        forall|i: int|
            0 <= i < spec_min(past + old(buf).buf_len, orig.len() as int)
                ==> #[trigger] final(buf).source@[i] == (orig[i] ^ spec_ks_at(init, 10, i)),
        forall|i: int|
            spec_min(past + old(buf).buf_len, orig.len() as int) <= i < orig.len()
                ==> #[trigger] final(buf).source@[i] == orig[i],
        forall|q: int|
            final(buf).counters@[0] <= q < final(buf).counters@[0] + final(buf).work_buf_len
                ==> #[trigger] final(buf).l1@[q] == orig[past + old(buf).buf_len + (q - final(
                buf).counters@[0])],
        forall|q: int|
            final(buf).counters@[1] <= q < final(buf).counters@[1] + final(buf).last_transfer
                ==> #[trigger] final(buf).l1@[q] == orig[past + 2 * old(buf).buf_len + (q
                - final(buf).counters@[1])],
{
    let ghost b = old(buf).buf_len as int;
    let ghost len = orig.len() as int;
    let ghost w = old(buf).work_buf_len as int;
    let ghost c0 = old(buf).counters@[0] as int;
    let ghost c1 = old(buf).counters@[1] as int;
    let ghost c2 = old(buf).counters@[2] as int;
    let ghost r0 = old(buf).rounds as int;
    process_round(cipher, buf, past, Ghost(orig), Ghost(init));
    let ghost l1_mid = buf.l1@;
    let ghost src_mid = buf.source@;
    proof {
        assert(w == spec_min(b, spec_sat_sub(len, r0 * b)));
        assert(w == spec_min(b, len - past));
        assert(w > 0);
        assert((r0 + 2) * b == past + 2 * b) by (nonlinear_arith)
            requires
                past == r0 * b,
        ;
    }
    buf.advance();
    proof {
        let src_new = buf.source@;
        let commit = l1_mid.subrange(c0, c0 + w);
        assert(src_new == crate::bytes::spec_splice(src_mid, past as int, commit));
        // the encrypted prefix now reaches past + w == min(past + b, len)
        assert(spec_min(past + b, len) == past + w);
        assert forall|i: int| 0 <= i < past + w implies #[trigger] src_new[i] == (orig[i]
            ^ spec_ks_at(init, 10, i)) by {
            if i < past {
                assert(src_new[i] == src_mid[i]);
            } else {
                assert(src_new[i] == commit[i - past]);
                assert(commit[i - past] == l1_mid[c0 + (i - past)]);
            }
        }
        assert forall|i: int| past + w <= i < len implies #[trigger] src_new[i] == orig[i] by {
            assert(src_new[i] == src_mid[i]);
        }
        // the new work buffer is the old prefetch buffer, untouched by the
        // advance because the new prefetch lands in the old commit buffer
        let w_new = buf.work_buf_len as int;
        let t_new = buf.last_transfer as int;
        assert(buf.counters@[0] == c1 && buf.counters@[1] == c2);
        assert forall|q: int| c1 <= q < c1 + w_new implies #[trigger] buf.l1@[q] == orig[past + b
            + (q - c1)] by {
            assert(buf.l1@[q] == l1_mid[q]);
            assert(l1_mid[q] == old(buf).l1@[q]);
        }
        assert forall|q: int| c2 <= q < c2 + t_new implies #[trigger] buf.l1@[q] == orig[past + 2
            * b + (q - c2)] by {
            assert(t_new == spec_min(b, spec_sat_sub(len, past + 2 * b)));
            assert(past + 2 * b < len);
            assert(buf.l1@[q] == src_new.subrange(past + 2 * b, past + 2 * b + t_new)[q - c2]);
            assert(src_new[past + 2 * b + (q - c2)] == orig[past + 2 * b + (q - c2)]);
        }
    }
}

/// Convenience wrapper for stream encryption and decryption on the
/// cluster: owns the cluster handle and the L1 staging allocation so that
/// they are reused across calls to [`Self::run`].
pub struct PulpWrapper {
    /// The open cluster device.
    pub cluster: Cluster,
    /// The L1 triple-buffer allocation, `3 * buf_len` bytes.
    pub cluster_buffer: BufAlloc,
    /// Number of cores the team forks.
    pub cores: usize,
    /// Size of one staging sub-buffer.
    pub buf_len: usize,
}

impl PulpWrapper {
    /// The wrapper is well formed when the staging allocation matches its
    /// geometry: three sub-buffers, each a positive multiple of
    /// `64 * cores` so that every shard is a whole number of blocks.
    pub open spec fn wf(&self) -> bool {
        &&& self.cluster_buffer.buf@.len() == 3 * self.buf_len
        &&& self.cores >= 1
        &&& self.buf_len >= 64 * self.cores
        &&& self.buf_len as int % (64 * self.cores as int) == 0
    }

    /// Initializes the wrapper and allocates the staging buffers in the
    /// cluster's L1, reused across calls to [`Self::run`].
    pub fn new(cluster: Cluster, cores: usize, buf_len: usize) -> (r: PulpWrapper)
        requires
            cores >= 1,
            buf_len >= 64 * cores,
            buf_len as int % (64 * cores as int) == 0,
            3 * buf_len <= usize::MAX,
        ensures
            r.wf(),
            r.cores == cores,
            r.buf_len == buf_len,
    {
        let mut cluster = cluster;
        let cluster_buffer = BufAlloc::new(&mut cluster, buf_len);
        PulpWrapper { cluster, cluster_buffer, cores, buf_len }
    }

    /// Encrypts or decrypts `source` in place with the given key and nonce:
    /// the team of cores runs the staging ring over the data, and the bytes
    /// that come back are exactly the serial ChaCha20 keystream XOR — the
    /// same for every core count, buffer size and source location.
    pub fn run(&mut self, source: &mut Vec<u8>, key: &Vec<u8>, iv: &Vec<u8>, loc: SourceLocation)
        requires
            old(self).wf(),
            key@.len() == 32,
            iv@.len() == 12,
            !(loc is L1),
            old(source)@.len() + 3 * old(self).buf_len <= usize::MAX,
            old(source)@.len() + 2 * old(self).buf_len <= 0xFFFF_FFFF * 64,
        ensures
            final(self).wf(),
            final(self).cores == old(self).cores,
            final(self).buf_len == old(self).buf_len,
            final(source)@ == spec_encrypted(old(source)@, key@, iv@),
    {
        let mut src: Vec<u8> = Vec::new();
        core::mem::swap(source, &mut src);
        let key_len = key.len();
        let iv_len = iv.len();
        let key_copy = take_range(key, 0, key_len);
        let iv_copy = take_range(iv, 0, iv_len);
        proof {
            assert(key_copy@ =~= key@);
            assert(iv_copy@ =~= iv@);
        }
        let data = CoreData::new(src, key_copy, iv_copy, loc);
        let mut alloc = BufAlloc { buf: Vec::new() };
        core::mem::swap(&mut self.cluster_buffer, &mut alloc);
        let (mut out, alloc_back) = entry_point(data, alloc, self.cores, self.buf_len);
        self.cluster_buffer = alloc_back;
        core::mem::swap(source, &mut out);
    }
}

/// Law: at every advance boundary the three role counters are exactly the
/// offsets `{0, B, 2B}` of the three sub-buffers — the ring never loses or
/// duplicates a buffer, whatever the rotation.
pub proof fn lemma_ring_invariant(buf: &DmaBuf)
    requires
        buf.wf(),
    ensures
        set![
            buf.counters@[0] as int,
            buf.counters@[1] as int,
            buf.counters@[2] as int,
        ] == set![0int, buf.buf_len as int, 2 * buf.buf_len as int],
{
    let b = buf.buf_len as int;
    let have = set![buf.counters@[0] as int, buf.counters@[1] as int, buf.counters@[2] as int];
    let want = set![0int, b, 2 * b];
    if buf.counters@[0] == 0 {
        assert(have =~= want);
    } else if buf.counters@[0] == b {
        assert(have =~= want);
    } else {
        assert(have =~= want);
    }
}

/// Shard arithmetic for the dispatcher round: the base of a core's shard
/// stays inside one sub-buffer.
proof fn lemma_shard_bounds_round(b: int, n: int, c: int)
    requires
        n >= 1,
        b >= 64 * n,
        b % (64 * n) == 0,
        0 <= c < n,
    ensures
        0 <= c * (b / n) <= b - (b / n),
        (c + 1) * (b / n) <= b,
{
    let s = b / n;
    lemma_shard_mod64(b, n);
    assert(0 <= c * s && c * s <= b - s && (c + 1) * s <= b) by (nonlinear_arith)
        requires
            n >= 1,
            0 <= c < n,
            s * n == b,
            s >= 0,
    ;
}

} // verus!
