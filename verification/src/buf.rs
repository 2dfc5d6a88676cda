//! The DMA staging ring: a managed buffer in L1 with automatic transfers in
//! and out, round by round.
//!
//! The L1 allocation is divided in three sub-buffers whose roles rotate on
//! every [`DmaBuf::advance`]: the finished work buffer becomes the commit
//! buffer and is written back, the prefetched buffer becomes the new work
//! buffer, and the old commit buffer receives the next prefetch.  On the
//! target the copies are carried out by a DMA engine while the cores
//! compute; here the remote memory is held in the ring itself and every
//! transfer is an explicit copy with an exact contract, so the rotation,
//! the transfer offsets and the tail arithmetic are all verified.

use vstd::prelude::*;

use crate::bytes::{copy_range, spec_splice, take_range};
use crate::cluster::{Cluster, Device};

verus! {

/// The smaller of two integers.
pub open spec fn spec_min(a: int, b: int) -> int {
    if a <= b {
        a
    } else {
        b
    }
}

/// `a - b`, saturating at zero.
pub open spec fn spec_sat_sub(a: int, b: int) -> int {
    if a >= b {
        a - b
    } else {
        0
    }
}

/// One outstanding transfer of the staging ring, tagged with the path it
/// takes: the cluster DMA to L2, or the controller of an external RAM.
/// A fresh request must not be waited on; `issued` records that the request
/// has been handed to the engine at least once.
pub enum DmaTransfer {
    /// A transfer through the external RAM controller.
    Ram {
        /// Whether a transfer was ever issued on this request.
        issued: bool,
    },
    /// A transfer through the cluster DMA to L2.
    L2 {
        /// Whether a transfer was ever issued on this request.
        issued: bool,
    },
}

impl DmaTransfer {
    /// Whether a transfer was ever issued on this request, so that a wait
    /// is well defined.
    pub open spec fn spec_issued(&self) -> bool {
        match self {
            DmaTransfer::Ram { issued } => *issued,
            DmaTransfer::L2 { issued } => *issued,
        }
    }

    /// A fresh request for the cluster DMA to L2.
    pub fn new_l2() -> (t: DmaTransfer)
        ensures
            t == (DmaTransfer::L2 { issued: false }),
    {
        DmaTransfer::L2 { issued: false }
    }

    /// A fresh request for the external RAM controller; the device handle
    /// is what the request would be pinned to on the target.
    pub fn new_ram(ram: &Device) -> (t: DmaTransfer)
        ensures
            t == (DmaTransfer::Ram { issued: false }),
    {
        let _ = ram;
        DmaTransfer::Ram { issued: false }
    }

    /// Records an issue on this request without moving bytes: a zero-length
    /// transfer, issued so that a later wait is defined.
    fn issue_empty(&mut self)
        ensures
            final(self).spec_issued(),
            *old(self) is Ram <==> *final(self) is Ram,
    {
        let t = match self {
            DmaTransfer::Ram { .. } => DmaTransfer::Ram { issued: true },
            DmaTransfer::L2 { .. } => DmaTransfer::L2 { issued: true },
        };
        *self = t;
    }

    /// Inbound transfer: `len` bytes of remote memory at `remote_off` land
    /// in L1 at `l1_off`.
    pub fn transfer_in(
        &mut self,
        remote: &Vec<u8>,
        remote_off: usize,
        l1: &mut Vec<u8>,
        l1_off: usize,
        len: usize,
    )
        requires
            remote_off + len <= remote@.len(),
            l1_off + len <= old(l1)@.len(),
        ensures
            final(l1)@ == spec_splice(
                old(l1)@,
                l1_off as int,
                remote@.subrange(remote_off as int, remote_off + len),
            ),
            final(l1)@.len() == old(l1)@.len(),
            final(self).spec_issued(),
            *old(self) is Ram <==> *final(self) is Ram,
    {
        copy_range(l1, l1_off, remote, remote_off, len);
        self.issue_empty();
    }

    /// Outbound transfer: `len` bytes of L1 at `l1_off` land in remote
    /// memory at `remote_off`.
    pub fn transfer_out(
        &mut self,
        remote: &mut Vec<u8>,
        remote_off: usize,
        l1: &Vec<u8>,
        l1_off: usize,
        len: usize,
    )
        requires
            remote_off + len <= old(remote)@.len(),
            l1_off + len <= l1@.len(),
        ensures
            final(remote)@ == spec_splice(
                old(remote)@,
                remote_off as int,
                l1@.subrange(l1_off as int, l1_off + len),
            ),
            final(remote)@.len() == old(remote)@.len(),
            final(self).spec_issued(),
            *old(self) is Ram <==> *final(self) is Ram,
    {
        copy_range(remote, remote_off, l1, l1_off, len);
        self.issue_empty();
    }

    /// Waits for the transfer to complete.  Transfers complete at issue in
    /// this model, so waiting changes nothing; it is defined only on a
    /// request that was issued at least once.
    pub fn wait(&mut self)
        requires
            old(self).spec_issued(),
        ensures
            *final(self) == *old(self),
    {
    }
}

/// The L1 scratchpad allocation backing one staging ring: a contiguous
/// region of three sub-buffers of `buf_len` bytes each.
pub struct BufAlloc {
    /// The backing bytes, `3 * buf_len` of them.
    pub buf: Vec<u8>,
}

impl BufAlloc {
    /// Allocates the triple-buffer region from the cluster's L1.
    pub fn new(cluster: &mut Cluster, buf_len: usize) -> (r: BufAlloc)
        requires
            3 * buf_len <= usize::MAX,
        ensures
            r.buf@.len() == 3 * buf_len,
            *final(cluster) == *old(cluster),
    {
        let _ = cluster;
        let buf = vec![0u8; 3 * buf_len];
        BufAlloc { buf }
    }
}

/// The triple-buffer staging ring.  `counters` holds the byte offsets of
/// the three roles inside the L1 region: work, prefetch, commit, in that
/// order; they are always a rotation of `[0, B, 2B]`.
pub struct DmaBuf {
    /// Remote memory: the data being encrypted, in L2 or external RAM.
    pub source: Vec<u8>,
    /// The L1 region of `3 * buf_len` bytes.
    pub l1: Vec<u8>,
    /// Size `B` of one sub-buffer; a multiple of `64 * cores`.
    pub buf_len: usize,
    /// Number of cores sharing the ring.
    pub cores: usize,
    /// Completed advances.
    pub rounds: usize,
    /// Request used for inbound transfers.
    pub pre_fetch_dma: DmaTransfer,
    /// Request used for outbound transfers.
    pub commit_dma: DmaTransfer,
    /// Byte offsets of the work, prefetch and commit sub-buffers.
    pub counters: [usize; 3],
    /// Bytes of the most recent prefetch.
    pub last_transfer: usize,
    /// Bytes of the current work buffer.
    pub work_buf_len: usize,
}

impl DmaBuf {
    /// The ring invariant: the three counters are a rotation of
    /// `[0, B, 2B]`, the work and prefetch lengths follow the staging
    /// position, and a request is only ever waited on after an issue.
    pub open spec fn wf(&self) -> bool {
        let b = self.buf_len as int;
        let len = self.source@.len() as int;
        &&& self.l1@.len() == 3 * b
        &&& self.cores >= 1
        &&& self.buf_len >= 64 * self.cores
        &&& self.buf_len as int % (64 * self.cores as int) == 0
        &&& (
        (self.counters@[0] == 0 && self.counters@[1] == b && self.counters@[2] == 2 * b)
            || (self.counters@[0] == b && self.counters@[1] == 2 * b && self.counters@[2] == 0)
            || (self.counters@[0] == 2 * b && self.counters@[1] == 0 && self.counters@[2] == b))
        &&& self.work_buf_len == spec_min(b, spec_sat_sub(len, self.rounds * b))
        &&& self.last_transfer == spec_min(b, spec_sat_sub(len, (self.rounds + 1) * b))
        &&& self.pre_fetch_dma.spec_issued()
        &&& (self.rounds >= 1 ==> self.commit_dma.spec_issued())
    }

    /// Size of one core's shard of a work buffer.
    pub open spec fn spec_shard_size(&self) -> int {
        self.buf_len as int / self.cores as int
    }

    /// Offset of `core_id`'s shard inside the work buffer.
    pub open spec fn spec_shard_base(&self, core_id: int) -> int {
        core_id * self.spec_shard_size()
    }

    /// Bytes of `core_id`'s shard: the shard size clipped to what the work
    /// buffer still holds, zero for cores past the tail.
    pub open spec fn spec_shard_len(&self, core_id: int) -> int {
        spec_min(self.spec_shard_size(), spec_sat_sub(
            self.work_buf_len as int,
            self.spec_shard_base(core_id),
        ))
    }

    #[verifier::rlimit(50)]
    fn common(
        source: Vec<u8>,
        mut l1: Vec<u8>,
        mut pre_fetch_dma: DmaTransfer,
        commit_dma: DmaTransfer,
        buf_len: usize,
        cores: usize,
    ) -> (r: DmaBuf)
        requires
            l1@.len() == 3 * buf_len,
            cores >= 1,
            buf_len >= 64 * cores,
            buf_len as int % (64 * cores as int) == 0,
        ensures
            r.wf(),
            r.rounds == 0,
            r.buf_len == buf_len,
            r.cores == cores,
            r.source@ == source@,
            r.counters@[0] == 0 && r.counters@[1] == buf_len && r.counters@[2] == 2 * buf_len,
            r.l1@ == spec_splice(
                l1@,
                0,
                source@.subrange(0, spec_min(2 * buf_len, source@.len() as int)),
            ),
            r.work_buf_len == spec_min(buf_len as int, source@.len() as int),
            r.last_transfer == spec_min(
                buf_len as int,
                spec_sat_sub(source@.len() as int, buf_len as int),
            ),
            r.commit_dma == commit_dma,
            r.pre_fetch_dma is Ram <==> pre_fetch_dma is Ram,
    {
        let l1_len = l1.len();
        let src_len = source.len();
        // Initial transfer: the first two sub-buffers are filled, then all
        // cores meet at the team barrier before any of them starts work.
        let size = if 2 * buf_len <= src_len {
            2 * buf_len
        } else {
            src_len
        };
        pre_fetch_dma.transfer_in(&source, 0, &mut l1, 0, size);
        pre_fetch_dma.wait();
        let work_buf_len = if buf_len <= src_len {
            buf_len
        } else {
            src_len
        };
        let rem = if src_len >= buf_len {
            src_len - buf_len
        } else {
            0
        };
        let last_transfer = if buf_len <= rem {
            buf_len
        } else {
            rem
        };
        let r = DmaBuf {
            source,
            l1,
            buf_len,
            cores,
            rounds: 0,
            pre_fetch_dma,
            commit_dma,
            counters: [0, buf_len, 2 * buf_len],
            last_transfer,
            work_buf_len,
        };
        proof {
            assert(r.counters@.len() == 3);
            assert(r.counters@[0] == 0);
            assert(r.counters@[1] == buf_len);
            assert(r.counters@[2] == 2 * buf_len);
            assert(r.l1@.len() == 3 * buf_len);
            assert(r.work_buf_len == spec_min(buf_len as int, r.source@.len() as int));
            assert(r.last_transfer == spec_min(
                buf_len as int,
                spec_sat_sub(r.source@.len() as int, buf_len as int),
            ));
            assert(r.pre_fetch_dma.spec_issued());
        }
        r
    }

    /// Builds a staging ring over a source in external RAM reached through
    /// `device`.
    pub fn new_from_ram(
        source: Vec<u8>,
        l1_alloc: BufAlloc,
        device: &Device,
        buf_len: usize,
        cores: usize,
    ) -> (r: DmaBuf)
        requires
            l1_alloc.buf@.len() == 3 * buf_len,
            cores >= 1,
            buf_len >= 64 * cores,
            buf_len as int % (64 * cores as int) == 0,
        ensures
            r.wf(),
            r.rounds == 0,
            r.buf_len == buf_len,
            r.cores == cores,
            r.source@ == source@,
            r.counters@[0] == 0 && r.counters@[1] == buf_len && r.counters@[2] == 2 * buf_len,
            r.l1@ == spec_splice(
                l1_alloc.buf@,
                0,
                source@.subrange(0, spec_min(2 * buf_len, source@.len() as int)),
            ),
    {
        Self::common(
            source,
            l1_alloc.buf,
            DmaTransfer::new_ram(device),
            DmaTransfer::new_ram(device),
            buf_len,
            cores,
        )
    }

    /// Builds a staging ring over a source in L2 memory.
    pub fn new_from_l2(source: Vec<u8>, l1_alloc: BufAlloc, buf_len: usize, cores: usize) -> (r:
        DmaBuf)
        requires
            l1_alloc.buf@.len() == 3 * buf_len,
            cores >= 1,
            buf_len >= 64 * cores,
            buf_len as int % (64 * cores as int) == 0,
        ensures
            r.wf(),
            r.rounds == 0,
            r.buf_len == buf_len,
            r.cores == cores,
            r.source@ == source@,
            r.counters@[0] == 0 && r.counters@[1] == buf_len && r.counters@[2] == 2 * buf_len,
            r.l1@ == spec_splice(
                l1_alloc.buf@,
                0,
                source@.subrange(0, spec_min(2 * buf_len, source@.len() as int)),
            ),
    {
        Self::common(
            source,
            l1_alloc.buf,
            DmaTransfer::new_l2(),
            DmaTransfer::new_l2(),
            buf_len,
            cores,
        )
    }

    /// Signals that work has completed on the current work buffer: rotates
    /// the three roles, writes the finished slab back at remote offset
    /// `(rounds - 1) * B`, and prefetches the slab at `(rounds + 1) * B`
    /// if the source still reaches there.
    pub fn advance(&mut self)
        requires
            old(self).wf(),
            (old(self).rounds + 2) * old(self).buf_len <= usize::MAX,
        ensures
            final(self).wf(),
            final(self).rounds == old(self).rounds + 1,
            final(self).buf_len == old(self).buf_len,
            final(self).cores == old(self).cores,
            final(self).counters@ == seq![
                old(self).counters@[1],
                old(self).counters@[2],
                old(self).counters@[0],
            ],
            final(self).work_buf_len == old(self).last_transfer,
            final(self).source@.len() == old(self).source@.len(),
            final(self).source@ == (if old(self).work_buf_len > 0 {
                spec_splice(
                    old(self).source@,
                    old(self).rounds * old(self).buf_len,
                    old(self).l1@.subrange(
                        old(self).counters@[0] as int,
                        old(self).counters@[0] + old(self).work_buf_len,
                    ),
                )
            } else {
                old(self).source@
            }),
            final(self).l1@ == (if (old(self).rounds + 2) * old(self).buf_len
                < old(self).source@.len() {
                spec_splice(
                    old(self).l1@,
                    old(self).counters@[2] as int,
                    final(self).source@.subrange(
                        (old(self).rounds + 2) * old(self).buf_len,
                        (old(self).rounds + 2) * old(self).buf_len + final(self).last_transfer,
                    ),
                )
            } else {
                old(self).l1@
            }),
            final(self).l1@.len() == old(self).l1@.len(),
    {
        proof {
            let r0 = old(self).rounds as int;
            let b = old(self).buf_len as int;
            assert(r0 + 2 <= usize::MAX && r0 * b <= (r0 + 2) * b && (r0 + 1) * b <= (r0 + 2)
                * b) by (nonlinear_arith)
                requires
                    (r0 + 2) * b <= usize::MAX,
                    b >= 64,
                    r0 >= 0,
            ;
        }
        self.rounds = self.rounds + 1;
        let c0 = self.counters[0];
        let c1 = self.counters[1];
        let c2 = self.counters[2];
        self.counters = [c1, c2, c0];
        let src_len = self.source.len();
        let offset = (self.rounds + 1) * self.buf_len;
        let rem = if src_len > offset {
            src_len - offset
        } else {
            0
        };
        let size = if self.buf_len <= rem {
            self.buf_len
        } else {
            rem
        };
        // Only core 0 drives the DMA engine; every other core meets it at
        // the team barrier that separates the waits from the new issues.
        if self.rounds > 1 {
            // The commit buffer must be safe to reuse as the next prefetch,
            // and the prefetch must be complete before it becomes work.
            self.commit_dma.wait();
            self.pre_fetch_dma.wait();
        }
        let commit_off = (self.rounds - 1) * self.buf_len;
        if self.work_buf_len > 0 {
            self.commit_dma.transfer_out(
                &mut self.source,
                commit_off,
                &self.l1,
                c0,
                self.work_buf_len,
            );
        } else {
            self.commit_dma.issue_empty();
        }
        if offset < src_len {
            self.pre_fetch_dma.transfer_in(&self.source, offset, &mut self.l1, c2, size);
        }
        self.work_buf_len = self.last_transfer;
        self.last_transfer = size;
    }

    /// Waits until the final commit transfer is durable in remote memory;
    /// to be called once after the last [`Self::advance`].
    pub fn flush(&mut self)
        requires
            old(self).wf(),
            old(self).rounds >= 1,
        ensures
            *final(self) == *old(self),
    {
        self.commit_dma.wait();
    }

    /// A copy of `core_id`'s shard of the current work buffer.
    pub fn get_work_buf(&self, core_id: usize) -> (out: Vec<u8>)
        requires
            self.wf(),
            core_id < self.cores,
        ensures
            out@ == self.l1@.subrange(
                self.counters@[0] + self.spec_shard_base(core_id as int),
                self.counters@[0] + self.spec_shard_base(core_id as int) + self.spec_shard_len(
                    core_id as int,
                ),
            ),
            out@.len() == self.spec_shard_len(core_id as int),
    {
        let shard = self.buf_len / self.cores;
        proof {
            lemma_shard_bounds(self.buf_len as int, self.cores as int, core_id as int);
        }
        let l1_len = self.l1.len();
        let base = core_id * shard;
        let avail = if self.work_buf_len > base {
            self.work_buf_len - base
        } else {
            0
        };
        let len = if shard <= avail {
            shard
        } else {
            avail
        };
        take_range(&self.l1, self.counters[0] + base, len)
    }

    /// Stores `core_id`'s finished shard back into the work buffer.
    pub fn set_work_buf(&mut self, core_id: usize, data: &Vec<u8>)
        requires
            old(self).wf(),
            core_id < old(self).cores,
            data@.len() == old(self).spec_shard_len(core_id as int),
        ensures
            final(self).wf(),
            final(self).l1@ == spec_splice(
                old(self).l1@,
                old(self).counters@[0] + old(self).spec_shard_base(core_id as int),
                data@,
            ),
            final(self).source@ == old(self).source@,
            final(self).rounds == old(self).rounds,
            final(self).buf_len == old(self).buf_len,
            final(self).cores == old(self).cores,
            final(self).counters@ == old(self).counters@,
            final(self).work_buf_len == old(self).work_buf_len,
            final(self).last_transfer == old(self).last_transfer,
    {
        let shard = self.buf_len / self.cores;
        proof {
            lemma_shard_bounds(self.buf_len as int, self.cores as int, core_id as int);
        }
        let l1_len = self.l1.len();
        let base = core_id * shard;
        let c0 = self.counters[0];
        copy_range(&mut self.l1, c0 + base, data, 0, data.len());
    }

    /// Dissolves the ring, handing back the remote memory and the L1
    /// allocation.
    pub fn into_parts(self) -> (r: (Vec<u8>, BufAlloc))
        ensures
            r.0@ == self.source@,
            r.1.buf@ == self.l1@,
    {
        let DmaBuf { source, l1, .. } = self;
        (source, BufAlloc { buf: l1 })
    }
}

/// Shard arithmetic: with `s = b / n`, a shard of core `c < n` stays inside
/// one sub-buffer of size `b`.
proof fn lemma_shard_bounds(b: int, n: int, c: int)
    requires
        n >= 1,
        b >= 64 * n,
        b % (64 * n) == 0,
        0 <= c < n,
    ensures
        (b / n) * n <= b,
        c * (b / n) <= b - (b / n),
        b / n >= 64,
        c * (b / n) >= 0,
{
    let s = b / n;
    assert(s * n <= b && s >= 64 && c * s <= b - s && c * s >= 0) by (nonlinear_arith)
        requires
            n >= 1,
            b >= 64 * n,
            0 <= c < n,
            s == b / n,
    ;
}

} // verus!
