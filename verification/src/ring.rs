//! GPU readback ring.
//!
//! Decouples GPU render-to-texture completion from host-side writes: frame
//! `k` is issued into slot `k mod N`, and a slot's pixels are retrieved only
//! once `N` writes have been issued past it — or, after the last frame, once
//! the end-of-stream fence has made every outstanding write complete. The
//! final `N - 1` in-flight slots are drained after the main loop, in ring
//! order, so no frame is ever lost.

use vstd::prelude::*;

verus! {

/// Largest ring size considered when sizing to the frame rate.
pub const MAX_SLOTS: u32 = 10;

/// The largest ring size at most `k` that divides the frame rate, and 1 if
/// none does.
pub open spec fn largest_divisor_at_most(fps: int, k: int) -> int
    decreases k,
{
    if k <= 0 {
        1
    } else if fps % k == 0 {
        k
    } else {
        largest_divisor_at_most(fps, k - 1)
    }
}

/// Picks the ring size: the largest slot count at most `MAX_SLOTS` that
/// divides the frame rate, so steady-state retrieval aligns with encoder
/// consumption, and 1 when none divides it.
pub fn choose_slot_count(fps: u32) -> (n: u32)
    ensures
        n == largest_divisor_at_most(fps as int, MAX_SLOTS as int),
        1 <= n <= MAX_SLOTS,
        fps as int % (n as int) == 0,
        forall|m: int| n < m <= MAX_SLOTS ==> #[trigger] (fps as int % m) != 0,
{
    let mut n: u32 = MAX_SLOTS;
    while n > 1 && fps % n != 0
        invariant
            1 <= n <= MAX_SLOTS,
            largest_divisor_at_most(fps as int, MAX_SLOTS as int) == largest_divisor_at_most(
                fps as int,
                n as int,
            ),
            forall|m: int| n < m <= MAX_SLOTS ==> #[trigger] (fps as int % m) != 0,
        decreases n,
    {
        n = n - 1;
    }
    n
}

/// The state of the readback ring: how many frame writes have been issued
/// to the GPU, how many frames have been retrieved to the host, and whether
/// the end-of-stream fence has completed every outstanding write.
pub struct ReadbackRing {
    /// Number of slots, `N`.
    pub slot_count: u32,
    /// Frames whose GPU write has been issued; frame `k` went to slot
    /// `k mod N`.
    pub issued: u64,
    /// Frames whose pixels have been retrieved to the host.
    pub retrieved: u64,
    /// Whether the end-of-stream fence has been waited on, after which every
    /// issued write is known complete.
    pub fenced: bool,
}

impl ReadbackRing {
    /// Ring invariant: at least one slot; retrieval never passes issue; and
    /// at most `N` frames are in flight between GPU write and host read.
    pub open spec fn wf(self) -> bool {
        &&& 1 <= self.slot_count
        &&& self.retrieved <= self.issued
        &&& self.issued - self.retrieved <= self.slot_count
    }

    /// A retrieval is permitted when the oldest outstanding slot's write is
    /// known complete: either a full buffering period of writes has been
    /// issued behind it, or the end-of-stream fence has completed them all.
    pub open spec fn can_retrieve(self) -> bool {
        self.retrieved < self.issued && (self.issued - self.retrieved == self.slot_count
            || self.fenced)
    }

    /// Creates an idle ring of `slot_count` slots.
    pub fn new(slot_count: u32) -> (r: ReadbackRing)
        requires
            1 <= slot_count,
        ensures
            r.wf(),
            r.slot_count == slot_count,
            r.issued == 0,
            r.retrieved == 0,
            !r.fenced,
    {
        ReadbackRing { slot_count, issued: 0, retrieved: 0, fenced: false }
    }

    /// Issues the GPU write of the next frame; returns the slot it goes to.
    /// A write may only be issued into a slot that is no longer in flight.
    pub fn issue(&mut self) -> (slot: u32)
        requires
            old(self).wf(),
            old(self).issued - old(self).retrieved < old(self).slot_count,
            old(self).issued < u64::MAX,
        ensures
            final(self).wf(),
            final(self).issued == old(self).issued + 1,
            final(self).retrieved == old(self).retrieved,
            final(self).slot_count == old(self).slot_count,
            final(self).fenced == old(self).fenced,
            slot == old(self).issued as int % old(self).slot_count as int,
    {
        let slot = (self.issued % self.slot_count as u64) as u32;
        self.issued = self.issued + 1;
        slot
    }

    /// Retrieves the oldest outstanding frame; returns its frame index and
    /// its slot. Only permitted when that slot's write is known complete.
    pub fn retrieve(&mut self) -> (r: (u64, u32))
        requires
            old(self).wf(),
            old(self).can_retrieve(),
        ensures
            final(self).wf(),
            final(self).issued == old(self).issued,
            final(self).retrieved == old(self).retrieved + 1,
            final(self).slot_count == old(self).slot_count,
            final(self).fenced == old(self).fenced,
            r.0 == old(self).retrieved,
            r.1 == old(self).retrieved as int % old(self).slot_count as int,
    {
        let frame = self.retrieved;
        let slot = (frame % self.slot_count as u64) as u32;
        self.retrieved = self.retrieved + 1;
        (frame, slot)
    }

    /// Records that the end-of-stream fence has been waited on: every write
    /// issued so far is complete, so the remaining in-flight slots may be
    /// drained.
    pub fn fence(&mut self)
        requires
            old(self).wf(),
        ensures
            final(self).wf(),
            final(self).issued == old(self).issued,
            final(self).retrieved == old(self).retrieved,
            final(self).slot_count == old(self).slot_count,
            final(self).fenced,
    {
        self.fenced = true;
    }
}

/// At the moment of any permitted retrieval, the read index trails the
/// write index by at least one frame and by at most one full buffering
/// period: a slot is never read with fewer than one period of writes, or a
/// fence, behind it.
pub proof fn lemma_retrieve_trails_issue(ring: ReadbackRing)
    requires
        ring.wf(),
        ring.can_retrieve(),
    ensures
        1 <= ring.issued - ring.retrieved <= ring.slot_count,
{
}

/// Runs the ring through a whole export of `total` frames — the main loop
/// retrieving one frame per issue once the ring is primed, then the
/// end-of-stream fence and the drain of the in-flight slots — and returns
/// the retrieved frame indices: every frame, exactly once, in order.
pub fn run_schedule(total: u64, slot_count: u32) -> (order: Vec<u64>)
    requires
        1 <= slot_count,
        total < u64::MAX,
    ensures
        order@.len() == total,
        forall|i: int| 0 <= i < total ==> order@[i] == i,
{
    let mut ring = ReadbackRing::new(slot_count);
    let mut order: Vec<u64> = Vec::new();
    let mut k: u64 = 0;
    while k < total
        invariant
            ring.wf(),
            ring.slot_count == slot_count,
            !ring.fenced,
            k <= total,
            total < u64::MAX,
            ring.issued == k,
            ring.retrieved == (if k < slot_count {
                0int
            } else {
                k + 1 - slot_count
            }),
            order@.len() == ring.retrieved,
            forall|i: int| 0 <= i < order@.len() ==> order@[i] == i,
        decreases total - k,
    {
        ring.issue();
        if ring.issued - ring.retrieved == slot_count as u64 {
            let (frame, _slot) = ring.retrieve();
            order.push(frame);
        }
        k = k + 1;
    }
    ring.fence();
    while ring.retrieved < ring.issued
        invariant
            ring.wf(),
            ring.fenced,
            ring.issued == total,
            order@.len() == ring.retrieved,
            forall|i: int| 0 <= i < order@.len() ==> order@[i] == i,
        decreases ring.issued - ring.retrieved,
    {
        let (frame, _slot) = ring.retrieve();
        order.push(frame);
    }
    order
}

} // verus!
