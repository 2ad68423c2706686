//! Boot-time physical frame allocator over the boot memory map.
use vstd::prelude::*;

verus! {

/// Size of a physical frame and of a virtual page.
pub const FRAME_SIZE: u64 = 4096;

/// Frame numbers at or above this bound would overflow a 64-bit address.
pub const FRAME_NUMBER_LIMIT: u64 = 0x10_0000_0000_0000;

/// Number of non-usable frames the allocator skips before giving up.
pub const MAX_PROBE_ATTEMPTS: u64 = 100000;

/// One entry of the boot memory map: the half-open range `[start, end)`.
#[derive(Clone, Copy, Debug, PartialEq, Eq)]
pub struct MemoryRegion {
    pub start: u64,
    pub end: u64,
    pub usable: bool,
}

/// True when the frame starting at `addr` lies in a usable region.
pub open spec fn in_usable_region(regions: Seq<MemoryRegion>, addr: int) -> bool {
    exists|i: int|
        0 <= i < regions.len() && #[trigger] regions[i].usable && regions[i].start <= addr
            && addr < regions[i].end
}

/// The allocator gave up: its cursor reached the end of the address space,
/// or the `MAX_PROBE_ATTEMPTS + 1` frames just below the cursor are all
/// unusable.
pub open spec fn probe_exhausted(regions: Seq<MemoryRegion>, next: u64) -> bool {
    next == FRAME_NUMBER_LIMIT || (next >= MAX_PROBE_ATTEMPTS + 1 && forall|k: u64|
        next - MAX_PROBE_ATTEMPTS - 1 <= k < next ==> !in_usable_region(regions, #[trigger] (k * FRAME_SIZE)))
}

/// Hands out frames from a monotonic cursor over the memory map; frames are
/// never reclaimed.
pub struct BootInfoFrameAllocator {
    regions: Vec<MemoryRegion>,
    /// Frame number (address / FRAME_SIZE) of the next candidate frame.
    next_frame: u64,
    /// Every frame start address handed out so far.
    issued: Ghost<Set<u64>>,
}

impl BootInfoFrameAllocator {
    pub closed spec fn regions_view(&self) -> Seq<MemoryRegion> {
        self.regions@
    }

    pub closed spec fn next(&self) -> u64 {
        self.next_frame
    }

    /// The frames handed out so far.
    pub closed spec fn issued_frames(&self) -> Set<u64> {
        self.issued@
    }

    /// Every issued frame lies in a usable region, is frame aligned, and lies
    /// below the cursor.
    pub closed spec fn wf(&self) -> bool {
        &&& self.next_frame <= FRAME_NUMBER_LIMIT
        &&& forall|f: u64|
            #[trigger] self.issued@.contains(f) ==> in_usable_region(self.regions@, f as int) && f
                % FRAME_SIZE == 0 && (f as int) < self.next_frame as int * FRAME_SIZE as int
    }

    /// Builds the allocator with its cursor on the frame that contains the
    /// start of the first usable region; `None` when no region is usable.
    pub fn new(regions: Vec<MemoryRegion>) -> (r: Option<Self>)
        ensures
            r is None <==> (forall|i: int| 0 <= i < regions@.len() ==> !(#[trigger] regions@[i]).usable),
            r matches Some(a) ==> {
                &&& a.wf()
                &&& a.regions_view() == regions@
                &&& a.issued_frames() == Set::<u64>::empty()
                &&& exists|i: int| 0 <= i < regions@.len() && (#[trigger] regions@[i]).usable
                    && a.next() == regions@[i].start / FRAME_SIZE
                    && forall|j: int| 0 <= j < i ==> !(#[trigger] regions@[j]).usable
            },
    {
        let mut i: usize = 0;
        while i < regions.len()
            invariant
                0 <= i <= regions@.len(),
                forall|j: int| 0 <= j < i ==> !(#[trigger] regions@[j]).usable,
            decreases regions@.len() - i,
        {
            if regions[i].usable {
                let next_frame = regions[i].start / FRAME_SIZE;
                return Some(BootInfoFrameAllocator { regions, next_frame, issued: Ghost(Set::empty()) });
            }
            i = i + 1;
        }
        None
    }

    /// Returns the first frame at or after the cursor whose start address lies
    /// in a usable region, and moves the cursor past it. Gives up with `None`
    /// after `MAX_PROBE_ATTEMPTS` skipped frames, or at the end of the 64-bit
    /// address space.
    pub fn allocate_frame(&mut self) -> (r: Option<u64>)
        requires
            old(self).wf(),
        ensures
            final(self).wf(),
            final(self).regions_view() == old(self).regions_view(),
            final(self).next() >= old(self).next(),
            match r {
                Some(f) => {
                    &&& in_usable_region(old(self).regions_view(), f as int)
                    &&& f % FRAME_SIZE == 0
                    &&& f >= old(self).next() * FRAME_SIZE
                    &&& !old(self).issued_frames().contains(f)
                    &&& final(self).issued_frames() == old(self).issued_frames().insert(f)
                    &&& final(self).next() == f / FRAME_SIZE + 1
                    &&& f / FRAME_SIZE <= old(self).next() + MAX_PROBE_ATTEMPTS
                    &&& forall|k: u64|
                        old(self).next() <= k < f / FRAME_SIZE ==> !in_usable_region(
                            old(self).regions_view(),
                            #[trigger] (k * FRAME_SIZE),
                        )
                },
                None => {
                    &&& final(self).issued_frames() == old(self).issued_frames()
                    &&& forall|k: u64|
                        old(self).next() <= k < final(self).next() ==> !in_usable_region(
                            old(self).regions_view(),
                            #[trigger] (k * FRAME_SIZE),
                        )
                    &&& (final(self).next() == FRAME_NUMBER_LIMIT || final(self).next()
                        == old(self).next() + MAX_PROBE_ATTEMPTS + 1)
                    &&& probe_exhausted(final(self).regions_view(), final(self).next())
                },
            },
    {
        let ghost start = self.next_frame;
        let mut attempts: u64 = 0;
        loop
            invariant
                self.wf(),
                self.regions@ == old(self).regions@,
                self.issued@ == old(self).issued@,
                start == old(self).next_frame,
                self.next_frame == start + attempts,
                attempts <= MAX_PROBE_ATTEMPTS,
                forall|k: u64|
                    start <= k < self.next_frame ==> !in_usable_region(
                        self.regions@,
                        #[trigger] (k * FRAME_SIZE),
                    ),
            decreases MAX_PROBE_ATTEMPTS - attempts,
        {
            if self.next_frame >= FRAME_NUMBER_LIMIT {
                return None;
            }
            let addr = self.next_frame * FRAME_SIZE;
            if self.frame_is_usable(addr) {
                proof {
                    assert forall|f: u64| #[trigger] self.issued@.contains(f) implies f != addr by {
                        assert((f as int) < self.next_frame as int * FRAME_SIZE as int);
                    }
                    assert(addr / FRAME_SIZE == self.next_frame);
                }
                self.next_frame = self.next_frame + 1;
                self.issued = Ghost(self.issued@.insert(addr));
                return Some(addr);
            }
            self.next_frame = self.next_frame + 1;
            if attempts == MAX_PROBE_ATTEMPTS {
                return None;
            }
            attempts = attempts + 1;
        }
    }

    /// Whether the frame starting at `addr` lies in a usable region.
    pub fn frame_is_usable(&self, addr: u64) -> (r: bool)
        ensures
            r == in_usable_region(self.regions_view(), addr as int),
    {
        let mut i: usize = 0;
        while i < self.regions.len()
            invariant
                0 <= i <= self.regions@.len(),
                forall|j: int|
                    0 <= j < i ==> !(#[trigger] self.regions@[j].usable && self.regions@[j].start
                        <= addr && addr < self.regions@[j].end),
            decreases self.regions@.len() - i,
        {
            let r = self.regions[i];
            if r.usable && r.start <= addr && addr < r.end {
                return true;
            }
            i = i + 1;
        }
        false
    }
}

/// Every frame the allocator has handed out lies in a usable region and is
/// frame aligned; together with `allocate_frame` never returning an issued
/// frame, no frame is ever handed out twice.
pub proof fn lemma_issued_frames_usable(a: &BootInfoFrameAllocator, f: u64)
    requires
        a.wf(),
        a.issued_frames().contains(f),
    ensures
        in_usable_region(a.regions_view(), f as int),
        f % FRAME_SIZE == 0,
        (f as int) < a.next() as int * FRAME_SIZE as int,
{
}

} // verus!
