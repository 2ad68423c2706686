//! Monotonic (bump) heap arena over a fixed, pre-mapped virtual range.
use vstd::prelude::*;

verus! {

/// First address of the kernel heap.
pub const HEAP_START: u64 = 0x4444_4444_0000;

/// Size of the kernel heap (2 MiB).
pub const HEAP_SIZE: u64 = 0x20_0000;

/// Smallest multiple of `align` that is at least `addr`.
pub open spec fn align_up_spec(addr: int, align: int) -> int {
    if addr % align == 0 {
        addr
    } else {
        addr + (align - addr % align)
    }
}

/// Rounds `addr` up to a multiple of `align`; `None` when that overflows.
pub fn align_up(addr: u64, align: u64) -> (r: Option<u64>)
    requires
        align > 0,
    ensures
        align_up_spec(addr as int, align as int) <= u64::MAX ==> r == Some(
            align_up_spec(addr as int, align as int) as u64,
        ),
        align_up_spec(addr as int, align as int) > u64::MAX ==> r is None,
        r matches Some(v) ==> v % align == 0 && addr <= v < addr + align,
{
    let rem = addr % align;
    if rem == 0 {
        Some(addr)
    } else {
        let gap = align - rem;
        if addr > u64::MAX - gap {
            None
        } else {
            proof {
                assert((addr + gap) % (align as int) == 0) by (nonlinear_arith)
                    requires
                        rem == addr % align,
                        gap == align - rem,
                        align > 0,
                ;
            }
            Some(addr + gap)
        }
    }
}

/// Hands out memory from a cursor that only moves forward; nothing is ever
/// reclaimed.
#[derive(Debug)]
pub struct BumpAllocator {
    heap_start: u64,
    heap_end: u64,
    next: u64,
}

impl BumpAllocator {
    pub closed spec fn start(&self) -> u64 {
        self.heap_start
    }

    pub closed spec fn end(&self) -> u64 {
        self.heap_end
    }

    /// The first address not yet handed out.
    pub closed spec fn cursor(&self) -> u64 {
        self.next
    }

    pub closed spec fn wf(&self) -> bool {
        self.heap_start <= self.next <= self.heap_end
    }

    /// An allocator over an empty range: every request fails until `init`.
    pub fn new() -> (r: Self)
        ensures
            r.wf(),
            r.start() == 0 && r.end() == 0 && r.cursor() == 0,
    {
        BumpAllocator { heap_start: 0, heap_end: 0, next: 0 }
    }

    /// Claims the range `[heap_start, heap_start + heap_size)`.
    pub fn init(&mut self, heap_start: u64, heap_size: u64)
        requires
            heap_start + heap_size <= u64::MAX,
        ensures
            final(self).wf(),
            final(self).start() == heap_start,
            final(self).end() == heap_start + heap_size,
            final(self).cursor() == heap_start,
    {
        self.heap_start = heap_start;
        self.heap_end = heap_start + heap_size;
        self.next = heap_start;
    }

    /// Start of a fresh block of `size` bytes aligned to `align`, or `None`
    /// when the rest of the arena is too small.
    pub fn allocate(&mut self, size: u64, align: u64) -> (r: Option<u64>)
        requires
            old(self).wf(),
            align > 0,
        ensures
            final(self).wf(),
            final(self).start() == old(self).start(),
            final(self).end() == old(self).end(),
            ({
                let a = align_up_spec(old(self).cursor() as int, align as int);
                &&& a + size <= old(self).end() ==> r == Some(a as u64) && final(self).cursor() == a + size
                &&& a + size > old(self).end() ==> r is None && final(self).cursor() == old(self).cursor()
            }),
            r matches Some(p) ==> p % align == 0 && old(self).start() <= old(self).cursor() <= p && p + size
                <= final(self).end(),
    {
        let start = match align_up(self.next, align) {
            Some(a) => a,
            None => {
                return None;
            },
        };
        if start > self.heap_end || size > self.heap_end - start {
            return None;
        }
        self.next = start + size;
        Some(start)
    }

    /// Gives a block back; a bump arena never reuses memory, so nothing
    /// changes.
    pub fn deallocate(&mut self, ptr: u64, size: u64)
        ensures
            *final(self) == *old(self),
    {
    }
}

} // verus!
