//! The boot sequence's steps that decide: mapping the heap, and preparing
//! the first jump to privilege level 3.
use vstd::prelude::*;
use crate::frame::{BootInfoFrameAllocator, FRAME_SIZE, probe_exhausted};
use crate::gdt::StackRegion;
use crate::heap::{BumpAllocator, HEAP_SIZE, HEAP_START};
use crate::paging::{AddressSpace, MapError, Page, PageTableFlags, MAX_TABLES, PAGE_NUMBER_LIMIT};
use crate::transition::{ReturnFrame, ensure_writable_range, grant_user_range, granted, user_return_frame};

verus! {

/// Page number of the first heap page.
pub const HEAP_FIRST_PAGE: u64 = 0x4_4444_4440;

/// Number of heap pages.
pub const HEAP_PAGES: u64 = 512;

/// Page `p` is mapped to a frame the allocator handed out between `of`
/// and `ff`.
pub open spec fn heap_frame_fresh(space: &AddressSpace, of: &BootInfoFrameAllocator, ff: &BootInfoFrameAllocator, p: u64) -> bool {
    &&& space.translation(p) is Some
    &&& ff.issued_frames().contains(space.translation(p)->0)
    &&& !of.issued_frames().contains(space.translation(p)->0)
}

/// Backs every page of the heap range with a fresh frame, present and
/// writable but not user accessible, then hands the range to the heap.
pub fn init_heap(space: &mut AddressSpace, frames: &mut BootInfoFrameAllocator, heap: &mut BumpAllocator) -> (r: Result<(), MapError>)
    requires
        old(space).wf(),
        old(frames).wf(),
    ensures
        final(space).wf(),
        final(frames).wf(),
        final(frames).regions_view() == old(frames).regions_view(),
        r is Err ==> r == Err::<(), MapError>(MapError::FrameAllocationFailed) || r == Err::<(), MapError>(
            MapError::TableLimitReached,
        ) || r == Err::<(), MapError>(MapError::PageAlreadyMapped),
        r == Err::<(), MapError>(MapError::PageAlreadyMapped) ==> exists|p: u64|
            HEAP_FIRST_PAGE <= p < HEAP_FIRST_PAGE + HEAP_PAGES && #[trigger] old(space).is_mapped(p),
        r == Err::<(), MapError>(MapError::TableLimitReached) ==> final(space).table_count() + 3 > MAX_TABLES,
        r == Err::<(), MapError>(MapError::FrameAllocationFailed) ==> probe_exhausted(
            final(frames).regions_view(),
            final(frames).next(),
        ),
        r is Ok ==> forall|p: u64| HEAP_FIRST_PAGE <= p < HEAP_FIRST_PAGE + HEAP_PAGES ==> !#[trigger] old(space).is_mapped(p),
        r is Ok ==> forall|p: u64|
            HEAP_FIRST_PAGE <= p < HEAP_FIRST_PAGE + HEAP_PAGES ==> heap_frame_fresh(
                &*final(space),
                &*old(frames),
                &*final(frames),
                p,
            ),
        r is Ok ==> forall|p: u64, p2: u64|
            HEAP_FIRST_PAGE <= p < p2 < HEAP_FIRST_PAGE + HEAP_PAGES ==> #[trigger] final(space).translation(p)
                != #[trigger] final(space).translation(p2),
        r is Ok ==> {
            &&& forall|p: u64|
                HEAP_FIRST_PAGE <= p < HEAP_FIRST_PAGE + HEAP_PAGES ==> #[trigger] final(space).kernel_can_write(p)
                    && !final(space).user_can_read(p)
            &&& final(heap).wf()
            &&& final(heap).start() == HEAP_START && final(heap).end() == HEAP_START + HEAP_SIZE
            &&& final(heap).cursor() == HEAP_START
        },
        forall|q: u64| #[trigger] old(space).is_mapped(q) ==> final(space).translation(q) == old(space).translation(q),
{
    let flags = PageTableFlags { present: true, writable: true, user_accessible: false, no_execute: false, no_cache: false };
    let mut i: u64 = 0;
    while i < HEAP_PAGES
        invariant
            space.wf(),
            frames.wf(),
            frames.regions_view() == old(frames).regions_view(),
            i <= HEAP_PAGES,
            flags.writable && !flags.user_accessible,
            forall|p: u64|
                HEAP_FIRST_PAGE <= p < HEAP_FIRST_PAGE + i ==> #[trigger] space.kernel_can_write(p) && !space.user_can_read(p),
            forall|q: u64| #[trigger] old(space).is_mapped(q) ==> space.is_mapped(q) && space.translation(q) == old(space).translation(q),
            forall|q: u64|
                !(HEAP_FIRST_PAGE <= q < HEAP_FIRST_PAGE + i) && q < PAGE_NUMBER_LIMIT ==> #[trigger] space.is_mapped(q)
                    == old(space).is_mapped(q),
            forall|p: u64| HEAP_FIRST_PAGE <= p < HEAP_FIRST_PAGE + i ==> !#[trigger] old(space).is_mapped(p),
            old(frames).issued_frames().subset_of(frames.issued_frames()),
            forall|p: u64|
                HEAP_FIRST_PAGE <= p < HEAP_FIRST_PAGE + i ==> heap_frame_fresh(&*space, &*old(frames), &*frames, p)
                    && #[trigger] space.is_mapped(p),
            forall|p: u64, p2: u64|
                HEAP_FIRST_PAGE <= p < p2 < HEAP_FIRST_PAGE + i ==> #[trigger] space.translation(p)
                    != #[trigger] space.translation(p2),
            space.table_count() >= old(space).table_count(),
        decreases HEAP_PAGES - i,
    {
        let page = Page { number: HEAP_FIRST_PAGE + i };
        let ghost fa = *frames;
        let frame = match frames.allocate_frame() {
            Some(f) => f,
            None => {
                return Err(MapError::FrameAllocationFailed);
            },
        };
        let ghost before = *space;
        let ghost bf = *frames;
        let r = space.map(page, frame, flags, frames);
        if r.is_err() {
            proof {
                if r == Err::<(), MapError>(MapError::PageAlreadyMapped) {
                    assert(!(HEAP_FIRST_PAGE <= page.number < HEAP_FIRST_PAGE + i));
                    assert(before.is_mapped(page.number));
                    assert(old(space).is_mapped(page.number));
                }
            }
            return r;
        }
        proof {
            assert(!before.is_mapped(page.number));
            assert(!old(space).is_mapped(page.number));
            assert forall|q: u64|
                !(HEAP_FIRST_PAGE <= q < HEAP_FIRST_PAGE + i + 1) && q < PAGE_NUMBER_LIMIT implies #[trigger] space.is_mapped(q)
                    == old(space).is_mapped(q) by {
                assert(before.is_mapped(q) == old(space).is_mapped(q));
            }
            assert forall|p: u64|
                HEAP_FIRST_PAGE <= p < HEAP_FIRST_PAGE + i + 1 implies heap_frame_fresh(&*space, &*old(frames), &*frames, p)
                    && #[trigger] space.is_mapped(p) by {
                if p != page.number {
                    assert(before.is_mapped(p));
                    assert(heap_frame_fresh(&before, &*old(frames), &bf, p));
                }
            }
            assert forall|p: u64, p2: u64|
                HEAP_FIRST_PAGE <= p < p2 < HEAP_FIRST_PAGE + i + 1 implies #[trigger] space.translation(p)
                    != #[trigger] space.translation(p2) by {
                assert(before.is_mapped(p));
                if p2 != page.number {
                    assert(before.is_mapped(p2));
                    assert(before.translation(p) != before.translation(p2));
                } else {
                    assert(heap_frame_fresh(&before, &*old(frames), &bf, p));
                    assert(bf.issued_frames().contains(before.translation(p)->0));
                }
            }
            assert(space.path_entry(page.number, 1).flags == (PageTableFlags { present: true, ..flags }));
            space.lemma_writable_leaf(page.number);
            assert forall|q: u64| #[trigger] old(space).is_mapped(q) implies space.is_mapped(q) && space.translation(q) == old(space).translation(q) by {
                assert(before.is_mapped(q));
            }
        }
        let ghost prev_i = i;
        i = i + 1;
        proof {
            assert forall|p: u64|
                HEAP_FIRST_PAGE <= p < HEAP_FIRST_PAGE + i implies #[trigger] space.kernel_can_write(p) && !space.user_can_read(p) by {
                if p < page.number {
                    assert(HEAP_FIRST_PAGE <= p < HEAP_FIRST_PAGE + prev_i);
                    assert(before.kernel_can_write(p) && !before.user_can_read(p));
                    assert(before.is_mapped(p));
                } else {
                    assert(p == page.number);
                }
            }
        }
    }
    heap.init(HEAP_START, HEAP_SIZE);
    Ok(())
}

/// First page of a stack.
pub open spec fn stack_first_page(s: StackRegion) -> int {
    s.base as int / FRAME_SIZE as int
}

/// One past the last page of a stack.
pub open spec fn stack_end_page(s: StackRegion) -> int {
    (s.base + s.size + FRAME_SIZE - 1) / (FRAME_SIZE as int)
}

/// Page `p` belongs to one of the first `n` stacks of `ks`.
pub open spec fn in_stacks(ks: Seq<StackRegion>, n: int, p: u64) -> bool {
    exists|j: int| 0 <= j < n && stack_first_page(#[trigger] ks[j]) <= p < stack_end_page(ks[j])
}

pub open spec fn in_range(first: u64, count: u64, p: u64) -> bool {
    first <= p < first + count
}

/// The steps before the first jump to privilege level 3: user access for
/// the code pages (executable) and the stack pages (writable), write access
/// for every kernel stack, then the return frame for `entry` on the user
/// stack. Succeeds exactly when all of those pages are mapped.
pub fn prepare_user_transition(
    space: &mut AddressSpace,
    code_first: u64,
    code_pages: u64,
    stack_first: u64,
    stack_pages: u64,
    kernel_stacks: &Vec<StackRegion>,
    entry: u64,
    stack_top: u64,
) -> (r: Result<ReturnFrame, MapError>)
    requires
        old(space).wf(),
        code_first + code_pages <= PAGE_NUMBER_LIMIT,
        stack_first + stack_pages <= PAGE_NUMBER_LIMIT,
        forall|i: int| 0 <= i < kernel_stacks@.len() ==> (#[trigger] kernel_stacks@[i]).base + kernel_stacks@[i].size
            <= crate::paging::ADDRESS_LIMIT,
    ensures
        final(space).wf(),
        r is Err ==> r == Err::<ReturnFrame, MapError>(MapError::PageNotMapped),
        r is Ok <==> {
            &&& forall|p: u64| in_range(code_first, code_pages, p) ==> #[trigger] old(space).is_mapped(p)
            &&& forall|p: u64| in_range(stack_first, stack_pages, p) ==> #[trigger] old(space).is_mapped(p)
            &&& forall|p: u64| in_stacks(kernel_stacks@, kernel_stacks@.len() as int, p) ==> #[trigger] old(space).is_mapped(p)
        },
        r matches Ok(f) ==> f == user_return_frame_spec(entry, stack_top),
        r is Ok ==> forall|p: u64|
            in_range(code_first, code_pages, p) && !in_range(stack_first, stack_pages, p) && !in_stacks(
                kernel_stacks@,
                kernel_stacks@.len() as int,
                p,
            ) ==> #[trigger] granted(&*final(space), p, true),
        r is Ok ==> forall|p: u64|
            in_range(stack_first, stack_pages, p) && !in_stacks(kernel_stacks@, kernel_stacks@.len() as int, p)
                ==> #[trigger] granted(&*final(space), p, false),
        r is Ok ==> forall|p: u64|
            in_stacks(kernel_stacks@, kernel_stacks@.len() as int, p) ==> #[trigger] final(space).kernel_can_write(p),
        r is Ok ==> forall|p: u64|
            in_stacks(kernel_stacks@, kernel_stacks@.len() as int, p) && !in_range(code_first, code_pages, p)
                && !in_range(stack_first, stack_pages, p) && #[trigger] final(space).user_can_read(p)
                ==> old(space).path_entry(p, 1).flags.user_accessible,
{
    let ghost g0 = *space;
    let r1 = grant_user_range(space, code_first, code_pages, true);
    if r1.is_err() {
        proof {
            let p = choose|p: u64| in_range(code_first, code_pages, p) && !#[trigger] g0.is_mapped(p);
        }
        return Err(MapError::PageNotMapped);
    }
    let ghost g1 = *space;
    let r2 = grant_user_range(space, stack_first, stack_pages, false);
    if r2.is_err() {
        proof {
            let p = choose|p: u64| in_range(stack_first, stack_pages, p) && !#[trigger] g1.is_mapped(p);
            assert(!g0.is_mapped(p));
        }
        return Err(MapError::PageNotMapped);
    }
    let ghost g2 = *space;
    proof {
        assert forall|p: u64| in_range(stack_first, stack_pages, p) implies #[trigger] g0.is_mapped(p) by {
            assert(g1.is_mapped(p));
        }
        assert forall|p: u64| in_range(code_first, code_pages, p) && !in_range(stack_first, stack_pages, p)
            implies #[trigger] granted(&*space, p, true) by {
            assert(granted(&g1, p, true));
            assert(g1.is_mapped(p));
            g1.lemma_rights_by_leaf(p);
            space.lemma_rights_by_leaf(p);
        }
        assert forall|p: u64| !in_range(code_first, code_pages, p) && !in_range(stack_first, stack_pages, p) && p
            < PAGE_NUMBER_LIMIT && space.user_can_read(p) implies #[trigger] space.path_entry(p, 1) == g0.path_entry(p, 1) by {
            assert(space.is_mapped(p));
            assert(g1.is_mapped(p));
            assert(g0.is_mapped(p));
        }
    }
    let mut i: usize = 0;
    while i < kernel_stacks.len()
        invariant
            space.wf(),
            i <= kernel_stacks@.len(),
            code_first + code_pages <= PAGE_NUMBER_LIMIT,
            stack_first + stack_pages <= PAGE_NUMBER_LIMIT,
            g0 == *old(space),
            forall|k: int| 0 <= k < kernel_stacks@.len() ==> (#[trigger] kernel_stacks@[k]).base + kernel_stacks@[k].size
                <= crate::paging::ADDRESS_LIMIT,
            forall|q: u64| #[trigger] space.is_mapped(q) == g0.is_mapped(q),
            forall|q: u64| #[trigger] space.user_can_read(q) == g2.user_can_read(q),
            forall|p: u64| in_range(code_first, code_pages, p) ==> #[trigger] g0.is_mapped(p),
            forall|p: u64| in_range(stack_first, stack_pages, p) ==> #[trigger] g0.is_mapped(p),
            forall|p: u64| in_stacks(kernel_stacks@, i as int, p) ==> #[trigger] g0.is_mapped(p),
            forall|p: u64| in_stacks(kernel_stacks@, i as int, p) ==> #[trigger] space.kernel_can_write(p),
            forall|p: u64|
                in_range(code_first, code_pages, p) && !in_range(stack_first, stack_pages, p) && !in_stacks(
                    kernel_stacks@,
                    i as int,
                    p,
                ) ==> #[trigger] granted(&*space, p, true),
            forall|p: u64|
                in_range(stack_first, stack_pages, p) && !in_stacks(kernel_stacks@, i as int, p) ==> #[trigger] granted(
                    &*space,
                    p,
                    false,
                ),
            forall|p: u64|
                !in_range(code_first, code_pages, p) && !in_range(stack_first, stack_pages, p) && p < PAGE_NUMBER_LIMIT
                    && g2.user_can_read(p) ==> #[trigger] g2.path_entry(p, 1) == g0.path_entry(p, 1),
        decreases kernel_stacks@.len() - i,
    {
        let s = kernel_stacks[i];
        let first = s.base / FRAME_SIZE;
        let last = (s.base + s.size + FRAME_SIZE - 1) / FRAME_SIZE;
        let ghost before = *space;
        assert(first == stack_first_page(kernel_stacks@[i as int]));
        assert(last == stack_end_page(kernel_stacks@[i as int]));
        let r3 = ensure_writable_range(space, first, last - first);
        if r3.is_err() {
            proof {
                let p = choose|p: u64| first <= p < first + (last - first) && !#[trigger] before.is_mapped(p);
                assert(!g0.is_mapped(p));
                assert(!old(space).is_mapped(p));
                assert(in_stacks(kernel_stacks@, kernel_stacks@.len() as int, p)) by {
                    assert(stack_first_page(kernel_stacks@[i as int]) <= p < stack_end_page(kernel_stacks@[i as int]));
                }
            }
            return Err(MapError::PageNotMapped);
        }
        proof {
            assert forall|p: u64| in_stacks(kernel_stacks@, i + 1, p) implies #[trigger] g0.is_mapped(p) && space.kernel_can_write(p) by {
                let j = choose|j: int| 0 <= j < i + 1 && stack_first_page(#[trigger] kernel_stacks@[j]) <= p < stack_end_page(kernel_stacks@[j]);
                if j < i {
                    assert(in_stacks(kernel_stacks@, i as int, p));
                    assert(before.is_mapped(p));
                    if !(first <= p < first + (last - first)) {
                        assert(p < PAGE_NUMBER_LIMIT);
                        before.lemma_rights_by_leaf(p);
                        space.lemma_rights_by_leaf(p);
                    }
                } else {
                    assert(first <= p < first + (last - first));
                    assert(before.is_mapped(p));
                }
            }
            assert forall|p: u64|
                in_range(code_first, code_pages, p) && !in_range(stack_first, stack_pages, p) && !in_stacks(
                    kernel_stacks@,
                    i + 1,
                    p,
                ) implies #[trigger] granted(&*space, p, true) by {
                assert(!in_stacks(kernel_stacks@, i as int, p));
                assert(!(first <= p < first + (last - first))) by {
                    if first <= p < first + (last - first) {
                        assert(stack_first_page(kernel_stacks@[i as int]) <= p < stack_end_page(kernel_stacks@[i as int]));
                    }
                }
                assert(granted(&before, p, true));
                assert(before.is_mapped(p));
                assert(p < PAGE_NUMBER_LIMIT);
                assert(space.path_entry(p, 1) == before.path_entry(p, 1));
                assert(space.user_can_read(p));
                before.lemma_rights_by_leaf(p);
                space.lemma_rights_by_leaf(p);
            }
            assert forall|p: u64| in_range(stack_first, stack_pages, p) && !in_stacks(kernel_stacks@, i + 1, p)
                implies #[trigger] granted(&*space, p, false) by {
                assert(!in_stacks(kernel_stacks@, i as int, p));
                assert(!(first <= p < first + (last - first))) by {
                    if first <= p < first + (last - first) {
                        assert(stack_first_page(kernel_stacks@[i as int]) <= p < stack_end_page(kernel_stacks@[i as int]));
                    }
                }
                assert(granted(&before, p, false));
                assert(before.is_mapped(p));
                assert(p < PAGE_NUMBER_LIMIT);
                assert(space.path_entry(p, 1) == before.path_entry(p, 1));
                assert(space.user_can_read(p));
                before.lemma_rights_by_leaf(p);
                space.lemma_rights_by_leaf(p);
            }
        }
        i = i + 1;
    }
    proof {
        assert forall|p: u64|
            in_stacks(kernel_stacks@, kernel_stacks@.len() as int, p) && !in_range(code_first, code_pages, p)
                && !in_range(stack_first, stack_pages, p) && #[trigger] space.user_can_read(p)
                implies g0.path_entry(p, 1).flags.user_accessible by {
            assert(g2.user_can_read(p));
            let j = choose|j: int| 0 <= j < kernel_stacks@.len() && stack_first_page(#[trigger] kernel_stacks@[j]) <= p
                < stack_end_page(kernel_stacks@[j]);
            assert(p < PAGE_NUMBER_LIMIT);
            assert(g2.path_entry(p, 1) == g0.path_entry(p, 1));
            assert(g2.path_entry(p, 1).flags.user_accessible);
        }
    }
    Ok(user_return_frame(entry, stack_top))
}

/// The frame `user_return_frame` builds.
pub open spec fn user_return_frame_spec(entry: u64, stack_top: u64) -> ReturnFrame {
    ReturnFrame {
        rip: entry,
        cs: crate::gdt::USER_CODE_SELECTOR as u64,
        rflags: crate::process::INITIAL_RFLAGS,
        rsp: (stack_top - stack_top % 16) as u64,
        ss: crate::gdt::USER_DATA_SELECTOR as u64,
    }
}

} // verus!
