//! The first jump from privilege level 0 into a user program: the synthetic
//! interrupt-return frame, and the page permissions it relies on.
use vstd::prelude::*;
use crate::gdt::{USER_CODE_SELECTOR, USER_DATA_SELECTOR};
use crate::paging::{AddressSpace, MapError, Page, PAGE_NUMBER_LIMIT};
use crate::process::INITIAL_RFLAGS;

verus! {

/// The five words an interrupt return pops, from the last pushed.
#[derive(Clone, Copy, Debug, PartialEq, Eq, Structural)]
pub struct ReturnFrame {
    pub rip: u64,
    pub cs: u64,
    pub rflags: u64,
    pub rsp: u64,
    pub ss: u64,
}

/// Frame that resumes at `entry` on the user stack whose top is `stack_top`
/// (rounded down to 16 bytes) with user selectors and interrupts enabled.
pub fn user_return_frame(entry: u64, stack_top: u64) -> (r: ReturnFrame)
    ensures
        r == crate::boot::user_return_frame_spec(entry, stack_top),
        r.rip == entry,
        r.cs == USER_CODE_SELECTOR as u64,
        r.ss == USER_DATA_SELECTOR as u64,
        r.cs % 4 == 3 && r.ss % 4 == 3,
        r.rflags == INITIAL_RFLAGS,
        r.rsp % 16 == 0,
        r.rsp <= stack_top < r.rsp + 16,
{
    let rsp = stack_top - stack_top % 16;
    ReturnFrame {
        rip: entry,
        cs: USER_CODE_SELECTOR as u64,
        rflags: INITIAL_RFLAGS,
        rsp,
        ss: USER_DATA_SELECTOR as u64,
    }
}

/// Privilege level a saved code selector runs at.
pub fn saved_privilege(cs: u64) -> (r: u64)
    ensures
        r == cs % 4,
{
    cs % 4
}

/// A page user mode can read, and execute exactly when it is code, write
/// exactly when it is data.
pub open spec fn granted(space: &AddressSpace, p: u64, executable: bool) -> bool {
    &&& space.user_can_read(p)
    &&& space.user_can_execute(p) == executable
    &&& space.user_can_write(p) == !executable
}

/// Grants privilege level 3 access to `count` pages from page number
/// `first`; stops at the first page that is not mapped.
pub fn grant_user_range(space: &mut AddressSpace, first: u64, count: u64, executable: bool) -> (r: Result<(), MapError>)
    requires
        old(space).wf(),
        first + count <= PAGE_NUMBER_LIMIT,
    ensures
        final(space).wf(),
        r is Err ==> r == Err::<(), MapError>(MapError::PageNotMapped),
        r is Ok <==> forall|p: u64| first <= p < first + count ==> #[trigger] old(space).is_mapped(p),
        r is Ok ==> forall|p: u64| first <= p < first + count ==> #[trigger] granted(&*final(space), p, executable),
        forall|q: u64| #[trigger] final(space).is_mapped(q) == old(space).is_mapped(q),
        forall|q: u64|
            !(first <= q < first + count) && q < PAGE_NUMBER_LIMIT && old(space).is_mapped(q) ==> {
                &&& #[trigger] final(space).path_entry(q, 1) == old(space).path_entry(q, 1)
                &&& old(space).user_can_read(q) ==> final(space).user_can_read(q)
            },
{
    let mut i: u64 = 0;
    while i < count
        invariant
            space.wf(),
            i <= count,
            first + count <= PAGE_NUMBER_LIMIT,
            forall|q: u64| #[trigger] space.is_mapped(q) == old(space).is_mapped(q),
            forall|p: u64| first <= p < first + i ==> #[trigger] old(space).is_mapped(p),
            forall|p: u64| first <= p < first + i ==> #[trigger] granted(&*space, p, executable),
            forall|q: u64|
                !(first <= q < first + i) && q < PAGE_NUMBER_LIMIT && old(space).is_mapped(q) ==> {
                    &&& #[trigger] space.path_entry(q, 1) == old(space).path_entry(q, 1)
                    &&& old(space).user_can_read(q) ==> space.user_can_read(q)
                },
        decreases count - i,
    {
        let page = Page { number: first + i };
        let ghost before = *space;
        let r = space.grant_user_access(page, executable);
        if r.is_err() {
            proof {
                assert(!old(space).is_mapped(page.number));
            }
            return r;
        }
        proof {
            assert forall|p: u64| first <= p < first + i + 1 implies #[trigger] granted(&*space, p, executable) by {
                if p != page.number {
                    assert(granted(&before, p, executable));
                    assert(before.user_can_read(p));
                    assert(before.is_mapped(p));
                    assert(space.is_mapped(p));
                    assert(space.path_entry(p, 1) == before.path_entry(p, 1));
                    assert(space.user_can_read(p));
                    before.lemma_rights_by_leaf(p);
                    space.lemma_rights_by_leaf(p);
                }
            }
            assert forall|q: u64|
                !(first <= q < first + i + 1) && q < PAGE_NUMBER_LIMIT && old(space).is_mapped(q) implies {
                &&& #[trigger] space.path_entry(q, 1) == old(space).path_entry(q, 1)
                &&& old(space).user_can_read(q) ==> space.user_can_read(q)
            } by {
                assert(before.is_mapped(q));
                assert(space.path_entry(q, 1) == before.path_entry(q, 1));
            }
        }

        i = i + 1;
    }
    Ok(())
}

/// Makes `count` pages from page number `first` writable from privilege
/// level 0, leaving every page's reachability from privilege level 3 as it
/// was; stops at the first page that is not mapped.
pub fn ensure_writable_range(space: &mut AddressSpace, first: u64, count: u64) -> (r: Result<(), MapError>)
    requires
        old(space).wf(),
        first + count <= PAGE_NUMBER_LIMIT,
    ensures
        final(space).wf(),
        r is Err ==> r == Err::<(), MapError>(MapError::PageNotMapped),
        r is Ok <==> forall|p: u64| first <= p < first + count ==> #[trigger] old(space).is_mapped(p),
        r is Ok ==> forall|p: u64| first <= p < first + count ==> #[trigger] final(space).kernel_can_write(p),
        forall|q: u64| #[trigger] final(space).user_can_read(q) == old(space).user_can_read(q),
        forall|q: u64| #[trigger] final(space).is_mapped(q) == old(space).is_mapped(q),
        forall|q: u64|
            !(first <= q < first + count) && q < PAGE_NUMBER_LIMIT && old(space).is_mapped(q)
                ==> #[trigger] final(space).path_entry(q, 1) == old(space).path_entry(q, 1),
{
    let mut i: u64 = 0;
    while i < count
        invariant
            space.wf(),
            i <= count,
            first + count <= PAGE_NUMBER_LIMIT,
            forall|q: u64| #[trigger] space.is_mapped(q) == old(space).is_mapped(q),
            forall|q: u64| #[trigger] space.user_can_read(q) == old(space).user_can_read(q),
            forall|p: u64| first <= p < first + i ==> #[trigger] old(space).is_mapped(p),
            forall|p: u64| first <= p < first + i ==> #[trigger] space.kernel_can_write(p),
            forall|q: u64|
                !(first <= q < first + i) && q < PAGE_NUMBER_LIMIT && old(space).is_mapped(q)
                    ==> #[trigger] space.path_entry(q, 1) == old(space).path_entry(q, 1),
        decreases count - i,
    {
        let page = Page { number: first + i };
        let ghost before = *space;
        let r = space.ensure_writable(page);
        if r.is_err() {
            proof {
                assert(!old(space).is_mapped(page.number));
            }
            return r;
        }
        proof {
            assert(old(space).is_mapped(page.number));
            assert forall|p: u64| first <= p < first + i + 1 implies #[trigger] space.kernel_can_write(p) by {
                if p != page.number {
                    assert(before.kernel_can_write(p));
                    assert(before.is_mapped(p));
                    assert(space.is_mapped(p));
                    assert(space.path_entry(p, 1) == before.path_entry(p, 1));
                    before.lemma_rights_by_leaf(p);
                    space.lemma_rights_by_leaf(p);
                }
            }
            assert forall|q: u64|
                !(first <= q < first + i + 1) && q < PAGE_NUMBER_LIMIT && old(space).is_mapped(q)
                    implies #[trigger] space.path_entry(q, 1) == old(space).path_entry(q, 1) by {
                assert(before.is_mapped(q));
                assert(space.path_entry(q, 1) == before.path_entry(q, 1));
            }
        }

        i = i + 1;
    }
    Ok(())
}

} // verus!
