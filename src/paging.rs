//! Four-level address translation with per-level access flags.
//!
//! Tables live in one arena: table `t` owns the entries at indices
//! `t * 512 .. t * 512 + 512`, table 0 is the level-4 root, and a present
//! non-leaf entry names its child table by arena index and by the physical
//! frame that backs it.
use vstd::prelude::*;
use crate::frame::{BootInfoFrameAllocator, FRAME_SIZE};

verus! {

pub const ENTRIES_PER_TABLE: usize = 512;

/// Page numbers stay below this bound (48-bit lower-half addresses).
pub const PAGE_NUMBER_LIMIT: u64 = 0x10_0000_0000;

/// Addresses stay below this bound (the lower half of the canonical space).
pub const ADDRESS_LIMIT: u64 = 0x1_0000_0000_0000;

/// Most tables an address space may hold.
pub const MAX_TABLES: usize = 0x10_0000;

/// Access flags of one page-table entry.
#[derive(Clone, Copy, Debug, PartialEq, Eq, Structural)]
pub struct PageTableFlags {
    pub present: bool,
    pub writable: bool,
    pub user_accessible: bool,
    pub no_execute: bool,
    pub no_cache: bool,
}

impl PageTableFlags {
    /// No flag set.
    pub fn empty() -> (r: Self)
        ensures
            !r.present && !r.writable && !r.user_accessible && !r.no_execute && !r.no_cache,
    {
        PageTableFlags { present: false, writable: false, user_accessible: false, no_execute: false, no_cache: false }
    }
}

/// One slot of a page table.
#[derive(Clone, Copy, Debug, PartialEq, Eq, Structural)]
pub struct PageTableEntry {
    pub flags: PageTableFlags,
    /// Physical address of the mapped frame (leaf) or of the child table.
    pub addr: u64,
    /// Arena index of the child table; unused in a leaf.
    pub table: usize,
}

/// A virtual page, by page number (address / 4096).
#[derive(Clone, Copy, Debug, PartialEq, Eq, Structural)]
pub struct Page {
    pub number: u64,
}

/// Why a mapping request failed.
#[derive(Clone, Copy, Debug, PartialEq, Eq, Structural)]
pub enum MapError {
    /// No frame was left for an intermediate table.
    FrameAllocationFailed,
    /// The page already has a leaf entry.
    PageAlreadyMapped,
    /// The page has no leaf entry.
    PageNotMapped,
    /// The arena holds the most tables it may.
    TableLimitReached,
}

/// Index into the table of the given level (4 is the root) for page `n`.
pub open spec fn table_index(n: u64, level: int) -> int {
    if level == 4 {
        (n / 0x800_0000) as int % 512
    } else if level == 3 {
        (n / 0x4_0000) as int % 512
    } else if level == 2 {
        (n / 0x200) as int % 512
    } else {
        n as int % 512
    }
}

impl Page {
    /// The page that contains `addr`.
    pub fn containing_address(addr: u64) -> (r: Page)
        requires
            addr < ADDRESS_LIMIT,
        ensures
            r.number == addr / FRAME_SIZE,
            r.wf(),
    {
        Page { number: addr / FRAME_SIZE }
    }

    pub open spec fn wf(&self) -> bool {
        self.number < PAGE_NUMBER_LIMIT
    }

    /// First address of the page.
    pub fn start_address(&self) -> (r: u64)
        requires
            self.wf(),
        ensures
            r == self.number * FRAME_SIZE,
    {
        self.number * FRAME_SIZE
    }

    /// Index into the table of `level` (1 to 4) on this page's walk.
    pub fn index(&self, level: u8) -> (r: usize)
        requires
            1 <= level <= 4,
        ensures
            r == table_index(self.number, level as int),
            r < ENTRIES_PER_TABLE,
    {
        if level == 4 {
            ((self.number / 0x800_0000) % 512) as usize
        } else if level == 3 {
            ((self.number / 0x4_0000) % 512) as usize
        } else if level == 2 {
            ((self.number / 0x200) % 512) as usize
        } else {
            (self.number % 512) as usize
        }
    }
}

/// Outcome of each kind of access to a mapped page.
#[derive(Clone, Copy, Debug, PartialEq, Eq, Structural)]
pub struct AccessRights {
    pub user_read: bool,
    pub user_write: bool,
    pub user_execute: bool,
    pub kernel_write: bool,
}

pub struct AddressSpace {
    entries: Vec<PageTableEntry>,
    /// Physical frame backing each table.
    table_frames: Vec<u64>,
    /// Level (4 for the root down to 1) of each table.
    levels: Ghost<Seq<int>>,
}

pub open spec fn slot(t: int, i: int) -> int {
    t * 512 + i
}

proof fn lemma_slot_mod(t: int, i: int)
    requires
        0 <= t,
        0 <= i < 512,
    ensures
        slot(t, i) % 512 == i,
        slot(t, i) / 512 == t,
{
    assert((t * 512 + i) % 512 == i && (t * 512 + i) / 512 == t) by (nonlinear_arith)
        requires
            0 <= t,
            0 <= i < 512,
    ;
}

/// A page number is fixed by its four table indices.
proof fn lemma_indices_determine(n: u64, q: u64)
    requires
        n < PAGE_NUMBER_LIMIT,
        q < PAGE_NUMBER_LIMIT,
        table_index(n, 4) == table_index(q, 4),
        table_index(n, 3) == table_index(q, 3),
        table_index(n, 2) == table_index(q, 2),
        table_index(n, 1) == table_index(q, 1),
    ensures
        n == q,
{
    assert(n == q) by (bit_vector)
        requires
            n < 0x10_0000_0000u64,
            q < 0x10_0000_0000u64,
            (n / 0x800_0000u64) % 512u64 == (q / 0x800_0000u64) % 512u64,
            (n / 0x4_0000u64) % 512u64 == (q / 0x4_0000u64) % 512u64,
            (n / 0x200u64) % 512u64 == (q / 0x200u64) % 512u64,
            n % 512u64 == q % 512u64,
    ;
}

proof fn lemma_slot_bounds(t: int, i: int, n: int)
    requires
        0 <= t < n,
        0 <= i < 512,
    ensures
        0 <= slot(t, i) < n * 512,
        slot(t, i) / 512 == t,
{
    assert(0 <= t * 512 + i < n * 512) by (nonlinear_arith)
        requires
            0 <= t < n,
            0 <= i < 512,
    ;
    assert((t * 512 + i) / 512 == t) by (nonlinear_arith)
        requires
            0 <= t,
            0 <= i < 512,
    ;
}

/// The entry with user access added.
pub open spec fn with_user(e: PageTableEntry) -> PageTableEntry {
    PageTableEntry { flags: PageTableFlags { user_accessible: true, ..e.flags }, ..e }
}

/// The entry with write access added.
pub open spec fn with_writable(e: PageTableEntry) -> PageTableEntry {
    PageTableEntry { flags: PageTableFlags { writable: true, ..e.flags }, ..e }
}

/// Leaf entry of a user page: code is executable and read-only, data is
/// writable and not executable.
pub open spec fn user_leaf(e: PageTableEntry, executable: bool) -> PageTableEntry {
    if executable {
        PageTableEntry {
            flags: PageTableFlags { user_accessible: true, no_execute: false, writable: false, ..e.flags },
            ..e
        }
    } else {
        PageTableEntry {
            flags: PageTableFlags { user_accessible: true, no_execute: true, writable: true, ..e.flags },
            ..e
        }
    }
}

/// An entry with no flag set.
pub open spec fn is_empty_entry(e: PageTableEntry) -> bool {
    !e.flags.present && !e.flags.writable && !e.flags.user_accessible && !e.flags.no_execute
        && !e.flags.no_cache && e.table == 0
}

/// `new` keeps every present entry of `old` as it was, and may add tables.
pub open spec fn keeps_present(old: Seq<PageTableEntry>, new: Seq<PageTableEntry>) -> bool {
    &&& new.len() >= old.len()
    &&& forall|k: int| 0 <= k < old.len() && (#[trigger] old[k]).flags.present ==> new[k] == old[k]
}

/// `f` grows out of `o`: the slots that differ (or are new) and are present
/// lie in `allowed`; a slot that differs was not present in `o`; and a
/// differing slot that now links to a child names a table `o` did not have.
pub open spec fn extends(o: &AddressSpace, f: &AddressSpace, allowed: Set<int>) -> bool {
    &&& f.entries_view().len() >= o.entries_view().len()
    &&& f.table_count() >= o.table_count()
    &&& forall|t: int| 0 <= t < o.table_count() ==> #[trigger] f.level_of(t) == o.level_of(t)
    &&& forall|k: int|
        0 <= k < f.entries_view().len() && (k >= o.entries_view().len() || f.entries_view()[k] != o.entries_view()[k])
            && (#[trigger] f.entries_view()[k]).flags.present ==> allowed.contains(k)
    &&& forall|k: int|
        0 <= k < o.entries_view().len() && (#[trigger] f.entries_view()[k]) != o.entries_view()[k]
            ==> !o.entries_view()[k].flags.present
    &&& forall|k: int|
        0 <= k < f.entries_view().len() && (k >= o.entries_view().len() || f.entries_view()[k] != o.entries_view()[k])
            && (#[trigger] f.entries_view()[k]).flags.present && f.level_of(k / 512) > 1 ==> f.entries_view()[k].table
            >= o.table_count()
}

/// New tables of `f` (those `o` lacks) are backed by frames the allocator
/// handed out in between, which it had not handed out before.
pub open spec fn fresh_tables(o: &AddressSpace, f: &AddressSpace, of: &BootInfoFrameAllocator, ff: &BootInfoFrameAllocator) -> bool {
    &&& f.table_count() >= o.table_count()
    &&& f.frames_view().subrange(0, o.table_count() as int) == o.frames_view()
    &&& of.issued_frames().subset_of(ff.issued_frames())
    &&& forall|t: int|
        o.table_count() <= t < f.table_count() ==> ff.issued_frames().contains(#[trigger] f.frames_view()[t])
            && !of.issued_frames().contains(f.frames_view()[t])
}

proof fn lemma_fresh_trans(
    a: &AddressSpace,
    b: &AddressSpace,
    c: &AddressSpace,
    fa: &BootInfoFrameAllocator,
    fb: &BootInfoFrameAllocator,
    fc: &BootInfoFrameAllocator,
)
    requires
        fresh_tables(a, b, fa, fb),
        fresh_tables(b, c, fb, fc),
    ensures
        fresh_tables(a, c, fa, fc),
{
    assert(c.frames_view().subrange(0, a.table_count() as int) =~= c.frames_view().subrange(0, b.table_count() as int).subrange(
        0,
        a.table_count() as int,
    ));
    assert forall|t: int| a.table_count() <= t < c.table_count() implies fc.issued_frames().contains(#[trigger] c.frames_view()[t])
        && !fa.issued_frames().contains(c.frames_view()[t]) by {
        if t < b.table_count() {
            assert(c.frames_view()[t] == c.frames_view().subrange(0, b.table_count() as int)[t]);
        }
    }
}

/// Growth composes.
pub proof fn lemma_extends_trans(a: &AddressSpace, b: &AddressSpace, c: &AddressSpace, s1: Set<int>, s2: Set<int>)
    requires
        b.wf(),
        extends(a, b, s1),
        extends(b, c, s2),
    ensures
        extends(a, c, s1.union(s2)),
{
    assert forall|k: int|
        0 <= k < c.entries_view().len() && (k >= a.entries_view().len() || c.entries_view()[k] != a.entries_view()[k])
            && (#[trigger] c.entries_view()[k]).flags.present implies s1.union(s2).contains(k) by {
        if k < b.entries_view().len() && c.entries_view()[k] == b.entries_view()[k] {
            assert(s1.contains(k));
        } else {
            assert(s2.contains(k));
        }
    }
    assert forall|k: int| 0 <= k < a.entries_view().len() && (#[trigger] c.entries_view()[k]) != a.entries_view()[k]
        implies !a.entries_view()[k].flags.present by {
        if b.entries_view()[k] == a.entries_view()[k] {
            assert(c.entries_view()[k] != b.entries_view()[k]);
        }
    }
    assert forall|k: int|
        0 <= k < c.entries_view().len() && (k >= a.entries_view().len() || c.entries_view()[k] != a.entries_view()[k])
            && (#[trigger] c.entries_view()[k]).flags.present && c.level_of(k / 512) > 1 implies c.entries_view()[k].table
            >= a.table_count() by {
        if k < b.entries_view().len() && c.entries_view()[k] == b.entries_view()[k] {
            assert(b.entries_view()[k].flags.present);
            assert(k / 512 < b.table_count()) by (nonlinear_arith)
                requires 0 <= k < b.entries_view().len(), b.entries_view().len() == b.table_count() * 512;
            assert(b.level_of(k / 512) == c.level_of(k / 512));
        }
    }
}

impl AddressSpace {
    pub closed spec fn level_of(&self, t: int) -> int {
        self.levels@[t]
    }

    /// A fresh address space: one empty root table backed by `root_frame`.
    pub fn new(root_frame: u64) -> (r: Self)
        ensures
            r.wf(),
            r.table_count() == 1,
            r.frames_view() == seq![root_frame],
            forall|k: int| 0 <= k < r.entries_view().len() ==> is_empty_entry(#[trigger] r.entries_view()[k]),
            forall|q: u64| !(#[trigger] r.is_mapped(q)),
    {
        let mut entries: Vec<PageTableEntry> = Vec::new();
        let mut i: usize = 0;
        while i < ENTRIES_PER_TABLE
            invariant
                entries@.len() == i,
                i <= ENTRIES_PER_TABLE,
                forall|k: int| 0 <= k < i ==> is_empty_entry(#[trigger] entries@[k]),
            decreases ENTRIES_PER_TABLE - i,
        {
            entries.push(PageTableEntry { flags: PageTableFlags::empty(), addr: 0, table: 0 });
            i = i + 1;
        }
        let mut table_frames: Vec<u64> = Vec::new();
        table_frames.push(root_frame);
        let r = AddressSpace { entries, table_frames, levels: Ghost(Seq::empty().push(4int)) };
        proof {
            assert(r.table_frames@ =~= seq![root_frame]);
            assert forall|q: u64| !(#[trigger] r.is_mapped(q)) by {
                r.lemma_walk(q);
                assert(!r.path_entry(q, 4).flags.present);
            }
        }
        r
    }

    /// Pages mapped in `self` keep their translation and access rights in a
    /// space that keeps all of `self`'s present entries.
    proof fn lemma_keeps_mapped(&self, other: &Self, q: u64)
        requires
            self.wf(),
            keeps_present(self.entries@, other.entries@),
            self.is_mapped(q),
        ensures
            other.is_mapped(q),
            other.translation(q) == self.translation(q),
            other.user_can_read(q) == self.user_can_read(q),
            other.user_can_write(q) == self.user_can_write(q),
            other.user_can_execute(q) == self.user_can_execute(q),
            other.kernel_can_write(q) == self.kernel_can_write(q),
            other.path_entry(q, 1) == self.path_entry(q, 1),
    {
        self.lemma_walk(q);
        assert(self.path_entry(q, 4).flags.present);
        assert(self.path_entry(q, 3).flags.present);
        assert(self.path_entry(q, 2).flags.present);
        assert(self.path_entry(q, 1).flags.present);
        assert(other.path_slot(q, 4) == self.path_slot(q, 4));
        assert(other.path_entry(q, 4) == self.path_entry(q, 4));
        assert(other.path_slot(q, 3) == self.path_slot(q, 3));
        assert(other.path_entry(q, 3) == self.path_entry(q, 3));
        assert(other.path_slot(q, 2) == self.path_slot(q, 2));
        assert(other.path_entry(q, 2) == self.path_entry(q, 2));
        assert(other.path_slot(q, 1) == self.path_slot(q, 1));
        assert(other.path_entry(q, 1) == self.path_entry(q, 1));
        assert forall|l: int| 1 <= l <= 4 implies #[trigger] other.path_entry(q, l) == self.path_entry(q, l) by {
            if l == 4 {} else if l == 3 {} else if l == 2 {} else {}
        }
    }

    /// The child table of the entry at slot `s`, creating an empty one backed
    /// by a fresh frame when the entry is not present.
    fn child_table(&mut self, s: usize, frames: &mut BootInfoFrameAllocator) -> (r: Result<usize, MapError>)
        requires
            old(self).wf(),
            old(frames).wf(),
            s < old(self).entries_view().len(),
            old(self).level_of(s as int / 512) > 1,
        ensures
            final(self).wf(),
            final(frames).wf(),
            final(frames).regions_view() == old(frames).regions_view(),
            keeps_present(old(self).entries_view(), final(self).entries_view()),
            forall|k: int|
                0 <= k < old(self).entries_view().len() && k != s ==> #[trigger] final(self).entries_view()[k]
                    == old(self).entries_view()[k],
            forall|k: int|
                old(self).entries_view().len() <= k < final(self).entries_view().len() ==> is_empty_entry(
                    #[trigger] final(self).entries_view()[k],
                ),
            forall|t: int| 0 <= t < old(self).table_count() ==> #[trigger] final(self).level_of(t) == old(self).level_of(t),
            old(self).entries_view()[s as int].flags.present ==> r == Ok::<usize, MapError>(
                old(self).entries_view()[s as int].table,
            ) && final(self).entries_view() == old(self).entries_view(),
            r matches Ok(t) ==> {
                &&& final(self).entries_view()[s as int].flags.present
                &&& final(self).entries_view()[s as int].table == t
            },
            r is Err ==> !old(self).entries_view()[s as int].flags.present && final(self).entries_view()
                == old(self).entries_view() && (r == Err::<usize, MapError>(MapError::FrameAllocationFailed)
                || r == Err::<usize, MapError>(MapError::TableLimitReached)),
            r matches Ok(t) ==> {
                &&& t < final(self).table_count()
                &&& final(self).level_of(t as int) == old(self).level_of(s as int / 512) - 1
            },
            !old(self).entries_view()[s as int].flags.present && r is Ok ==> {
                &&& r == Ok::<usize, MapError>(old(self).table_count() as usize)
                &&& final(self).table_count() == old(self).table_count() + 1
            },
            extends(&*old(self), &*final(self), set![s as int]),
            final(self).table_count() <= old(self).table_count() + 1,
            old(frames).issued_frames().subset_of(final(frames).issued_frames()),
            final(self).table_count() == old(self).table_count() ==> final(self).frames_view() == old(self).frames_view(),
            final(self).table_count() == old(self).table_count() + 1 ==> ({
                let f = final(self).frames_view().last();
                &&& final(self).frames_view() == old(self).frames_view().push(f)
                &&& final(frames).issued_frames().contains(f)
                &&& !old(frames).issued_frames().contains(f)
            }),
            fresh_tables(&*old(self), &*final(self), &*old(frames), &*final(frames)),
            r == Err::<usize, MapError>(MapError::TableLimitReached) ==> old(self).table_count() >= MAX_TABLES,
            r == Err::<usize, MapError>(MapError::FrameAllocationFailed) ==> crate::frame::probe_exhausted(
                final(frames).regions_view(),
                final(frames).next(),
            ),
    {
        proof {
            assert(self.table_frames@.subrange(0, self.table_frames@.len() as int) =~= self.table_frames@);
        }
        if self.entries[s].flags.present {
            proof {
                assert(s as int / 512 < self.table_frames@.len()) by (nonlinear_arith)
                    requires s < self.table_frames@.len() * 512;
            }
            return Ok(self.entries[s].table);
        }
        if self.table_frames.len() >= MAX_TABLES {
            return Err(MapError::TableLimitReached);
        }
        let frame = match frames.allocate_frame() {
            Some(f) => f,
            None => {
                return Err(MapError::FrameAllocationFailed);
            },
        };
        let ghost pre = *self;
        let t = self.table_frames.len();
        let mut i: usize = 0;
        while i < ENTRIES_PER_TABLE
            invariant
                self.entries@.len() == pre.entries@.len() + i,
                i <= ENTRIES_PER_TABLE,
                pre.wf(),
                self.table_frames@ == pre.table_frames@,
                self.levels@ == pre.levels@,
                forall|k: int| 0 <= k < pre.entries@.len() ==> #[trigger] self.entries@[k] == pre.entries@[k],
                forall|k: int|
                    pre.entries@.len() <= k < self.entries@.len() ==> is_empty_entry(#[trigger] self.entries@[k]),
            decreases ENTRIES_PER_TABLE - i,
        {
            self.entries.push(PageTableEntry { flags: PageTableFlags::empty(), addr: 0, table: 0 });
            i = i + 1;
        }
        self.table_frames.push(frame);
        assert(self.table_frames@.subrange(0, pre.table_frames@.len() as int) =~= pre.table_frames@);
        self.levels = Ghost(self.levels@.push(pre.levels@[s as int / 512] - 1));
        self.entries.set(s, PageTableEntry {
            flags: PageTableFlags { present: true, writable: true, user_accessible: false, no_execute: false, no_cache: false },
            addr: frame,
            table: t,
        });
        proof {
            assert(self.entries@.len() == self.table_frames@.len() * 512);
            assert forall|k: int| 0 <= k < self.entries@.len() implies {
                let e = #[trigger] self.entries@[k];
                &&& e.table < self.table_frames@.len()
                &&& e.flags.present && self.levels@[k / 512] > 1 ==> {
                    &&& self.levels@[e.table as int] == self.levels@[k / 512] - 1
                    &&& e.flags.writable
                    &&& !e.flags.no_execute
                }
            } by {
                if k < pre.entries@.len() {
                    assert(k / 512 < pre.table_frames@.len()) by (nonlinear_arith)
                        requires k < pre.table_frames@.len() * 512, 0 <= k;
                    assert(self.levels@[k / 512] == pre.levels@[k / 512]);
                    if k != s {
                        assert(self.entries@[k] == pre.entries@[k]);
                        assert(pre.entries@[k].table < pre.table_frames@.len());
                    } else {
                        assert(self.levels@[t as int] == pre.levels@[s as int / 512] - 1);
                    }
                } else {
                    assert(!self.entries@[k].flags.present);
                }
            }
            assert(s as int / 512 < pre.table_frames@.len()) by (nonlinear_arith)
                requires s < pre.table_frames@.len() * 512;
            assert forall|k: int|
                0 <= k < self.entries@.len() && (k >= pre.entries@.len() || self.entries@[k] != pre.entries@[k])
                    && (#[trigger] self.entries@[k]).flags.present implies k == s by {
                if k != s && k >= pre.entries@.len() {
                    assert(is_empty_entry(self.entries@[k]));
                }
            }
        }
        Ok(t)
    }

    pub closed spec fn entries_view(&self) -> Seq<PageTableEntry> {
        self.entries@
    }

    pub closed spec fn table_count(&self) -> nat {
        self.table_frames@.len()
    }

    pub closed spec fn frames_view(&self) -> Seq<u64> {
        self.table_frames@
    }

    pub closed spec fn wf(&self) -> bool {
        &&& 1 <= self.table_frames@.len() <= MAX_TABLES
        &&& self.entries@.len() == self.table_frames@.len() * 512
        &&& self.levels@.len() == self.table_frames@.len()
        &&& self.levels@[0] == 4
        &&& forall|t: int| 0 <= t < self.levels@.len() ==> 1 <= #[trigger] self.levels@[t] <= 4
        &&& forall|k: int|
            0 <= k < self.entries@.len() ==> {
                let e = #[trigger] self.entries@[k];
                &&& e.table < self.table_frames@.len()
                &&& e.flags.present && self.levels@[k / 512] > 1 ==> {
                    &&& self.levels@[e.table as int] == self.levels@[k / 512] - 1
                    &&& e.flags.writable
                    &&& !e.flags.no_execute
                }
            }
        &&& self.links_unique()
    }

    /// No table is the child of two entries.
    pub closed spec fn links_unique(&self) -> bool {
        forall|k1: int, k2: int|
            0 <= k1 < self.entries@.len() && 0 <= k2 < self.entries@.len() && self.is_link(k1) && self.is_link(k2)
                && (#[trigger] self.entries@[k1]).table == (#[trigger] self.entries@[k2]).table ==> k1 == k2
    }

    /// The entry at `k` is a present entry of a non-leaf table.
    pub closed spec fn is_link(&self, k: int) -> bool {
        self.entries@[k].flags.present && self.levels@[k / 512] > 1
    }

    /// The walk of a page stays inside the arena, visits one table of each
    /// level, and so never visits one slot twice.
    proof fn lemma_walk(&self, n: u64)
        requires
            self.wf(),
        ensures
            forall|l: int|
                1 <= l <= 4 ==> 0 <= #[trigger] self.path_slot(n, l) < self.entries@.len(),
            self.levels@[self.path_slot(n, 4) / 512] == 4,
            self.path_entry(n, 4).flags.present ==> self.levels@[self.path_slot(n, 3) / 512] == 3,
            self.path_entry(n, 4).flags.present && self.path_entry(n, 3).flags.present
                ==> self.levels@[self.path_slot(n, 2) / 512] == 2,
            self.path_entry(n, 4).flags.present && self.path_entry(n, 3).flags.present
                && self.path_entry(n, 2).flags.present ==> self.levels@[self.path_slot(n, 1) / 512]
                == 1,
    {
        let cnt = self.table_frames@.len() as int;
        lemma_slot_bounds(0, table_index(n, 4), cnt);
        let s4 = self.path_slot(n, 4);
        let t3 = self.entries@[s4].table as int;
        lemma_slot_bounds(t3, table_index(n, 3), cnt);
        let s3 = self.path_slot(n, 3);
        let t2 = self.entries@[s3].table as int;
        lemma_slot_bounds(t2, table_index(n, 2), cnt);
        let s2 = self.path_slot(n, 2);
        let t1 = self.entries@[s2].table as int;
        lemma_slot_bounds(t1, table_index(n, 1), cnt);
    }

    /// Walks depend only on the child links of the entries.
    proof fn lemma_same_links(&self, other: &Self, n: u64)
        requires
            self.entries@.len() == other.entries@.len(),
            forall|k: int|
                0 <= k < self.entries@.len() ==> (#[trigger] self.entries@[k]).table
                    == other.entries@[k].table,
            forall|l: int| 1 <= l <= 4 ==> 0 <= #[trigger] self.path_slot(n, l) < self.entries@.len(),
        ensures
            forall|l: int| 1 <= l <= 4 ==> #[trigger] self.path_slot(n, l) == other.path_slot(n, l),
    {
        assert(self.path_slot(n, 4) == other.path_slot(n, 4));
        assert(self.path_slot(n, 3) == other.path_slot(n, 3));
        assert(self.path_slot(n, 2) == other.path_slot(n, 2));
        assert(self.path_slot(n, 1) == other.path_slot(n, 1));
    }

    /// Arena slots of the four entries on the page's walk, root first, or
    /// `None` when the walk stops at an entry that is not present.
    fn walk_slots(&self, page: Page) -> (r: Option<(usize, usize, usize, usize)>)
        requires
            self.wf(),
            page.wf(),
        ensures
            r is Some <==> self.is_mapped(page.number),
            r matches Some((s4, s3, s2, s1)) ==> {
                &&& s4 == self.path_slot(page.number, 4)
                &&& s3 == self.path_slot(page.number, 3)
                &&& s2 == self.path_slot(page.number, 2)
                &&& s1 == self.path_slot(page.number, 1)
            },
    {
        let ghost n = page.number;
        proof {
            self.lemma_walk(n);
            lemma_slot_bounds(0, table_index(n, 4), self.table_frames@.len() as int);
        }
        let s4 = page.index(4);
        if !self.entries[s4].flags.present {
            assert(!self.path_entry(n, 4).flags.present);
            return None;
        }
        let t3 = self.entries[s4].table;
        proof { lemma_slot_bounds(t3 as int, table_index(n, 3), self.table_frames@.len() as int); }
        let s3 = t3 * 512 + page.index(3);
        if !self.entries[s3].flags.present {
            assert(!self.path_entry(n, 3).flags.present);
            return None;
        }
        let t2 = self.entries[s3].table;
        proof { lemma_slot_bounds(t2 as int, table_index(n, 2), self.table_frames@.len() as int); }
        let s2 = t2 * 512 + page.index(2);
        if !self.entries[s2].flags.present {
            assert(!self.path_entry(n, 2).flags.present);
            return None;
        }
        let t1 = self.entries[s2].table;
        proof { lemma_slot_bounds(t1 as int, table_index(n, 1), self.table_frames@.len() as int); }
        let s1 = t1 * 512 + page.index(1);
        if !self.entries[s1].flags.present {
            assert(!self.path_entry(n, 1).flags.present);
            return None;
        }
        assert(forall|l: int| 1 <= l <= 4 ==> (#[trigger] self.path_entry(n, l)).flags.present) by {
            assert(self.path_entry(n, 1).flags.present);
        }
        Some((s4, s3, s2, s1))
    }

    /// Gives privilege level 3 access to an already mapped page by adding
    /// USER_ACCESSIBLE at all four levels. A code page (`executable`) becomes
    /// executable and read-only at its leaf, a data page writable and not
    /// executable. The caller flushes the page's stale translation.
    #[verifier::rlimit(100)]
    #[verifier::spinoff_prover]
    pub fn grant_user_access(&mut self, page: Page, executable: bool) -> (r: Result<(), MapError>)
        requires
            old(self).wf(),
            page.wf(),
        ensures
            final(self).wf(),
            final(self).table_count() == old(self).table_count(),
            r is Err <==> !old(self).is_mapped(page.number),
            r is Err ==> r == Err::<(), MapError>(MapError::PageNotMapped) && final(self).entries_view()
                == old(self).entries_view(),
            r is Ok ==> final(self).entries_view() == old(self).entries_view().update(
                old(self).path_slot(page.number, 4),
                with_user(old(self).path_entry(page.number, 4)),
            ).update(
                old(self).path_slot(page.number, 3),
                with_user(old(self).path_entry(page.number, 3)),
            ).update(
                old(self).path_slot(page.number, 2),
                with_user(old(self).path_entry(page.number, 2)),
            ).update(
                old(self).path_slot(page.number, 1),
                user_leaf(old(self).path_entry(page.number, 1), executable),
            ),
            forall|q: u64| #[trigger] final(self).is_mapped(q) == old(self).is_mapped(q),
            forall|q: u64|
                q != page.number && q < PAGE_NUMBER_LIMIT && old(self).is_mapped(q) ==> #[trigger] final(self).path_entry(q, 1)
                    == old(self).path_entry(q, 1),
            forall|q: u64|
                q != page.number && q < PAGE_NUMBER_LIMIT && old(self).is_mapped(q) && old(self).user_can_read(q)
                    ==> #[trigger] final(self).user_can_read(q),
            forall|q: u64| #[trigger] final(self).translation(q) == old(self).translation(q),
            r is Ok ==> {
                &&& final(self).translation(page.number) == old(self).translation(page.number)
                &&& final(self).user_can_read(page.number)
                &&& final(self).user_can_execute(page.number) == executable
                &&& final(self).user_can_write(page.number) == !executable
            },
    {
        let ghost n = page.number;
        match self.walk_slots(page) {
            None => Err(MapError::PageNotMapped),
            Some((s4, s3, s2, s1)) => {
                let ghost pre = *self;
                proof { self.lemma_walk(n); }
                let e = self.entries[s4];
                self.entries.set(s4, PageTableEntry { flags: PageTableFlags { user_accessible: true, ..e.flags }, ..e });
                let e = self.entries[s3];
                self.entries.set(s3, PageTableEntry { flags: PageTableFlags { user_accessible: true, ..e.flags }, ..e });
                let e = self.entries[s2];
                self.entries.set(s2, PageTableEntry { flags: PageTableFlags { user_accessible: true, ..e.flags }, ..e });
                let e = self.entries[s1];
                if executable {
                    self.entries.set(s1, PageTableEntry {
                        flags: PageTableFlags { user_accessible: true, no_execute: false, writable: false, ..e.flags },
                        ..e
                    });
                } else {
                    self.entries.set(s1, PageTableEntry {
                        flags: PageTableFlags { user_accessible: true, no_execute: true, writable: true, ..e.flags },
                        ..e
                    });
                }
                proof {
                    pre.lemma_same_links(self, n);
                    assert(self.path_entry(n, 4) == with_user(pre.path_entry(n, 4)));
                    assert(self.path_entry(n, 3) == with_user(pre.path_entry(n, 3)));
                    assert(self.path_entry(n, 2) == with_user(pre.path_entry(n, 2)));
                    assert(self.path_entry(n, 1) == user_leaf(pre.path_entry(n, 1), executable));
                    assert(self.is_mapped(n));
                    assert(self.wf());
                    assert forall|q: u64| #[trigger] self.is_mapped(q) == pre.is_mapped(q) by {
                        pre.lemma_same_mapping(self, q);
                    }
                    assert forall|q: u64| #[trigger] self.translation(q) == pre.translation(q) by {
                        pre.lemma_same_mapping(self, q);
                    }
                    assert forall|q: u64|
                        q != page.number && q < PAGE_NUMBER_LIMIT && pre.is_mapped(q) implies #[trigger] self.path_entry(q, 1)
                            == pre.path_entry(q, 1) by {
                        pre.lemma_walk(q);
                        assert(pre.path_entry(q, 4).flags.present && pre.path_entry(q, 3).flags.present
                            && pre.path_entry(q, 2).flags.present);
                        let k = pre.path_slot(q, 1);
                        if k == s1 as int {
                            pre.lemma_distinct_leaves(n, q);
                        }
                        assert(k != s4 && k != s3 && k != s2);
                        pre.lemma_same_links(self, q);
                        assert(self.path_slot(q, 1) == k);
                    }
                    assert forall|q: u64|
                        q != page.number && q < PAGE_NUMBER_LIMIT && pre.is_mapped(q) && pre.user_can_read(q)
                            implies #[trigger] self.user_can_read(q) by {
                        pre.lemma_walk(q);
                        pre.lemma_same_links(self, q);
                        pre.lemma_same_mapping(self, q);
                        assert forall|l: int| 1 <= l <= 4 implies (#[trigger] self.path_entry(q, l)).flags.user_accessible by {
                            assert(pre.path_entry(q, l).flags.user_accessible);
                            let k = pre.path_slot(q, l);
                            assert(self.path_slot(q, l) == k);
                        }
                    }
                }
                Ok(())
            },
        }
    }

    /// Two mapped pages that share a leaf slot are the same page.
    proof fn lemma_distinct_leaves(&self, n: u64, q: u64)
        requires
            self.wf(),
            n < PAGE_NUMBER_LIMIT,
            q < PAGE_NUMBER_LIMIT,
            self.is_mapped(n),
            self.is_mapped(q),
            self.path_slot(q, 1) == self.path_slot(n, 1),
        ensures
            q == n,
    {
        let f = self;
        f.lemma_walk(n);
        f.lemma_walk(q);
        assert(f.path_entry(n, 4).flags.present && f.path_entry(n, 3).flags.present && f.path_entry(n, 2).flags.present
            && f.path_entry(n, 1).flags.present);
        assert(f.path_entry(q, 4).flags.present && f.path_entry(q, 3).flags.present && f.path_entry(q, 2).flags.present
            && f.path_entry(q, 1).flags.present);
        let a4 = f.path_slot(q, 4);
        let a3 = f.path_slot(q, 3);
        let a2 = f.path_slot(q, 2);
        let s4 = f.path_slot(n, 4);
        let s3 = f.path_slot(n, 3);
        let s2 = f.path_slot(n, 2);
        lemma_slot_mod(0, table_index(q, 4));
        lemma_slot_mod(0, table_index(n, 4));
        lemma_slot_mod(f.entries@[a4].table as int, table_index(q, 3));
        lemma_slot_mod(f.entries@[a3].table as int, table_index(q, 2));
        lemma_slot_mod(f.entries@[a2].table as int, table_index(q, 1));
        lemma_slot_mod(f.entries@[s4].table as int, table_index(n, 3));
        lemma_slot_mod(f.entries@[s3].table as int, table_index(n, 2));
        lemma_slot_mod(f.entries@[s2].table as int, table_index(n, 1));
        assert(f.is_link(a2) && f.is_link(s2));
        assert(a2 == s2);
        assert(f.is_link(a3) && f.is_link(s3));
        assert(a3 == s3);
        assert(f.is_link(a4) && f.is_link(s4));
        assert(a4 == s4);
        lemma_indices_determine(n, q);
    }

    /// The slot at `k` of `f` is new or differs from `o`.
    spec fn changed(o: &Self, f: &Self, k: int) -> bool {
        k >= o.entries@.len() || f.entries@[k] != o.entries@[k]
    }

    /// After a `map` of page `n` that turned `o` into `f`, any page mapped in
    /// `f` but not in `o` is `n`.
    proof fn lemma_only_target_newly_mapped(o: &Self, f: &Self, n: u64, q: u64)
        requires
            o.wf(),
            f.wf(),
            n < PAGE_NUMBER_LIMIT,
            q < PAGE_NUMBER_LIMIT,
            extends(o, f, set![f.path_slot(n, 4), f.path_slot(n, 3), f.path_slot(n, 2), f.path_slot(n, 1)]),
            f.is_mapped(n),
            f.is_mapped(q),
            !o.is_mapped(q),
        ensures
            q == n,
    {
        let cnt = f.table_frames@.len() as int;
        f.lemma_walk(n);
        f.lemma_walk(q);
        o.lemma_walk(q);
        assert(f.path_entry(n, 4).flags.present && f.path_entry(n, 3).flags.present && f.path_entry(n, 2).flags.present
            && f.path_entry(n, 1).flags.present);
        assert(f.path_entry(q, 4).flags.present && f.path_entry(q, 3).flags.present && f.path_entry(q, 2).flags.present
            && f.path_entry(q, 1).flags.present);
        let a4 = f.path_slot(q, 4);
        let a3 = f.path_slot(q, 3);
        let a2 = f.path_slot(q, 2);
        let a1 = f.path_slot(q, 1);
        let s4 = f.path_slot(n, 4);
        let s3 = f.path_slot(n, 3);
        let s2 = f.path_slot(n, 2);
        let s1 = f.path_slot(n, 1);
        let allowed = set![s4, s3, s2, s1];
        // Slot arithmetic along both walks.
        lemma_slot_mod(0, table_index(q, 4));
        lemma_slot_mod(0, table_index(n, 4));
        lemma_slot_mod(f.entries@[a4].table as int, table_index(q, 3));
        lemma_slot_mod(f.entries@[a3].table as int, table_index(q, 2));
        lemma_slot_mod(f.entries@[a2].table as int, table_index(q, 1));
        lemma_slot_mod(f.entries@[s4].table as int, table_index(n, 3));
        lemma_slot_mod(f.entries@[s3].table as int, table_index(n, 2));
        lemma_slot_mod(f.entries@[s2].table as int, table_index(n, 1));
        // A changed, present slot on q's walk at level l is n's slot at level l.
        assert forall|l: int| 1 <= l <= 4 && #[trigger] Self::changed(o, f, f.path_slot(q, l)) implies f.path_slot(q, l)
            == f.path_slot(n, l) by {
            let k = f.path_slot(q, l);
            assert(f.entries@[k] == f.path_entry(q, l));
            assert(allowed.contains(k));
            assert(f.levels@[k / 512] == l);
        }
        // Going down: below a changed link of q's walk the slots are new.
        assert(o.entries@.len() == o.table_frames@.len() * 512);
        assert forall|l: int| 2 <= l <= 4 && #[trigger] Self::changed(o, f, f.path_slot(q, l)) implies Self::changed(
            o,
            f,
            f.path_slot(q, l - 1),
        ) by {
            let k = f.path_slot(q, l);
            assert(f.entries@[k].table >= o.table_frames@.len());
            let t = f.entries@[k].table as int;
            assert(f.path_slot(q, l - 1) == slot(t, table_index(q, l - 1)));
            assert(slot(t, table_index(q, l - 1)) >= o.table_frames@.len() * 512) by (nonlinear_arith)
                requires t >= o.table_frames@.len(), 0 <= table_index(q, l - 1);
        }
        // Going up: equal slots have equal parents.
        assert forall|l: int| 1 <= l <= 3 && #[trigger] f.path_slot(q, l) == f.path_slot(n, l) implies f.path_slot(q, l + 1)
            == f.path_slot(n, l + 1) by {
            let pq = f.path_slot(q, l + 1);
            let pn = f.path_slot(n, l + 1);
            assert(f.entries@[pq].table as int == f.path_slot(q, l) / 512);
            assert(f.entries@[pn].table as int == f.path_slot(n, l) / 512);
            assert(f.is_link(pq) && f.is_link(pn));
        }
        // The first changed slot on q's walk exists, else q was mapped in o.
        if !Self::changed(o, f, a4) {
            assert(o.path_slot(q, 3) == a3);
            if !Self::changed(o, f, a3) {
                assert(o.path_slot(q, 2) == a2);
                if !Self::changed(o, f, a2) {
                    assert(o.path_slot(q, 1) == a1);
                    if !Self::changed(o, f, a1) {
                        assert forall|l: int| 1 <= l <= 4 implies (#[trigger] o.path_entry(q, l)).flags.present by {
                            if l == 4 {} else if l == 3 {} else if l == 2 {} else {}
                        }
                        assert(false);
                    }
                }
            }
        }
        // Every slot of q's walk is n's.
        if Self::changed(o, f, a4) {
            assert(a4 == s4);
            assert(Self::changed(o, f, f.path_slot(q, 3)));
            assert(a3 == s3);
            assert(Self::changed(o, f, f.path_slot(q, 2)));
            assert(a2 == s2);
            assert(Self::changed(o, f, f.path_slot(q, 1)));
            assert(a1 == s1);
        } else if Self::changed(o, f, a3) {
            assert(a3 == s3);
            assert(a4 == s4);
            assert(Self::changed(o, f, f.path_slot(q, 2)));
            assert(a2 == s2);
            assert(Self::changed(o, f, f.path_slot(q, 1)));
            assert(a1 == s1);
        } else if Self::changed(o, f, a2) {
            assert(a2 == s2);
            assert(a3 == s3);
            assert(a4 == s4);
            assert(Self::changed(o, f, f.path_slot(q, 1)));
            assert(a1 == s1);
        } else {
            assert(a1 == s1);
            assert(a2 == s2);
            assert(a3 == s3);
            assert(a4 == s4);
        }
        lemma_indices_determine(n, q);
    }

    /// Two spaces whose entries agree on presence, links and addresses map
    /// the same pages to the same frames.
    proof fn lemma_same_mapping(&self, other: &Self, q: u64)
        requires
            self.wf(),
            self.entries@.len() == other.entries@.len(),
            forall|k: int|
                0 <= k < self.entries@.len() ==> {
                    &&& (#[trigger] self.entries@[k]).table == other.entries@[k].table
                    &&& self.entries@[k].addr == other.entries@[k].addr
                    &&& self.entries@[k].flags.present == other.entries@[k].flags.present
                },
        ensures
            self.is_mapped(q) == other.is_mapped(q),
            self.translation(q) == other.translation(q),
    {
        self.lemma_walk(q);
        self.lemma_same_links(other, q);
        assert forall|l: int| 1 <= l <= 4 implies {
            &&& (#[trigger] self.path_entry(q, l)).flags.present == other.path_entry(q, l).flags.present
            &&& self.path_entry(q, l).addr == other.path_entry(q, l).addr
        } by {
            let k = self.path_slot(q, l);
            assert(0 <= k < self.entries@.len());
            assert(self.entries@[k].flags.present == other.entries@[k].flags.present);
        }
        assert(self.is_mapped(q) == other.is_mapped(q)) by {
            if self.is_mapped(q) {
                assert forall|l: int| 1 <= l <= 4 implies (#[trigger] other.path_entry(q, l)).flags.present by {
                    assert(self.path_entry(q, l).flags.present);
                }
            }
            if other.is_mapped(q) {
                assert forall|l: int| 1 <= l <= 4 implies (#[trigger] self.path_entry(q, l)).flags.present by {
                    assert(other.path_entry(q, l).flags.present);
                }
            }
        }
    }

    /// Two spaces whose entries differ at most in their WRITABLE flags give
    /// every page the same translation and the same level-3 reachability.
    proof fn lemma_same_user_view(&self, other: &Self, q: u64)
        requires
            self.wf(),
            self.entries@.len() == other.entries@.len(),
            forall|k: int|
                0 <= k < self.entries@.len() ==> {
                    &&& (#[trigger] self.entries@[k]).table == other.entries@[k].table
                    &&& self.entries@[k].addr == other.entries@[k].addr
                    &&& self.entries@[k].flags.present == other.entries@[k].flags.present
                    &&& self.entries@[k].flags.user_accessible
                        == other.entries@[k].flags.user_accessible
                    &&& self.entries@[k].flags.no_execute == other.entries@[k].flags.no_execute
                },
        ensures
            self.is_mapped(q) == other.is_mapped(q),
            self.translation(q) == other.translation(q),
            self.user_can_read(q) == other.user_can_read(q),
            self.user_can_execute(q) == other.user_can_execute(q),
    {
        self.lemma_walk(q);
        self.lemma_same_links(other, q);
        assert forall|l: int| 1 <= l <= 4 implies {
            &&& (#[trigger] self.path_entry(q, l)).flags.present == other.path_entry(q, l).flags.present
            &&& self.path_entry(q, l).flags.user_accessible == other.path_entry(q, l).flags.user_accessible
            &&& self.path_entry(q, l).flags.no_execute == other.path_entry(q, l).flags.no_execute
            &&& self.path_entry(q, l).addr == other.path_entry(q, l).addr
        } by {
            let k = self.path_slot(q, l);
            assert(0 <= k < self.entries@.len());
            assert(self.entries@[k].flags.present == other.entries@[k].flags.present);
        }
        assert(self.is_mapped(q) == other.is_mapped(q)) by {
            if self.is_mapped(q) {
                assert forall|l: int| 1 <= l <= 4 implies (#[trigger] other.path_entry(q, l)).flags.present by {
                    assert(self.path_entry(q, l).flags.present);
                }
            }
            if other.is_mapped(q) {
                assert forall|l: int| 1 <= l <= 4 implies (#[trigger] self.path_entry(q, l)).flags.present by {
                    assert(other.path_entry(q, l).flags.present);
                }
            }
        }
        assert(self.user_can_read(q) == other.user_can_read(q)) by {
            if self.user_can_read(q) {
                assert forall|l: int| 1 <= l <= 4 implies (#[trigger] other.path_entry(q, l)).flags.user_accessible by {
                    assert(self.path_entry(q, l).flags.user_accessible);
                }
            }
            if other.user_can_read(q) {
                assert forall|l: int| 1 <= l <= 4 implies (#[trigger] self.path_entry(q, l)).flags.user_accessible by {
                    assert(other.path_entry(q, l).flags.user_accessible);
                }
            }
        }
        assert(self.user_can_execute(q) == other.user_can_execute(q)) by {
            if self.user_can_execute(q) {
                assert forall|l: int| 1 <= l <= 4 implies !(#[trigger] other.path_entry(q, l)).flags.no_execute by {
                    assert(!self.path_entry(q, l).flags.no_execute);
                }
            }
            if other.user_can_execute(q) {
                assert forall|l: int| 1 <= l <= 4 implies !(#[trigger] self.path_entry(q, l)).flags.no_execute by {
                    assert(!other.path_entry(q, l).flags.no_execute);
                }
            }
        }
        assert(self.path_entry(q, 1).addr == other.path_entry(q, 1).addr);
    }

    /// Adds WRITABLE at all four levels of a mapped page without touching
    /// USER_ACCESSIBLE; used for kernel-only stacks. Idempotent.
    #[verifier::rlimit(100)]
    #[verifier::spinoff_prover]
    pub fn ensure_writable(&mut self, page: Page) -> (r: Result<(), MapError>)
        requires
            old(self).wf(),
            page.wf(),
        ensures
            final(self).wf(),
            final(self).table_count() == old(self).table_count(),
            r is Err <==> !old(self).is_mapped(page.number),
            r is Err ==> r == Err::<(), MapError>(MapError::PageNotMapped) && final(self).entries_view()
                == old(self).entries_view(),
            r is Ok ==> final(self).entries_view() == old(self).entries_view().update(
                old(self).path_slot(page.number, 4),
                with_writable(old(self).path_entry(page.number, 4)),
            ).update(
                old(self).path_slot(page.number, 3),
                with_writable(old(self).path_entry(page.number, 3)),
            ).update(
                old(self).path_slot(page.number, 2),
                with_writable(old(self).path_entry(page.number, 2)),
            ).update(
                old(self).path_slot(page.number, 1),
                with_writable(old(self).path_entry(page.number, 1)),
            ),
            r is Ok ==> final(self).kernel_can_write(page.number),
            forall|q: u64| #[trigger] final(self).is_mapped(q) == old(self).is_mapped(q),
            forall|q: u64|
                q != page.number && q < PAGE_NUMBER_LIMIT && old(self).is_mapped(q) ==> #[trigger] final(self).path_entry(q, 1)
                    == old(self).path_entry(q, 1),
            forall|q: u64| #[trigger] final(self).translation(q) == old(self).translation(q),
            forall|q: u64| #[trigger] final(self).user_can_read(q) == old(self).user_can_read(q),
            forall|q: u64| #[trigger] final(self).user_can_execute(q) == old(self).user_can_execute(q),
    {
        let ghost n = page.number;
        match self.walk_slots(page) {
            None => Err(MapError::PageNotMapped),
            Some((s4, s3, s2, s1)) => {
                let ghost pre = *self;
                proof { self.lemma_walk(n); }
                let e = self.entries[s4];
                self.entries.set(s4, PageTableEntry { flags: PageTableFlags { writable: true, ..e.flags }, ..e });
                let e = self.entries[s3];
                self.entries.set(s3, PageTableEntry { flags: PageTableFlags { writable: true, ..e.flags }, ..e });
                let e = self.entries[s2];
                self.entries.set(s2, PageTableEntry { flags: PageTableFlags { writable: true, ..e.flags }, ..e });
                let e = self.entries[s1];
                self.entries.set(s1, PageTableEntry { flags: PageTableFlags { writable: true, ..e.flags }, ..e });
                proof {
                    pre.lemma_same_links(self, n);
                    assert(self.path_entry(n, 4) == with_writable(pre.path_entry(n, 4)));
                    assert(self.path_entry(n, 3) == with_writable(pre.path_entry(n, 3)));
                    assert(self.path_entry(n, 2) == with_writable(pre.path_entry(n, 2)));
                    assert(self.path_entry(n, 1) == with_writable(pre.path_entry(n, 1)));
                    assert(self.wf());
                    assert forall|q: u64|
                        {
                            &&& #[trigger] self.translation(q) == pre.translation(q)
                            &&& self.is_mapped(q) == pre.is_mapped(q)
                            &&& self.user_can_read(q) == pre.user_can_read(q)
                            &&& self.user_can_execute(q) == pre.user_can_execute(q)
                        } by {
                        pre.lemma_same_user_view(self, q);
                    }
                    assert forall|q: u64| #[trigger] self.is_mapped(q) == pre.is_mapped(q) by {
                        pre.lemma_same_user_view(self, q);
                    }
                    assert forall|q: u64| #[trigger] self.user_can_read(q) == pre.user_can_read(q) by {
                        pre.lemma_same_user_view(self, q);
                    }
                    assert forall|q: u64| #[trigger] self.user_can_execute(q) == pre.user_can_execute(q) by {
                        pre.lemma_same_user_view(self, q);
                    }
                    assert forall|q: u64|
                        q != page.number && q < PAGE_NUMBER_LIMIT && pre.is_mapped(q) implies #[trigger] self.path_entry(q, 1)
                            == pre.path_entry(q, 1) by {
                        pre.lemma_walk(q);
                        assert(pre.path_entry(q, 4).flags.present && pre.path_entry(q, 3).flags.present
                            && pre.path_entry(q, 2).flags.present);
                        let k = pre.path_slot(q, 1);
                        if k == s1 as int {
                            pre.lemma_distinct_leaves(n, q);
                        }
                        assert(k != s4 && k != s3 && k != s2);
                        pre.lemma_same_links(self, q);
                        assert(self.path_slot(q, 1) == k);
                    }
                }
                Ok(())
            },
        }
    }

    /// Maps `page` to `frame` with the given leaf flags, creating the missing
    /// intermediate tables from fresh frames of `frames`. Pages that were
    /// mapped keep their translation, leaf and rights, and no other page
    /// becomes mapped.
    pub fn map(&mut self, page: Page, frame: u64, flags: PageTableFlags, frames: &mut BootInfoFrameAllocator) -> (r: Result<(), MapError>)
        requires
            old(self).wf(),
            old(frames).wf(),
            page.wf(),
        ensures
            final(self).wf(),
            final(frames).wf(),
            final(frames).regions_view() == old(frames).regions_view(),
            keeps_present(old(self).entries_view(), final(self).entries_view()),
            r == Err::<(), MapError>(MapError::PageAlreadyMapped) <==> old(self).is_mapped(page.number),
            r == Err::<(), MapError>(MapError::TableLimitReached) ==> old(self).table_count() + 3 > MAX_TABLES
                && !old(self).intermediates_present(page.number),
            r == Err::<(), MapError>(MapError::FrameAllocationFailed) ==> crate::frame::probe_exhausted(
                final(frames).regions_view(),
                final(frames).next(),
            ) && !old(self).intermediates_present(page.number),
            fresh_tables(&*old(self), &*final(self), &*old(frames), &*final(frames)),
            r is Err ==> r == Err::<(), MapError>(MapError::FrameAllocationFailed) || r == Err::<(), MapError>(
                MapError::TableLimitReached,
            ) || r == Err::<(), MapError>(MapError::PageAlreadyMapped),
            r is Ok ==> {
                &&& final(self).translation(page.number) == Some(frame)
                &&& final(self).path_entry(page.number, 1).flags == (PageTableFlags { present: true, ..flags })
            },
            r is Err && r != Err::<(), MapError>(MapError::PageAlreadyMapped) ==> !final(self).is_mapped(page.number),
            r is Ok ==> forall|q: u64|
                q != page.number && q < PAGE_NUMBER_LIMIT ==> #[trigger] final(self).is_mapped(q) == old(self).is_mapped(q),
            forall|q: u64| #[trigger] old(self).is_mapped(q) ==> {
                &&& final(self).translation(q) == old(self).translation(q)
                &&& final(self).user_can_read(q) == old(self).user_can_read(q)
                &&& final(self).user_can_write(q) == old(self).user_can_write(q)
                &&& final(self).user_can_execute(q) == old(self).user_can_execute(q)
                &&& final(self).kernel_can_write(q) == old(self).kernel_can_write(q)
                &&& final(self).path_entry(q, 1) == old(self).path_entry(q, 1)
            },
    {
        let ghost n = page.number;
        let ghost pre = *self;
        proof {
            pre.lemma_walk(n);
            lemma_slot_bounds(0, table_index(n, 4), self.table_frames@.len() as int);
        }
        let r = self.map_walk(page, frame, flags, frames);
        proof {
            assert forall|q: u64| #[trigger] pre.is_mapped(q) implies {
                &&& self.translation(q) == pre.translation(q)
                &&& self.user_can_read(q) == pre.user_can_read(q)
                &&& self.user_can_write(q) == pre.user_can_write(q)
                &&& self.user_can_execute(q) == pre.user_can_execute(q)
                &&& self.kernel_can_write(q) == pre.kernel_can_write(q)
                &&& self.path_entry(q, 1) == pre.path_entry(q, 1)
            } by {
                pre.lemma_keeps_mapped(self, q);
            }
            if r is Ok {
                assert forall|q: u64| q != page.number && q < PAGE_NUMBER_LIMIT implies #[trigger] self.is_mapped(q)
                    == pre.is_mapped(q) by {
                    if pre.is_mapped(q) {
                        pre.lemma_keeps_mapped(self, q);
                    } else if self.is_mapped(q) {
                        Self::lemma_only_target_newly_mapped(&pre, self, n, q);
                    }
                }
            }
        }
        r
    }

    #[verifier::rlimit(100)]
    #[verifier::spinoff_prover]
    fn map_walk(&mut self, page: Page, frame: u64, flags: PageTableFlags, frames: &mut BootInfoFrameAllocator) -> (r: Result<(), MapError>)
        requires
            old(self).wf(),
            old(frames).wf(),
            page.wf(),
        ensures
            final(self).wf(),
            final(frames).wf(),
            final(frames).regions_view() == old(frames).regions_view(),
            keeps_present(old(self).entries_view(), final(self).entries_view()),
            r == Err::<(), MapError>(MapError::PageAlreadyMapped) <==> old(self).is_mapped(page.number),
            r == Err::<(), MapError>(MapError::TableLimitReached) ==> old(self).table_count() + 3 > MAX_TABLES
                && !old(self).intermediates_present(page.number),
            r == Err::<(), MapError>(MapError::FrameAllocationFailed) ==> crate::frame::probe_exhausted(
                final(frames).regions_view(),
                final(frames).next(),
            ) && !old(self).intermediates_present(page.number),
            fresh_tables(&*old(self), &*final(self), &*old(frames), &*final(frames)),
            r is Err ==> r == Err::<(), MapError>(MapError::FrameAllocationFailed) || r == Err::<(), MapError>(
                MapError::TableLimitReached,
            ) || r == Err::<(), MapError>(MapError::PageAlreadyMapped),
            r is Ok ==> {
                &&& final(self).translation(page.number) == Some(frame)
                &&& final(self).path_entry(page.number, 1).flags == (PageTableFlags { present: true, ..flags })
            },
            r is Err && r != Err::<(), MapError>(MapError::PageAlreadyMapped) ==> !final(self).is_mapped(page.number),
            r is Ok ==> extends(
                &*old(self),
                &*final(self),
                set![
                    final(self).path_slot(page.number, 4),
                    final(self).path_slot(page.number, 3),
                    final(self).path_slot(page.number, 2),
                    final(self).path_slot(page.number, 1),
                ],
            ),
    {
        let ghost n = page.number;
        let ghost pre = *self;
        let ghost pf0 = *frames;
        proof {
            pre.lemma_walk(n);
            lemma_slot_bounds(0, table_index(n, 4), self.table_frames@.len() as int);
        }
        let s4 = page.index(4);
        let t3 = match self.child_table(s4, frames) {
            Ok(t) => t,
            Err(e) => {
                proof {
                    assert(!self.path_entry(n, 4).flags.present);
                    assert(!pre.intermediates_present(n));
                }
                return Err(e);
            },
        };
        let ghost st3 = *self;
        let ghost pf3 = *frames;
        let ghost fresh3 = !pre.entries@[s4 as int].flags.present;
        proof { lemma_slot_bounds(t3 as int, table_index(n, 3), self.table_frames@.len() as int); }
        let s3 = t3 * 512 + page.index(3);
        proof {
            assert(self.path_slot(n, 4) == s4);
            assert(self.path_slot(n, 3) == s3);
            if !fresh3 {
                assert(s3 == pre.path_slot(n, 3));
            } else {
                assert(is_empty_entry(self.entries@[s3 as int]));
            }
        }
        let t2 = match self.child_table(s3, frames) {
            Ok(t) => t,
            Err(e) => {
                proof {
                    assert(self.entries@ == st3.entries@);
                    assert(self.path_slot(n, 4) == s4);
                    assert(self.path_slot(n, 3) == s3);
                    assert(!self.path_entry(n, 3).flags.present);
                    lemma_fresh_trans(&pre, &st3, self, &pf0, &pf3, frames);
                    if !fresh3 {
                        assert(pre.entries@ == st3.entries@);
                        assert(pre.path_slot(n, 3) == s3);
                    }
                    assert(!pre.intermediates_present(n));
                }
                return Err(e);
            },
        };
        let ghost st2 = *self;
        let ghost pf2 = *frames;
        let ghost fresh2 = !st3.entries@[s3 as int].flags.present;
        proof { lemma_slot_bounds(t2 as int, table_index(n, 2), self.table_frames@.len() as int); }
        let s2 = t2 * 512 + page.index(2);
        proof {
            assert(s4 != s3);
            assert(self.path_slot(n, 4) == s4);
            assert(self.path_slot(n, 3) == s3);
            assert(self.path_slot(n, 2) == s2);
            if !fresh2 {
                assert(!fresh3);
                assert(s2 == pre.path_slot(n, 2));
            } else {
                assert(is_empty_entry(self.entries@[s2 as int]));
            }
        }
        let t1 = match self.child_table(s2, frames) {
            Ok(t) => t,
            Err(e) => {
                proof {
                    assert(self.entries@ == st2.entries@);
                    assert(self.path_slot(n, 4) == s4);
                    assert(self.path_slot(n, 3) == s3);
                    assert(self.path_slot(n, 2) == s2);
                    assert(!self.path_entry(n, 2).flags.present);
                    lemma_fresh_trans(&pre, &st3, &st2, &pf0, &pf3, &pf2);
                    lemma_fresh_trans(&pre, &st2, self, &pf0, &pf2, frames);
                    if !fresh2 {
                        assert(!fresh3);
                        assert(pre.entries@ == st3.entries@);
                        assert(st3.entries@ == st2.entries@);
                        assert(pre.path_slot(n, 2) == s2);
                        assert(pre.path_slot(n, 3) == s3);
                    } else if !fresh3 {
                        assert(pre.entries@ == st3.entries@);
                        assert(pre.path_slot(n, 3) == s3);
                    }
                    assert(!pre.intermediates_present(n));
                }
                return Err(e);
            },
        };
        let ghost pf1 = *frames;
        proof {
            lemma_fresh_trans(&pre, &st3, &st2, &pf0, &pf3, &pf2);
            lemma_fresh_trans(&pre, &st2, self, &pf0, &pf2, &pf1);
        }
        let ghost fresh1 = !st2.entries@[s2 as int].flags.present;
        proof { lemma_slot_bounds(t1 as int, table_index(n, 1), self.table_frames@.len() as int); }
        let s1 = t1 * 512 + page.index(1);
        proof {
            assert(s4 != s2 && s3 != s2);
            assert(self.path_slot(n, 4) == s4);
            assert(self.path_slot(n, 3) == s3);
            assert(self.path_slot(n, 2) == s2);
            assert(self.path_slot(n, 1) == s1);
            if !fresh1 {
                assert(!fresh2);
                assert(!fresh3);
                assert(s1 == pre.path_slot(n, 1));
                assert(self.entries@[s1 as int] == pre.entries@[s1 as int]);
            } else {
                assert(is_empty_entry(self.entries@[s1 as int]));
            }
        }
        if self.entries[s1].flags.present {
            proof {
                assert(!fresh1 && !fresh2 && !fresh3);
                assert(pre.path_entry(n, 4).flags.present);
                assert(pre.path_entry(n, 3).flags.present);
                assert(pre.path_entry(n, 2).flags.present);
                assert(pre.path_entry(n, 1).flags.present);
                assert(pre.is_mapped(n));
            }
            return Err(MapError::PageAlreadyMapped);
        }
        let ghost mid = *self;
        self.entries.set(s1, PageTableEntry { flags: PageTableFlags { present: true, ..flags }, addr: frame, table: 0 });
        proof {
            assert(!pre.is_mapped(n)) by {
                if pre.is_mapped(n) {
                    assert(pre.path_entry(n, 4).flags.present);
                    assert(!fresh3);
                    assert(pre.path_entry(n, 3).flags.present);
                    assert(!fresh2);
                    assert(pre.path_entry(n, 2).flags.present);
                    assert(!fresh1);
                    assert(pre.path_entry(n, 1).flags.present);
                }
            }
            mid.lemma_walk(n);
            assert(s1 != s4 && s1 != s3 && s1 != s2);
            assert(self.path_slot(n, 4) == s4);
            assert(self.path_slot(n, 3) == s3);
            assert(self.path_slot(n, 2) == s2);
            assert(self.path_slot(n, 1) == s1);
            assert(self.path_entry(n, 4).flags.present);
            assert(self.path_entry(n, 3).flags.present);
            assert(self.path_entry(n, 2).flags.present);
            assert(self.path_entry(n, 1).flags.present);
            assert(self.is_mapped(n));
            assert(extends(&mid, &*self, set![s1 as int])) by {
                assert forall|k: int|
                    0 <= k < self.entries@.len() && (k >= mid.entries@.len() || self.entries@[k] != mid.entries@[k])
                        && (#[trigger] self.entries@[k]).flags.present && self.levels@[k / 512] > 1 implies self.entries@[k].table
                        >= mid.table_frames@.len() by {
                    assert(k == s1);
                }
            }
            lemma_extends_trans(&pre, &st3, &st2, set![s4 as int], set![s3 as int]);
            lemma_extends_trans(&pre, &st2, &mid, set![s4 as int].union(set![s3 as int]), set![s2 as int]);
            lemma_extends_trans(&pre, &mid, &*self, set![s4 as int].union(set![s3 as int]).union(set![s2 as int]), set![s1 as int]);
            assert(set![s4 as int].union(set![s3 as int]).union(set![s2 as int]).union(set![s1 as int]) =~= set![
                self.path_slot(n, 4),
                self.path_slot(n, 3),
                self.path_slot(n, 2),
                self.path_slot(n, 1),
            ]);
            assert(self.wf()) by {
                assert forall|k: int| 0 <= k < self.entries@.len() implies {
                    let e = #[trigger] self.entries@[k];
                    &&& e.table < self.table_frames@.len()
                    &&& e.flags.present && self.levels@[k / 512] > 1 ==> {
                        &&& self.levels@[e.table as int] == self.levels@[k / 512] - 1
                        &&& e.flags.writable
                        &&& !e.flags.no_execute
                    }
                } by {
                    if k != s1 {
                        assert(self.entries@[k] == mid.entries@[k]);
                    }
                }
            }
        }
        proof {
            assert(self.table_frames@ == mid.table_frames@);
            assert(fresh_tables(&pre, self, &pf0, frames));
        }
        Ok(())
    }

    /// Maps every page of the address range `[start, end)` to the frame of the
    /// same address (for device memory), with caching disabled; pages that
    /// are already mapped are left as they are. On success every page of the
    /// range is mapped, each one that was not mapped before to the frame of
    /// its own address, and no other page changes.
    pub fn identity_map(&mut self, start: u64, end: u64, flags: PageTableFlags, frames: &mut BootInfoFrameAllocator) -> (r: Result<(), MapError>)
        requires
            old(self).wf(),
            old(frames).wf(),
            start < end <= ADDRESS_LIMIT,
        ensures
            final(self).wf(),
            final(frames).wf(),
            final(frames).regions_view() == old(frames).regions_view(),
            r is Err ==> r == Err::<(), MapError>(MapError::FrameAllocationFailed) || r == Err::<(), MapError>(
                MapError::TableLimitReached,
            ),
            r == Err::<(), MapError>(MapError::TableLimitReached) ==> final(self).table_count() + 3 > MAX_TABLES,
            r == Err::<(), MapError>(MapError::FrameAllocationFailed) ==> crate::frame::probe_exhausted(
                final(frames).regions_view(),
                final(frames).next(),
            ),
            fresh_tables(&*old(self), &*final(self), &*old(frames), &*final(frames)),
            r is Ok ==> forall|p: u64|
                start / FRAME_SIZE <= p <= (end - 1) as u64 / FRAME_SIZE ==> {
                    &&& #[trigger] final(self).is_mapped(p)
                    &&& !old(self).is_mapped(p) ==> final(self).translation(p) == Some((p * FRAME_SIZE) as u64)
                        && final(self).path_entry(p, 1).flags == (PageTableFlags { present: true, no_cache: true, ..flags })
                },
            r is Ok ==> forall|p: u64|
                !(start / FRAME_SIZE <= p <= (end - 1) as u64 / FRAME_SIZE) && p < PAGE_NUMBER_LIMIT
                    ==> #[trigger] final(self).is_mapped(p) == old(self).is_mapped(p),
            forall|q: u64| #[trigger] old(self).is_mapped(q) ==> {
                &&& final(self).translation(q) == old(self).translation(q)
                &&& final(self).user_can_read(q) == old(self).user_can_read(q)
                &&& final(self).user_can_write(q) == old(self).user_can_write(q)
                &&& final(self).user_can_execute(q) == old(self).user_can_execute(q)
                &&& final(self).kernel_can_write(q) == old(self).kernel_can_write(q)
            },
    {
        let ghost pre = *self;
        let ghost pf0 = *frames;
        let leaf = PageTableFlags { present: true, no_cache: true, ..flags };
        let first = start / FRAME_SIZE;
        let last = (end - 1) / FRAME_SIZE;
        let mut p = first;
        assert(self.table_frames@.subrange(0, self.table_frames@.len() as int) =~= self.table_frames@);
        assert(frames.issued_frames().subset_of(frames.issued_frames()));
        while p <= last
            invariant
                self.wf(),
                frames.wf(),
                frames.regions_view() == old(frames).regions_view(),
                pre == *old(self),
                first <= p <= last + 1,
                last < PAGE_NUMBER_LIMIT,
                leaf == (PageTableFlags { present: true, no_cache: true, ..flags }),
                forall|x: u64|
                    first <= x < p ==> #[trigger] self.is_mapped(x) && (!pre.is_mapped(x) ==> self.translation(x)
                        == Some((x * FRAME_SIZE) as u64) && self.path_entry(x, 1).flags == leaf),
                fresh_tables(&pre, self, &pf0, frames),
                pf0 == *old(frames),
                forall|x: u64| !(first <= x < p) && x < PAGE_NUMBER_LIMIT ==> #[trigger] self.is_mapped(x) == pre.is_mapped(x),
                first == start / FRAME_SIZE,
                last == (end - 1) as u64 / FRAME_SIZE,
                forall|q: u64| #[trigger] pre.is_mapped(q) ==> {
                    &&& self.is_mapped(q)
                    &&& self.translation(q) == pre.translation(q)
                    &&& self.user_can_read(q) == pre.user_can_read(q)
                    &&& self.user_can_write(q) == pre.user_can_write(q)
                    &&& self.user_can_execute(q) == pre.user_can_execute(q)
                    &&& self.kernel_can_write(q) == pre.kernel_can_write(q)
                },
            decreases last + 1 - p,
        {
            let page = Page { number: p };
            let ghost before = *self;
            let ghost bf = *frames;
            if self.translate(page).is_none() {
                match self.map(page, p * FRAME_SIZE, leaf, frames) {
                    Ok(()) => {},
                    Err(e) => {
                        proof {
                            lemma_fresh_trans(&pre, &before, self, &pf0, &bf, frames);
                        }
                        return Err(e);
                    },
                }
                proof {
                    lemma_fresh_trans(&pre, &before, self, &pf0, &bf, frames);
                    assert forall|x: u64| first <= x < p + 1 implies #[trigger] self.is_mapped(x) && (!pre.is_mapped(x)
                        ==> self.translation(x) == Some((x * FRAME_SIZE) as u64) && self.path_entry(x, 1).flags == leaf) by {
                        if x < p {
                            assert(before.is_mapped(x));
                            before.lemma_keeps_mapped(self, x);
                        }
                    }
                    assert forall|x: u64| !(first <= x < p + 1) && x < PAGE_NUMBER_LIMIT implies #[trigger] self.is_mapped(x)
                        == pre.is_mapped(x) by {
                        assert(before.is_mapped(x) == pre.is_mapped(x));
                    }
                    assert forall|q: u64| #[trigger] pre.is_mapped(q) implies {
                        &&& self.is_mapped(q)
                        &&& self.translation(q) == pre.translation(q)
                        &&& self.user_can_read(q) == pre.user_can_read(q)
                        &&& self.user_can_write(q) == pre.user_can_write(q)
                        &&& self.user_can_execute(q) == pre.user_can_execute(q)
                        &&& self.kernel_can_write(q) == pre.kernel_can_write(q)
                    } by {
                        assert(before.is_mapped(q));
                        before.lemma_keeps_mapped(self, q);
                    }
                }
            }
            p = p + 1;
        }
        Ok(())
    }

    /// What each kind of access to the page would do; `None` when the page
    /// is not mapped.
    pub fn access_rights(&self, page: Page) -> (r: Option<AccessRights>)
        requires
            self.wf(),
            page.wf(),
        ensures
            r is None <==> !self.is_mapped(page.number),
            r matches Some(a) ==> {
                &&& a.user_read == self.user_can_read(page.number)
                &&& a.user_write == self.user_can_write(page.number)
                &&& a.user_execute == self.user_can_execute(page.number)
                &&& a.kernel_write == self.kernel_can_write(page.number)
            },
    {
        let ghost n = page.number;
        match self.walk_slots(page) {
            None => None,
            Some((s4, s3, s2, s1)) => {
                let e4 = self.entries[s4].flags;
                let e3 = self.entries[s3].flags;
                let e2 = self.entries[s2].flags;
                let e1 = self.entries[s1].flags;
                let user = e4.user_accessible && e3.user_accessible && e2.user_accessible && e1.user_accessible;
                let write = e4.writable && e3.writable && e2.writable && e1.writable;
                let exec = !e4.no_execute && !e3.no_execute && !e2.no_execute && !e1.no_execute;
                proof {
                    assert(self.path_entry(n, 4).flags == e4);
                    assert(self.path_entry(n, 3).flags == e3);
                    assert(self.path_entry(n, 2).flags == e2);
                    assert(self.path_entry(n, 1).flags == e1);
                    assert(user == forall|l: int| 1 <= l <= 4 ==> (#[trigger] self.path_entry(n, l)).flags.user_accessible) by {
                        if user {
                            assert forall|l: int| 1 <= l <= 4 implies (#[trigger] self.path_entry(n, l)).flags.user_accessible by {
                                if l == 4 {} else if l == 3 {} else if l == 2 {} else {}
                            }
                        }
                    }
                    assert(write == forall|l: int| 1 <= l <= 4 ==> (#[trigger] self.path_entry(n, l)).flags.writable) by {
                        if write {
                            assert forall|l: int| 1 <= l <= 4 implies (#[trigger] self.path_entry(n, l)).flags.writable by {
                                if l == 4 {} else if l == 3 {} else if l == 2 {} else {}
                            }
                        }
                    }
                    assert(exec == forall|l: int| 1 <= l <= 4 ==> !(#[trigger] self.path_entry(n, l)).flags.no_execute) by {
                        if exec {
                            assert forall|l: int| 1 <= l <= 4 implies !(#[trigger] self.path_entry(n, l)).flags.no_execute by {
                                if l == 4 {} else if l == 3 {} else if l == 2 {} else {}
                            }
                        }
                    }
                }
                Some(AccessRights {
                    user_read: user,
                    user_write: user && write,
                    user_execute: user && exec,
                    kernel_write: write,
                })
            },
        }
    }

    /// A mapped page whose leaf is writable can be written from privilege
    /// level 0: every intermediate entry is writable.
    pub proof fn lemma_writable_leaf(&self, n: u64)
        requires
            self.wf(),
            self.is_mapped(n),
            self.path_entry(n, 1).flags.writable,
        ensures
            self.kernel_can_write(n),
    {
        self.lemma_walk(n);
        assert(self.path_entry(n, 4).flags.present);
        assert(self.path_entry(n, 3).flags.present);
        assert(self.path_entry(n, 2).flags.present);
        lemma_slot_bounds(0, table_index(n, 4), self.table_frames@.len() as int);
        assert(self.path_entry(n, 4).flags.writable);
        assert(self.path_entry(n, 3).flags.writable);
        assert(self.path_entry(n, 2).flags.writable);
        assert forall|l: int| 1 <= l <= 4 implies (#[trigger] self.path_entry(n, l)).flags.writable by {
            if l == 4 {} else if l == 3 {} else if l == 2 {} else {}
        }
    }

    /// Whether a read of the page from privilege level 3 succeeds.
    pub fn is_user_readable(&self, page: Page) -> (r: bool)
        requires
            self.wf(),
            page.wf(),
        ensures
            r == self.user_can_read(page.number),
    {
        let ghost n = page.number;
        match self.walk_slots(page) {
            None => false,
            Some((s4, s3, s2, s1)) => {
                let r = self.entries[s4].flags.user_accessible && self.entries[s3].flags.user_accessible
                    && self.entries[s2].flags.user_accessible && self.entries[s1].flags.user_accessible;
                proof {
                    if r {
                        assert forall|l: int| 1 <= l <= 4 implies (#[trigger] self.path_entry(n, l)).flags.user_accessible by {
                            if l == 4 {} else if l == 3 {} else if l == 2 {} else {}
                        }
                    } else {
                        if !self.entries@[s4 as int].flags.user_accessible { assert(!self.path_entry(n, 4).flags.user_accessible); }
                        else if !self.entries@[s3 as int].flags.user_accessible { assert(!self.path_entry(n, 3).flags.user_accessible); }
                        else if !self.entries@[s2 as int].flags.user_accessible { assert(!self.path_entry(n, 2).flags.user_accessible); }
                        else { assert(!self.path_entry(n, 1).flags.user_accessible); }
                    }
                }
                r
            },
        }
    }

    /// Physical frame the page is mapped to.
    pub fn translate(&self, page: Page) -> (r: Option<u64>)
        requires
            self.wf(),
            page.wf(),
        ensures
            r == self.translation(page.number),
    {
        match self.walk_slots(page) {
            Some((_, _, _, s1)) => Some(self.entries[s1].addr),
            None => None,
        }
    }

    /// In a well-formed space the rights of a mapped page are decided by its
    /// leaf and by user access along the walk: intermediate entries are
    /// always writable and executable.
    pub proof fn lemma_rights_by_leaf(&self, q: u64)
        requires
            self.wf(),
            self.is_mapped(q),
        ensures
            self.kernel_can_write(q) == self.path_entry(q, 1).flags.writable,
            self.user_can_write(q) == (self.user_can_read(q) && self.path_entry(q, 1).flags.writable),
            self.user_can_execute(q) == (self.user_can_read(q) && !self.path_entry(q, 1).flags.no_execute),
    {
        self.lemma_walk(q);
        assert(self.path_entry(q, 4).flags.present && self.path_entry(q, 3).flags.present && self.path_entry(q, 2).flags.present);
        lemma_slot_bounds(0, table_index(q, 4), self.table_frames@.len() as int);
        assert(self.path_entry(q, 4).flags.writable && !self.path_entry(q, 4).flags.no_execute);
        assert(self.path_entry(q, 3).flags.writable && !self.path_entry(q, 3).flags.no_execute);
        assert(self.path_entry(q, 2).flags.writable && !self.path_entry(q, 2).flags.no_execute);
        if self.path_entry(q, 1).flags.writable {
            assert forall|l: int| 1 <= l <= 4 implies (#[trigger] self.path_entry(q, l)).flags.writable by {
                if l == 4 {} else if l == 3 {} else if l == 2 {} else {}
            }
        }
        if !self.path_entry(q, 1).flags.no_execute {
            assert forall|l: int| 1 <= l <= 4 implies !(#[trigger] self.path_entry(q, l)).flags.no_execute by {
                if l == 4 {} else if l == 3 {} else if l == 2 {} else {}
            }
        }
    }

    /// The walk of any page only visits slots of the arena.
    pub proof fn lemma_walk_in_arena(&self, n: u64)
        requires
            self.wf(),
        ensures
            forall|l: int| 1 <= l <= 4 ==> 0 <= #[trigger] self.path_slot(n, l) < self.entries_view().len(),
    {
        self.lemma_walk(n);
    }

    /// Arena slot of the level-`level` entry on page `n`'s walk.
    pub open spec fn path_slot(&self, n: u64, level: int) -> int
        decreases 4 - level,
    {
        if level >= 4 {
            slot(0, table_index(n, 4))
        } else {
            slot(
                self.entries_view()[self.path_slot(n, level + 1)].table as int,
                table_index(n, level),
            )
        }
    }

    pub open spec fn path_entry(&self, n: u64, level: int) -> PageTableEntry {
        self.entries_view()[self.path_slot(n, level)]
    }

    /// The three tables above the page's leaf exist.
    pub open spec fn intermediates_present(&self, n: u64) -> bool {
        self.path_entry(n, 4).flags.present && self.path_entry(n, 3).flags.present && self.path_entry(n, 2).flags.present
    }

    /// All four entries of the walk are present.
    pub open spec fn is_mapped(&self, n: u64) -> bool {
        forall|l: int| 1 <= l <= 4 ==> (#[trigger] self.path_entry(n, l)).flags.present
    }

    pub open spec fn translation(&self, n: u64) -> Option<u64> {
        if self.is_mapped(n) {
            Some(self.path_entry(n, 1).addr)
        } else {
            None
        }
    }

    /// A read from privilege level 3 succeeds: every level is present and
    /// user accessible.
    pub open spec fn user_can_read(&self, n: u64) -> bool {
        self.is_mapped(n) && forall|l: int|
            1 <= l <= 4 ==> (#[trigger] self.path_entry(n, l)).flags.user_accessible
    }

    /// A write from privilege level 3 succeeds.
    pub open spec fn user_can_write(&self, n: u64) -> bool {
        self.user_can_read(n) && forall|l: int|
            1 <= l <= 4 ==> (#[trigger] self.path_entry(n, l)).flags.writable
    }

    /// An instruction fetch from privilege level 3 succeeds.
    pub open spec fn user_can_execute(&self, n: u64) -> bool {
        self.user_can_read(n) && forall|l: int|
            1 <= l <= 4 ==> !(#[trigger] self.path_entry(n, l)).flags.no_execute
    }

    /// A write from privilege level 0 succeeds (write protection enforced).
    pub open spec fn kernel_can_write(&self, n: u64) -> bool {
        self.is_mapped(n) && forall|l: int|
            1 <= l <= 4 ==> (#[trigger] self.path_entry(n, l)).flags.writable
    }
}

} // verus!
