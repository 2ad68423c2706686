//! Segment descriptors and the task state: kernel and user code/data
//! segments, the task-state descriptor pair, and the dedicated stacks.
use vstd::prelude::*;

verus! {

/// Selector of the kernel code segment (index 1, privilege 0).
pub const KERNEL_CODE_SELECTOR: u16 = 0x08;

/// Selector of the kernel data segment (index 2, privilege 0).
pub const KERNEL_DATA_SELECTOR: u16 = 0x10;

/// Selector of the user code segment (index 3, requested privilege 3).
pub const USER_CODE_SELECTOR: u16 = 0x1B;

/// Selector of the user data segment (index 4, requested privilege 3).
pub const USER_DATA_SELECTOR: u16 = 0x23;

/// Selector of the task-state descriptor (indices 5 and 6).
pub const TSS_SELECTOR: u16 = 0x28;

/// Present, privilege 0, long-mode code.
pub const KERNEL_CODE_DESCRIPTOR: u64 = 0x0020_9a00_0000_0000;

/// Present, privilege 0, read/write data.
pub const KERNEL_DATA_DESCRIPTOR: u64 = 0x0000_9200_0000_0000;

/// Present, privilege 3, long-mode code.
pub const USER_CODE_DESCRIPTOR: u64 = 0x0020_fa00_0000_0000;

/// Present, privilege 3, read/write data.
pub const USER_DATA_DESCRIPTOR: u64 = 0x0000_f200_0000_0000;

/// Number of descriptor slots, the task-state pair included.
pub const GDT_ENTRIES: usize = 7;

/// Number of interrupt-stack-table slots in the task state.
pub const IST_SLOTS: usize = 7;

/// Size of each dedicated kernel stack (16 KiB).
pub const STACK_SIZE: u64 = 0x4000;

/// Byte size of the task-state segment minus one, as its descriptor holds it.
pub const TSS_LIMIT: u64 = 103;

/// Descriptor privilege level: bits 45 and 46.
pub open spec fn descriptor_dpl(d: u64) -> u64 {
    (d >> 45u64) & 3u64
}

/// Base address spread over a task-state descriptor pair.
pub open spec fn tss_base_of(low: u64, high: u64) -> u64 {
    ((low >> 16u64) & 0xFF_FFFFu64) | (((low >> 56u64) & 0xFFu64) << 24u64) | ((high & 0xFFFF_FFFFu64) << 32u64)
}

/// Segment limit spread over the low descriptor.
pub open spec fn tss_limit_of(low: u64) -> u64 {
    (low & 0xFFFFu64) | (((low >> 48u64) & 0xFu64) << 16u64)
}

/// Type and access byte of the low descriptor.
pub open spec fn access_byte(low: u64) -> u64 {
    (low >> 40u64) & 0xFFu64
}

/// Encodes the two descriptor slots of a 64-bit available task-state segment
/// at `base` with limit `limit`, present, privilege 0.
pub fn tss_descriptor(base: u64, limit: u64) -> (r: (u64, u64))
    requires
        limit < 0x10_0000,
    ensures
        tss_base_of(r.0, r.1) == base,
        tss_limit_of(r.0) == limit,
        access_byte(r.0) == 0x89,
        descriptor_dpl(r.0) == 0,
        r.1 >> 32u64 == 0,
{
    let mut low: u64 = 0;
    low = low | (limit & 0xFFFF);
    low = low | ((limit & 0xF_0000) << 32u64);
    low = low | ((base & 0xFF_FFFF) << 16u64);
    low = low | ((base & 0xFF00_0000) << 32u64);
    low = low | (0x89u64 << 40u64);
    let high = (base >> 32u64) & 0xFFFF_FFFF;
    assert(tss_base_of(low, high) == base) by (bit_vector)
        requires
            low == (0u64 | (limit & 0xFFFFu64) | ((limit & 0xF_0000u64) << 32u64) | ((base & 0xFF_FFFFu64) << 16u64)
                | ((base & 0xFF00_0000u64) << 32u64) | (0x89u64 << 40u64)),
            high == (base >> 32u64) & 0xFFFF_FFFFu64,
            limit < 0x10_0000u64,
    ;
    assert(tss_limit_of(low) == limit && access_byte(low) == 0x89 && descriptor_dpl(low) == 0) by (bit_vector)
        requires
            low == (0u64 | (limit & 0xFFFFu64) | ((limit & 0xF_0000u64) << 32u64) | ((base & 0xFF_FFFFu64) << 16u64)
                | ((base & 0xFF00_0000u64) << 32u64) | (0x89u64 << 40u64)),
            limit < 0x10_0000u64,
    ;
    assert(high >> 32u64 == 0) by (bit_vector)
        requires
            high == (base >> 32u64) & 0xFFFF_FFFFu64,
    ;
    (low, high)
}

/// Null, kernel code, kernel data, user code, user data, and the
/// task-state pair for a task state at `tss_base`.
pub fn build_gdt(tss_base: u64) -> (r: Vec<u64>)
    ensures
        r@.len() == GDT_ENTRIES,
        r@[0] == 0,
        r@[1] == KERNEL_CODE_DESCRIPTOR,
        r@[2] == KERNEL_DATA_DESCRIPTOR,
        r@[3] == USER_CODE_DESCRIPTOR,
        r@[4] == USER_DATA_DESCRIPTOR,
        tss_base_of(r@[5], r@[6]) == tss_base,
        tss_limit_of(r@[5]) == TSS_LIMIT,
        access_byte(r@[5]) == 0x89,
        descriptor_dpl(r@[1]) == 0 && descriptor_dpl(r@[2]) == 0,
        descriptor_dpl(r@[3]) == 3 && descriptor_dpl(r@[4]) == 3,
{
    let (low, high) = tss_descriptor(tss_base, TSS_LIMIT);
    let mut gdt: Vec<u64> = Vec::new();
    gdt.push(0);
    gdt.push(KERNEL_CODE_DESCRIPTOR);
    gdt.push(KERNEL_DATA_DESCRIPTOR);
    gdt.push(USER_CODE_DESCRIPTOR);
    gdt.push(USER_DATA_DESCRIPTOR);
    gdt.push(low);
    gdt.push(high);
    assert(((0x0020_9a00_0000_0000u64 >> 45u64) & 3u64) == 0 && ((0x0000_9200_0000_0000u64 >> 45u64) & 3u64) == 0
        && ((0x0020_fa00_0000_0000u64 >> 45u64) & 3u64) == 3 && ((0x0000_f200_0000_0000u64 >> 45u64) & 3u64) == 3)
        by (bit_vector);
    gdt
}

/// Byte limit of the descriptor-table register for `entries` slots.
pub fn gdt_limit(entries: u16) -> (r: u16)
    requires
        1 <= entries <= 8192,
    ensures
        r == entries * 8 - 1,
{
    (entries - 1) * 8 + 7
}

/// Selector of the user code segment.
pub fn user_code_selector() -> (r: u16)
    ensures
        r == USER_CODE_SELECTOR,
        r & 3 == 3,
{
    assert(USER_CODE_SELECTOR & 3 == 3) by (bit_vector);
    USER_CODE_SELECTOR
}

/// Selector of the user data segment.
pub fn user_data_selector() -> (r: u16)
    ensures
        r == USER_DATA_SELECTOR,
        r & 3 == 3,
{
    assert(USER_DATA_SELECTOR & 3 == 3) by (bit_vector);
    USER_DATA_SELECTOR
}

/// A statically allocated stack: `size` bytes from `base`.
#[derive(Clone, Copy, Debug, PartialEq, Eq, Structural)]
pub struct StackRegion {
    pub base: u64,
    pub size: u64,
}

impl StackRegion {
    pub open spec fn wf(&self) -> bool {
        self.base % 4096 == 0 && self.size > 0 && self.base + self.size <= u64::MAX
    }

    /// The stack grows down from here.
    pub open spec fn top_spec(&self) -> int {
        self.base + self.size
    }

    pub fn top(&self) -> (r: u64)
        requires
            self.wf(),
        ensures
            r == self.top_spec(),
    {
        self.base + self.size
    }

    pub open spec fn disjoint(&self, other: &StackRegion) -> bool {
        self.base + self.size <= other.base || other.base + other.size <= self.base
    }
}

/// Which interrupt-stack-table slot each fault class uses.
pub const DOUBLE_FAULT_IST_INDEX: u8 = 0;
pub const TIMER_IST_INDEX: u8 = 1;
pub const SYSCALL_IST_INDEX: u8 = 2;

/// Stack pointers the processor loads on its own: `rsp0` on any entry from
/// privilege 3, and `ist[i]` for vectors that name slot `i`.
#[derive(Clone, Copy, Debug, PartialEq, Eq)]
pub struct TaskState {
    pub rsp0: u64,
    pub ist: [u64; 7],
}

impl TaskState {
    /// Task state with `rsp0` on the kernel stack and the double-fault,
    /// timer and syscall vectors on their own stacks, no two of which
    /// overlap.
    pub fn new(kernel: StackRegion, double_fault: StackRegion, timer: StackRegion, syscall: StackRegion) -> (r: Self)
        requires
            kernel.wf(),
            double_fault.wf(),
            timer.wf(),
            syscall.wf(),
            kernel.disjoint(&double_fault),
            kernel.disjoint(&timer),
            kernel.disjoint(&syscall),
            double_fault.disjoint(&timer),
            double_fault.disjoint(&syscall),
            timer.disjoint(&syscall),
        ensures
            r.rsp0 == kernel.top_spec(),
            r.ist@[DOUBLE_FAULT_IST_INDEX as int] == double_fault.top_spec(),
            r.ist@[TIMER_IST_INDEX as int] == timer.top_spec(),
            r.ist@[SYSCALL_IST_INDEX as int] == syscall.top_spec(),
            forall|i: int| 3 <= i < 7 ==> r.ist@[i] == 0,
    {
        let mut ist: [u64; 7] = [0; 7];
        ist[0] = double_fault.top();
        ist[1] = timer.top();
        ist[2] = syscall.top();
        TaskState { rsp0: kernel.top(), ist }
    }
}

} // verus!
