//! Interrupt dispatch table: per-vector handler, optional dedicated stack and
//! lowest privilege allowed to raise the vector with a software interrupt.
use vstd::prelude::*;
use crate::gdt::{DOUBLE_FAULT_IST_INDEX, SYSCALL_IST_INDEX, TIMER_IST_INDEX, TaskState, StackRegion};

verus! {

/// First vector of the primary interrupt controller.
pub const PIC_1_OFFSET: u8 = 32;

/// First vector of the secondary interrupt controller.
pub const PIC_2_OFFSET: u8 = 40;

pub const BREAKPOINT_VECTOR: u8 = 3;
pub const DOUBLE_FAULT_VECTOR: u8 = 8;
pub const GENERAL_PROTECTION_VECTOR: u8 = 13;
pub const PAGE_FAULT_VECTOR: u8 = 14;

/// Number of vectors.
pub const IDT_ENTRIES: usize = 256;

#[derive(Clone, Copy, Debug, PartialEq, Eq, Structural)]
pub enum InterruptIndex {
    Timer,
    Keyboard,
    Mouse,
    Syscall,
}

impl InterruptIndex {
    pub open spec fn vector(self) -> u8 {
        match self {
            InterruptIndex::Timer => 32,
            InterruptIndex::Keyboard => 33,
            InterruptIndex::Mouse => 44,
            InterruptIndex::Syscall => 0x80,
        }
    }

    pub fn as_u8(self) -> (r: u8)
        ensures
            r == self.vector(),
    {
        match self {
            InterruptIndex::Timer => PIC_1_OFFSET,
            InterruptIndex::Keyboard => PIC_1_OFFSET + 1,
            InterruptIndex::Mouse => PIC_2_OFFSET + 4,
            InterruptIndex::Syscall => 0x80,
        }
    }

    pub fn as_usize(self) -> (r: usize)
        ensures
            r == self.vector() as usize,
    {
        self.as_u8() as usize
    }
}

#[derive(Clone, Copy, Debug, PartialEq, Eq, Structural)]
pub enum Handler {
    Unassigned,
    Breakpoint,
    DoubleFault,
    GeneralProtection,
    PageFault,
    Timer,
    Keyboard,
    Mouse,
    Syscall,
}

#[derive(Clone, Copy, Debug, PartialEq, Eq, Structural)]
pub struct IdtEntry {
    pub handler: Handler,
    /// Interrupt-stack-table slot the processor switches to, if any.
    pub stack_index: Option<u8>,
    /// Lowest privilege level that may raise the vector with `int`.
    pub privilege: u8,
}

/// The table the kernel installs, as a function of the vector.
pub open spec fn idt_entry_spec(v: int) -> IdtEntry {
    if v == 3 {
        IdtEntry { handler: Handler::Breakpoint, stack_index: None, privilege: 0 }
    } else if v == 8 {
        IdtEntry { handler: Handler::DoubleFault, stack_index: Some(DOUBLE_FAULT_IST_INDEX), privilege: 0 }
    } else if v == 13 {
        IdtEntry { handler: Handler::GeneralProtection, stack_index: None, privilege: 0 }
    } else if v == 14 {
        IdtEntry { handler: Handler::PageFault, stack_index: None, privilege: 0 }
    } else if v == 32 {
        IdtEntry { handler: Handler::Timer, stack_index: Some(TIMER_IST_INDEX), privilege: 0 }
    } else if v == 33 {
        IdtEntry { handler: Handler::Keyboard, stack_index: None, privilege: 0 }
    } else if v == 44 {
        IdtEntry { handler: Handler::Mouse, stack_index: None, privilege: 0 }
    } else if v == 0x80 {
        IdtEntry { handler: Handler::Syscall, stack_index: Some(SYSCALL_IST_INDEX), privilege: 3 }
    } else {
        IdtEntry { handler: Handler::Unassigned, stack_index: None, privilege: 0 }
    }
}

/// Entry of vector `v`.
pub fn idt_entry(v: usize) -> (r: IdtEntry)
    ensures
        r == idt_entry_spec(v as int),
{
    if v == 3 {
        IdtEntry { handler: Handler::Breakpoint, stack_index: None, privilege: 0 }
    } else if v == 8 {
        IdtEntry { handler: Handler::DoubleFault, stack_index: Some(DOUBLE_FAULT_IST_INDEX), privilege: 0 }
    } else if v == 13 {
        IdtEntry { handler: Handler::GeneralProtection, stack_index: None, privilege: 0 }
    } else if v == 14 {
        IdtEntry { handler: Handler::PageFault, stack_index: None, privilege: 0 }
    } else if v == 32 {
        IdtEntry { handler: Handler::Timer, stack_index: Some(TIMER_IST_INDEX), privilege: 0 }
    } else if v == 33 {
        IdtEntry { handler: Handler::Keyboard, stack_index: None, privilege: 0 }
    } else if v == 44 {
        IdtEntry { handler: Handler::Mouse, stack_index: None, privilege: 0 }
    } else if v == 0x80 {
        IdtEntry { handler: Handler::Syscall, stack_index: Some(SYSCALL_IST_INDEX), privilege: 3 }
    } else {
        IdtEntry { handler: Handler::Unassigned, stack_index: None, privilege: 0 }
    }
}

/// The full table: exceptions, the three hardware interrupts and the
/// syscall gate.
pub fn build_idt() -> (r: Vec<IdtEntry>)
    ensures
        r@.len() == IDT_ENTRIES,
        forall|v: int| 0 <= v < IDT_ENTRIES ==> #[trigger] r@[v] == idt_entry_spec(v),
{
    let mut idt: Vec<IdtEntry> = Vec::new();
    let mut v: usize = 0;
    while v < IDT_ENTRIES
        invariant
            v <= IDT_ENTRIES,
            idt@.len() == v,
            forall|k: int| 0 <= k < v ==> #[trigger] idt@[k] == idt_entry_spec(k),
        decreases IDT_ENTRIES - v,
    {
        idt.push(idt_entry(v));
        v = v + 1;
    }
    idt
}

/// The syscall gate is the only vector that privilege level 3 may raise.
pub proof fn lemma_only_syscall_reachable_from_user(v: int)
    requires
        0 <= v < IDT_ENTRIES,
        idt_entry_spec(v).privilege == 3,
    ensures
        v == 0x80,
        idt_entry_spec(v).handler == Handler::Syscall,
{
}

/// The double-fault vector always runs on its own stack: its table entry
/// names an interrupt-stack-table slot, and the task state points that slot
/// at the top of a stack that does not overlap the kernel stack, so an
/// overflow of the kernel stack cannot take the handler's stack with it.
pub proof fn lemma_double_fault_on_dedicated_stack(
    tss: TaskState,
    kernel: StackRegion,
    double_fault: StackRegion,
)
    requires
        kernel.wf(),
        double_fault.wf(),
        kernel.disjoint(&double_fault),
        tss.rsp0 == kernel.top_spec(),
        tss.ist@[DOUBLE_FAULT_IST_INDEX as int] == double_fault.top_spec(),
    ensures
        idt_entry_spec(8).stack_index == Some(DOUBLE_FAULT_IST_INDEX),
        tss.ist@[DOUBLE_FAULT_IST_INDEX as int] == double_fault.top_spec(),
        !(kernel.base < tss.ist@[DOUBLE_FAULT_IST_INDEX as int] <= kernel.top_spec()),
{
}

/// What the kernel does when a vector fires.
#[derive(Clone, Copy, Debug, PartialEq, Eq, Structural)]
pub enum InterruptAction {
    /// Log and return to the interrupted code.
    Resume,
    /// Log the full context and halt: the fault is fatal.
    Halt,
    /// Run the syscall dispatcher, then return.
    Dispatch,
}

#[derive(Clone, Copy, Debug, PartialEq, Eq, Structural)]
pub struct InterruptDecision {
    pub action: InterruptAction,
    /// The interrupt-controller line to acknowledge before returning.
    pub end_of_interrupt: Option<u8>,
}

/// The handling policy of each vector: breakpoints resume, page faults,
/// protection faults and double faults halt, and every hardware interrupt
/// is acknowledged on its controller.
pub fn decide_interrupt(v: u8) -> (r: InterruptDecision)
    ensures
        v == 3 ==> r.action == InterruptAction::Resume,
        v == 8 || v == 13 || v == 14 ==> r.action == InterruptAction::Halt,
        v == 0x80 ==> r.action == InterruptAction::Dispatch && r.end_of_interrupt is None,
        v == 32 || v == 33 || v == 44 ==> r == (InterruptDecision {
            action: InterruptAction::Resume,
            end_of_interrupt: Some(v),
        }),
        r.end_of_interrupt is Some <==> (v == 32 || v == 33 || v == 44),
        !(v == 3 || v == 8 || v == 13 || v == 14 || v == 32 || v == 33 || v == 44 || v == 0x80) ==> r.action
            == InterruptAction::Halt,
{
    if v == 3 {
        InterruptDecision { action: InterruptAction::Resume, end_of_interrupt: None }
    } else if v == 0x80 {
        InterruptDecision { action: InterruptAction::Dispatch, end_of_interrupt: None }
    } else if v == 32 || v == 33 || v == 44 {
        InterruptDecision { action: InterruptAction::Resume, end_of_interrupt: Some(v) }
    } else {
        InterruptDecision { action: InterruptAction::Halt, end_of_interrupt: None }
    }
}

} // verus!
