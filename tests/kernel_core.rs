use astra_kernel::drivers::mouse::{Mouse, MouseState};
use astra_kernel::boot::{init_heap, prepare_user_transition, HEAP_FIRST_PAGE, HEAP_PAGES};
use astra_kernel::frame::{BootInfoFrameAllocator, MemoryRegion, FRAME_SIZE};
use astra_kernel::gdt::{
    build_gdt, gdt_limit, tss_descriptor, user_code_selector, user_data_selector, StackRegion, TaskState,
    KERNEL_CODE_DESCRIPTOR, USER_DATA_DESCRIPTOR,
};
use astra_kernel::heap::{align_up, BumpAllocator, HEAP_SIZE, HEAP_START};
use astra_kernel::interrupts::{build_idt, decide_interrupt, Handler, InterruptAction, InterruptIndex};
use astra_kernel::keyboard::{push_scancode, scancode_to_ascii, KeyboardBuffer, BUFFER_SIZE};
use astra_kernel::paging::{AddressSpace, MapError, Page, PageTableFlags};
use astra_kernel::process::{ProcessState, Scheduler};
use astra_kernel::syscall::{
    console_text,
    handle_syscall, SyscallAction, SyscallArgs, SyscallNumber, SyscallReply, SyscallState, EBADF, EFAULT, ENOSYS,
    INITIAL_BRK,
};
use astra_kernel::transition::{ensure_writable_range, grant_user_range, saved_privilege, user_return_frame};

fn regions() -> Vec<MemoryRegion> {
    vec![
        MemoryRegion { start: 0, end: 0x1000, usable: false },
        MemoryRegion { start: 0x10_0000, end: 0x10_3000, usable: true },
        MemoryRegion { start: 0x10_3000, end: 0x20_0000, usable: false },
        MemoryRegion { start: 0x40_0000, end: 0x80_0000, usable: true },
    ]
}

fn kernel_flags() -> PageTableFlags {
    PageTableFlags { present: true, writable: true, user_accessible: false, no_execute: false, no_cache: false }
}

fn args(n: u64, a1: u64, a2: u64, a3: u64) -> SyscallArgs {
    SyscallArgs { syscall_num: n, arg1: a1, arg2: a2, arg3: a3, arg4: 0, arg5: 0, arg6: 0 }
}

#[test]
fn frames_are_usable_and_distinct() {
    let mut alloc = BootInfoFrameAllocator::new(regions()).unwrap();
    let mut seen = Vec::new();
    for _ in 0..4 {
        let f = alloc.allocate_frame().unwrap();
        assert_eq!(f % FRAME_SIZE, 0);
        assert!(regions().iter().any(|r| r.usable && r.start <= f && f < r.end));
        assert!(!seen.contains(&f));
        seen.push(f);
    }
    assert_eq!(seen, vec![0x10_0000, 0x10_1000, 0x10_2000, 0x40_0000]);
}

#[test]
fn frame_allocator_gives_up() {
    assert!(BootInfoFrameAllocator::new(vec![MemoryRegion { start: 0, end: 0x1000, usable: false }]).is_none());
    let mut alloc =
        BootInfoFrameAllocator::new(vec![MemoryRegion { start: 0x1000, end: 0x2000, usable: true }]).unwrap();
    assert_eq!(alloc.allocate_frame(), Some(0x1000));
    assert_eq!(alloc.allocate_frame(), None);
}

#[test]
fn map_translate_and_rights() {
    let mut frames = BootInfoFrameAllocator::new(regions()).unwrap();
    let root = frames.allocate_frame().unwrap();
    let mut space = AddressSpace::new(root);
    let page = Page::containing_address(0x40_1234);
    assert_eq!(page.number, 0x401);
    assert_eq!(space.translate(page), None);
    assert_eq!(space.map(page, 0x50_0000, kernel_flags(), &mut frames), Ok(()));
    assert_eq!(space.translate(page), Some(0x50_0000));
    assert_eq!(space.map(page, 0x60_0000, kernel_flags(), &mut frames), Err(MapError::PageAlreadyMapped));
    let rights = space.access_rights(page).unwrap();
    assert!(rights.kernel_write);
    assert!(!rights.user_read && !rights.user_write && !rights.user_execute);
    assert_eq!(space.grant_user_access(Page { number: 0x999 }, false), Err(MapError::PageNotMapped));
}

#[test]
fn data_page_readable_not_executable() {
    let mut frames = BootInfoFrameAllocator::new(regions()).unwrap();
    let mut space = AddressSpace::new(frames.allocate_frame().unwrap());
    let page = Page { number: 0x500 };
    space.map(page, 0x40_0000, kernel_flags(), &mut frames).unwrap();
    space.grant_user_access(page, false).unwrap();
    let rights = space.access_rights(page).unwrap();
    assert!(rights.user_read);
    assert!(rights.user_write);
    assert!(!rights.user_execute);
}

#[test]
fn code_page_executable_not_writable() {
    let mut frames = BootInfoFrameAllocator::new(regions()).unwrap();
    let mut space = AddressSpace::new(frames.allocate_frame().unwrap());
    let page = Page { number: 0x400 };
    space.map(page, 0x40_0000, kernel_flags(), &mut frames).unwrap();
    space.grant_user_access(page, true).unwrap();
    let rights = space.access_rights(page).unwrap();
    assert!(rights.user_read);
    assert!(rights.user_execute);
    assert!(!rights.user_write);
}

#[test]
fn kernel_stack_writable_but_not_user_reachable() {
    let mut frames = BootInfoFrameAllocator::new(regions()).unwrap();
    let mut space = AddressSpace::new(frames.allocate_frame().unwrap());
    let page = Page { number: 0x600 };
    let ro = PageTableFlags { writable: false, ..kernel_flags() };
    space.map(page, 0x40_0000, ro, &mut frames).unwrap();
    assert!(!space.access_rights(page).unwrap().kernel_write);
    space.ensure_writable(page).unwrap();
    space.ensure_writable(page).unwrap();
    let rights = space.access_rights(page).unwrap();
    assert!(rights.kernel_write);
    assert!(!rights.user_read);
    assert!(!space.is_user_readable(page));
}

#[test]
fn page_ranges_and_identity_map() {
    let mut frames = BootInfoFrameAllocator::new(regions()).unwrap();
    let mut space = AddressSpace::new(frames.allocate_frame().unwrap());
    space.identity_map(0xA_0000, 0xC_0000, kernel_flags(), &mut frames).unwrap();
    assert_eq!(space.translate(Page { number: 0xA0 }), Some(0xA_0000));
    assert_eq!(space.translate(Page { number: 0xBF }), Some(0xB_F000));
    assert_eq!(space.translate(Page { number: 0xC0 }), None);
    assert_eq!(grant_user_range(&mut space, 0xA0, 4, true), Ok(()));
    assert!(space.access_rights(Page { number: 0xA3 }).unwrap().user_execute);
    assert_eq!(grant_user_range(&mut space, 0xBE, 4, false), Err(MapError::PageNotMapped));
    assert_eq!(ensure_writable_range(&mut space, 0xB0, 2), Ok(()));
}

#[test]
fn unassigned_syscall_is_not_implemented() {
    let mut frames = BootInfoFrameAllocator::new(regions()).unwrap();
    let space = AddressSpace::new(frames.allocate_frame().unwrap());
    let mut state = SyscallState::new();
    let mut sched = Scheduler::new();
    let r = handle_syscall(&mut state, &mut sched, &space, args(9999, 1, 2, 3));
    assert_eq!(r, SyscallReply { value: ENOSYS, action: SyscallAction::Resume });
    assert_eq!(r.value, -1);
    let r = handle_syscall(&mut state, &mut sched, &space, args(0, 0, 0, 10));
    assert_eq!(r.value, ENOSYS);
    assert_eq!(handle_syscall(&mut state, &mut sched, &space, args(39, 0, 0, 0)).value, 1);
    assert_eq!(SyscallNumber::from_usize(60), Some(SyscallNumber::Exit));
    assert_eq!(SyscallNumber::from_usize(61), None);
}

#[test]
fn zero_length_write_reads_nothing() {
    let mut frames = BootInfoFrameAllocator::new(regions()).unwrap();
    let space = AddressSpace::new(frames.allocate_frame().unwrap());
    let mut state = SyscallState::new();
    let mut sched = Scheduler::new();
    let r = handle_syscall(&mut state, &mut sched, &space, args(1, 1, 0xdead_beef, 0));
    assert_eq!(r, SyscallReply { value: 0, action: SyscallAction::Resume });
}

#[test]
fn write_checks_descriptor_and_buffer() {
    let mut frames = BootInfoFrameAllocator::new(regions()).unwrap();
    let mut space = AddressSpace::new(frames.allocate_frame().unwrap());
    let mut state = SyscallState::new();
    let mut sched = Scheduler::new();
    assert_eq!(handle_syscall(&mut state, &mut sched, &space, args(1, 5, 0x40_0000, 4)).value, EBADF);
    assert_eq!(handle_syscall(&mut state, &mut sched, &space, args(1, 1, 0x40_0000, 4)).value, EFAULT);
    space.map(Page { number: 0x400 }, 0x40_0000, kernel_flags(), &mut frames).unwrap();
    assert_eq!(handle_syscall(&mut state, &mut sched, &space, args(1, 1, 0x40_0000, 4)).value, EFAULT);
    space.grant_user_access(Page { number: 0x400 }, false).unwrap();
    let r = handle_syscall(&mut state, &mut sched, &space, args(1, 2, 0x40_0ff0, 16));
    assert_eq!(r, SyscallReply { value: 16, action: SyscallAction::Output { fd: 2, ptr: 0x40_0ff0, len: 16 } });
    assert_eq!(handle_syscall(&mut state, &mut sched, &space, args(1, 1, 0x40_0ff0, 17)).value, EFAULT);
}

#[test]
fn brk_only_grows() {
    let mut frames = BootInfoFrameAllocator::new(regions()).unwrap();
    let space = AddressSpace::new(frames.allocate_frame().unwrap());
    let mut state = SyscallState::new();
    let mut sched = Scheduler::new();
    assert_eq!(handle_syscall(&mut state, &mut sched, &space, args(12, 0, 0, 0)).value, INITIAL_BRK as i64);
    assert_eq!(handle_syscall(&mut state, &mut sched, &space, args(12, 0x5000_1000, 0, 0)).value, 0x5000_1000);
    assert_eq!(handle_syscall(&mut state, &mut sched, &space, args(12, 0x4000_0000, 0, 0)).value, 0x5000_1000);
    assert_eq!(state.brk, 0x5000_1000);
}

#[test]
fn exit_terminates_the_running_process() {
    let mut frames = BootInfoFrameAllocator::new(regions()).unwrap();
    let space = AddressSpace::new(frames.allocate_frame().unwrap());
    let mut state = SyscallState::new();
    let mut sched = Scheduler::new();
    let a = sched.spawn(0x40_0000, 0x10_0000);
    let b = sched.spawn(0x50_0000, 0x10_1000);
    assert_eq!((a, b), (1, 2));
    assert!(sched.current_process().is_none());
    assert_eq!(sched.schedule(), Some(2));
    let r = handle_syscall(&mut state, &mut sched, &space, args(60, 7, 0, 0));
    assert_eq!(r.action, SyscallAction::Halt { status: 7 });
    assert_eq!(sched.current_process().unwrap().state, ProcessState::Terminated);
    assert_eq!(sched.schedule(), Some(1));
    let p = sched.current_process().unwrap();
    assert_eq!(p.state, ProcessState::Running);
    assert_eq!(p.registers.cs, 0x1B);
    assert_eq!(p.registers.rip, 0x40_0000);
    assert_eq!(sched.schedule(), None);
}

#[test]
fn bump_heap() {
    let mut heap = BumpAllocator::new();
    assert_eq!(heap.allocate(8, 8), None);
    heap.init(HEAP_START, HEAP_SIZE);
    let a = heap.allocate(3, 1).unwrap();
    assert_eq!(a, HEAP_START);
    let b = heap.allocate(16, 16).unwrap();
    assert_eq!(b, HEAP_START + 16);
    heap.deallocate(a, 3);
    assert_eq!(heap.allocate(HEAP_SIZE, 1), None);
    assert_eq!(heap.allocate(HEAP_SIZE - 32, 1), Some(HEAP_START + 32));
    assert_eq!(align_up(17, 8), Some(24));
    assert_eq!(align_up(u64::MAX, 2), None);
}

#[test]
fn segment_and_task_state() {
    let gdt = build_gdt(0x1234_5678_9abc);
    assert_eq!(gdt.len(), 7);
    assert_eq!(gdt[1], KERNEL_CODE_DESCRIPTOR);
    assert_eq!(gdt[4], USER_DATA_DESCRIPTOR);
    let (low, high) = tss_descriptor(0x1234_5678_9abc, 103);
    assert_eq!((gdt[5], gdt[6]), (low, high));
    assert_eq!(high, 0x1234);
    assert_eq!(low & 0xFFFF, 103);
    assert_eq!((low >> 40) & 0xFF, 0x89);
    assert_eq!(gdt_limit(7), 55);
    assert_eq!(user_code_selector() & 3, 3);
    assert_eq!(user_data_selector(), 0x23);
    let stack = |base| StackRegion { base, size: 0x4000 };
    let tss = TaskState::new(stack(0x10_0000), stack(0x20_0000), stack(0x30_0000), stack(0x40_0000));
    assert_eq!(tss.rsp0, 0x10_4000);
    assert_eq!(tss.ist, [0x20_4000, 0x30_4000, 0x40_4000, 0, 0, 0, 0]);
}

#[test]
fn interrupt_table() {
    let idt = build_idt();
    assert_eq!(idt.len(), 256);
    assert_eq!(idt[8].handler, Handler::DoubleFault);
    assert_eq!(idt[8].stack_index, Some(0));
    assert_eq!(idt[0x80].privilege, 3);
    assert_eq!(idt[0x80].stack_index, Some(2));
    assert_eq!(idt.iter().filter(|e| e.privilege == 3).count(), 1);
    assert_eq!(InterruptIndex::Mouse.as_u8(), 44);
    assert_eq!(decide_interrupt(32).end_of_interrupt, Some(32));
    assert_eq!(decide_interrupt(14).action, InterruptAction::Halt);
    assert_eq!(decide_interrupt(3).action, InterruptAction::Resume);
    assert_eq!(decide_interrupt(0x80).action, InterruptAction::Dispatch);
}

#[test]
fn user_frame() {
    let f = user_return_frame(0x40_0000, 0x7FFF_FFFF_000F);
    assert_eq!(f.rsp, 0x7FFF_FFFF_0000);
    assert_eq!(saved_privilege(f.cs), 3);
    assert_eq!(f.rflags, 0x202);
}

#[test]
fn keyboard_buffer() {
    assert_eq!(scancode_to_ascii(0x1E), Some(b'a'));
    assert_eq!(scancode_to_ascii(0x9E), None);
    assert_eq!(scancode_to_ascii(0x2A), None);
    let mut kb = KeyboardBuffer::new();
    push_scancode(&mut kb, 0x23);
    push_scancode(&mut kb, 0x17);
    assert_eq!(kb.available(), 2);
    let mut buf = [0u8; 4];
    assert_eq!(kb.read(&mut buf), 2);
    assert_eq!(&buf[..2], b"hi");
    assert!(!kb.has_data());
    for i in 0..BUFFER_SIZE {
        assert!(kb.push(i as u8));
    }
    assert!(!kb.push(1));
    assert_eq!(kb.pop(), Some(0));
}

#[test]
fn boot_sequence_reaches_user_mode_frame() {
    let region = MemoryRegion { start: 0x100_0000, end: 0x100_0000 + (HEAP_SIZE + 0x40_0000), usable: true };
    let mut frames = BootInfoFrameAllocator::new(vec![region]).unwrap();
    let mut space = AddressSpace::new(frames.allocate_frame().unwrap());
    let mut heap = BumpAllocator::new();
    assert_eq!(init_heap(&mut space, &mut frames, &mut heap), Ok(()));
    assert_eq!(HEAP_FIRST_PAGE * FRAME_SIZE, HEAP_START);
    let last = Page { number: HEAP_FIRST_PAGE + HEAP_PAGES - 1 };
    assert!(space.access_rights(last).unwrap().kernel_write);
    assert!(!space.access_rights(last).unwrap().user_read);
    assert_eq!(heap.allocate(64, 8), Some(HEAP_START));
    for n in 0x200..0x210u64 {
        space.map(Page { number: n }, n * FRAME_SIZE, kernel_flags(), &mut frames).unwrap();
    }
    let stacks = vec![StackRegion { base: 0x20_8000, size: 0x4000 }, StackRegion { base: 0x20_c000, size: 0x4000 }];
    let frame = prepare_user_transition(&mut space, 0x200, 4, 0x204, 4, &stacks, 0x20_0000, 0x20_8000).unwrap();
    assert_eq!(saved_privilege(frame.cs), 3);
    assert_eq!(frame.rip, 0x20_0000);
    assert!(space.access_rights(Page { number: 0x201 }).unwrap().user_execute);
    assert!(space.access_rights(Page { number: 0x205 }).unwrap().user_write);
    let ks = space.access_rights(Page { number: 0x209 }).unwrap();
    assert!(ks.kernel_write && !ks.user_read);
    let idt = build_idt();
    assert_eq!(idt[32].stack_index, Some(1));
    assert_eq!(
        prepare_user_transition(&mut space, 0x300, 1, 0x204, 1, &stacks, 0, 0),
        Err(MapError::PageNotMapped)
    );
}

#[test]
fn identity_map_keeps_existing_mappings() {
    let mut frames = BootInfoFrameAllocator::new(regions()).unwrap();
    let mut space = AddressSpace::new(frames.allocate_frame().unwrap());
    space.map(Page { number: 0xB8 }, 0x40_0000, kernel_flags(), &mut frames).unwrap();
    space.identity_map(0xB_7800, 0xB_9001, kernel_flags(), &mut frames).unwrap();
    assert_eq!(space.translate(Page { number: 0xB7 }), Some(0xB_7000));
    assert_eq!(space.translate(Page { number: 0xB8 }), Some(0x40_0000));
    assert_eq!(space.translate(Page { number: 0xB9 }), Some(0xB_9000));
    assert_eq!(space.translate(Page { number: 0xBA }), None);
}

#[test]
fn console_text_or_hex_dump() {
    assert_eq!(console_text(b"hi there"), "hi there");
    assert_eq!(console_text(&[0xff, 0x0a, 0x41]), "ff 0a 41 \n");
    assert_eq!(console_text(&[]), "");
}

#[test]
fn grant_leaves_neighbours_unreachable() {
    let mut frames = BootInfoFrameAllocator::new(regions()).unwrap();
    let mut space = AddressSpace::new(frames.allocate_frame().unwrap());
    let a = Page { number: 0x700 };
    let b = Page { number: 0x701 };
    space.map(a, 0x40_0000, kernel_flags(), &mut frames).unwrap();
    space.map(b, 0x40_1000, kernel_flags(), &mut frames).unwrap();
    space.grant_user_access(a, false).unwrap();
    assert!(space.access_rights(a).unwrap().user_read);
    let rb = space.access_rights(b).unwrap();
    assert!(!rb.user_read && !rb.user_write && !rb.user_execute);
    assert!(rb.kernel_write);
}

#[test]
fn mouse_packets_move_pointer() {
    let mut m = Mouse::new();
    assert_eq!(m.get_state(), MouseState::new());
    m.handle_interrupt(0x09);
    m.handle_interrupt(5);
    assert_eq!(m.get_state().x, 40);
    m.handle_interrupt(3);
    let s = m.get_state();
    assert_eq!((s.x, s.y, s.left_button, s.right_button), (45, 9, true, false));
    m.handle_interrupt(0x10 | 0x20);
    m.handle_interrupt(0xFF);
    m.handle_interrupt(0x80);
    let s = m.get_state();
    assert_eq!((s.x, s.y, s.left_button), (44, 24, false));
    m.handle_interrupt(0x40);
    m.handle_interrupt(100);
    m.handle_interrupt(0);
    assert_eq!(m.get_state().x, 44);
}
