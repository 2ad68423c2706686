//! Syscall decoding and dispatch. A request is a number and six machine-word
//! arguments; the result goes back to the caller's accumulator register.
use vstd::prelude::*;
use crate::frame::FRAME_SIZE;
use crate::paging::{AddressSpace, ADDRESS_LIMIT};
use crate::process::Scheduler;
use crate::text::{decode_utf8, push_char, utf8_decode};

verus! {

/// Not implemented (the kernel's generic failure code).
pub const ENOSYS: i64 = -1;

/// Bad file descriptor.
pub const EBADF: i64 = -9;

/// The buffer is not readable from privilege level 3.
pub const EFAULT: i64 = -14;

/// Program break before the first `brk`.
pub const INITIAL_BRK: u64 = 0x5000_0000;

/// The id every caller gets until there are several processes.
pub const FIXED_PID: i64 = 1;

#[derive(Clone, Copy, Debug, PartialEq, Eq, Structural)]
pub enum SyscallNumber {
    Read,
    Write,
    Open,
    Close,
    Exit,
    Brk,
    Mmap,
    Munmap,
    GetPid,
}

/// The number that selects `s`.
pub open spec fn number_of(s: SyscallNumber) -> u64 {
    match s {
        SyscallNumber::Read => 0,
        SyscallNumber::Write => 1,
        SyscallNumber::Open => 2,
        SyscallNumber::Close => 3,
        SyscallNumber::Mmap => 9,
        SyscallNumber::Munmap => 11,
        SyscallNumber::Brk => 12,
        SyscallNumber::GetPid => 39,
        SyscallNumber::Exit => 60,
    }
}

/// The syscall that number `n` selects.
pub open spec fn syscall_of(n: u64) -> Option<SyscallNumber> {
    if n == 0 {
        Some(SyscallNumber::Read)
    } else if n == 1 {
        Some(SyscallNumber::Write)
    } else if n == 2 {
        Some(SyscallNumber::Open)
    } else if n == 3 {
        Some(SyscallNumber::Close)
    } else if n == 9 {
        Some(SyscallNumber::Mmap)
    } else if n == 11 {
        Some(SyscallNumber::Munmap)
    } else if n == 12 {
        Some(SyscallNumber::Brk)
    } else if n == 39 {
        Some(SyscallNumber::GetPid)
    } else if n == 60 {
        Some(SyscallNumber::Exit)
    } else {
        None
    }
}

impl SyscallNumber {
    /// The syscall that `n` selects, if any.
    pub fn from_usize(n: u64) -> (r: Option<Self>)
        ensures
            r == syscall_of(n),
            r matches Some(s) ==> number_of(s) == n,
    {
        match n {
            0 => Some(SyscallNumber::Read),
            1 => Some(SyscallNumber::Write),
            2 => Some(SyscallNumber::Open),
            3 => Some(SyscallNumber::Close),
            60 => Some(SyscallNumber::Exit),
            12 => Some(SyscallNumber::Brk),
            9 => Some(SyscallNumber::Mmap),
            11 => Some(SyscallNumber::Munmap),
            39 => Some(SyscallNumber::GetPid),
            _ => None,
        }
    }
}

/// A decoded request: the number (RAX) and arguments (RDI, RSI, RDX, R10,
/// R8, R9).
#[derive(Clone, Copy, Debug, PartialEq, Eq, Structural)]
pub struct SyscallArgs {
    pub syscall_num: u64,
    pub arg1: u64,
    pub arg2: u64,
    pub arg3: u64,
    pub arg4: u64,
    pub arg5: u64,
    pub arg6: u64,
}

/// What the kernel does after the decision, outside the dispatcher.
#[derive(Clone, Copy, Debug, PartialEq, Eq, Structural)]
pub enum SyscallAction {
    /// Return `value` to the caller.
    Resume,
    /// Copy `len` bytes at user address `ptr` to the console, then return.
    Output { fd: u64, ptr: u64, len: u64 },
    /// The caller has been terminated; never return to it.
    Halt { status: u64 },
}

#[derive(Clone, Copy, Debug, PartialEq, Eq, Structural)]
pub struct SyscallReply {
    pub value: i64,
    pub action: SyscallAction,
}

/// Kernel-side state the syscalls keep between calls.
#[derive(Clone, Copy, Debug, PartialEq, Eq, Structural)]
pub struct SyscallState {
    /// Current program break; it only grows.
    pub brk: u64,
}

impl SyscallState {
    pub fn new() -> (r: Self)
        ensures
            r.brk == INITIAL_BRK,
    {
        SyscallState { brk: INITIAL_BRK }
    }
}

/// Every page of `[ptr, ptr + len)` can be read from privilege level 3; an
/// empty buffer always can.
pub open spec fn user_buffer_readable(space: &AddressSpace, ptr: u64, len: u64) -> bool {
    len == 0 || user_pages_readable(space, ptr, len)
}

pub open spec fn user_pages_readable(space: &AddressSpace, ptr: u64, len: u64) -> bool {
    &&& ptr + len <= ADDRESS_LIMIT
    &&& forall|p: u64|
        ptr / FRAME_SIZE <= p <= (ptr + len - 1) as u64 / FRAME_SIZE ==> #[trigger] space.user_can_read(p)
}

/// Checks a user buffer before the kernel reads it.
pub fn validate_user_buffer(space: &AddressSpace, ptr: u64, len: u64) -> (r: bool)
    requires
        space.wf(),
    ensures
        r == user_buffer_readable(space, ptr, len),
{
    if len == 0 {
        return true;
    }
    if ptr > ADDRESS_LIMIT || len > ADDRESS_LIMIT - ptr {
        return false;
    }
    let first = ptr / FRAME_SIZE;
    let last = (ptr + len - 1) / FRAME_SIZE;
    let mut p = first;
    while p <= last
        invariant
            space.wf(),
            len > 0,
            first <= p <= last + 1,
            last < crate::paging::PAGE_NUMBER_LIMIT,
            first == ptr / FRAME_SIZE,
            last == (ptr + len - 1) as u64 / FRAME_SIZE,
            forall|x: u64| first <= x < p ==> #[trigger] space.user_can_read(x),
        decreases last + 1 - p,
    {
        if !space.is_user_readable(crate::paging::Page { number: p }) {
            return false;
        }
        p = p + 1;
    }
    true
}

/// `write(fd, ptr, len)`: only standard output and standard error; a zero
/// length does nothing and reads no memory; otherwise the buffer must be
/// readable from privilege level 3.
pub fn sys_write(space: &AddressSpace, fd: u64, ptr: u64, len: u64) -> (r: SyscallReply)
    requires
        space.wf(),
    ensures
        fd != 1 && fd != 2 ==> r == (SyscallReply { value: EBADF, action: SyscallAction::Resume }),
        (fd == 1 || fd == 2) && len == 0 ==> r == (SyscallReply { value: 0, action: SyscallAction::Resume }),
        (fd == 1 || fd == 2) && len > 0 && !user_buffer_readable(space, ptr, len) ==> r == (SyscallReply {
            value: EFAULT,
            action: SyscallAction::Resume,
        }),
        (fd == 1 || fd == 2) && len > 0 && user_buffer_readable(space, ptr, len) ==> r == (SyscallReply {
            value: len as i64,
            action: SyscallAction::Output { fd, ptr, len },
        }),
{
    if fd != 1 && fd != 2 {
        return SyscallReply { value: EBADF, action: SyscallAction::Resume };
    }
    if len == 0 {
        return SyscallReply { value: 0, action: SyscallAction::Resume };
    }
    if !validate_user_buffer(space, ptr, len) {
        return SyscallReply { value: EFAULT, action: SyscallAction::Resume };
    }
    SyscallReply { value: len as i64, action: SyscallAction::Output { fd, ptr, len } }
}

/// `brk(addr)`: 0 asks for the current break; a larger address moves the
/// break there; a smaller one leaves it where it is. Returns the break.
pub fn sys_brk(state: &mut SyscallState, addr: u64) -> (r: i64)
    requires
        old(state).brk <= i64::MAX,
    ensures
        addr != 0 && addr >= old(state).brk && addr <= i64::MAX ==> final(state).brk == addr,
        !(addr != 0 && addr >= old(state).brk && addr <= i64::MAX) ==> final(state).brk == old(state).brk,
        r == final(state).brk,
        final(state).brk >= old(state).brk,
{
    if addr != 0 && addr >= state.brk && addr <= i64::MAX as u64 {
        state.brk = addr;
    }
    state.brk as i64
}

/// Decides a syscall: `Exit` terminates the caller, `Write` is checked as in
/// `sys_write`, `Brk` moves the break, `GetPid` gives the fixed id, and every
/// other number (known or not) gets `ENOSYS`.
pub fn handle_syscall(
    state: &mut SyscallState,
    scheduler: &mut Scheduler,
    space: &AddressSpace,
    args: SyscallArgs,
) -> (r: SyscallReply)
    requires
        space.wf(),
        old(scheduler).wf(),
        old(state).brk <= i64::MAX,
    ensures
        final(scheduler).wf(),
        final(state).brk <= i64::MAX,
        args.syscall_num != 60 ==> *final(scheduler) == *old(scheduler),
        args.syscall_num != 12 ==> *final(state) == *old(state),
        args.syscall_num == 1 ==> r == sys_write_spec(space, args.arg1, args.arg2, args.arg3),
        args.syscall_num == 12 ==> r.action == SyscallAction::Resume && r.value == final(state).brk
            && (args.arg1 != 0 && args.arg1 >= old(state).brk && args.arg1 <= i64::MAX ==> final(state).brk
            == args.arg1) && (!(args.arg1 != 0 && args.arg1 >= old(state).brk && args.arg1 <= i64::MAX)
            ==> final(state).brk == old(state).brk),
        args.syscall_num == 39 ==> r == (SyscallReply { value: FIXED_PID, action: SyscallAction::Resume }),
        args.syscall_num == 60 ==> r == (SyscallReply { value: 0, action: SyscallAction::Halt { status: args.arg1 } })
            && final(scheduler).procs() == crate::process::after_termination(*old(scheduler))
            && final(scheduler).current() == old(scheduler).current(),
        args.syscall_num != 1 && args.syscall_num != 12 && args.syscall_num != 39 && args.syscall_num != 60
            ==> r == (SyscallReply { value: ENOSYS, action: SyscallAction::Resume }),
{
    match SyscallNumber::from_usize(args.syscall_num) {
        Some(SyscallNumber::Write) => sys_write(space, args.arg1, args.arg2, args.arg3),
        Some(SyscallNumber::Brk) => {
            let v = sys_brk(state, args.arg1);
            SyscallReply { value: v, action: SyscallAction::Resume }
        },
        Some(SyscallNumber::GetPid) => SyscallReply { value: FIXED_PID, action: SyscallAction::Resume },
        Some(SyscallNumber::Exit) => {
            scheduler.terminate_current();
            SyscallReply { value: 0, action: SyscallAction::Halt { status: args.arg1 } }
        },
        Some(_) => SyscallReply { value: ENOSYS, action: SyscallAction::Resume },
        None => SyscallReply { value: ENOSYS, action: SyscallAction::Resume },
    }
}

/// The reply of `sys_write`.
pub open spec fn sys_write_spec(space: &AddressSpace, fd: u64, ptr: u64, len: u64) -> SyscallReply {
    if fd != 1 && fd != 2 {
        SyscallReply { value: EBADF, action: SyscallAction::Resume }
    } else if len == 0 {
        SyscallReply { value: 0, action: SyscallAction::Resume }
    } else if !user_buffer_readable(space, ptr, len) {
        SyscallReply { value: EFAULT, action: SyscallAction::Resume }
    } else {
        SyscallReply { value: len as i64, action: SyscallAction::Output { fd, ptr, len } }
    }
}

/// Lower-case hexadecimal digit for `d` (0 to 15).
pub open spec fn hex_char(d: u8) -> char {
    if d < 10 {
        (('0' as u8) + d) as char
    } else {
        (('a' as u8) + d - 10) as char
    }
}

/// Each byte as two hex digits and a space, then a line break.
pub open spec fn hex_dump(b: Seq<u8>) -> Seq<char>
    decreases b.len(),
{
    if b.len() == 0 {
        seq!['\n']
    } else {
        hex_dump(b.drop_last()).drop_last() + seq![hex_char(b.last() / 16), hex_char(b.last() % 16), ' ', '\n']
    }
}

fn hex_digit_char(d: u8) -> (r: char)
    requires
        d < 16,
    ensures
        r == hex_char(d),
{
    if d < 10 {
        (('0' as u8) + d) as char
    } else {
        (('a' as u8) + d - 10) as char
    }
}

/// What a `write` to the console shows: the text itself when the bytes are
/// UTF-8, else a hex dump.
pub fn console_text(bytes: &[u8]) -> (r: String)
    ensures
        match utf8_decode(bytes@) {
            Some(t) => r@ == t,
            None => r@ == hex_dump(bytes@),
        },
{
    if let Some(t) = decode_utf8(bytes) {
        return t;
    }
    let mut out = String::new();
    let mut i: usize = 0;
    while i < bytes.len()
        invariant
            i <= bytes@.len(),
            out@.push('\n') == hex_dump(bytes@.subrange(0, i as int)),
        decreases bytes@.len() - i,
    {
        let b = bytes[i];
        let ghost before = out@;
        push_char(&mut out, hex_digit_char(b / 16));
        push_char(&mut out, hex_digit_char(b % 16));
        push_char(&mut out, ' ');
        proof {
            let p = bytes@.subrange(0, i + 1);
            assert(p.drop_last() =~= bytes@.subrange(0, i as int));
            assert(hex_dump(p.drop_last()).drop_last() =~= before);
            assert(out@.push('\n') =~= hex_dump(p));
        }
        i = i + 1;
    }
    push_char(&mut out, '\n');
    assert(bytes@.subrange(0, bytes@.len() as int) =~= bytes@);
    out
}

} // verus!
