//! Process records and a round-robin scheduler.
use vstd::prelude::*;
use crate::gdt::{USER_CODE_SELECTOR, USER_DATA_SELECTOR};

verus! {

/// Top of the user stack every new process starts on.
pub const USER_STACK_TOP: u64 = 0x7FFF_FFFF_0000;

/// RFLAGS with only the interrupt-enable flag (and the reserved bit 1) set.
pub const INITIAL_RFLAGS: u64 = 0x202;

#[derive(Clone, Copy, Debug, PartialEq, Eq, Structural)]
pub enum ProcessState {
    Ready,
    Running,
    Blocked,
    Terminated,
}

/// Saved general-purpose registers and the interrupt return frame.
#[derive(Clone, Copy, Debug, PartialEq, Eq, Structural)]
pub struct RegisterState {
    pub rax: u64,
    pub rbx: u64,
    pub rcx: u64,
    pub rdx: u64,
    pub rsi: u64,
    pub rdi: u64,
    pub rbp: u64,
    pub rsp: u64,
    pub r8: u64,
    pub r9: u64,
    pub r10: u64,
    pub r11: u64,
    pub r12: u64,
    pub r13: u64,
    pub r14: u64,
    pub r15: u64,
    pub rip: u64,
    pub rflags: u64,
    pub cs: u64,
    pub ss: u64,
}

impl RegisterState {
    /// All registers zero, interrupts enabled, kernel code and data selectors.
    pub fn kernel_default() -> (r: Self)
        ensures
            r.rip == 0 && r.rsp == 0 && r.rax == 0,
            r.rflags == INITIAL_RFLAGS,
            r.cs == 0x08 && r.ss == 0x10,
    {
        RegisterState {
            rax: 0,
            rbx: 0,
            rcx: 0,
            rdx: 0,
            rsi: 0,
            rdi: 0,
            rbp: 0,
            rsp: 0,
            r8: 0,
            r9: 0,
            r10: 0,
            r11: 0,
            r12: 0,
            r13: 0,
            r14: 0,
            r15: 0,
            rip: 0,
            rflags: INITIAL_RFLAGS,
            cs: 0x08,
            ss: 0x10,
        }
    }
}

impl Default for RegisterState {
    fn default() -> (r: Self)
        ensures
            r.rip == 0 && r.rsp == 0,
            r.rflags == INITIAL_RFLAGS,
            r.cs == 0x08 && r.ss == 0x10,
    {
        RegisterState::kernel_default()
    }
}

#[derive(Clone, Copy, Debug)]
pub struct Process {
    pub pid: u64,
    pub state: ProcessState,
    pub registers: RegisterState,
    /// Physical frame of the process's top-level page table.
    pub page_table: u64,
    pub stack_pointer: u64,
    pub entry_point: u64,
}

impl Process {
    /// A ready process that will start at `entry_point` on the user stack.
    pub fn new(pid: u64, entry_point: u64, page_table: u64) -> (r: Self)
        ensures
            r.pid == pid,
            r.state == ProcessState::Ready,
            r.entry_point == entry_point,
            r.page_table == page_table,
            r.stack_pointer == USER_STACK_TOP,
            r.registers.rflags == INITIAL_RFLAGS,
    {
        Process {
            pid,
            state: ProcessState::Ready,
            registers: RegisterState::kernel_default(),
            page_table,
            stack_pointer: USER_STACK_TOP,
            entry_point,
        }
    }
}

/// Position visited `i + 1` steps after position `c` among `n` processes.
pub open spec fn rotation(c: int, i: int, n: int) -> int {
    (c + i + 1) % n
}

proof fn lemma_rotation(c: int, off: int, n: int)
    requires
        0 <= c < n,
        1 <= off <= n,
    ensures
        rotation(c, off - 1, n) == if c >= n - off { c - (n - off) } else { c + off },
{
    if c >= n - off {
        vstd::arithmetic::div_mod::lemma_mod_sub_multiples_vanish(c + off, n);
        vstd::arithmetic::div_mod::lemma_small_mod((c + off - n) as nat, n as nat);
    } else {
        vstd::arithmetic::div_mod::lemma_small_mod((c + off) as nat, n as nat);
    }
}

/// The process records after the running process (if any) is marked
/// Terminated; the others are unchanged.
pub open spec fn after_termination(s: Scheduler) -> Seq<Process> {
    match s.current() {
        Some(pid) => match s.index_of(pid) {
            Some(i) => s.procs().update(i, Process { state: ProcessState::Terminated, ..s.procs()[i] }),
            None => s.procs(),
        },
        None => s.procs(),
    }
}

pub struct Scheduler {
    processes: Vec<Process>,
    current_pid: Option<u64>,
    next_pid: u64,
}

impl Scheduler {
    pub closed spec fn procs(&self) -> Seq<Process> {
        self.processes@
    }

    pub closed spec fn current(&self) -> Option<u64> {
        self.current_pid
    }

    pub closed spec fn next_pid_value(&self) -> u64 {
        self.next_pid
    }

    /// Process ids increase with position and stay below the next id.
    pub closed spec fn wf(&self) -> bool {
        &&& self.next_pid >= 1
        &&& forall|i: int| 0 <= i < self.processes@.len() ==> (#[trigger] self.processes@[i]).pid < self.next_pid
        &&& forall|i: int, j: int|
            0 <= i < j < self.processes@.len() ==> (#[trigger] self.processes@[i]).pid
                < (#[trigger] self.processes@[j]).pid
    }

    /// Index of the process with the given id.
    pub open spec fn index_of(&self, pid: u64) -> Option<int> {
        if exists|i: int| 0 <= i < self.procs().len() && (#[trigger] self.procs()[i]).pid == pid {
            Some(choose|i: int| 0 <= i < self.procs().len() && (#[trigger] self.procs()[i]).pid == pid)
        } else {
            None
        }
    }

    /// Position of the running process, or 0 when none runs.
    pub open spec fn current_index(&self) -> int {
        match self.current() {
            Some(pid) => match self.index_of(pid) {
                Some(i) => i,
                None => 0,
            },
            None => 0,
        }
    }

    /// No process; ids start at 1.
    pub fn new() -> (r: Self)
        ensures
            r.wf(),
            r.procs().len() == 0,
            r.current() is None,
            r.next_pid_value() == 1,
    {
        Scheduler { processes: Vec::new(), current_pid: None, next_pid: 1 }
    }

    /// Adds a ready user process that will start at `entry_point` with user
    /// selectors, and returns its id.
    pub fn spawn(&mut self, entry_point: u64, page_table: u64) -> (r: u64)
        requires
            old(self).wf(),
            old(self).next_pid_value() < u64::MAX,
        ensures
            final(self).wf(),
            r == old(self).next_pid_value(),
            final(self).next_pid_value() == r + 1,
            final(self).current() == old(self).current(),
            final(self).procs().len() == old(self).procs().len() + 1,
            final(self).procs().take(old(self).procs().len() as int) == old(self).procs(),
            ({
                let p = final(self).procs().last();
                &&& p.pid == r
                &&& p.state == ProcessState::Ready
                &&& p.entry_point == entry_point
                &&& p.page_table == page_table
                &&& p.stack_pointer == USER_STACK_TOP
                &&& p.registers.rip == entry_point
                &&& p.registers.rsp == USER_STACK_TOP
                &&& p.registers.cs == USER_CODE_SELECTOR as u64
                &&& p.registers.ss == USER_DATA_SELECTOR as u64
                &&& p.registers.rflags == INITIAL_RFLAGS
            }),
    {
        let pid = self.next_pid;
        self.next_pid = self.next_pid + 1;
        let mut process = Process::new(pid, entry_point, page_table);
        process.registers.rip = entry_point;
        process.registers.rsp = process.stack_pointer;
        process.registers.cs = USER_CODE_SELECTOR as u64;
        process.registers.ss = USER_DATA_SELECTOR as u64;
        self.processes.push(process);
        proof {
            assert(self.processes@.take(old(self).processes@.len() as int) =~= old(self).processes@);
        }
        pid
    }

    /// Position of the process with id `pid`.
    fn position(&self, pid: u64) -> (r: Option<usize>)
        requires
            self.wf(),
        ensures
            r matches Some(i) ==> i < self.procs().len() && self.procs()[i as int].pid == pid,
            r is None ==> forall|i: int| 0 <= i < self.procs().len() ==> (#[trigger] self.procs()[i]).pid != pid,
            r matches Some(i) ==> self.index_of(pid) == Some(i as int),
            r is None ==> self.index_of(pid) is None,
    {
        let mut i: usize = 0;
        while i < self.processes.len()
            invariant
                self.wf(),
                i <= self.processes@.len(),
                forall|j: int| 0 <= j < i ==> (#[trigger] self.processes@[j]).pid != pid,
            decreases self.processes@.len() - i,
        {
            if self.processes[i].pid == pid {
                proof {
                    let k = choose|k: int| 0 <= k < self.procs().len() && (#[trigger] self.procs()[k]).pid == pid;
                    if k < i {
                    } else if k > i {
                        assert(self.processes@[i as int].pid < self.processes@[k].pid);
                    }
                }
                return Some(i);
            }
            i = i + 1;
        }
        None
    }

    /// The running process, if any.
    pub fn current_process(&self) -> (r: Option<&Process>)
        requires
            self.wf(),
        ensures
            r matches Some(p) ==> self.current() matches Some(pid) && self.index_of(pid) matches Some(i)
                && *p == self.procs()[i],
            r is None ==> self.current() is None || self.index_of(self.current()->0) is None,
    {
        match self.current_pid {
            None => None,
            Some(pid) => match self.position(pid) {
                Some(i) => Some(&self.processes[i]),
                None => None,
            },
        }
    }

    /// Marks the running process Terminated; the only way a process ends.
    pub fn terminate_current(&mut self)
        requires
            old(self).wf(),
        ensures
            final(self).wf(),
            final(self).current() == old(self).current(),
            final(self).next_pid_value() == old(self).next_pid_value(),
            final(self).procs().len() == old(self).procs().len(),
            final(self).procs() == after_termination(*old(self)),
    {
        if let Some(pid) = self.current_pid {
            if let Some(i) = self.position(pid) {
                let mut p = self.processes[i];
                p.state = ProcessState::Terminated;
                self.processes.set(i, p);
                proof {
                    assert forall|a: int, b: int|
                        0 <= a < b < self.processes@.len() implies (#[trigger] self.processes@[a]).pid
                            < (#[trigger] self.processes@[b]).pid by {
                        assert(old(self).processes@[a].pid < old(self).processes@[b].pid);
                    }
                }
            }
        }
    }

    /// Round robin: starting after the running process (or after the first
    /// one when none runs), the first Ready process becomes Running and
    /// current. `None` when no process is Ready.
    pub fn schedule(&mut self) -> (r: Option<u64>)
        requires
            old(self).wf(),
        ensures
            final(self).wf(),
            final(self).next_pid_value() == old(self).next_pid_value(),
            final(self).procs().len() == old(self).procs().len(),
            ({
                let n = old(self).procs().len() as int;
                let c = old(self).current_index();
                &&& r is None ==> *final(self) == *old(self) && forall|k: int|
                    0 <= k < n ==> (#[trigger] old(self).procs()[k]).state != ProcessState::Ready
                &&& r matches Some(pid) ==> exists|i: int|
                    0 <= i < n && {
                        let idx = #[trigger] rotation(c, i, n);
                        &&& old(self).procs()[idx].state == ProcessState::Ready
                        &&& forall|j: int| 0 <= j < i ==> old(self).procs()[#[trigger] rotation(c, j, n)].state
                            != ProcessState::Ready
                        &&& pid == old(self).procs()[idx].pid
                        &&& final(self).current() == Some(pid)
                        &&& final(self).procs() == old(self).procs().update(
                            idx,
                            Process { state: ProcessState::Running, ..old(self).procs()[idx] },
                        )
                    }
            }),
    {
        let n = self.processes.len();
        if n == 0 {
            return None;
        }
        let c = match self.current_pid {
            Some(pid) => match self.position(pid) {
                Some(i) => i,
                None => 0,
            },
            None => 0,
        };
        let mut i: usize = 0;
        while i < n
            invariant
                n == self.processes@.len(),
                n > 0,
                c < n,
                *self == *old(self),
                old(self).wf(),
                c == old(self).current_index(),
                i <= n,
                forall|j: int| 0 <= j < i ==> self.processes@[#[trigger] rotation(c as int, j, n as int)].state
                    != ProcessState::Ready,
            decreases n - i,
        {
            let off = i + 1;
            let idx = if c >= n - off { c - (n - off) } else { c + off };
            proof { lemma_rotation(c as int, off as int, n as int); }
            if self.processes[idx].state == ProcessState::Ready {
                let mut p = self.processes[idx];
                p.state = ProcessState::Running;
                self.processes.set(idx, p);
                self.current_pid = Some(p.pid);
                proof {
                    assert forall|a: int, b: int|
                        0 <= a < b < self.processes@.len() implies (#[trigger] self.processes@[a]).pid
                            < (#[trigger] self.processes@[b]).pid by {
                        assert(old(self).processes@[a].pid < old(self).processes@[b].pid);
                    }
                    assert(self.processes@ =~= old(self).procs().update(
                        idx as int,
                        Process { state: ProcessState::Running, ..old(self).procs()[idx as int] },
                    ));
                    assert(rotation(c as int, i as int, n as int) == idx);
                    assert(self.current() == Some(p.pid));
                }
                return Some(p.pid);
            }
            i = i + 1;
        }
        proof {
            assert forall|k: int| 0 <= k < n implies (#[trigger] old(self).procs()[k]).state != ProcessState::Ready by {
                let j = if k > c { k - c - 1 } else { k + n - c - 1 };
                lemma_rotation(c as int, j + 1, n as int);
            }
        }
        None
    }
}

} // verus!
