//! Child processes: commands can be described but not started.
use vstd::prelude::*;

verus! {

pub struct Command {
    pub program: String,
}

/// How a child's standard stream is connected.
#[derive(Clone, Copy, Debug, PartialEq, Eq, Structural)]
pub struct Stdio;

impl Stdio {
    pub fn piped() -> (r: Stdio)
        ensures
            r == Stdio,
    {
        Stdio
    }

    pub fn inherit() -> (r: Stdio)
        ensures
            r == Stdio,
    {
        Stdio
    }

    pub fn null() -> (r: Stdio)
        ensures
            r == Stdio,
    {
        Stdio
    }
}

impl Command {
    pub fn new(program: &str) -> (r: Command)
        ensures
            r.program@ == program@,
    {
        Command { program: String::from_str(program) }
    }

    /// Arguments are not recorded.
    pub fn arg(&mut self, arg: &str)
        ensures
            final(self).program@ == old(self).program@,
    {
    }

    /// Variables are not recorded.
    pub fn env(&mut self, key: &str, val: &str)
        ensures
            final(self).program@ == old(self).program@,
    {
    }

    /// The directory is not recorded.
    pub fn cwd(&mut self, dir: &str)
        ensures
            final(self).program@ == old(self).program@,
    {
    }

    pub fn stdin(&mut self, stdin: Stdio)
        ensures
            final(self).program@ == old(self).program@,
    {
    }

    pub fn stdout(&mut self, stdout: Stdio)
        ensures
            final(self).program@ == old(self).program@,
    {
    }

    pub fn stderr(&mut self, stderr: Stdio)
        ensures
            final(self).program@ == old(self).program@,
    {
    }
}

#[derive(Clone, Copy, Debug, PartialEq, Eq, Structural)]
pub struct ExitStatus {
    pub code: i32,
}

impl ExitStatus {
    /// Exit code 0.
    pub fn success(&self) -> (r: bool)
        ensures
            r == (self.code == 0),
    {
        self.code == 0
    }

    pub fn code(&self) -> (r: Option<i32>)
        ensures
            r == Some(self.code),
    {
        Some(self.code)
    }
}

} // verus!
