//! Standard streams: input is always empty; output goes to the serial line
//! outside the library.
use vstd::prelude::*;
use crate::platform::io_error::IoError;

verus! {

#[derive(Clone, Copy, Debug, PartialEq, Eq, Structural)]
pub struct Stdin;

#[derive(Clone, Copy, Debug, PartialEq, Eq, Structural)]
pub struct Stdout;

#[derive(Clone, Copy, Debug, PartialEq, Eq, Structural)]
pub struct Stderr;

impl Stdin {
    pub fn new() -> (r: Stdin)
        ensures
            r == Stdin,
    {
        Stdin
    }
}

impl Stdout {
    pub fn new() -> (r: Stdout)
        ensures
            r == Stdout,
    {
        Stdout
    }
}

impl Stderr {
    pub fn new() -> (r: Stderr)
        ensures
            r == Stderr,
    {
        Stderr
    }
}

/// No error means a bad descriptor.
pub fn is_ebadf(err: &IoError) -> (r: bool)
    ensures
        !r,
{
    false
}

/// Panic messages go to standard error.
pub fn panic_output() -> (r: Option<Stderr>)
    ensures
        r == Some(Stderr),
{
    Some(Stderr::new())
}

} // verus!
