//! Threads: the platform runs a single thread.
use vstd::prelude::*;
use crate::platform::io_error::{ErrorKind, IoError, IoResult};

verus! {

/// Stack size new threads get (2 MiB).
pub const DEFAULT_MIN_STACK_SIZE: usize = 0x20_0000;

#[derive(Clone, Copy, Debug, PartialEq, Eq, Structural)]
pub struct Thread {
    pub id: usize,
}

impl Thread {
    pub fn id(&self) -> (r: usize)
        ensures
            r == self.id,
    {
        self.id
    }
}

/// The running thread: always thread 1.
pub fn current() -> (r: Thread)
    ensures
        r.id == 1,
{
    Thread { id: 1 }
}

/// Smallest stack a thread may ask for.
pub fn min_stack() -> (r: usize)
    ensures
        r == DEFAULT_MIN_STACK_SIZE,
{
    DEFAULT_MIN_STACK_SIZE
}

/// Waking a thread has no effect: nothing ever parks for long.
pub fn unpark(thread: &Thread) {
}

/// Thread names are not kept.
pub fn set_name(name: &str) {
}

/// Thread names are not kept.
pub fn get_name() -> (r: Option<String>)
    ensures
        r is None,
{
    None
}

/// A finished thread's result, until it is joined.
pub struct JoinHandle<T> {
    pub result: Option<T>,
}

impl<T> JoinHandle<T> {
    pub fn new(result: T) -> (r: Self)
        ensures
            r.result == Some(result),
    {
        JoinHandle { result: Some(result) }
    }

    /// The thread's result; an error if it was already taken.
    pub fn join(self) -> (r: IoResult<T>)
        ensures
            match self.result {
                Some(v) => r == Ok::<T, IoError>(v),
                None => r == Err::<T, IoError>(IoError { kind: ErrorKind::Other }),
            },
    {
        match self.result {
            Some(v) => Ok(v),
            None => Err(IoError { kind: ErrorKind::Other }),
        }
    }
}

} // verus!
