//! Environment: no variables, fixed directories and process id.
use vstd::prelude::*;
use crate::platform::io_error::{IoError, IoResult};

verus! {

/// The (empty) list of environment variables.
pub struct Env {
    pub remaining: usize,
}

impl Env {
    /// The next variable: there are none.
    pub fn next(&mut self) -> (r: Option<(String, String)>)
        ensures
            r is None,
    {
        None
    }
}

pub fn env() -> (r: Env)
    ensures
        r.remaining == 0,
{
    Env { remaining: 0 }
}

/// No variable is set.
pub fn getenv(key: &str) -> (r: Option<String>)
    ensures
        r is None,
{
    None
}

/// Accepted and ignored.
pub fn setenv(key: &str, value: &str) -> (r: IoResult<()>)
    ensures
        r == Ok::<(), IoError>(()),
{
    Ok(())
}

/// Accepted and ignored.
pub fn unsetenv(key: &str) -> (r: IoResult<()>)
    ensures
        r == Ok::<(), IoError>(()),
{
    Ok(())
}

/// `/tmp`.
pub fn temp_dir() -> (r: String)
    ensures
        r@ == "/tmp"@,
{
    String::from_str("/tmp")
}

/// `/`.
pub fn home_dir() -> (r: Option<String>)
    ensures
        r matches Some(s) && s@ == "/"@,
{
    Some(String::from_str("/"))
}

/// The kernel runs as process 1.
pub fn getpid() -> (r: u32)
    ensures
        r == 1,
{
    1
}

/// `/kernel`.
pub fn current_exe() -> (r: IoResult<String>)
    ensures
        r matches Ok(s) && s@ == "/kernel"@,
{
    Ok(String::from_str("/kernel"))
}

} // verus!
