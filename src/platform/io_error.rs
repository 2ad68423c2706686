//! I/O error kinds and the platform's "unsupported" error.
use vstd::prelude::*;

verus! {

#[derive(Clone, Copy, Debug, PartialEq, Eq, Structural)]
pub enum ErrorKind {
    NotFound,
    PermissionDenied,
    WouldBlock,
    BrokenPipe,
    InvalidInput,
    UnexpectedEof,
    Unsupported,
    Uncategorized,
    Other,
}

#[derive(Clone, Copy, Debug, PartialEq, Eq, Structural)]
pub struct IoError {
    pub kind: ErrorKind,
}

pub type IoResult<T> = Result<T, IoError>;

/// The error every operation the platform lacks returns.
pub open spec fn unsupported_error() -> IoError {
    IoError { kind: ErrorKind::Unsupported }
}

/// The error of an operation the platform lacks.
pub fn unsupported_err() -> (r: IoError)
    ensures
        r == unsupported_error(),
{
    IoError { kind: ErrorKind::Unsupported }
}

/// Fails with the "unsupported" error.
pub fn unsupported<T>() -> (r: IoResult<T>)
    ensures
        r == Err::<T, IoError>(unsupported_error()),
{
    Err(unsupported_err())
}

/// The platform has no error numbers of its own: every code is
/// uncategorized.
pub fn decode_error_kind(code: i32) -> (r: ErrorKind)
    ensures
        r == ErrorKind::Uncategorized,
{
    ErrorKind::Uncategorized
}

/// Start-up hook; the platform needs no set-up.
pub fn init(argc: isize, sigpipe: u8) {
}

} // verus!
