//! Error numbers of the underlying system calls.
use vstd::prelude::*;
use crate::platform::io_error::ErrorKind;

verus! {

pub const ERROR_NO_MEM: i32 = 12;

/// The kind of a raw error number.
pub fn decode_error_kind(errno: i32) -> (r: ErrorKind)
    ensures
        r == (if errno == 1 {
            ErrorKind::PermissionDenied
        } else if errno == 2 {
            ErrorKind::NotFound
        } else if errno == 11 {
            ErrorKind::WouldBlock
        } else if errno == 32 {
            ErrorKind::BrokenPipe
        } else {
            ErrorKind::Uncategorized
        }),
{
    match errno {
        1 => ErrorKind::PermissionDenied,
        2 => ErrorKind::NotFound,
        11 => ErrorKind::WouldBlock,
        32 => ErrorKind::BrokenPipe,
        _ => ErrorKind::Uncategorized,
    }
}

/// The same text for every number.
pub fn error_string(errno: i32) -> (r: String)
    ensures
        r@ == "OS error"@,
{
    String::from_str("OS error")
}

} // verus!
