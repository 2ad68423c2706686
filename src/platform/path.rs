//! Path syntax: `/` separates components; there are no prefixes.
use vstd::prelude::*;

verus! {

pub const MAIN_SEP: char = '/';

pub fn is_sep_byte(b: u8) -> (r: bool)
    ensures
        r == (b == 0x2f),
{
    b == 0x2f
}

pub fn is_verbatim_sep(b: u8) -> (r: bool)
    ensures
        r == (b == 0x2f),
{
    b == 0x2f
}

/// Paths never start with a prefix.
pub fn parse_prefix(path: &str) -> (r: Option<()>)
    ensures
        r is None,
{
    None
}

} // verus!
