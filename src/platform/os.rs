//! Search paths and OS error numbers.
use vstd::prelude::*;
use crate::platform::env;

verus! {

/// The paths of a search list; the platform treats the whole list as one
/// path.
pub struct SplitPaths {
    pub inner: String,
    pub done: bool,
}

impl SplitPaths {
    /// The whole list once, if it is not empty.
    pub fn next(&mut self) -> (r: Option<String>)
        ensures
            old(self).done || old(self).inner@.len() == 0 ==> r is None,
            !old(self).done && old(self).inner@.len() > 0 ==> (r matches Some(s) && s@ == old(self).inner@),
            final(self).done == (old(self).done || old(self).inner@.len() > 0),
            final(self).inner@ == old(self).inner@,
    {
        if self.done || self.inner.unicode_len() == 0 {
            return None;
        }
        self.done = true;
        Some(self.inner.clone())
    }
}

pub fn split_paths(unparsed: &str) -> (r: SplitPaths)
    ensures
        r.inner@ == unparsed@,
        !r.done,
{
    SplitPaths { inner: String::from_str(unparsed), done: false }
}

/// Joining search paths cannot fail here; the type exists for the
/// interface.
#[derive(Clone, Copy, Debug, PartialEq, Eq, Structural)]
pub struct JoinPathsError;

/// The paths separated by `:`.
pub open spec fn joined(paths: Seq<Seq<char>>) -> Seq<char>
    decreases paths.len(),
{
    if paths.len() == 0 {
        Seq::empty()
    } else if paths.len() == 1 {
        paths[0]
    } else {
        joined(paths.drop_last()) + seq![':'] + paths.last()
    }
}

/// The paths joined with `:`.
pub fn join_paths(paths: &Vec<String>) -> (r: Result<String, JoinPathsError>)
    ensures
        r matches Ok(s) && s@ == joined(paths@.map_values(|p: String| p@)),
{
    let mut out: Vec<char> = Vec::new();
    let mut i: usize = 0;
    while i < paths.len()
        invariant
            i <= paths@.len(),
            out@ == joined(paths@.subrange(0, i as int).map_values(|p: String| p@)),
        decreases paths@.len() - i,
    {
        if i > 0 {
            out.push(':');
        }
        crate::text::append_chars(&mut out, paths[i].as_str());
        proof {
            let next = paths@.subrange(0, i + 1).map_values(|p: String| p@);
            assert(next.drop_last() =~= paths@.subrange(0, i as int).map_values(|p: String| p@));
            assert(out@ =~= joined(next));
        }
        i = i + 1;
    }
    assert(paths@.subrange(0, paths@.len() as int) =~= paths@);
    Ok(crate::text::vec_to_string(&out))
}

pub fn home_dir() -> (r: Option<String>)
    ensures
        r matches Some(s) && s@ == "/"@,
{
    env::home_dir()
}

pub fn temp_dir() -> (r: String)
    ensures
        r@ == "/tmp"@,
{
    env::temp_dir()
}

/// There are no error numbers.
pub fn errno() -> (r: i32)
    ensures
        r == 0,
{
    0
}

/// No error number means an interrupted call.
pub fn is_interrupted(errno: i32) -> (r: bool)
    ensures
        !r,
{
    false
}

/// `error code N`.
pub fn error_string(errno: i32) -> (r: String)
    ensures
        errno >= 0 ==> r@ == "error code "@ + crate::text::decimal_text(errno as nat),
        errno < 0 ==> r@ == "error code -"@ + crate::text::decimal_text((-errno) as nat),
{
    let mut out: Vec<char> = Vec::new();
    crate::text::append_chars(&mut out, "error code ");
    if errno >= 0 {
        crate::text::push_decimal(&mut out, errno as u64);
    } else {
        out.push('-');
        crate::text::push_decimal(&mut out, (-(errno as i64)) as u64);
    }
    assert(errno < 0 ==> out@ =~= "error code -"@ + crate::text::decimal_text((-errno) as nat)) by {
        if errno < 0 {
            assert("error code "@ + seq!['-'] =~= "error code -"@) by {
                reveal_strlit("error code ");
                reveal_strlit("error code -");
            }
        }
    }
    crate::text::vec_to_string(&out)
}

} // verus!
