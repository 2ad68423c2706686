//! Program arguments: just the program name.
use vstd::prelude::*;

verus! {

pub struct Args {
    pub index: usize,
}

pub fn args() -> (r: Args)
    ensures
        r.index == 0,
{
    Args { index: 0 }
}

impl Args {
    /// One argument in all.
    pub fn len(&self) -> (r: usize)
        ensures
            r == 1,
    {
        1
    }

    /// `kernel`, then nothing.
    pub fn next(&mut self) -> (r: Option<String>)
        ensures
            old(self).index == 0 ==> final(self).index == 1 && (r matches Some(s) && s@ == "kernel"@),
            old(self).index != 0 ==> r is None && final(self).index == old(self).index,
    {
        if self.index == 0 {
            self.index = 1;
            Some(String::from_str("kernel"))
        } else {
            None
        }
    }
}

} // verus!
