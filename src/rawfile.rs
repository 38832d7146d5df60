//! A raw descriptor number taken from a successful open or duplication.
use vstd::prelude::*;

verus! {

/// A descriptor number; zero is never one.
pub struct RawFile(usize);

impl View for RawFile {
    type V = usize;

    closed spec fn view(&self) -> usize {
        self.0
    }
}

impl RawFile {
    /// Wraps what an open or duplication call returned: zero means it failed,
    /// anything else is the new descriptor.
    pub fn from_result(n: i32) -> (r: Result<RawFile, ()>)
        ensures
            n == 0 <==> r is Err,
            r matches Ok(f) ==> f@ == n as usize,
    {
        if n == 0 {
            Err(())
        } else {
            Ok(RawFile(n as usize))
        }
    }

    /// The descriptor number, which stays owned by `self`.
    pub fn as_raw_fd(&self) -> (r: usize)
        ensures
            r == self@,
    {
        self.0
    }

    /// The descriptor number, handed over to the caller.
    pub fn into_raw_fd(self) -> (r: usize)
        ensures
            r == self@,
    {
        self.0
    }
}

} // verus!
