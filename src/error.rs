use vstd::prelude::*;

verus! {

/// Why a duplication step failed.
#[derive(Clone, Copy, Debug, PartialEq, Eq, Structural)]
pub enum CloneError {
    /// A record read back from the kernel has the wrong format (`EINVAL`).
    Invalid,
    /// More bytes came back than the buffer bound allows (`ENAMETOOLONG`).
    NameTooLong,
    /// The underlying resource operation failed with this error number.
    Sys(i32),
}

} // verus!
