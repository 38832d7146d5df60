//! The single machine word in which a fork's result crosses the register
//! trampoline: a value as itself, an error as its negated number.
use vstd::prelude::*;

use crate::error::CloneError;

verus! {

/// Error number for a malformed record.
pub const EINVAL: i32 = 22;
/// Error number for a record longer than its buffer.
pub const ENAMETOOLONG: i32 = 36;
/// Error numbers below this bound are read back as errors from a packed word.
pub const ERRNO_LIMIT: i32 = 132;

pub open spec fn errno_of(e: CloneError) -> i32 {
    match e {
        CloneError::Invalid => EINVAL,
        CloneError::NameTooLong => ENAMETOOLONG,
        CloneError::Sys(n) => n,
    }
}

/// A result packed into one word: a value as itself, an error number `n` as `-n`.
pub open spec fn packed(r: Result<usize, i32>) -> usize {
    match r {
        Ok(v) => v,
        Err(n) => (-n) as i32 as usize,
    }
}

/// A packed word read back: a word whose low half is `-n` for an error
/// number `n` in `1..ERRNO_LIMIT` is that error, any other word a value.
pub open spec fn unpacked(w: usize) -> Result<usize, i32> {
    let n = -((w as i32) as int);
    if 1 <= n < ERRNO_LIMIT {
        Err(n as i32)
    } else {
        Ok(w)
    }
}

/// Relies on `syscall::Error::mux` of redox_syscall: `Ok(v)` gives `v`,
/// an error with number `n` gives `-n` as a word.
#[verifier::external_body]
fn mux_word(r: Result<usize, i32>) -> (w: usize)
    requires
        r matches Err(n) ==> n != i32::MIN,
    ensures
        w == packed(r),
{
    syscall::Error::mux(r.map_err(syscall::Error::new))
}

/// Relies on `syscall::Error::demux` of redox_syscall: a word whose low half
/// negated is in `1..132` is that error number, any other word a value.
#[verifier::external_body]
fn demux_word(w: usize) -> (r: Result<usize, i32>)
    requires
        (w as i32) != i32::MIN,
    ensures
        r == unpacked(w),
{
    syscall::Error::demux(w).map_err(|e| e.errno)
}

/// The error number that stands for `e`.
pub fn error_number(e: CloneError) -> (n: i32)
    ensures
        n == errno_of(e),
{
    match e {
        CloneError::Invalid => EINVAL,
        CloneError::NameTooLong => ENAMETOOLONG,
        CloneError::Sys(n) => n,
    }
}

/// Packs the result of a fork into the word the trampoline returns.
pub fn pack_result(r: Result<usize, CloneError>) -> (w: usize)
    requires
        r matches Err(e) ==> errno_of(e) != i32::MIN,
    ensures
        w == packed(
            match r {
                Ok(v) => Ok(v),
                Err(e) => Err(errno_of(e)),
            },
        ),
{
    match r {
        Ok(v) => mux_word(Ok(v)),
        Err(e) => mux_word(Err(error_number(e))),
    }
}

/// Reads back the word the trampoline returned.
pub fn unpack_result(w: usize) -> (r: Result<usize, i32>)
    ensures
        r == unpacked(w),
{
    if (w as i32) == i32::MIN {
        proof {
            assert(-((w as i32) as int) >= ERRNO_LIMIT);
        }
        Ok(w)
    } else {
        demux_word(w)
    }
}

/// The new context's own side of a fork returns the word zero, which reads
/// back as success with value zero.
pub proof fn lemma_child_reads_zero()
    ensures
        unpacked(0) == Ok::<usize, i32>(0),
{
    assert((0usize as i32) == 0i32) by (bit_vector);
}

/// Packing then unpacking gives the result back, for values that do not look
/// like errors and for error numbers in `1..ERRNO_LIMIT`.
pub proof fn lemma_pack_round_trip(r: Result<usize, i32>)
    requires
        match r {
            Ok(v) => unpacked(v) is Ok,
            Err(n) => 1 <= n < ERRNO_LIMIT,
        },
    ensures
        unpacked(packed(r)) == r,
{
    match r {
        Ok(v) => {},
        Err(n) => {
            let m: i32 = (-n) as i32;
            assert(((m as usize) as i32) == m) by (bit_vector);
            assert(packed(r) == m as usize);
        },
    }
}

} // verus!
