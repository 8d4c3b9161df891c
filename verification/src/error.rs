//! Typed errors and the numeric status encoding shared with the system
//! interface.
//!
//! Every primitive of the system interface reports failure as a small errno.
//! A child process that fails during setup encodes that errno into its exit
//! status (the only channel back to the parent); the parent decodes it again.
//! The encoding and decoding are done by the `syscall` crate and are given
//! exact specifications here.

use vstd::prelude::*;

verus! {

/// Operation not permitted.
pub const EPERM: i32 = 1;
/// No such file or directory.
pub const ENOENT: i32 = 2;
/// Permission denied.
pub const EACCES: i32 = 13;
/// Invalid argument.
pub const EINVAL: i32 = 22;
/// Transport endpoint is not connected.
pub const ENOTCONN: i32 = 107;

/// Number of entries in the system interface's errno table: a status decodes
/// to an errno exactly when that errno lies in `1 .. ERRNO_TABLE_LEN`.
pub const ERRNO_TABLE_LEN: i32 = 132;

/// The error taxonomy of this library.
///
/// Every raw errno of the system interface maps to exactly one variant.
/// `Unsupported` marks an operation with no backing primitive; it is never a
/// silent no-op. `SpawnSetupFailed` carries the errno that a child process
/// reported through its exit status before it could load its program image.
#[derive(Clone, Copy, PartialEq, Eq, Structural, Debug)]
pub enum Error {
    NotFound,
    PermissionDenied,
    InvalidInput,
    Unsupported,
    SpawnSetupFailed(i32),
    Other(i32),
}

pub open spec fn spec_from_errno(errno: i32) -> Error {
    if errno == ENOENT {
        Error::NotFound
    } else if errno == EACCES {
        Error::PermissionDenied
    } else if errno == EINVAL {
        Error::InvalidInput
    } else {
        Error::Other(errno)
    }
}

/// Map a raw errno of the system interface to its typed error.
pub fn from_errno(errno: i32) -> (r: Error)
    ensures
        r == spec_from_errno(errno),
{
    if errno == ENOENT {
        Error::NotFound
    } else if errno == EACCES {
        Error::PermissionDenied
    } else if errno == EINVAL {
        Error::InvalidInput
    } else {
        Error::Other(errno)
    }
}

/// What `syscall::Error::mux` returns: a success value passes through, an
/// errno is encoded as its two's-complement negation.
pub open spec fn spec_mux(r: Result<usize, i32>) -> usize
    recommends
        r matches Err(e) ==> 1 <= e < ERRNO_TABLE_LEN,
{
    match r {
        Ok(v) => v,
        Err(e) => (usize::MAX as int - e + 1) as usize,
    }
}

/// What `syscall::Error::demux` returns: a status whose low 32 bits fall in
/// the errno band `[2^32 - (ERRNO_TABLE_LEN - 1), 2^32 - 1]` decodes to that
/// errno; every other status is a success value.
pub open spec fn spec_demux(status: usize) -> Result<usize, i32> {
    let low = status as int % 0x1_0000_0000;
    if low >= 0x1_0000_0000 - (ERRNO_TABLE_LEN - 1) {
        Err((0x1_0000_0000 - low) as i32)
    } else {
        Ok(status)
    }
}

/// Relies on `syscall::Error::mux`: `Ok(value)` is returned as `value`, and
/// `Err(error)` as `-error.errno as usize`. The requires keeps the errno in
/// the table's band, the only values the decoder recognises.
#[verifier::external_body]
pub(crate) fn mux_status(r: Result<usize, i32>) -> (s: usize)
    requires
        r matches Err(e) ==> 1 <= e < ERRNO_TABLE_LEN,
    ensures
        s == spec_mux(r),
{
    syscall::Error::mux(match r {
        Ok(v) => Ok(v),
        Err(e) => Err(syscall::Error { errno: e }),
    })
}

/// Relies on `syscall::Error::demux`: it negates the status read as an `i32`
/// (so only the low 32 bits matter) and reports an error exactly when that
/// negation lies in `1 .. STR_ERROR.len()`, with `STR_ERROR.len() == 132`.
/// The requires excludes the one status whose negation overflows `i32`.
#[verifier::external_body]
pub(crate) fn demux_status(status: usize) -> (r: Result<usize, i32>)
    requires
        status as int % 0x1_0000_0000 != 0x8000_0000,
    ensures
        r == spec_demux(status),
{
    match syscall::Error::demux(status) {
        Ok(v) => Ok(v),
        Err(e) => Err(e.errno),
    }
}

/// Encoding an errno for a child's exit status and decoding it in the parent
/// round-trips: the parent recovers exactly the errno the child reported.
pub proof fn lemma_status_round_trip(e: i32)
    requires
        1 <= e < ERRNO_TABLE_LEN,
    ensures
        spec_demux(spec_mux(Err(e))) == Result::<usize, i32>::Err(e),
{
    let m = usize::MAX as int + 1;
    let s = spec_mux(Err(e));
    assert(s as int == m - e);
    let q = if m == 0x1_0000_0000 {
        0int
    } else {
        0xFFFF_FFFFint
    };
    assert(m - e == q * 0x1_0000_0000 + (0x1_0000_0000 - e));
    vstd::arithmetic::div_mod::lemma_fundamental_div_mod_converse(
        m - e,
        0x1_0000_0000,
        q,
        0x1_0000_0000 - e,
    );
}

} // verus!
