//! The result convention of the raw kernel-call primitive: after the
//! kernel-entry instruction returns, an architecture flag tells failure from
//! success; on failure the first result register carries the error code, on
//! success the two result registers carry the dual-value result.

use vstd::prelude::*;

verus! {

/// An errno-style error code, as the kernel returns it.
pub type Errno = i64;

/// Turns the raw register values of a kernel call into its typed result:
/// a set carry flag means failure with the code in the first register; a
/// clear flag means success with both result registers.
pub fn syscall_result(r0: i64, r1: i64, err: i64) -> (r: Result<(i64, i64), Errno>)
    ensures
        err != 0 ==> r == Err::<(i64, i64), Errno>(r0),
        err == 0 ==> r == Ok::<(i64, i64), Errno>((r0, r1)),
{
    if err != 0 {
        Err(r0)
    } else {
        Ok((r0, r1))
    }
}

} // verus!
