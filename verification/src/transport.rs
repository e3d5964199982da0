//! The decisions of the capture transport. The system calls themselves are
//! made by the caller, who hands in what they returned.

use vstd::prelude::*;
use crate::errors::OsError;
use crate::packet_memory::BufferPool;

verus! {

/// What a system call that returned `ret`, with the error number `errno`
/// set, means to the caller: a negative value is a failure with that error
/// number, any other value the number of bytes that were moved.
pub open spec fn spec_syscall_result(ret: isize, errno: i32) -> Result<usize, OsError> {
    if ret < 0 {
        Err(OsError { errno })
    } else {
        Ok(ret as usize)
    }
}

/// Turns the return value of a send or receive call, and the error number
/// that was set when it returned, into the number of bytes or the failure.
pub fn syscall_result(ret: isize, errno: i32) -> (r: Result<usize, OsError>)
    ensures
        r == spec_syscall_result(ret, errno),
{
    if ret < 0 {
        Err(OsError { errno })
    } else {
        Ok(ret as usize)
    }
}

/// Ends a receive for which `buffer` was borrowed from `pool`. After a
/// receive that filled it, the buffer goes to the caller with the number of
/// bytes received, and the pool stays as it is; after a failed one the
/// buffer goes back to the pool.
pub fn finish_recv(pool: &mut BufferPool, buffer: Vec<u8>, outcome: Result<usize, OsError>) -> (r:
    Result<(usize, Vec<u8>), OsError>)
    ensures
        match outcome {
            Ok(received) => r == Ok::<_, OsError>((received, buffer)) && final(pool)@ == old(
                pool,
            )@,
            Err(e) => r == Err::<(usize, Vec<u8>), _>(e) && final(pool)@ == old(pool)@.take_back(
                buffer@,
            ),
        },
{
    match outcome {
        Ok(received) => Ok((received, buffer)),
        Err(e) => {
            pool.give_back(buffer);
            Err(e)
        },
    }
}

} // verus!
