//! Kernel error codes.
//!
//! The C side reports failure as a negative number: an `int`, a pointer in the last page of the
//! address space, or the result of a file operation. This module turns each of these into an
//! [`Error`] and back.

use vstd::prelude::*;

verus! {

/// The largest error number that the kernel uses.
pub const MAX_ERRNO: i32 = 4095;

/// Bad file number.
pub const EBADF: i32 = -9;

/// Out of memory.
pub const ENOMEM: i32 = -12;

/// Bad address.
pub const EFAULT: i32 = -14;

/// Invalid argument.
pub const EINVAL: i32 = -22;

/// A kernel error code: a negative number no smaller than `-MAX_ERRNO`.
#[derive(Clone, Copy, Debug, PartialEq, Eq, Structural)]
pub struct Error {
    errno: i32,
}

/// Whether `errno` is one of the numbers that stand for an error.
pub open spec fn valid_errno(errno: int) -> bool {
    -MAX_ERRNO <= errno < 0
}

/// Whether the address `ptr` is one of the last `MAX_ERRNO` addresses, which no object occupies
/// and which the C side returns in place of a pointer when it fails.
pub open spec fn is_err_ptr(ptr: usize) -> bool {
    ptr > usize::MAX - MAX_ERRNO
}

/// The error number that the address `ptr` stands for: its distance below the end of the
/// address space, negated.
pub open spec fn ptr_errno(ptr: usize) -> int {
    ptr - usize::MAX - 1
}

impl Error {
    #[verifier::type_invariant]
    spec fn inv(self) -> bool {
        valid_errno(self.errno as int)
    }

    /// The error number, which is negative.
    pub closed spec fn errno(self) -> i32 {
        self.errno
    }

    /// The error with the number `errno`.
    pub closed spec fn of(errno: i32) -> Error {
        Error { errno }
    }

    /// Creates an [`Error`] from a number that the C side returned.
    ///
    /// A number that stands for no error is reported as `EINVAL`.
    pub fn from_errno(errno: i32) -> (error: Error)
        ensures
            error.errno() == (if valid_errno(errno as int) {
                errno
            } else {
                EINVAL
            }),
            -MAX_ERRNO <= errno < 0 ==> error.errno() == errno,
            errno < -MAX_ERRNO || errno >= 0 ==> error.errno() == EINVAL,
    {
        if errno < -MAX_ERRNO || errno >= 0 {
            Error { errno: EINVAL }
        } else {
            Error { errno }
        }
    }

    /// Returns the error number.
    pub fn to_errno(self) -> (errno: i32)
        ensures
            errno == self.errno(),
            valid_errno(errno as int),
            -MAX_ERRNO <= errno < 0,
    {
        proof {
            use_type_invariant(&self);
        }
        self.errno
    }
}

/// An error is its number: errors with the same number are equal, and every number has an error.
pub broadcast proof fn law_errno_identifies_error(error: Error, errno: i32)
    ensures
        #[trigger] error.errno() == errno <==> error == #[trigger] Error::of(errno),
{
}

/// Tells a pointer that the C side returned from an error that it encoded in one.
pub fn from_err_ptr(ptr: usize) -> (r: Result<usize, Error>)
    ensures
        is_err_ptr(ptr) <==> r is Err,
        r matches Ok(p) ==> p == ptr,
        r matches Err(error) ==> error.errno() == ptr_errno(ptr),
        r is Err <==> ptr > usize::MAX - MAX_ERRNO,
        r matches Err(error) ==> error.errno() == ptr - usize::MAX - 1,
{
    if ptr > usize::MAX - MAX_ERRNO as usize {
        Err(Error { errno: -((usize::MAX - ptr) as i32) - 1 })
    } else {
        Ok(ptr)
    }
}

/// An address is an error pointer exactly if it can be reached by counting down from the end of the
/// address space by the number of an error.
pub proof fn law_err_ptrs_are_below_the_end(ptr: usize)
    ensures
        is_err_ptr(ptr) <==> exists|errno: int|
            #![trigger valid_errno(errno)]
            valid_errno(errno) && ptr == usize::MAX + 1 + errno,
        is_err_ptr(ptr) ==> valid_errno(ptr_errno(ptr)) && ptr == usize::MAX + 1 + ptr_errno(ptr),
{
    assert(is_err_ptr(ptr) ==> valid_errno(ptr_errno(ptr)));
}

/// The error numbers are the negative numbers down to `-MAX_ERRNO`.
pub proof fn law_errnos_are_small_and_negative(errno: int)
    ensures
        valid_errno(errno) <==> 1 <= -errno <= 4095,
{
}

/// Every error number has exactly one address that stands for it, and that address is an error
/// pointer.
pub proof fn law_err_ptr_round_trip(errno: int) -> (ptr: usize)
    requires
        valid_errno(errno),
    ensures
        is_err_ptr(ptr),
        ptr_errno(ptr) == errno,
        forall|other: usize| #[trigger] ptr_errno(other) == errno ==> other == ptr,
{
    (usize::MAX + 1 + errno) as usize
}

} // verus!
