//! Validity of raw Windows handles.
//!
//! A `HANDLE` is carried here by its integer value. The operating system
//! reports failure either with a null handle or with `INVALID_HANDLE_VALUE`
//! (all bits set), depending on the function that produced it.
use vstd::prelude::*;

verus! {

/// `INVALID_HANDLE_VALUE`, taken as a signed integer.
pub const INVALID_HANDLE_VALUE: isize = -1isize;

/// The null handle.
pub const NULL_HANDLE: isize = 0isize;

/// A handle obtained from the operating system that is known not to be
/// `INVALID_HANDLE_VALUE`.
///
/// Closing the handle is left to whoever performs the system calls: the
/// library only decides which raw values may be kept.
pub struct SafeHandle {
    handle: isize,
}

impl View for SafeHandle {
    type V = isize;

    closed spec fn view(&self) -> isize {
        self.handle
    }
}

impl SafeHandle {
    #[verifier::type_invariant]
    spec fn not_invalid(self) -> bool {
        self.handle != INVALID_HANDLE_VALUE
    }

    /// Wraps a handle where null **or** `INVALID_HANDLE_VALUE` means failure.
    pub fn from_raw(handle: isize) -> (r: Option<SafeHandle>)
        ensures
            r is Some <==> (handle != NULL_HANDLE && handle != INVALID_HANDLE_VALUE),
            r matches Some(h) ==> h@ == handle,
    {
        if handle == NULL_HANDLE || handle == INVALID_HANDLE_VALUE {
            None
        } else {
            Some(SafeHandle { handle })
        }
    }

    /// Wraps a handle where only `INVALID_HANDLE_VALUE` means failure, as for
    /// the handles that `CreateFileW` returns.
    pub fn from_raw_file(handle: isize) -> (r: Option<SafeHandle>)
        ensures
            r is Some <==> handle != INVALID_HANDLE_VALUE,
            r matches Some(h) ==> h@ == handle,
    {
        if handle == INVALID_HANDLE_VALUE {
            None
        } else {
            Some(SafeHandle { handle })
        }
    }

    /// The raw value of the handle.
    pub fn raw(&self) -> (r: isize)
        ensures
            r == self@,
            r != INVALID_HANDLE_VALUE,
    {
        proof {
            use_type_invariant(self);
        }
        self.handle
    }
}

} // verus!
