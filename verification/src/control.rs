//! Mapping the failure sentinels of the OS control primitives to typed
//! errors: a signal send or a priority change reports failure through a
//! sentinel return value, and the OS error code is preserved verbatim.

use vstd::prelude::*;

use crate::errors::OsError;

verus! {

/// The return types of the OS primitives whose failure sentinel is -1.
pub trait IsMinusOne: Sized {
    spec fn spec_is_minus_one(&self) -> bool;

    fn is_minus_one(&self) -> (r: bool)
        ensures
            r == self.spec_is_minus_one(),
    ;
}

impl IsMinusOne for i8 {
    open spec fn spec_is_minus_one(&self) -> bool {
        *self == -1i8
    }

    fn is_minus_one(&self) -> (r: bool)
        ensures
            r == self.spec_is_minus_one(),
    {
        *self == -1
    }
}

impl IsMinusOne for i16 {
    open spec fn spec_is_minus_one(&self) -> bool {
        *self == -1i16
    }

    fn is_minus_one(&self) -> (r: bool)
        ensures
            r == self.spec_is_minus_one(),
    {
        *self == -1
    }
}

impl IsMinusOne for i32 {
    open spec fn spec_is_minus_one(&self) -> bool {
        *self == -1i32
    }

    fn is_minus_one(&self) -> (r: bool)
        ensures
            r == self.spec_is_minus_one(),
    {
        *self == -1
    }
}

impl IsMinusOne for i64 {
    open spec fn spec_is_minus_one(&self) -> bool {
        *self == -1i64
    }

    fn is_minus_one(&self) -> (r: bool)
        ensures
            r == self.spec_is_minus_one(),
    {
        *self == -1
    }
}

impl IsMinusOne for isize {
    open spec fn spec_is_minus_one(&self) -> bool {
        *self == -1isize
    }

    fn is_minus_one(&self) -> (r: bool)
        ensures
            r == self.spec_is_minus_one(),
    {
        *self == -1
    }
}

/// Relies on std::io::Error::last_os_error and raw_os_error: the error
/// code the most recent failing OS call left for this thread.  The code
/// depends on ambient OS state, so nothing is promised of its value.
#[verifier::external_body]
fn last_os_error_code() -> i32 {
    std::io::Error::last_os_error().raw_os_error().unwrap_or(0)
}

/// Converts the return value of an OS primitive whose failure sentinel is
/// -1: the value itself on success, or the last OS error code on failure.
pub fn cvt<T: IsMinusOne>(t: T) -> (r: Result<T, OsError>)
    ensures
        match r {
            Ok(v) => v == t && !t.spec_is_minus_one(),
            Err(_) => t.spec_is_minus_one(),
        },
{
    if t.is_minus_one() {
        Err(OsError { code: last_os_error_code() })
    } else {
        Ok(t)
    }
}

/// Converts the return value of an OS primitive that reports failure by a
/// nonzero error code of its own: the code is preserved verbatim.
pub fn cvt_nz(error: i32) -> (r: Result<(), OsError>)
    ensures
        match r {
            Ok(_) => error == 0,
            Err(e) => error != 0 && e.code == error,
        },
{
    if error == 0 {
        Ok(())
    } else {
        Err(OsError { code: error })
    }
}

/// The outcome of one signal send or priority change, given the
/// primitive's return value and the error code it left behind: failure is
/// exactly the -1 sentinel, and the code is preserved verbatim.
pub fn signal_outcome(ret: i32, err_code: i32) -> (r: Result<(), OsError>)
    ensures
        match r {
            Ok(_) => ret != -1,
            Err(e) => ret == -1 && e.code == err_code,
        },
{
    if ret == -1 {
        Err(OsError { code: err_code })
    } else {
        Ok(())
    }
}

} // verus!
