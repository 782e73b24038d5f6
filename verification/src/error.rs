//! Typed errors for calls into the native runtime.
//!
//! The native library reports failure through negative integer return values
//! and through a per-thread error number.  This module turns that convention
//! into a typed `Result`: a non-negative return is success (and may itself be
//! a meaningful count), a negative return is a failure carrying `-value` as
//! its error code.

use vstd::prelude::*;

verus! {

/// The error number a pool allocation reports when no free slot remains.
pub const ENOENT: i32 = 2;

/// The error number reported when a buffer's spare capacity cannot hold a
/// requested write.
pub const ENOSPC: i32 = 28;

/// The error number a launch reports when the target core is not available
/// for dispatch.
pub const EBUSY: i32 = 16;

/// The error number reported for an argument that is out of range.
pub const EINVAL: i32 = 22;

/// Error returned from a call into the native runtime, carrying the positive
/// error code.
#[derive(Clone, Copy, PartialEq, Eq, Structural, Debug, Hash)]
pub struct Error(pub i32);

impl Error {
    /// The positive error code this error carries.
    pub fn code(&self) -> (c: i32)
        ensures
            c == self.0,
    {
        self.0
    }
}

/// Trait for checking the return value of a call into the native runtime.
pub trait ReturnValue: Sized {
    /// The value carried on success.
    type Ok;

    /// Whether this return value signals success.
    spec fn spec_is_ok(self) -> bool;

    /// The success value this return value carries, meaningful when
    /// `spec_is_ok` holds.
    spec fn spec_ok_value(self) -> Self::Ok;

    /// The error this return value carries, meaningful when `spec_is_ok`
    /// does not hold.
    spec fn spec_err_value(self) -> Error;

    /// The return values whose error code can be represented; the native
    /// convention never produces a value outside this set.
    spec fn spec_representable(self) -> bool;

    /// Turns the raw return value into a typed `Result`.
    fn rte_ok(self) -> (r: Result<Self::Ok, Error>)
        requires
            self.spec_representable(),
        ensures
            self.spec_is_ok() ==> r == Result::<Self::Ok, Error>::Ok(self.spec_ok_value()),
            !self.spec_is_ok() ==> r == Result::<Self::Ok, Error>::Err(self.spec_err_value()),
    ;
}

/// A non-negative integer return is success; a negative return carries
/// `-value` as its error code.
impl ReturnValue for i32 {
    type Ok = i32;

    open spec fn spec_is_ok(self) -> bool {
        self >= 0
    }

    open spec fn spec_ok_value(self) -> i32 {
        self
    }

    open spec fn spec_err_value(self) -> Error {
        Error((-(self as int)) as i32)
    }

    open spec fn spec_representable(self) -> bool {
        self > i32::MIN
    }

    fn rte_ok(self) -> (r: Result<i32, Error>) {
        if self >= 0 {
            Ok(self)
        } else {
            Err(Error(0 - self))
        }
    }
}

} // verus!
