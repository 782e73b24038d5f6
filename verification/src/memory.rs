//! NUMA socket identifiers.
//!
//! The native runtime writes the "any socket" wish as the all-ones value;
//! here a socket identifier is known not to be that value, so "any socket"
//! is `None` instead.  The not-the-maximum guarantee is carried by the
//! `nonmax` crate's `NonMaxU32`.

use vstd::prelude::*;

verus! {

#[verifier::external_type_specification]
#[verifier::external_body]
pub struct ExNonMaxU32(nonmax::NonMaxU32);

/// The integer a `nonmax::NonMaxU32` holds: what its `get` returns.
pub uninterp spec fn nonmax_u32_value(v: nonmax::NonMaxU32) -> u32;

/// Relies on nonmax::NonMaxU32::new: `Some` exactly for values below
/// `u32::MAX`, holding the given value.
pub assume_specification[ nonmax::NonMaxU32::new ](value: u32) -> (r: Option<nonmax::NonMaxU32>)
    ensures
        r is Some <==> value != u32::MAX,
        r is Some ==> nonmax_u32_value(r->0) == value,
;

/// Relies on nonmax::NonMaxU32::get: returns the value the number was
/// created from, always below `u32::MAX`.
pub assume_specification[ nonmax::NonMaxU32::get ](v: &nonmax::NonMaxU32) -> (r: u32)
    ensures
        r == nonmax_u32_value(*v),
        r != u32::MAX,
;

/// A NUMA socket identifier, known not to be the native "any socket"
/// marker value.
pub struct SocketId(nonmax::NonMaxU32);

impl View for SocketId {
    type V = u32;

    closed spec fn view(&self) -> u32 {
        nonmax_u32_value(self.0)
    }
}

impl SocketId {
    /// Wraps a raw socket number; `None` for the native "any socket"
    /// marker (the all-ones value).
    pub fn new(id: u32) -> (r: Option<SocketId>)
        ensures
            r is Some <==> id != u32::MAX,
            r is Some ==> r->0@ == id,
    {
        match nonmax::NonMaxU32::new(id) {
            Some(v) => Some(SocketId(v)),
            None => None,
        }
    }

    /// The raw socket number.
    pub fn get(&self) -> (r: u32)
        ensures
            r == self@,
            r != u32::MAX,
    {
        self.0.get()
    }
}

} // verus!
