//! Wrapping and rendering of Windows API error codes.
//!
//! A [`W32Error`] wraps a raw `DWORD` error code. The code can be compared,
//! ordered and hashed structurally, rendered as a human-readable message
//! (given the UTF-16 text that the system message facility produced for it,
//! with a fixed hexadecimal fallback when the facility fails), and converted
//! to or from `std::io::Error`.

use vstd::prelude::*;
use vstd::std_specs::cmp::PartialOrdSpec;

pub mod bridge;
pub mod render;

verus! {

/// A Windows API error: a raw 32-bit error code.
#[derive(Clone, Copy, Debug, PartialEq, Eq, Ord, Hash, Structural)]
#[must_use]
pub struct W32Error(u32);

/// A failure to convert an `std::io::Error` into a `W32Error`: the given
/// error carried no raw OS error code.
#[derive(Clone, Copy, Debug, PartialEq, Eq, PartialOrd, Ord, Hash, Structural)]
#[must_use]
pub struct TryFromIoError;

impl W32Error {
    /// The wrapped raw error code.
    pub closed spec fn code_spec(self) -> u32 {
        self.0
    }

    /// The `W32Error` wrapping a given raw code.
    pub closed spec fn spec_wrap(code: u32) -> W32Error {
        W32Error(code)
    }

    /// Wraps an arbitrary error code.
    pub fn new(code: u32) -> (r: Self)
        ensures
            r == W32Error::spec_wrap(code),
            r.code_spec() == code,
    {
        W32Error(code)
    }

    /// Returns the underlying error code wrapped by a `W32Error`.
    pub fn into_inner(self) -> (r: u32)
        ensures
            r == self.code_spec(),
    {
        self.0
    }
}

impl core::cmp::PartialOrd for W32Error {
    fn partial_cmp(&self, other: &Self) -> (r: Option<core::cmp::Ordering>) {
        if self.0 < other.0 {
            Some(core::cmp::Ordering::Less)
        } else if self.0 == other.0 {
            Some(core::cmp::Ordering::Equal)
        } else {
            Some(core::cmp::Ordering::Greater)
        }
    }
}

impl vstd::std_specs::cmp::PartialOrdSpecImpl for W32Error {
    open spec fn obeys_partial_cmp_spec() -> bool {
        true
    }

    open spec fn partial_cmp_spec(&self, other: &Self) -> Option<core::cmp::Ordering> {
        if self.code_spec() < other.code_spec() {
            Some(core::cmp::Ordering::Less)
        } else if self.code_spec() == other.code_spec() {
            Some(core::cmp::Ordering::Equal)
        } else {
            Some(core::cmp::Ordering::Greater)
        }
    }
}

/// Ordering of wrapped values is the ordering of their raw codes.
pub proof fn lemma_order_matches_raw_codes(a: W32Error, b: W32Error)
    ensures
        a.partial_cmp_spec(&b) == Some(core::cmp::Ordering::Less) <==> a.code_spec()
            < b.code_spec(),
        a.partial_cmp_spec(&b) == Some(core::cmp::Ordering::Equal) <==> a.code_spec()
            == b.code_spec(),
        a.partial_cmp_spec(&b) == Some(core::cmp::Ordering::Greater) <==> a.code_spec()
            > b.code_spec(),
{
}

/// Wrapping a raw code stores it verbatim: reading the code back from the
/// wrapped value yields the code the value was built from.
pub proof fn lemma_wrap_round_trip(v: u32)
    ensures
        W32Error::spec_wrap(v).code_spec() == v,
{
}

/// Two wrapped values are equal exactly when their raw codes are equal.
pub proof fn lemma_wrap_eq_iff(v1: u32, v2: u32)
    ensures
        W32Error::spec_wrap(v1) == W32Error::spec_wrap(v2) <==> v1 == v2,
{
    assert(W32Error::spec_wrap(v1).code_spec() == v1);
    assert(W32Error::spec_wrap(v2).code_spec() == v2);
}

/// A `W32Error` is nothing but its wrapped code: wrapping the code read from
/// a value yields that value again.
pub proof fn lemma_wrap_code_identity(e: W32Error)
    ensures
        W32Error::spec_wrap(e.code_spec()) == e,
{
}

impl core::convert::From<u32> for W32Error {
    /// Wraps an arbitrary error code.
    fn from(other: u32) -> (r: Self) {
        W32Error::new(other)
    }
}

impl vstd::std_specs::convert::FromSpecImpl<u32> for W32Error {
    open spec fn obeys_from_spec() -> bool {
        true
    }

    open spec fn from_spec(t: u32) -> Self {
        W32Error::spec_wrap(t)
    }
}

impl core::convert::From<W32Error> for u32 {
    /// Returns the underlying error code wrapped by a `W32Error`.
    fn from(other: W32Error) -> (r: u32) {
        other.into_inner()
    }
}

impl vstd::std_specs::convert::FromSpecImpl<W32Error> for u32 {
    open spec fn obeys_from_spec() -> bool {
        true
    }

    open spec fn from_spec(t: W32Error) -> u32 {
        t.code_spec()
    }
}

impl TryFromIoError {
    /// The diagnostic text for this conversion failure.
    pub fn message(&self) -> (r: &'static str)
        ensures
            r@ == "the given `io::Error` did not contain a Windows API error code"@,
    {
        "the given `io::Error` did not contain a Windows API error code"
    }
}

} // verus!
