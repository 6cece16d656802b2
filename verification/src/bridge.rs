//! Conversion between `W32Error` and the platform's generic OS-error type,
//! `std::io::Error`.
//!
//! A generic OS error may carry a raw OS error code as a signed 32-bit value.
//! The bridge reinterprets that bit pattern as this crate's unsigned code (and
//! back), never range-checking or fabricating a code: a generic error that
//! carries no code converts to an explicit failure, not to code zero.

use vstd::prelude::*;

use crate::TryFromIoError;
use crate::W32Error;

verus! {

/// `std::io::Error`, the platform's generic OS-error type, declared so that
/// values of it can cross the conversion boundary.
#[verifier::external_type_specification]
#[verifier::external_body]
pub struct ExIoError(std::io::Error);

/// The raw OS error code an `std::io::Error` carries, if any: what
/// `std::io::Error::raw_os_error` returns for it.
pub uninterp spec fn io_raw_code(e: std::io::Error) -> Option<i32>;

/// Relies on `std::io::Error::raw_os_error`: returns the raw OS code the
/// error was constructed from, or `None` where it carries none; a function of
/// the error value alone.
pub assume_specification[ std::io::Error::raw_os_error ](e: &std::io::Error) -> (r: Option<i32>)
    ensures
        r == io_raw_code(*e),
;

/// Relies on `std::io::Error::from_raw_os_error`: `raw_os_error` on the
/// result returns exactly the code given here.
pub assume_specification[ std::io::Error::from_raw_os_error ](code: i32) -> (r: std::io::Error)
    ensures
        io_raw_code(r) == Some(code),
;

/// The unsigned 32-bit value with the same bit pattern as a signed one.
pub open spec fn as_unsigned_code(code: i32) -> u32 {
    if code >= 0 {
        code as u32
    } else {
        (code as int + 0x1_0000_0000) as u32
    }
}

/// The signed 32-bit value with the same bit pattern as an unsigned one.
pub open spec fn as_signed_code(code: u32) -> i32 {
    if code <= 0x7FFF_FFFF {
        code as i32
    } else {
        (code as int - 0x1_0000_0000) as i32
    }
}

/// Bit-pattern reinterpretation is lossless: each direction undoes the other.
pub proof fn lemma_reinterpret_round_trip(u: u32, s: i32)
    ensures
        as_unsigned_code(as_signed_code(u)) == u,
        as_signed_code(as_unsigned_code(s)) == s,
{
}

fn code_as_unsigned(code: i32) -> (r: u32)
    ensures
        r == as_unsigned_code(code),
{
    if code >= 0 {
        code as u32
    } else {
        ((code as i64) + 0x1_0000_0000i64) as u32
    }
}

fn code_as_signed(code: u32) -> (r: i32)
    ensures
        r == as_signed_code(code),
{
    if code <= 0x7FFF_FFFF {
        code as i32
    } else {
        ((code as i64) - 0x1_0000_0000i64) as i32
    }
}

impl W32Error {
    /// Wraps the error code from an `std::io::Error` if it has one; the
    /// signed code is reinterpreted as the unsigned bit pattern. An error
    /// that carries no code yields `None`, never a fabricated code.
    pub fn from_io_error(other: &std::io::Error) -> (r: Option<Self>)
        ensures
            (io_raw_code(*other) matches Some(code) ==> r == Some(
                W32Error::spec_wrap(as_unsigned_code(code)),
            )),
            io_raw_code(*other) is None ==> r is None,
    {
        if let Some(code) = other.raw_os_error() {
            Some(W32Error::new(code_as_unsigned(code)))
        } else {
            None
        }
    }

    /// Constructs a generic OS error carrying this code's bit pattern as the
    /// host's signed raw-code representation; always succeeds.
    pub fn to_io_error(self) -> (r: std::io::Error)
        ensures
            io_raw_code(r) == Some(as_signed_code(self.code_spec())),
    {
        std::io::Error::from_raw_os_error(code_as_signed(self.into_inner()))
    }

    /// The same extraction as `from_io_error`, signalling a missing code with
    /// an explicit `TryFromIoError` instead of `None`.
    pub fn try_from_io_error(other: std::io::Error) -> (r: Result<Self, TryFromIoError>)
        ensures
            (io_raw_code(other) matches Some(code) ==> r == Ok::<W32Error, TryFromIoError>(
                W32Error::spec_wrap(as_unsigned_code(code)),
            )),
            io_raw_code(other) is None ==> r == Err::<W32Error, TryFromIoError>(TryFromIoError),
    {
        match Self::from_io_error(&other) {
            Some(e) => Ok(e),
            None => Err(TryFromIoError),
        }
    }
}

/// Conversion round-trip law: a generic OS error built from a wrapped code
/// carries a code that wraps back to the same `W32Error`, and a wrapped code
/// extracted from a generic OS error converts back to the same signed code.
pub proof fn lemma_conversion_round_trip(e: W32Error, c: i32)
    ensures
        W32Error::spec_wrap(as_unsigned_code(as_signed_code(e.code_spec()))) == e,
        as_signed_code(as_unsigned_code(c)) == c,
{
    lemma_reinterpret_round_trip(e.code_spec(), c);
    crate::lemma_wrap_code_identity(e);
}

} // verus!
