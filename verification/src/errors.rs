//! Error taxonomy shared across the driver.
//!
//! Each kind carries a human-readable message and maps to a stable small
//! integer code, used to convey the kind across the foreign-ABI boundary.

use vstd::prelude::*;

verus! {

/// The stable error kinds of the driver.
#[derive(Clone, Copy, Debug, PartialEq, Eq, Structural)]
pub enum ErrorKind {
    ParameterOutOfBounds,
    FailedAssertion,
    ParseError,
    HalError,
    TimedOut,
    Generic,
}

impl ErrorKind {
    /// The stable numeric code of this kind.
    pub open spec fn spec_code(self) -> u8 {
        match self {
            ErrorKind::ParameterOutOfBounds => 0x00,
            ErrorKind::FailedAssertion => 0x01,
            ErrorKind::ParseError => 0x02,
            ErrorKind::HalError => 0x03,
            ErrorKind::TimedOut => 0xFE,
            ErrorKind::Generic => 0xFF,
        }
    }

    pub fn code(self) -> (r: u8)
        ensures
            r == self.spec_code(),
    {
        match self {
            ErrorKind::ParameterOutOfBounds => 0x00,
            ErrorKind::FailedAssertion => 0x01,
            ErrorKind::ParseError => 0x02,
            ErrorKind::HalError => 0x03,
            ErrorKind::TimedOut => 0xFE,
            ErrorKind::Generic => 0xFF,
        }
    }

    /// The kind that a numeric code stands for, if any: the inverse of
    /// `code` on the stable values.
    pub open spec fn spec_from_code(code: u8) -> Option<ErrorKind> {
        if code == 0x00 {
            Some(ErrorKind::ParameterOutOfBounds)
        } else if code == 0x01 {
            Some(ErrorKind::FailedAssertion)
        } else if code == 0x02 {
            Some(ErrorKind::ParseError)
        } else if code == 0x03 {
            Some(ErrorKind::HalError)
        } else if code == 0xFE {
            Some(ErrorKind::TimedOut)
        } else if code == 0xFF {
            Some(ErrorKind::Generic)
        } else {
            None
        }
    }

    pub fn from_code(code: u8) -> (r: Option<ErrorKind>)
        ensures
            r == ErrorKind::spec_from_code(code),
            r matches Some(k) ==> k.spec_code() == code,
    {
        if code == 0x00 {
            Some(ErrorKind::ParameterOutOfBounds)
        } else if code == 0x01 {
            Some(ErrorKind::FailedAssertion)
        } else if code == 0x02 {
            Some(ErrorKind::ParseError)
        } else if code == 0x03 {
            Some(ErrorKind::HalError)
        } else if code == 0xFE {
            Some(ErrorKind::TimedOut)
        } else if code == 0xFF {
            Some(ErrorKind::Generic)
        } else {
            None
        }
    }
}

/// An error of the driver: a stable kind plus a human-readable message.
#[derive(Clone, Debug, PartialEq, Eq)]
pub struct GrappleError {
    pub kind: ErrorKind,
    pub message: String,
}

impl GrappleError {
    pub fn new(kind: ErrorKind, message: &str) -> (r: GrappleError)
        ensures
            r.kind == kind,
            r.message@ == message@,
    {
        GrappleError { kind, message: message.to_owned() }
    }

    /// The stable numeric code conveyed across the foreign-ABI boundary.
    pub fn to_error_code(&self) -> (r: u8)
        ensures
            r == self.kind.spec_code(),
    {
        self.kind.code()
    }
}

/// Outcome type of the driver's fallible operations.
pub type GrappleResult<T> = Result<T, GrappleError>;

/// Stand-in for the unit type on the foreign-ABI boundary, where a true
/// zero-sized type cannot cross.
#[derive(Clone, Copy, Debug, PartialEq, Eq, Structural)]
pub struct Empty {
    pub _sentinel: u8,
}

impl Empty {
    pub fn new() -> (r: Empty)
        ensures
            r._sentinel == 0,
    {
        Empty { _sentinel: 0x00 }
    }
}

/// Optional value in a shape that survives the foreign-ABI boundary.
#[derive(Clone, Copy, Debug)]
pub enum COptional<T> {
    CNone,
    CSome(T),
}

impl<T> COptional<T> {
    /// Carries an `Option` across: a present value maps to `CSome`, an
    /// absent one to `CNone`.
    pub fn from_option(value: Option<T>) -> (r: COptional<T>)
        ensures
            match value {
                Some(v) => r matches COptional::CSome(w) && w == v,
                None => r is CNone,
            },
    {
        match value {
            Some(v) => COptional::CSome(v),
            None => COptional::CNone,
        }
    }
}

} // verus!
