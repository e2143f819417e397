use vstd::prelude::*;

verus! {

/// Why a decimal number could not be read.
#[derive(Debug, Clone, Copy, PartialEq, Eq, Structural)]
pub enum IntErrorKind {
    /// The text held no digits at all.
    Empty,
    /// A character other than a decimal digit was found.
    InvalidDigit,
    /// The value does not fit in a `u64`.
    PosOverflow,
}

/// Errors of the session engine.
#[derive(Debug)]
pub enum AppError {
    /// A required setting is missing.
    Config(String),
    /// An expected pattern was not found in server text.
    Parse(String),
    /// A non-numeric value stood where a number was expected.
    ParseInt(IntErrorKind),
    /// A token or cookie holds characters that a header cannot carry.
    InvalidHeaderValue,
    /// The engine could not carry out what was asked of it.
    Application(String),
}

} // verus!
