use vstd::prelude::*;

verus! {

/// Why a string is not a decimal `i32`, with the same four cases that
/// `i32::from_str` tells apart.
#[derive(Debug, Clone, Copy, PartialEq, Eq, Structural)]
pub enum IntErrorKind {
    /// The string is empty.
    Empty,
    /// A character is not a decimal digit (a lone sign counts as one).
    InvalidDigit,
    /// The number is greater than `i32::MAX`.
    PosOverflow,
    /// The number is less than `i32::MIN`.
    NegOverflow,
}

/// Errors met while collecting sensor readings.
#[derive(Debug)]
pub enum Error {
    /// A file could not be read or a directory could not be listed;
    /// `message` is the operating system's description.
    Io { message: String },
    /// The file at `path` does not hold a decimal integer.
    InvalidData { path: Vec<u8>, kind: IntErrorKind },
    /// A temperature file does not hold a number; `message` describes why.
    InvalidTemperature { message: String },
}

} // verus!
