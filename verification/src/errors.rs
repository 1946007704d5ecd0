//! Error types returned by the library: per-field parse failures with the
//! 1-based field position, and OS failures carrying the raw error code.

use vstd::prelude::*;

verus! {

/// How the conversion of one whitespace-separated token failed, or that the
/// record ended before the field's position was reached.
#[derive(Clone, Copy, Debug, PartialEq, Eq, Structural)]
pub enum ProcessParseErrorKind {
    /// The token was not a decimal integer of the field's width.
    Int,
    /// The token was not a floating-point number.
    Float,
    /// The token was not exactly one character.
    Char,
    /// No token was left at the field's position.
    UnexpectedEnd,
}

/// A failure of the status-record parser, carrying the kind of conversion
/// failure and the 1-based position of the field at which it happened.
#[derive(Clone, Copy, Debug, PartialEq, Eq, Structural)]
pub struct ProcessParseError {
    pub kind: ProcessParseErrorKind,
    pub n: u32,
}

/// A failure of an OS primitive, carrying the OS error code verbatim.
#[derive(Clone, Copy, Debug, PartialEq, Eq, Structural)]
pub struct OsError {
    pub code: i32,
}

/// A failure of the spawn procedure: acquiring either preparatory OS
/// resource can fail, and the process-creation call itself can fail; the
/// two are kept distinguishable for diagnostics.
#[derive(Clone, Copy, Debug, PartialEq, Eq, Structural)]
pub enum SpawnError {
    /// Initializing the spawn-attributes or file-actions resource failed.
    Resource(OsError),
    /// The process-creation primitive itself failed.
    Creation(OsError),
}

} // verus!
