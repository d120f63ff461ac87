//! SteamStub unpacking core library: PE parsing, crypto helpers, pattern
//! scanning and the SteamStub unpacker variants.

use vstd::prelude::*;

pub mod crypto;
pub mod logger;
pub mod options;
pub mod pattern;
pub mod pe;
pub mod variants;

verus! {

#[verifier::external_type_specification]
#[verifier::external_body]
pub struct ExIoError(std::io::Error);

#[verifier::external_type_specification]
#[verifier::external_body]
pub struct ExPathBuf(std::path::PathBuf);

/// Top-level error type for the library.
#[derive(Debug)]
pub enum Error {
    /// Input file could not be read from disk.
    Io(std::io::Error),
    /// The file was not a valid portable executable image.
    InvalidPe(String),
    /// Not enough data to satisfy a read at the given offset.
    OutOfBounds,
    /// An unpacking step failed.
    Unpack(String),
    /// A required feature was not found within the file data.
    PatternNotFound,
}

/// What went wrong, as a value contracts can speak of.
pub enum Failure {
    Io,
    InvalidPe(Seq<char>),
    OutOfBounds,
    Unpack(Seq<char>),
    PatternNotFound,
}

/// The failure an error reports.
pub open spec fn failure(e: Error) -> Failure {
    match e {
        Error::Io(_) => Failure::Io,
        Error::InvalidPe(m) => Failure::InvalidPe(m@),
        Error::OutOfBounds => Failure::OutOfBounds,
        Error::Unpack(m) => Failure::Unpack(m@),
        Error::PatternNotFound => Failure::PatternNotFound,
    }
}

/// A result with its error taken as a failure.
pub open spec fn outcome<T>(r: Result<T, Error>) -> Result<T, Failure> {
    match r {
        Ok(v) => Ok(v),
        Err(e) => Err(failure(e)),
    }
}

/// Appends one character to a string (`String::push`).
#[verifier::external_body]
pub(crate) fn push_char(s: &mut String, c: char)
    ensures
        final(s)@ == old(s)@.push(c),
{
    s.push(c);
}

} // verus!
