//! Crate-level error type.

use std::path::PathBuf;
use vstd::prelude::*;

verus! {

/// A filesystem path, carried through errors as it was given.
#[verifier::external_type_specification]
#[verifier::external_body]
pub struct ExPathBuf(PathBuf);

/// An I/O failure reported by the operating system, carried through errors
/// unchanged.
#[verifier::external_type_specification]
#[verifier::external_body]
pub struct ExIoError(std::io::Error);

/// Anything that can go wrong loading or querying a lens database.
#[derive(Debug)]
pub enum Error {
    /// I/O error reading a database file.
    Io {
        /// Path that triggered the error.
        path: PathBuf,
        /// Underlying I/O error.
        source: std::io::Error,
    },
    /// XML parse error in a database file.
    Xml {
        /// Path that triggered the error.
        path: PathBuf,
        /// Human-readable error from the XML parser.
        message: String,
    },
    /// A required attribute or element was missing or had an unexpected value.
    InvalidEntry {
        /// Path that triggered the error.
        path: PathBuf,
        /// What was wrong.
        message: String,
    },
    /// Lookup found no matching entry.
    NoMatch(String),
}

/// Convenient `Result` alias.
pub type Result<T> = std::result::Result<T, Error>;

} // verus!
