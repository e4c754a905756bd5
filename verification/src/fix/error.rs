//! Errors raised by the FIX layer.
use vstd::prelude::*;

verus! {

#[verifier::external_type_specification]
#[verifier::external_body]
pub struct ExIoError(std::io::Error);

/// Errors raised by the FIX layer.
#[derive(Debug)]
pub enum Error {
    /// A message could not be parsed.
    Parse(String),
    /// A session-level protocol violation.
    Session(String),
    /// The transport failed.
    Transport(String),
    /// An I/O failure.
    Io(std::io::Error),
}

} // verus!
