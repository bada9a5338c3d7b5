use vstd::prelude::*;

verus! {

/// Errors raised while decoding an identifier from its text form.
#[derive(Clone, Debug, PartialEq, Eq)]
pub enum DecodeError {
    /// The `_` separator is absent or duplicated, or the prefix is empty.
    MissingPrefix(String),
    /// The whole string's byte length lies outside the valid bounds.
    InvalidLength(String, usize),
    /// The prefix segment is longer than four bytes.
    InvalidPrefixLength(String, usize),
    /// The payload segment holds a character outside `0-9a-v`; the first
    /// offending character is reported.
    InvalidChar(String, char),
    /// The stored prefix bytes are not valid UTF-8.
    InvalidUtf8,
    /// The payload segment's byte length is not exactly twenty.
    InvalidXidLength(String, usize),
}

/// Errors raised by identifier construction, decoding, and the machine-id
/// collaborator.
#[derive(Clone, Debug, PartialEq, Eq)]
pub enum Error {
    /// A value could not be decoded into an identifier.
    Decode(DecodeError),
    /// The machine-id collaborator failed; fatal to factory construction.
    MachineID(String),
    /// The prefix handed to construction is longer than four bytes.
    PrefixExceedsMaxLength(String),
}

} // verus!
