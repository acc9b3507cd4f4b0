//! The ways in which an operation of the game can fail.

use vstd::prelude::*;
use vstd::std_specs::convert::FromSpecImpl;

verus! {

/// `std::io::Error`, carried through unread.
#[verifier::external_type_specification]
#[verifier::external_body]
pub struct ExIoError(std::io::Error);

/// `serde_json::Error`, carried through unread.
#[verifier::external_type_specification]
#[verifier::external_body]
pub struct ExJsonError(serde_json::Error);

#[derive(Debug)]
pub enum HangmanErrors {
    /// The file system refused a read or a write.
    IoError(std::io::Error),
    /// A command line or a saved game could not be understood.
    ParseError(String),
    /// The letter or word was tried before.
    BadGuess(String),
    /// The word is empty or holds something that is not a letter.
    InvalidSolution(String),
    /// The game has already been won or lost.
    HangmanGameOver,
    /// No list of words with a usable word was found.
    EmptyWordlist,
}

/// Calls `serde_json::Error`'s `Display` through `to_string`. The text
/// depends on what the error holds, which is opaque here, so nothing is
/// claimed of it.
#[verifier::external_body]
fn json_error_text(e: &serde_json::Error) -> (text: String) {
    e.to_string()
}

impl From<std::io::Error> for HangmanErrors {
    fn from(e: std::io::Error) -> (r: Self) {
        HangmanErrors::IoError(e)
    }
}

impl FromSpecImpl<std::io::Error> for HangmanErrors {
    open spec fn obeys_from_spec() -> bool {
        true
    }

    open spec fn from_spec(e: std::io::Error) -> Self {
        HangmanErrors::IoError(e)
    }
}

impl From<serde_json::Error> for HangmanErrors {
    fn from(e: serde_json::Error) -> (r: Self)
        ensures
            r is ParseError,
    {
        HangmanErrors::ParseError(json_error_text(&e))
    }
}

impl FromSpecImpl<serde_json::Error> for HangmanErrors {
    open spec fn obeys_from_spec() -> bool {
        false
    }

    open spec fn from_spec(e: serde_json::Error) -> Self {
        arbitrary()
    }
}

} // verus!
