//! The errors of the contact exchange.

use vstd::prelude::*;
use vstd::std_specs::convert::FromSpecImpl;
use crate::text::{owned, push_str};

verus! {

/// Why a contact exchange failed.
#[derive(Debug)]
pub enum CEPError {
    /// Reading or writing the stream failed.
    IO(String),
    /// A message could not be encoded or decoded.
    Protobuf(String),
    /// A signature could not be made.
    Verification(String),
    /// A nonce or a key could not be decoded.
    Decode(String),
    /// The signature does not hold.
    Rsa(String),
    /// The message is not of the kind that was expected.
    InvalidMessageType,
    /// The peer could not be verified.
    VerificationFailed,
}

/// The text of an error.
pub open spec fn error_text(error: CEPError) -> Seq<char> {
    match error {
        CEPError::IO(detail) => "I/O Error: "@ + detail@,
        CEPError::Protobuf(detail) => "Protobuf Error: "@ + detail@,
        CEPError::Verification(detail) => "Verification Error: "@ + detail@,
        CEPError::Decode(detail) => "Decode Error: "@ + detail@,
        CEPError::Rsa(detail) => "RSA Error: "@ + detail@,
        CEPError::InvalidMessageType => "Invalid Message Type"@,
        CEPError::VerificationFailed => "Verification Failed"@,
    }
}

/// `prefix`, then `detail`.
fn prefixed(prefix: &str, detail: &String) -> (text: String)
    ensures
        text@ == prefix@ + detail@,
{
    let mut text = owned(prefix);
    push_str(&mut text, detail.as_str());
    text
}

impl CEPError {
    /// The text of the error.
    pub fn to_string(&self) -> (text: String)
        ensures
            text@ == error_text(*self),
    {
        match self {
            CEPError::IO(detail) => prefixed("I/O Error: ", detail),
            CEPError::Protobuf(detail) => prefixed("Protobuf Error: ", detail),
            CEPError::Verification(detail) => prefixed("Verification Error: ", detail),
            CEPError::Decode(detail) => prefixed("Decode Error: ", detail),
            CEPError::Rsa(detail) => prefixed("RSA Error: ", detail),
            CEPError::InvalidMessageType => owned("Invalid Message Type"),
            CEPError::VerificationFailed => owned("Verification Failed"),
        }
    }
}

impl From<String> for CEPError {
    /// A message alone stands for a signature that could not be made.
    fn from(e: String) -> (error: Self) {
        CEPError::Verification(e)
    }
}

impl FromSpecImpl<String> for CEPError {
    open spec fn obeys_from_spec() -> bool {
        true
    }

    open spec fn from_spec(e: String) -> Self {
        CEPError::Verification(e)
    }
}

} // verus!
