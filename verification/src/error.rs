//! Why a layer could not be dissected.

use crate::text::{decimal, decimal_string, quoted, quoted_string};
use vstd::prelude::*;
use vstd::string::*;

verus! {

/// The mathematical value of a [`DissectError`].
pub enum Fault {
    /// Fewer bytes are there than a header or a field needs.
    Underflow { expected: nat, have: nat, message: Seq<char> },
    /// The bytes are there but cannot be interpreted.
    InvalidData(Seq<char>),
}

impl Fault {
    /// The error as a reader sees it.
    pub open spec fn text(self) -> Seq<char> {
        match self {
            Fault::Underflow { expected, have, message } => "underflow (expected "@ + decimal(
                expected,
            ) + ", have "@ + decimal(have) + "): "@ + message,
            Fault::InvalidData(message) => "invalid data: "@ + message,
        }
    }

    /// The error in the notation of a derived `Debug`.
    pub open spec fn debug_text(self) -> Seq<char> {
        match self {
            Fault::Underflow { expected, have, message } => "Underflow { expected: "@ + decimal(
                expected,
            ) + ", have: "@ + decimal(have) + ", message: "@ + quoted(message) + " }"@,
            Fault::InvalidData(message) => "InvalidData("@ + quoted(message) + ")"@,
        }
    }
}

/// An error related to packet dissection (underflow, bad value, etc.).
#[derive(Debug)]
pub enum DissectError {
    /// Fewer bytes are available than a declared or implied size requires.
    Underflow { expected: usize, have: usize, message: String },
    /// Bytes are present but cannot be interpreted.
    InvalidData(String),
}

impl View for DissectError {
    type V = Fault;

    open spec fn view(&self) -> Fault {
        match self {
            DissectError::Underflow { expected, have, message } => Fault::Underflow {
                expected: *expected as nat,
                have: *have as nat,
                message: message@,
            },
            DissectError::InvalidData(message) => Fault::InvalidData(message@),
        }
    }
}

impl DissectError {
    /// The error as a reader sees it.
    pub fn to_string(&self) -> (out: String)
        ensures
            out@ == self@.text(),
    {
        match self {
            DissectError::Underflow { expected, have, message } => {
                let mut out = String::from_str("underflow (expected ");
                out.append(decimal_string(*expected as u64).as_str());
                out.append(", have ");
                out.append(decimal_string(*have as u64).as_str());
                out.append("): ");
                out.append(message.as_str());
                out
            },
            DissectError::InvalidData(message) => {
                let mut out = String::from_str("invalid data: ");
                out.append(message.as_str());
                out
            },
        }
    }

    /// The error in the notation of a derived `Debug`.
    pub fn debug_string(&self) -> (out: String)
        ensures
            out@ == self@.debug_text(),
    {
        match self {
            DissectError::Underflow { expected, have, message } => {
                let mut out = String::from_str("Underflow { expected: ");
                out.append(decimal_string(*expected as u64).as_str());
                out.append(", have: ");
                out.append(decimal_string(*have as u64).as_str());
                out.append(", message: ");
                out.append(quoted_string(message.as_str()).as_str());
                out.append(" }");
                out
            },
            DissectError::InvalidData(message) => {
                let mut out = String::from_str("InvalidData(");
                out.append(quoted_string(message.as_str()).as_str());
                out.append(")");
                out
            },
        }
    }
}

} // verus!
