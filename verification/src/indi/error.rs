//! What can go wrong with a mount.

use crate::text::concat2;
use vstd::prelude::*;

verus! {

/// Why a request to the mount failed.
#[derive(Debug)]
pub enum IndiError {
    Connection(String),
    Communication(String),
    Device(String),
    Command(String),
    Io(String),
}

impl IndiError {
    /// The message of the error.
    pub open spec fn message_text(self) -> Seq<char> {
        match self {
            IndiError::Connection(s) => "Connection error: "@ + s@,
            IndiError::Communication(s) => "Communication error: "@ + s@,
            IndiError::Device(s) => "Device error: "@ + s@,
            IndiError::Command(s) => "Command failed: "@ + s@,
            IndiError::Io(s) => "IO error: "@ + s@,
        }
    }

    /// The message of the error.
    pub fn message(&self) -> (r: String)
        ensures
            r@ == self.message_text(),
    {
        match self {
            IndiError::Connection(s) => concat2("Connection error: ", s.as_str()),
            IndiError::Communication(s) => concat2("Communication error: ", s.as_str()),
            IndiError::Device(s) => concat2("Device error: ", s.as_str()),
            IndiError::Command(s) => concat2("Command failed: ", s.as_str()),
            IndiError::Io(s) => concat2("IO error: ", s.as_str()),
        }
    }
}

/// The message of an error ends with its reason, behind the kind of the error.
pub proof fn law_reason_is_told(e: IndiError)
    ensures
        e matches IndiError::Connection(s) ==> e.message_text() == "Connection error: "@ + s@,
        e matches IndiError::Communication(s) ==> e.message_text() == "Communication error: "@ + s@,
        e matches IndiError::Device(s) ==> e.message_text() == "Device error: "@ + s@,
        e matches IndiError::Command(s) ==> e.message_text() == "Command failed: "@ + s@,
        e matches IndiError::Io(s) ==> e.message_text() == "IO error: "@ + s@,
{
}

} // verus!
