//! The failure channel of the forwarder.
//!
//! Every failure is reported to the caller as a single human-readable
//! string; the variants keep the underlying detail so the message can be
//! assembled exactly.

use vstd::prelude::*;
use vstd::string::StringExecFns;

verus! {

/// Why a forwarded request was refused or failed.
#[derive(Debug)]
pub enum ForwardError {
    /// The method is outside the fixed allow-list; carries the method as given.
    UnsupportedMethod(String),
    /// The header payload is not a well-formed string-to-string mapping;
    /// carries the parser's own account of the fault.
    HeaderParse(String),
    /// The transport failed before a response arrived; carries the
    /// transport's error text.
    RequestFailed(String),
    /// The response body could not be read as text; carries the reader's
    /// error text.
    BodyRead(String),
}

/// The message a caller sees for each failure.
pub open spec fn message_view(e: ForwardError) -> Seq<char> {
    match e {
        ForwardError::UnsupportedMethod(m) => "Unsupported HTTP method: "@ + m@,
        ForwardError::HeaderParse(d) => "Failed to parse headers: "@ + d@,
        ForwardError::RequestFailed(d) => "Request failed: "@ + d@,
        ForwardError::BodyRead(d) => "Failed to read response body: "@ + d@,
    }
}

impl ForwardError {
    /// Render the failure as the single string handed back to the caller.
    pub fn message(&self) -> (r: String)
        ensures
            r@ == message_view(*self),
    {
        match self {
            ForwardError::UnsupportedMethod(m) => {
                let mut s = String::from_str("Unsupported HTTP method: ");
                s.append(m.as_str());
                s
            },
            ForwardError::HeaderParse(d) => {
                let mut s = String::from_str("Failed to parse headers: ");
                s.append(d.as_str());
                s
            },
            ForwardError::RequestFailed(d) => {
                let mut s = String::from_str("Request failed: ");
                s.append(d.as_str());
                s
            },
            ForwardError::BodyRead(d) => {
                let mut s = String::from_str("Failed to read response body: ");
                s.append(d.as_str());
                s
            },
        }
    }
}

} // verus!
