//! The values that cross the aggregated-query boundary: the error taxonomy,
//! the plugin-agnostic event projection, and the host address handed to
//! clients. Event payloads are opaque structured values (`serde_json::Value`);
//! the core moves them, it never looks inside.

use vstd::prelude::*;

verus! {

use crate::timing::Timing;

/// Declares serde_json's `Value` so event payloads can be held and moved;
/// the core never looks inside one.
#[verifier::external_type_specification]
#[verifier::external_body]
pub struct ExValue(serde_json::Value);

/// Declares serde_json's `Error` so a JSON failure can be taken by value and
/// mapped to the library's own error kind.
#[verifier::external_type_specification]
#[verifier::external_body]
pub struct ExJsonError(serde_json::Error);

pub type APIResult<T> = Result<T, APIError>;

/// The only error values returned across the aggregated-query boundary:
/// store failure, authentication failure, HTTP-request failure, serialization
/// failure, a plugin-reported failure, and a generic catch-all.
#[derive(Debug, Clone, PartialEq)]
pub enum APIError {
    DatabaseError(String),
    AuthenticationError,
    RequestError(String),
    SerdeJsonError(String),
    PluginError(String),
    Custom(String),
}

impl APIError {
    /// The user-visible text of each error kind.
    pub open spec fn spec_message(self) -> Seq<char> {
        match self {
            APIError::DatabaseError(e) => "Error executing API Request: Database Error: "@ + e@,
            APIError::AuthenticationError => "Error executing API Request: Authentication Error: Password is wrong"@,
            APIError::RequestError(s) => "Error executing API Request: HTTP-Request Error: "@
                + s@,
            APIError::SerdeJsonError(t) => "Error executing API Request: Error converting data to/from json: "@
                + t@,
            APIError::PluginError(t) => "Error executing API Request: Encountered a plugin error: "@
                + t@,
            APIError::Custom(t) => "API Error: "@ + t@,
        }
    }

    /// Renders the error as its user-visible message.
    pub fn message(&self) -> (r: String)
        ensures
            r@ == self.spec_message(),
    {
        match self {
            APIError::DatabaseError(e) => {
                let mut s = String::from_str("Error executing API Request: Database Error: ");
                s.append(e.as_str());
                s
            },
            APIError::AuthenticationError => {
                String::from_str(
                    "Error executing API Request: Authentication Error: Password is wrong",
                )
            },
            APIError::RequestError(t) => {
                let mut s = String::from_str("Error executing API Request: HTTP-Request Error: ");
                s.append(t.as_str());
                s
            },
            APIError::SerdeJsonError(t) => {
                let mut s = String::from_str(
                    "Error executing API Request: Error converting data to/from json: ",
                );
                s.append(t.as_str());
                s
            },
            APIError::PluginError(t) => {
                let mut s = String::from_str(
                    "Error executing API Request: Encountered a plugin error: ",
                );
                s.append(t.as_str());
                s
            },
            APIError::Custom(t) => {
                let mut s = String::from_str("API Error: ");
                s.append(t.as_str());
                s
            },
        }
    }

    /// Wraps a JSON conversion failure as the serialization error kind.
    pub fn from_json_error(e: &serde_json::Error) -> (r: APIError)
        ensures
            r is SerdeJsonError,
    {
        APIError::SerdeJsonError(json_error_message(e))
    }
}

/// Relies on serde_json::Error's `Display` rendering for the failure text;
/// nothing is promised of the text itself.
#[verifier::external_body]
fn json_error_message(e: &serde_json::Error) -> String {
    format!("{}", e)
}

/// The plugin-agnostic projection of any plugin's native event: a title, a
/// timing, and an opaque structured payload.
pub struct CompressedEvent {
    pub data: serde_json::Value,
    pub time: Timing,
    pub title: String,
}

/// The timeline server's own address, as handed to clients.
#[derive(Clone)]
pub struct TimelineHostname(pub String);

} // verus!
