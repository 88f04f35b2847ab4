//! What a dashboard client needs from an event: the opaque payload handed to
//! a plugin's renderer, and the error raised when that payload cannot be
//! parsed.

use vstd::prelude::*;

verus! {

pub type EventResult<T> = Result<T, EventError>;

/// A client-side plugin's failure to make sense of an event payload.
#[derive(Debug, Clone)]
pub enum EventError {
    FaultyInitData(String),
}

impl EventError {
    /// The user-visible text of the error.
    pub open spec fn spec_message(self) -> Seq<char> {
        match self {
            EventError::FaultyInitData(v) => "Unable to parse initial data to generate Component: "@
                + v@,
        }
    }

    /// Renders the error as its user-visible message.
    pub fn message(&self) -> (r: String)
        ensures
            r@ == self.spec_message(),
    {
        match self {
            EventError::FaultyInitData(v) => {
                let mut s = String::from_str(
                    "Unable to parse initial data to generate Component: ",
                );
                s.append(v.as_str());
                s
            },
        }
    }
}

/// The opaque payload of one event, as handed to the plugin that rendered it.
pub struct PluginEventData<'a> {
    pub data: &'a serde_json::Value,
}

impl<'a> PluginEventData<'a> {
    /// Relies on serde_json::from_value to parse the opaque payload into the
    /// requested type; a parse failure is wrapped as `FaultyInitData` with
    /// serde_json's failure text. Nothing is promised of the parsed value.
    #[verifier::external_body]
    pub fn get_data<T: serde::de::DeserializeOwned>(&self) -> EventResult<T> {
        match serde_json::from_value(self.data.clone()) {
            Ok(v) => Ok(v),
            Err(e) => Err(EventError::FaultyInitData(format!("{}", e))),
        }
    }

    pub fn get_raw(&self) -> (r: &'a serde_json::Value)
        ensures
            r == self.data,
    {
        self.data
    }
}

} // verus!
