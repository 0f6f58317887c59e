//! Where a message from the agent is headed.

use crate::json::{as_text, json_of, member, Json};
use serde_json::Value;
use vstd::prelude::*;

verus! {

/// The stream that a message belongs to.
pub enum Destination {
    Connection,
    Session(Seq<char>),
}

/// Where the response to a request of the client is to be delivered.
#[derive(Clone, Debug)]
pub enum ResponseRoute {
    Connection,
    Session(String),
}

impl View for ResponseRoute {
    type V = Destination;

    open spec fn view(&self) -> Destination {
        match self {
            ResponseRoute::Connection => Destination::Connection,
            ResponseRoute::Session(session_id) => Destination::Session(session_id@),
        }
    }
}

/// The stream that a message from the agent is put on.
#[derive(Debug)]
pub enum Target {
    Connection,
    Session(String),
}

impl View for Target {
    type V = Destination;

    open spec fn view(&self) -> Destination {
        match self {
            Target::Connection => Destination::Connection,
            Target::Session(session_id) => Destination::Session(session_id@),
        }
    }
}

impl Json {
    /// The text under `params.sessionId`.
    pub open spec fn session_id(self) -> Option<Seq<char>> {
        match self.member("params"@) {
            Some(params) => match params.member("sessionId"@) {
                Some(id) => id.text(),
                None => None,
            },
            None => None,
        }
    }

    /// Whether the document calls a method: a request or a notification.
    pub open spec fn is_call(self) -> bool {
        self.has("method"@)
    }

    /// Whether the document answers a request.
    pub open spec fn is_answer(self) -> bool {
        &&& !self.is_call()
        &&& self.has("id"@)
        &&& self.has("result"@) || self.has("error"@)
    }
}

/// The session that a message names in its parameters.
pub fn extract_session_id_from_params(v: &Value) -> (session_id: Option<String>)
    ensures
        match session_id {
            Some(session_id) => json_of(*v).session_id() == Some(session_id@),
            None => json_of(*v).session_id() is None,
        },
{
    match member(v, "params") {
        Some(params) => match member(params, "sessionId") {
            Some(id) => match as_text(id) {
                Some(text) => Some(text.to_owned()),
                None => None,
            },
            None => None,
        },
        None => None,
    }
}

} // verus!
