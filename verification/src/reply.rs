//! Replies to HTTP requests.

use vstd::prelude::*;

verus! {

/// The status of a reply.
#[derive(Clone, Copy, Debug, PartialEq, Eq, Structural)]
pub enum Status {
    Success,
    Accepted,
    BadRequest,
    NotFound,
    NotAcceptable,
    UnsupportedMediaType,
    InternalServerError,
    NotImplemented,
}

impl Status {
    /// The number of a status.
    pub open spec fn spec_code(self) -> u16 {
        match self {
            Status::Success => 200,
            Status::Accepted => 202,
            Status::BadRequest => 400,
            Status::NotFound => 404,
            Status::NotAcceptable => 406,
            Status::UnsupportedMediaType => 415,
            Status::InternalServerError => 500,
            Status::NotImplemented => 501,
        }
    }

    /// The number of the status on the wire.
    pub fn code(self) -> (code: u16)
        ensures
            code == self.spec_code(),
    {
        match self {
            Status::Success => 200,
            Status::Accepted => 202,
            Status::BadRequest => 400,
            Status::NotFound => 404,
            Status::NotAcceptable => 406,
            Status::UnsupportedMediaType => 415,
            Status::InternalServerError => 500,
            Status::NotImplemented => 501,
        }
    }
}

/// What a reply says.
#[derive(Debug)]
pub enum Body {
    Empty,
    Text(String),
    Json(String),
}

/// What a reply says, as a mathematical value.
pub enum BodyView {
    Empty,
    Text(Seq<char>),
    Json(Seq<char>),
}

impl View for Body {
    type V = BodyView;

    open spec fn view(&self) -> BodyView {
        match self {
            Body::Empty => BodyView::Empty,
            Body::Text(text) => BodyView::Text(text@),
            Body::Json(text) => BodyView::Json(text@),
        }
    }
}

/// A reply to an HTTP request.
#[derive(Debug)]
pub struct Reply {
    pub status: Status,
    pub body: Body,
    /// The connection that the reply names in its header.
    pub connection_id: Option<String>,
}

/// A reply as a mathematical value.
pub struct ReplyView {
    pub status: Status,
    pub body: BodyView,
    pub connection_id: Option<Seq<char>>,
}

impl View for Reply {
    type V = ReplyView;

    open spec fn view(&self) -> ReplyView {
        ReplyView {
            status: self.status,
            body: self.body@,
            connection_id: match self.connection_id {
                Some(connection_id) => Some(connection_id@),
                None => None,
            },
        }
    }
}

impl ReplyView {
    /// A status and a line of text.
    pub open spec fn text(status: Status, text: Seq<char>) -> ReplyView {
        ReplyView { status, body: BodyView::Text(text), connection_id: None }
    }

    /// The request was taken on, and there is no more to say.
    pub open spec fn accepted() -> ReplyView {
        ReplyView { status: Status::Accepted, body: BodyView::Empty, connection_id: None }
    }
}

impl Reply {
    /// A status and a line of text.
    pub fn text(status: Status, text: &str) -> (reply: Reply)
        ensures
            reply@ == ReplyView::text(status, text@),
    {
        Reply { status, body: Body::Text(text.to_owned()), connection_id: None }
    }

    /// The request was taken on, and there is no more to say.
    pub fn accepted() -> (reply: Reply)
        ensures
            reply@ == ReplyView::accepted(),
    {
        Reply { status: Status::Accepted, body: Body::Empty, connection_id: None }
    }
}

} // verus!
