//! Plain-text answers to HTTP requests.

use vstd::prelude::*;

verus! {

pub const BAD_REQUEST: u16 = 400;

pub const NOT_FOUND: u16 = 404;

pub const PAYLOAD_TOO_LARGE: u16 = 413;

pub const TOO_MANY_REQUESTS: u16 = 429;

pub const SERVICE_UNAVAILABLE: u16 = 503;

/// A status and a text.
pub struct HttpReply {
    pub status: u16,
    pub body: String,
}

pub struct ReplyView {
    pub status: u16,
    pub body: Seq<char>,
}

impl View for HttpReply {
    type V = ReplyView;

    open spec fn view(&self) -> ReplyView {
        ReplyView { status: self.status, body: self.body@ }
    }
}

/// The content of an optional answer.
pub open spec fn opt_reply_view(reply: Option<HttpReply>) -> Option<ReplyView> {
    match reply {
        Some(reply) => Some(reply@),
        None => None,
    }
}

impl HttpReply {
    pub fn new(status: u16, body: &str) -> (res: Self)
        ensures
            res@ == (ReplyView { status, body: body@ }),
    {
        HttpReply { status, body: body.to_string() }
    }
}

} // verus!
