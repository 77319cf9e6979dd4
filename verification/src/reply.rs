//! What a request is answered.

use vstd::prelude::*;
use vstd::string::*;

verus! {

/// The HTTP status of an answer.
#[derive(Clone, Copy, Debug, PartialEq, Eq, Structural)]
pub enum Status {
    /// 200.
    Success,
    /// 400.
    BadRequest,
    /// 401.
    Unauthorized,
    /// 403.
    Forbidden,
    /// 404.
    NotFound,
    /// 409.
    Conflict,
    /// 429.
    TooManyRequests,
    /// 500.
    InternalServerError,
}

/// The body of an answer that carries no data.
#[derive(Debug)]
pub struct ApiResponse {
    /// Whether the request was carried out.
    pub ok: bool,
    /// What to tell the caller.
    pub message: String,
}

/// An answer that carries no data.
#[derive(Debug)]
pub struct Reply {
    /// Its HTTP status.
    pub status: Status,
    /// Its body.
    pub body: ApiResponse,
}

/// What an answer says.
#[verifier::ext_equal]
pub struct ReplyView {
    /// Its HTTP status.
    pub status: Status,
    /// Whether the request was carried out.
    pub ok: bool,
    /// What to tell the caller.
    pub message: Seq<char>,
}

impl View for Reply {
    type V = ReplyView;

    open spec fn view(&self) -> ReplyView {
        ReplyView { status: self.status, ok: self.body.ok, message: self.body.message@ }
    }
}

/// The answer to a request that was carried out.
pub open spec fn done(message: Seq<char>) -> ReplyView {
    ReplyView { status: Status::Success, ok: true, message }
}

/// The answer to a request that was refused.
pub open spec fn refused(status: Status, message: Seq<char>) -> ReplyView {
    ReplyView { status, ok: false, message }
}

/// Answers that the request was carried out.
pub fn accept(message: &str) -> (r: Reply)
    ensures
        r@ == done(message@),
{
    Reply { status: Status::Success, body: ApiResponse { ok: true, message: message.to_owned() } }
}

/// Answers that the request was refused.
pub fn refuse(status: Status, message: &str) -> (r: Reply)
    ensures
        r@ == refused(status, message@),
{
    Reply { status, body: ApiResponse { ok: false, message: message.to_owned() } }
}

} // verus!
