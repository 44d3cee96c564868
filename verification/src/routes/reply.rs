//! Answers to requests.

use crate::text::texts;
use vstd::prelude::*;

verus! {

/// The kind of an answer.
#[derive(Debug, Clone, Copy, PartialEq, Eq, Structural)]
pub enum Status {
    Success,
    BadRequest,
    NotFound,
    Conflict,
    ServerError,
}

impl Status {
    pub open spec fn number(self) -> u16 {
        match self {
            Status::Success => 200,
            Status::BadRequest => 400,
            Status::NotFound => 404,
            Status::Conflict => 409,
            Status::ServerError => 500,
        }
    }

    /// The number of the status in HTTP.
    pub fn code(&self) -> (r: u16)
        ensures
            r == self.number(),
    {
        match self {
            Status::Success => 200,
            Status::BadRequest => 400,
            Status::NotFound => 404,
            Status::Conflict => 409,
            Status::ServerError => 500,
        }
    }
}

/// An answer, with the messages that are published before it is given.
#[derive(Debug)]
pub struct Reply {
    pub notes: Vec<String>,
    pub status: Status,
    pub body: String,
}

/// The texts of an answer.
pub struct ReplyView {
    pub notes: Seq<Seq<char>>,
    pub status: Status,
    pub body: Seq<char>,
}

impl View for Reply {
    type V = ReplyView;

    open spec fn view(&self) -> ReplyView {
        ReplyView { notes: texts(self.notes@), status: self.status, body: self.body@ }
    }
}

/// An answer.
pub open spec fn answer(notes: Seq<Seq<char>>, status: Status, body: Seq<char>) -> ReplyView {
    ReplyView { notes, status, body }
}

/// An answer.
pub fn reply(notes: Vec<String>, status: Status, body: &str) -> (r: Reply)
    ensures
        r@ == answer(texts(notes@), status, body@),
{
    Reply { notes, status, body: body.to_owned() }
}

/// The numbers of the statuses in HTTP.
pub proof fn law_status_numbers()
    ensures
        Status::Success.number() == 200,
        Status::BadRequest.number() == 400,
        Status::NotFound.number() == 404,
        Status::Conflict.number() == 409,
        Status::ServerError.number() == 500,
{
}

} // verus!
