//! Requests to a sequence.

use crate::notes::one;
use crate::routes::reply::{answer, reply, Reply, Status};
use crate::sequence::StartSequencePayload;
use vstd::prelude::*;

verus! {

/// The answer to a request to start a sequence.
pub fn start_reply(payload: &StartSequencePayload) -> (r: Reply)
    ensures
        r@ == answer(
            seq![payload.received_note()],
            Status::Success,
            "Sequence started in background"@,
        ),
{
    reply(one(payload.received_text()), Status::Success, "Sequence started in background")
}

/// The answer to a request to stop the sequence.
pub fn stop_reply() -> (r: Reply)
    ensures
        r@ == answer(seq!["Received Stop request"@], Status::Success, "Stop signal sent"@),
{
    reply(one("Received Stop request".to_owned()), Status::Success, "Stop signal sent")
}

/// The answer to a request to pause the sequence.
pub fn pause_reply() -> (r: Reply)
    ensures
        r@ == answer(seq!["Received Pause request"@], Status::Success, "Pause signal sent"@),
{
    reply(one("Received Pause request".to_owned()), Status::Success, "Pause signal sent")
}

} // verus!
