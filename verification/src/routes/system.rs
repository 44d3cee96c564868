//! The clock and the power of the computer.

use crate::notes::{none, one, two};
use crate::routes::mount::Outcome;
use crate::routes::reply::{answer, reply, Reply, ReplyView, Status};
use crate::text::concat2;
use vstd::prelude::*;

verus! {

/// A request to set the time.
#[derive(Debug, Clone)]
pub struct TimePayload {
    pub utc_datetime: String,
}

impl TimePayload {
    /// The answer to the request, given what came of telling the mount.
    pub open spec fn time_answer(self, outcome: Outcome) -> ReplyView {
        let updated = "Time updated: "@ + self.utc_datetime@;
        match outcome {
            Outcome::NotConnected => answer(
                seq![updated],
                Status::Success,
                "Time updated successfully"@,
            ),
            Outcome::Sent => answer(
                seq![updated, "Time updated on EQMod."@],
                Status::Success,
                "Time updated successfully"@,
            ),
            Outcome::Failed { error: e } => answer(
                seq![updated, "Failed to update time on EQMod: "@ + e@],
                Status::ServerError,
                "Failed to update time on EQMod: "@ + e@,
            ),
        }
    }

    /// The answer to the request, given what came of telling the mount.
    pub fn time_reply(&self, outcome: &Outcome) -> (r: Reply)
        ensures
            r@ == self.time_answer(*outcome),
    {
        let updated = concat2("Time updated: ", self.utc_datetime.as_str());
        match outcome {
            Outcome::NotConnected => reply(
                one(updated),
                Status::Success,
                "Time updated successfully",
            ),
            Outcome::Sent => reply(
                two(updated, "Time updated on EQMod.".to_owned()),
                Status::Success,
                "Time updated successfully",
            ),
            Outcome::Failed { error: e } => {
                let text = concat2("Failed to update time on EQMod: ", e.as_str());
                reply(two(updated, text.clone()), Status::ServerError, text.as_str())
            },
        }
    }
}

/// What the computer is asked for.
#[derive(Debug, Clone, Copy, PartialEq, Eq, Structural)]
pub enum PowerRequest {
    Shutdown,
    Reboot,
}

impl PowerRequest {
    /// What is published before the computer is asked.
    pub fn announcement(&self) -> (r: String)
        ensures
            r@ == match *self {
                PowerRequest::Shutdown => "Shutting down Raspberry Pi..."@,
                PowerRequest::Reboot => "Rebooting Raspberry Pi..."@,
            },
    {
        match self {
            PowerRequest::Shutdown => "Shutting down Raspberry Pi...".to_owned(),
            PowerRequest::Reboot => "Rebooting Raspberry Pi...".to_owned(),
        }
    }

    /// The answer when the computer was asked.
    pub open spec fn power_answer(self, error: Option<Seq<char>>) -> ReplyView {
        match error {
            None => answer(
                Seq::empty(),
                Status::Success,
                match self {
                    PowerRequest::Shutdown => "Shutdown command sent"@,
                    PowerRequest::Reboot => "Reboot command sent"@,
                },
            ),
            Some(e) => {
                let text = match self {
                    PowerRequest::Shutdown => "Failed to shutdown: "@ + e,
                    PowerRequest::Reboot => "Failed to reboot: "@ + e,
                };
                answer(seq![text], Status::ServerError, text)
            },
        }
    }

    /// The answer when the computer was asked.
    pub fn power_reply(&self, error: Option<&str>) -> (r: Reply)
        ensures
            r@ == self.power_answer(
                match error {
                    Some(e) => Some(e@),
                    None => None,
                },
            ),
    {
        match error {
            None => {
                let body = match self {
                    PowerRequest::Shutdown => "Shutdown command sent",
                    PowerRequest::Reboot => "Reboot command sent",
                };
                reply(none(), Status::Success, body)
            },
            Some(e) => {
                let text = match self {
                    PowerRequest::Shutdown => concat2("Failed to shutdown: ", e),
                    PowerRequest::Reboot => concat2("Failed to reboot: ", e),
                };
                reply(one(text.clone()), Status::ServerError, text.as_str())
            },
        }
    }
}

/// A new time fails only where the mount refuses it, and the reason is told.
pub proof fn law_answer_to_a_new_time(payload: TimePayload, outcome: Outcome)
    ensures
        payload.time_answer(outcome).status == Status::ServerError <==> outcome is Failed,
        !(outcome is Failed) ==> payload.time_answer(outcome).status == Status::Success,
        payload.time_answer(outcome).notes[0] == "Time updated: "@ + payload.utc_datetime@,
        outcome is Sent <==> payload.time_answer(outcome).notes.len() == 2 && payload.time_answer(
            outcome,
        ).status == Status::Success,
{
}

/// What is asked of the computer is answered with the word for it, and with its
/// error where it failed.
pub proof fn law_answer_to_a_power_request(error: Seq<char>)
    ensures
        PowerRequest::Shutdown.power_answer(None).body == "Shutdown command sent"@,
        PowerRequest::Reboot.power_answer(None).body == "Reboot command sent"@,
        PowerRequest::Shutdown.power_answer(None).status == Status::Success,
        PowerRequest::Reboot.power_answer(None).status == Status::Success,
        PowerRequest::Shutdown.power_answer(Some(error)).body == "Failed to shutdown: "@ + error,
        PowerRequest::Reboot.power_answer(Some(error)).body == "Failed to reboot: "@ + error,
        PowerRequest::Shutdown.power_answer(Some(error)).status == Status::ServerError,
        PowerRequest::Reboot.power_answer(Some(error)).status == Status::ServerError,
{
}

} // verus!
