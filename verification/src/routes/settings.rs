//! Requests to change settings and the location.

use crate::notes::{one, two};
use crate::routes::mount::Outcome;
use crate::routes::reply::{answer, reply, Reply, ReplyView, Status};
use crate::state::Location;
use crate::text::{concat2, concat3};
use vstd::prelude::*;

verus! {

/// What is published of a new location.
pub open spec fn location_note(place: Location) -> Seq<char> {
    "Location updated: "@ + place.latitude@ + ", "@ + place.longitude@ + ", "@ + place.elevation@
}

/// The answer to a request to change the location, given what came of telling
/// the mount. That the mount does not take the location is no failure of the
/// request.
pub open spec fn location_answer(place: Location, outcome: Outcome) -> ReplyView {
    let updated = location_note(place);
    let notes = match outcome {
        Outcome::NotConnected => seq![updated],
        Outcome::Sent => seq![updated, "Location updated on EQMod."@],
        Outcome::Failed { error: e } => seq![updated, "Failed to update location on EQMod: "@ + e@],
    };
    answer(notes, Status::Success, "Location updated successfully"@)
}

/// The answer to a request to change the location.
pub fn location_reply(place: &Location, outcome: &Outcome) -> (r: Reply)
    ensures
        r@ == location_answer(*place, *outcome),
{
    let mut updated = concat3("Location updated: ", place.latitude.as_str(), ", ");
    updated.append(place.longitude.as_str());
    updated.append(", ");
    updated.append(place.elevation.as_str());
    let notes = match outcome {
        Outcome::NotConnected => one(updated),
        Outcome::Sent => two(updated, "Location updated on EQMod.".to_owned()),
        Outcome::Failed { error: e } => two(
            updated,
            concat2("Failed to update location on EQMod: ", e.as_str()),
        ),
    };
    reply(notes, Status::Success, "Location updated successfully")
}

/// The answer to a request to change settings.
pub fn settings_reply() -> (r: Reply)
    ensures
        r@ == answer(seq!["Settings updated."@], Status::Success, "Settings updated"@),
{
    reply(one("Settings updated.".to_owned()), Status::Success, "Settings updated")
}

/// A new location is answered with success, whatever the mount makes of it, and
/// what the mount made of it is told behind the location.
pub proof fn law_answer_to_a_new_location(place: Location, outcome: Outcome)
    ensures
        ({
            let r = location_answer(place, outcome);
            let told = "Location updated: "@ + place.latitude@ + ", "@ + place.longitude@ + ", "@
                + place.elevation@;
            &&& r.status == Status::Success
            &&& r.notes[0] == told
            &&& outcome is NotConnected ==> r.notes.len() == 1
            &&& outcome is Sent ==> r.notes == seq![told, "Location updated on EQMod."@]
            &&& outcome matches Outcome::Failed { error } ==> r.notes == seq![
                told,
                "Failed to update location on EQMod: "@ + error@,
            ]
        }),
{
}

} // verus!
