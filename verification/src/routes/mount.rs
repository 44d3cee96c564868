//! Requests that move the mount.

use crate::indi::client::{motion_command, rate_switches, IndiClient};
use crate::indi::command::switch_vector;
use crate::indi::error::IndiError;
use crate::indi::pier::PierSide;
use crate::notes::{added, none, one, two};
use crate::routes::reply::{answer, reply, Reply, ReplyView, Status};
use crate::sexagesimal::{
    angle_parts, parse_angle, parse_real_triple, parse_time, real_triple, time_parts,
};
use crate::text::{concat2, concat3, lowercase_of, same_text, texts};
use vstd::prelude::*;

verus! {

/// A request to slew.
#[derive(Debug)]
pub struct GoToPayload {
    /// Right ascension "HH:MM:SS".
    pub ra: String,
    /// Declination "DD:MM:SS".
    pub dec: String,
    pub closed_loop: Option<bool>,
}

/// A request to move by hand.
#[derive(Debug)]
pub struct ManualMovePayload {
    /// "north", "south", "east" or "west".
    pub direction: String,
    /// "start" to begin moving, anything else to stop.
    pub action: String,
    /// The slew rate, from 0; applied at a start only.
    pub rate: Option<u8>,
}

/// A request to flip the mount.
#[derive(Debug)]
pub struct MeridianFlipPayload {
    /// Right ascension "HH:MM:SS".
    pub ra: String,
    /// Declination "DD:MM:SS".
    pub dec: String,
}

/// What a mount that is not connected makes of a request.
pub open spec fn not_connected(notes: Seq<Seq<char>>) -> ReplyView {
    answer(notes, Status::ServerError, "EQMod not connected"@)
}

// ---------------------------------------------------------------------------
// Slews
// ---------------------------------------------------------------------------

/// What becomes of a request to slew.
#[derive(Debug)]
pub enum GotoDecision {
    /// The request is refused. The running flag is cleared again only where
    /// the mount is not connected.
    Refuse { reply: Reply, clear_running: bool },
    /// The mount slews to hours, minutes and seconds, and degrees, minutes and
    /// seconds.
    Start {
        note: String,
        ra: (u8, u8, String),
        dec: (i64, i64, String),
        closed_loop: bool,
    },
}

impl GoToPayload {
    /// The message that a request was received.
    pub open spec fn received(self) -> Seq<char> {
        "Received GoTo request: RA="@ + self.ra@ + ", DEC="@ + self.dec@
    }

    /// Decides on a request to slew. The running flag is set before.
    pub fn decide(&self, connected: bool) -> (r: GotoDecision)
        ensures
            match r {
                GotoDecision::Refuse { reply, clear_running } => {
                    &&& clear_running == !connected
                    &&& reply@ == if !connected {
                        not_connected(seq![self.received()])
                    } else if time_parts(self.ra@) is None {
                        answer(
                            seq![self.received()],
                            Status::BadRequest,
                            "Invalid RA format. Expected HH:MM:SS"@,
                        )
                    } else {
                        answer(
                            seq![self.received()],
                            Status::BadRequest,
                            "Invalid DEC format. Expected DD:MM:SS"@,
                        )
                    }
                    &&& connected && time_parts(self.ra@) is Some ==> angle_parts(self.dec@)
                        is None
                },
                GotoDecision::Start { note, ra, dec, closed_loop } => {
                    &&& connected
                    &&& note@ == self.received()
                    &&& time_parts(self.ra@) == Some((ra.0 as nat, ra.1 as nat, ra.2@))
                    &&& angle_parts(self.dec@) == Some((dec.0 as int, dec.1 as int, dec.2@))
                    &&& closed_loop == (self.closed_loop == Some(true))
                },
            },
    {
        let mut note = concat3("Received GoTo request: RA=", self.ra.as_str(), ", DEC=");
        note.append(self.dec.as_str());
        if !connected {
            return GotoDecision::Refuse {
                reply: reply(one(note), Status::ServerError, "EQMod not connected"),
                clear_running: true,
            };
        }
        let ra = match parse_time(self.ra.as_str()) {
            Some(v) => v,
            None => return GotoDecision::Refuse {
                reply: reply(
                    one(note),
                    Status::BadRequest,
                    "Invalid RA format. Expected HH:MM:SS",
                ),
                clear_running: false,
            },
        };
        let dec = match parse_angle(self.dec.as_str()) {
            Some(v) => v,
            None => return GotoDecision::Refuse {
                reply: reply(
                    one(note),
                    Status::BadRequest,
                    "Invalid DEC format. Expected DD:MM:SS",
                ),
                clear_running: false,
            },
        };
        let closed_loop = match self.closed_loop {
            Some(b) => b,
            None => false,
        };
        GotoDecision::Start { note, ra, dec, closed_loop }
    }
}

/// The answer when a slew has ended.
pub fn goto_reply(error: Option<&str>) -> (r: Reply)
    ensures
        r@ == match error {
            None => answer(seq![], Status::Success, "GoTo completed successfully"@),
            Some(e) => answer(
                seq!["GoTo failed: "@ + e@],
                Status::ServerError,
                "GoTo failed: "@ + e@,
            ),
        },
{
    match error {
        None => reply(none(), Status::Success, "GoTo completed successfully"),
        Some(e) => {
            let note = concat2("GoTo failed: ", e);
            let body = concat2("GoTo failed: ", e);
            reply(one(note), Status::ServerError, body.as_str())
        },
    }
}

// ---------------------------------------------------------------------------
// Motion by hand
// ---------------------------------------------------------------------------

/// What a request to move by hand sends.
#[derive(Debug)]
pub struct ManualPlan {
    pub direction: String,
    pub start: bool,
    /// The command that sets the rate. A failure to send it is passed over.
    pub rate: Option<String>,
    pub motion: Result<String, IndiError>,
}

/// What a request to move by hand sends, given its direction and its action in
/// lower case.
pub fn manual_plan(client: &IndiClient, direction: &str, action: &str, rate: Option<u8>) -> (r:
    ManualPlan)
    ensures
        r.direction@ == direction@,
        r.start == (action@ == "start"@),
        match r.rate {
            Some(command) => r.start && rate is Some && command@ == switch_vector(
                client.device_name@,
                "TELESCOPE_SLEW_RATE"@,
                rate_switches(rate->0 as int),
            ),
            None => !r.start || rate is None,
        },
        match r.motion {
            Ok(command) => motion_command(client.device_name@, direction@, r.start) == Some(
                command@,
            ),
            Err(e) => {
                &&& motion_command(client.device_name@, direction@, r.start) is None
                &&& e is Command
                &&& e->Command_0@ == "Unknown direction: "@ + direction@
            },
        },
{
    let start = same_text(action, "start");
    let rate = if start {
        match rate {
            Some(n) => {
                let capped: u8 = if n < 8 {
                    n
                } else {
                    8
                };
                assert(rate_switches(capped as int) =~= rate_switches(n as int));
                Some(client.set_slew_rate(capped))
            },
            None => None,
        }
    } else {
        None
    };
    let motion = client.manual_move(direction, start);
    ManualPlan { direction: direction.to_owned(), start, rate, motion }
}

impl ManualMovePayload {
    /// What the request sends.
    pub fn plan(&self, client: &IndiClient) -> (r: ManualPlan)
        ensures
            r.direction@ == lowercase_of(self.direction@),
            r.start == (lowercase_of(self.action@) == "start"@),
            match r.rate {
                Some(command) => r.start && self.rate is Some && command@ == switch_vector(
                    client.device_name@,
                    "TELESCOPE_SLEW_RATE"@,
                    rate_switches(self.rate->0 as int),
                ),
                None => !r.start || self.rate is None,
            },
            match r.motion {
                Ok(command) => motion_command(
                    client.device_name@,
                    lowercase_of(self.direction@),
                    r.start,
                ) == Some(command@),
                Err(e) => {
                    &&& motion_command(
                        client.device_name@,
                        lowercase_of(self.direction@),
                        r.start,
                    ) is None
                    &&& e is Command
                    &&& e->Command_0@ == "Unknown direction: "@ + lowercase_of(self.direction@)
                },
            },
    {
        let direction = self.direction.as_str().to_lowercase();
        let action = self.action.as_str().to_lowercase();
        manual_plan(client, direction.as_str(), action.as_str(), self.rate)
    }
}

/// The answer when a motion by hand was started or stopped.
pub fn manual_reply(direction: &str, start: bool, error: Option<&str>) -> (r: Reply)
    ensures
        r@ == match error {
            None => {
                let msg = "Manual move "@ + direction@ + " "@ + if start {
                    "started"@
                } else {
                    "stopped"@
                };
                answer(seq![msg], Status::Success, msg)
            },
            Some(e) => {
                let msg = "Manual move failed: "@ + e@;
                answer(seq![msg], Status::ServerError, msg)
            },
        },
{
    match error {
        None => {
            let mut msg = concat3("Manual move ", direction, " ");
            msg.append(
                if start {
                    "started"
                } else {
                    "stopped"
                },
            );
            let note = msg.as_str().to_owned();
            reply(one(note), Status::Success, msg.as_str())
        },
        Some(e) => {
            let msg = concat2("Manual move failed: ", e);
            let note = msg.as_str().to_owned();
            reply(one(note), Status::ServerError, msg.as_str())
        },
    }
}

// ---------------------------------------------------------------------------
// Parking, stopping, flipping, disconnecting
// ---------------------------------------------------------------------------

/// How a command to the mount ended.
#[derive(Debug)]
pub enum Outcome {
    /// The mount is not connected.
    NotConnected,
    Sent,
    Failed { error: String },
}

/// The answer to a request to park.
pub fn park_reply(outcome: &Outcome) -> (r: Reply)
    ensures
        r@ == match *outcome {
            Outcome::NotConnected => not_connected(seq!["Received Park request"@]),
            Outcome::Sent => answer(
                seq!["Received Park request"@, "Park command sent."@],
                Status::Success,
                "Park signal sent"@,
            ),
            Outcome::Failed { error } => answer(
                seq!["Received Park request"@, "Failed to park: "@ + error@],
                Status::ServerError,
                "Failed to park: "@ + error@,
            ),
        },
{
    let received = "Received Park request".to_owned();
    match outcome {
        Outcome::NotConnected => reply(one(received), Status::ServerError, "EQMod not connected"),
        Outcome::Sent => reply(
            two(received, "Park command sent.".to_owned()),
            Status::Success,
            "Park signal sent",
        ),
        Outcome::Failed { error } => {
            let note = concat2("Failed to park: ", error.as_str());
            let body = concat2("Failed to park: ", error.as_str());
            reply(two(received, note), Status::ServerError, body.as_str())
        },
    }
}

/// The answer to a request to unpark.
pub fn unpark_reply(outcome: &Outcome) -> (r: Reply)
    ensures
        r@ == match *outcome {
            Outcome::NotConnected => not_connected(seq!["Received Unpark request"@]),
            Outcome::Sent => answer(
                seq!["Received Unpark request"@, "Unpark command sent."@],
                Status::Success,
                "Unpark signal sent"@,
            ),
            Outcome::Failed { error } => answer(
                seq!["Received Unpark request"@, "Failed to unpark: "@ + error@],
                Status::ServerError,
                "Failed to unpark: "@ + error@,
            ),
        },
{
    let received = "Received Unpark request".to_owned();
    match outcome {
        Outcome::NotConnected => reply(one(received), Status::ServerError, "EQMod not connected"),
        Outcome::Sent => reply(
            two(received, "Unpark command sent.".to_owned()),
            Status::Success,
            "Unpark signal sent",
        ),
        Outcome::Failed { error } => {
            let note = concat2("Failed to unpark: ", error.as_str());
            let body = concat2("Failed to unpark: ", error.as_str());
            reply(two(received, note), Status::ServerError, body.as_str())
        },
    }
}

/// The answer to a request to stop all motion. It is given whatever became of
/// the command.
pub fn abort_reply(outcome: &Outcome) -> (r: Reply)
    ensures
        r@ == answer(
            match *outcome {
                Outcome::NotConnected => seq!["Received Abort request"@],
                Outcome::Sent => seq![
                    "Received Abort request"@,
                    "Aborting motion..."@,
                    "Abort command sent."@,
                ],
                Outcome::Failed { error } => seq![
                    "Received Abort request"@,
                    "Aborting motion..."@,
                    "Failed to abort motion: "@ + error@,
                ],
            },
            Status::Success,
            "Abort signal sent"@,
        ),
{
    let received = "Received Abort request".to_owned();
    let notes = match outcome {
        Outcome::NotConnected => one(received),
        Outcome::Sent => added(
            two(received, "Aborting motion...".to_owned()),
            "Abort command sent.".to_owned(),
        ),
        Outcome::Failed { error } => added(
            two(received, "Aborting motion...".to_owned()),
            concat2("Failed to abort motion: ", error.as_str()),
        ),
    };
    assert(texts(notes@) =~= match *outcome {
        Outcome::NotConnected => seq!["Received Abort request"@],
        Outcome::Sent => seq![
            "Received Abort request"@,
            "Aborting motion..."@,
            "Abort command sent."@,
        ],
        Outcome::Failed { error } => seq![
            "Received Abort request"@,
            "Aborting motion..."@,
            "Failed to abort motion: "@ + error@,
        ],
    });
    reply(notes, Status::Success, "Abort signal sent")
}

impl MeridianFlipPayload {
    /// The answer to a request to flip that is refused; nothing where the
    /// mount flips.
    pub open spec fn refusal_view(self, connected: bool) -> Option<ReplyView> {
        let notes = seq!["Received Force Meridian Flip request"@];
        if real_triple(self.ra@) is None {
            Some(answer(notes, Status::BadRequest, "Invalid RA format. Expected HH:MM:SS"@))
        } else if real_triple(self.dec@) is None {
            Some(answer(notes, Status::BadRequest, "Invalid DEC format. Expected DD:MM:SS"@))
        } else if !connected {
            Some(not_connected(notes))
        } else {
            None
        }
    }

    /// The answer to a request to flip that is refused; nothing where the
    /// mount flips.
    pub fn refusal(&self, connected: bool) -> (r: Option<Reply>)
        ensures
            match r {
                Some(reply) => self.refusal_view(connected) == Some(reply@),
                None => self.refusal_view(connected) is None,
            },
    {
        let received = one("Received Force Meridian Flip request".to_owned());
        if parse_real_triple(self.ra.as_str()).is_none() {
            Some(reply(received, Status::BadRequest, "Invalid RA format. Expected HH:MM:SS"))
        } else if parse_real_triple(self.dec.as_str()).is_none() {
            Some(reply(received, Status::BadRequest, "Invalid DEC format. Expected DD:MM:SS"))
        } else if !connected {
            Some(reply(received, Status::ServerError, "EQMod not connected"))
        } else {
            None
        }
    }
}

/// The messages before a forced flip. The coordinates are text with four
/// decimals.
pub fn flip_notes(ra: &str, dec: &str) -> (r: Vec<String>)
    ensures
        texts(r@) == seq![
            "Received Force Meridian Flip request"@,
            "Force meridian flip to RA="@ + ra@ + "h, Dec="@ + dec@ + "°"@,
        ],
{
    let mut note = concat3("Force meridian flip to RA=", ra, "h, Dec=");
    note.append(dec);
    note.append("°");
    two("Received Force Meridian Flip request".to_owned(), note)
}

/// The answer when a forced flip has ended.
pub fn flip_reply(result: Result<PierSide, &str>) -> (r: Reply)
    ensures
        r@ == match result {
            Ok(side) => answer(
                seq!["Meridian flip complete. New pier side: "@ + side.label()],
                Status::Success,
                "Flip complete. Pier side: "@ + side.label(),
            ),
            Err(e) => answer(
                seq!["Meridian flip failed: "@ + e@],
                Status::ServerError,
                "Meridian flip failed: "@ + e@,
            ),
        },
{
    match result {
        Ok(side) => {
            let note = concat2(
                "Meridian flip complete. New pier side: ",
                side.name().as_str(),
            );
            let body = concat2("Flip complete. Pier side: ", side.name().as_str());
            reply(one(note), Status::Success, body.as_str())
        },
        Err(e) => {
            let note = concat2("Meridian flip failed: ", e);
            let body = concat2("Meridian flip failed: ", e);
            reply(one(note), Status::ServerError, body.as_str())
        },
    }
}

/// The messages of a request to disconnect, given whether the mount was
/// disconnected and whether a camera was dropped.
pub open spec fn disconnect_notes(mount: bool, camera: bool) -> Seq<Seq<char>> {
    let first = seq!["Received Disconnect request"@];
    let second = if mount {
        first.push("EQMod disconnected."@)
    } else {
        first
    };
    if camera {
        second.push("Camera disconnected."@)
    } else {
        second
    }
}

/// The answer to a request to disconnect.
pub fn disconnect_reply(mount: bool, camera: bool) -> (r: Reply)
    ensures
        r@ == answer(
            disconnect_notes(mount, camera),
            Status::Success,
            "Disconnected successfully"@,
        ),
{
    let mut notes = one("Received Disconnect request".to_owned());
    if mount {
        notes = added(notes, "EQMod disconnected.".to_owned());
    }
    if camera {
        notes = added(notes, "Camera disconnected.".to_owned());
    }
    reply(notes, Status::Success, "Disconnected successfully")
}

/// A request to flip is refused for its right ascension first, for its
/// declination next, and where the mount is not connected last; else the mount
/// flips.
pub proof fn law_refused_flip(payload: MeridianFlipPayload, connected: bool)
    ensures
        ({
            let ra = real_triple(payload.ra@);
            let dec = real_triple(payload.dec@);
            let notes = seq!["Received Force Meridian Flip request"@];
            let refusal = payload.refusal_view(connected);
            &&& refusal is None <==> ra is Some && dec is Some && connected
            &&& ra is None ==> refusal == Some(
                answer(notes, Status::BadRequest, "Invalid RA format. Expected HH:MM:SS"@),
            )
            &&& ra is Some && dec is None ==> refusal == Some(
                answer(notes, Status::BadRequest, "Invalid DEC format. Expected DD:MM:SS"@),
            )
            &&& ra is Some && dec is Some && !connected ==> refusal == Some(
                answer(notes, Status::ServerError, "EQMod not connected"@),
            )
        }),
{
}

/// What is told of a request to disconnect: that it was received, and each of
/// the devices that were disconnected, the mount first.
pub proof fn law_disconnected_devices_are_told(mount: bool, camera: bool)
    ensures
        ({
            let notes = disconnect_notes(mount, camera);
            &&& notes[0] == "Received Disconnect request"@
            &&& mount && camera ==> notes == seq![
                notes[0],
                "EQMod disconnected."@,
                "Camera disconnected."@,
            ]
            &&& mount && !camera ==> notes == seq![notes[0], "EQMod disconnected."@]
            &&& !mount && camera ==> notes == seq![notes[0], "Camera disconnected."@]
            &&& !mount && !camera ==> notes == seq![notes[0]]
        }),
{
}

/// What is told of a request to slew names both its coordinates, the right
/// ascension first.
pub proof fn law_slew_request_is_told(payload: GoToPayload)
    ensures
        payload.received() == "Received GoTo request: RA="@ + payload.ra@ + ", DEC="@
            + payload.dec@,
        not_connected(seq![payload.received()]) == answer(
            seq![payload.received()],
            Status::ServerError,
            "EQMod not connected"@,
        ),
{
}

} // verus!
