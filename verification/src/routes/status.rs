//! The state of the server and of its devices.

use crate::indi::client::{coordinate, status_of, IndiClient};
use crate::notes::none;
use crate::routes::reply::{answer, reply, Reply, Status};
use crate::text::{concat3, same_text};
use vstd::prelude::*;

verus! {

/// A request that names an action.
#[derive(Debug, Clone)]
pub struct CommandCheck {
    pub action: String,
}

/// The answer to the request: one action is known.
pub fn receive_command(info: &CommandCheck) -> (r: Reply)
    ensures
        r@ == if info.action@ == "launch_function"@ {
            answer(Seq::empty(), Status::Success, "Function launched successfully"@)
        } else {
            answer(Seq::empty(), Status::BadRequest, "Unknown command"@)
        },
{
    if same_text(info.action.as_str(), "launch_function") {
        reply(none(), Status::Success, "Function launched successfully")
    } else {
        reply(none(), Status::BadRequest, "Unknown command")
    }
}

/// The answer to a request that asks whether the server is there.
pub fn ping() -> (r: Reply)
    ensures
        r@ == answer(Seq::empty(), Status::Success, "pong"@),
{
    reply(none(), Status::Success, "pong")
}

/// A published message as an event of a stream.
pub fn event_text(message: &str) -> (r: String)
    ensures
        r@ == "data: "@ + message@ + "\n\n"@,
{
    concat3("data: ", message, "\n\n")
}

/// What is told of the server and of its devices. Real numbers are text.
#[derive(Debug, Clone)]
pub struct StatusResponse {
    pub camera_connected: bool,
    pub eqmod_connected: bool,
    pub is_running: bool,
    pub mount_status: String,
    pub mount_ra: String,
    pub mount_dec: String,
    pub pier_side: String,
    pub hour_angle: Option<String>,
    /// The minutes until the mount flips, absent where no flip is ahead.
    pub time_to_flip_minutes: Option<String>,
}

/// What is told of the server and of its devices. `camera` says whether a camera
/// is connected, and is absent while it is in use. The hour angle and the time
/// to the flip are those of the mount, and not told without one.
pub fn status_response(
    camera: Option<bool>,
    client: Option<&IndiClient>,
    hour_angle: Option<String>,
    time_to_flip_minutes: Option<String>,
    running: bool,
) -> (r: StatusResponse)
    requires
        client matches Some(c) ==> c.wf(),
    ensures
        r.camera_connected == (camera != Some(false)),
        r.eqmod_connected == (client is Some),
        r.is_running == running,
        match client {
            Some(c) => {
                &&& r.mount_status@ == status_of(
                    c.property("TELESCOPE_PARK"@),
                    c.coordinates(),
                )
                &&& r.mount_ra@ == coordinate(c.coordinates(), "RA"@)
                &&& r.mount_dec@ == coordinate(c.coordinates(), "DEC"@)
                &&& r.pier_side@ == c.pier().label()
                &&& r.hour_angle == hour_angle
                &&& r.time_to_flip_minutes == time_to_flip_minutes
            },
            None => {
                &&& r.mount_status@ == "DISCONNECTED"@
                &&& r.mount_ra@ == "0"@
                &&& r.mount_dec@ == "0"@
                &&& r.pier_side@ == "UNKNOWN"@
                &&& r.hour_angle is None
                &&& r.time_to_flip_minutes is None
            },
        },
{
    let camera_connected = match camera {
        Some(c) => c,
        None => true,
    };
    match client {
        Some(c) => {
            let (mount_ra, mount_dec) = c.get_coordinates();
            StatusResponse {
                camera_connected,
                eqmod_connected: true,
                is_running: running,
                mount_status: c.get_mount_status(),
                mount_ra,
                mount_dec,
                pier_side: c.get_pier_side().name(),
                hour_angle,
                time_to_flip_minutes,
            }
        },
        None => StatusResponse {
            camera_connected,
            eqmod_connected: false,
            is_running: running,
            mount_status: "DISCONNECTED".to_owned(),
            mount_ra: "0".to_owned(),
            mount_dec: "0".to_owned(),
            pier_side: "UNKNOWN".to_owned(),
            hour_angle: None,
            time_to_flip_minutes: None,
        },
    }
}

} // verus!
