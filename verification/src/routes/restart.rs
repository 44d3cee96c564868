//! Restarting the INDI server.
//!
//! The restart is a machine: the driver performs a request and reports its
//! outcome.

use crate::notes::{none, one, two};
use crate::number::{decimal, decimal_text};
use crate::routes::reply::Status;
use crate::text::{concat2, concat3, texts};
use vstd::prelude::*;

verus! {

/// The number of attempts to reconnect the mount.
pub const RECONNECT_ATTEMPTS: u8 = 3;

/// What the driver of a restart is waiting for.
#[derive(Debug, Clone, Copy, PartialEq, Eq, Structural)]
pub enum RestartWaiting {
    /// The end of the server that was started before.
    Killed,
    /// The end of all other servers.
    Swept,
    /// The start of the new server.
    Spawned,
    /// A reconnection, of which `attempts` have failed.
    Reconnected { attempts: u8 },
    /// Nothing: the answer was given.
    Over,
}

/// What the driver of a restart shall do.
#[derive(Debug)]
pub enum RestartRequest {
    /// Kill the server that was started before, and wait for its end.
    Kill,
    /// Kill all servers by name.
    Sweep,
    /// Wait this many milliseconds and start a server.
    Spawn { after_ms: u64 },
    /// Wait this many milliseconds, drop the old connection and connect.
    Connect { after_ms: u64 },
    /// Wait this many milliseconds and give the answer.
    Respond { after_ms: u64, status: Status, body: String },
}

/// A request, with its text.
pub enum RestartRequestView {
    Kill,
    Sweep,
    Spawn { after_ms: u64 },
    Connect { after_ms: u64 },
    Respond { after_ms: u64, status: Status, body: Seq<char> },
}

impl View for RestartRequest {
    type V = RestartRequestView;

    open spec fn view(&self) -> RestartRequestView {
        match *self {
            RestartRequest::Kill => RestartRequestView::Kill,
            RestartRequest::Sweep => RestartRequestView::Sweep,
            RestartRequest::Spawn { after_ms } => RestartRequestView::Spawn { after_ms },
            RestartRequest::Connect { after_ms } => RestartRequestView::Connect { after_ms },
            RestartRequest::Respond { after_ms, status, body } => RestartRequestView::Respond {
                after_ms,
                status,
                body: body@,
            },
        }
    }
}

/// What the driver of a restart reports.
#[derive(Debug)]
pub enum RestartReport {
    Done,
    /// The new server runs as this process.
    Started { pid: u32 },
    Failed { error: String },
}

/// What a step of a restart gives. The first messages are published before the
/// request, the late ones behind its waiting time.
#[derive(Debug)]
pub struct RestartStep {
    pub notes: Vec<String>,
    pub late_notes: Vec<String>,
    pub request: RestartRequest,
    pub waiting: RestartWaiting,
}

/// What a step of a restart gives, with its texts.
pub struct RestartStepView {
    pub notes: Seq<Seq<char>>,
    pub late_notes: Seq<Seq<char>>,
    pub request: RestartRequestView,
    pub waiting: RestartWaiting,
}

impl View for RestartStep {
    type V = RestartStepView;

    open spec fn view(&self) -> RestartStepView {
        RestartStepView {
            notes: texts(self.notes@),
            late_notes: texts(self.late_notes@),
            request: self.request@,
            waiting: self.waiting,
        }
    }
}

/// The report `r` answers what `w` waits for.
pub open spec fn answers(w: RestartWaiting, r: RestartReport) -> bool {
    match w {
        RestartWaiting::Killed | RestartWaiting::Reconnected { .. } => r is Done || r is Failed,
        RestartWaiting::Swept => r is Done,
        RestartWaiting::Spawned => r is Started || r is Failed,
        RestartWaiting::Over => false,
    }
}

/// A restart can wait for this.
pub open spec fn in_bounds(w: RestartWaiting) -> bool {
    w matches RestartWaiting::Reconnected { attempts } ==> attempts < RECONNECT_ATTEMPTS
}

/// The first step, given whether a server was started before.
pub open spec fn first_step(has_child: bool) -> RestartStepView {
    if has_child {
        RestartStepView {
            notes: seq![
                "Received Restart INDI request"@,
                "Killing existing INDI server process..."@,
            ],
            late_notes: seq![],
            request: RestartRequestView::Kill,
            waiting: RestartWaiting::Killed,
        }
    } else {
        RestartStepView {
            notes: seq!["Received Restart INDI request"@],
            late_notes: seq![],
            request: RestartRequestView::Sweep,
            waiting: RestartWaiting::Swept,
        }
    }
}

/// A server is started.
pub open spec fn spawn(notes: Seq<Seq<char>>) -> RestartStepView {
    RestartStepView {
        notes,
        late_notes: seq!["Starting new INDI server..."@],
        request: RestartRequestView::Spawn { after_ms: 1000 },
        waiting: RestartWaiting::Spawned,
    }
}

/// The answer is given.
pub open spec fn respond(
    notes: Seq<Seq<char>>,
    after_ms: u64,
    late_notes: Seq<Seq<char>>,
    status: Status,
    body: Seq<char>,
) -> RestartStepView {
    RestartStepView {
        notes,
        late_notes,
        request: RestartRequestView::Respond { after_ms, status, body },
        waiting: RestartWaiting::Over,
    }
}

/// What the restart does on report `r`.
pub open spec fn next_step(w: RestartWaiting, r: RestartReport) -> RestartStepView {
    match (w, r) {
        (RestartWaiting::Killed, RestartReport::Done) => spawn(seq![]),
        (RestartWaiting::Killed, RestartReport::Failed { error }) => spawn(
            seq!["Failed to kill process: "@ + error@],
        ),
        (RestartWaiting::Swept, _) => spawn(seq!["Sent pkill indiserver command as fallback"@]),
        (RestartWaiting::Spawned, RestartReport::Started { pid }) => RestartStepView {
            notes: seq![
                "INDI server started with PID: "@ + decimal(pid as nat),
                "Waiting 2s for INDI server initialization..."@,
            ],
            late_notes: seq!["Reconnecting EQMod client..."@],
            request: RestartRequestView::Connect { after_ms: 2000 },
            waiting: RestartWaiting::Reconnected { attempts: 0 },
        },
        (RestartWaiting::Spawned, RestartReport::Failed { error }) => respond(
            seq!["Failed to start INDI server: "@ + error@],
            0,
            seq![],
            Status::ServerError,
            "Failed to start INDI server: "@ + error@,
        ),
        (RestartWaiting::Reconnected { .. }, RestartReport::Done) => respond(
            seq!["EQMod reconnected successfully."@],
            0,
            seq![],
            Status::Success,
            "INDI server restarted and EQMod reconnected."@,
        ),
        (RestartWaiting::Reconnected { attempts }, RestartReport::Failed { error }) => {
            let note = "Failed to reconnect to EQMod (attempt "@ + decimal((attempts + 1) as nat)
                + "): "@ + error@;
            if attempts + 1 < RECONNECT_ATTEMPTS {
                RestartStepView {
                    notes: seq![note],
                    late_notes: seq![],
                    request: RestartRequestView::Connect { after_ms: 2000 },
                    waiting: RestartWaiting::Reconnected { attempts: (attempts + 1) as u8 },
                }
            } else {
                respond(
                    seq![note],
                    2000,
                    seq!["Failed to reconnect to EQMod after multiple attempts."@],
                    Status::ServerError,
                    "INDI restarted but EQMod reconnect failed after multiple attempts."@,
                )
            }
        },
        _ => respond(seq![], 0, seq![], Status::ServerError, Seq::empty()),
    }
}

/// Starts the restart, given whether a server was started before.
pub fn begin(has_child: bool) -> (s: RestartStep)
    ensures
        s@ == first_step(has_child),
        in_bounds(s.waiting),
{
    if has_child {
        RestartStep {
            notes: two(
                "Received Restart INDI request".to_owned(),
                "Killing existing INDI server process...".to_owned(),
            ),
            late_notes: none(),
            request: RestartRequest::Kill,
            waiting: RestartWaiting::Killed,
        }
    } else {
        RestartStep {
            notes: one("Received Restart INDI request".to_owned()),
            late_notes: none(),
            request: RestartRequest::Sweep,
            waiting: RestartWaiting::Swept,
        }
    }
}

fn start_server(notes: Vec<String>) -> (s: RestartStep)
    ensures
        s@ == spawn(texts(notes@)),
{
    RestartStep {
        notes,
        late_notes: one("Starting new INDI server...".to_owned()),
        request: RestartRequest::Spawn { after_ms: 1000 },
        waiting: RestartWaiting::Spawned,
    }
}

/// Takes the report `r` and goes on.
pub fn advance(w: RestartWaiting, r: RestartReport) -> (s: RestartStep)
    requires
        in_bounds(w),
        answers(w, r),
    ensures
        s@ == next_step(w, r),
        in_bounds(s.waiting),
{
    match (w, r) {
        (RestartWaiting::Killed, RestartReport::Done) => start_server(none()),
        (RestartWaiting::Killed, RestartReport::Failed { error }) => start_server(
            one(concat2("Failed to kill process: ", error.as_str())),
        ),
        (RestartWaiting::Swept, _) => start_server(
            one("Sent pkill indiserver command as fallback".to_owned()),
        ),
        (RestartWaiting::Spawned, RestartReport::Started { pid }) => RestartStep {
            notes: two(
                concat2("INDI server started with PID: ", decimal_text(pid as u64).as_str()),
                "Waiting 2s for INDI server initialization...".to_owned(),
            ),
            late_notes: one("Reconnecting EQMod client...".to_owned()),
            request: RestartRequest::Connect { after_ms: 2000 },
            waiting: RestartWaiting::Reconnected { attempts: 0 },
        },
        (RestartWaiting::Spawned, RestartReport::Failed { error }) => RestartStep {
            notes: one(concat2("Failed to start INDI server: ", error.as_str())),
            late_notes: none(),
            request: RestartRequest::Respond {
                after_ms: 0,
                status: Status::ServerError,
                body: concat2("Failed to start INDI server: ", error.as_str()),
            },
            waiting: RestartWaiting::Over,
        },
        (RestartWaiting::Reconnected { .. }, RestartReport::Done) => RestartStep {
            notes: one("EQMod reconnected successfully.".to_owned()),
            late_notes: none(),
            request: RestartRequest::Respond {
                after_ms: 0,
                status: Status::Success,
                body: "INDI server restarted and EQMod reconnected.".to_owned(),
            },
            waiting: RestartWaiting::Over,
        },
        (RestartWaiting::Reconnected { attempts }, RestartReport::Failed { error }) => {
            let mut note = concat3(
                "Failed to reconnect to EQMod (attempt ",
                decimal_text(attempts as u64 + 1).as_str(),
                "): ",
            );
            note.append(error.as_str());
            if attempts + 1 < RECONNECT_ATTEMPTS {
                RestartStep {
                    notes: one(note),
                    late_notes: none(),
                    request: RestartRequest::Connect { after_ms: 2000 },
                    waiting: RestartWaiting::Reconnected { attempts: attempts + 1 },
                }
            } else {
                RestartStep {
                    notes: one(note),
                    late_notes: one(
                        "Failed to reconnect to EQMod after multiple attempts.".to_owned(),
                    ),
                    request: RestartRequest::Respond {
                        after_ms: 2000,
                        status: Status::ServerError,
                        body:
                            "INDI restarted but EQMod reconnect failed after multiple attempts.".to_owned(),
                    },
                    waiting: RestartWaiting::Over,
                }
            }
        },
        _ => RestartStep {
            notes: none(),
            late_notes: none(),
            request: RestartRequest::Respond {
                after_ms: 0,
                status: Status::ServerError,
                body: "".to_owned(),
            },
            waiting: RestartWaiting::Over,
        },
    }
}

// ---------------------------------------------------------------------------
// Laws
// ---------------------------------------------------------------------------

/// How many reports a restart takes at most from here.
pub open spec fn steps_left(w: RestartWaiting) -> int {
    match w {
        RestartWaiting::Killed | RestartWaiting::Swept => 5,
        RestartWaiting::Spawned => 4,
        RestartWaiting::Reconnected { attempts } => RECONNECT_ATTEMPTS - attempts,
        RestartWaiting::Over => 0,
    }
}

/// Every restart ends with an answer: behind each report fewer steps are left.
pub proof fn law_restart_ends(w: RestartWaiting, r: RestartReport)
    requires
        in_bounds(w),
        answers(w, r),
    ensures
        0 <= steps_left(next_step(w, r).waiting) < steps_left(w),
        next_step(w, r).waiting is Over <==> next_step(w, r).request is Respond,
{
}

/// The answer is a success exactly when the mount was reconnected.
pub proof fn law_success_means_reconnected(w: RestartWaiting, r: RestartReport)
    requires
        in_bounds(w),
        answers(w, r),
    ensures
        (next_step(w, r).request matches RestartRequestView::Respond { status, .. } && status
            is Success) <==> (w is Reconnected && r is Done),
{
}

/// A restart kills the server that was started before, or else all servers by
/// name, and then starts a new one whatever came of that. The mount is connected
/// once the server runs.
pub proof fn law_course_of_a_restart(pid: u32, error: String)
    ensures
        first_step(true).request is Kill,
        first_step(false).request is Sweep,
        next_step(first_step(true).waiting, RestartReport::Done).request == (
        RestartRequestView::Spawn { after_ms: 1000 }),
        next_step(first_step(true).waiting, RestartReport::Failed { error }).request == (
        RestartRequestView::Spawn { after_ms: 1000 }),
        next_step(first_step(false).waiting, RestartReport::Done).request == (
        RestartRequestView::Spawn { after_ms: 1000 }),
        ({
            let spawned = next_step(first_step(false).waiting, RestartReport::Done).waiting;
            let up = next_step(spawned, RestartReport::Started { pid });
            let down = next_step(spawned, RestartReport::Failed { error });
            &&& up.request == (RestartRequestView::Connect { after_ms: 2000 })
            &&& up.notes[0] == "INDI server started with PID: "@ + decimal(pid as nat)
            &&& down.request is Respond
            &&& down.request->status == Status::ServerError
            &&& down.request->body == "Failed to start INDI server: "@ + error@
        }),
{
}

/// What the restart waits for behind `n` failures to connect the mount.
pub open spec fn behind_failures(n: nat, error: String) -> RestartStepView
    decreases n,
{
    if n == 0 {
        RestartStepView {
            notes: Seq::empty(),
            late_notes: Seq::empty(),
            request: RestartRequestView::Connect { after_ms: 2000 },
            waiting: RestartWaiting::Reconnected { attempts: 0 },
        }
    } else {
        next_step(
            behind_failures((n - 1) as nat, error).waiting,
            RestartReport::Failed { error },
        )
    }
}

/// The mount is connected up to three times: behind the first and the second
/// failure it is tried again, and behind the third the answer is a failure. Any
/// of them that succeeds is answered with success.
pub proof fn law_three_attempts_to_connect(error: String)
    ensures
        behind_failures(1, error).request is Connect,
        behind_failures(2, error).request is Connect,
        behind_failures(3, error).request is Respond,
        behind_failures(3, error).request->status == Status::ServerError,
        forall|n: nat|
            n < 3 ==> {
                let s = #[trigger] next_step(
                    behind_failures(n, error).waiting,
                    RestartReport::Done,
                );
                s.request is Respond && s.request->status == Status::Success
            },
{
    reveal_with_fuel(behind_failures, 4);
    assert forall|n: nat| n < 3 implies ({
        let s = #[trigger] next_step(behind_failures(n, error).waiting, RestartReport::Done);
        s.request is Respond && s.request->status == Status::Success
    }) by {
        assert(n == 0 || n == 1 || n == 2);
    }
}

/// The answers of a restart: each failure to connect is told with the number of
/// the attempt and its reason, the last one is answered two seconds later, and a
/// success is answered at once.
pub proof fn law_attempts_are_told(attempts: u8, error: String)
    requires
        attempts < 3,
    ensures
        ({
            let waiting = RestartWaiting::Reconnected { attempts };
            let lost = next_step(waiting, RestartReport::Failed { error });
            let won = next_step(waiting, RestartReport::Done);
            &&& lost.notes == seq![
                "Failed to reconnect to EQMod (attempt "@ + decimal((attempts + 1) as nat) + "): "@
                    + error@,
            ]
            &&& attempts < 2 ==> lost.request == (RestartRequestView::Connect { after_ms: 2000 })
                && lost.late_notes.len() == 0
            &&& attempts == 2 ==> lost.request == (RestartRequestView::Respond {
                after_ms: 2000,
                status: Status::ServerError,
                body: "INDI restarted but EQMod reconnect failed after multiple attempts."@,
            }) && lost.late_notes == seq![
                "Failed to reconnect to EQMod after multiple attempts."@,
            ]
            &&& won.notes == seq!["EQMod reconnected successfully."@]
            &&& won.late_notes.len() == 0
            &&& won.request == (RestartRequestView::Respond {
                after_ms: 0,
                status: Status::Success,
                body: "INDI server restarted and EQMod reconnected."@,
            })
        }),
{
}

/// What a restart tells on its way to the new server.
pub proof fn law_restart_is_told(pid: u32, error: String)
    ensures
        next_step(RestartWaiting::Killed, RestartReport::Done).notes.len() == 0,
        next_step(RestartWaiting::Killed, RestartReport::Failed { error }).notes == seq![
            "Failed to kill process: "@ + error@,
        ],
        next_step(RestartWaiting::Swept, RestartReport::Done).notes == seq![
            "Sent pkill indiserver command as fallback"@,
        ],
        next_step(RestartWaiting::Killed, RestartReport::Done).late_notes == seq![
            "Starting new INDI server..."@,
        ],
        next_step(RestartWaiting::Spawned, RestartReport::Started { pid }).notes == seq![
            "INDI server started with PID: "@ + decimal(pid as nat),
            "Waiting 2s for INDI server initialization..."@,
        ],
        next_step(RestartWaiting::Spawned, RestartReport::Started { pid }).late_notes == seq![
            "Reconnecting EQMod client..."@,
        ],
        next_step(RestartWaiting::Spawned, RestartReport::Failed { error }).notes == seq![
            "Failed to start INDI server: "@ + error@,
        ],
{
}

} // verus!
