//! Slews that a plate solve checks and corrects.
//!
//! After the first slew the camera takes a picture, the picture is solved, the
//! mount is told where it really points, and the slew is repeated, until the
//! target is close enough or the attempts are used up. The loop is a machine:
//! the driver performs a request and reports its outcome.

use crate::notes::{added, none, one, two};
use crate::number::{decimal, decimal_text};
use crate::text::{concat3, texts};
use vstd::prelude::*;

verus! {

/// The number of corrections that are tried.
pub const MAX_ITERATIONS: u8 = 5;

/// A slew to a target. The coordinates are text with four decimals.
#[derive(Debug)]
pub struct GotoLoop {
    /// Right ascension in hours.
    pub target_ra: String,
    /// Declination in degrees.
    pub target_dec: String,
    /// Check the slew with plate solves.
    pub closed_loop: bool,
    /// A camera is connected.
    pub camera: bool,
}

/// What the driver of a slew is waiting for.
#[derive(Debug, Clone, Copy, PartialEq, Eq, Structural)]
pub enum LoopWaiting {
    /// The running flag, before the first slew.
    StartFlag,
    /// The end of the first slew.
    FirstSlew,
    /// The running flag, before a correction.
    LoopFlag,
    /// The running flag, once the mount has settled.
    SettleFlag,
    /// The plate solve.
    Solve,
    /// The end of the sync.
    Sync,
    /// The end of the repeated slew.
    Slew,
    /// Nothing: the slew is over.
    Over,
}

/// How far the telescope points from the target.
#[derive(Debug, Clone, Copy, PartialEq, Eq, Structural)]
pub enum Deviation {
    /// More than the tolerance.
    Far,
    /// At most the tolerance.
    Within,
    /// Not a number.
    Undefined,
}

/// Where a slew stands.
#[derive(Debug)]
pub struct LoopPosition {
    pub waiting: LoopWaiting,
    /// The number of corrections that were tried.
    pub iteration: u8,
    pub deviation: Deviation,
    /// The deviation in arcseconds, as text with two decimals.
    pub error: String,
}

/// Where a slew stands, with the text of the deviation.
pub struct LoopPositionView {
    pub waiting: LoopWaiting,
    pub iteration: int,
    pub deviation: Deviation,
    pub error: Seq<char>,
}

impl View for LoopPosition {
    type V = LoopPositionView;

    open spec fn view(&self) -> LoopPositionView {
        LoopPositionView {
            waiting: self.waiting,
            iteration: self.iteration as int,
            deviation: self.deviation,
            error: self.error@,
        }
    }
}

/// What the driver of a slew shall do.
#[derive(Debug, Clone, Copy, PartialEq, Eq, Structural)]
pub enum LoopRequest {
    /// Wait this many milliseconds, then read the running flag.
    ReadFlag { after_ms: u64 },
    /// Wait this many milliseconds, then slew to the target.
    Slew { after_ms: u64 },
    /// Take a picture and solve it.
    CaptureAndSolve,
    /// Tell the mount that it points where the picture was solved.
    Sync,
    /// The slew is over.
    Finish,
    /// The slew is over, with the error that was reported last.
    Fail,
}

/// What the driver of a slew reports.
#[derive(Debug)]
pub enum LoopReport {
    Flag { running: bool },
    Done,
    Failed { error: String },
    /// The picture has no solution.
    NoSolution,
    /// The picture is solved; `error` is the deviation in arcseconds.
    Solved { deviation: Deviation, error: String },
}

/// What a step of a slew gives.
#[derive(Debug)]
pub struct LoopStep {
    /// Messages to publish before the request, in this order.
    pub notes: Vec<String>,
    pub request: LoopRequest,
    pub position: LoopPosition,
}

/// What a step of a slew gives, with the texts of its messages.
pub struct LoopStepView {
    pub notes: Seq<Seq<char>>,
    pub request: LoopRequest,
    pub position: LoopPositionView,
}

impl View for LoopStep {
    type V = LoopStepView;

    open spec fn view(&self) -> LoopStepView {
        LoopStepView {
            notes: texts(self.notes@),
            request: self.request,
            position: self.position@,
        }
    }
}

/// The report `r` answers what `w` waits for.
pub open spec fn answers(w: LoopWaiting, r: LoopReport) -> bool {
    match w {
        LoopWaiting::StartFlag | LoopWaiting::LoopFlag | LoopWaiting::SettleFlag => r is Flag,
        LoopWaiting::FirstSlew | LoopWaiting::Sync | LoopWaiting::Slew => r is Done || r is Failed,
        LoopWaiting::Solve => r is NoSolution || r is Solved || r is Failed,
        LoopWaiting::Over => false,
    }
}

/// A position that a slew can be at.
pub open spec fn in_bounds(p: LoopPositionView) -> bool {
    match p.waiting {
        LoopWaiting::StartFlag | LoopWaiting::FirstSlew => p.iteration == 0,
        LoopWaiting::Over => 0 <= p.iteration <= MAX_ITERATIONS,
        _ => 0 <= p.iteration < MAX_ITERATIONS,
    }
}

pub open spec fn step_to(
    p: LoopPositionView,
    notes: Seq<Seq<char>>,
    request: LoopRequest,
    waiting: LoopWaiting,
) -> LoopStepView {
    LoopStepView { notes, request, position: LoopPositionView { waiting, ..p } }
}

/// The slew was stopped.
pub open spec fn aborted(p: LoopPositionView) -> LoopStepView {
    step_to(p, seq!["Goto aborted by user."@], LoopRequest::Finish, LoopWaiting::Over)
}

/// Another correction, where one is needed and left; else the end.
pub open spec fn loop_head(p: LoopPositionView, notes: Seq<Seq<char>>) -> LoopStepView {
    if p.deviation is Far && p.iteration < MAX_ITERATIONS {
        step_to(p, notes, LoopRequest::ReadFlag { after_ms: 0 }, LoopWaiting::LoopFlag)
    } else {
        step_to(
            p,
            notes.push(
                if p.deviation is Within {
                    "Target acquired within tolerance."@
                } else {
                    "Max iterations reached, goto failed."@
                },
            ),
            LoopRequest::Finish,
            LoopWaiting::Over,
        )
    }
}

impl GotoLoop {
    /// What the slew does at position `p` on report `r`.
    pub open spec fn next_step(self, p: LoopPositionView, r: LoopReport) -> LoopStepView {
        match (p.waiting, r) {
            (LoopWaiting::StartFlag, LoopReport::Flag { running }) => if running {
                step_to(p, seq![], LoopRequest::Slew { after_ms: 0 }, LoopWaiting::FirstSlew)
            } else {
                aborted(p)
            },
            (LoopWaiting::FirstSlew, LoopReport::Done) => if !self.closed_loop {
                step_to(
                    p,
                    seq!["Closed loop disabled, goto finished."@],
                    LoopRequest::Finish,
                    LoopWaiting::Over,
                )
            } else if !self.camera {
                step_to(
                    p,
                    seq!["Closed loop requested but no camera available."@],
                    LoopRequest::Finish,
                    LoopWaiting::Over,
                )
            } else {
                loop_head(
                    LoopPositionView { deviation: Deviation::Far, error: "inf"@, ..p },
                    seq![],
                )
            },
            (LoopWaiting::LoopFlag, LoopReport::Flag { running }) => if running {
                step_to(
                    p,
                    seq![
                        "Correction iteration "@ + decimal(p.iteration as nat) + ": Error "@
                            + p.error + " arcsec > tolerance 100.00. Adjusting..."@,
                        "Waiting for mount to settle..."@,
                    ],
                    LoopRequest::ReadFlag { after_ms: 1000 },
                    LoopWaiting::SettleFlag,
                )
            } else {
                aborted(p)
            },
            (LoopWaiting::SettleFlag, LoopReport::Flag { running }) => if running {
                step_to(
                    p,
                    seq!["Capturing and platesolving..."@],
                    LoopRequest::CaptureAndSolve,
                    LoopWaiting::Solve,
                )
            } else {
                aborted(p)
            },
            (LoopWaiting::Solve, LoopReport::NoSolution) => loop_head(
                LoopPositionView { iteration: p.iteration + 1, ..p },
                seq![
                    "Iteration "@ + decimal(p.iteration as nat)
                        + ": plate solve failed — skipping correction, retrying capture."@,
                ],
            ),
            (LoopWaiting::Solve, LoopReport::Solved { deviation, error }) => step_to(
                LoopPositionView { deviation, error: error@, ..p },
                seq![],
                LoopRequest::Sync,
                LoopWaiting::Sync,
            ),
            (LoopWaiting::Sync, LoopReport::Done) => step_to(
                p,
                seq![],
                LoopRequest::Slew { after_ms: 250 },
                LoopWaiting::Slew,
            ),
            (LoopWaiting::Sync, LoopReport::Failed { error }) => step_to(
                p,
                seq!["Warning: sync failed: "@ + error@],
                LoopRequest::Slew { after_ms: 250 },
                LoopWaiting::Slew,
            ),
            (LoopWaiting::Slew, LoopReport::Done) => loop_head(
                LoopPositionView { iteration: p.iteration + 1, ..p },
                seq![
                    "Iteration "@ + decimal((p.iteration + 1) as nat)
                        + " result: Position error is "@ + p.error + " arcsec."@,
                ],
            ),
            _ => step_to(p, seq![], LoopRequest::Fail, LoopWaiting::Over),
        }
    }

    /// The first step of the slew.
    pub open spec fn first_step(self) -> LoopStepView {
        LoopStepView {
            notes: seq![
                "Starting Goto sequence..."@,
                "Slewing to coordinates: RA="@ + self.target_ra@ + ", Dec="@ + self.target_dec@,
            ],
            request: LoopRequest::ReadFlag { after_ms: 0 },
            position: LoopPositionView {
                waiting: LoopWaiting::StartFlag,
                iteration: 0,
                deviation: Deviation::Far,
                error: "inf"@,
            },
        }
    }

    /// Starts the slew.
    pub fn begin(&self) -> (s: LoopStep)
        ensures
            s@ == self.first_step(),
            in_bounds(s@.position),
    {
        let mut note = concat3("Slewing to coordinates: RA=", self.target_ra.as_str(), ", Dec=");
        note.append(self.target_dec.as_str());
        LoopStep {
            notes: two("Starting Goto sequence...".to_owned(), note),
            request: LoopRequest::ReadFlag { after_ms: 0 },
            position: LoopPosition {
                waiting: LoopWaiting::StartFlag,
                iteration: 0,
                deviation: Deviation::Far,
                error: "inf".to_owned(),
            },
        }
    }

    /// Takes the report `r` at position `p` and goes on.
    pub fn advance(&self, p: LoopPosition, r: LoopReport) -> (s: LoopStep)
        requires
            in_bounds(p@),
            answers(p.waiting, r),
        ensures
            s@ == self.next_step(p@, r),
            in_bounds(s@.position),
    {
        match (p.waiting, r) {
            (LoopWaiting::StartFlag, LoopReport::Flag { running }) => if running {
                go(p, none(), LoopRequest::Slew { after_ms: 0 }, LoopWaiting::FirstSlew)
            } else {
                abort(p)
            },
            (LoopWaiting::FirstSlew, LoopReport::Done) => if !self.closed_loop {
                go(
                    p,
                    one("Closed loop disabled, goto finished.".to_owned()),
                    LoopRequest::Finish,
                    LoopWaiting::Over,
                )
            } else if !self.camera {
                go(
                    p,
                    one("Closed loop requested but no camera available.".to_owned()),
                    LoopRequest::Finish,
                    LoopWaiting::Over,
                )
            } else {
                head(
                    LoopPosition {
                        waiting: p.waiting,
                        iteration: p.iteration,
                        deviation: Deviation::Far,
                        error: "inf".to_owned(),
                    },
                    none(),
                )
            },
            (LoopWaiting::LoopFlag, LoopReport::Flag { running }) => if running {
                let mut note = concat3(
                    "Correction iteration ",
                    decimal_text(p.iteration as u64).as_str(),
                    ": Error ",
                );
                note.append(p.error.as_str());
                note.append(" arcsec > tolerance 100.00. Adjusting...");
                go(
                    p,
                    two(note, "Waiting for mount to settle...".to_owned()),
                    LoopRequest::ReadFlag { after_ms: 1000 },
                    LoopWaiting::SettleFlag,
                )
            } else {
                abort(p)
            },
            (LoopWaiting::SettleFlag, LoopReport::Flag { running }) => if running {
                go(
                    p,
                    one("Capturing and platesolving...".to_owned()),
                    LoopRequest::CaptureAndSolve,
                    LoopWaiting::Solve,
                )
            } else {
                abort(p)
            },
            (LoopWaiting::Solve, LoopReport::NoSolution) => {
                let note = concat3(
                    "Iteration ",
                    decimal_text(p.iteration as u64).as_str(),
                    ": plate solve failed — skipping correction, retrying capture.",
                );
                head(tried(p), one(note))
            },
            (LoopWaiting::Solve, LoopReport::Solved { deviation, error }) => go(
                LoopPosition { waiting: p.waiting, iteration: p.iteration, deviation, error },
                none(),
                LoopRequest::Sync,
                LoopWaiting::Sync,
            ),
            (LoopWaiting::Sync, LoopReport::Done) => go(
                p,
                none(),
                LoopRequest::Slew { after_ms: 250 },
                LoopWaiting::Slew,
            ),
            (LoopWaiting::Sync, LoopReport::Failed { error }) => {
                let mut note = "Warning: sync failed: ".to_owned();
                note.append(error.as_str());
                go(p, one(note), LoopRequest::Slew { after_ms: 250 }, LoopWaiting::Slew)
            },
            (LoopWaiting::Slew, LoopReport::Done) => {
                let mut note = concat3(
                    "Iteration ",
                    decimal_text(p.iteration as u64 + 1).as_str(),
                    " result: Position error is ",
                );
                note.append(p.error.as_str());
                note.append(" arcsec.");
                head(tried(p), one(note))
            },
            _ => go(p, none(), LoopRequest::Fail, LoopWaiting::Over),
        }
    }
}

fn go(p: LoopPosition, notes: Vec<String>, request: LoopRequest, waiting: LoopWaiting) -> (s:
    LoopStep)
    ensures
        s@ == step_to(p@, texts(notes@), request, waiting),
{
    LoopStep {
        notes,
        request,
        position: LoopPosition {
            waiting,
            iteration: p.iteration,
            deviation: p.deviation,
            error: p.error,
        },
    }
}

fn abort(p: LoopPosition) -> (s: LoopStep)
    ensures
        s@ == aborted(p@),
{
    go(p, one("Goto aborted by user.".to_owned()), LoopRequest::Finish, LoopWaiting::Over)
}

fn tried(p: LoopPosition) -> (r: LoopPosition)
    requires
        p.iteration < MAX_ITERATIONS,
    ensures
        r@ == (LoopPositionView { iteration: p.iteration + 1, ..p@ }),
{
    LoopPosition {
        waiting: p.waiting,
        iteration: p.iteration + 1,
        deviation: p.deviation,
        error: p.error,
    }
}

fn head(p: LoopPosition, notes: Vec<String>) -> (s: LoopStep)
    ensures
        s@ == loop_head(p@, texts(notes@)),
{
    if matches!(p.deviation, Deviation::Far) && p.iteration < MAX_ITERATIONS {
        return go(p, notes, LoopRequest::ReadFlag { after_ms: 0 }, LoopWaiting::LoopFlag);
    }
    let note = if matches!(p.deviation, Deviation::Within) {
        "Target acquired within tolerance.".to_owned()
    } else {
        "Max iterations reached, goto failed.".to_owned()
    };
    go(p, added(notes, note), LoopRequest::Finish, LoopWaiting::Over)
}

// ---------------------------------------------------------------------------
// Laws
// ---------------------------------------------------------------------------

/// The mount is synced only to a solved position: never after a picture
/// without a solution.
pub proof fn law_sync_needs_solution(job: GotoLoop, p: LoopPositionView, r: LoopReport)
    requires
        answers(p.waiting, r),
        job.next_step(p, r).request is Sync,
    ensures
        r is Solved,
{
}

/// A picture without a solution moves the mount in no way: the next request
/// is neither a sync nor a slew, and the known deviation stays.
pub proof fn law_no_solution_leaves_mount(job: GotoLoop, p: LoopPositionView)
    requires
        p.waiting is Solve,
    ensures
        ({
            let s = job.next_step(p, LoopReport::NoSolution);
            &&& !(s.request is Sync) && !(s.request is Slew)
            &&& s.position.deviation == p.deviation
            &&& s.position.error == p.error
        }),
{
}

/// A stop keeps the mount from moving again.
pub proof fn law_stop_ends_slew(job: GotoLoop, p: LoopPositionView)
    requires
        answers(p.waiting, LoopReport::Flag { running: false }),
    ensures
        job.next_step(p, LoopReport::Flag { running: false }).request is Finish,
{
}

/// A failed sync is survived, a failed slew or picture is not.
pub proof fn law_failures(job: GotoLoop, p: LoopPositionView, error: String)
    requires
        answers(p.waiting, LoopReport::Failed { error }),
    ensures
        job.next_step(p, LoopReport::Failed { error }).request is Fail <==> !(p.waiting is Sync),
{
}

/// The position behind the reports of a history.
pub open spec fn driven(job: GotoLoop, history: Seq<LoopReport>) -> LoopStepView
    decreases history.len(),
{
    if history.len() == 0 {
        job.first_step()
    } else {
        job.next_step(driven(job, history.drop_last()).position, history.last())
    }
}

/// Each report answers what the slew waited for.
pub open spec fn is_history(job: GotoLoop, history: Seq<LoopReport>) -> bool
    decreases history.len(),
{
    history.len() == 0 || (is_history(job, history.drop_last()) && answers(
        driven(job, history.drop_last()).position.waiting,
        history.last(),
    ))
}

/// The number of pictures that were requested.
pub open spec fn pictures(job: GotoLoop, history: Seq<LoopReport>) -> nat
    decreases history.len(),
{
    let before = if history.len() == 0 {
        0
    } else {
        pictures(job, history.drop_last())
    };
    if driven(job, history).request is CaptureAndSolve {
        before + 1
    } else {
        before
    }
}

proof fn lemma_pictures(job: GotoLoop, history: Seq<LoopReport>)
    requires
        is_history(job, history),
    ensures
        ({
            let p = driven(job, history).position;
            &&& in_bounds(p)
            &&& pictures(job, history) <= MAX_ITERATIONS
            &&& (p.waiting is StartFlag || p.waiting is FirstSlew || p.waiting is LoopFlag
                || p.waiting is SettleFlag) ==> pictures(job, history) == p.iteration
            &&& (p.waiting is Solve || p.waiting is Sync || p.waiting is Slew) ==> pictures(
                job,
                history,
            ) == p.iteration + 1
            &&& (!job.closed_loop || !job.camera) ==> (p.waiting is StartFlag || p.waiting
                is FirstSlew || p.waiting is Over) && pictures(job, history) == 0
        }),
    decreases history.len(),
{
    if history.len() > 0 {
        lemma_pictures(job, history.drop_last());
    }
}

/// No more pictures are taken than there are corrections.
pub proof fn law_corrections_are_bounded(job: GotoLoop, history: Seq<LoopReport>)
    requires
        is_history(job, history),
    ensures
        pictures(job, history) <= 5,
{
    lemma_pictures(job, history);
}

/// Without a closed loop, or without a camera, no picture is taken.
pub proof fn law_open_loop_takes_no_picture(job: GotoLoop, history: Seq<LoopReport>)
    requires
        is_history(job, history),
        !job.closed_loop || !job.camera,
    ensures
        pictures(job, history) == 0,
{
    lemma_pictures(job, history);
}

/// What the last picture that was solved said of the pointing.
pub open spec fn last_solved(history: Seq<LoopReport>) -> Option<Deviation>
    decreases history.len(),
{
    if history.len() == 0 {
        None
    } else {
        match history.last() {
            LoopReport::Solved { deviation, .. } => Some(deviation),
            _ => last_solved(history.drop_last()),
        }
    }
}

/// The slew was stopped.
pub open spec fn was_stopped(history: Seq<LoopReport>) -> bool {
    exists|i: int| 0 <= i < history.len() && #[trigger] history[i] == (LoopReport::Flag {
        running: false,
    })
}

/// No picture said yet that the telescope points close to the target, and the
/// last one that was solved, if any, said that it does not.
pub open spec fn is_off(history: Seq<LoopReport>) -> bool {
    last_solved(history) is None || last_solved(history) == Some(Deviation::Far)
}

proof fn lemma_deviation(job: GotoLoop, history: Seq<LoopReport>)
    requires
        is_history(job, history),
    ensures
        ({
            let p = driven(job, history).position;
            &&& p.waiting is Sync || p.waiting is Slew ==> last_solved(history) == Some(
                p.deviation,
            )
            &&& p.waiting is StartFlag || p.waiting is FirstSlew ==> last_solved(history) is None
            &&& p.waiting is LoopFlag || p.waiting is SettleFlag || p.waiting is Solve ==> is_off(
                history,
            ) && p.deviation is Far
        }),
    decreases history.len(),
{
    if history.len() > 0 {
        lemma_deviation(job, history.drop_last());
        lemma_pictures(job, history.drop_last());
    }
}

/// A checked slew goes on until the pointing is close enough: one that is not
/// stopped and has no failure finishes only where the last picture that was
/// solved did not say that the telescope points elsewhere, or where five
/// pictures were taken.
pub proof fn law_far_slew_goes_on(job: GotoLoop, history: Seq<LoopReport>)
    requires
        is_history(job, history),
        job.closed_loop,
        job.camera,
        !was_stopped(history),
        driven(job, history).request is Finish,
    ensures
        pictures(job, history) == 5 || (last_solved(history) is Some && last_solved(history)
            != Some(Deviation::Far)),
{
    if history.len() > 0 {
        let before = history.drop_last();
        lemma_deviation(job, before);
        lemma_pictures(job, before);
        assert(history.last() == history[history.len() - 1]);
    }
}

/// Another picture is taken only while no picture that was solved said that the
/// telescope points close to the target.
pub proof fn law_close_slew_ends(job: GotoLoop, history: Seq<LoopReport>)
    requires
        is_history(job, history),
        driven(job, history).request is CaptureAndSolve,
    ensures
        is_off(history),
        job.closed_loop,
        job.camera,
{
    lemma_deviation(job, history);
    lemma_pictures(job, history);
}

/// Success is told only where the last picture that was solved said that the
/// telescope points close to the target, and failure to reach it only where
/// that picture said otherwise or there is none.
pub proof fn law_success_is_true(job: GotoLoop, history: Seq<LoopReport>)
    requires
        is_history(job, history),
    ensures
        driven(job, history).notes.contains("Target acquired within tolerance."@)
            ==> last_solved(history) == Some(Deviation::Within),
        driven(job, history).notes.contains("Max iterations reached, goto failed."@)
            ==> last_solved(history) != Some(Deviation::Within),
        history.len() > 0 && driven(job, history.drop_last()).position.waiting is Slew
            && history.last() is Done && last_solved(history) == Some(Deviation::Within)
            ==> driven(job, history).request is Finish && driven(job, history).notes.contains(
            "Target acquired within tolerance."@,
        ),
{
    lemma_first_letters();
    let s = driven(job, history);
    let good = "Target acquired within tolerance."@;
    let bad = "Max iterations reached, goto failed."@;
    if history.len() == 0 {
        assert(s.notes[0] == "Starting Goto sequence..."@);
    } else {
        let before = history.drop_last();
        lemma_deviation(job, before);
        lemma_pictures(job, before);
        let p = driven(job, before).position;
        if p.waiting is Slew && history.last() is Done {
            assert(s.notes[0][0] == 'I');
            if s.notes.len() == 2 {
                assert(s.notes[1] == good || s.notes[1] == bad);
            }
        }
        if p.waiting is Solve && history.last() is NoSolution {
            assert(s.notes[0][0] == 'I');
        }
        if p.waiting is LoopFlag {
            if s.notes.len() == 2 {
                assert(s.notes[0][0] == 'C');
            }
        }
        if p.waiting is Sync && history.last() is Failed {
            assert(s.notes[0][0] == 'W');
        }
    }
}

/// The notes of a slew begin with different letters.
proof fn lemma_first_letters()
    ensures
        "Target acquired within tolerance."@.len() > 0,
        "Target acquired within tolerance."@[0] == 'T',
        "Max iterations reached, goto failed."@.len() > 0,
        "Max iterations reached, goto failed."@[0] == 'M',
        "Starting Goto sequence..."@[0] == 'S',
        "Slewing to coordinates: RA="@.len() > 0,
        "Slewing to coordinates: RA="@[0] == 'S',
        "Goto aborted by user."@[0] == 'G',
        "Closed loop disabled, goto finished."@[0] == 'C',
        "Closed loop requested but no camera available."@[0] == 'C',
        "Correction iteration "@.len() > 0,
        "Correction iteration "@[0] == 'C',
        "Waiting for mount to settle..."@[0] == 'W',
        "Capturing and platesolving..."@[0] == 'C',
        "Iteration "@.len() > 0,
        "Iteration "@[0] == 'I',
        "Warning: sync failed: "@.len() > 0,
        "Warning: sync failed: "@[0] == 'W',
{
    reveal_strlit("Target acquired within tolerance.");
    reveal_strlit("Max iterations reached, goto failed.");
    reveal_strlit("Starting Goto sequence...");
    reveal_strlit("Slewing to coordinates: RA=");
    reveal_strlit("Goto aborted by user.");
    reveal_strlit("Closed loop disabled, goto finished.");
    reveal_strlit("Closed loop requested but no camera available.");
    reveal_strlit("Correction iteration ");
    reveal_strlit("Waiting for mount to settle...");
    reveal_strlit("Capturing and platesolving...");
    reveal_strlit("Iteration ");
    reveal_strlit("Warning: sync failed: ");
}

/// The deviation that the last picture that was solved told.
pub open spec fn last_error(history: Seq<LoopReport>) -> Seq<char>
    decreases history.len(),
{
    if history.len() == 0 {
        "inf"@
    } else {
        match history.last() {
            LoopReport::Solved { error, .. } => error@,
            _ => last_error(history.drop_last()),
        }
    }
}

proof fn lemma_error(job: GotoLoop, history: Seq<LoopReport>)
    requires
        is_history(job, history),
    ensures
        driven(job, history).position.error == last_error(history),
    decreases history.len(),
{
    if history.len() > 0 {
        lemma_error(job, history.drop_last());
        if driven(job, history.drop_last()).position.waiting is FirstSlew {
            lemma_request_waits(job, history.drop_last());
            let first = history.drop_last();
            assert(first.drop_last().len() == 0);
            assert(last_error(first) == last_error(first.drop_last()));
        }
    }
}

/// What is told of a correction is what the last picture that was solved said,
/// with the number of the pictures that were taken.
pub proof fn law_corrections_are_told(job: GotoLoop, history: Seq<LoopReport>)
    requires
        is_history(job, history),
        history.len() > 0,
    ensures
        ({
            let was = driven(job, history.drop_last()).request;
            let notes = driven(job, history).notes;
            &&& was == (LoopRequest::Slew { after_ms: 250 }) && history.last() is Done
                ==> notes.len() > 0 && notes[0] == "Iteration "@ + decimal(
                pictures(job, history),
            ) + " result: Position error is "@ + last_error(history) + " arcsec."@
            &&& driven(job, history).request == (LoopRequest::ReadFlag { after_ms: 1000 }) ==> notes
                == seq![
                "Correction iteration "@ + decimal(pictures(job, history)) + ": Error "@
                    + last_error(history) + " arcsec > tolerance 100.00. Adjusting..."@,
                "Waiting for mount to settle..."@,
            ]
        }),
{
    let before = history.drop_last();
    lemma_error(job, before);
    lemma_error(job, history);
    lemma_pictures(job, before);
    lemma_pictures(job, history);
    lemma_request_waits(job, before);
    lemma_request_waits(job, history);
}

/// A slew that is not checked ends with the first slew, and says why it is not.
pub proof fn law_open_loop_ends_with_the_slew(job: GotoLoop, history: Seq<LoopReport>)
    requires
        is_history(job, history),
        history.len() == 2,
        history.last() is Done,
        !job.closed_loop || !job.camera,
    ensures
        driven(job, history).request is Finish,
        driven(job, history).notes == seq![
            if job.closed_loop {
                "Closed loop requested but no camera available."@
            } else {
                "Closed loop disabled, goto finished."@
            },
        ],
{
    lemma_request_waits(job, history.drop_last());
}

/// The requests of a checked slew follow one another in one order: a picture is
/// taken when the running flag was read once the mount had a second to settle,
/// the mount is told where a solved picture points, and then slews again.
pub proof fn law_order_of_a_correction(job: GotoLoop, history: Seq<LoopReport>)
    requires
        is_history(job, history),
        history.len() > 0,
    ensures
        ({
            let was = driven(job, history.drop_last()).request;
            let now = driven(job, history).request;
            &&& now is CaptureAndSolve <==> was == (LoopRequest::ReadFlag { after_ms: 1000 })
                && history.last() == (LoopReport::Flag { running: true })
            &&& now is Sync <==> was is CaptureAndSolve && history.last() is Solved
            &&& now == (LoopRequest::Slew { after_ms: 250 }) <==> was is Sync
            &&& now == (LoopRequest::Slew { after_ms: 0 }) <==> history.len() == 1
                && history.last() == (LoopReport::Flag { running: true })
            &&& now is Fail <==> history.last() is Failed && !(was is Sync)
        }),
{
    lemma_request_waits(job, history);
    lemma_request_waits(job, history.drop_last());
}

proof fn lemma_request_waits(job: GotoLoop, history: Seq<LoopReport>)
    requires
        is_history(job, history),
    ensures
        ({
            let s = driven(job, history);
            &&& match s.position.waiting {
                LoopWaiting::StartFlag => history.len() == 0 && s.request
                    == (LoopRequest::ReadFlag { after_ms: 0 }),
                LoopWaiting::FirstSlew => history.len() == 1 && s.request
                    == (LoopRequest::Slew { after_ms: 0 }),
                LoopWaiting::LoopFlag => history.len() >= 2 && s.request
                    == (LoopRequest::ReadFlag { after_ms: 0 }),
                LoopWaiting::SettleFlag => history.len() >= 3 && s.request
                    == (LoopRequest::ReadFlag { after_ms: 1000 }),
                LoopWaiting::Solve => history.len() >= 4 && s.request is CaptureAndSolve,
                LoopWaiting::Sync => history.len() >= 5 && s.request is Sync,
                LoopWaiting::Slew => history.len() >= 6 && s.request
                    == (LoopRequest::Slew { after_ms: 250 }),
                LoopWaiting::Over => history.len() >= 1 && (s.request is Finish || s.request
                    is Fail),
            }
        }),
    decreases history.len(),
{
    if history.len() > 0 {
        lemma_request_waits(job, history.drop_last());
    }
}

/// Every slew comes to its end: behind each report fewer steps are left.
pub open spec fn steps_left(p: LoopPositionView) -> int {
    let round = (MAX_ITERATIONS - p.iteration) * 6;
    match p.waiting {
        LoopWaiting::StartFlag => round + 7,
        LoopWaiting::FirstSlew => round + 6,
        LoopWaiting::LoopFlag => round + 5,
        LoopWaiting::SettleFlag => round + 4,
        LoopWaiting::Solve => round + 3,
        LoopWaiting::Sync => round + 2,
        LoopWaiting::Slew => round + 1,
        LoopWaiting::Over => 0,
    }
}

/// Each report brings a slew nearer to its end.
pub proof fn law_slew_ends(job: GotoLoop, p: LoopPositionView, r: LoopReport)
    requires
        in_bounds(p),
        answers(p.waiting, r),
    ensures
        0 <= steps_left(job.next_step(p, r).position) < steps_left(p),
{
}

} // verus!
