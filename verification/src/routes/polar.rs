//! Polar alignment. Real numbers are text.

use crate::notes::{none, one};
use crate::number::{decimal, decimal_text};
use crate::routes::reply::{answer, reply, Reply, ReplyView, Status};
use crate::sexagesimal::{loose_triple, parse_loose_triple};
use crate::solver::opt;
use crate::text::{concat2, concat3, texts};
use vstd::prelude::*;

verus! {

/// What came of capturing and solving a picture.
#[derive(Debug)]
pub enum PolarOutcome {
    /// No camera is connected.
    NoCamera,
    /// There is no picture, or it could not be handed to the solver.
    Failed(String),
    /// The solver found no solution.
    Unsolved,
    /// The centre of the picture in degrees, and the same with four decimals.
    Solved { ra: String, dec: String, ra_text: String, dec_text: String },
}

/// The answer to a request to capture and solve a picture.
#[derive(Debug)]
pub struct PolarSolveResponse {
    pub success: bool,
    pub ra_deg: Option<String>,
    pub dec_deg: Option<String>,
    pub message: String,
}

/// The texts of an answer.
pub struct PolarSolveView {
    pub success: bool,
    pub ra_deg: Option<Seq<char>>,
    pub dec_deg: Option<Seq<char>>,
    pub message: Seq<char>,
}

impl View for PolarSolveResponse {
    type V = PolarSolveView;

    open spec fn view(&self) -> PolarSolveView {
        PolarSolveView {
            success: self.success,
            ra_deg: opt(self.ra_deg),
            dec_deg: opt(self.dec_deg),
            message: self.message@,
        }
    }
}

/// No solution, with this message.
pub open spec fn polar_failure(message: Seq<char>) -> PolarSolveView {
    PolarSolveView { success: false, ra_deg: None, dec_deg: None, message }
}

/// The answer to a request to capture and solve a picture.
pub open spec fn polar_answer(outcome: PolarOutcome) -> PolarSolveView {
    match outcome {
        PolarOutcome::NoCamera => polar_failure("Camera not connected"@),
        PolarOutcome::Failed(e) => polar_failure(e@),
        PolarOutcome::Unsolved => polar_failure(
            "No solution found — ensure stars are visible near the pole"@,
        ),
        PolarOutcome::Solved { ra, dec, ra_text, dec_text } => PolarSolveView {
            success: true,
            ra_deg: Some(ra@),
            dec_deg: Some(dec@),
            message: "RA "@ + ra_text@ + "  Dec "@ + dec_text@,
        },
    }
}

/// What is published of capturing and solving a picture.
pub open spec fn polar_notes(outcome: PolarOutcome) -> Seq<Seq<char>> {
    match outcome {
        PolarOutcome::NoCamera => Seq::empty(),
        PolarOutcome::Failed(e) => seq!["Polar align capture failed: "@ + e@],
        PolarOutcome::Unsolved => seq!["Polar align: no solution found"@],
        PolarOutcome::Solved { ra, dec, ra_text, dec_text } => seq![
            "Polar align solved: RA="@ + ra_text@ + " Dec="@ + dec_text@,
        ],
    }
}

/// The answer to a request to capture and solve a picture, and what is
/// published.
pub fn polar_reply(outcome: PolarOutcome) -> (r: (PolarSolveResponse, Vec<String>))
    ensures
        r.0@ == polar_answer(outcome),
        texts(r.1@) == polar_notes(outcome),
{
    match outcome {
        PolarOutcome::NoCamera => (no_solution("Camera not connected".to_owned()), none()),
        PolarOutcome::Failed(e) => {
            let note = concat2("Polar align capture failed: ", e.as_str());
            (no_solution(e), one(note))
        },
        PolarOutcome::Unsolved => (
            no_solution("No solution found — ensure stars are visible near the pole".to_owned()),
            one("Polar align: no solution found".to_owned()),
        ),
        PolarOutcome::Solved { ra, dec, ra_text, dec_text } => {
            let mut note = concat3("Polar align solved: RA=", ra_text.as_str(), " Dec=");
            note.append(dec_text.as_str());
            let mut message = concat3("RA ", ra_text.as_str(), "  Dec ");
            message.append(dec_text.as_str());
            (
                PolarSolveResponse {
                    success: true,
                    ra_deg: Some(ra),
                    dec_deg: Some(dec),
                    message,
                },
                one(note),
            )
        },
    }
}

fn no_solution(message: String) -> (r: PolarSolveResponse)
    ensures
        r@ == polar_failure(message@),
{
    PolarSolveResponse { success: false, ra_deg: None, dec_deg: None, message }
}

/// What is published before the picture is taken.
pub fn polar_capture_text(exposure: &str, iso: u64, ra: &str, dec: &str) -> (r: String)
    ensures
        r@ == "Polar align: capturing "@ + exposure@ + "s ISO "@ + decimal(iso as nat)
            + " (hint RA="@ + ra@ + " Dec="@ + dec@ + ")..."@,
{
    let mut m = concat3("Polar align: capturing ", exposure, "s ISO ");
    m.append(decimal_text(iso).as_str());
    m.append(" (hint RA=");
    m.append(ra);
    m.append(" Dec=");
    m.append(dec);
    m.append(")...");
    m
}

/// A request to rotate the mount about its polar axis.
#[derive(Debug, Clone)]
pub struct RotateRaPayload {
    pub ra: String,
    pub dec: String,
}

/// What becomes of a request to rotate the mount.
#[derive(Debug)]
pub enum RotateDecision {
    /// Give this answer.
    Refuse(Reply),
    /// Slew to this position, without changing the side of the pier.
    Slew { ra: (String, String, String), dec: (String, String, String) },
}

impl RotateRaPayload {
    /// What becomes of the request.
    pub fn decide(&self, connected: bool) -> (r: RotateDecision)
        ensures
            match r {
                RotateDecision::Refuse(reply) => {
                    ||| !connected && reply@ == answer(
                        Seq::empty(),
                        Status::ServerError,
                        "EQMod not connected"@,
                    )
                    ||| connected && loose_triple(self.ra@) is None && reply@ == answer(
                        Seq::empty(),
                        Status::BadRequest,
                        "Invalid RA format. Expected HH:MM:SS"@,
                    )
                    ||| connected && loose_triple(self.ra@) is Some && loose_triple(
                        self.dec@,
                    ) is None && reply@ == answer(
                        Seq::empty(),
                        Status::BadRequest,
                        "Invalid Dec format. Expected DD:MM:SS"@,
                    )
                },
                RotateDecision::Slew { ra, dec } => {
                    &&& connected
                    &&& loose_triple(self.ra@) == Some((ra.0@, ra.1@, ra.2@))
                    &&& loose_triple(self.dec@) == Some((dec.0@, dec.1@, dec.2@))
                },
            },
    {
        if !connected {
            return RotateDecision::Refuse(
                reply(none(), Status::ServerError, "EQMod not connected"),
            );
        }
        let ra = match parse_loose_triple(self.ra.as_str()) {
            Some(t) => t,
            None => {
                return RotateDecision::Refuse(
                    reply(none(), Status::BadRequest, "Invalid RA format. Expected HH:MM:SS"),
                );
            },
        };
        match parse_loose_triple(self.dec.as_str()) {
            Some(dec) => RotateDecision::Slew { ra, dec },
            None => RotateDecision::Refuse(
                reply(none(), Status::BadRequest, "Invalid Dec format. Expected DD:MM:SS"),
            ),
        }
    }
}

/// What is published before the mount rotates.
pub fn rotate_text(ra: &str, dec: &str) -> (r: String)
    ensures
        r@ == "Polar align: rotating to RA="@ + ra@ + "h Dec="@ + dec@
            + "° (pier side locked)..."@,
{
    let mut m = concat3("Polar align: rotating to RA=", ra, "h Dec=");
    m.append(dec);
    m.append("° (pier side locked)...");
    m
}

/// The answer when the mount has rotated.
pub open spec fn rotate_answer(error: Option<Seq<char>>) -> ReplyView {
    match error {
        None => answer(Seq::empty(), Status::Success, "ok"@),
        Some(e) => answer(
            seq!["Polar align rotate failed: "@ + e],
            Status::ServerError,
            "Polar align rotate failed: "@ + e,
        ),
    }
}

/// The answer when the mount has rotated.
pub fn rotate_reply(error: Option<&str>) -> (r: Reply)
    ensures
        r@ == rotate_answer(
            match error {
                Some(e) => Some(e@),
                None => None,
            },
        ),
{
    match error {
        None => reply(none(), Status::Success, "ok"),
        Some(e) => {
            let text = concat2("Polar align rotate failed: ", e);
            reply(one(text.clone()), Status::ServerError, text.as_str())
        },
    }
}

/// A position is told where the picture was solved, and then only; what went
/// wrong else is the message.
pub proof fn law_answer_to_a_polar_picture(outcome: PolarOutcome)
    ensures
        polar_answer(outcome).success <==> outcome is Solved,
        outcome matches PolarOutcome::Solved { ra, dec, .. } ==> polar_answer(outcome).ra_deg
            == Some(ra@) && polar_answer(outcome).dec_deg == Some(dec@),
        !(outcome is Solved) ==> polar_answer(outcome).ra_deg is None && polar_answer(
            outcome,
        ).dec_deg is None,
        outcome matches PolarOutcome::Failed(e) ==> polar_answer(outcome).message == e@
            && polar_notes(outcome) == seq!["Polar align capture failed: "@ + e@],
        outcome is NoCamera ==> polar_answer(outcome).message == "Camera not connected"@,
{
}

/// A rotation that failed is answered with its error, and any other with success.
pub proof fn law_answer_to_a_rotation(error: Option<Seq<char>>)
    ensures
        rotate_answer(error).status == Status::Success <==> error is None,
        error is Some ==> rotate_answer(error).status == Status::ServerError && rotate_answer(
            error,
        ).body == "Polar align rotate failed: "@ + error->0,
{
}

} // verus!
