//! Capturing a picture and solving it. Real numbers are text.

use crate::text::concat2;
use vstd::prelude::*;

verus! {

/// How a picture is captured.
#[derive(Debug, Clone)]
pub struct CaptureSettings {
    pub iso: u64,
    /// `None` leaves the aperture as it is.
    pub aperture: Option<String>,
    /// Seconds.
    pub exposure_seconds: String,
    pub save_directory: String,
}

impl Default for CaptureSettings {
    fn default() -> (r: Self)
        ensures
            r.iso == 1600,
            r.aperture is None,
            r.exposure_seconds@ == "5"@,
            r.save_directory@ == "tmp/astro_captures"@,
    {
        CaptureSettings {
            iso: 1600,
            aperture: None,
            exposure_seconds: "5".to_owned(),
            save_directory: "tmp/astro_captures".to_owned(),
        }
    }
}

impl CaptureSettings {
    /// How a picture for the solver is captured.
    pub fn for_solving(iso: u64, exposure: &str) -> (r: Self)
        ensures
            r.iso == iso,
            r.aperture is None,
            r.exposure_seconds@ == exposure@,
            r.save_directory@ == "imgs/goto/captures"@,
    {
        CaptureSettings {
            iso,
            aperture: None,
            exposure_seconds: exposure.to_owned(),
            save_directory: "imgs/goto/captures".to_owned(),
        }
    }
}

/// What came of capturing a picture and solving it.
#[derive(Debug)]
pub enum CaptureOutcome {
    /// The directory could not be made, for this reason.
    NoDirectory(String),
    /// No picture was taken, for this reason.
    NoPhoto(String),
    /// The solver ran; whether it found a solution.
    Ran { solved: bool },
    /// The solver failed, for this reason.
    SolverFailed(String),
    /// The task of the solver was lost, for this reason.
    TaskLost(String),
}

/// Whether a solution was found, or why there is none to look at.
pub open spec fn capture_result(outcome: CaptureOutcome) -> Result<bool, Seq<char>> {
    match outcome {
        CaptureOutcome::NoDirectory(e) => Err(e@),
        CaptureOutcome::NoPhoto(e) => Err(e@),
        CaptureOutcome::Ran { solved } => Ok(solved),
        CaptureOutcome::SolverFailed(e) => Err(e@),
        CaptureOutcome::TaskLost(e) => Err("plate-solve task panicked: "@ + e@),
    }
}

/// Whether a solution was found, or why there is none to look at.
pub fn capture_and_solve(outcome: CaptureOutcome) -> (r: Result<bool, String>)
    ensures
        match r {
            Ok(solved) => capture_result(outcome) == Ok::<bool, Seq<char>>(solved),
            Err(e) => capture_result(outcome) == Err::<bool, Seq<char>>(e@),
        },
{
    match outcome {
        CaptureOutcome::NoDirectory(e) => Err(e),
        CaptureOutcome::NoPhoto(e) => Err(e),
        CaptureOutcome::Ran { solved } => Ok(solved),
        CaptureOutcome::SolverFailed(e) => Err(e),
        CaptureOutcome::TaskLost(e) => Err(concat2("plate-solve task panicked: ", e.as_str())),
    }
}

/// A picture that was looked at says whether it was solved; anything else that
/// came of it is an error, which tells the reason.
pub proof fn law_only_a_run_tells_of_a_solution(outcome: CaptureOutcome)
    ensures
        capture_result(outcome) is Ok <==> outcome is Ran,
        outcome is Ran ==> capture_result(outcome)->Ok_0 == outcome->solved,
        outcome matches CaptureOutcome::NoDirectory(e) ==> capture_result(outcome)->Err_0 == e@,
        outcome matches CaptureOutcome::NoPhoto(e) ==> capture_result(outcome)->Err_0 == e@,
        outcome matches CaptureOutcome::SolverFailed(e) ==> capture_result(outcome)->Err_0 == e@,
        outcome matches CaptureOutcome::TaskLost(e) ==> capture_result(outcome)->Err_0
            == "plate-solve task panicked: "@ + e@,
{
}

} // verus!
