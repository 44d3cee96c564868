//! Waiting for the camera. Times are in milliseconds.

use vstd::prelude::*;

verus! {

/// The longest time between two looks at the cancel flag.
pub const WAIT_STEP_MS: u64 = 100;

/// The time that a new picture is waited for.
pub const DOWNLOAD_TIMEOUT_MS: u64 = 30_000;

/// The time that one event of the camera is waited for.
pub const EVENT_WAIT_MS: u64 = 2_000;

/// What comes next while the shutter is open.
#[derive(Debug, Clone, Copy, PartialEq, Eq, Structural)]
pub enum ExposureWait {
    /// The exposure is over.
    Over,
    /// The exposure was cancelled.
    Cancelled,
    /// Sleep so long, and look again.
    Sleep(u64),
}

/// What comes next `elapsed` after the shutter was opened. `running` is the
/// flag by which the exposure can be cancelled, where there is one.
pub open spec fn exposure_wait(elapsed: u64, duration: u64, running: Option<bool>) -> ExposureWait {
    if elapsed >= duration {
        ExposureWait::Over
    } else if running == Some(false) {
        ExposureWait::Cancelled
    } else if duration - elapsed < WAIT_STEP_MS {
        ExposureWait::Sleep((duration - elapsed) as u64)
    } else {
        ExposureWait::Sleep(WAIT_STEP_MS)
    }
}

/// What comes next `elapsed` after the shutter was opened.
pub fn wait_for_duration(elapsed: u64, duration: u64, running: Option<bool>) -> (r: ExposureWait)
    ensures
        r == exposure_wait(elapsed, duration, running),
{
    if elapsed >= duration {
        return ExposureWait::Over;
    }
    match running {
        Some(flag) => {
            if !flag {
                return ExposureWait::Cancelled;
            }
        },
        None => {},
    }
    let remaining: u64 = duration - elapsed;
    if remaining < WAIT_STEP_MS {
        ExposureWait::Sleep(remaining)
    } else {
        ExposureWait::Sleep(WAIT_STEP_MS)
    }
}

/// Whether to wait for another event of the camera `elapsed` after the exposure.
pub fn waits_for_image(elapsed: u64) -> (r: bool)
    ensures
        r == (elapsed < DOWNLOAD_TIMEOUT_MS),
        r == (elapsed < 30_000),
{
    elapsed < DOWNLOAD_TIMEOUT_MS
}

/// A sleep is never empty and never longer than what is left of the exposure,
/// so an exposure that is not cancelled ends, and ends on time.
pub proof fn law_sleep_is_within_exposure(elapsed: u64, duration: u64, running: Option<bool>)
    ensures
        exposure_wait(elapsed, duration, running) matches ExposureWait::Sleep(ms) ==> 0 < ms
            <= WAIT_STEP_MS && elapsed + ms <= duration,
        exposure_wait(elapsed, duration, running) is Over <==> elapsed >= duration,
{
}

/// Without a flag an exposure cannot be cancelled.
pub proof fn law_no_flag_no_cancellation(elapsed: u64, duration: u64)
    ensures
        !(exposure_wait(elapsed, duration, None) is Cancelled),
{
}

/// What comes next while the shutter is open: the exposure is over when its time
/// is; before that it is cancelled where the flag says so, and else it is slept
/// for what is left, but for no more than a tenth of a second. One event of the
/// camera is waited for two seconds.
pub proof fn law_waiting_for_an_exposure(elapsed: u64, duration: u64, running: Option<bool>)
    ensures
        ({
            let next = exposure_wait(elapsed, duration, running);
            &&& next is Over <==> elapsed >= duration
            &&& next is Cancelled <==> elapsed < duration && running == Some(false)
            &&& next is Sleep && duration - elapsed <= 100 ==> next->Sleep_0 == duration - elapsed
            &&& next is Sleep && duration - elapsed > 100 ==> next->Sleep_0 == 100
        }),
        EVENT_WAIT_MS == 2000,
{
}

} // verus!
