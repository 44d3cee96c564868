//! Taking a picture.
//!
//! The camera times short exposures itself. Where it cannot, and for long
//! exposures, the shutter is held open: by the bulb switch, or else by the
//! remote release. Each step asks something of the camera, and the report on it
//! leads to the next step.

use crate::camera::choice::choose_shutter;
use crate::number::{decimal, decimal_text};
use crate::paths::{extension, file_extension, file_stem, stem};
use crate::reals::{from_zero_to, is_from_zero_to};
use crate::text::{concat3, texts};
use vstd::prelude::*;

verus! {

/// The longest exposure, in seconds, that the camera times itself.
pub const LONGEST_TIMED: u64 = 30;

/// A picture that is to be taken.
#[derive(Debug)]
pub struct PhotoJob {
    /// The exposure in seconds, as text.
    pub exposure: String,
    /// Whether the aperture is to be set.
    pub sets_aperture: bool,
}

/// What is asked of the camera.
#[derive(Debug)]
pub enum PhotoRequest {
    SetIso,
    SetAperture,
    /// Report the present shutter speed and those on offer.
    ReadShutter,
    SetShutter(String),
    /// Take a picture that the camera times.
    Expose,
    /// Set the shutter speed that was set before.
    RestoreShutter(String),
    /// Hold the shutter open with the bulb switch.
    HoldBulb,
    /// Hold the shutter open with the remote release.
    HoldRelease,
    /// Wait for the picture and report its name.
    AwaitImage,
    /// Report whether a file of this name is there, and the time.
    LookFor(String),
    /// Download the picture of this name to a file of that name.
    Download { name: String, target: String },
    /// The picture is in the file of this name.
    Finish(String),
    /// There is no picture, for this reason.
    Fail(String),
}

/// The report on a request.
#[derive(Debug)]
pub enum PhotoReport {
    Done,
    Failed(String),
    Shutter { present: String, choices: Vec<String> },
    /// The name of the picture.
    Image(String),
    /// Whether the file is there, and the seconds since 1970.
    Found { exists: bool, now: u64 },
}

/// What the last request was for.
#[derive(Debug)]
pub enum PhotoStage {
    Iso,
    Aperture,
    Shutter,
    /// The shutter speed is set; before it was this.
    ShutterSet(String),
    /// The camera exposes; the shutter speed was this before.
    Exposing(String),
    /// The shutter speed is restored; this came of the exposure.
    Restoring(Result<String, String>),
    Bulb,
    Release,
    Awaiting,
    /// A place is looked for; whether the camera timed the picture, its name.
    Looking { timed: bool, name: String },
    /// The picture is downloaded; whether the camera timed it, the file.
    Downloading { timed: bool, target: String },
    Over,
}

/// A request, with its texts.
pub enum RequestView {
    SetIso,
    SetAperture,
    ReadShutter,
    SetShutter(Seq<char>),
    Expose,
    RestoreShutter(Seq<char>),
    HoldBulb,
    HoldRelease,
    AwaitImage,
    LookFor(Seq<char>),
    Download { name: Seq<char>, target: Seq<char> },
    Finish(Seq<char>),
    Fail(Seq<char>),
}

impl View for PhotoRequest {
    type V = RequestView;

    open spec fn view(&self) -> RequestView {
        match *self {
            PhotoRequest::SetIso => RequestView::SetIso,
            PhotoRequest::SetAperture => RequestView::SetAperture,
            PhotoRequest::ReadShutter => RequestView::ReadShutter,
            PhotoRequest::SetShutter(s) => RequestView::SetShutter(s@),
            PhotoRequest::Expose => RequestView::Expose,
            PhotoRequest::RestoreShutter(s) => RequestView::RestoreShutter(s@),
            PhotoRequest::HoldBulb => RequestView::HoldBulb,
            PhotoRequest::HoldRelease => RequestView::HoldRelease,
            PhotoRequest::AwaitImage => RequestView::AwaitImage,
            PhotoRequest::LookFor(s) => RequestView::LookFor(s@),
            PhotoRequest::Download { name, target } => RequestView::Download {
                name: name@,
                target: target@,
            },
            PhotoRequest::Finish(s) => RequestView::Finish(s@),
            PhotoRequest::Fail(s) => RequestView::Fail(s@),
        }
    }
}

/// A report, with its texts.
pub enum ReportView {
    Done,
    Failed(Seq<char>),
    Shutter { present: Seq<char>, choices: Seq<Seq<char>> },
    Image(Seq<char>),
    Found { exists: bool, now: u64 },
}

impl View for PhotoReport {
    type V = ReportView;

    open spec fn view(&self) -> ReportView {
        match *self {
            PhotoReport::Done => ReportView::Done,
            PhotoReport::Failed(e) => ReportView::Failed(e@),
            PhotoReport::Shutter { present, choices } => ReportView::Shutter {
                present: present@,
                choices: texts(choices@),
            },
            PhotoReport::Image(s) => ReportView::Image(s@),
            PhotoReport::Found { exists, now } => ReportView::Found { exists, now },
        }
    }
}

/// A stage, with its texts.
pub enum StageView {
    Iso,
    Aperture,
    Shutter,
    ShutterSet(Seq<char>),
    Exposing(Seq<char>),
    Restoring(Result<Seq<char>, Seq<char>>),
    Bulb,
    Release,
    Awaiting,
    Looking { timed: bool, name: Seq<char> },
    Downloading { timed: bool, target: Seq<char> },
    Over,
}

impl View for PhotoStage {
    type V = StageView;

    open spec fn view(&self) -> StageView {
        match *self {
            PhotoStage::Iso => StageView::Iso,
            PhotoStage::Aperture => StageView::Aperture,
            PhotoStage::Shutter => StageView::Shutter,
            PhotoStage::ShutterSet(s) => StageView::ShutterSet(s@),
            PhotoStage::Exposing(s) => StageView::Exposing(s@),
            PhotoStage::Restoring(r) => StageView::Restoring(
                match r {
                    Ok(s) => Ok(s@),
                    Err(e) => Err(e@),
                },
            ),
            PhotoStage::Bulb => StageView::Bulb,
            PhotoStage::Release => StageView::Release,
            PhotoStage::Awaiting => StageView::Awaiting,
            PhotoStage::Looking { timed, name } => StageView::Looking { timed, name: name@ },
            PhotoStage::Downloading { timed, target } => StageView::Downloading {
                timed,
                target: target@,
            },
            PhotoStage::Over => StageView::Over,
        }
    }
}

/// The step that follows a report.
#[derive(Debug)]
pub struct PhotoStep {
    pub stage: PhotoStage,
    pub request: PhotoRequest,
}

/// A step, with its texts.
pub struct PhotoStepView {
    pub stage: StageView,
    pub request: RequestView,
}

impl View for PhotoStep {
    type V = PhotoStepView;

    open spec fn view(&self) -> PhotoStepView {
        PhotoStepView { stage: self.stage@, request: self.request@ }
    }
}

/// The report is one that the stage can get.
pub open spec fn answers(stage: StageView, report: ReportView) -> bool {
    !(stage is Over) && (report is Failed || match stage {
        StageView::Iso
        | StageView::Aperture
        | StageView::ShutterSet(_)
        | StageView::Restoring(_)
        | StageView::Bulb
        | StageView::Release
        | StageView::Downloading { .. } => report is Done,
        StageView::Shutter => report is Shutter,
        StageView::Exposing(_) | StageView::Awaiting => report is Image,
        StageView::Looking { .. } => report is Found,
        StageView::Over => false,
    })
}

/// The name of the file that a picture is downloaded to: that of the picture,
/// with the time where that file is there already.
pub open spec fn download_target(name: Seq<char>, exists: bool, now: u64) -> Seq<char> {
    if exists {
        stem(name) + "_"@ + decimal(now as nat) + "."@ + extension(name)
    } else {
        name
    }
}

/// The name of the file that a picture is downloaded to.
pub fn target_name(name: &str, exists: bool, now: u64) -> (r: String)
    ensures
        r@ == download_target(name@, exists, now),
        !exists ==> r@ == name@,
        exists ==> r@ == stem(name@) + "_"@ + decimal(now as nat) + "."@ + extension(name@),
        extension(r@) == extension(name@),
{
    proof {
        law_target_keeps_the_extension(name@, exists, now);
    }
    if !exists {
        return name.to_owned();
    }
    let mut t = concat3(file_stem(name).as_str(), "_", decimal_text(now).as_str());
    t.append(".");
    t.append(file_extension(name).as_str());
    t
}

/// A step.
pub open spec fn step(stage: StageView, request: RequestView) -> PhotoStepView {
    PhotoStepView { stage, request }
}

/// The shutter is held open.
pub open spec fn hold() -> PhotoStepView {
    step(StageView::Bulb, RequestView::HoldBulb)
}

/// No picture is taken.
pub open spec fn fail(error: Seq<char>) -> PhotoStepView {
    step(StageView::Over, RequestView::Fail(error))
}

/// What follows a failure to get a picture that was taken: one that the camera
/// timed is taken again, with the shutter held open.
pub open spec fn retry(timed: bool, error: Seq<char>) -> PhotoStepView {
    if timed {
        hold()
    } else {
        fail(error)
    }
}

impl PhotoJob {
    /// The camera times the exposure.
    pub open spec fn is_timed(self) -> bool {
        from_zero_to(self.exposure@, LONGEST_TIMED as nat)
    }

    /// The step that starts the exposure.
    pub open spec fn shoot(self) -> PhotoStepView {
        if self.is_timed() {
            step(StageView::Shutter, RequestView::ReadShutter)
        } else {
            hold()
        }
    }

    /// The step that follows a report.
    pub open spec fn next_step(self, stage: StageView, report: ReportView) -> PhotoStepView {
        match stage {
            StageView::Iso => match report {
                ReportView::Failed(e) => fail(e),
                _ => if self.sets_aperture {
                    step(StageView::Aperture, RequestView::SetAperture)
                } else {
                    self.shoot()
                },
            },
            StageView::Aperture => match report {
                ReportView::Failed(e) => fail(e),
                _ => self.shoot(),
            },
            StageView::Shutter => match report {
                ReportView::Shutter { present, choices } => if choices.contains(self.exposure@) {
                    step(
                        StageView::ShutterSet(present),
                        RequestView::SetShutter(self.exposure@),
                    )
                } else {
                    hold()
                },
                _ => hold(),
            },
            StageView::ShutterSet(present) => match report {
                ReportView::Failed(_) => hold(),
                _ => step(StageView::Exposing(present), RequestView::Expose),
            },
            StageView::Exposing(present) => step(
                StageView::Restoring(
                    match report {
                        ReportView::Image(name) => Ok(name),
                        ReportView::Failed(e) => Err(e),
                        _ => Err(""@),
                    },
                ),
                RequestView::RestoreShutter(present),
            ),
            StageView::Restoring(captured) => match (report, captured) {
                (ReportView::Done, Ok(name)) => step(
                    StageView::Looking { timed: true, name },
                    RequestView::LookFor(name),
                ),
                _ => hold(),
            },
            StageView::Bulb => match report {
                ReportView::Failed(_) => step(StageView::Release, RequestView::HoldRelease),
                _ => step(StageView::Awaiting, RequestView::AwaitImage),
            },
            StageView::Release => match report {
                ReportView::Failed(_) => fail(
                    "Bulb capture failed. Make sure camera is in Bulb (B) mode."@,
                ),
                _ => step(StageView::Awaiting, RequestView::AwaitImage),
            },
            StageView::Awaiting => match report {
                ReportView::Image(name) => step(
                    StageView::Looking { timed: false, name },
                    RequestView::LookFor(name),
                ),
                ReportView::Failed(e) => fail(e),
                _ => fail("Timeout waiting for image from camera"@),
            },
            StageView::Looking { timed, name } => match report {
                ReportView::Found { exists, now } => {
                    let target = download_target(name, exists, now);
                    step(
                        StageView::Downloading { timed, target },
                        RequestView::Download { name, target },
                    )
                },
                ReportView::Failed(e) => retry(timed, e),
                _ => retry(timed, ""@),
            },
            StageView::Downloading { timed, target } => match report {
                ReportView::Failed(e) => retry(timed, e),
                _ => step(StageView::Over, RequestView::Finish(target)),
            },
            StageView::Over => fail(""@),
        }
    }

    fn first_shot(&self) -> (r: PhotoStep)
        ensures
            r@ == self.shoot(),
    {
        if is_from_zero_to(self.exposure.as_str(), LONGEST_TIMED) {
            PhotoStep { stage: PhotoStage::Shutter, request: PhotoRequest::ReadShutter }
        } else {
            held()
        }
    }

    /// The first step.
    pub fn begin(&self) -> (r: PhotoStep)
        ensures
            r@ == step(StageView::Iso, RequestView::SetIso),
    {
        PhotoStep { stage: PhotoStage::Iso, request: PhotoRequest::SetIso }
    }

    /// The step that follows the report on the last one.
    pub fn advance(&self, stage: PhotoStage, report: PhotoReport) -> (r: PhotoStep)
        requires
            answers(stage@, report@),
        ensures
            r@ == self.next_step(stage@, report@),
    {
        match stage {
            PhotoStage::Iso => match report {
                PhotoReport::Failed(e) => failed(e),
                _ => if self.sets_aperture {
                    PhotoStep { stage: PhotoStage::Aperture, request: PhotoRequest::SetAperture }
                } else {
                    self.first_shot()
                },
            },
            PhotoStage::Aperture => match report {
                PhotoReport::Failed(e) => failed(e),
                _ => self.first_shot(),
            },
            PhotoStage::Shutter => match report {
                PhotoReport::Shutter { present, choices } => {
                    match choose_shutter(self.exposure.as_str(), &choices) {
                        Some(choice) => PhotoStep {
                            stage: PhotoStage::ShutterSet(present),
                            request: PhotoRequest::SetShutter(choice),
                        },
                        None => held(),
                    }
                },
                _ => held(),
            },
            PhotoStage::ShutterSet(present) => match report {
                PhotoReport::Failed(_) => held(),
                _ => PhotoStep {
                    stage: PhotoStage::Exposing(present),
                    request: PhotoRequest::Expose,
                },
            },
            PhotoStage::Exposing(present) => {
                let captured: Result<String, String> = match report {
                    PhotoReport::Image(name) => Ok(name),
                    PhotoReport::Failed(e) => Err(e),
                    _ => Err("".to_owned()),
                };
                PhotoStep {
                    stage: PhotoStage::Restoring(captured),
                    request: PhotoRequest::RestoreShutter(present),
                }
            },
            PhotoStage::Restoring(captured) => match (report, captured) {
                (PhotoReport::Done, Ok(name)) => PhotoStep {
                    request: PhotoRequest::LookFor(name.clone()),
                    stage: PhotoStage::Looking { timed: true, name },
                },
                _ => held(),
            },
            PhotoStage::Bulb => match report {
                PhotoReport::Failed(_) => PhotoStep {
                    stage: PhotoStage::Release,
                    request: PhotoRequest::HoldRelease,
                },
                _ => PhotoStep { stage: PhotoStage::Awaiting, request: PhotoRequest::AwaitImage },
            },
            PhotoStage::Release => match report {
                PhotoReport::Failed(_) => failed(
                    "Bulb capture failed. Make sure camera is in Bulb (B) mode.".to_owned(),
                ),
                _ => PhotoStep { stage: PhotoStage::Awaiting, request: PhotoRequest::AwaitImage },
            },
            PhotoStage::Awaiting => match report {
                PhotoReport::Image(name) => PhotoStep {
                    request: PhotoRequest::LookFor(name.clone()),
                    stage: PhotoStage::Looking { timed: false, name },
                },
                PhotoReport::Failed(e) => failed(e),
                _ => failed("Timeout waiting for image from camera".to_owned()),
            },
            PhotoStage::Looking { timed, name } => match report {
                PhotoReport::Found { exists, now } => {
                    let target = target_name(name.as_str(), exists, now);
                    PhotoStep {
                        stage: PhotoStage::Downloading { timed, target: target.clone() },
                        request: PhotoRequest::Download { name, target },
                    }
                },
                PhotoReport::Failed(e) => retried(timed, e),
                _ => retried(timed, "".to_owned()),
            },
            PhotoStage::Downloading { timed, target } => match report {
                PhotoReport::Failed(e) => retried(timed, e),
                _ => PhotoStep { stage: PhotoStage::Over, request: PhotoRequest::Finish(target) },
            },
            PhotoStage::Over => failed("".to_owned()),
        }
    }
}

fn held() -> (r: PhotoStep)
    ensures
        r@ == hold(),
{
    PhotoStep { stage: PhotoStage::Bulb, request: PhotoRequest::HoldBulb }
}

fn failed(error: String) -> (r: PhotoStep)
    ensures
        r@ == fail(error@),
{
    PhotoStep { stage: PhotoStage::Over, request: PhotoRequest::Fail(error) }
}

fn retried(timed: bool, error: String) -> (r: PhotoStep)
    ensures
        r@ == retry(timed, error@),
{
    if timed {
        held()
    } else {
        failed(error)
    }
}

/// What is reported when no picture comes in time.
pub fn timeout_text() -> (r: String)
    ensures
        r@ == "Timeout waiting for image from camera"@,
{
    "Timeout waiting for image from camera".to_owned()
}

/// How far a stage is from the end.
pub open spec fn steps_left(stage: StageView) -> nat {
    match stage {
        StageView::Iso => 13,
        StageView::Aperture => 12,
        StageView::Shutter => 11,
        StageView::ShutterSet(_) => 10,
        StageView::Exposing(_) => 9,
        StageView::Restoring(_) => 8,
        StageView::Looking { timed, .. } => if timed {
            7
        } else {
            2
        },
        StageView::Downloading { timed, .. } => if timed {
            6
        } else {
            1
        },
        StageView::Bulb => 5,
        StageView::Release => 4,
        StageView::Awaiting => 3,
        StageView::Over => 0,
    }
}

/// Taking a picture comes to an end, whatever the camera reports.
pub proof fn law_photo_ends(job: PhotoJob, stage: StageView, report: ReportView)
    requires
        answers(stage, report),
    ensures
        steps_left(job.next_step(stage, report).stage) < steps_left(stage),
{
}

/// Whatever comes of an exposure that the camera times, the shutter speed that
/// was set before is set again.
pub proof fn law_shutter_is_restored(job: PhotoJob, present: Seq<char>, report: ReportView)
    ensures
        job.next_step(StageView::Exposing(present), report).request == RequestView::RestoreShutter(
            present,
        ),
{
}

/// A failure of the camera to time an exposure is no failure of the picture:
/// the shutter is held open instead.
pub proof fn law_timed_failure_falls_back(job: PhotoJob, stage: StageView, error: Seq<char>)
    requires
        match stage {
            StageView::Shutter | StageView::ShutterSet(_) | StageView::Restoring(_) => true,
            StageView::Looking { timed, .. } => timed,
            StageView::Downloading { timed, .. } => timed,
            _ => false,
        },
    ensures
        job.next_step(stage, ReportView::Failed(error)) == hold(),
{
}

/// A long exposure is never timed by the camera.
pub proof fn law_long_exposure_is_held(job: PhotoJob)
    requires
        !job.is_timed(),
    ensures
        job.next_step(StageView::Aperture, ReportView::Done) == hold(),
{
}

/// A file that is there is not overwritten: the name it would be downloaded to
/// differs from it.
pub proof fn law_present_file_is_kept(name: Seq<char>, now: u64)
    ensures
        download_target(name, true, now) != name,
{
    crate::paths::law_stem_and_extension(name);
    reveal_strlit("_");
    reveal_strlit(".");
}

/// Where no file of the picture's name is there, the picture is downloaded to
/// its own name. Where one is, the name is that of the picture with the time
/// behind its stem. Either way the extension is that of the picture.
pub proof fn law_target_keeps_the_extension(name: Seq<char>, exists: bool, now: u64)
    ensures
        !exists ==> download_target(name, exists, now) == name,
        exists ==> stem(download_target(name, exists, now)) == stem(name) + "_"@ + decimal(
            now as nat,
        ),
        extension(download_target(name, exists, now)) == extension(name),
{
    if exists {
        let base = stem(name) + "_"@ + decimal(now as nat);
        let ext = extension(name);
        reveal_strlit("_");
        reveal_strlit(".");
        assert(base[stem(name).len() as int] == '_');
        if base == seq!['.'] {
            assert(base[0] == '.');
            assert(base.len() == 1);
        }
        crate::paths::law_extension_has_no_dot(name);
        crate::paths::law_last_dot_parts(base, ext);
        assert(download_target(name, exists, now) =~= base + seq!['.'] + ext);
    }
}

/// Pictures of one name that are downloaded at different times go to different
/// files.
pub proof fn law_times_give_different_targets(name: Seq<char>, now: u64, later: u64)
    requires
        now != later,
    ensures
        download_target(name, true, now) != download_target(name, true, later),
{
    law_target_keeps_the_extension(name, true, now);
    law_target_keeps_the_extension(name, true, later);
    let base = stem(name) + "_"@;
    assert(stem(download_target(name, true, now)).skip(base.len() as int) =~= decimal(now as nat));
    assert(stem(download_target(name, true, later)).skip(base.len() as int) =~= decimal(
        later as nat,
    ));
    crate::number::law_decimal_round_trip(now as nat, u64::MAX as nat);
    crate::number::law_decimal_round_trip(later as nat, u64::MAX as nat);
}

/// The step behind a sensitivity that was set, and behind an aperture where one
/// is to be set.
pub open spec fn ready(job: PhotoJob) -> PhotoStepView {
    let first = job.next_step(StageView::Iso, ReportView::Done);
    if job.sets_aperture {
        job.next_step(first.stage, ReportView::Done)
    } else {
        first
    }
}

/// The sensitivity is set first, and then the aperture where one is to be set.
/// A failure of either is the failure of the picture.
pub proof fn law_settings_come_first(job: PhotoJob, error: Seq<char>)
    ensures
        ({
            let first = job.next_step(StageView::Iso, ReportView::Done);
            &&& job.sets_aperture <==> first.request is SetAperture
            &&& !(ready(job).request is SetAperture)
            &&& job.next_step(StageView::Iso, ReportView::Failed(error)).request
                == RequestView::Fail(error)
            &&& job.sets_aperture ==> job.next_step(
                first.stage,
                ReportView::Failed(error),
            ).request == RequestView::Fail(error)
        }),
{
}

/// An exposure of up to 30 seconds that is on offer is timed by the camera. The
/// shutter speed is set to the exposure, the picture is taken, the shutter speed
/// is set back, and the picture comes under its own name where no file has it.
pub proof fn law_timed_picture(
    job: PhotoJob,
    present: Seq<char>,
    choices: Seq<Seq<char>>,
    name: Seq<char>,
    now: u64,
)
    requires
        from_zero_to(job.exposure@, 30),
        choices.contains(job.exposure@),
    ensures
        ({
            let read = ready(job);
            let set = job.next_step(read.stage, ReportView::Shutter { present, choices });
            let exposed = job.next_step(set.stage, ReportView::Done);
            let restored = job.next_step(exposed.stage, ReportView::Image(name));
            let looked = job.next_step(restored.stage, ReportView::Done);
            let loaded = job.next_step(looked.stage, ReportView::Found { exists: false, now });
            let done = job.next_step(loaded.stage, ReportView::Done);
            &&& read.request == RequestView::ReadShutter
            &&& set.request == RequestView::SetShutter(job.exposure@)
            &&& exposed.request == RequestView::Expose
            &&& restored.request == RequestView::RestoreShutter(present)
            &&& looked.request == RequestView::LookFor(name)
            &&& loaded.request == (RequestView::Download { name, target: name })
            &&& done.request == RequestView::Finish(name)
        }),
{
}

/// An exposure of more than 30 seconds, or one that is not on offer, is held
/// open, by the bulb switch or else by the remote release, and the picture comes
/// under its own name where no file has it.
pub proof fn law_held_picture(
    job: PhotoJob,
    present: Seq<char>,
    choices: Seq<Seq<char>>,
    name: Seq<char>,
    error: Seq<char>,
    now: u64,
)
    ensures
        ({
            let timed = from_zero_to(job.exposure@, 30);
            let held = if timed {
                job.next_step(ready(job).stage, ReportView::Shutter { present, choices })
            } else {
                ready(job)
            };
            let released = job.next_step(held.stage, ReportView::Failed(error));
            let none = job.next_step(released.stage, ReportView::Failed(error));
            let waiting = job.next_step(held.stage, ReportView::Done);
            let looked = job.next_step(waiting.stage, ReportView::Image(name));
            let loaded = job.next_step(looked.stage, ReportView::Found { exists: false, now });
            let done = job.next_step(loaded.stage, ReportView::Done);
            !timed || !choices.contains(job.exposure@) ==> {
                &&& held.request == RequestView::HoldBulb
                &&& released.request == RequestView::HoldRelease
                &&& none.request == RequestView::Fail(
                    "Bulb capture failed. Make sure camera is in Bulb (B) mode."@,
                )
                &&& job.next_step(released.stage, ReportView::Done) == waiting
                &&& waiting.request == RequestView::AwaitImage
                &&& looked.request == RequestView::LookFor(name)
                &&& loaded.request == (RequestView::Download { name, target: name })
                &&& done.request == RequestView::Finish(name)
                &&& job.next_step(waiting.stage, ReportView::Failed(error)).request
                    == RequestView::Fail(error)
                &&& job.next_step(looked.stage, ReportView::Failed(error)).request
                    == RequestView::Fail(error)
                &&& job.next_step(loaded.stage, ReportView::Failed(error)).request
                    == RequestView::Fail(error)
            }
        }),
{
}

/// A picture that a file stands in the way of is downloaded beside that file,
/// and is the file that was downloaded in the end.
pub proof fn law_picture_beside_a_file(
    job: PhotoJob,
    timed: bool,
    name: Seq<char>,
    now: u64,
)
    ensures
        ({
            let loaded = job.next_step(
                StageView::Looking { timed, name },
                ReportView::Found { exists: true, now },
            );
            let done = job.next_step(loaded.stage, ReportView::Done);
            &&& loaded.request is Download
            &&& loaded.request->Download_name == name
            &&& loaded.request->target != name
            &&& extension(loaded.request->target) == extension(name)
            &&& done.request == RequestView::Finish(loaded.request->target)
        }),
{
    law_target_keeps_the_extension(name, true, now);
    law_present_file_is_kept(name, now);
}

} // verus!
