//! Requests to the camera.

use crate::notes::{added, none, one};
use crate::number::{decimal, decimal_text, parse_decimal, read_decimal};
use crate::reals::{is_real, text_writes_real};
use crate::routes::reply::{answer, reply, Reply, ReplyView, Status};
use crate::state::CameraGlobalSettings;
use crate::text::{
    all_white, concat2, concat3, contains, find, is_white, law_parts_occur, law_split_at_the_first,
    law_trim, lemma_find, lowercase_of, replace, replaced_text, text_has, texts, trim,
    trimmed_text,
};
use vstd::prelude::*;

verus! {

// ---------------------------------------------------------------------------
// Previews
// ---------------------------------------------------------------------------

/// A request for a preview.
#[derive(Debug, Clone)]
pub struct TakepreviewPayload {
    pub exposure: String,
    pub aperture: String,
    pub iso: String,
}

/// What the camera is set to for a preview. Real numbers are text.
#[derive(Debug, Clone)]
pub struct PreviewSettings {
    pub iso: u64,
    pub exposure: String,
    /// `None` leaves the aperture as it is.
    pub aperture: Option<String>,
}

/// The text of an aperture without its prefix.
pub open spec fn bare_aperture(s: Seq<char>) -> Seq<char> {
    replace(trim(s), "f/"@, ""@)
}

impl TakepreviewPayload {
    /// What the camera is to be set to. A sensitivity or an exposure that is no
    /// number gives way to 800 and 5 s, and an aperture that is none to the
    /// present one.
    pub fn settings(&self) -> (r: PreviewSettings)
        ensures
            r.iso == match parse_decimal(self.iso@, u64::MAX as nat) {
                Some(n) => n,
                None => 800nat,
            },
            r.exposure@ == if is_real(self.exposure@) {
                self.exposure@
            } else {
                "5"@
            },
            match r.aperture {
                Some(a) => a@ == bare_aperture(self.aperture@) && is_real(a@),
                None => !is_real(bare_aperture(self.aperture@)),
            },
    {
        let iso: u64 = match read_decimal(self.iso.as_str(), u64::MAX) {
            Some(n) => n,
            None => 800,
        };
        let exposure = if text_writes_real(self.exposure.as_str()) {
            self.exposure.clone()
        } else {
            "5".to_owned()
        };
        proof {
            reveal_strlit("f/");
        }
        let trimmed = trimmed_text(self.aperture.as_str());
        let bare = replaced_text(trimmed.as_str(), "f/", "");
        let aperture = if text_writes_real(bare.as_str()) {
            Some(bare)
        } else {
            None
        };
        PreviewSettings { iso, exposure, aperture }
    }
}

/// What is published of the settings of a preview. The real numbers are text.
pub fn preview_text(iso: u64, exposure: &str, aperture: Option<&str>) -> (r: String)
    ensures
        r@ == "Preview params: ISO="@ + decimal(iso as nat) + ", exposure="@ + exposure@
            + "s, aperture="@ + match aperture {
            Some(a) => "Some("@ + a@ + ")"@,
            None => "None"@,
        },
{
    let mut m = concat3("Preview params: ISO=", decimal_text(iso).as_str(), ", exposure=");
    m.append(exposure);
    m.append("s, aperture=");
    match aperture {
        Some(a) => {
            m.append(concat3("Some(", a, ")").as_str());
        },
        None => {
            m.append("None");
        },
    }
    m
}

/// What came of a request for a preview.
#[derive(Debug)]
pub enum PreviewOutcome {
    /// No camera is connected.
    NoCamera,
    /// The directory could not be made, for this reason.
    NoDirectory(String),
    /// No picture was taken, for this reason.
    NoPhoto(String),
    /// The picture could not be converted, for this reason.
    NotConverted(String),
    /// The picture was written to this path and could not be read.
    NotRead(String),
    /// The picture was written to this path and read.
    Read(String),
}

/// The answer to a request for a preview, without the settings that were
/// published. The body of a success is the picture.
pub open spec fn preview_answer(outcome: PreviewOutcome) -> ReplyView {
    match outcome {
        PreviewOutcome::NoCamera => answer(
            Seq::empty(),
            Status::ServerError,
            "Camera not connected"@,
        ),
        PreviewOutcome::NoDirectory(e) => answer(
            Seq::empty(),
            Status::ServerError,
            "Failed to create directory: "@ + e@,
        ),
        PreviewOutcome::NoPhoto(e) => answer(
            seq!["Preview failed: "@ + e@],
            Status::ServerError,
            "Preview failed: "@ + e@,
        ),
        PreviewOutcome::NotConverted(e) => answer(
            seq!["Failed to convert preview to PNG: "@ + e@],
            Status::ServerError,
            "Conversion failed: "@ + e@,
        ),
        PreviewOutcome::NotRead(path) => answer(
            seq!["Preview saved at: "@ + path@],
            Status::ServerError,
            "Failed to read preview file"@,
        ),
        PreviewOutcome::Read(path) => answer(
            seq!["Preview saved at: "@ + path@],
            Status::Success,
            ""@,
        ),
    }
}

/// The answer to a request for a preview.
pub fn preview_reply(outcome: &PreviewOutcome) -> (r: Reply)
    ensures
        r@ == preview_answer(*outcome),
{
    match outcome {
        PreviewOutcome::NoCamera => reply(none(), Status::ServerError, "Camera not connected"),
        PreviewOutcome::NoDirectory(e) => reply(
            none(),
            Status::ServerError,
            concat2("Failed to create directory: ", e.as_str()).as_str(),
        ),
        PreviewOutcome::NoPhoto(e) => {
            let text = concat2("Preview failed: ", e.as_str());
            reply(one(text.clone()), Status::ServerError, text.as_str())
        },
        PreviewOutcome::NotConverted(e) => reply(
            one(concat2("Failed to convert preview to PNG: ", e.as_str())),
            Status::ServerError,
            concat2("Conversion failed: ", e.as_str()).as_str(),
        ),
        PreviewOutcome::NotRead(path) => reply(
            one(concat2("Preview saved at: ", path.as_str())),
            Status::ServerError,
            "Failed to read preview file",
        ),
        PreviewOutcome::Read(path) => reply(
            one(concat2("Preview saved at: ", path.as_str())),
            Status::Success,
            "",
        ),
    }
}

// ---------------------------------------------------------------------------
// The live feed
// ---------------------------------------------------------------------------

/// A request to start the live feed. What is absent is taken from the settings.
#[derive(Debug, Clone)]
pub struct StartLivefeedPayload {
    pub exposure: Option<String>,
    pub iso: Option<u64>,
}

/// What becomes of a request to start the live feed.
#[derive(Debug)]
pub enum FeedDecision {
    /// Give this answer.
    Refuse(Reply),
    /// Take pictures with these settings.
    Start { exposure: String, iso: u64 },
}

impl StartLivefeedPayload {
    /// What becomes of the request: there is at most one feed or sequence at a
    /// time, and none without a camera.
    pub fn decide(&self, running: bool, settings: &CameraGlobalSettings, camera: bool) -> (r:
        FeedDecision)
        ensures
            match r {
                FeedDecision::Refuse(reply) => {
                    ||| running && reply@ == answer(
                        Seq::empty(),
                        Status::Conflict,
                        "Already running (sequence or livefeed active)"@,
                    )
                    ||| !running && !camera && reply@ == answer(
                        Seq::empty(),
                        Status::BadRequest,
                        "Camera not connected"@,
                    )
                },
                FeedDecision::Start { exposure, iso } => {
                    &&& !running && camera
                    &&& exposure@ == match self.exposure {
                        Some(e) => e@,
                        None => settings.platesolving_exposure@,
                    }
                    &&& iso == match self.iso {
                        Some(i) => i,
                        None => settings.iso,
                    }
                },
            },
    {
        if running {
            return FeedDecision::Refuse(
                reply(
                    none(),
                    Status::Conflict,
                    "Already running (sequence or livefeed active)",
                ),
            );
        }
        if !camera {
            return FeedDecision::Refuse(reply(none(), Status::BadRequest, "Camera not connected"));
        }
        let exposure = match &self.exposure {
            Some(e) => e.clone(),
            None => settings.platesolving_exposure.clone(),
        };
        let iso: u64 = match self.iso {
            Some(i) => i,
            None => settings.iso,
        };
        FeedDecision::Start { exposure, iso }
    }
}

/// The answer when the feed has started. The exposure is text.
pub fn feed_reply(exposure: &str) -> (r: Reply)
    ensures
        r@ == answer(
            seq!["Livefeed started ("@ + exposure@ + "s exposure)..."@],
            Status::Success,
            "Livefeed started"@,
        ),
{
    reply(
        one(concat3("Livefeed started (", exposure, "s exposure)...")),
        Status::Success,
        "Livefeed started",
    )
}

/// What came of a picture of the feed.
#[derive(Debug)]
pub enum FeedFrame {
    /// No camera is connected any more.
    NoCamera,
    /// The picture was taken, and converted or not.
    Taken { converted: bool },
    /// No picture was taken, for this reason.
    Failed(String),
}

/// What follows a picture of the feed.
#[derive(Debug)]
pub struct FeedStep {
    pub notes: Vec<String>,
    /// Whether the feed goes on.
    pub go_on: bool,
}

/// An error, in lower case, says that the picture was given up on purpose.
pub open spec fn speaks_of_cancelling(lower: Seq<char>) -> bool {
    contains(lower, "cancel"@) || contains(lower, "abort"@)
}

/// The error says that the picture was given up on purpose.
pub open spec fn is_cancellation(error: Seq<char>) -> bool {
    speaks_of_cancelling(lowercase_of(error))
}

/// Whether an error, in lower case, says that the picture was given up on
/// purpose.
pub fn tells_of_cancelling(lower: &str) -> (r: bool)
    ensures
        r == speaks_of_cancelling(lower@),
{
    text_has(lower, "cancel") || text_has(lower, "abort")
}

/// What is published when a picture of the feed fails.
pub open spec fn feed_error(error: Seq<char>) -> Seq<Seq<char>> {
    if is_cancellation(error) {
        Seq::empty()
    } else {
        seq!["Livefeed error: "@ + error]
    }
}

/// The notes that follow a picture of the feed.
pub open spec fn feed_notes(frame: FeedFrame) -> Seq<Seq<char>> {
    match frame {
        FeedFrame::NoCamera => feed_error("Camera disconnected"@),
        FeedFrame::Taken { converted } => if converted {
            seq!["SEQ_IMAGE_READY"@]
        } else {
            Seq::empty()
        },
        FeedFrame::Failed(e) => feed_error(e@),
    }
}

fn error_notes(error: &str) -> (r: Vec<String>)
    ensures
        texts(r@) == feed_error(error@),
{
    let lower = error.to_lowercase();
    if tells_of_cancelling(lower.as_str()) {
        none()
    } else {
        one(concat2("Livefeed error: ", error))
    }
}

/// What follows a picture of the feed: the feed goes on until a picture fails,
/// and a picture that was given up on purpose is no error.
pub fn after_feed_frame(frame: &FeedFrame) -> (r: FeedStep)
    ensures
        texts(r.notes@) == feed_notes(*frame),
        r.go_on == (frame is Taken),
{
    match frame {
        FeedFrame::NoCamera => FeedStep { notes: error_notes("Camera disconnected"), go_on: false },
        FeedFrame::Taken { converted } => FeedStep {
            notes: if *converted {
                one("SEQ_IMAGE_READY".to_owned())
            } else {
                none()
            },
            go_on: true,
        },
        FeedFrame::Failed(e) => FeedStep { notes: error_notes(e.as_str()), go_on: false },
    }
}

/// What is published when the feed has ended.
pub fn feed_stopped_text() -> (r: String)
    ensures
        r@ == "Livefeed stopped."@,
{
    "Livefeed stopped.".to_owned()
}

/// A feed that was cancelled ends in silence.
pub proof fn law_cancelled_feed_is_silent(error: String)
    requires
        is_cancellation(error@),
    ensures
        feed_notes(FeedFrame::Failed(error)) == Seq::<Seq<char>>::empty(),
{
}

// ---------------------------------------------------------------------------
// Connections
// ---------------------------------------------------------------------------

/// What came of a request to connect the camera.
#[derive(Debug)]
pub enum CameraOutcome {
    /// A camera is connected already.
    Already,
    /// A camera of this model was connected.
    Connected(String),
    /// No camera was connected, for this reason.
    Failed(String),
}

/// The model as it stands in names of files.
pub open spec fn model_name(model: Seq<char>) -> Seq<char> {
    replace(model, " "@, "_"@)
}

/// The model as it stands in names of files.
pub fn model_text(model: &str) -> (r: String)
    ensures
        r@ == model_name(model@),
{
    proof {
        reveal_strlit(" ");
    }
    replaced_text(model, " ", "_")
}

/// The answer to a request to connect the camera.
pub open spec fn connect_answer(outcome: CameraOutcome) -> ReplyView {
    let received = seq!["Received Connect Camera request"@];
    match outcome {
        CameraOutcome::Already => answer(
            received.push("Camera already connected."@),
            Status::Success,
            "Camera already connected"@,
        ),
        CameraOutcome::Connected(model) => answer(
            received.push(
                "Camera connected successfully (model: "@ + model_name(model@) + ")."@,
            ),
            Status::Success,
            "Camera connected successfully"@,
        ),
        CameraOutcome::Failed(e) => answer(
            received.push("Failed to connect to camera: "@ + e@),
            Status::ServerError,
            "Failed to connect to camera: "@ + e@,
        ),
    }
}

/// The answer to a request to connect the camera.
pub fn connect_reply(outcome: &CameraOutcome) -> (r: Reply)
    ensures
        r@ == connect_answer(*outcome),
{
    let received = one("Received Connect Camera request".to_owned());
    match outcome {
        CameraOutcome::Already => reply(
            added(received, "Camera already connected.".to_owned()),
            Status::Success,
            "Camera already connected",
        ),
        CameraOutcome::Connected(model) => {
            let name = model_text(model.as_str());
            let text = concat3("Camera connected successfully (model: ", name.as_str(), ").");
            reply(added(received, text), Status::Success, "Camera connected successfully")
        },
        CameraOutcome::Failed(e) => {
            let text = concat2("Failed to connect to camera: ", e.as_str());
            reply(added(received, text.clone()), Status::ServerError, text.as_str())
        },
    }
}

/// The answer to a request to disconnect the camera.
pub fn disconnect_camera_reply() -> (r: Reply)
    ensures
        r@ == answer(
            seq!["Camera disconnected."@],
            Status::Success,
            "Camera disconnected"@,
        ),
{
    reply(one("Camera disconnected.".to_owned()), Status::Success, "Camera disconnected")
}

/// The answer when the latest picture of a sequence is not there.
pub fn no_sequence_preview() -> (r: Reply)
    ensures
        r@ == answer(Seq::empty(), Status::NotFound, "No sequence preview available"@),
{
    reply(none(), Status::NotFound, "No sequence preview available")
}

/// The answer to a request to change the settings of the camera. The note is
/// the text of the changed settings.
pub fn settings_changed_reply(settings: &CameraGlobalSettings) -> (r: Reply)
    ensures
        r@ == answer(
            seq![settings.changed_note()],
            Status::Success,
            "Settings updated successfully"@,
        ),
{
    reply(one(settings.changed_text()), Status::Success, "Settings updated successfully")
}

/// The prefix of an aperture and the white space around it are left out.
pub proof fn law_aperture_without_its_prefix(before: Seq<char>, t: Seq<char>, behind: Seq<char>)
    requires
        all_white(before),
        all_white(behind),
        t.len() > 0,
        !is_white(t[0]),
        !is_white(t.last()),
        !contains(t, "f/"@),
    ensures
        bare_aperture(before + ("f/"@ + t) + behind) == t,
        bare_aperture(before + t + behind) == t,
{
    reveal_strlit("f/");
    reveal_strlit("");
    let s = "f/"@ + t;
    law_trim(before, s, behind);
    law_trim(before, t, behind);
    lemma_find(t, "f/"@);
    lemma_find(s, "f/"@);
    law_parts_occur(Seq::empty(), "f/"@, t);
    assert(Seq::<char>::empty() + "f/"@ + t =~= s);
    assert(find(s, "f/"@) == Some(0int));
    assert(s.skip(2) =~= t);
    assert(replace(t, "f/"@, ""@) == t);
    assert(replace(s, "f/"@, ""@) == s.take(0) + ""@ + replace(s.skip(2), "f/"@, ""@));
    assert(s.take(0) + ""@ + t =~= t);
}

/// An error that holds the word "cancel" or the word "abort" anywhere tells that
/// the picture was given up on purpose.
pub proof fn law_cancelling_words(before: Seq<char>, behind: Seq<char>)
    ensures
        speaks_of_cancelling(before + "cancel"@ + behind),
        speaks_of_cancelling(before + "abort"@ + behind),
        before.len() < 5 ==> !speaks_of_cancelling(before),
{
    law_parts_occur(before, "cancel"@, behind);
    law_parts_occur(before, "abort"@, behind);
    reveal_strlit("cancel");
    reveal_strlit("abort");
}

/// What is published behind a picture of the feed: that it is ready where it was
/// converted, and its error where it failed and was not given up on purpose.
pub proof fn law_notes_of_the_feed(error: String)
    ensures
        feed_notes(FeedFrame::Taken { converted: true }) == seq!["SEQ_IMAGE_READY"@],
        feed_notes(FeedFrame::Taken { converted: false }).len() == 0,
        !contains(lowercase_of(error@), "cancel"@) && !contains(lowercase_of(error@), "abort"@)
            ==> feed_notes(FeedFrame::Failed(error)) == seq!["Livefeed error: "@ + error@],
{
}

/// Each blank of a model becomes an underscore, and nothing else changes.
pub proof fn law_name_of_a_model(first: Seq<char>, rest: Seq<char>)
    requires
        !first.contains(' '),
    ensures
        model_name(first) == first,
        model_name(first + seq![' '] + rest) == first + seq!['_'] + model_name(rest),
{
    reveal_strlit(" ");
    reveal_strlit("_");
    assert(" "@ =~= seq![' ']);
    assert("_"@ =~= seq!['_']);
    let s = first + seq![' '] + rest;
    law_split_at_the_first(first, ' ', rest);
    assert(s.take(first.len() as int) =~= first);
    assert(s.skip(first.len() as int + 1) =~= rest);
}

/// A preview is answered with success where its picture was read, and with an
/// error of the server where anything failed; the reason is told.
pub proof fn law_answer_to_a_preview(outcome: PreviewOutcome)
    ensures
        preview_answer(outcome).status == Status::Success <==> outcome is Read,
        !(outcome is Read) ==> preview_answer(outcome).status == Status::ServerError,
        outcome matches PreviewOutcome::NoPhoto(e) ==> preview_answer(outcome).body
            == "Preview failed: "@ + e@,
        outcome matches PreviewOutcome::NotConverted(e) ==> preview_answer(outcome).body
            == "Conversion failed: "@ + e@,
        outcome matches PreviewOutcome::NoDirectory(e) ==> preview_answer(outcome).body
            == "Failed to create directory: "@ + e@,
        outcome matches PreviewOutcome::Read(path) ==> preview_answer(outcome).notes == seq![
            "Preview saved at: "@ + path@,
        ],
{
}

/// A request to connect the camera fails where no camera was connected, and then
/// only; the reason is told.
pub proof fn law_answer_to_a_connection(outcome: CameraOutcome)
    ensures
        connect_answer(outcome).status == Status::ServerError <==> outcome is Failed,
        !(outcome is Failed) ==> connect_answer(outcome).status == Status::Success,
        outcome matches CameraOutcome::Failed(e) ==> connect_answer(outcome).body
            == "Failed to connect to camera: "@ + e@,
        outcome matches CameraOutcome::Connected(model) ==> connect_answer(outcome).notes[1]
            == "Camera connected successfully (model: "@ + model_name(model@) + ")."@,
{
}

} // verus!
