//! What the server answers.

use astropi::indi::client::IndiClient;
use astropi::indi::error::IndiError;
use astropi::indi::pier::PierSide;
use astropi::routes::camera::{
    after_feed_frame, connect_reply, disconnect_camera_reply, feed_reply, feed_stopped_text,
    no_sequence_preview, preview_reply, preview_text, settings_changed_reply, tells_of_cancelling,
    CameraOutcome, FeedDecision, FeedFrame, PreviewOutcome, StartLivefeedPayload,
    TakepreviewPayload,
};
use astropi::routes::mount::{
    abort_reply, disconnect_reply, flip_notes, flip_reply, goto_reply, manual_reply, park_reply,
    unpark_reply, GoToPayload, GotoDecision, ManualMovePayload, MeridianFlipPayload, Outcome,
};
use astropi::routes::polar::{
    polar_capture_text, polar_reply, rotate_reply, rotate_text, PolarOutcome, RotateDecision,
    RotateRaPayload,
};
use astropi::routes::reply::Status;
use astropi::routes::restart::{advance, begin, RestartReport, RestartRequest, RestartStep};
use astropi::routes::sequence::{pause_reply, start_reply, stop_reply};
use astropi::routes::settings::{location_reply, settings_reply};
use astropi::routes::status::{event_text, ping, receive_command, status_response, CommandCheck};
use astropi::routes::system::{PowerRequest, TimePayload};
use astropi::sequence::StartSequencePayload;
use astropi::state::{CameraGlobalSettings, Location};

fn t(s: &str) -> String {
    s.to_string()
}

fn failed() -> Outcome {
    Outcome::Failed { error: t("x") }
}

#[test]
fn statuses_have_numbers() {
    let codes = [
        Status::Success,
        Status::BadRequest,
        Status::NotFound,
        Status::Conflict,
        Status::ServerError,
    ]
    .map(|s| s.code());
    assert_eq!(codes, [200, 400, 404, 409, 500]);
}

#[test]
fn slews_are_decided_on() {
    let p = |ra: &str, dec: &str| GoToPayload { ra: t(ra), dec: t(dec), closed_loop: Some(true) };
    match p("1:2:3.5", "-4:5:6").decide(true) {
        GotoDecision::Start { note, ra, dec, closed_loop } => {
            assert_eq!(note, "Received GoTo request: RA=1:2:3.5, DEC=-4:5:6");
            assert_eq!(ra, (1, 2, t("3.5")));
            assert_eq!(dec, (-4, 5, t("6")));
            assert!(closed_loop);
        }
        _ => panic!("refused"),
    }
    let refused = |p: GoToPayload, connected: bool| match p.decide(connected) {
        GotoDecision::Refuse { reply, clear_running } => (reply.status, reply.body, clear_running),
        _ => panic!("accepted"),
    };
    assert_eq!(refused(p("", ""), false), (Status::ServerError, t("EQMod not connected"), true));
    assert_eq!(
        refused(p("1:2", ""), true),
        (Status::BadRequest, t("Invalid RA format. Expected HH:MM:SS"), false)
    );
    assert_eq!(
        refused(p("1:2:3", "x"), true),
        (Status::BadRequest, t("Invalid DEC format. Expected DD:MM:SS"), false)
    );
    assert_eq!(goto_reply(None).body, "GoTo completed successfully");
    let r = goto_reply(Some("x"));
    assert_eq!((r.status, r.notes), (Status::ServerError, vec![t("GoTo failed: x")]));
}

#[test]
fn moves_by_hand_are_planned() {
    let client = IndiClient::new("D");
    let m = |d: &str, a: &str, rate| ManualMovePayload { direction: t(d), action: t(a), rate };
    let plan = m("NORTH", "Start", Some(9)).plan(&client);
    assert_eq!(plan.direction, "north");
    assert!(plan.start);
    assert!(plan.rate.unwrap().contains("<oneSwitch name=\"9x\">On"));
    assert!(plan.motion.unwrap_or_default().contains("<oneSwitch name=\"MOTION_NORTH\">On"));
    let plan = m("west", "stop", Some(1)).plan(&client);
    assert!(!plan.start);
    assert!(plan.rate.is_none());
    let plan = m("up", "start", None).plan(&client);
    assert!(matches!(plan.motion, Err(IndiError::Command(e)) if e == "Unknown direction: up"));
    assert_eq!(manual_reply("north", true, None).body, "Manual move north started");
    assert_eq!(manual_reply("north", false, None).body, "Manual move north stopped");
    assert_eq!(manual_reply("north", true, Some("x")).body, "Manual move failed: x");
}

#[test]
fn commands_to_the_mount_are_answered() {
    assert_eq!(park_reply(&Outcome::Sent).body, "Park signal sent");
    assert_eq!(park_reply(&Outcome::NotConnected).body, "EQMod not connected");
    assert_eq!(park_reply(&failed()).body, "Failed to park: x");
    assert_eq!(unpark_reply(&Outcome::Sent).body, "Unpark signal sent");
    assert_eq!(unpark_reply(&failed()).status, Status::ServerError);
    let r = abort_reply(&failed());
    assert_eq!((r.status, r.body), (Status::Success, t("Abort signal sent")));
    assert_eq!(r.notes.last(), Some(&t("Failed to abort motion: x")));
    assert_eq!(
        disconnect_reply(true, false).notes,
        vec!["Received Disconnect request", "EQMod disconnected."]
    );
    assert_eq!(disconnect_reply(false, true).body, "Disconnected successfully");
}

#[test]
fn flips_are_answered() {
    let p = |ra: &str, dec: &str| MeridianFlipPayload { ra: t(ra), dec: t(dec) };
    assert!(p("1:2:3", "4:5:6").refusal(true).is_none());
    assert_eq!(
        p("1:2", "4:5:6").refusal(false).map(|r| r.body),
        Some(t("Invalid RA format. Expected HH:MM:SS"))
    );
    assert_eq!(
        p("1:2:3", "4").refusal(false).map(|r| r.body),
        Some(t("Invalid DEC format. Expected DD:MM:SS"))
    );
    assert_eq!(
        p("1:2:3", "4:5:6").refusal(false).map(|r| r.status),
        Some(Status::ServerError)
    );
    assert!(flip_notes("1.0000", "2.0000")
        .contains(&t("Force meridian flip to RA=1.0000h, Dec=2.0000°")));
    let r = flip_reply(Ok(PierSide::East));
    assert_eq!(r.body, "Flip complete. Pier side: EAST");
    assert_eq!(r.notes, vec!["Meridian flip complete. New pier side: EAST"]);
    assert_eq!(flip_reply(Err("x")).body, "Meridian flip failed: x");
}

#[test]
fn the_server_is_restarted() {
    let s = begin(true);
    assert!(matches!(s.request, RestartRequest::Kill));
    let s = advance(s.waiting, RestartReport::Failed { error: t("x") });
    assert_eq!(s.notes, vec!["Failed to kill process: x"]);
    assert!(matches!(s.request, RestartRequest::Spawn { after_ms: 1000 }));
    let s = advance(s.waiting, RestartReport::Started { pid: 7 });
    assert_eq!(s.notes[0], "INDI server started with PID: 7");
    let mut s: RestartStep = s;
    for i in 1..=2 {
        s = advance(s.waiting, RestartReport::Failed { error: t("x") });
        assert_eq!(s.notes, vec![format!("Failed to reconnect to EQMod (attempt {}): x", i)]);
        assert!(matches!(s.request, RestartRequest::Connect { after_ms: 2000 }));
    }
    s = advance(s.waiting, RestartReport::Failed { error: t("x") });
    match s.request {
        RestartRequest::Respond { status, body, .. } => {
            assert_eq!(status, Status::ServerError);
            assert_eq!(body, "INDI restarted but EQMod reconnect failed after multiple attempts.");
        }
        _ => panic!("goes on"),
    }
}

#[test]
fn a_restart_succeeds_when_the_mount_reconnects() {
    let s = begin(false);
    assert!(matches!(s.request, RestartRequest::Sweep));
    let s = advance(s.waiting, RestartReport::Done);
    let s = advance(s.waiting, RestartReport::Started { pid: 1 });
    let s = advance(s.waiting, RestartReport::Done);
    assert!(matches!(s.request, RestartRequest::Respond { status: Status::Success, .. }));
    let s = advance(begin(false).waiting, RestartReport::Done);
    let s = advance(s.waiting, RestartReport::Failed { error: t("x") });
    assert!(matches!(
        s.request,
        RestartRequest::Respond { status: Status::ServerError, body, .. }
            if body == "Failed to start INDI server: x"
    ));
}

#[test]
fn previews_have_settings() {
    let p = |exposure: &str, aperture: &str, iso: &str| {
        TakepreviewPayload { exposure: t(exposure), aperture: t(aperture), iso: t(iso) }.settings()
    };
    let s = p("2.5", " f/2.8 ", "1600");
    assert_eq!((s.iso, s.exposure, s.aperture), (1600, t("2.5"), Some(t("2.8"))));
    let s = p("long", "", "-1");
    assert_eq!((s.iso, s.exposure, s.aperture), (800, t("5"), None));
    assert_eq!(p("1", "wide", "1").aperture, None);
    assert_eq!(
        preview_text(800, "5", Some("2.8")),
        "Preview params: ISO=800, exposure=5s, aperture=Some(2.8)"
    );
    assert_eq!(
        preview_text(800, "5", None),
        "Preview params: ISO=800, exposure=5s, aperture=None"
    );
}

#[test]
fn previews_are_answered() {
    let body = |o: PreviewOutcome| preview_reply(&o).body;
    assert_eq!(body(PreviewOutcome::NoCamera), "Camera not connected");
    assert_eq!(body(PreviewOutcome::NoDirectory(t("x"))), "Failed to create directory: x");
    assert_eq!(body(PreviewOutcome::NoPhoto(t("x"))), "Preview failed: x");
    assert_eq!(body(PreviewOutcome::NotConverted(t("x"))), "Conversion failed: x");
    assert_eq!(body(PreviewOutcome::NotRead(t("p"))), "Failed to read preview file");
    let r = preview_reply(&PreviewOutcome::Read(t("p")));
    assert_eq!((r.status, r.notes), (Status::Success, vec![t("Preview saved at: p")]));
}

#[test]
fn a_live_feed_is_started_once() {
    let settings = CameraGlobalSettings::default();
    let p = StartLivefeedPayload { exposure: None, iso: Some(100) };
    match p.decide(false, &settings, true) {
        FeedDecision::Start { exposure, iso } => assert_eq!((exposure, iso), (t("2"), 100)),
        _ => panic!("refused"),
    }
    let refused = |running, camera| match p.decide(running, &settings, camera) {
        FeedDecision::Refuse(r) => (r.status, r.body),
        _ => panic!("started"),
    };
    assert_eq!(
        refused(true, false),
        (Status::Conflict, t("Already running (sequence or livefeed active)"))
    );
    assert_eq!(refused(false, false), (Status::BadRequest, t("Camera not connected")));
    assert_eq!(feed_reply("2.0").notes, vec!["Livefeed started (2.0s exposure)..."]);
    assert_eq!(feed_stopped_text(), "Livefeed stopped.");
}

#[test]
fn a_live_feed_ends_with_its_first_failure() {
    let s = after_feed_frame(&FeedFrame::Taken { converted: true });
    assert_eq!((s.notes, s.go_on), (vec![t("SEQ_IMAGE_READY")], true));
    let s = after_feed_frame(&FeedFrame::Taken { converted: false });
    assert_eq!((s.notes.len(), s.go_on), (0, true));
    let s = after_feed_frame(&FeedFrame::Failed(t("USB gone")));
    assert_eq!((s.notes, s.go_on), (vec![t("Livefeed error: USB gone")], false));
    let s = after_feed_frame(&FeedFrame::NoCamera);
    assert_eq!(s.notes, vec!["Livefeed error: Camera disconnected"]);
    for e in ["Exposure CANCELLED", "aborted"] {
        let s = after_feed_frame(&FeedFrame::Failed(t(e)));
        assert_eq!((s.notes.len(), s.go_on), (0, false));
    }
    assert!(tells_of_cancelling("cancelled"));
    assert!(!tells_of_cancelling("CANCELLED"));
}

#[test]
fn the_camera_is_connected_and_disconnected() {
    let r = connect_reply(&CameraOutcome::Connected(t("Canon EOS R8")));
    assert_eq!(r.notes[1], "Camera connected successfully (model: Canon_EOS_R8).");
    assert_eq!(r.body, "Camera connected successfully");
    assert_eq!(connect_reply(&CameraOutcome::Already).body, "Camera already connected");
    let r = connect_reply(&CameraOutcome::Failed(t("x")));
    assert_eq!((r.status, r.body), (Status::ServerError, t("Failed to connect to camera: x")));
    assert_eq!(disconnect_camera_reply().body, "Camera disconnected");
    assert_eq!(no_sequence_preview().status, Status::NotFound);
    let r = settings_changed_reply(&CameraGlobalSettings::default());
    assert_eq!(
        r.notes,
        vec!["Camera settings updated: ISO=1600, Plate Expose=2, Pixel Size=6μm, Focal Length=714mm, Bitdepth=14"]
    );
}

#[test]
fn the_status_is_told() {
    let s = status_response(None, None, Some(t("1")), Some(t("2")), true);
    assert!(s.camera_connected && !s.eqmod_connected && s.is_running);
    assert_eq!((s.mount_status, s.pier_side), (t("DISCONNECTED"), t("UNKNOWN")));
    assert_eq!((s.hour_angle, s.time_to_flip_minutes), (None, None));
    let mut c = IndiClient::new("D");
    c.receive("<setNumberVector device='D' name='EQUATORIAL_EOD_COORD' state='Ok'><oneNumber name='RA'>3.5</oneNumber></setNumberVector>");
    let s = status_response(Some(false), Some(&c), Some(t("1")), None, false);
    assert!(!s.camera_connected && s.eqmod_connected && !s.is_running);
    assert_eq!((s.mount_status, s.mount_ra, s.mount_dec), (t("TRACKING"), t("3.5"), t("0")));
    assert_eq!(s.hour_angle, Some(t("1")));
}

#[test]
fn small_requests_are_answered() {
    assert_eq!(ping().body, "pong");
    assert_eq!(event_text("hello"), "data: hello\n\n");
    let r = receive_command(&CommandCheck { action: t("launch_function") });
    assert_eq!((r.status, r.body), (Status::Success, t("Function launched successfully")));
    let r = receive_command(&CommandCheck { action: t("other") });
    assert_eq!((r.status, r.body), (Status::BadRequest, t("Unknown command")));
    assert_eq!(stop_reply().body, "Stop signal sent");
    assert_eq!(pause_reply().notes, vec!["Received Pause request"]);
    assert_eq!(settings_reply().body, "Settings updated");
    let p = StartSequencePayload {
        groups: vec![],
        date: t("d"),
        resume_from: None,
        subfolder: None,
        meridian_flip: None,
        post_meridian_limit_h: None,
        park_after: None,
        shutdown_after: None,
        closed_loop: None,
        recenter_every: None,
    };
    let r = start_reply(&p);
    assert_eq!(r.notes, vec!["Received Start Sequence request (0 group(s))"]);
    assert_eq!(r.body, "Sequence started in background");
    assert_eq!(p.flip_limit(), "0.1");
}

#[test]
fn the_time_and_the_location_are_told_to_the_mount() {
    let p = TimePayload { utc_datetime: t("now") };
    let r = p.time_reply(&Outcome::Sent);
    assert_eq!(r.notes, vec!["Time updated: now", "Time updated on EQMod."]);
    let r = p.time_reply(&failed());
    assert_eq!((r.status, r.body), (Status::ServerError, t("Failed to update time on EQMod: x")));
    assert_eq!(p.time_reply(&Outcome::NotConnected).body, "Time updated successfully");
    let l = Location { latitude: t("1"), longitude: t("2"), elevation: t("3") };
    let r = location_reply(&l, &failed());
    assert_eq!(r.status, Status::Success);
    assert_eq!(
        r.notes,
        vec!["Location updated: 1, 2, 3", "Failed to update location on EQMod: x"]
    );
    assert_eq!(location_reply(&l, &Outcome::NotConnected).notes.len(), 1);
}

#[test]
fn the_computer_is_shut_down_or_rebooted() {
    assert_eq!(PowerRequest::Shutdown.announcement(), "Shutting down Raspberry Pi...");
    assert_eq!(PowerRequest::Reboot.announcement(), "Rebooting Raspberry Pi...");
    assert_eq!(PowerRequest::Shutdown.power_reply(None).body, "Shutdown command sent");
    assert_eq!(PowerRequest::Reboot.power_reply(None).body, "Reboot command sent");
    assert_eq!(PowerRequest::Reboot.power_reply(Some("x")).body, "Failed to reboot: x");
    let r = PowerRequest::Shutdown.power_reply(Some("x"));
    assert_eq!((r.status, r.notes), (Status::ServerError, vec![t("Failed to shutdown: x")]));
}

#[test]
fn polar_alignment_is_answered() {
    let (r, notes) = polar_reply(PolarOutcome::Solved {
        ra: t("10.5"),
        dec: t("89.25"),
        ra_text: t("10.5000"),
        dec_text: t("89.2500"),
    });
    assert!(r.success);
    assert_eq!((r.ra_deg, r.dec_deg), (Some(t("10.5")), Some(t("89.25"))));
    assert_eq!(r.message, "RA 10.5000  Dec 89.2500");
    assert_eq!(notes, vec!["Polar align solved: RA=10.5000 Dec=89.2500"]);
    let (r, notes) = polar_reply(PolarOutcome::Failed(t("x")));
    assert_eq!((r.success, r.message), (false, t("x")));
    assert_eq!(notes, vec!["Polar align capture failed: x"]);
    assert_eq!(polar_reply(PolarOutcome::Unsolved).1, vec!["Polar align: no solution found"]);
    let (r, notes) = polar_reply(PolarOutcome::NoCamera);
    assert_eq!((r.message, notes.len()), (t("Camera not connected"), 0));
    assert_eq!(
        polar_capture_text("2.0", 1600, "1.00", "2.00"),
        "Polar align: capturing 2.0s ISO 1600 (hint RA=1.00 Dec=2.00)..."
    );
    assert_eq!(
        rotate_text("1.0000", "2.0000"),
        "Polar align: rotating to RA=1.0000h Dec=2.0000° (pier side locked)..."
    );
}

#[test]
fn rotations_are_decided_on() {
    let p = |ra: &str, dec: &str| RotateRaPayload { ra: t(ra), dec: t(dec) };
    match p("1:x:3", "-4:5:6").decide(true) {
        RotateDecision::Slew { ra, dec } => {
            assert_eq!(ra, (t("1"), t("0"), t("3")));
            assert_eq!(dec, (t("-4"), t("5"), t("6")));
        }
        _ => panic!("refused"),
    }
    let refused = |p: RotateRaPayload, connected: bool| match p.decide(connected) {
        RotateDecision::Refuse(r) => (r.status, r.body),
        _ => panic!("accepted"),
    };
    assert_eq!(refused(p("", ""), false), (Status::ServerError, t("EQMod not connected")));
    assert_eq!(
        refused(p("1", ""), true),
        (Status::BadRequest, t("Invalid RA format. Expected HH:MM:SS"))
    );
    assert_eq!(
        refused(p("1:2:3", "1"), true),
        (Status::BadRequest, t("Invalid Dec format. Expected DD:MM:SS"))
    );
    assert_eq!(rotate_reply(None).body, "ok");
    assert_eq!(rotate_reply(Some("x")).body, "Polar align rotate failed: x");
}
