//! Sequences over several targets, checked slews, settings and the solver.

use astropi::capture::plan::{SequenceItem, SequenceType};
use astropi::goto_loop::{Deviation, GotoLoop, LoopReport, LoopRequest};
use astropi::json::{read_number, read_text, read_true, JsonField, JsonValue};
use astropi::sequence::{
    GroupReport, GroupRequest, SequenceGroup, SequenceStatus, StartSequencePayload,
};
use astropi::solver::{
    find_raw_tools, raw_to_jpeg_fast, read_solution, sidecar_name, solve_arguments,
    solve_with_astrometry, Place, Solution, SolverRun,
};
use astropi::sorting::{stable_sort, Ranked};
use astropi::state::{
    BackendSequenceState, CameraGlobalSettings, CameraSettingsPayload, Location, PrintedReals,
    SequenceItemBackend, SequenceOptions, SequenceProgress, SequenceStateUpdate, Settings,
    SettingsUpdate,
};
use astropi::catalogue::MessierObject;

fn t(s: &str) -> String {
    s.to_string()
}

fn group(target: &str, ra: Option<&str>, dec: Option<&str>) -> SequenceGroup {
    SequenceGroup {
        target: t(target),
        sequence: vec![SequenceItem { item_type: SequenceType::Light, exposure: t("1"), count: 2 }],
        ra: ra.map(t),
        dec: dec.map(t),
        skip_goto: None,
        park: None,
    }
}

fn payload(groups: Vec<SequenceGroup>) -> StartSequencePayload {
    StartSequencePayload {
        groups,
        date: t("d"),
        resume_from: Some(1),
        subfolder: None,
        meridian_flip: Some(true),
        post_meridian_limit_h: Some(t("0.5")),
        park_after: Some(true),
        shutdown_after: Some(true),
        closed_loop: None,
        recenter_every: Some(3),
    }
}

/// Drives a sequence with the given reports to slews and captures.
fn drive(
    job: &StartSequencePayload,
    mount: bool,
    fail: Option<GroupRequest>,
) -> (Vec<String>, Vec<GroupRequest>) {
    let mut notes = Vec::new();
    let mut requests = Vec::new();
    let mut step = job.begin();
    loop {
        notes.extend(step.notes);
        requests.push(step.request);
        let report = match step.request {
            GroupRequest::CheckDevices => GroupReport::Devices { camera: true, mount },
            GroupRequest::ReadFlags => GroupReport::Flags { running: true, paused: false },
            GroupRequest::Abandon | GroupRequest::Shutdown | GroupRequest::Finish => {
                return (notes, requests)
            }
            r if Some(r) == fail => GroupReport::Failed { error: t("x") },
            _ => GroupReport::Done,
        };
        step = job.advance(step.position, report);
    }
}

#[test]
fn every_group_is_captured() {
    let mut park = group("end", None, None);
    park.park = Some(true);
    let job = payload(vec![
        group("M31", Some("0:42:44"), Some("41:16:09")),
        group("here", None, None),
        park,
    ]);
    assert!(job.is_countable());
    let (notes, requests) = drive(&job, true, None);
    assert_eq!(
        notes,
        vec![
            "Starting sequence (3 group(s), resuming from 1)...",
            "Group 1/3: Slewing to M31...",
            "Group 1/3: Capturing 2 for M31...",
            "Group 1/3 complete (M31).",
            "Group 2/3: Capturing 2 for here...",
            "Group 2/3 complete (here).",
            "Parking mount (sequence group)...",
            "Mount parked.",
            "Sequence complete!",
            "Parking mount after sequence...",
            "Mount parked after sequence.",
            "Shutting down after sequence...",
        ]
    );
    assert!(requests.contains(&GroupRequest::Capture { resume: 1, flip: true, recenter: true }));
    assert!(requests.contains(&GroupRequest::Capture { resume: 0, flip: false, recenter: false }));
    assert_eq!(requests.last(), Some(&GroupRequest::Shutdown));
    assert!(requests.contains(&GroupRequest::Close { status: SequenceStatus::Idle }));
    assert_eq!(job.flip_limit(), "0.5");
}

#[test]
fn groups_go_on_without_a_mount() {
    let job = payload(vec![group("M31", Some("0:42:44"), Some("41:16:09")), group("bad", Some("x"), Some("y"))]);
    let (notes, requests) = drive(&job, false, None);
    assert!(notes.contains(&t("Mount not connected, skipping GoTo.")));
    assert!(notes.contains(&t("Invalid RA/Dec for group bad, skipping GoTo.")));
    assert!(!requests.contains(&GroupRequest::Goto));
    assert!(!requests.contains(&GroupRequest::Park));
}

#[test]
fn a_failure_ends_the_sequence() {
    let job = payload(vec![group("M31", Some("0:42:44"), Some("41:16:09")), group("next", None, None)]);
    let (notes, requests) = drive(&job, true, Some(GroupRequest::Goto));
    assert_eq!(notes.last(), Some(&t("GoTo failed for M31: x")));
    assert_eq!(requests.last(), Some(&GroupRequest::Finish));
    assert!(!requests.contains(&GroupRequest::Shutdown));
    let capture = GroupRequest::Capture { resume: 1, flip: true, recenter: true };
    let (notes, requests) = drive(&job, true, Some(capture));
    assert_eq!(notes.last(), Some(&t("Plan failed for M31: x")));
    assert_eq!(requests.iter().filter(|r| matches!(r, GroupRequest::Capture { .. })).count(), 1);
}

#[test]
fn a_sequence_is_stopped_or_paused() {
    let job = payload(vec![group("a", None, None), group("b", None, None)]);
    let s = job.begin();
    let s = job.advance(s.position, GroupReport::Devices { camera: true, mount: false });
    let stopped = job.advance(s.position, GroupReport::Flags { running: false, paused: false });
    assert_eq!(stopped.notes, vec!["Sequence stopped between groups."]);
    let s = job.advance(s.position, GroupReport::Flags { running: true, paused: false });
    let s = job.advance(s.position, GroupReport::Done);
    let s = job.advance(s.position, GroupReport::Flags { running: true, paused: true });
    let s = job.advance(s.position, GroupReport::Flags { running: true, paused: true });
    assert_eq!(s.request, GroupRequest::Close { status: SequenceStatus::Paused });
    let s = job.advance(s.position, GroupReport::Done);
    assert_eq!(s.request, GroupRequest::Finish);
    let s = job.advance(job.begin().position, GroupReport::Devices { camera: false, mount: true });
    assert_eq!(s.notes, vec!["Camera not connected, cannot start sequence."]);
    assert_eq!(s.request, GroupRequest::Abandon);
    assert_eq!(SequenceStatus::Paused.name(), "paused");
}

fn goto(closed_loop: bool, camera: bool) -> GotoLoop {
    GotoLoop { target_ra: t("1.0000"), target_dec: t("2.0000"), closed_loop, camera }
}

#[test]
fn an_open_slew_takes_no_picture() {
    for (g, note) in [
        (goto(false, true), "Closed loop disabled, goto finished."),
        (goto(true, false), "Closed loop requested but no camera available."),
    ] {
        let s = g.begin();
        assert_eq!(s.notes[1], "Slewing to coordinates: RA=1.0000, Dec=2.0000");
        let s = g.advance(s.position, LoopReport::Flag { running: true });
        assert_eq!(s.request, LoopRequest::Slew { after_ms: 0 });
        let s = g.advance(s.position, LoopReport::Done);
        assert_eq!((s.notes, s.request), (vec![t(note)], LoopRequest::Finish));
    }
}

#[test]
fn a_checked_slew_is_corrected() {
    let g = goto(true, true);
    let flag = || LoopReport::Flag { running: true };
    let s = g.advance(g.begin().position, flag());
    let s = g.advance(s.position, LoopReport::Done);
    let s = g.advance(s.position, flag());
    assert_eq!(
        s.notes[0],
        "Correction iteration 0: Error inf arcsec > tolerance 100.00. Adjusting..."
    );
    let s = g.advance(s.position, flag());
    assert_eq!(s.request, LoopRequest::CaptureAndSolve);
    let s = g.advance(s.position, LoopReport::NoSolution);
    assert_eq!(
        s.notes[0],
        "Iteration 0: plate solve failed — skipping correction, retrying capture."
    );
    let s = g.advance(g.advance(s.position, flag()).position, flag());
    let s = g.advance(
        s.position,
        LoopReport::Solved { deviation: Deviation::Within, error: t("42.00") },
    );
    assert_eq!(s.request, LoopRequest::Sync);
    let s = g.advance(s.position, LoopReport::Failed { error: t("x") });
    assert_eq!(s.notes, vec!["Warning: sync failed: x"]);
    assert_eq!(s.request, LoopRequest::Slew { after_ms: 250 });
    let s = g.advance(s.position, LoopReport::Done);
    assert_eq!(
        s.notes,
        vec![
            "Iteration 2 result: Position error is 42.00 arcsec.",
            "Target acquired within tolerance.",
        ]
    );
    assert_eq!(s.request, LoopRequest::Finish);
}

#[test]
fn corrections_are_bounded() {
    let g = goto(true, true);
    let flag = || LoopReport::Flag { running: true };
    let mut s = g.advance(g.begin().position, flag());
    s = g.advance(s.position, LoopReport::Done);
    let mut pictures = 0;
    while s.request != LoopRequest::Finish {
        s = g.advance(s.position, flag());
        s = g.advance(s.position, flag());
        assert_eq!(s.request, LoopRequest::CaptureAndSolve);
        pictures += 1;
        s = g.advance(s.position, LoopReport::NoSolution);
    }
    assert_eq!(pictures, 5);
    assert_eq!(s.notes.last(), Some(&t("Max iterations reached, goto failed.")));
    let s = g.advance(g.begin().position, LoopReport::Flag { running: false });
    assert_eq!(s.notes, vec!["Goto aborted by user."]);
    let s = g.advance(g.begin().position, flag());
    let s = g.advance(s.position, LoopReport::Failed { error: t("x") });
    assert_eq!(s.request, LoopRequest::Fail);
}

fn changed(s: CameraGlobalSettings, p: CameraSettingsPayload) -> CameraGlobalSettings {
    let print = |text: &str| text.parse::<f64>().map(|v| v.to_string()).unwrap_or(t("unused"));
    let printed = PrintedReals {
        platesolving_exposure: print(&p.platesolving_exposure),
        pixel_size_micron: print(p.pixel_size_micron.as_deref().unwrap_or("")),
        focal_length_mm: print(p.focal_length_mm.as_deref().unwrap_or("")),
    };
    s.changed(&p, &printed)
}

#[test]
fn camera_settings_change_where_the_text_is_a_number() {
    let s = CameraGlobalSettings::default();
    assert_eq!((s.iso, s.bitdepth, s.focal_length_mm.as_str()), (1600, 14, "714"));
    let s = changed(s, CameraSettingsPayload {
        iso: t("800"),
        platesolving_exposure: t("fast"),
        pixel_size_micron: Some(t("3.2")),
        focal_length_mm: None,
        bitdepth: Some(t("70000")),
    });
    assert_eq!((s.iso, s.bitdepth), (800, 14));
    assert_eq!((s.platesolving_exposure.as_str(), s.pixel_size_micron.as_str()), ("2", "3.2"));
    let s = changed(s, CameraSettingsPayload {
        iso: t("x"),
        platesolving_exposure: t("4"),
        pixel_size_micron: None,
        focal_length_mm: Some(t("500")),
        bitdepth: Some(t("16")),
    });
    assert_eq!((s.iso, s.bitdepth, s.platesolving_exposure.as_str()), (800, 16, "4"));
    let s = changed(s, CameraSettingsPayload {
        iso: t("x"),
        platesolving_exposure: t("2.50"),
        pixel_size_micron: Some(t("+03.20")),
        focal_length_mm: Some(t("500.0")),
        bitdepth: None,
    });
    assert_eq!(s.platesolving_exposure, "2.5");
    let s = changed(s, CameraSettingsPayload {
        iso: t("x"),
        platesolving_exposure: t("1e1"),
        pixel_size_micron: Some(t("0.1000000000000000055")),
        focal_length_mm: Some(t("Infinity")),
        bitdepth: None,
    });
    assert_eq!((s.platesolving_exposure.as_str(), s.pixel_size_micron.as_str()), ("10", "0.1"));
    assert_eq!(s.focal_length_mm, "inf");
    let s = changed(s, CameraSettingsPayload {
        iso: t("x"),
        platesolving_exposure: t("y"),
        pixel_size_micron: Some(t("+03.20")),
        focal_length_mm: Some(t("500.0")),
        bitdepth: None,
    });
    assert_eq!(s.platesolving_exposure, "10");
    let c = s.to_camera_config();
    assert_eq!((c.pixel_size_micron.as_str(), c.focal_length_mm.as_str(), c.bitdepth), ("3.2", "500", 16));
}

fn plan_item() -> SequenceItemBackend {
    SequenceItemBackend {
        id: t("1"),
        item_type: t("Light"),
        exposure: t("1"),
        count: t("2"),
        target_name: t("M31"),
        target_ra_deg: t("10"),
        target_dec_deg: t("41"),
        skip_goto: false,
    }
}

#[test]
fn the_state_of_a_sequence_is_kept() {
    let mut s = BackendSequenceState::default();
    assert_eq!((s.plan.len(), s.status.as_str(), s.progress.is_none()), (0, "idle", true));
    s.start();
    assert_eq!(s.status, "running");
    s.follow("PROGRESS:2/5:Capturing");
    s.follow("Captured frame 2/5");
    assert_eq!(s.progress.as_ref().map(|p| (p.current, p.total)), Some((2, 5)));
    s.pause();
    assert_eq!((s.status.as_str(), s.progress.is_some()), ("paused", true));
    s.finish(true);
    assert_eq!((s.status.as_str(), s.progress.is_some()), ("paused", true));
    s.give_up();
    assert_eq!((s.status.as_str(), s.progress.is_some()), ("idle", true));
    s.finish(false);
    assert_eq!((s.status.as_str(), s.progress.is_none()), ("idle", true));
    s.follow("PROGRESS:3/5:x");
    s.stop();
    assert_eq!((s.status.as_str(), s.progress.is_none()), ("idle", true));
}

#[test]
fn settings_are_updated_in_part() {
    let place = |v: &str| Location { latitude: t(v), longitude: t(v), elevation: t(v) };
    let mut s = Settings {
        camera_settings: CameraGlobalSettings::default(),
        closed_loop: false,
        observer_location: place("0"),
        sequence_options: SequenceOptions::default(),
        sequence_state: BackendSequenceState::default(),
    };
    assert_eq!(s.sequence_options.post_meridian_limit_h, "0.1");
    let nothing = || SettingsUpdate {
        camera_settings: None,
        closed_loop: None,
        observer_location: None,
        sequence_options: None,
        sequence_state: None,
    };
    assert!(!s.update(nothing()));
    let mut u = nothing();
    u.closed_loop = Some(true);
    u.observer_location = Some(place("7"));
    u.sequence_state = Some(SequenceStateUpdate {
        plan: Some(vec![plan_item()]),
        status: None,
        progress: Some(SequenceProgress { current: 1, total: 2, msg: t("m") }),
    });
    assert!(s.update(u));
    assert!(s.closed_loop);
    assert_eq!(s.observer_location.latitude, "7");
    assert_eq!((s.sequence_state.plan.len(), s.sequence_state.status.as_str()), (1, "idle"));
    assert_eq!(s.camera_settings.iso, 1600);
}

#[test]
fn the_output_of_the_solver_is_read() {
    let run = |stdout: &str| {
        solve_with_astrometry(&SolverRun {
            success: true,
            status: t("exit status: 0"),
            stdout: t(stdout),
            stderr: t(""),
        })
    };
    match run(" {\"success\":true,\"ra_deg\":10.5,\"dec_deg\":2,\"logodds\":1e2}\n") {
        Ok(Solution::Solved { ra_deg, dec_deg, scale, logodds }) => {
            assert_eq!((ra_deg.as_str(), dec_deg.as_str(), scale), ("10.5", "2", None));
            assert_eq!(logodds.map(|v| v.parse::<f64>().unwrap()), Some(100.0));
        }
        _ => panic!("not solved"),
    }
    assert!(matches!(run("{\"success\":false}"), Ok(Solution::Unsolved { error }) if error == "unknown error"));
    assert!(matches!(run("{\"success\":true,\"dec_deg\":2}"), Err(e) if e == "missing ra_deg in solver output"));
    assert!(matches!(run("{\"success\":true,\"ra_deg\":2}"), Err(e) if e == "missing dec_deg in solver output"));
    assert!(matches!(run("oops"), Err(e) if e.starts_with("Failed to parse solver JSON output `oops`: ")));
    let failed = SolverRun { success: false, status: t("1"), stdout: t(""), stderr: t("boom") };
    assert!(matches!(
        solve_with_astrometry(&failed),
        Err(e) if e == "raw_tools.py exited with status 1: boom"
    ));
    let fields = vec![JsonField { key: t("error"), value: JsonValue::Text(t("dark")) }];
    assert!(matches!(read_solution(&fields), Ok(Solution::Unsolved { error }) if error == "dark"));
}

#[test]
fn fields_of_an_object_are_read() {
    let fields = vec![
        JsonField { key: t("a"), value: JsonValue::Number(t("1")) },
        JsonField { key: t("b"), value: JsonValue::Bool(true) },
        JsonField { key: t("c"), value: JsonValue::Text(t("x")) },
    ];
    assert_eq!(read_number(&fields, "a"), Some(t("1")));
    assert_eq!(read_number(&fields, "c"), None);
    assert!(read_true(&fields, "b"));
    assert!(!read_true(&fields, "a"));
    assert_eq!(read_text(&fields, "c"), Some(t("x")));
    assert_eq!(read_text(&fields, "d"), None);
}

#[test]
fn the_script_is_found() {
    let place = |path: &str, exists| Place { path: t(path), exists };
    let above = vec![place("a", false), place("b", true), place("c", true), place("d", true)];
    assert_eq!(find_raw_tools(Some(&place("env", true)), &above), "env");
    assert_eq!(find_raw_tools(Some(&place("env", false)), &above), "b");
    assert_eq!(find_raw_tools(None, &vec![]), "scripts/raw_tools.py");
    let far = vec![place("a", false), place("b", false), place("c", false), place("d", true)];
    assert_eq!(find_raw_tools(None, &far), "scripts/raw_tools.py");
    assert_eq!(raw_to_jpeg_fast(true, "", Some(" 2.5 \n")), Ok(t("2.5")));
    assert_eq!(raw_to_jpeg_fast(true, "", Some("x")), Ok(t("1")));
    assert_eq!(raw_to_jpeg_fast(true, "", None), Ok(t("1")));
    assert_eq!(raw_to_jpeg_fast(false, "boom", None), Err(t("snap_jpeg failed: boom")));
    assert_eq!(sidecar_name("a.jpg"), "a.jpg.scale_factor");
    assert_eq!(solve_arguments("i", "1", "2", "3", "4", "5"), vec!["solve", "i", "1", "2", "3", "4", "5"]);
}

#[test]
fn sorting_is_stable() {
    let o = |number, name: &str| MessierObject { name: t(name), number, ra: t(""), dec: t("") };
    let sorted = stable_sort(vec![o(2, "a"), o(1, "b"), o(2, "c"), o(1, "d")]);
    let names: Vec<&str> = sorted.iter().map(|o| o.name.as_str()).collect();
    assert_eq!(names, vec!["b", "d", "a", "c"]);
    assert!(o(1, "").not_above(&o(1, "x")));
}
