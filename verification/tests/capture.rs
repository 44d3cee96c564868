//! Taking pictures and sequences of frames.

use astropi::camera::choice::{
    aperture_options, choose_aperture, choose_iso, choose_shutter, iso_options,
};
use astropi::camera::exposure::{wait_for_duration, waits_for_image, ExposureWait};
use astropi::camera::photo::{
    target_name, timeout_text, PhotoJob, PhotoReport, PhotoRequest, PhotoStage,
};
use astropi::capture::filing::{FilingReport, FilingRequest, FilingStage, FrameFiling};
use astropi::capture::plan::{
    count_frames, frame_filename, plan_steps, save_path, PlanStep, SequenceItem, SequenceType,
};
use astropi::capture::run::{Report, Request, RunPosition, SequenceRun, Waiting};
use astropi::capture::solve::{capture_and_solve, CaptureOutcome, CaptureSettings};
use astropi::indi::pier::PierSide;
use astropi::progress::parse_progress;

fn t(s: &str) -> String {
    s.to_string()
}

fn item(item_type: SequenceType, count: u32) -> SequenceItem {
    SequenceItem { item_type, exposure: t("30"), count }
}

fn lights(count: u32) -> Vec<SequenceItem> {
    vec![item(SequenceType::Light, count)]
}

fn flags(running: bool, paused: bool) -> Report {
    Report::Flags { running, paused }
}

/// Drives a run whose requests all succeed.
fn drive(run: &SequenceRun, flip_due: bool) -> (Vec<String>, Vec<Request>) {
    let mut notes = Vec::new();
    let mut requests = Vec::new();
    let mut step = run.begin();
    loop {
        notes.extend(step.notes);
        requests.push(step.request);
        let report = match step.request {
            Request::ReadFlags { .. } | Request::HandOn => flags(true, false),
            Request::CheckFlip => {
                if flip_due {
                    Report::FlipDue { pier: PierSide::West, hour_angle: t("0.150") }
                } else {
                    Report::NoFlip
                }
            }
            Request::Flip => Report::Flipped { pier: PierSide::East },
            Request::Finish | Request::Fail | Request::DiscardPhoto => return (notes, requests),
            _ => Report::Done,
        };
        step = run.advance(step.position, report);
    }
}

#[test]
fn frames_are_planned() {
    let items = vec![item(SequenceType::Light, 2), item(SequenceType::Dark, 1)];
    assert_eq!(count_frames(&items), Some(3));
    assert_eq!(
        plan_steps(&items, 1),
        vec![
            PlanStep::Item { item: 0 },
            PlanStep::Frame { item: 0, number: 2, index: 2 },
            PlanStep::Item { item: 1 },
            PlanStep::Frame { item: 1, number: 1, index: 3 },
        ]
    );
    assert_eq!(count_frames(&vec![item(SequenceType::Flat, u32::MAX), item(SequenceType::Flat, 1)]), None);
    assert!(SequenceRun::new(vec![item(SequenceType::Flat, u32::MAX), item(SequenceType::Flat, 1)], 0, false, false, 0).is_none());
}

#[test]
fn frames_have_folders_and_names() {
    assert_eq!(save_path(&Some(t("sub")), "M31", SequenceType::Light), vec!["sub", "M31", "lights"]);
    assert_eq!(save_path(&None, "M31", SequenceType::Bias), vec!["M31", "biases"]);
    assert_eq!(
        frame_filename("M31", "2024-01-02", SequenceType::Light, "EOS_R8", "filter", 7, "cr3"),
        "M31_2024-01-02_Light_EOS_R8_filter_0007.cr3"
    );
    assert_eq!(
        frame_filename("M31", "d", SequenceType::Dark, "", "", 12345, "cr3"),
        "M31_d_Dark_12345.cr3"
    );
    assert_eq!(item(SequenceType::Bias, 1).exposure_text(), "0");
    assert_eq!(item(SequenceType::Flat, 1).exposure_text(), "30");
}

#[test]
fn a_run_takes_every_frame() {
    let items = vec![item(SequenceType::Light, 2), item(SequenceType::Bias, 1)];
    let run = SequenceRun::new(items, 0, false, false, 0).unwrap();
    let (notes, requests) = drive(&run, false);
    assert_eq!(requests.iter().filter(|r| **r == Request::TakePhoto).count(), 3);
    assert_eq!(requests.iter().filter(|r| **r == Request::CreateDirectory).count(), 2);
    assert_eq!(
        notes,
        vec![
            "PROGRESS:1/3:Capturing lights frame 1/2 (30s)...",
            "PROGRESS:2/3:Capturing lights frame 2/2 (30s)...",
            "PROGRESS:3/3:Capturing biases frame 1/1 (0s)...",
            "Sequence complete! Captured 3 frames total.",
        ]
    );
    let p = parse_progress(&notes[1]).unwrap();
    assert_eq!((p.current, p.total), (2, 3));
    let run = SequenceRun::new(lights(5), 3, false, false, 0).unwrap();
    let (_, requests) = drive(&run, false);
    assert_eq!(requests.iter().filter(|r| **r == Request::TakePhoto).count(), 2);
}

#[test]
fn the_mount_flips_and_recenters_between_lights() {
    let run = SequenceRun::new(lights(3), 0, true, true, 2).unwrap();
    let (notes, requests) = drive(&run, true);
    assert_eq!(requests.iter().filter(|r| **r == Request::Flip).count(), 3);
    assert_eq!(requests.iter().filter(|r| **r == Request::Recenter).count(), 1);
    assert!(notes.contains(&t("Meridian flip triggered! Pier=WEST, HA=0.150h. Flipping...")));
    assert!(notes.contains(&t("Meridian flip complete. New pier side: EAST")));
    assert!(notes.contains(&t("Auto-recenter: 2 light frames captured, recentering...")));
    assert!(requests.contains(&Request::ReadFlags { after_ms: 2000 }));
    let run = SequenceRun::new(vec![item(SequenceType::Dark, 3)], 0, true, true, 1).unwrap();
    let (_, requests) = drive(&run, true);
    assert!(!requests.contains(&Request::CheckFlip) && !requests.contains(&Request::Recenter));
}

fn at(run: &SequenceRun, waiting: Waiting, report: Report) -> (Vec<String>, Request) {
    let step = match waiting {
        Waiting::ItemFlags | Waiting::Directory => 0,
        _ => 1,
    };
    let s = run.advance(RunPosition { waiting, step, lights: 0 }, report);
    (s.notes, s.request)
}

#[test]
fn a_run_is_stopped_or_paused() {
    let run = SequenceRun::new(lights(3), 0, true, true, 2).unwrap();
    let told = |waiting, running, paused| {
        let (notes, request) = at(&run, waiting, flags(running, paused));
        (notes.join("|"), request)
    };
    assert_eq!(told(Waiting::ItemFlags, false, true), (t("Plan cancelled manually."), Request::Finish));
    assert_eq!(told(Waiting::ItemFlags, true, true), (t("Plan paused manually."), Request::Finish));
    assert_eq!(told(Waiting::FrameFlags, false, false), (t("Sequence cancelled manually."), Request::Finish));
    assert_eq!(told(Waiting::FrameFlags, true, true), (t("Sequence paused manually."), Request::Finish));
    assert_eq!(
        told(Waiting::FlipFlags, false, false),
        (t("Sequence cancelled during meridian flip."), Request::Finish)
    );
    assert_eq!(
        told(Waiting::RecenterFlags, false, false),
        (t("Sequence cancelled during recenter."), Request::Finish)
    );
    assert_eq!(
        told(Waiting::PhotoFlags, false, false),
        (t("Sequence cancelled manually. Deleting last image."), Request::DiscardPhoto)
    );
    assert_eq!(told(Waiting::HandedOn, true, true), (t("Sequence paused manually."), Request::Finish));
}

#[test]
fn failures_of_the_mount_are_survived() {
    let run = SequenceRun::new(lights(3), 0, true, true, 2).unwrap();
    let failed = || Report::Failed { error: t("x") };
    let (notes, request) = at(&run, Waiting::FlipEnd, failed());
    assert_eq!(notes, vec!["Meridian flip failed: x. Continuing anyway."]);
    assert_eq!(request, Request::ReadFlags { after_ms: 0 });
    let (notes, request) = at(&run, Waiting::RecenterEnd, failed());
    assert_eq!(notes, vec!["Auto-recenter failed: x. Continuing sequence."]);
    assert_eq!(request, Request::ReadFlags { after_ms: 0 });
    assert_eq!(at(&run, Waiting::Photo, failed()).1, Request::Fail);
    assert_eq!(at(&run, Waiting::Directory, failed()).1, Request::Fail);
}

fn filing(file: &str) -> FrameFiling {
    FrameFiling {
        folder: t("dir"),
        file: t(file),
        target: t("M31"),
        date: t("d"),
        kind: SequenceType::Light,
        model: t(""),
        suffix: t("s"),
        index: 4,
        total: 9,
        ra: t("10.684708"),
        dec: t(""),
        focal: t("714.000"),
        pixel: t("6.000"),
        exposure: t("30.000"),
        iso: 800,
    }
}

#[test]
fn a_frame_is_filed() {
    let f = filing("IMG_1.CR3");
    let s = f.begin();
    assert!(matches!(
        &s.request,
        FilingRequest::Rename { from, to } if from == "dir/IMG_1.CR3" && to == "dir/M31_d_Light_s_0004.CR3"
    ));
    let s = f.advance(s.stage, &FilingReport::Done);
    assert!(matches!(&s.request, FilingRequest::MakePreview(p) if p == "dir/M31_d_Light_s_0004.CR3"));
    let s = f.advance(s.stage, &FilingReport::Done);
    assert_eq!(s.notes, vec!["SEQ_IMAGE_READY"]);
    assert!(matches!(&s.request, FilingRequest::LookFor(p) if p == "dir/M31_d_Light_s_0004.fits"));
    let s = f.advance(s.stage, &FilingReport::Found(false));
    match &s.request {
        FilingRequest::Convert(words) => assert_eq!(
            words,
            &vec![
                "tiff", "dir/M31_d_Light_s_0004.CR3", "dir/M31_d_Light_s_0004.fits", "M31",
                "10.684708", "", "714.000", "6.000", "30.000", "800",
            ]
        ),
        _ => panic!("no conversion"),
    }
    let s = f.advance(s.stage, &FilingReport::Done);
    assert_eq!(s.notes, vec!["FITS saved: M31_d_Light_s_0004.fits"]);
    assert!(matches!(&s.request, FilingRequest::Delete(p) if p == "dir/M31_d_Light_s_0004.CR3"));
    let s = f.advance(s.stage, &FilingReport::Failed(t("x")));
    assert_eq!(s.notes, vec!["Captured frame 4/9"]);
    assert!(matches!(s.request, FilingRequest::Finish));
}

#[test]
fn frames_are_filed_where_their_names_say() {
    let mut f = filing("IMG_1.CR3");
    let rename = |f: &FrameFiling| match f.begin().request {
        FilingRequest::Rename { from, to } => (from, to),
        _ => panic!("no renaming"),
    };
    for (folder, target) in [("dir", "/abs/M31"), ("dir/", "M31"), ("", "M31"), ("d", "a/M31")] {
        f.folder = t(folder);
        f.target = t(target);
        let at = |name: &str| std::path::Path::new(folder).join(name).display().to_string();
        let name = format!("{}_d_Light_s_0004.CR3", target);
        assert_eq!(rename(&f), (at("IMG_1.CR3"), at(&name)));
        let s = f.advance(FilingStage::Converting, &FilingReport::Done);
        assert_eq!(s.notes, vec!["FITS saved: M31_d_Light_s_0004.fits"]);
    }
}

#[test]
fn a_frame_that_is_not_converted_is_kept() {
    let f = filing("IMG_1.CR3");
    let ends = |stage, report: FilingReport| {
        let s = f.advance(stage, &report);
        assert!(matches!(s.request, FilingRequest::Finish));
        s.notes
    };
    assert_eq!(ends(FilingStage::Converting, FilingReport::Failed(t("x"))), vec!["Captured frame 4/9"]);
    assert_eq!(ends(FilingStage::Looking, FilingReport::Found(true)), vec!["Captured frame 4/9"]);
    assert_eq!(
        ends(FilingStage::Renaming, FilingReport::Failed(t("x"))),
        vec!["Warning: Failed to rename file: x", "Captured frame 4/9"]
    );
    let s = f.advance(FilingStage::Previewing, &FilingReport::Failed(t("x")));
    assert!(s.notes.is_empty() && matches!(s.request, FilingRequest::LookFor(_)));
    assert!(matches!(filing("IMG_1").begin().request, FilingRequest::Finish));
}

#[test]
fn sensitivities_are_chosen() {
    let choices = ["Auto", "100", "800"].map(t).to_vec();
    assert_eq!(iso_options(&choices), vec![100, 800]);
    assert_eq!(choose_iso(800, &choices), Ok(t("800")));
    assert_eq!(choose_iso(200, &choices), Err(t("ISO 200 not available. Options: [100, 800]")));
    assert_eq!(choose_iso(200, &vec![]), Err(t("ISO 200 not available. Options: []")));
    assert_eq!(choose_shutter("5", &choices), None);
    assert_eq!(choose_shutter("100", &choices), Some(t("100")));
}

#[test]
fn apertures_are_chosen() {
    let choices = ["implicit auto", "2.8", "4"].map(t).to_vec();
    let options = aperture_options(&choices);
    assert_eq!(options, vec!["2.8", "4"]);
    let none = vec![false; 3];
    let last = vec![true, false, true];
    assert_eq!(choose_aperture("4.0", &choices, &last, &last, &options), Ok(t("4")));
    assert_eq!(choose_aperture("4.005", &choices, &none, &last, &options), Ok(t("4")));
    assert_eq!(
        choose_aperture("8", &choices, &vec![true, false, false], &none, &options),
        Err(t("Aperture f/8 not available. Options: [2.8, 4]"))
    );
}

#[test]
fn an_equal_aperture_comes_before_a_close_one() {
    let choices = ["2.795", "2.8"].map(t).to_vec();
    let options = aperture_options(&choices);
    let choose = |aperture: f64| {
        let value = |c: &String| c.parse::<f64>().unwrap();
        let exact: Vec<bool> = choices.iter().map(|c| value(c) == aperture).collect();
        let close = choices.iter().map(|c| (value(c) - aperture).abs() < 0.01).collect();
        choose_aperture(&aperture.to_string(), &choices, &exact, &close, &options)
    };
    assert_eq!(choose(2.8), Ok(t("2.8")));
    assert_eq!(choose(2.798), Ok(t("2.795")));
    assert!(choose(2.9).is_err());
}

#[test]
fn exposures_are_waited_for() {
    assert_eq!(wait_for_duration(0, 250, None), ExposureWait::Sleep(100));
    assert_eq!(wait_for_duration(200, 250, Some(true)), ExposureWait::Sleep(50));
    assert_eq!(wait_for_duration(250, 250, Some(false)), ExposureWait::Over);
    assert_eq!(wait_for_duration(0, 250, Some(false)), ExposureWait::Cancelled);
    assert!(waits_for_image(29_999));
    assert!(!waits_for_image(30_000));
}

fn photo(exposure: &str, sets_aperture: bool) -> PhotoJob {
    PhotoJob { exposure: t(exposure), sets_aperture }
}

#[test]
fn the_camera_times_short_exposures() {
    let job = photo("5", true);
    let s = job.begin();
    assert!(matches!(s.request, PhotoRequest::SetIso));
    let s = job.advance(s.stage, PhotoReport::Done);
    assert!(matches!(s.request, PhotoRequest::SetAperture));
    let s = job.advance(s.stage, PhotoReport::Done);
    assert!(matches!(s.request, PhotoRequest::ReadShutter));
    let shutter = PhotoReport::Shutter { present: t("bulb"), choices: ["1", "5"].map(t).to_vec() };
    let s = job.advance(s.stage, shutter);
    assert!(matches!(&s.request, PhotoRequest::SetShutter(c) if c == "5"));
    let s = job.advance(s.stage, PhotoReport::Done);
    assert!(matches!(s.request, PhotoRequest::Expose));
    let s = job.advance(s.stage, PhotoReport::Image(t("IMG.CR3")));
    assert!(matches!(&s.request, PhotoRequest::RestoreShutter(c) if c == "bulb"));
    let s = job.advance(s.stage, PhotoReport::Done);
    assert!(matches!(&s.request, PhotoRequest::LookFor(n) if n == "IMG.CR3"));
    let s = job.advance(s.stage, PhotoReport::Found { exists: true, now: 77 });
    assert!(matches!(
        &s.request,
        PhotoRequest::Download { name, target } if name == "IMG.CR3" && target == "IMG_77.CR3"
    ));
    let s = job.advance(s.stage, PhotoReport::Done);
    assert!(matches!(&s.request, PhotoRequest::Finish(n) if n == "IMG_77.CR3"));
}

#[test]
fn the_shutter_is_held_for_long_exposures() {
    let job = photo("30.5", false);
    let s = job.advance(job.begin().stage, PhotoReport::Done);
    assert!(matches!(s.request, PhotoRequest::HoldBulb));
    let s = job.advance(s.stage, PhotoReport::Failed(t("no bulb")));
    assert!(matches!(s.request, PhotoRequest::HoldRelease));
    let s = job.advance(s.stage, PhotoReport::Done);
    assert!(matches!(s.request, PhotoRequest::AwaitImage));
    let s = job.advance(s.stage, PhotoReport::Image(t("a.cr3")));
    let s = job.advance(s.stage, PhotoReport::Found { exists: false, now: 0 });
    let s = job.advance(s.stage, PhotoReport::Failed(t("usb")));
    assert!(matches!(&s.request, PhotoRequest::Fail(e) if e == "usb"));
    assert!(matches!(
        photo("30", false).advance(PhotoStage::Iso, PhotoReport::Done).request,
        PhotoRequest::ReadShutter
    ));
}

#[test]
fn a_failed_timed_exposure_is_repeated() {
    let job = photo("5", false);
    let held = |stage, report| matches!(job.advance(stage, report).request, PhotoRequest::HoldBulb);
    assert!(held(PhotoStage::Shutter, PhotoReport::Failed(t("x"))));
    assert!(held(
        PhotoStage::Shutter,
        PhotoReport::Shutter { present: t("1"), choices: vec![t("1")] }
    ));
    assert!(held(PhotoStage::Restoring(Err(t("x"))), PhotoReport::Done));
    assert!(held(
        PhotoStage::Downloading { timed: true, target: t("a") },
        PhotoReport::Failed(t("x"))
    ));
    let s = job.advance(PhotoStage::Release, PhotoReport::Failed(t("x")));
    assert!(matches!(
        &s.request,
        PhotoRequest::Fail(e) if e == "Bulb capture failed. Make sure camera is in Bulb (B) mode."
    ));
    let s = job.advance(PhotoStage::Iso, PhotoReport::Failed(t("no iso")));
    assert!(matches!(&s.request, PhotoRequest::Fail(e) if e == "no iso"));
    assert_eq!(target_name("a", true, 5), "a_5.");
    assert_eq!(timeout_text(), "Timeout waiting for image from camera");
}

#[test]
fn pictures_are_captured_and_solved() {
    let e = |o| capture_and_solve(o).err();
    assert_eq!(e(CaptureOutcome::NoDirectory(t("x"))), Some(t("x")));
    assert_eq!(e(CaptureOutcome::NoPhoto(t("x"))), Some(t("x")));
    assert_eq!(e(CaptureOutcome::SolverFailed(t("x"))), Some(t("x")));
    assert_eq!(e(CaptureOutcome::TaskLost(t("x"))), Some(t("plate-solve task panicked: x")));
    assert_eq!(capture_and_solve(CaptureOutcome::Ran { solved: true }), Ok(true));
    let s = CaptureSettings::default();
    assert_eq!((s.iso, s.exposure_seconds.as_str(), s.save_directory.as_str()), (1600, "5", "tmp/astro_captures"));
    assert_eq!(s.aperture, None);
    let s = CaptureSettings::for_solving(800, "2");
    assert_eq!((s.iso, s.aperture, s.save_directory.as_str()), (800, None, "imgs/goto/captures"));
}
