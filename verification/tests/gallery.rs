//! The gallery.

use astropi::json::{JsonField, JsonValue};
use astropi::routes::gallery::{
    build_folder, capture_path, convert_next, converted, delete_reply, download_headers,
    download_path, fits_name, fits_path, hints_of_fields, is_image, missing_reply, parse_tiffhdr_meta,
    preview_name, preview_path, raw_ext, safe_path, solve_hints, solve_note, solve_response,
    solve_response_of_fields, solved_message, solving_text, stretch, thumbnail_cache, ConvertNext,
    Node, NodeKind, PictureTask, PreviewQuery, SolveOutput,
};
use astropi::routes::reply::Status;
use astropi::state::CameraConfig;

fn t(s: &str) -> String {
    s.to_string()
}

fn file(name: &str) -> Node {
    Node { name: t(name), kind: NodeKind::File { size_bytes: 7, modified_ms: 9 } }
}

fn folder(name: &str, nodes: Vec<Node>) -> Node {
    Node { name: t(name), kind: NodeKind::Folder(nodes) }
}

#[test]
fn extensions_tell_pictures() {
    for e in ["cr3", "cr2", "nef", "arw", "dng", "raf", "orf"] {
        assert!(raw_ext(e) && is_image(e));
    }
    for e in ["fits", "fit", "jpg", "jpeg", "png", "tiff", "tif"] {
        assert!(!raw_ext(e) && is_image(e));
    }
    for e in ["", "txt", "CR3", "JPG"] {
        assert!(!is_image(e));
    }
}

#[test]
fn folders_are_listed() {
    let nodes = vec![
        file("b.JPG"),
        file("notes.txt"),
        folder("zz", vec![file("inner.fits"), file("raw.cr3")]),
        file(".hidden.jpg"),
        Node { name: t("odd.jpg"), kind: NodeKind::Other },
        folder(".cache", vec![file("x.jpg")]),
        file("a.tif"),
        folder("M31", vec![folder("lights", vec![file("f\\1.fit")])]),
    ];
    let out = build_folder("astro_captures", "", &nodes);
    assert_eq!((out.name.as_str(), out.rel_path.as_str()), ("astro_captures", ""));
    let files: Vec<(&str, &str, &str)> = out
        .files
        .iter()
        .map(|f| (f.name.as_str(), f.rel_path.as_str(), f.kind.as_str()))
        .collect();
    assert_eq!(files, vec![("a.tif", "a.tif", "tiff"), ("b.JPG", "b.JPG", "jpeg")]);
    assert_eq!((out.files[0].size_bytes, out.files[0].modified_ms), (7, 9));
    assert!(!out.files[0].fits_exists);
    let folders: Vec<&str> = out.folders.iter().map(|f| f.name.as_str()).collect();
    assert_eq!(folders, vec!["M31", "zz"]);
    let lights = &out.folders[0].folders[0];
    assert_eq!(lights.rel_path, "M31/lights");
    assert_eq!(lights.files[0].rel_path, "M31/lights/f/1.fit");
    assert_eq!(lights.files[0].kind, "fits");
    assert_eq!(out.folders[1].files.len(), 1);
    assert!(build_folder("astro_captures", "", &vec![]).files.is_empty());
}

#[test]
fn paths_stay_inside() {
    assert_eq!(safe_path("/lights/M31_0001.tif"), "lights/M31_0001.tif");
    assert_eq!(safe_path("../../etc/passwd"), "etc/passwd");
    assert_eq!(safe_path("..//etc/passwd"), "etc/passwd");
    assert_eq!(safe_path("a/.../b"), "a/./b");
    assert_eq!(safe_path("....//"), "");
    for p in ["/..", "....", "/../../x", "a..b", ".././..", "./..//../"] {
        let s = safe_path(p);
        assert!(!s.contains("..") && !s.starts_with('/'), "{} {}", p, s);
    }
    assert_eq!(capture_path("a/b"), "imgs/astro_captures/a/b");
    assert_eq!(fits_path("b.fits"), "imgs/fits/b.fits");
    assert_eq!(thumbnail_cache("a/b\\c.tif"), "imgs/.thumbnails/a_b_c.tif.jpg");
}

#[test]
fn downloads_have_a_place_and_a_type() {
    assert_eq!(download_path("x.fits"), "imgs/fits/x.fits");
    assert_eq!(download_path("x.fit"), "imgs/fits/x.fit");
    assert_eq!(download_path("x.FITS"), "imgs/astro_captures/x.FITS");
    assert_eq!(
        download_headers("x.fit"),
        (t("application/fits"), t("attachment; filename=\"x.fit\""))
    );
    assert_eq!(download_headers("x.jpg").0, "application/octet-stream");
    assert_eq!(preview_path("x", true, true), Some(t("imgs/astro_captures/x")));
    assert_eq!(preview_path("x", false, true), Some(t("imgs/fits/x")));
    assert_eq!(preview_path("x", false, false), None);
    assert_eq!(preview_name("M31_1.tif"), "astropi_preview_M31_1.jpg");
    let q = PreviewQuery { path: t("x"), lo: None, hi: Some(t("95")) };
    assert_eq!(stretch(&q), (t("0.1"), t("95")));
}

#[test]
fn conversions_are_answered() {
    assert_eq!(fits_name("M1_0001.cr3"), "M1_0001.fits");
    assert!(matches!(
        convert_next("a.cr3", false, None, true),
        ConvertNext::Refuse { status: Status::NotFound, body } if body == "Source file not found"
    ));
    assert!(matches!(
        convert_next("a.cr3", true, Some("x"), true),
        ConvertNext::Refuse { status: Status::ServerError, body } if body == "Cannot create fits dir: x"
    ));
    assert!(matches!(
        convert_next("a.cr3", true, None, true),
        ConvertNext::Answer { response }
            if response.fits_path == "a.fits" && response.message == "Already converted"
    ));
    assert!(matches!(convert_next("a.cr3", true, None, false), ConvertNext::Convert));
    let r = converted("a.cr3", None).map(|r| r.message);
    assert_eq!(r, Ok(t("Converted successfully")));
    let r = converted("a.cr3", Some("x")).map(|r| r.message);
    assert_eq!(r, Err(t("Conversion failed: x")));
}

#[test]
fn deletions_are_answered() {
    assert_eq!(delete_reply(false, None), (Status::NotFound, t("File not found")));
    assert_eq!(delete_reply(true, Some("x")), (Status::ServerError, t("x")));
    assert_eq!(delete_reply(true, None), (Status::Success, t("Deleted")));
}

#[test]
fn the_script_gets_arguments() {
    let task = PictureTask::Preview { source: t("a"), target: t("b"), lo: t("1"), hi: t("2") };
    assert_eq!(task.arguments(), vec!["preview", "a", "b", "1", "2"]);
    assert_eq!(task.failure("x"), "Preview error: x");
    let task = PictureTask::Thumbnail { source: t("a"), target: t("b") };
    assert_eq!(task.arguments(), vec!["thumbnail", "a", "b"]);
    assert_eq!(task.failure("x"), "Thumbnail error: x");
    let task = PictureTask::Convert { source: t("a"), target: t("b") };
    assert_eq!(task.arguments()[0], "fits");
    assert_eq!(PictureTask::FitsHeader { source: t("a") }.arguments(), vec!["fitshdr", "a"]);
    assert_eq!(PictureTask::TiffHeader { source: t("a") }.arguments(), vec!["tiffhdr", "a"]);
    assert_eq!(PictureTask::FitsHeader { source: t("a") }.failure("x"), "x");
    let task = PictureTask::Solve {
        source: t("a"),
        ra: t("1"),
        dec: t("2"),
        scale_lo: t("3"),
        scale_hi: t("4"),
    };
    assert_eq!(task.arguments(), vec!["solve", "a", "1", "2", "3", "4"]);
}

#[test]
fn headers_give_hints() {
    let h = parse_tiffhdr_meta("{\"RA\":\" 10.5 \",\"DEC\":\"x\",\"XPIXSZ\":3.2,\"FOCAL\":\"714\"}");
    assert_eq!((h.ra, h.dec, h.pixel_size, h.focal), (Some(t("10.5")), None, None, Some(t("714"))));
    assert!(parse_tiffhdr_meta("nonsense").ra.is_none());
    assert!(parse_tiffhdr_meta("[1]").ra.is_none());
    let fields = vec![JsonField { key: t("DEC"), value: JsonValue::Text(t("-5")) }];
    assert_eq!(hints_of_fields(&fields).dec, Some(t("-5")));
}

#[test]
fn the_picture_itself_is_believed_first() {
    let camera = CameraConfig {
        pixel_size_micron: t("6"),
        focal_length_mm: t("714"),
        bitdepth: 14,
    };
    let all = parse_tiffhdr_meta(
        "{\"RA\":\"1\",\"DEC\":\"2\",\"XPIXSZ\":\"3\",\"FOCAL\":\"4\"}",
    );
    let h = solve_hints(&all, Some(("10", "20")), &camera);
    assert_eq!((h.ra, h.dec, h.pixel_size, h.focal), (t("1"), t("2"), t("3"), t("4")));
    let some = parse_tiffhdr_meta("{\"DEC\":\"2\",\"FOCAL\":\"4\"}");
    let h = solve_hints(&some, Some(("10", "20")), &camera);
    assert_eq!((h.ra, h.dec, h.pixel_size, h.focal), (t("10"), t("2"), t("6"), t("4")));
    let h = solve_hints(&parse_tiffhdr_meta(""), None, &camera);
    assert_eq!((h.ra, h.dec, h.pixel_size, h.focal), (t("0"), t("0"), t("6"), t("714")));
}

#[test]
fn missing_files_are_answered() {
    assert_eq!(missing_reply(false), (Status::NotFound, t("File not found")));
    assert_eq!(missing_reply(true), (Status::NotFound, t("FITS file not found")));
}

#[test]
fn solutions_are_answered() {
    let out = SolveOutput::Printed(t("{\"success\":true,\"ra_deg\":10.5,\"dec_deg\":-2,\"scale_arcsec_per_pixel\":1.25}"));
    let r = solve_response(&out);
    assert!(r.success);
    assert_eq!((r.ra_deg.as_deref(), r.dec_deg.as_deref()), (Some("10.5"), Some("-2")));
    assert_eq!(r.scale_arcsec_per_pixel.as_deref(), Some("1.25"));
    assert_eq!(
        solved_message("10.5000", "-2.0000", "1.250"),
        "Solved: RA 10.5000°  Dec -2.0000°  1.250\"/px"
    );
    assert_eq!(
        solving_text("p", "1.00", "2.00", "3.00"),
        "Plate solving p (hint RA=1.00° Dec=2.00°, ~3.00\"/px)..."
    );
    let mut r = r;
    r.message = t("Solved");
    assert_eq!(solve_note(&out, &r), Some(t("Solved")));
}

#[test]
fn failures_to_solve_are_answered() {
    let answer = |o: SolveOutput| {
        let r = solve_response(&o);
        assert!(!r.success);
        let note = solve_note(&o, &r);
        (r.message, note)
    };
    assert_eq!(answer(SolveOutput::NoFile), (t("File not found"), None));
    assert_eq!(
        answer(SolveOutput::Printed(t("{\"success\":false}"))),
        (t("No solution found"), None)
    );
    assert_eq!(
        answer(SolveOutput::Printed(t("{\"error\":\"clouds\"}"))),
        (t("clouds"), None)
    );
    let (m, note) = answer(SolveOutput::Printed(t(" \n")));
    assert_eq!(m, "Solver produced no output (check Python / astrometry install)");
    assert_eq!(note, Some(format!("Plate solve failed: {}", m)));
    assert_eq!(
        answer(SolveOutput::Failed(t("x"))),
        (t("x"), Some(t("Plate solve failed: x")))
    );
    assert_eq!(answer(SolveOutput::NotRun(t("x"))).0, "Spawning task failed: x");
    let long = "ä".repeat(300);
    let (m, _) = answer(SolveOutput::Printed(long.clone()));
    assert!(m.starts_with("Bad solver output: expected value"));
    assert!(m.ends_with(&format!(" — raw: {}", "ä".repeat(200))));
    assert!(!solve_response_of_fields(&vec![]).success);
}
