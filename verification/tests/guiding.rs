//! Autoguiding.

use astropi::guiding::fit::{
    bright_pixels, brightest, centroid_sums, fit_matrix, pixels_for_fit, uses_refined,
};
use astropi::guiding::frame::{get_window, window_origin, Origin};
use astropi::guiding::guidance::Guidance;
use astropi::guiding::guider::Guider;
use astropi::guiding::outliers::{filter_outlier_displacements, median_position, Displacement};
use astropi::guiding::picture::{frame_picture, picture_of_jpeg};
use astropi::guiding::region::find_regions;
use astropi::guiding::select::{crowded, select_guide_stars, Candidate};
use astropi::guiding::session::{
    found_again, frame_report_text, FrameNumbers, GuiderAction, GuiderCommand, SampleWindow,
    Session, StarFindingAlgorithm,
};

const W: u32 = 64;
const H: u32 = 48;

fn frame(lit: &[(u32, u32, u8)]) -> Vec<u8> {
    let mut pixels = vec![10u8; (W * H) as usize];
    for (x, y, v) in lit {
        pixels[(y * W + x) as usize] = *v;
    }
    pixels
}

fn star(x: u32, y: u32) -> Vec<(u32, u32, u8)> {
    let mut lit = Vec::new();
    for dy in 0..3 {
        for dx in 0..3 {
            lit.push((x + dx, y + dy, if dx == 1 && dy == 1 { 250 } else { 160 }));
        }
    }
    lit
}

#[test]
fn windows_are_cut_out_of_frames() {
    let pixels = frame(&[(30, 20, 99)]);
    let w = get_window(W, H, &pixels, 5, 30, 20);
    assert_eq!(w.len(), 5);
    assert_eq!(w[2][2], 99);
    assert_eq!(w[2][1], 10);
    assert_eq!(window_origin(30, 5), 28);
    assert_eq!(window_origin(1, 5), 0);
    let w = get_window(W, H, &pixels, 5, 63, 47);
    assert_eq!(w[2][2], 10);
    assert_eq!(w[2][3], 0);
    assert_eq!(w[3][2], 0);
}

#[test]
fn regions_are_found() {
    let mut lit = star(10, 10);
    lit.extend(star(40, 30));
    lit.push((60, 5, 200));
    let found = find_regions(W, H, &frame(&lit), 50);
    assert_eq!(found.len(), 2);
    assert_eq!(found[0].pixels.len(), 9);
    let mass: u64 = 8 * 110 + 200;
    assert_eq!(found[0].mass, mass);
    assert_eq!(found[0].mx, 11 * mass as u128);
    assert_eq!(found[0].my, 11 * mass as u128);
    assert_eq!(found[1].mx, 41 * mass as u128);
    assert_eq!(found[1].my, 31 * mass as u128);
}

#[test]
fn touching_stars_are_one_region() {
    let mut lit = star(10, 10);
    lit.extend(star(13, 13));
    assert_eq!(find_regions(W, H, &frame(&lit), 50).len(), 1);
}

#[test]
fn the_guider_lists_the_stars() {
    let g = Guider::new();
    assert_eq!(g.threshold, 50);
    assert_eq!(g.select_guide_star(W, H, &frame(&star(20, 20))).len(), 1);
    assert!(g.select_guide_star(W, H, &frame(&[])).is_empty());
}

#[test]
fn the_centre_of_gravity() {
    let g = Guider::new();
    let sums = g.find_star_CG(W, H, &frame(&star(30, 20)), 31, 21).unwrap();
    let mass: u64 = 8 * 110 + 200;
    assert_eq!(sums.mass, mass);
    assert_eq!(sums.x, 31 * mass);
    assert_eq!(sums.y, 21 * mass);
    assert!(g.find_star_CG(W, H, &frame(&[]), 31, 21).is_none());
    let start = g.find_star_GF(W, H, &frame(&star(30, 20)), 31, 21);
    assert_eq!(start.peak, 250);
    assert_eq!(start.window[20][20], 250);
    assert_eq!(start.origin, Origin { x: 11, y: 1 });
}

#[test]
fn stars_at_the_edge_are_found_where_they_are() {
    let g = Guider::new();
    let mut pixels = vec![0u8; 200 * 100];
    pixels[50 * 200 + 5] = 250;
    let sums = g.find_star_CG(200, 100, &pixels, 10, 50).unwrap();
    assert_eq!((sums.mass, sums.x, sums.y), (200, 5 * 200, 50 * 200));
    let start = g.find_star_GF(200, 100, &pixels, 10, 50);
    assert_eq!(start.origin, Origin { x: 0, y: 30 });
    assert_eq!(start.window[20][5], 250);
    for dx in 0..10 {
        pixels[50 * 200 + dx] = 250;
    }
    let start = g.find_star_FGF(200, 100, &pixels, 10, 50).unwrap();
    assert_eq!(start.origin, Origin { x: 0, y: 35 });
    assert_eq!(start.window[15][0], 250);
}

#[test]
fn the_fast_fit_takes_the_brightest() {
    let g = Guider::new();
    assert!(g.find_star_FGF(W, H, &frame(&star(30, 20)), 31, 21).is_none());
    let mut lit = star(30, 20);
    lit.push((33, 20, 70));
    lit.push((33, 21, 80));
    let start = g.find_star_FGF(W, H, &frame(&lit), 31, 21).unwrap();
    assert_eq!(start.pixels.len(), 10);
    assert_eq!(start.pixels[0], (15, 15));
    assert!(!start.pixels.contains(&(17, 14)));
    assert!(start.pixels.contains(&(17, 15)));
    assert!(uses_refined(10, Some(true)));
    assert!(!uses_refined(9, Some(true)));
    assert!(!uses_refined(10, Some(false)));
    assert!(!uses_refined(10, None));
}

#[test]
fn the_sums_of_a_window() {
    let window = vec![vec![0, 60, 0], vec![50, 51, 0], vec![0, 0, 80]];
    let s = centroid_sums(&window, 3, 50);
    assert_eq!((s.mass, s.column, s.row), (41, 71, 61));
    assert_eq!(brightest(&window, 3), 80);
    let bright = bright_pixels(&window, 3, 50);
    assert_eq!(bright.len(), 3);
    assert_eq!((bright[1].intensity, bright[1].x, bright[1].y), (51, 1, 1));
    assert!(pixels_for_fit(&window, 3, 50).is_none());
}

#[test]
fn the_matrix_of_the_fit() {
    let mut window = vec![vec![0u8; 31]; 31];
    window[3][2] = 5;
    let m = fit_matrix(&window, &vec![(2, 3)]);
    let f = |x: u64, y: u64| -> Vec<u64> { vec![5 * x * x, 5 * y * y, 5 * x, 5 * y, 5] };
    let v = f(2, 3);
    for i in 0..5 {
        for j in 0..5 {
            assert_eq!(m[i][j], v[i] * v[j]);
            assert_eq!(m[i][j], m[j][i]);
        }
    }
}

#[test]
fn stars_are_selected_by_brightness_and_distance() {
    let c = |mass, inside| Candidate { mass, inside };
    let candidates =
        vec![c(600, true), c(900, true), c(800, true), c(999, false), c(999, true)];
    let mut close = vec![vec![false; 5]; 5];
    close[4][3] = true;
    let mut near = vec![vec![false; 5]; 5];
    near[1][2] = true;
    near[2][1] = true;
    assert_eq!(select_guide_stars(&candidates, &close, &near, 6), vec![1, 0]);
    assert_eq!(select_guide_stars(&candidates, &close, &near, 1), vec![1]);
    assert!(select_guide_stars(&candidates, &close, &near, 0).is_empty());
}

#[test]
fn a_star_at_the_edge_crowds_another() {
    let at: [(f64, f64); 2] = [(30.0, 100.0), (60.0, 100.0)];
    let inside = |p: (f64, f64)| p.0 >= 40.0 && p.0 <= 160.0 && p.1 >= 40.0 && p.1 <= 160.0;
    let candidates: Vec<Candidate> =
        at.iter().map(|p| Candidate { mass: 1000, inside: inside(*p) }).collect();
    let close: Vec<Vec<bool>> = at
        .iter()
        .map(|p| at.iter().map(|o| (p.0 - o.0).hypot(p.1 - o.1) < 50.0).collect())
        .collect();
    let near = vec![vec![true; 2]; 2];
    assert!(crowded(&close, 0) && crowded(&close, 1));
    assert!(select_guide_stars(&candidates, &close, &near, 6).is_empty());
    assert!(!crowded(&vec![vec![true]], 0));
}

#[test]
fn an_idle_guider_tells_nothing() {
    let mut g: Guidance<(u32, u32), u32> = Guidance::new();
    let idle = |g: &Guidance<(u32, u32), u32>| {
        let s = g.frame_stars(&vec![]);
        assert!(!s.is_guiding && s.guide_stars.is_empty() && s.again.is_empty());
        assert!(s.selected.is_none() && s.compared.is_none() && g.errors().is_empty());
    };
    idle(&g);
    g.select(vec![(1, 2)]);
    g.measure(1, true, 5);
    idle(&g);
    assert_eq!(g.command(GuiderCommand::Start), GuiderAction::SelectStars);
    g.select(vec![(1, 2), (3, 4)]);
    g.measure(1, true, 5);
    g.measure(0, true, 6);
    g.measure(1, false, 7);
    assert_eq!(g.errors(), &vec![5]);
    let s = g.frame_stars(&vec![None, Some((3, 5))]);
    assert!(s.is_guiding);
    assert_eq!(s.algorithm, StarFindingAlgorithm::FGF);
    assert_eq!((s.guide_stars, s.selected), (vec![(1, 2), (3, 4)], Some((1, 2))));
    assert_eq!((s.again, s.compared), (vec![(1, (3, 5))], Some((3, 5))));
    let cg = GuiderCommand::SetAlgorithm { algorithm: StarFindingAlgorithm::CG };
    assert_eq!(g.command(cg), GuiderAction::SelectStars);
    g.select(vec![(9, 9)]);
    assert!(g.errors().is_empty());
    assert_eq!(g.stars(), &vec![(9, 9)]);
    assert_eq!(g.session().algorithm, StarFindingAlgorithm::CG);
    g.measure(1, true, 8);
    assert_eq!(g.command(GuiderCommand::Stop), GuiderAction::ForgetStars);
    idle(&g);
    g.command(cg);
    idle(&g);
}

#[test]
fn outliers_are_left_out() {
    assert!(matches!(filter_outlier_displacements(&vec![]), Displacement::Nothing));
    assert!(matches!(filter_outlier_displacements(&vec![false]), Displacement::Only));
    assert!(matches!(
        filter_outlier_displacements(&vec![true, false, true]),
        Displacement::Average(stars) if stars == vec![0, 2]
    ));
    assert!(matches!(filter_outlier_displacements(&vec![false, false]), Displacement::Median));
    assert_eq!(median_position(&vec![5, -3, 9]), 0);
    assert_eq!(median_position(&vec![5, -3]), 0);
    assert_eq!(median_position(&vec![4, 1, 3, 2]), 2);
}

#[test]
fn commands_change_the_session() {
    let mut s = Session::new();
    let cg = GuiderCommand::SetAlgorithm { algorithm: StarFindingAlgorithm::CG };
    assert_eq!(s.command(cg), GuiderAction::Nothing);
    assert_eq!(s.algorithm, StarFindingAlgorithm::CG);
    assert!(!s.is_guiding);
    assert_eq!(s.command(GuiderCommand::Start), GuiderAction::SelectStars);
    assert!(s.follows(3));
    assert!(!s.follows(0));
    assert!(s.counts(1, true));
    assert!(!s.counts(0, true));
    assert!(!s.counts(1, false));
    assert_eq!(s.command(cg), GuiderAction::SelectStars);
    assert_eq!(s.command(GuiderCommand::Stop), GuiderAction::ForgetStars);
    assert!(!s.follows(3));
}

#[test]
fn stars_are_found_again() {
    assert_eq!(found_again(&vec![None, Some('a'), None, Some('b')]), vec![(1, 'a'), (3, 'b')]);
}

#[test]
fn the_window_holds_the_last_errors() {
    let mut w: SampleWindow<u32> = SampleWindow::new();
    for i in 0..130 {
        w.record(i);
    }
    assert_eq!(w.samples().len(), 100);
    assert_eq!(w.samples()[0], 30);
    assert_eq!(w.samples()[99], 129);
    w.clear();
    assert!(w.samples().is_empty());
}

#[test]
fn frames_are_reported() {
    let t = |s: &str| s.to_string();
    let n = FrameNumbers {
        mount_x: t("1.00"),
        mount_y: t("2.00"),
        error_ra: t("+0.100"),
        error_dec: t("-0.200"),
        error: t("0.224"),
        correction_ra: t("+0.1000"),
        correction_dec: t("-0.2000"),
    };
    assert_eq!(
        frame_report_text(false, &n, 5, 0, 0),
        "STATUS: IDLE\n\nMOUNT STATUS\n  Position: (1.00, 2.00)\n  Error:    ΔRA=+0.100  ΔDEC=-0.200  |Δ|=0.224 px\n"
    );
    assert!(frame_report_text(true, &n, 5, 2, 3).ends_with(
        "\nGUIDING\n  Correction: ΔRA=+0.1000  ΔDEC=-0.2000\n  Time taken: 5μs:\n\nSTAR TRACKING (2/3 stars)\n"
    ));
}

#[test]
fn pictures_are_base_64() {
    assert_eq!(picture_of_jpeg(b""), Some("".to_string()));
    assert_eq!(picture_of_jpeg(b"f"), Some("Zg==".to_string()));
    assert_eq!(picture_of_jpeg(b"fo"), Some("Zm8=".to_string()));
    assert_eq!(picture_of_jpeg(b"foobar"), Some("Zm9vYmFy".to_string()));
    assert_eq!(picture_of_jpeg(&[0xfb, 0xff, 0xfe]), Some("+//+".to_string()));
}

#[test]
fn frames_become_jpeg_files() {
    let text = frame_picture(&frame(&star(30, 20)), W, H).unwrap();
    assert!(text.starts_with("/9j/"));
    assert_eq!(text.len() % 4, 0);
    assert!(frame_picture(&[0u8; 0x10000], 0x10000, 1).is_none());
}
