//! The plain client of the mount.

use astropi::eqmod::{EqStep, IndiClient, IndiError, PollOutcome, SlewStatus};

fn client() -> IndiClient {
    IndiClient::new("EQMod Mount")
}

fn is_valid(ra: f64, dec: f64) -> bool {
    client().validate_coordinates(&format!("{}", ra), &format!("{}", dec)).is_ok()
}

const TRACKING: &str = "<defSwitchVector name=\"TELESCOPE_TRACK_STATE\">\n<oneSwitch name=\"TRACK_ON\">\n On \n</oneSwitch></defSwitchVector>";

#[test]
fn test_coordinate_validation() {
    // Valid coordinates
    assert!((0.0..=24.0).contains(&12.5));
    assert!((-90.0..=90.0).contains(&45.0));
    assert!(is_valid(12.5, 45.0));

    // Invalid coordinates
    assert!(!(0.0..=24.0).contains(&25.0));
    assert!(!(0.0..=24.0).contains(&-1.0));
    assert!(!(-90.0..=90.0).contains(&91.0));
    assert!(!(-90.0..=90.0).contains(&-91.0));
    assert!(!is_valid(25.0, 45.0));
    assert!(!is_valid(-1.0, 45.0));
    assert!(!is_valid(12.5, 91.0));
    assert!(!is_valid(12.5, -91.0));
}

#[test]
fn bounds_are_valid_coordinates() {
    assert!(is_valid(0.0, -90.0));
    assert!(is_valid(24.0, 90.0));
    assert!(!is_valid(f64::NAN, 0.0));
    assert!(!is_valid(f64::INFINITY, 0.0));
}

#[test]
fn refused_coordinates_are_named() {
    match client().goto("25", "91", "", "") {
        Err(IndiError::Device(m)) => assert_eq!(m, "Invalid RA: 25. Must be 0.0-24.0 hours"),
        _ => panic!("accepted"),
    }
    match client().goto("12", "91", "", "") {
        Err(e) => assert_eq!(
            e.message(),
            "Device error: Invalid DEC: 91. Must be -90.0 to +90.0 degrees"
        ),
        Ok(_) => panic!("accepted"),
    }
    match client().goto("12", "45", "12.0000000000", "91.0000000000") {
        Err(IndiError::Device(m)) => {
            assert_eq!(m, "Invalid DEC: 91.0000000000. Must be -90.0 to +90.0 degrees")
        }
        _ => panic!("accepted"),
    }
}

#[test]
fn tracking_is_on_around_a_slew() {
    let steps = match client().goto("12.5", "45", "12.5000000000", "45.0000000000") {
        Ok(s) => s,
        Err(e) => panic!("{}", e.message()),
    };
    let on = "<oneSwitch name=\"TRACK_ON\">On</oneSwitch>";
    let sent = |i: usize, part: &str| matches!(&steps[i], EqStep::Send(s) if s.contains(part));
    assert!(sent(5, on));
    assert!(sent(9, "<oneNumber name=\"RA\">12.5000000000</oneNumber>"));
    assert!(matches!(steps[10], EqStep::WatchSlew));
    assert!(sent(11, on));
    assert!(matches!(steps[15], EqStep::ShowStatus));
    assert_eq!(steps.len(), 16);
}

#[test]
fn coordinates_are_read_from_answers() {
    let answer = "EQUATORIAL_EOD_COORD <oneNumber name=\"RA\">1</oneNumber> EQUATORIAL_EOD_COORD \
                  <oneNumber name=\"DEC\">x</oneNumber><oneNumber name=\"RA\">\n 5.5 \n</oneNumber>";
    assert_eq!(client().parse_coordinates(answer), ("5.5".to_string(), "0".to_string()));
    assert_eq!(client().parse_coordinates(""), ("0".to_string(), "0".to_string()));
}

#[test]
fn tracking_is_read_from_answers() {
    assert!(client().parse_tracking_state(TRACKING));
    assert!(!client().parse_tracking_state(&TRACKING.replace(" On ", " Off ")));
    assert!(!client().parse_tracking_state("TRACK_ON>On</oneSwitch>"));
}

#[test]
fn warnings_are_read_from_answers() {
    let answer = "<message message=\"fine\"/>\n<x WARNING message=\"no\"/>\n<message t=\"ERROR\" message=\"bad\"/>\r\n";
    assert_eq!(client().extract_error(answer), Some("bad".to_string()));
    assert_eq!(client().extract_error("<message message=\"fine\"/>"), None);
}

#[test]
fn horizontal_coordinates_are_read_from_answers() {
    let answer = "HORIZONTAL_COORD <oneNumber name=\"AZ\"> 120 </oneNumber><oneNumber name=\"ALT\">45.5</oneNumber>";
    assert_eq!(
        client().parse_horizontal(answer),
        Some(("45.5".to_string(), "120".to_string()))
    );
    assert_eq!(client().parse_horizontal("HORIZONTAL_COORD"), None);
}

#[test]
fn a_slew_is_looked_at() {
    let c = client();
    assert_eq!(c.monitor_slew(9, "", true), PollOutcome::Silent);
    assert_eq!(c.monitor_slew(0, "Telescope slew is complete", false), PollOutcome::Complete);
    assert_eq!(
        c.monitor_slew(5, "state=\"Busy\"", true),
        PollOutcome::Progress { status: SlewStatus::Slewing }
    );
    assert_eq!(
        c.monitor_slew(6, TRACKING, true),
        PollOutcome::AtTarget { status: SlewStatus::Tracking }
    );
    assert_eq!(
        c.monitor_slew(29, "idle", false),
        PollOutcome::Progress { status: SlewStatus::Idle }
    );
}

#[test]
fn the_tracking_state_is_described() {
    let lines = client().debug_tracking_state("nothing here");
    assert_eq!(lines[2], "   Response contains 12 bytes");
    let lines = client().debug_tracking_state(TRACKING);
    assert_eq!(lines[3], "\n   has TRACK_ON: true");
    assert_eq!(lines[4], "   TRACK_ON content: \"\n On \n\" (trimmed: \"On\")");
    assert_eq!(lines[5], "   parsed tracking: true");
    let long = format!("TELESCOPE_TRACK_STATE{}", "x".repeat(600));
    let lines = client().debug_tracking_state(&long);
    assert_eq!(lines[2].len(), 503);
    assert_eq!(lines[4], "   TRACK_ON content: TRACK_ON not found");
}

#[test]
fn connecting_turns_tracking_on() {
    let c = client();
    assert_eq!(c.device_name(), "EQMod Mount");
    let steps = c.connect();
    assert!(matches!(&steps[0], EqStep::Send(s) if s.contains("<oneSwitch name=\"CONNECT\">On")));
    assert!(matches!(&steps[1], EqStep::Send(s) if s.contains("<oneSwitch name=\"TRACK_ON\">On")));
    assert!(matches!(steps[2], EqStep::Wait(3000)));
    assert!(matches!(steps[3], EqStep::Drain));
    assert!(c.disconnect().contains("<oneSwitch name=\"CONNECT\">Off"));
}
