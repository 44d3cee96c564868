//! The protocol of a SkyWatcher mount.

use astropi::skywatcher::{
    at_position, check_tracking, clock_divisor, frame_command, get_position, go_reply, init_axis,
    init_reply, is_moving, is_whole_line, moving_reply, position_reply, sidereal_setup, sidereal_start,
    slew_relative, slew_target, step_distance, stop, take_byte, tracking_reply, while_stopping,
    SlewNext,
};

#[test]
fn commands_are_framed() {
    assert_eq!(frame_command("K1"), ":K1\r");
    assert_eq!((stop(1), init_axis(1), get_position(2), is_moving(2)), {
        ("K1".to_string(), "F1".to_string(), "j2".to_string(), "f2".to_string())
    });
}

#[test]
fn replies_are_collected() {
    let mut reply = String::new();
    for b in [b'=', b'1', 0xe9] {
        assert!(!take_byte(&mut reply, b));
    }
    assert!(take_byte(&mut reply, b'\r'));
    assert_eq!(reply, "=1é");
}

#[test]
fn positions_come_low_byte_first() {
    assert_eq!(position_reply("=000080"), Ok(0x800000));
    assert_eq!(position_reply("=563412"), Ok(0x123456));
    assert_eq!(position_reply("=xyz"), Err("Invalid hex: =xyz".to_string()));
    assert_eq!(position_reply("="), Err("Invalid hex: =".to_string()));
    assert_eq!(position_reply("!2"), Err("Bad position response: !2".to_string()));
}

#[test]
fn the_status_bit_tells_of_motion() {
    assert_eq!(moving_reply("=111"), Ok(true));
    assert_eq!(moving_reply("=101"), Ok(false));
    assert_eq!(moving_reply("=zz"), Ok(false));
    assert_eq!(moving_reply("=1"), Err("Bad status response: =1".to_string()));
    assert_eq!(moving_reply("!11"), Err("Bad status response: !11".to_string()));
}

#[test]
fn a_status_that_is_cut_in_half_is_recognized() {
    assert!(is_whole_line("=111") && is_whole_line("") && is_whole_line("=\u{e9}\u{e9}"));
    assert!(!is_whole_line("=1\u{e9}"));
    assert!(!is_whole_line("=\u{100}"));
}

#[test]
fn faults_are_told() {
    assert_eq!(init_reply("="), Ok(()));
    assert_eq!(init_reply("!0"), Err("Init failed: !0".to_string()));
    assert_eq!(go_reply("!1"), Err("Go failed: !1".to_string()));
    assert_eq!(tracking_reply("!2"), Err("Start tracking failed: !2".to_string()));
}

#[test]
fn slews_wrap_around_the_circle() {
    assert_eq!(slew_target(10, -20), 16_777_206);
    assert_eq!(slew_target(16_777_215, 1), 0);
    assert_eq!(slew_target(5, -(1i64 << 40)), 5);
    let start: u32 = 0x123456;
    for delta in [-5_000_000_000i64, -466_034, -1, 0, 1, 466_034, 5_000_000_000] {
        let wrapped = start.wrapping_add(delta as u32) % 16_777_216;
        assert_eq!(slew_target(start, delta), wrapped);
        assert_eq!(slew_target(wrapped, -delta), start);
    }
    let (target, commands) = slew_relative(1, 0, 466_034);
    assert_eq!(target, 466_034);
    assert_eq!(commands, vec!["G1", "I1000100", "S1071C72", "J1"]);
    assert_eq!(slew_relative(2, 0, -1).1[0], "H2");
}

#[test]
fn a_slew_ends_near_its_target() {
    assert_eq!(step_distance(16_777_200, 16), 32);
    assert_eq!(step_distance(16, 16_777_200), 32);
    assert_eq!(at_position(100, 20_100), SlewNext::AskPosition { after_ms: 150 });
    assert_eq!(at_position(100, 20_099), SlewNext::Stop);
    assert_eq!(while_stopping(0, true), SlewNext::AskStatus { after_ms: 100 });
    assert_eq!(while_stopping(3, true), SlewNext::AskStatus { after_ms: 100 });
    assert_eq!(while_stopping(4, true), SlewNext::Done);
    assert_eq!(while_stopping(0, false), SlewNext::Done);
}

#[test]
fn the_sidereal_rate() {
    let steps_per_sec = 16_777_216f64 / 86164.0905;
    assert_eq!(clock_divisor(), (6_000_000.0 / steps_per_sec).round() as u32);
    assert_eq!(sidereal_setup(1), vec!["U1000000", "H1", "I100785F"]);
    let (target, commands) = sidereal_start(1, 100);
    assert_eq!(target, 16_777_216 - 199_900);
    assert_eq!(commands[1], "J1");
    assert_eq!(check_tracking(0, 194), (194, "YES (Sidereal)".to_string()));
    assert_eq!(check_tracking(16_777_200, 5), (21, "DRIFTING (Too Slow)".to_string()));
    assert_eq!(check_tracking(7, 7), (0, "STOPPED".to_string()));
}
