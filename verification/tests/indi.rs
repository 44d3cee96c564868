//! The client of the mount.

use astropi::indi::client::{flip_warning_text, IndiClient, MountStep};
use astropi::indi::command::{number_command, switch_command, time_command, Number, Switch};
use astropi::indi::error::IndiError;
use astropi::indi::frame::{extract_one_xml_message, take_messages};
use astropi::indi::pier::PierSide;
use astropi::indi::slew::{
    progress_text, slew_timeout, warns_of_limit, ConnectNext, Motion, PropertyNext, SlewCheck,
    SlewVerdict, SlewWatch,
};
use astropi::indi::state::IndiState;
use astropi::indi::xml::{can_parse, is_flat, XmlAttribute, XmlChild, XmlMessage};

const DEVICE: &str = "EQMod Mount";

fn attribute(name: &str, value: &str) -> XmlAttribute {
    XmlAttribute { namespace: None, name: name.to_string(), value: value.to_string() }
}

fn coordinates(state: &str, ra: &str, dec: &str) -> String {
    format!(
        "<setNumberVector device=\"{}\" name=\"EQUATORIAL_EOD_COORD\" state=\"{}\">\n\
         <oneNumber name=\"RA\"> {} </oneNumber>\n<oneNumber name=\"DEC\">{}</oneNumber>\n\
         </setNumberVector>",
        DEVICE, state, ra, dec
    )
}

fn switch(property: &str, element: &str, value: &str) -> String {
    format!(
        "<defSwitchVector device='{}' name='{}' state='Ok'><oneSwitch name='{}'>{}</oneSwitch></defSwitchVector>",
        DEVICE, property, element, value
    )
}

fn client(messages: &[String]) -> IndiClient {
    let mut c = IndiClient::new(DEVICE);
    for m in messages {
        c.receive(m);
    }
    c
}

fn sent(steps: &[MountStep]) -> Vec<String> {
    steps
        .iter()
        .map(|s| match s {
            MountStep::Send(text) => text.clone(),
            MountStep::Wait(ms) => format!("wait {}", ms),
            MountStep::WatchSlew => "watch".to_string(),
        })
        .collect()
}

#[test]
fn messages_are_cut_out_of_the_stream() {
    let stream = "noise<a x=\"1\"/> <b n='ä'>\n<c>€</c></b>\n<b";
    let (message, used) = extract_one_xml_message(stream.as_bytes()).unwrap();
    assert_eq!(message, "<a x=\"1\"/>");
    assert_eq!(used, "noise<a x=\"1\"/>".len());
    let mut buffer = stream.as_bytes().to_vec();
    assert_eq!(take_messages(&mut buffer), vec!["<a x=\"1\"/>", "<b n='ä'>\n<c>€</c></b>"]);
    assert_eq!(buffer, "\n<b".as_bytes());
    assert!(take_messages(&mut buffer).is_empty());
}

#[test]
fn pieces_of_the_stream_do_not_matter() {
    let stream = format!("{}{}", coordinates("Busy", "1.5", "2"), switch("A", "B", "On"));
    let mut whole = stream.as_bytes().to_vec();
    let all = take_messages(&mut whole);
    assert_eq!(all.len(), 2);
    let mut buffer: Vec<u8> = Vec::new();
    let mut pieces = Vec::new();
    for b in stream.bytes() {
        buffer.push(b);
        pieces.extend(take_messages(&mut buffer));
    }
    assert_eq!(pieces, all);
    assert!(buffer.is_empty());
}

#[test]
fn invalid_utf8_is_left_alone() {
    let bytes = [b'<', b'a', b'/', b'>', 0xff];
    assert!(extract_one_xml_message(&bytes).is_none());
    let mut buffer = bytes.to_vec();
    assert!(take_messages(&mut buffer).is_empty());
    assert_eq!(buffer, bytes);
}

#[test]
fn a_vector_sets_its_property() {
    let c = client(&[coordinates("Ok", "5.25", "-12.5")]);
    let p = c.state.property(DEVICE, "EQUATORIAL_EOD_COORD").unwrap();
    assert_eq!(p.state, "Ok");
    assert_eq!(p.timestamp, "");
    assert_eq!(p.elements.get("RA"), Some(&"5.25".to_string()));
    assert_eq!(c.get_coordinates(), ("5.25".to_string(), "-12.5".to_string()));
    assert_eq!(c.list_properties(), vec!["EQUATORIAL_EOD_COORD"]);
    assert!(c.has_coordinates());
}

#[test]
fn a_deletion_removes_its_property() {
    let mut c = client(&[coordinates("Ok", "5.25", "-12.5"), switch("A", "B", "On")]);
    c.receive(&format!("<delProperty device=\"{}\" name=\"A\"/>", DEVICE));
    assert_eq!(c.list_properties(), vec!["EQUATORIAL_EOD_COORD"]);
    c.receive(&format!("<delProperty device=\"{}\"/>", DEVICE));
    assert!(c.list_properties().is_empty());
    assert_eq!(c.get_coordinates(), ("0".to_string(), "0".to_string()));
}

#[test]
fn plain_messages_set_properties_too() {
    let mut state = IndiState::new();
    let child = |name: &str, text: Option<&str>, is_element: bool| XmlChild {
        is_element,
        attributes: vec![attribute("name", name)],
        text: text.map(|t| t.to_string()),
    };
    let m = XmlMessage {
        tag: "defNumberVector".to_string(),
        attributes: vec![attribute("device", "D"), attribute("name", "P")],
        children: vec![
            child("a", Some(" 1 "), true),
            child("b", None, true),
            child("c", Some("3"), false),
            child("a", Some("2"), true),
        ],
    };
    assert!(state.apply(&m).is_none());
    let p = state.property("D", "P").unwrap();
    assert_eq!(p.state, "Idle");
    assert_eq!(p.elements.keys(), vec!["a"]);
    assert_eq!(p.elements.get("a"), Some(&"2".to_string()));
    let other = XmlMessage { tag: "pingRequest".to_string(), attributes: vec![], children: vec![] };
    assert!(state.apply(&other).is_none());
    assert!(state.property("D", "P").is_some());
}

#[test]
fn messages_for_the_user() {
    let mut c = client(&[]);
    let note = c.receive("<message device=\"EQMod Mount\" message=\"Target below horizon\"/>");
    assert_eq!(note, Some("INDI Message [EQMod Mount]: Target below horizon".to_string()));
    assert_eq!(c.latest_message, "Target below horizon");
    assert_eq!(c.receive("<message device=\"EQMod Mount\"/>"), None);
    assert_eq!(c.receive("not xml"), None);
    assert_eq!(c.latest_message, "Target below horizon");
}

#[test]
fn the_status_of_the_mount() {
    assert_eq!(client(&[]).get_mount_status(), "UNKNOWN");
    for (state, status) in [
        ("Busy", "SLEWING"),
        ("Ok", "TRACKING"),
        ("Idle", "IDLE"),
        ("Alert", "ERROR"),
        ("Odd", "UNKNOWN"),
    ] {
        assert_eq!(client(&[coordinates(state, "0", "0")]).get_mount_status(), status);
    }
    let parked = client(&[coordinates("Ok", "0", "0"), switch("TELESCOPE_PARK", "PARK", "On")]);
    assert_eq!(parked.get_mount_status(), "PARKED");
}

#[test]
fn the_side_of_the_pier() {
    assert_eq!(client(&[]).get_pier_side(), PierSide::Unknown);
    let west = client(&[
        switch("TELESCOPE_PIER_SIDE", "PIER_WEST", "On"),
        coordinates("Ok", "1", "2"),
    ]);
    assert_eq!(west.get_pier_side(), PierSide::West);
    assert!(west.needs_meridian_flip(true));
    assert!(!west.needs_meridian_flip(false));
    assert_eq!(west.time_to_meridian_flip("-0.25"), Some("-0.25".to_string()));
    let east = client(&[
        switch("TELESCOPE_PIER_SIDE", "PIER_EAST", "On"),
        coordinates("Ok", "1", "2"),
    ]);
    assert_eq!(east.get_pier_side(), PierSide::East);
    assert!(!east.needs_meridian_flip(true));
    assert_eq!(east.time_to_meridian_flip("-0.25"), None);
    let unseen = client(&[switch("TELESCOPE_PIER_SIDE", "PIER_WEST", "On")]);
    assert!(!unseen.needs_meridian_flip(true));
    assert!(!unseen.flip_is_ahead());
    assert_eq!(unseen.time_to_meridian_flip("1"), None);
}

#[test]
fn commands_are_xml() {
    assert_eq!(
        switch_command("D", "P", &[Switch { name: "A", on: true }, Switch { name: "B", on: false }]),
        "<newSwitchVector device=\"D\" name=\"P\">\n  <oneSwitch name=\"A\">On</oneSwitch>\n  <oneSwitch name=\"B\">Off</oneSwitch>\n</newSwitchVector>\n"
    );
    assert_eq!(
        number_command("D", "P", &[Number { name: "RA", value: "1.5" }]),
        "<newNumberVector device=\"D\" name=\"P\">\n  <oneNumber name=\"RA\">1.5</oneNumber>\n</newNumberVector>\n"
    );
    assert_eq!(
        time_command("D", "2024-01-02T03:04:05"),
        "<newTextVector device=\"D\" name=\"TIME_UTC\">\n  <oneText name=\"UTC\">2024-01-02T03:04:05</oneText>\n  <oneText name=\"OFFSET\">0.0</oneText>\n</newTextVector>\n"
    );
}

#[test]
fn a_slew_unparks_first_and_tracks() {
    let steps = sent(&client(&[]).goto("1.5", "-2"));
    assert!(steps[0].contains("<oneSwitch name=\"UNPARK\">On</oneSwitch>"));
    assert_eq!(steps[1], "wait 250");
    assert!(steps[2].contains("<oneSwitch name=\"TRACK_ON\">On</oneSwitch>"));
    assert!(steps[3].contains("<oneSwitch name=\"TRACK\">On</oneSwitch>"));
    assert!(steps[4].contains("<oneNumber name=\"RA\">1.5</oneNumber>"));
    assert!(steps[4].contains("<oneNumber name=\"DEC\">-2</oneNumber>"));
    assert_eq!(steps[5], "watch");
    assert_eq!(steps.len(), 6);
}

#[test]
fn a_sync_restores_tracking() {
    let steps = sent(&client(&[]).sync("1.5", "-2"));
    assert!(steps[0].contains("<oneSwitch name=\"SYNC\">On</oneSwitch>"));
    assert!(steps[1].contains("EQUATORIAL_EOD_COORD"));
    assert_eq!(steps[2], "wait 300");
    assert!(steps[3].contains("<oneSwitch name=\"TRACK\">On</oneSwitch>"));
    assert!(steps[3].contains("<oneSwitch name=\"SYNC\">Off</oneSwitch>"));
    assert_eq!(steps.len(), 4);
}

#[test]
fn a_flip_asks_for_the_other_side() {
    let west = client(&[switch("TELESCOPE_PIER_SIDE", "PIER_WEST", "On")]);
    let steps = sent(&west.execute_meridian_flip("1", "2"));
    assert!(steps[0].contains("<oneSwitch name=\"PIER_EAST\">On</oneSwitch>"));
    assert_eq!(steps[1], "wait 500");
    assert_eq!(steps[2..], sent(&west.goto("1", "2"))[..]);
    let steps = sent(&west.goto_preserve_pier_side("1", "2"));
    assert!(steps[0].contains("<oneSwitch name=\"PIER_WEST\">On</oneSwitch>"));
    let unknown = sent(&client(&[]).execute_meridian_flip("1", "2"));
    assert_eq!(unknown[0], "wait 500");
    assert!(flip_warning_text(PierSide::West, PierSide::West).is_some());
    assert!(flip_warning_text(PierSide::West, PierSide::East).is_none());
    assert!(flip_warning_text(PierSide::Unknown, PierSide::Unknown).is_none());
}

#[test]
fn manual_motion() {
    let c = client(&[]);
    assert!(c.manual_move("east", true).unwrap().contains("<oneSwitch name=\"MOTION_EAST\">On"));
    assert!(c.manual_move("south", false).unwrap().contains("<oneSwitch name=\"MOTION_SOUTH\">Off"));
    assert!(matches!(c.manual_move("up", true), Err(IndiError::Command(m)) if m == "Unknown direction: up"));
    let rate = c.set_slew_rate(200);
    assert!(rate.contains("<oneSwitch name=\"9x\">On</oneSwitch>"));
    assert_eq!(rate.matches("On</oneSwitch>").count(), 1);
    assert!(c.abort_motion().contains("<oneSwitch name=\"ABORT\">On</oneSwitch>"));
    assert!(c.park().contains("<oneSwitch name=\"PARK\">On</oneSwitch>"));
    assert!(c.unpark().contains("<oneSwitch name=\"PARK\">Off</oneSwitch>"));
    assert!(c.connect().contains("<oneSwitch name=\"CONNECT\">On</oneSwitch>"));
    assert!(c.disconnect().contains("<oneSwitch name=\"DISCONNECT\">On</oneSwitch>"));
    assert!(c.set_location("48.5", "-2.25", "35").contains("<oneNumber name=\"LONG\">-2.25"));
}

#[test]
fn a_mount_is_told_where_and_when_it_is() {
    let steps = sent(&client(&[]).init_date_pos("48.5", "-2.25", "35", "2024-01-02T03:04:05"));
    assert_eq!(steps[0], "wait 1000");
    assert!(steps[1].contains("<oneNumber name=\"LAT\">48.5</oneNumber>"));
    assert!(steps[1].contains("<oneNumber name=\"ELEV\">35</oneNumber>"));
    assert!(steps[2].contains("<oneText name=\"UTC\">2024-01-02T03:04:05</oneText>"));
    assert_eq!(steps.len(), 3);
}

#[test]
fn errors_have_messages() {
    let text = || "x".to_string();
    assert_eq!(IndiError::Connection(text()).message(), "Connection error: x");
    assert_eq!(IndiError::Communication(text()).message(), "Communication error: x");
    assert_eq!(IndiError::Device(text()).message(), "Device error: x");
    assert_eq!(IndiError::Command(text()).message(), "Command failed: x");
    assert_eq!(IndiError::Io(text()).message(), "IO error: x");
    assert_eq!(slew_timeout().message(), "Command failed: Slew timed out after 120 s");
}

#[test]
fn a_slew_is_watched() {
    let mut w = SlewWatch::new();
    assert_eq!(w.observe(Motion::Unknown, 0), SlewVerdict::Continue);
    assert_eq!(w.observe(Motion::Slewing, 1), SlewVerdict::Continue);
    assert_eq!(w.observe(Motion::Tracking, 2), SlewVerdict::Reached);

    let mut w = SlewWatch::new();
    for i in 0..4 {
        assert_eq!(w.observe(Motion::Tracking, i), SlewVerdict::Continue);
    }
    assert_eq!(w.observe(Motion::Tracking, 5), SlewVerdict::AlreadyThere);

    let mut w = SlewWatch::new();
    let looks = [true, true, false, true, true, true, true];
    for (i, seen) in looks.into_iter().enumerate() {
        let motion = if seen { Motion::Tracking } else { Motion::Unknown };
        assert_eq!(w.observe(motion, i as u64), SlewVerdict::Continue);
    }
    assert_eq!(w.observe(Motion::Tracking, 8), SlewVerdict::AlreadyThere);

    let mut w = SlewWatch::new();
    assert_eq!(w.observe(Motion::Slewing, 120), SlewVerdict::Continue);
    assert_eq!(w.observe(Motion::Slewing, 121), SlewVerdict::TimedOut);
}

#[test]
fn a_slew_is_stopped_or_refused() {
    let w = SlewWatch::new();
    assert!(matches!(w.check(Some(false), ""), SlewCheck::Aborted { note } if note == "Slew aborted by user."));
    assert!(matches!(
        w.check(Some(true), "Below HORIZON"),
        SlewCheck::Refused { note, error: IndiError::Command(m) }
            if note == "Error: Below HORIZON" && m == "Below HORIZON"
    ));
    assert!(matches!(w.check(None, "Slewing"), SlewCheck::Look { after_ms: 0 }));
    let mut w = SlewWatch::new();
    w.observe(Motion::Slewing, 0);
    assert!(matches!(w.check(None, ""), SlewCheck::Look { after_ms: 1000 }));
    assert!(warns_of_limit("software limit reached"));
    assert!(!warns_of_limit("LIMIT"));
}

#[test]
fn a_refusal_is_forgotten() {
    let w = SlewWatch::new();
    let mut c = client(&[]);
    c.receive("<message device=\"D\" message=\"Below horizon\"/>");
    assert!(matches!(c.check_slew(&w, Some(false)), SlewCheck::Aborted { .. }));
    assert_eq!(c.latest_message, "Below horizon");
    assert!(matches!(
        c.check_slew(&w, Some(true)),
        SlewCheck::Refused { error: IndiError::Command(m), .. } if m == "Below horizon"
    ));
    assert_eq!(c.latest_message, "");
    assert!(matches!(c.check_slew(&w, Some(true)), SlewCheck::Look { after_ms: 0 }));
}

#[test]
fn texts_that_are_no_messages_are_told_apart() {
    let mut s = IndiState::new();
    assert!(s.process_indi_message("not xml").is_err());
    assert_eq!(s.process_indi_message("<message device='D'/>"), Ok(None));
    assert_eq!(
        s.process_indi_message("<message device='D' message='m'/>"),
        Ok(Some(("D".to_string(), "m".to_string())))
    );
    assert!(s.process_indi_message("<a></b>").is_err());
}

#[test]
fn messages_may_not_nest_too_deeply() {
    let nested = |n: usize| format!("{}{}", "<a>".repeat(n), "</a>".repeat(n));
    let mut s = IndiState::new();
    assert!(can_parse(&nested(256)));
    assert_eq!(s.process_indi_message(&nested(256)), Ok(None));
    assert!(!can_parse(&nested(257)));
    assert!(!can_parse(&"<a>".repeat(1_000_000)));
    let wide = format!("<r>{}{}</r>", "<a b='/>\">'/>".repeat(500), "<a></a>".repeat(500));
    assert!(can_parse(&wide));
    assert_eq!(s.process_indi_message(&wide), Ok(None));
    let hidden = format!("{}<!-- {} -->", "<a>".repeat(200), "</a>".repeat(200));
    assert!(is_flat(&hidden));
    assert!(!is_flat(&format!("{}{}", hidden, "<a>".repeat(200))));
    assert!(!is_flat(&format!("{}<![CDATA[</a>]]><?p </a>?><a>", "<a>".repeat(256))));
    assert!(is_flat("<?xml version='1.0'?><!-- <a> --><a><![CDATA[<a>]]></a>"));
    assert!(is_flat(""));
    assert!(is_flat("<"));
}

#[test]
fn the_progress_of_a_slew_is_told() {
    assert_eq!(
        progress_text(7, Motion::Slewing, "1.500000", "2.000000", "0.1000", "0.2000"),
        "[ 7s]  SLEWING Pointing to : - RA: 1.500000h, DEC: 2.000000° (ΔRA:0.1000h, ΔDEC:0.2000°)"
    );
    assert_eq!(&progress_text(12, Motion::Unknown, "", "", "", "")[..14], "[12s] UNKNOWN ");
}

#[test]
fn connecting_takes_ten_looks() {
    let c = client(&[]);
    assert!(matches!(c.connect_next(1), ConnectNext::Wait));
    assert!(matches!(c.connect_next(10), ConnectNext::Failed { error: IndiError::Connection(_) }));
    let c = client(&[switch("CONNECTION", "CONNECT", "On")]);
    assert!(matches!(c.connect_next(10), ConnectNext::Enable));
    assert!(matches!(c.wait_for_property("CONNECTION", true), PropertyNext::Defined));
    assert!(matches!(c.wait_for_property("OTHER", false), PropertyNext::Wait));
    assert!(matches!(
        c.wait_for_property("OTHER", true),
        PropertyNext::Failed { error: IndiError::Device(m) }
            if m == "Timeout waiting for property 'OTHER' to be defined on 'EQMod Mount'"
    ));
    let steps = sent(&c.enable_steps());
    assert!(steps[0].contains("<oneSwitch name=\"UNPARK\">On</oneSwitch>"));
    assert_eq!(steps[1], "wait 500");
    assert!(steps[2].contains("<oneSwitch name=\"TRACK_ON\">On</oneSwitch>"));
}
