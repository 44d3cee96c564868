//! A plain client for an EQMod mount: it sends commands and reads what it
//! needs out of the raw answers.

use crate::indi::command::{
    get_properties, get_properties_command, number_command, number_vector, number_views,
    switch_command, switch_vector, switch_views, three_switches, two_switches, Number, Switch,
};
use crate::indi::steps::{no_steps, pushed, step_views, track_command, tracking_on};
use crate::number::{decimal, decimal_text};
use crate::reals::{from_to, from_zero_to, is_from_to, is_from_zero_to, is_real, writes_real};
use crate::text::{
    chars_of, concat2, concat3, contains, copy_of, find, has, lemma_find, lemma_split_nonempty,
    occurs_at, position_of, replace, replaced_text, same_chars, split, split_by, string_of,
    text_has, texts, trim, trimmed, views,
};
use vstd::prelude::*;
use vstd::slice::slice_subrange;
use vstd::string::StringSliceAdditionalSpecFns;
use vstd::utf8::{encode_utf8, is_char_boundary};

verus! {

/// Why a request to the mount failed.
#[derive(Debug)]
pub enum IndiError {
    Connection(String),
    Communication(String),
    Device(String),
    Io(String),
}

impl IndiError {
    /// The message of the error.
    pub open spec fn message_text(self) -> Seq<char> {
        match self {
            IndiError::Connection(s) => "Connection error: "@ + s@,
            IndiError::Communication(s) => "Communication error: "@ + s@,
            IndiError::Device(s) => "Device error: "@ + s@,
            IndiError::Io(s) => "IO error: "@ + s@,
        }
    }

    /// The message of the error.
    pub fn message(&self) -> (r: String)
        ensures
            r@ == self.message_text(),
    {
        match self {
            IndiError::Connection(s) => concat2("Connection error: ", s.as_str()),
            IndiError::Communication(s) => concat2("Communication error: ", s.as_str()),
            IndiError::Device(s) => concat2("Device error: ", s.as_str()),
            IndiError::Io(s) => concat2("IO error: ", s.as_str()),
        }
    }
}

// ---------------------------------------------------------------------------
// What an answer says
// ---------------------------------------------------------------------------

/// What stands in `s` between the first `open` and the next `close`.
pub open spec fn between(s: Seq<char>, open: Seq<char>, close: Seq<char>) -> Option<Seq<char>> {
    match find(s, open) {
        Some(k) => {
            let after = s.skip(k + open.len());
            match find(after, close) {
                Some(e) => Some(after.take(e)),
                None => None,
            }
        },
        None => None,
    }
}

/// The number of this name in a section of an answer.
pub open spec fn number_in(section: Seq<char>, open: Seq<char>) -> Option<Seq<char>> {
    match between(section, open, "</oneNumber>"@) {
        Some(t) => if is_real(trim(t)) {
            Some(trim(t))
        } else {
            None
        },
        None => None,
    }
}

/// The number of this name in a section of an answer, or zero.
pub open spec fn number_or_zero(section: Seq<char>, open: Seq<char>) -> Seq<char> {
    match number_in(section, open) {
        Some(t) => t,
        None => "0"@,
    }
}

/// The part of an answer behind the last mention of the coordinates.
pub open spec fn coordinate_section(response: Seq<char>) -> Seq<char> {
    split(response, "EQUATORIAL_EOD_COORD"@).last()
}

/// The part of `s` behind the first occurrence of `mark`, up to the second.
pub open spec fn section_behind(s: Seq<char>, mark: Seq<char>) -> Option<Seq<char>> {
    let parts = split(s, mark);
    if parts.len() >= 2 {
        Some(parts[1])
    } else {
        None
    }
}

/// The content of the tracking switch in the section of the tracking state.
pub open spec fn track_on_content(section: Seq<char>) -> Option<Seq<char>> {
    match section_behind(section, "TRACK_ON"@) {
        Some(s) => between(s, ">"@, "</oneSwitch>"@),
        None => None,
    }
}

/// The mount tracks.
pub open spec fn tracks(response: Seq<char>) -> bool {
    match section_behind(response, "TELESCOPE_TRACK_STATE"@) {
        Some(section) => match track_on_content(section) {
            Some(content) => trim(content) == "On"@,
            None => false,
        },
        None => false,
    }
}

/// The error or warning that a line of an answer tells.
pub open spec fn line_warning(line: Seq<char>) -> Option<Seq<char>> {
    if contains(line, "<message"@) && (contains(line, "WARNING"@) || contains(line, "ERROR"@)) {
        between(line, "message=\""@, "\""@)
    } else {
        None
    }
}

/// The first error or warning that the lines tell.
pub open spec fn first_warning(lines: Seq<Seq<char>>) -> Option<Seq<char>>
    decreases lines.len(),
{
    if lines.len() == 0 {
        None
    } else if line_warning(lines[0]) is Some {
        line_warning(lines[0])
    } else {
        first_warning(lines.skip(1))
    }
}

/// The altitude and the azimuth, where both are told.
pub open spec fn horizontal(response: Seq<char>) -> Option<(Seq<char>, Seq<char>)> {
    match section_behind(response, "HORIZONTAL_COORD"@) {
        Some(s) => match (
            number_in(s, "<oneNumber name=\"ALT\">"@),
            number_in(s, "<oneNumber name=\"AZ\">"@),
        ) {
            (Some(alt), Some(az)) => Some((alt, az)),
            _ => None,
        },
        None => None,
    }
}

fn text_between(s: &[char], open: &str, close: &str) -> (r: Option<Vec<char>>)
    ensures
        match r {
            Some(t) => between(s@, open@, close@) == Some(t@),
            None => between(s@, open@, close@) is None,
        },
{
    let n = s.len();
    let open = chars_of(open);
    let close = chars_of(close);
    match position_of(s, open.as_slice()) {
        Some(k) => {
            let after = slice_subrange(s, k + open.len(), n);
            assert(after@ =~= s@.skip(k + open@.len()));
            match position_of(after, close.as_slice()) {
                Some(e) => {
                    let t = slice_subrange(after, 0, e);
                    assert(t@ =~= after@.take(e as int));
                    Some(copy_of(t))
                },
                None => None,
            }
        },
        None => None,
    }
}

fn read_number(section: &[char], open: &str) -> (r: Option<String>)
    ensures
        match r {
            Some(t) => number_in(section@, open@) == Some(t@),
            None => number_in(section@, open@) is None,
        },
{
    match text_between(section, open, "</oneNumber>") {
        Some(t) => {
            let number = trimmed(t.as_slice());
            if writes_real(number) {
                Some(string_of(number))
            } else {
                None
            }
        },
        None => None,
    }
}

fn read_number_or_zero(section: &[char], open: &str) -> (r: String)
    ensures
        r@ == number_or_zero(section@, open@),
{
    match read_number(section, open) {
        Some(t) => t,
        None => "0".to_owned(),
    }
}

fn find_section(s: &[char], mark: &str) -> (r: Option<Vec<char>>)
    requires
        mark@.len() > 0,
    ensures
        match r {
            Some(t) => section_behind(s@, mark@) == Some(t@),
            None => section_behind(s@, mark@) is None,
        },
{
    let mark = chars_of(mark);
    let mut parts = split_by(s, mark.as_slice());
    assert(views(parts@).len() == parts@.len());
    if parts.len() < 2 {
        return None;
    }
    assert(views(parts@)[1] == parts@[1]@);
    let second = parts.swap_remove(1);
    Some(second)
}

fn read_track_on(section: &[char]) -> (r: Option<Vec<char>>)
    ensures
        match r {
            Some(t) => track_on_content(section@) == Some(t@),
            None => track_on_content(section@) is None,
        },
{
    proof {
        reveal_strlit("TRACK_ON");
    }
    match find_section(section, "TRACK_ON") {
        Some(s) => text_between(s.as_slice(), ">", "</oneSwitch>"),
        None => None,
    }
}

fn read_line_warning(line: &[char]) -> (r: Option<String>)
    ensures
        match r {
            Some(t) => line_warning(line@) == Some(t@),
            None => line_warning(line@) is None,
        },
{
    let message = chars_of("<message");
    let warning = chars_of("WARNING");
    let error = chars_of("ERROR");
    if has(line, message.as_slice()) && (has(line, warning.as_slice()) || has(
        line,
        error.as_slice(),
    )) {
        match text_between(line, "message=\"", "\"") {
            Some(t) => Some(string_of(t.as_slice())),
            None => None,
        }
    } else {
        None
    }
}

// ---------------------------------------------------------------------------
// The client
// ---------------------------------------------------------------------------

/// A client for one mount.
#[derive(Debug)]
pub struct IndiClient {
    device_name: String,
}

/// One step of a command to the mount.
#[derive(Debug)]
pub enum EqStep {
    /// Send this text; where that fails, leave out the rest.
    Send(String),
    /// Wait this many milliseconds.
    Wait(u64),
    /// Read an answer and throw it away.
    Drain,
    /// Read an answer and show the position in it.
    ShowPosition,
    /// Watch the slew.
    WatchSlew,
    /// Read an answer and show the status in it.
    ShowStatus,
}

/// One step of a command, with its text.
pub enum EqStepView {
    Send(Seq<char>),
    Wait(u64),
    Drain,
    ShowPosition,
    WatchSlew,
    ShowStatus,
}

impl View for EqStep {
    type V = EqStepView;

    open spec fn view(&self) -> EqStepView {
        match *self {
            EqStep::Send(s) => EqStepView::Send(s@),
            EqStep::Wait(ms) => EqStepView::Wait(ms),
            EqStep::Drain => EqStepView::Drain,
            EqStep::ShowPosition => EqStepView::ShowPosition,
            EqStep::WatchSlew => EqStepView::WatchSlew,
            EqStep::ShowStatus => EqStepView::ShowStatus,
        }
    }
}

/// The command that makes new coordinates a target.
pub open spec fn track_mode(device: Seq<char>) -> Seq<char> {
    switch_vector(
        device,
        "ON_COORD_SET"@,
        seq![("TRACK"@, true), ("SLEW"@, false), ("SYNC"@, false)],
    )
}

/// The command that selects the sidereal rate.
pub open spec fn sidereal_rate(device: Seq<char>) -> Seq<char> {
    switch_vector(
        device,
        "TELESCOPE_TRACK_MODE"@,
        seq![
            ("TRACK_SIDEREAL"@, true),
            ("TRACK_SOLAR"@, false),
            ("TRACK_LUNAR"@, false),
            ("TRACK_CUSTOM"@, false),
        ],
    )
}

/// The steps of a slew.
pub open spec fn goto_steps(device: Seq<char>, ra: Seq<char>, dec: Seq<char>) -> Seq<EqStepView> {
    seq![
        EqStepView::Send(get_properties()),
        EqStepView::Wait(500),
        EqStepView::ShowPosition,
        EqStepView::Send(track_mode(device)),
        EqStepView::Wait(200),
        EqStepView::Send(tracking_on(device)),
        EqStepView::Wait(200),
        EqStepView::Send(sidereal_rate(device)),
        EqStepView::Wait(200),
        EqStepView::Send(
            number_vector(device, "EQUATORIAL_EOD_COORD"@, seq![("RA"@, ra), ("DEC"@, dec)]),
        ),
        EqStepView::WatchSlew,
        EqStepView::Send(tracking_on(device)),
        EqStepView::Wait(500),
        EqStepView::Send(get_properties()),
        EqStepView::Wait(500),
        EqStepView::ShowStatus,
    ]
}

/// Why coordinates are refused.
pub open spec fn coordinate_fault(ra: Seq<char>, dec: Seq<char>) -> Option<Seq<char>> {
    if !from_zero_to(ra, 24) {
        Some("Invalid RA: "@ + ra + ". Must be 0.0-24.0 hours"@)
    } else if !from_to(dec, 90, 90) {
        Some("Invalid DEC: "@ + dec + ". Must be -90.0 to +90.0 degrees"@)
    } else {
        None
    }
}

/// What a look at the mount shows.
#[derive(Debug, Clone, Copy, PartialEq, Eq, Structural)]
pub enum SlewStatus {
    Slewing,
    Tracking,
    Idle,
}

/// What a look at the mount means for the slew.
#[derive(Debug, Clone, Copy, PartialEq, Eq, Structural)]
pub enum PollOutcome {
    /// No answer came.
    Silent,
    /// The mount says that the slew is complete.
    Complete,
    /// The mount is at the target.
    AtTarget { status: SlewStatus },
    /// The slew goes on.
    Progress { status: SlewStatus },
}

/// The number of looks at a slew.
pub const SLEW_POLLS: u32 = 30;

/// The status that an answer shows.
pub open spec fn slew_status(response: Seq<char>) -> SlewStatus {
    if contains(response, "state=\"Busy\""@) {
        SlewStatus::Slewing
    } else if tracks(response) {
        SlewStatus::Tracking
    } else {
        SlewStatus::Idle
    }
}

/// What look `i` (from 0) means, given whether the position is near the target.
pub open spec fn poll_outcome(i: int, response: Seq<char>, near: bool) -> PollOutcome {
    if response.len() == 0 {
        PollOutcome::Silent
    } else if contains(response, "Telescope slew is complete"@) {
        PollOutcome::Complete
    } else if near && i > 5 {
        PollOutcome::AtTarget { status: slew_status(response) }
    } else {
        PollOutcome::Progress { status: slew_status(response) }
    }
}

/// The first 500 bytes of a section, or all of it where it is shorter.
pub open spec fn is_preview(section: Seq<char>, shown: Seq<char>) -> bool {
    if encode_utf8(section).len() > 500 {
        encode_utf8(shown) == encode_utf8(section).take(500)
    } else {
        shown == section
    }
}

/// A preview of the section of the tracking state can be cut off.
pub open spec fn can_preview(response: Seq<char>) -> bool {
    match section_behind(response, "TELESCOPE_TRACK_STATE"@) {
        Some(section) => encode_utf8(section).len() > 500 ==> is_char_boundary(
            encode_utf8(section),
            500,
        ),
        None => true,
    }
}

/// What is said of the content of the tracking switch.
pub open spec fn content_note(section: Seq<char>) -> Seq<char> {
    match section_behind(section, "TRACK_ON"@) {
        Some(s) => match find(s, ">"@) {
            Some(_) => match between(s, ">"@, "</oneSwitch>"@) {
                Some(raw) => "\""@ + raw + "\" (trimmed: \""@ + trim(raw) + "\")"@,
                None => "end tag not found"@,
            },
            None => "start > not found"@,
        },
        None => "TRACK_ON not found"@,
    }
}

/// The words for the truth values.
pub open spec fn truth(b: bool) -> Seq<char> {
    if b {
        "true"@
    } else {
        "false"@
    }
}

fn truth_text(b: bool) -> (r: &'static str)
    ensures
        r@ == truth(b),
{
    if b {
        "true"
    } else {
        "false"
    }
}

/// The lines that describe the tracking state, given the preview of its
/// section.
pub open spec fn debug_lines(response: Seq<char>, shown: Seq<char>) -> Seq<Seq<char>> {
    let first = "🔍 Debug: Searching for TELESCOPE_TRACK_STATE..."@;
    match section_behind(response, "TELESCOPE_TRACK_STATE"@) {
        Some(section) => seq![
            first,
            "   Found TELESCOPE_TRACK_STATE section:"@,
            "   "@ + replace(shown, "\n"@, "\n   "@),
            "\n   has TRACK_ON: "@ + truth(contains(section, "TRACK_ON"@)),
            "   TRACK_ON content: "@ + content_note(section),
            "   parsed tracking: "@ + truth(tracks(response)),
        ],
        None => seq![
            first,
            "   ❌ TELESCOPE_TRACK_STATE not found in response!"@,
            "   Response contains "@ + decimal(encode_utf8(response).len()) + " bytes"@,
        ],
    }
}

fn preview(section: &str) -> (r: String)
    requires
        encode_utf8(section@).len() > 500 ==> is_char_boundary(encode_utf8(section@), 500),
    ensures
        is_preview(section@, r@),
{
    if section.as_bytes().len() > 500 {
        let (head, _tail) = section.split_at(500);
        let shown = head.to_owned();
        assert(encode_utf8(shown@) =~= encode_utf8(section@).take(500));
        shown
    } else {
        section.to_owned()
    }
}

fn describe_content(section: &[char]) -> (r: String)
    ensures
        r@ == content_note(section@),
{
    proof {
        reveal_strlit("TRACK_ON");
    }
    match find_section(section, "TRACK_ON") {
        Some(s) => {
            let mark = chars_of(">");
            if position_of(s.as_slice(), mark.as_slice()).is_none() {
                return "start > not found".to_owned();
            }
            match text_between(s.as_slice(), ">", "</oneSwitch>") {
                Some(raw) => {
                    let mut out = concat3(
                        "\"",
                        string_of(raw.as_slice()).as_str(),
                        "\" (trimmed: \"",
                    );
                    out.append(string_of(trimmed(raw.as_slice())).as_str());
                    out.append("\")");
                    out
                },
                None => "end tag not found".to_owned(),
            }
        },
        None => "TRACK_ON not found".to_owned(),
    }
}

impl IndiClient {
    pub closed spec fn device(self) -> Seq<char> {
        self.device_name@
    }

    /// A client for this mount.
    pub fn new(device_name: &str) -> (r: IndiClient)
        ensures
            r.device() == device_name@,
    {
        IndiClient { device_name: device_name.to_owned() }
    }

    /// The name of the mount.
    pub fn device_name(&self) -> (r: &str)
        ensures
            r@ == self.device(),
    {
        self.device_name.as_str()
    }

    fn connection(&self, connect: bool) -> (r: String)
        ensures
            r@ == switch_vector(
                self.device(),
                "CONNECTION"@,
                seq![("CONNECT"@, connect), ("DISCONNECT"@, !connect)],
            ),
    {
        two_switches(
            self.device_name.as_str(),
            "CONNECTION",
            Switch { name: "CONNECT", on: connect },
            Switch { name: "DISCONNECT", on: !connect },
        )
    }

    /// The steps that connect the mount and turn its tracking on.
    pub fn connect(&self) -> (r: Vec<EqStep>)
        ensures
            step_views(r@) == seq![
                EqStepView::Send(
                    switch_vector(
                        self.device(),
                        "CONNECTION"@,
                        seq![("CONNECT"@, true), ("DISCONNECT"@, false)],
                    ),
                ),
                EqStepView::Send(tracking_on(self.device())),
                EqStepView::Wait(3000),
                EqStepView::Drain,
            ],
    {
        let steps = pushed(no_steps(), EqStep::Send(self.connection(true)));
        let steps = pushed(steps, EqStep::Send(track_command(self.device_name.as_str())));
        let steps = pushed(steps, EqStep::Wait(3000));
        pushed(steps, EqStep::Drain)
    }

    /// The command that disconnects the mount.
    pub fn disconnect(&self) -> (r: String)
        ensures
            r@ == switch_vector(
                self.device(),
                "CONNECTION"@,
                seq![("CONNECT"@, false), ("DISCONNECT"@, true)],
            ),
    {
        self.connection(false)
    }

    /// Checks a right ascension in hours, 0 to 24, and a declination in
    /// degrees, -90 to 90.
    pub fn validate_coordinates(&self, ra: &str, dec: &str) -> (r: Result<(), IndiError>)
        ensures
            match r {
                Ok(_) => coordinate_fault(ra@, dec@) is None,
                Err(e) => e is Device && coordinate_fault(ra@, dec@) == Some(e->Device_0@),
            },
    {
        if !is_from_zero_to(ra, 24) {
            return Err(
                IndiError::Device(concat3("Invalid RA: ", ra, ". Must be 0.0-24.0 hours")),
            );
        }
        if !is_from_to(dec, 90, 90) {
            return Err(
                IndiError::Device(
                    concat3("Invalid DEC: ", dec, ". Must be -90.0 to +90.0 degrees"),
                ),
            );
        }
        Ok(())
    }

    /// The steps of a slew. The coordinates come twice: as they are shown, and
    /// as they are sent. Both are checked.
    pub fn goto(&self, ra: &str, dec: &str, ra_sent: &str, dec_sent: &str) -> (r: Result<
        Vec<EqStep>,
        IndiError,
    >)
        ensures
            match r {
                Ok(steps) => {
                    &&& coordinate_fault(ra@, dec@) is None
                    &&& coordinate_fault(ra_sent@, dec_sent@) is None
                    &&& step_views(steps@) == goto_steps(self.device(), ra_sent@, dec_sent@)
                },
                Err(e) => e is Device && Some(e->Device_0@) == match coordinate_fault(ra@, dec@) {
                    Some(fault) => Some(fault),
                    None => coordinate_fault(ra_sent@, dec_sent@),
                },
            },
    {
        match self.validate_coordinates(ra, dec) {
            Ok(_) => {},
            Err(e) => return Err(e),
        }
        match self.validate_coordinates(ra_sent, dec_sent) {
            Ok(_) => {},
            Err(e) => return Err(e),
        }
        let device = self.device_name.as_str();
        let mode = three_switches(
            device,
            "ON_COORD_SET",
            Switch { name: "TRACK", on: true },
            Switch { name: "SLEW", on: false },
            Switch { name: "SYNC", on: false },
        );
        let mut v: Vec<Switch> = Vec::new();
        v.push(Switch { name: "TRACK_SIDEREAL", on: true });
        v.push(Switch { name: "TRACK_SOLAR", on: false });
        v.push(Switch { name: "TRACK_LUNAR", on: false });
        v.push(Switch { name: "TRACK_CUSTOM", on: false });
        assert(switch_views(v@) =~= seq![
            ("TRACK_SIDEREAL"@, true),
            ("TRACK_SOLAR"@, false),
            ("TRACK_LUNAR"@, false),
            ("TRACK_CUSTOM"@, false),
        ]);
        let rate = switch_command(device, "TELESCOPE_TRACK_MODE", v.as_slice());
        let mut n: Vec<Number> = Vec::new();
        n.push(Number { name: "RA", value: ra_sent });
        n.push(Number { name: "DEC", value: dec_sent });
        assert(number_views(n@) =~= seq![("RA"@, ra_sent@), ("DEC"@, dec_sent@)]);
        let target = number_command(device, "EQUATORIAL_EOD_COORD", n.as_slice());
        let steps = pushed(no_steps(), EqStep::Send(get_properties_command()));
        let steps = pushed(steps, EqStep::Wait(500));
        let steps = pushed(steps, EqStep::ShowPosition);
        let steps = pushed(steps, EqStep::Send(mode));
        let steps = pushed(steps, EqStep::Wait(200));
        let steps = pushed(steps, EqStep::Send(track_command(self.device_name.as_str())));
        let steps = pushed(steps, EqStep::Wait(200));
        let steps = pushed(steps, EqStep::Send(rate));
        let steps = pushed(steps, EqStep::Wait(200));
        let steps = pushed(steps, EqStep::Send(target));
        let steps = pushed(steps, EqStep::WatchSlew);
        let steps = pushed(steps, EqStep::Send(track_command(self.device_name.as_str())));
        let steps = pushed(steps, EqStep::Wait(500));
        let steps = pushed(steps, EqStep::Send(get_properties_command()));
        let steps = pushed(steps, EqStep::Wait(500));
        Ok(pushed(steps, EqStep::ShowStatus))
    }

    /// The coordinates in an answer, as text; zero where they are missing.
    pub fn parse_coordinates(&self, response: &str) -> (r: (String, String))
        ensures
            r.0@ == number_or_zero(coordinate_section(response@), "<oneNumber name=\"RA\">"@),
            r.1@ == number_or_zero(coordinate_section(response@), "<oneNumber name=\"DEC\">"@),
    {
        let s = chars_of(response);
        let mark = chars_of("EQUATORIAL_EOD_COORD");
        proof {
            reveal_strlit("EQUATORIAL_EOD_COORD");
            lemma_split_nonempty(s@, mark@);
        }
        let parts = split_by(s.as_slice(), mark.as_slice());
        let ghost all = views(parts@);
        let n = parts.len();
        assert(all.len() == n && all[n - 1] == parts@[n - 1]@);
        let section = parts[n - 1].as_slice();
        assert(section@ == coordinate_section(response@));
        let ra = read_number_or_zero(section, "<oneNumber name=\"RA\">");
        let dec = read_number_or_zero(section, "<oneNumber name=\"DEC\">");
        (ra, dec)
    }

    /// Whether an answer says that the mount tracks.
    pub fn parse_tracking_state(&self, response: &str) -> (r: bool)
        ensures
            r == tracks(response@),
    {
        let s = chars_of(response);
        proof {
            reveal_strlit("TELESCOPE_TRACK_STATE");
        }
        match find_section(s.as_slice(), "TELESCOPE_TRACK_STATE") {
            Some(section) => match read_track_on(section.as_slice()) {
                Some(content) => {
                    let on = chars_of("On");
                    same_chars(trimmed(content.as_slice()), on.as_slice())
                },
                None => false,
            },
            None => false,
        }
    }

    /// The first error or warning in an answer.
    pub fn extract_error(&self, response: &str) -> (r: Option<String>)
        ensures
            match r {
                Some(t) => first_warning(split(response@, "\n"@)) == Some(t@),
                None => first_warning(split(response@, "\n"@)) is None,
            },
    {
        let s = chars_of(response);
        let mark = chars_of("\n");
        proof {
            reveal_strlit("\n");
        }
        let lines = split_by(s.as_slice(), mark.as_slice());
        let ghost all = views(lines@);
        assert(all.skip(0) =~= all);
        let n = lines.len();
        let mut i: usize = 0;
        while i < n
            invariant
                i <= n == lines@.len() == all.len(),
                all == views(lines@),
                all == split(response@, "\n"@),
                first_warning(all) == first_warning(all.skip(i as int)),
            decreases n - i,
        {
            assert(all.skip(i as int)[0] == lines@[i as int]@);
            assert(all.skip(i as int).skip(1) =~= all.skip(i + 1));
            match read_line_warning(lines[i].as_slice()) {
                Some(t) => return Some(t),
                None => {},
            }
            i = i + 1;
        }
        None
    }

    /// The altitude and the azimuth in an answer, as text.
    pub fn parse_horizontal(&self, response: &str) -> (r: Option<(String, String)>)
        ensures
            match r {
                Some((alt, az)) => horizontal(response@) == Some((alt@, az@)),
                None => horizontal(response@) is None,
            },
    {
        let s = chars_of(response);
        proof {
            reveal_strlit("HORIZONTAL_COORD");
        }
        match find_section(s.as_slice(), "HORIZONTAL_COORD") {
            Some(section) => {
                let alt = read_number(section.as_slice(), "<oneNumber name=\"ALT\">");
                let az = read_number(section.as_slice(), "<oneNumber name=\"AZ\">");
                match (alt, az) {
                    (Some(alt), Some(az)) => Some((alt, az)),
                    _ => None,
                }
            },
            None => None,
        }
    }

    /// What look `i` (from 0) at a slew means, given whether the position in
    /// the answer is near the target.
    pub fn monitor_slew(&self, i: u32, response: &str, near: bool) -> (r: PollOutcome)
        ensures
            r == poll_outcome(i as int, response@, near),
    {
        if response.is_empty() {
            return PollOutcome::Silent;
        }
        if text_has(response, "Telescope slew is complete") {
            return PollOutcome::Complete;
        }
        let status = if text_has(response, "state=\"Busy\"") {
            SlewStatus::Slewing
        } else if self.parse_tracking_state(response) {
            SlewStatus::Tracking
        } else {
            SlewStatus::Idle
        };
        if near && i > 5 {
            PollOutcome::AtTarget { status }
        } else {
            PollOutcome::Progress { status }
        }
    }

    /// The lines that describe the tracking state in an answer.
    pub fn debug_tracking_state(&self, response: &str) -> (r: Vec<String>)
        requires
            can_preview(response@),
        ensures
            exists|shown: Seq<char>|
                {
                    &&& section_behind(response@, "TELESCOPE_TRACK_STATE"@) matches Some(section)
                        ==> is_preview(section, shown)
                    &&& texts(r@) == #[trigger] debug_lines(response@, shown)
                },
    {
        let mut lines: Vec<String> = Vec::new();
        lines.push("🔍 Debug: Searching for TELESCOPE_TRACK_STATE...".to_owned());
        let s = chars_of(response);
        proof {
            reveal_strlit("TELESCOPE_TRACK_STATE");
            reveal_strlit("\n");
        }
        match find_section(s.as_slice(), "TELESCOPE_TRACK_STATE") {
            Some(section) => {
                let track_on = chars_of("TRACK_ON");
                let shown = preview(string_of(section.as_slice()).as_str());
                lines.push("   Found TELESCOPE_TRACK_STATE section:".to_owned());
                lines.push(
                    concat2("   ", replaced_text(shown.as_str(), "\n", "\n   ").as_str()),
                );
                lines.push(
                    concat2(
                        "\n   has TRACK_ON: ",
                        truth_text(has(section.as_slice(), track_on.as_slice())),
                    ),
                );
                lines.push(
                    concat2(
                        "   TRACK_ON content: ",
                        describe_content(section.as_slice()).as_str(),
                    ),
                );
                lines.push(
                    concat2(
                        "   parsed tracking: ",
                        truth_text(self.parse_tracking_state(response)),
                    ),
                );
                assert(texts(lines@) =~= debug_lines(response@, shown@));
            },
            None => {
                lines.push("   ❌ TELESCOPE_TRACK_STATE not found in response!".to_owned());
                let size = response.as_bytes().len();
                lines.push(
                    concat3("   Response contains ", decimal_text(size as u64).as_str(), " bytes"),
                );
                assert(texts(lines@) =~= debug_lines(response@, Seq::empty()));
            },
        }
        lines
    }
}

// ---------------------------------------------------------------------------
// Laws
// ---------------------------------------------------------------------------

/// A slew is refused exactly where a coordinate is out of range, and the right
/// ascension is named first.
pub proof fn law_refused_coordinates(ra: Seq<char>, dec: Seq<char>)
    ensures
        coordinate_fault(ra, dec) is None <==> from_zero_to(ra, 24) && from_to(dec, 90, 90),
        !from_zero_to(ra, 24) ==> coordinate_fault(ra, dec) == Some(
            "Invalid RA: "@ + ra + ". Must be 0.0-24.0 hours"@,
        ),
{
}

/// A position near the target does not end a slew that has just begun.
pub proof fn law_early_position_is_no_arrival(i: int, response: Seq<char>)
    requires
        i <= 5,
        !contains(response, "Telescope slew is complete"@),
    ensures
        poll_outcome(i, response, true) is Silent || poll_outcome(i, response, true) is Progress,
{
}

/// Tracking is turned on before the coordinates are sent and again behind the
/// slew.
pub proof fn law_tracking_is_on_around_slew(device: Seq<char>, ra: Seq<char>, dec: Seq<char>)
    ensures
        ({
            let s = goto_steps(device, ra, dec);
            &&& s[5] == EqStepView::Send(tracking_on(device))
            &&& s[9] == EqStepView::Send(
                number_vector(device, "EQUATORIAL_EOD_COORD"@, seq![("RA"@, ra), ("DEC"@, dec)]),
            )
            &&& s[10] is WatchSlew
            &&& s[11] == EqStepView::Send(tracking_on(device))
        }),
{
}

/// `pat` stands in `s` at position `k` first.
pub open spec fn stands_first(s: Seq<char>, pat: Seq<char>, k: int) -> bool {
    &&& occurs_at(s, pat, k)
    &&& forall|j: int| j < k ==> !occurs_at(s, pat, j)
}

proof fn lemma_first(s: Seq<char>, pat: Seq<char>, k: int)
    requires
        stands_first(s, pat, k),
    ensures
        find(s, pat) == Some(k),
{
    lemma_find(s, pat);
    assert(contains(s, pat));
    let f = find(s, pat)->0;
    if f < k {
        assert(!occurs_at(s, pat, f));
    }
    if k < f {
        assert(!occurs_at(s, pat, k));
    }
}

/// What stands between the first opening mark and the next closing one is found,
/// whatever stands around it.
pub proof fn law_text_between_marks(
    before: Seq<char>,
    open: Seq<char>,
    t: Seq<char>,
    close: Seq<char>,
    behind: Seq<char>,
)
    requires
        stands_first(before + open + (t + close + behind), open, before.len() as int),
        stands_first(t + close + behind, close, t.len() as int),
    ensures
        between(before + open + (t + close + behind), open, close) == Some(t),
{
    let rest = t + close + behind;
    let s = before + open + rest;
    lemma_first(s, open, before.len() as int);
    lemma_first(rest, close, t.len() as int);
    let at = before.len() as int;
    assert(s.skip(at + open.len()) =~= rest);
    assert(rest.take(t.len() as int) =~= t);
}

/// Where one of the marks is missing, nothing stands between them.
pub proof fn law_nothing_between_missing_marks(s: Seq<char>, open: Seq<char>, close: Seq<char>)
    requires
        !contains(s, open) || !contains(s, close),
    ensures
        between(s, open, close) is None,
{
    lemma_find(s, open);
    if let Some(k) = find(s, open) {
        let after = s.skip(k + open.len());
        lemma_find(after, close);
        if let Some(e) = find(after, close) {
            let at = k + open.len() + e;
            assert(after.subrange(e, e + close.len()) =~= s.subrange(at, at + close.len()));
            assert(occurs_at(s, close, at));
        }
    }
}

/// A number is read out of a section without the white space around it; what is
/// no number counts as zero.
pub proof fn law_number_is_read(
    before: Seq<char>,
    open: Seq<char>,
    t: Seq<char>,
    behind: Seq<char>,
)
    requires
        stands_first(before + open + (t + "</oneNumber>"@ + behind), open, before.len() as int),
        stands_first(t + "</oneNumber>"@ + behind, "</oneNumber>"@, t.len() as int),
    ensures
        ({
            let section = before + open + (t + "</oneNumber>"@ + behind);
            &&& is_real(trim(t)) ==> number_or_zero(section, open) == trim(t)
            &&& !is_real(trim(t)) ==> number_or_zero(section, open) == "0"@
        }),
{
    law_text_between_marks(before, open, t, "</oneNumber>"@, behind);
}

/// The section behind a mark reaches up to the next mark or to the end; without
/// a mark there is none.
pub proof fn law_section_behind_a_mark(before: Seq<char>, mark: Seq<char>, section: Seq<char>)
    requires
        mark.len() > 0,
        stands_first(before + mark + section, mark, before.len() as int),
    ensures
        !contains(section, mark) ==> section_behind(before + mark + section, mark) == Some(section),
        forall|e: int| #[trigger]
            stands_first(section, mark, e) ==> section_behind(before + mark + section, mark)
                == Some(section.take(e)),
        forall|s: Seq<char>|
            !contains(s, mark) ==> #[trigger] section_behind(s, mark) is None,
{
    let s = before + mark + section;
    let at = before.len() as int;
    lemma_first(s, mark, at);
    assert(s.skip(at + mark.len()) =~= section);
    lemma_find(section, mark);
    assert(split(s, mark)[1] == split(section, mark)[0]);
    lemma_split_nonempty(section, mark);
    assert forall|e: int| #[trigger] stands_first(section, mark, e) implies section_behind(s, mark)
        == Some(section.take(e)) by {
        lemma_first(section, mark, e);
    }
    assert forall|s: Seq<char>| !contains(s, mark) implies #[trigger] section_behind(s, mark)
        is None by {
        lemma_find(s, mark);
    }
}

/// The coordinates are looked for behind the mention of them, where it is the
/// only one, and in the whole answer where there is none.
pub proof fn law_coordinate_section(before: Seq<char>, section: Seq<char>)
    requires
        stands_first(
            before + "EQUATORIAL_EOD_COORD"@ + section,
            "EQUATORIAL_EOD_COORD"@,
            before.len() as int,
        ),
        !contains(section, "EQUATORIAL_EOD_COORD"@),
    ensures
        coordinate_section(before + "EQUATORIAL_EOD_COORD"@ + section) == section,
        coordinate_section(section) == section,
{
    let mark = "EQUATORIAL_EOD_COORD"@;
    reveal_strlit("EQUATORIAL_EOD_COORD");
    let s = before + mark + section;
    let at = before.len() as int;
    lemma_first(s, mark, at);
    assert(s.skip(at + mark.len()) =~= section);
    lemma_find(section, mark);
    assert(split(section, mark) =~= seq![section]);
    assert(split(s, mark) == seq![s.take(at)] + split(section, mark));
}

/// A mount tracks where its switch for that is on, and not where it is off.
pub proof fn law_mount_tracks(
    response: Seq<char>,
    section: Seq<char>,
    line: Seq<char>,
    content: Seq<char>,
)
    requires
        section_behind(response, "TELESCOPE_TRACK_STATE"@) == Some(section),
        section_behind(section, "TRACK_ON"@) == Some(line),
        between(line, ">"@, "</oneSwitch>"@) == Some(content),
    ensures
        tracks(response) <==> trim(content) == "On"@,
{
}

/// An answer that does not speak of the tracking state does not tell that the
/// mount tracks.
pub proof fn law_silent_mount_does_not_track(response: Seq<char>)
    requires
        !contains(response, "TELESCOPE_TRACK_STATE"@),
    ensures
        !tracks(response),
{
    lemma_find(response, "TELESCOPE_TRACK_STATE"@);
}

/// The first line that tells of an error or a warning counts; where none does,
/// nothing is told.
pub proof fn law_first_warning_counts(lines: Seq<Seq<char>>)
    ensures
        match first_warning(lines) {
            Some(t) => exists|i: int|
                {
                    &&& 0 <= i < lines.len()
                    &&& line_warning(#[trigger] lines[i]) == Some(t)
                    &&& forall|k: int| 0 <= k < i ==> line_warning(#[trigger] lines[k]) is None
                },
            None => forall|k: int|
                0 <= k < lines.len() ==> line_warning(#[trigger] lines[k]) is None,
        },
    decreases lines.len(),
{
    if lines.len() > 0 {
        let rest = lines.skip(1);
        if line_warning(lines[0]) is Some {
            assert(line_warning(lines[0]) == first_warning(lines));
        } else {
            law_first_warning_counts(rest);
            match first_warning(rest) {
                Some(t) => {
                    let i = choose|i: int|
                        {
                            &&& 0 <= i < rest.len()
                            &&& line_warning(#[trigger] rest[i]) == Some(t)
                            &&& forall|k: int|
                                0 <= k < i ==> line_warning(#[trigger] rest[k]) is None
                        };
                    assert(line_warning(lines[i + 1]) == Some(t));
                    assert forall|k: int| 0 <= k < i + 1 implies line_warning(#[trigger] lines[k])
                        is None by {
                        if k > 0 {
                            assert(line_warning(rest[k - 1]) is None);
                        }
                    }
                },
                None => {
                    assert forall|k: int| 0 <= k < lines.len() implies line_warning(
                        #[trigger] lines[k],
                    ) is None by {
                        if k > 0 {
                            assert(line_warning(rest[k - 1]) is None);
                        }
                    }
                },
            }
        }
    }
}

/// A line tells of an error or a warning where it is a message, names one of
/// them and quotes a text; it tells that text.
pub proof fn law_line_with_a_warning(line: Seq<char>)
    ensures
        line_warning(line) is Some ==> contains(line, "<message"@) && (contains(
            line,
            "WARNING"@,
        ) || contains(line, "ERROR"@)) && line_warning(line) == between(
            line,
            "message=\""@,
            "\""@,
        ),
        contains(line, "<message"@) && contains(line, "WARNING"@) ==> line_warning(line) == between(
            line,
            "message=\""@,
            "\""@,
        ),
        contains(line, "<message"@) && contains(line, "ERROR"@) ==> line_warning(line) == between(
            line,
            "message=\""@,
            "\""@,
        ),
{
}

/// What a look means: no answer is silence; the mount that says so is done; one
/// that is near the target from the seventh look on is there; any other goes on.
/// There are thirty looks.
pub proof fn law_meaning_of_a_look(i: int, response: Seq<char>, near: bool)
    ensures
        ({
            let outcome = poll_outcome(i, response, near);
            let done = contains(response, "Telescope slew is complete"@);
            let busy = contains(response, "state=\"Busy\""@);
            let status = if busy {
                SlewStatus::Slewing
            } else if tracks(response) {
                SlewStatus::Tracking
            } else {
                SlewStatus::Idle
            };
            &&& outcome is Silent <==> response.len() == 0
            &&& outcome is Complete <==> response.len() > 0 && done
            &&& outcome == (PollOutcome::AtTarget { status }) <==> response.len() > 0 && !done
                && near && i >= 6
            &&& outcome == (PollOutcome::Progress { status }) <==> response.len() > 0 && !done && (
            !near || i < 6)
        }),
        SLEW_POLLS == 30,
{
}

/// The steps of a slew, one by one.
pub proof fn law_steps_of_a_slew(device: Seq<char>, ra: Seq<char>, dec: Seq<char>)
    ensures
        ({
            let s = goto_steps(device, ra, dec);
            let tracking = switch_vector(
                device,
                "TELESCOPE_TRACK_STATE"@,
                seq![("TRACK_ON"@, true), ("TRACK_OFF"@, false)],
            );
            &&& s.len() == 16
            &&& s[0] == EqStepView::Send("<getProperties version=\"1.7\" />"@)
            &&& s[2] is ShowPosition
            &&& s[3] == EqStepView::Send(
                switch_vector(
                    device,
                    "ON_COORD_SET"@,
                    seq![("TRACK"@, true), ("SLEW"@, false), ("SYNC"@, false)],
                ),
            )
            &&& s[5] == EqStepView::Send(tracking)
            &&& s[7] == EqStepView::Send(
                switch_vector(
                    device,
                    "TELESCOPE_TRACK_MODE"@,
                    seq![
                        ("TRACK_SIDEREAL"@, true),
                        ("TRACK_SOLAR"@, false),
                        ("TRACK_LUNAR"@, false),
                        ("TRACK_CUSTOM"@, false),
                    ],
                ),
            )
            &&& s[9] == EqStepView::Send(
                number_vector(device, "EQUATORIAL_EOD_COORD"@, seq![("RA"@, ra), ("DEC"@, dec)]),
            )
            &&& s[10] is WatchSlew
            &&& s[11] == EqStepView::Send(tracking)
            &&& s[13] == EqStepView::Send("<getProperties version=\"1.7\" />"@)
            &&& s[15] is ShowStatus
            &&& s[1] == EqStepView::Wait(500) && s[12] == EqStepView::Wait(500) && s[14]
                == EqStepView::Wait(500)
            &&& s[4] == EqStepView::Wait(200) && s[6] == EqStepView::Wait(200) && s[8]
                == EqStepView::Wait(200)
        }),
{
}

/// The altitude and the azimuth are told together or not at all.
pub proof fn law_altitude_and_azimuth(response: Seq<char>, section: Seq<char>)
    requires
        section_behind(response, "HORIZONTAL_COORD"@) == Some(section),
    ensures
        ({
            let alt = number_in(section, "<oneNumber name=\"ALT\">"@);
            let az = number_in(section, "<oneNumber name=\"AZ\">"@);
            &&& alt is Some && az is Some ==> horizontal(response) == Some((alt->0, az->0))
            &&& alt is None || az is None ==> horizontal(response) is None
        }),
{
}

/// The message of an error ends with its reason, behind the kind of the error.
pub proof fn law_reason_is_told(e: IndiError)
    ensures
        e matches IndiError::Connection(s) ==> e.message_text() == "Connection error: "@ + s@,
        e matches IndiError::Communication(s) ==> e.message_text() == "Communication error: "@ + s@,
        e matches IndiError::Device(s) ==> e.message_text() == "Device error: "@ + s@,
        e matches IndiError::Io(s) ==> e.message_text() == "IO error: "@ + s@,
{
}

/// There is a section behind a mark where the mark stands.
proof fn lemma_section(s: Seq<char>, mark: Seq<char>)
    requires
        mark.len() > 0,
    ensures
        section_behind(s, mark) is Some <==> contains(s, mark),
{
    lemma_find(s, mark);
    match find(s, mark) {
        Some(k) => {
            lemma_split_nonempty(s.skip(k + mark.len()), mark);
        },
        None => {},
    }
}

/// An answer without the tracking state is told by its length; else what was
/// found of the state is told, and whether the mount tracks by the same words
/// as whether the switch was found.
pub proof fn law_tracking_is_explained(response: Seq<char>, shown: Seq<char>)
    ensures
        ({
            let lines = debug_lines(response, shown);
            &&& lines[0] == "🔍 Debug: Searching for TELESCOPE_TRACK_STATE..."@
            &&& !contains(response, "TELESCOPE_TRACK_STATE"@) ==> {
                &&& lines.len() == 3
                &&& lines[1] == "   ❌ TELESCOPE_TRACK_STATE not found in response!"@
                &&& lines[2] == "   Response contains "@ + decimal(encode_utf8(response).len())
                    + " bytes"@
            }
            &&& contains(response, "TELESCOPE_TRACK_STATE"@) ==> {
                let section = section_behind(response, "TELESCOPE_TRACK_STATE"@)->0;
                &&& lines.len() == 6
                &&& lines[1] == "   Found TELESCOPE_TRACK_STATE section:"@
                &&& lines[2] == "   "@ + replace(shown, "\n"@, "\n   "@)
                &&& contains(section, "TRACK_ON"@) ==> lines[3] == "\n   has TRACK_ON: true"@
                &&& !contains(section, "TRACK_ON"@) ==> lines[3] == "\n   has TRACK_ON: false"@
                    && lines[4] == "   TRACK_ON content: TRACK_ON not found"@
                &&& tracks(response) ==> lines[5] == "   parsed tracking: true"@
                &&& !tracks(response) ==> lines[5] == "   parsed tracking: false"@
            }
        }),
{
    reveal_strlit("TELESCOPE_TRACK_STATE");
    reveal_strlit("TRACK_ON");
    lemma_section(response, "TELESCOPE_TRACK_STATE"@);
    if contains(response, "TELESCOPE_TRACK_STATE"@) {
        let section = section_behind(response, "TELESCOPE_TRACK_STATE"@)->0;
        lemma_section(section, "TRACK_ON"@);
        reveal_strlit("true");
        reveal_strlit("false");
        reveal_strlit("\n   has TRACK_ON: ");
        reveal_strlit("\n   has TRACK_ON: true");
        reveal_strlit("\n   has TRACK_ON: false");
        reveal_strlit("   parsed tracking: ");
        reveal_strlit("   parsed tracking: true");
        reveal_strlit("   parsed tracking: false");
        reveal_strlit("   TRACK_ON content: ");
        reveal_strlit("TRACK_ON not found");
        reveal_strlit("   TRACK_ON content: TRACK_ON not found");
        assert("\n   has TRACK_ON: "@ + "true"@ =~= "\n   has TRACK_ON: true"@);
        assert("\n   has TRACK_ON: "@ + "false"@ =~= "\n   has TRACK_ON: false"@);
        assert("   parsed tracking: "@ + "true"@ =~= "   parsed tracking: true"@);
        assert("   parsed tracking: "@ + "false"@ =~= "   parsed tracking: false"@);
        assert("   TRACK_ON content: "@ + "TRACK_ON not found"@
            =~= "   TRACK_ON content: TRACK_ON not found"@);
    }
}

} // verus!
