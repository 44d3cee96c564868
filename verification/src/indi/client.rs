//! The mount behind an INDI server: what is known of it, and the commands
//! that move it.

use crate::indi::command::{
    number_command, number_vector, number_views, switch_command, switch_lines, switch_vector,
    switch_views, three_switches, time_command, time_vector, two_switches, Number, Switch,
};
use crate::indi::error::IndiError;
use crate::indi::pier::PierSide;
use crate::indi::state::{
    is_on, known_property, told, updated, DeviceView, IndiState, PropertyView,
};
use crate::indi::steps::{no_steps, pushed, step_views, track_command, tracking_on};
use crate::indi::xml::{parseable, xml_of};
use crate::reals::{
    from_to, from_zero_to, is_below_zero, is_plain_decimal, is_real, text_writes_real,
};
use crate::text::{concat2, concat3, same_text, texts};
use vstd::prelude::*;

verus! {

/// A client for one device of an INDI server.
#[derive(Debug)]
pub struct IndiClient {
    pub device_name: String,
    pub state: IndiState,
    /// The last message of the driver for the user.
    pub latest_message: String,
}

/// One step of a command to the mount.
#[derive(Debug)]
pub enum MountStep {
    /// Send this text; where that fails, leave out the rest.
    Send(String),
    /// Wait this many milliseconds.
    Wait(u64),
    /// Watch the mount until the slew has ended.
    WatchSlew,
}

/// One step of a command, with its text.
pub enum StepView {
    Send(Seq<char>),
    Wait(u64),
    WatchSlew,
}

impl View for MountStep {
    type V = StepView;

    open spec fn view(&self) -> StepView {
        match *self {
            MountStep::Send(s) => StepView::Send(s@),
            MountStep::Wait(ms) => StepView::Wait(ms),
            MountStep::WatchSlew => StepView::WatchSlew,
        }
    }
}

// ---------------------------------------------------------------------------
// What is known of the mount
// ---------------------------------------------------------------------------

/// The element of a property is switched on.
pub open spec fn switched_on(p: Option<PropertyView>, element: Seq<char>) -> bool {
    match p {
        Some(p) => is_on(p, element),
        None => false,
    }
}

/// What the mount does.
pub open spec fn status_of(park: Option<PropertyView>, coordinates: Option<PropertyView>) -> Seq<
    char,
> {
    if switched_on(park, "PARK"@) {
        "PARKED"@
    } else {
        match coordinates {
            Some(c) => if c.state == "Busy"@ {
                "SLEWING"@
            } else if c.state == "Ok"@ {
                "TRACKING"@
            } else if c.state == "Idle"@ {
                "IDLE"@
            } else if c.state == "Alert"@ {
                "ERROR"@
            } else {
                "UNKNOWN"@
            },
            None => "UNKNOWN"@,
        }
    }
}

/// The real number that an element of a property holds.
pub open spec fn real_element(p: Option<PropertyView>, element: Seq<char>) -> Option<Seq<char>> {
    match p {
        Some(p) => if p.elements.dom().contains(element) && is_real(p.elements[element]) {
            Some(p.elements[element])
        } else {
            None
        },
        None => None,
    }
}

/// The number that an element of a property holds, or zero.
pub open spec fn coordinate(p: Option<PropertyView>, element: Seq<char>) -> Seq<char> {
    match real_element(p, element) {
        Some(v) => v,
        None => "0"@,
    }
}

/// The side of the pier that a property tells.
pub open spec fn pier_of(p: Option<PropertyView>) -> PierSide {
    if switched_on(p, "PIER_WEST"@) {
        PierSide::West
    } else if switched_on(p, "PIER_EAST"@) {
        PierSide::East
    } else {
        PierSide::Unknown
    }
}

impl IndiClient {
    pub open spec fn wf(self) -> bool {
        self.state.wf()
    }

    /// The property of the mount with this name.
    pub open spec fn property(self, name: Seq<char>) -> Option<PropertyView> {
        known_property(self.state@, self.device_name@, name)
    }

    /// The coordinates that the mount reports.
    pub open spec fn coordinates(self) -> Option<PropertyView> {
        self.property("EQUATORIAL_EOD_COORD"@)
    }

    /// The side of the pier.
    pub open spec fn pier(self) -> PierSide {
        pier_of(self.property("TELESCOPE_PIER_SIDE"@))
    }

    /// A client that has heard nothing yet.
    pub fn new(device_name: &str) -> (r: IndiClient)
        ensures
            r.wf(),
            r.device_name@ == device_name@,
            r.state@ == Map::<Seq<char>, DeviceView>::empty(),
            r.latest_message@ == ""@,
    {
        IndiClient {
            device_name: device_name.to_owned(),
            state: IndiState::new(),
            latest_message: "".to_owned(),
        }
    }

    /// Takes a message of the server in. Returns the line to publish, where
    /// the message is for the user. What is no message is passed over.
    pub fn receive(&mut self, xml: &str) -> (r: Option<String>)
        requires
            old(self).wf(),
            parseable(xml@),
        ensures
            final(self).wf(),
            final(self).device_name == old(self).device_name,
            match xml_of(xml@) {
                Ok(m) => {
                    &&& final(self).state@ == updated(old(self).state@, m)
                    &&& match told(m) {
                        Some((device, text)) => {
                            &&& final(self).latest_message@ == text
                            &&& r is Some
                            &&& r->0@ == "INDI Message ["@ + device + "]: "@ + text
                        },
                        None => {
                            &&& r is None
                            &&& final(self).latest_message == old(self).latest_message
                        },
                    }
                },
                Err(_) => {
                    &&& r is None
                    &&& final(self).state@ == old(self).state@
                    &&& final(self).latest_message == old(self).latest_message
                },
            },
    {
        match self.state.process_indi_message(xml) {
            Ok(Some((device, text))) => {
                let mut line = concat3("INDI Message [", device.as_str(), "]: ");
                line.append(text.as_str());
                self.latest_message = text;
                Some(line)
            },
            _ => None,
        }
    }

    fn on(&self, property: &str, element: &str) -> (r: bool)
        requires
            self.wf(),
        ensures
            r == switched_on(self.property(property@), element@),
    {
        match self.state.property(self.device_name.as_str(), property) {
            Some(p) => p.is_on(element),
            None => false,
        }
    }

    /// The current status of the mount.
    pub fn get_mount_status(&self) -> (r: String)
        requires
            self.wf(),
        ensures
            r@ == status_of(self.property("TELESCOPE_PARK"@), self.coordinates()),
    {
        if self.on("TELESCOPE_PARK", "PARK") {
            return "PARKED".to_owned();
        }
        match self.state.property(self.device_name.as_str(), "EQUATORIAL_EOD_COORD") {
            Some(c) => {
                let s = c.state.as_str();
                if same_text(s, "Busy") {
                    "SLEWING".to_owned()
                } else if same_text(s, "Ok") {
                    "TRACKING".to_owned()
                } else if same_text(s, "Idle") {
                    "IDLE".to_owned()
                } else if same_text(s, "Alert") {
                    "ERROR".to_owned()
                } else {
                    "UNKNOWN".to_owned()
                }
            },
            None => "UNKNOWN".to_owned(),
        }
    }

    /// The real number that an element of the coordinates holds.
    pub fn coordinate_text(&self, element: &str) -> (r: Option<String>)
        requires
            self.wf(),
        ensures
            match r {
                Some(v) => real_element(self.coordinates(), element@) == Some(v@),
                None => real_element(self.coordinates(), element@) is None,
            },
    {
        match self.state.property(self.device_name.as_str(), "EQUATORIAL_EOD_COORD") {
            Some(p) => match p.elements.get(element) {
                Some(v) => if text_writes_real(v.as_str()) {
                    Some(v.clone())
                } else {
                    None
                },
                None => None,
            },
            None => None,
        }
    }

    /// The right ascension in hours and the declination in degrees, as text;
    /// zero where the mount has not told them.
    pub fn get_coordinates(&self) -> (r: (String, String))
        requires
            self.wf(),
        ensures
            r.0@ == coordinate(self.coordinates(), "RA"@),
            r.1@ == coordinate(self.coordinates(), "DEC"@),
    {
        let ra = match self.coordinate_text("RA") {
            Some(v) => v,
            None => "0".to_owned(),
        };
        let dec = match self.coordinate_text("DEC") {
            Some(v) => v,
            None => "0".to_owned(),
        };
        (ra, dec)
    }

    /// Whether the mount has told its coordinates.
    pub fn has_coordinates(&self) -> (r: bool)
        requires
            self.wf(),
        ensures
            r == (self.coordinates() is Some),
    {
        self.state.property(self.device_name.as_str(), "EQUATORIAL_EOD_COORD").is_some()
    }

    /// The side of the pier on which the telescope hangs.
    pub fn get_pier_side(&self) -> (r: PierSide)
        requires
            self.wf(),
        ensures
            r == self.pier(),
    {
        if self.on("TELESCOPE_PIER_SIDE", "PIER_WEST") {
            PierSide::West
        } else if self.on("TELESCOPE_PIER_SIDE", "PIER_EAST") {
            PierSide::East
        } else {
            PierSide::Unknown
        }
    }

    /// A flip is to be expected: the telescope is on the west side and its
    /// coordinates are known.
    pub open spec fn can_flip(self) -> bool {
        self.pier() is West && self.coordinates() is Some
    }

    /// The mount should flip, given whether its hour angle is beyond the limit.
    pub open spec fn flip_due(self, beyond_limit: bool) -> bool {
        self.can_flip() && beyond_limit
    }

    /// The time until the next flip, given that time.
    pub open spec fn flip_time(self, hours: Seq<char>) -> Option<Seq<char>> {
        if self.can_flip() {
            Some(hours)
        } else {
            None
        }
    }

    /// Whether the mount should flip, given whether its hour angle is beyond
    /// the limit: only a telescope on the west side flips.
    pub fn needs_meridian_flip(&self, beyond_limit: bool) -> (r: bool)
        requires
            self.wf(),
        ensures
            r == self.flip_due(beyond_limit),
    {
        self.flip_is_ahead() && beyond_limit
    }

    /// Whether a time until the next flip can be told: the telescope is on
    /// the west side and its coordinates are known.
    pub fn flip_is_ahead(&self) -> (r: bool)
        requires
            self.wf(),
        ensures
            r == self.can_flip(),
    {
        matches!(self.get_pier_side(), PierSide::West) && self.has_coordinates()
    }

    /// The time until the next flip in hours, given that time as text: there
    /// is one where the telescope is on the west side and its coordinates are
    /// known. It is below zero where the flip is overdue.
    pub fn time_to_meridian_flip(&self, hours: &str) -> (r: Option<String>)
        requires
            self.wf(),
        ensures
            match r {
                Some(t) => self.flip_time(hours@) == Some(t@),
                None => self.flip_time(hours@) is None,
            },
    {
        if self.flip_is_ahead() {
            Some(hours.to_owned())
        } else {
            None
        }
    }

    /// The names of all properties of the mount, each once.
    pub fn list_properties(&self) -> (r: Vec<String>)
        requires
            self.wf(),
        ensures
            texts(r@).no_duplicates(),
            texts(r@).to_set() == if self.state@.dom().contains(self.device_name@) {
                self.state@[self.device_name@].dom()
            } else {
                Set::empty()
            },
    {
        match self.state.devices.get(self.device_name.as_str()) {
            Some(m) => {
                let r = m.keys();
                assert(self.state@[self.device_name@].dom() =~= m@.dom());
                r
            },
            None => {
                let r: Vec<String> = Vec::new();
                assert(texts(r@) =~= Seq::<Seq<char>>::empty());
                assert(texts(r@).to_set() =~= Set::<Seq<char>>::empty());
                r
            },
        }
    }

    /// Whether the driver has reported the mount as connected.
    pub fn is_connected(&self) -> (r: bool)
        requires
            self.wf(),
        ensures
            r == switched_on(self.property("CONNECTION"@), "CONNECT"@),
    {
        self.on("CONNECTION", "CONNECT")
    }
}

// ---------------------------------------------------------------------------
// Commands
// ---------------------------------------------------------------------------

/// The switches that unpark the mount.
pub open spec fn unparked(device: Seq<char>) -> Seq<char> {
    switch_vector(device, "TELESCOPE_PARK"@, seq![("PARK"@, false), ("UNPARK"@, true)])
}

/// The switches that make new coordinates a target, or else the position that
/// the mount is at.
pub open spec fn coordinate_mode(device: Seq<char>, sync: bool) -> Seq<char> {
    switch_vector(
        device,
        "ON_COORD_SET"@,
        seq![("TRACK"@, !sync), ("SLEW"@, false), ("SYNC"@, sync)],
    )
}

/// The command that sends coordinates.
pub open spec fn coordinates_sent(device: Seq<char>, ra: Seq<char>, dec: Seq<char>) -> Seq<char> {
    number_vector(device, "EQUATORIAL_EOD_COORD"@, seq![("RA"@, ra), ("DEC"@, dec)])
}

/// The steps of a slew.
pub open spec fn goto_steps(device: Seq<char>, ra: Seq<char>, dec: Seq<char>) -> Seq<StepView> {
    seq![
        StepView::Send(unparked(device)),
        StepView::Wait(250),
        StepView::Send(tracking_on(device)),
        StepView::Send(coordinate_mode(device, false)),
        StepView::Send(coordinates_sent(device, ra, dec)),
        StepView::WatchSlew,
    ]
}

/// The steps that tell the mount where it points.
pub open spec fn sync_steps(device: Seq<char>, ra: Seq<char>, dec: Seq<char>) -> Seq<StepView> {
    seq![
        StepView::Send(coordinate_mode(device, true)),
        StepView::Send(coordinates_sent(device, ra, dec)),
        StepView::Wait(300),
        StepView::Send(coordinate_mode(device, false)),
    ]
}

/// The switches that ask for a side of the pier.
pub open spec fn pier_requested(device: Seq<char>, side: PierSide) -> Seq<char> {
    match side {
        PierSide::East => switch_vector(
            device,
            "TELESCOPE_PIER_SIDE"@,
            seq![("PIER_EAST"@, true), ("PIER_WEST"@, false)],
        ),
        _ => switch_vector(
            device,
            "TELESCOPE_PIER_SIDE"@,
            seq![("PIER_WEST"@, true), ("PIER_EAST"@, false)],
        ),
    }
}

/// The other side of the pier.
pub open spec fn opposite(side: PierSide) -> PierSide {
    match side {
        PierSide::West => PierSide::East,
        PierSide::East => PierSide::West,
        PierSide::Unknown => PierSide::Unknown,
    }
}

/// The steps of a slew that ends on a side of the pier, or on any where the
/// side is unknown.
pub open spec fn goto_on_side(
    device: Seq<char>,
    side: PierSide,
    ra: Seq<char>,
    dec: Seq<char>,
) -> Seq<StepView> {
    let request = if side is Unknown {
        seq![StepView::Wait(500)]
    } else {
        seq![StepView::Send(pier_requested(device, side)), StepView::Wait(500)]
    };
    request + goto_steps(device, ra, dec)
}

/// The labels of the slew rates.
pub open spec fn rate_label(i: int) -> Seq<char> {
    if i == 0 {
        "1x"@
    } else if i == 1 {
        "2x"@
    } else if i == 2 {
        "3x"@
    } else if i == 3 {
        "4x"@
    } else if i == 4 {
        "5x"@
    } else if i == 5 {
        "6x"@
    } else if i == 6 {
        "7x"@
    } else if i == 7 {
        "8x"@
    } else {
        "9x"@
    }
}

/// The switches of the slew rates: one is on.
pub open spec fn rate_switches(rate: int) -> Seq<(Seq<char>, bool)> {
    let chosen = if rate < 8 {
        rate
    } else {
        8
    };
    Seq::new(9, |i: int| (rate_label(i), i == chosen))
}

/// The switches of a motion in a direction.
pub open spec fn motion_command(device: Seq<char>, direction: Seq<char>, start: bool) -> Option<
    Seq<char>,
> {
    if direction == "north"@ {
        Some(
            switch_vector(
                device,
                "TELESCOPE_MOTION_NS"@,
                seq![("MOTION_NORTH"@, start), ("MOTION_SOUTH"@, false)],
            ),
        )
    } else if direction == "south"@ {
        Some(
            switch_vector(
                device,
                "TELESCOPE_MOTION_NS"@,
                seq![("MOTION_NORTH"@, false), ("MOTION_SOUTH"@, start)],
            ),
        )
    } else if direction == "east"@ {
        Some(
            switch_vector(
                device,
                "TELESCOPE_MOTION_WE"@,
                seq![("MOTION_WEST"@, false), ("MOTION_EAST"@, start)],
            ),
        )
    } else if direction == "west"@ {
        Some(
            switch_vector(
                device,
                "TELESCOPE_MOTION_WE"@,
                seq![("MOTION_WEST"@, start), ("MOTION_EAST"@, false)],
            ),
        )
    } else {
        None
    }
}

fn rate_name(i: usize) -> (r: &'static str)
    ensures
        r@ == rate_label(i as int),
{
    if i == 0 {
        "1x"
    } else if i == 1 {
        "2x"
    } else if i == 2 {
        "3x"
    } else if i == 3 {
        "4x"
    } else if i == 4 {
        "5x"
    } else if i == 5 {
        "6x"
    } else if i == 6 {
        "7x"
    } else if i == 7 {
        "8x"
    } else {
        "9x"
    }
}

impl IndiClient {
    fn pair(&self, property: &str, a: &str, a_on: bool, b: &str, b_on: bool) -> (r: String)
        ensures
            r@ == switch_vector(self.device_name@, property@, seq![(a@, a_on), (b@, b_on)]),
    {
        two_switches(
            self.device_name.as_str(),
            property,
            Switch { name: a, on: a_on },
            Switch { name: b, on: b_on },
        )
    }

    /// The command that connects the driver to the mount.
    pub fn connect(&self) -> (r: String)
        ensures
            r@ == switch_vector(
                self.device_name@,
                "CONNECTION"@,
                seq![("CONNECT"@, true), ("DISCONNECT"@, false)],
            ),
    {
        self.pair("CONNECTION", "CONNECT", true, "DISCONNECT", false)
    }

    /// The command that disconnects the driver from the mount.
    pub fn disconnect(&self) -> (r: String)
        ensures
            r@ == switch_vector(
                self.device_name@,
                "CONNECTION"@,
                seq![("CONNECT"@, false), ("DISCONNECT"@, true)],
            ),
    {
        self.pair("CONNECTION", "CONNECT", false, "DISCONNECT", true)
    }

    /// The command that parks the mount.
    pub fn park(&self) -> (r: String)
        ensures
            r@ == switch_vector(
                self.device_name@,
                "TELESCOPE_PARK"@,
                seq![("PARK"@, true), ("UNPARK"@, false)],
            ),
    {
        self.pair("TELESCOPE_PARK", "PARK", true, "UNPARK", false)
    }

    /// The command that unparks the mount.
    pub fn unpark(&self) -> (r: String)
        ensures
            r@ == unparked(self.device_name@),
            r@ == switch_vector(
                self.device_name@,
                "TELESCOPE_PARK"@,
                seq![("PARK"@, false), ("UNPARK"@, true)],
            ),
    {
        self.pair("TELESCOPE_PARK", "PARK", false, "UNPARK", true)
    }

    fn mode(&self, sync: bool) -> (r: String)
        ensures
            r@ == coordinate_mode(self.device_name@, sync),
    {
        three_switches(
            self.device_name.as_str(),
            "ON_COORD_SET",
            Switch { name: "TRACK", on: !sync },
            Switch { name: "SLEW", on: false },
            Switch { name: "SYNC", on: sync },
        )
    }

    fn send_coordinates(&self, ra: &str, dec: &str) -> (r: String)
        ensures
            r@ == coordinates_sent(self.device_name@, ra@, dec@),
    {
        let mut v: Vec<Number> = Vec::new();
        v.push(Number { name: "RA", value: ra });
        v.push(Number { name: "DEC", value: dec });
        assert(number_views(v@) =~= seq![("RA"@, ra@), ("DEC"@, dec@)]);
        number_command(self.device_name.as_str(), "EQUATORIAL_EOD_COORD", v.as_slice())
    }

    /// The command that stops all motion.
    pub fn abort_motion(&self) -> (r: String)
        ensures
            r@ == switch_vector(
                self.device_name@,
                "TELESCOPE_ABORT_MOTION"@,
                seq![("ABORT"@, true)],
            ),
    {
        let mut v: Vec<Switch> = Vec::new();
        v.push(Switch { name: "ABORT", on: true });
        assert(switch_views(v@) =~= seq![("ABORT"@, true)]);
        switch_command(self.device_name.as_str(), "TELESCOPE_ABORT_MOTION", v.as_slice())
    }

    /// The command that starts or stops a motion to the "north", "south",
    /// "east" or "west".
    pub fn manual_move(&self, direction: &str, start: bool) -> (r: Result<String, IndiError>)
        ensures
            match r {
                Ok(command) => motion_command(self.device_name@, direction@, start) == Some(
                    command@,
                ),
                Err(e) => {
                    &&& motion_command(self.device_name@, direction@, start) is None
                    &&& e is Command
                    &&& e->Command_0@ == "Unknown direction: "@ + direction@
                },
            },
            r is Ok <==> direction@ == "north"@ || direction@ == "south"@ || direction@ == "east"@
                || direction@ == "west"@,
            direction@ == "north"@ ==> r->Ok_0@ == switch_vector(
                self.device_name@,
                "TELESCOPE_MOTION_NS"@,
                seq![("MOTION_NORTH"@, start), ("MOTION_SOUTH"@, false)],
            ),
            direction@ == "south"@ ==> r->Ok_0@ == switch_vector(
                self.device_name@,
                "TELESCOPE_MOTION_NS"@,
                seq![("MOTION_NORTH"@, false), ("MOTION_SOUTH"@, start)],
            ),
            direction@ == "east"@ ==> r->Ok_0@ == switch_vector(
                self.device_name@,
                "TELESCOPE_MOTION_WE"@,
                seq![("MOTION_WEST"@, false), ("MOTION_EAST"@, start)],
            ),
            direction@ == "west"@ ==> r->Ok_0@ == switch_vector(
                self.device_name@,
                "TELESCOPE_MOTION_WE"@,
                seq![("MOTION_WEST"@, start), ("MOTION_EAST"@, false)],
            ),
    {
        proof {
            lemma_directions_differ();
        }
        if same_text(direction, "north") {
            Ok(self.pair("TELESCOPE_MOTION_NS", "MOTION_NORTH", start, "MOTION_SOUTH", false))
        } else if same_text(direction, "south") {
            Ok(self.pair("TELESCOPE_MOTION_NS", "MOTION_NORTH", false, "MOTION_SOUTH", start))
        } else if same_text(direction, "east") {
            Ok(self.pair("TELESCOPE_MOTION_WE", "MOTION_WEST", false, "MOTION_EAST", start))
        } else if same_text(direction, "west") {
            Ok(self.pair("TELESCOPE_MOTION_WE", "MOTION_WEST", start, "MOTION_EAST", false))
        } else {
            Err(IndiError::Command(concat2("Unknown direction: ", direction)))
        }
    }

    /// The command that sets the rate of manual motion: 0 for the slowest to
    /// 8, and all above, for the fastest.
    pub fn set_slew_rate(&self, rate_index: u8) -> (r: String)
        ensures
            r@ == switch_vector(
                self.device_name@,
                "TELESCOPE_SLEW_RATE"@,
                rate_switches(rate_index as int),
            ),
    {
        let chosen: usize = if rate_index < 8 {
            rate_index as usize
        } else {
            8
        };
        let mut v: Vec<Switch> = Vec::new();
        for i in 0..9usize
            invariant
                v@.len() == i,
                forall|k: int|
                    0 <= k < i ==> (#[trigger] v@[k]).name@ == rate_label(k) && v@[k].on == (k
                        == chosen),
        {
            v.push(Switch { name: rate_name(i), on: i == chosen });
        }
        assert(switch_views(v@) =~= rate_switches(rate_index as int));
        switch_command(self.device_name.as_str(), "TELESCOPE_SLEW_RATE", v.as_slice())
    }

    /// The command that sets the clock of the mount.
    pub fn set_time(&self, utc_datetime: &str) -> (r: String)
        ensures
            r@ == time_vector(self.device_name@, utc_datetime@),
    {
        time_command(self.device_name.as_str(), utc_datetime)
    }

    /// The command that tells the mount where it stands: degrees north,
    /// degrees east, and meters above the sea.
    pub fn set_location(&self, latitude: &str, longitude: &str, elevation: &str) -> (r: String)
        requires
            from_to(latitude@, 90, 90),
            from_to(longitude@, 180, 180),
            from_to(elevation@, 500, 9000),
        ensures
            r@ == number_vector(
                self.device_name@,
                "GEOGRAPHIC_COORD"@,
                seq![("LAT"@, latitude@), ("LONG"@, longitude@), ("ELEV"@, elevation@)],
            ),
    {
        let mut v: Vec<Number> = Vec::new();
        v.push(Number { name: "LAT", value: latitude });
        v.push(Number { name: "LONG", value: longitude });
        v.push(Number { name: "ELEV", value: elevation });
        assert(number_views(v@) =~= seq![
            ("LAT"@, latitude@),
            ("LONG"@, longitude@),
            ("ELEV"@, elevation@),
        ]);
        number_command(self.device_name.as_str(), "GEOGRAPHIC_COORD", v.as_slice())
    }

    /// The steps that tell the mount where and when it is.
    pub fn init_date_pos(&self, latitude: &str, longitude: &str, elevation: &str, utc: &str) -> (r:
        Vec<MountStep>)
        requires
            from_to(latitude@, 90, 90),
            from_to(longitude@, 180, 180),
            from_to(elevation@, 500, 9000),
        ensures
            step_views(r@) == seq![
                StepView::Wait(1000),
                StepView::Send(
                    number_vector(
                        self.device_name@,
                        "GEOGRAPHIC_COORD"@,
                        seq![("LAT"@, latitude@), ("LONG"@, longitude@), ("ELEV"@, elevation@)],
                    ),
                ),
                StepView::Send(time_vector(self.device_name@, utc@)),
            ],
    {
        let steps = pushed(no_steps(), MountStep::Wait(1000));
        let steps = pushed(steps, MountStep::Send(self.set_location(latitude, longitude, elevation)));
        pushed(steps, MountStep::Send(self.set_time(utc)))
    }

    /// The steps that enable a mount that has just been connected.
    pub fn enable_steps(&self) -> (r: Vec<MountStep>)
        ensures
            step_views(r@) == seq![
                StepView::Send(unparked(self.device_name@)),
                StepView::Wait(500),
                StepView::Send(tracking_on(self.device_name@)),
            ],
    {
        let steps = pushed(no_steps(), MountStep::Send(self.unpark()));
        let steps = pushed(steps, MountStep::Wait(500));
        pushed(steps, MountStep::Send(track_command(self.device_name.as_str())))
    }

    fn add_goto(&self, steps: Vec<MountStep>, ra: &str, dec: &str) -> (r: Vec<MountStep>)
        ensures
            step_views(r@) == step_views(steps@) + goto_steps(self.device_name@, ra@, dec@),
    {
        let ghost before = step_views(steps@);
        let steps = pushed(steps, MountStep::Send(self.unpark()));
        let steps = pushed(steps, MountStep::Wait(250));
        let steps = pushed(steps, MountStep::Send(track_command(self.device_name.as_str())));
        let steps = pushed(steps, MountStep::Send(self.mode(false)));
        let steps = pushed(steps, MountStep::Send(self.send_coordinates(ra, dec)));
        let steps = pushed(steps, MountStep::WatchSlew);
        assert(step_views(steps@) =~= before + goto_steps(self.device_name@, ra@, dec@));
        steps
    }

    /// The steps of a slew to a right ascension in hours and a declination in
    /// degrees.
    pub fn goto(&self, ra: &str, dec: &str) -> (r: Vec<MountStep>)
        requires
            from_zero_to(ra@, 24),
            from_to(dec@, 90, 90),
        ensures
            step_views(r@) == goto_steps(self.device_name@, ra@, dec@),
            step_views(r@) == seq![
                StepView::Send(
                    switch_vector(
                        self.device_name@,
                        "TELESCOPE_PARK"@,
                        seq![("PARK"@, false), ("UNPARK"@, true)],
                    ),
                ),
                StepView::Wait(250),
                StepView::Send(
                    switch_vector(
                        self.device_name@,
                        "TELESCOPE_TRACK_STATE"@,
                        seq![("TRACK_ON"@, true), ("TRACK_OFF"@, false)],
                    ),
                ),
                StepView::Send(
                    switch_vector(
                        self.device_name@,
                        "ON_COORD_SET"@,
                        seq![("TRACK"@, true), ("SLEW"@, false), ("SYNC"@, false)],
                    ),
                ),
                StepView::Send(
                    number_vector(
                        self.device_name@,
                        "EQUATORIAL_EOD_COORD"@,
                        seq![("RA"@, ra@), ("DEC"@, dec@)],
                    ),
                ),
                StepView::WatchSlew,
            ],
    {
        let r = self.add_goto(no_steps(), ra, dec);
        assert(step_views(r@) =~= goto_steps(self.device_name@, ra@, dec@));
        r
    }

    /// The steps that tell the mount that it points at these coordinates.
    pub fn sync(&self, ra: &str, dec: &str) -> (r: Vec<MountStep>)
        requires
            from_zero_to(ra@, 24),
            from_to(dec@, 90, 90),
        ensures
            step_views(r@) == sync_steps(self.device_name@, ra@, dec@),
            step_views(r@) == seq![
                StepView::Send(
                    switch_vector(
                        self.device_name@,
                        "ON_COORD_SET"@,
                        seq![("TRACK"@, false), ("SLEW"@, false), ("SYNC"@, true)],
                    ),
                ),
                StepView::Send(
                    number_vector(
                        self.device_name@,
                        "EQUATORIAL_EOD_COORD"@,
                        seq![("RA"@, ra@), ("DEC"@, dec@)],
                    ),
                ),
                StepView::Wait(300),
                StepView::Send(
                    switch_vector(
                        self.device_name@,
                        "ON_COORD_SET"@,
                        seq![("TRACK"@, true), ("SLEW"@, false), ("SYNC"@, false)],
                    ),
                ),
            ],
    {
        let steps = pushed(no_steps(), MountStep::Send(self.mode(true)));
        let steps = pushed(steps, MountStep::Send(self.send_coordinates(ra, dec)));
        let steps = pushed(steps, MountStep::Wait(300));
        pushed(steps, MountStep::Send(self.mode(false)))
    }

    fn side_steps(&self, side: PierSide, ra: &str, dec: &str) -> (r: Vec<MountStep>)
        ensures
            step_views(r@) == goto_on_side(self.device_name@, side, ra@, dec@),
    {
        let steps = match side {
            PierSide::East => pushed(
                no_steps(),
                MountStep::Send(
                    self.pair("TELESCOPE_PIER_SIDE", "PIER_EAST", true, "PIER_WEST", false),
                ),
            ),
            PierSide::West => pushed(
                no_steps(),
                MountStep::Send(
                    self.pair("TELESCOPE_PIER_SIDE", "PIER_WEST", true, "PIER_EAST", false),
                ),
            ),
            PierSide::Unknown => no_steps(),
        };
        let steps = pushed(steps, MountStep::Wait(500));
        let ghost request = if side is Unknown {
            seq![StepView::Wait(500)]
        } else {
            seq![StepView::Send(pier_requested(self.device_name@, side)), StepView::Wait(500)]
        };
        assert(step_views(steps@) =~= request);
        self.add_goto(steps, ra, dec)
    }

    /// The steps of a meridian flip: the slew to the target shall end on the
    /// other side of the pier.
    pub fn execute_meridian_flip(&self, ra: &str, dec: &str) -> (r: Vec<MountStep>)
        requires
            self.wf(),
            from_zero_to(ra@, 24),
            from_to(dec@, 90, 90),
        ensures
            step_views(r@) == goto_on_side(self.device_name@, opposite(self.pier()), ra@, dec@),
    {
        let side = match self.get_pier_side() {
            PierSide::West => PierSide::East,
            PierSide::East => PierSide::West,
            PierSide::Unknown => PierSide::Unknown,
        };
        self.side_steps(side, ra, dec)
    }

    /// The steps of a slew that stays on its side of the pier.
    pub fn goto_preserve_pier_side(&self, ra: &str, dec: &str) -> (r: Vec<MountStep>)
        requires
            self.wf(),
            from_zero_to(ra@, 24),
            from_to(dec@, 90, 90),
        ensures
            step_views(r@) == goto_on_side(self.device_name@, self.pier(), ra@, dec@),
    {
        let side = self.get_pier_side();
        self.side_steps(side, ra, dec)
    }
}

/// The warning behind a meridian flip that left the telescope on its side.
pub open spec fn flip_warning(before: PierSide, after: PierSide) -> Option<Seq<char>> {
    if !(before is Unknown) && after == before {
        Some(
            "WARNING: Pier side did not change after meridian flip. The mount may not support forced pier side changes."@,
        )
    } else {
        None
    }
}

/// The warning behind a meridian flip that left the telescope on its side.
pub fn flip_warning_text(before: PierSide, after: PierSide) -> (r: Option<String>)
    ensures
        match r {
            Some(s) => flip_warning(before, after) == Some(s@),
            None => flip_warning(before, after) is None,
        },
{
    if !matches!(before, PierSide::Unknown) && after == before {
        Some(
            "WARNING: Pier side did not change after meridian flip. The mount may not support forced pier side changes.".to_owned(),
        )
    } else {
        None
    }
}

// ---------------------------------------------------------------------------
// Laws
// ---------------------------------------------------------------------------

/// The four directions are four words.
proof fn lemma_directions_differ()
    ensures
        "north"@ != "south"@,
        "north"@ != "east"@,
        "north"@ != "west"@,
        "south"@ != "east"@,
        "south"@ != "west"@,
        "east"@ != "west"@,
{
    reveal_strlit("north");
    reveal_strlit("south");
    reveal_strlit("east");
    reveal_strlit("west");
    assert("north"@[0] == 'n' && "south"@[0] == 's');
    assert("east"@[0] == 'e' && "west"@[0] == 'w');
}

/// The name of the element that moves the telescope in a direction.
pub open spec fn motion_element(direction: Seq<char>) -> Seq<char> {
    if direction == "north"@ {
        "MOTION_NORTH"@
    } else if direction == "south"@ {
        "MOTION_SOUTH"@
    } else if direction == "east"@ {
        "MOTION_EAST"@
    } else {
        "MOTION_WEST"@
    }
}

/// The line of a command that switches an element on.
pub open spec fn line_on(element: Seq<char>) -> Seq<char> {
    "  <oneSwitch name=\""@ + element + "\">On</oneSwitch>\n"@
}

/// The line of a command that switches an element off.
pub open spec fn line_off(element: Seq<char>) -> Seq<char> {
    "  <oneSwitch name=\""@ + element + "\">Off</oneSwitch>\n"@
}

proof fn lemma_two_lines(a: Seq<char>, x: bool, b: Seq<char>, y: bool)
    ensures
        switch_lines(seq![(a, x), (b, y)], 2) == (if x {
            line_on(a)
        } else {
            line_off(a)
        }) + (if y {
            line_on(b)
        } else {
            line_off(b)
        }),
{
    let v = seq![(a, x), (b, y)];
    reveal_with_fuel(switch_lines, 3);
    reveal_strlit("\">");
    reveal_strlit("On");
    reveal_strlit("Off");
    reveal_strlit("</oneSwitch>\n");
    reveal_strlit("\">On</oneSwitch>\n");
    reveal_strlit("\">Off</oneSwitch>\n");
    assert("\">"@ + "On"@ + "</oneSwitch>\n"@ =~= "\">On</oneSwitch>\n"@);
    assert("\">"@ + "Off"@ + "</oneSwitch>\n"@ =~= "\">Off</oneSwitch>\n"@);
    assert(switch_lines(v, 2) =~= (if x {
        line_on(a)
    } else {
        line_off(a)
    }) + (if y {
        line_on(b)
    } else {
        line_off(b)
    }));
}

/// The command that starts a motion sets the two switches of an axis, and
/// switches on the one that is named after the direction and not the other; the
/// command that stops it switches both off.
pub proof fn law_motion_goes_where_asked(device: Seq<char>, direction: Seq<char>)
    requires
        direction == "north"@ || direction == "south"@ || direction == "east"@ || direction
            == "west"@,
    ensures
        ({
            let vertical = direction == "north"@ || direction == "south"@;
            let head = "<newSwitchVector device=\""@ + device + "\" name=\""@ + if vertical {
                "TELESCOPE_MOTION_NS"@
            } else {
                "TELESCOPE_MOTION_WE"@
            } + "\">\n"@;
            let first = if vertical {
                "MOTION_NORTH"@
            } else {
                "MOTION_WEST"@
            };
            let second = if vertical {
                "MOTION_SOUTH"@
            } else {
                "MOTION_EAST"@
            };
            let tail = "</newSwitchVector>\n"@;
            &&& motion_command(device, direction, true) == Some(
                head + if motion_element(direction) == first {
                    line_on(first) + line_off(second)
                } else {
                    line_off(first) + line_on(second)
                } + tail,
            )
            &&& motion_element(direction) == first || motion_element(direction) == second
            &&& motion_command(device, direction, false) == Some(
                head + (line_off(first) + line_off(second)) + tail,
            )
        }),
{
    lemma_directions_differ();
    reveal_strlit("MOTION_NORTH");
    reveal_strlit("MOTION_SOUTH");
    reveal_strlit("MOTION_WEST");
    reveal_strlit("MOTION_EAST");
    assert("MOTION_NORTH"@[7] == 'N' && "MOTION_SOUTH"@[7] == 'S');
    assert("MOTION_WEST"@[7] == 'W' && "MOTION_EAST"@[7] == 'E');
    lemma_two_lines("MOTION_NORTH"@, true, "MOTION_SOUTH"@, false);
    lemma_two_lines("MOTION_NORTH"@, false, "MOTION_SOUTH"@, true);
    lemma_two_lines("MOTION_NORTH"@, false, "MOTION_SOUTH"@, false);
    lemma_two_lines("MOTION_WEST"@, true, "MOTION_EAST"@, false);
    lemma_two_lines("MOTION_WEST"@, false, "MOTION_EAST"@, true);
    lemma_two_lines("MOTION_WEST"@, false, "MOTION_EAST"@, false);
}

/// Two texts that differ in a part behind the same beginning differ.
proof fn lemma_parts_differ(
    head: Seq<char>,
    a: Seq<char>,
    b: Seq<char>,
    i: int,
    x: Seq<char>,
    y: Seq<char>,
)
    requires
        0 <= i < a.len(),
        i < b.len(),
        a[i] != b[i],
    ensures
        head + a + x != head + b + y,
{
    assert((head + a + x)[head.len() + i] == a[i]);
    assert((head + b + y)[head.len() + i] == b[i]);
}

/// The commands that start motions in two different directions differ.
pub proof fn law_directions_have_their_commands(
    device: Seq<char>,
    one: Seq<char>,
    other: Seq<char>,
)
    requires
        one != other,
        motion_command(device, one, true) is Some,
        motion_command(device, other, true) is Some,
    ensures
        motion_command(device, one, true) != motion_command(device, other, true),
{
    lemma_directions_differ();
    law_motion_goes_where_asked(device, one);
    law_motion_goes_where_asked(device, other);
    reveal_strlit("TELESCOPE_MOTION_NS");
    reveal_strlit("TELESCOPE_MOTION_WE");
    assert("TELESCOPE_MOTION_NS"@[17] == 'N' && "TELESCOPE_MOTION_WE"@[17] == 'W');
    let base = "<newSwitchVector device=\""@ + device + "\" name=\""@;
    let ns = "TELESCOPE_MOTION_NS"@;
    let we = "TELESCOPE_MOTION_WE"@;
    lemma_axis_differs(device, "TELESCOPE_MOTION_NS"@, "MOTION_NORTH"@, "MOTION_SOUTH"@);
    lemma_axis_differs(device, "TELESCOPE_MOTION_WE"@, "MOTION_WEST"@, "MOTION_EAST"@);
    let a = motion_command(device, one, true)->0;
    let b = motion_command(device, other, true)->0;
    let one_ns = one == "north"@ || one == "south"@;
    let other_ns = other == "north"@ || other == "south"@;
    if one_ns != other_ns {
        let at = base.len() as int + 17;
        assert(a[at] == if one_ns {
            ns[17]
        } else {
            we[17]
        });
        assert(b[at] == if other_ns {
            ns[17]
        } else {
            we[17]
        });
    }
}

/// The two commands of an axis differ.
proof fn lemma_axis_differs(
    device: Seq<char>,
    property: Seq<char>,
    first: Seq<char>,
    second: Seq<char>,
)
    ensures
        switch_vector(device, property, seq![(first, true), (second, false)]) != switch_vector(
            device,
            property,
            seq![(first, false), (second, true)],
        ),
{
    lemma_two_lines(first, true, second, false);
    lemma_two_lines(first, false, second, true);
    reveal_strlit("\">On</oneSwitch>\n");
    reveal_strlit("\">Off</oneSwitch>\n");
    let on = "\">On</oneSwitch>\n"@;
    let off = "\">Off</oneSwitch>\n"@;
    assert(on[3] == 'n' && off[3] == 'f');
    let open = "  <oneSwitch name=\""@;
    let tail = "</newSwitchVector>\n"@;
    let base = "<newSwitchVector device=\""@ + device + "\" name=\""@ + property + "\">\n"@;
    let head = base + open + first;
    let x = switch_vector(device, property, seq![(first, true), (second, false)]);
    let y = switch_vector(device, property, seq![(first, false), (second, true)]);
    assert(x =~= head + on + (line_off(second) + tail));
    assert(y =~= head + off + (line_on(second) + tail));
    lemma_parts_differ(head, on, off, 3, line_off(second) + tail, line_on(second) + tail);
}

/// No time until a flip is told exactly where none is to be expected, and then
/// none is due. A time that is told is below zero exactly where the flip is
/// due, given that the hour angle is beyond the limit where the time until it
/// reaches the limit is below zero.
pub proof fn law_overdue_flip_is_due(client: IndiClient, hours: Seq<char>, beyond_limit: bool)
    requires
        is_plain_decimal(hours),
        beyond_limit == is_below_zero(hours),
    ensures
        client.flip_time(hours) is None <==> !(client.pier() is West && client.coordinates()
            is Some),
        client.flip_time(hours) is None ==> !client.flip_due(beyond_limit),
        client.flip_time(hours) matches Some(t) ==> (is_below_zero(t) <==> client.flip_due(
            beyond_limit,
        )),
{
}

/// A sync leaves the mount ready for slews: its last command makes new
/// coordinates a target again, and only the one before the coordinates does
/// not.
pub proof fn law_sync_restores_tracking(device: Seq<char>, ra: Seq<char>, dec: Seq<char>)
    ensures
        sync_steps(device, ra, dec).last() == StepView::Send(coordinate_mode(device, false)),
        sync_steps(device, ra, dec)[1] == StepView::Send(coordinates_sent(device, ra, dec)),
        sync_steps(device, ra, dec)[0] == StepView::Send(coordinate_mode(device, true)),
{
}

/// A slew to a side of the pier ends with the steps of a plain slew, which
/// unpark the mount first, since a parked mount refuses to move.
pub proof fn law_slew_unparks_first(
    device: Seq<char>,
    side: PierSide,
    ra: Seq<char>,
    dec: Seq<char>,
)
    ensures
        ({
            let s = goto_on_side(device, side, ra, dec);
            let g = goto_steps(device, ra, dec);
            &&& g[0] == StepView::Send(unparked(device))
            &&& g[4] == StepView::Send(coordinates_sent(device, ra, dec))
            &&& s.len() > g.len()
            &&& s.skip(s.len() - g.len()) == g
        }),
{
    let s = goto_on_side(device, side, ra, dec);
    let g = goto_steps(device, ra, dec);
    assert(s.skip(s.len() - g.len()) =~= g);
}

/// Flipping twice asks for the side that the telescope was on.
pub proof fn law_opposite_twice(side: PierSide)
    ensures
        opposite(opposite(side)) == side,
        !(side is Unknown) ==> opposite(side) != side,
{
}

/// Of the slew rates exactly one is on, the fastest for every index from 8.
pub proof fn law_one_rate_is_on(rate: int)
    requires
        0 <= rate,
    ensures
        forall|i: int|
            0 <= i < 9 ==> ((#[trigger] rate_switches(rate)[i]).1 <==> i == if rate < 8 {
                rate
            } else {
                8
            }),
{
}

proof fn lemma_states_differ()
    ensures
        "Busy"@ != "Ok"@,
        "Busy"@ != "Idle"@,
        "Busy"@ != "Alert"@,
        "Ok"@ != "Idle"@,
        "Ok"@ != "Alert"@,
        "Idle"@ != "Alert"@,
{
    reveal_strlit("Busy");
    reveal_strlit("Ok");
    reveal_strlit("Idle");
    reveal_strlit("Alert");
    assert("Busy"@[0] == 'B' && "Idle"@[0] == 'I');
    assert("Ok"@[0] == 'O' && "Alert"@[0] == 'A');
}

proof fn lemma_statuses_differ()
    ensures
        "PARKED"@ != "SLEWING"@,
        "PARKED"@ != "TRACKING"@,
        "PARKED"@ != "IDLE"@,
        "PARKED"@ != "ERROR"@,
        "PARKED"@ != "UNKNOWN"@,
        "SLEWING"@ != "TRACKING"@,
        "SLEWING"@ != "IDLE"@,
        "SLEWING"@ != "ERROR"@,
        "SLEWING"@ != "UNKNOWN"@,
        "TRACKING"@ != "IDLE"@,
        "TRACKING"@ != "ERROR"@,
        "TRACKING"@ != "UNKNOWN"@,
        "IDLE"@ != "ERROR"@,
        "IDLE"@ != "UNKNOWN"@,
        "ERROR"@ != "UNKNOWN"@,
{
    reveal_strlit("PARKED");
    reveal_strlit("SLEWING");
    reveal_strlit("TRACKING");
    reveal_strlit("IDLE");
    reveal_strlit("ERROR");
    reveal_strlit("UNKNOWN");
    assert("PARKED"@[0] == 'P' && "SLEWING"@[0] == 'S' && "TRACKING"@[0] == 'T');
    assert("IDLE"@[0] == 'I' && "ERROR"@[0] == 'E' && "UNKNOWN"@[0] == 'U');
}

/// A mount whose switch "PARK" is on is parked. Any other slews where its
/// coordinates are busy, tracks where they are ok, rests where they are idle and
/// has an error where they are on alert; else its status is unknown.
pub proof fn law_status_of_a_mount(
    park: Option<PropertyView>,
    coordinates: Option<PropertyView>,
)
    ensures
        ({
            let parked = park matches Some(p) && p.elements.dom().contains("PARK"@)
                && p.elements["PARK"@] == "On"@;
            let status = status_of(park, coordinates);
            &&& status == "PARKED"@ <==> parked
            &&& status == "SLEWING"@ <==> !parked && coordinates is Some && coordinates->0.state
                == "Busy"@
            &&& status == "TRACKING"@ <==> !parked && coordinates is Some && coordinates->0.state
                == "Ok"@
            &&& status == "IDLE"@ <==> !parked && coordinates is Some && coordinates->0.state
                == "Idle"@
            &&& status == "ERROR"@ <==> !parked && coordinates is Some && coordinates->0.state
                == "Alert"@
            &&& !parked && coordinates is None ==> status == "UNKNOWN"@
        }),
{
    lemma_states_differ();
    lemma_statuses_differ();
}

/// The telescope is on the west side where the switch "PIER_WEST" is on, else on
/// the east side where "PIER_EAST" is; else the side is unknown.
pub proof fn law_side_is_told(p: PropertyView)
    ensures
        ({
            let west = p.elements.dom().contains("PIER_WEST"@) && p.elements["PIER_WEST"@]
                == "On"@;
            let east = p.elements.dom().contains("PIER_EAST"@) && p.elements["PIER_EAST"@]
                == "On"@;
            &&& pier_of(Some(p)) is West <==> west
            &&& pier_of(Some(p)) is East <==> east && !west
            &&& pier_of(None) is Unknown
        }),
{
}

/// A coordinate is the number that the mount has told, and zero where it has
/// told none.
pub proof fn law_coordinates_are_told(p: PropertyView, element: Seq<char>)
    ensures
        p.elements.dom().contains(element) && is_real(p.elements[element]) ==> coordinate(
            Some(p),
            element,
        ) == p.elements[element],
        !p.elements.dom().contains(element) || !is_real(p.elements[element]) ==> coordinate(
            Some(p),
            element,
        ) == "0"@,
        coordinate(None, element) == "0"@,
{
}

/// The command that sends coordinates, letter by letter: the right ascension
/// stands under RA and the declination under DEC.
pub proof fn law_coordinates_are_sent(device: Seq<char>, ra: Seq<char>, dec: Seq<char>)
    ensures
        coordinates_sent(device, ra, dec) == "<newNumberVector device=\""@ + device
            + "\" name=\"EQUATORIAL_EOD_COORD\">\n  <oneNumber name=\"RA\">"@ + ra
            + "</oneNumber>\n  <oneNumber name=\"DEC\">"@ + dec
            + "</oneNumber>\n</newNumberVector>\n"@,
{
    let v = seq![("RA"@, ra), ("DEC"@, dec)];
    reveal_with_fuel(crate::indi::command::number_lines, 3);
    reveal_strlit("\" name=\"");
    reveal_strlit("EQUATORIAL_EOD_COORD");
    reveal_strlit("\">\n");
    reveal_strlit("  <oneNumber name=\"");
    reveal_strlit("RA");
    reveal_strlit("DEC");
    reveal_strlit("\">");
    reveal_strlit("</oneNumber>\n");
    reveal_strlit("</newNumberVector>\n");
    reveal_strlit("\" name=\"EQUATORIAL_EOD_COORD\">\n  <oneNumber name=\"RA\">");
    reveal_strlit("</oneNumber>\n  <oneNumber name=\"DEC\">");
    reveal_strlit("</oneNumber>\n</newNumberVector>\n");
    assert("\" name=\""@ + "EQUATORIAL_EOD_COORD"@ + "\">\n"@ + "  <oneNumber name=\""@ + "RA"@
        + "\">"@ =~= "\" name=\"EQUATORIAL_EOD_COORD\">\n  <oneNumber name=\"RA\">"@);
    assert("</oneNumber>\n"@ + "  <oneNumber name=\""@ + "DEC"@ + "\">"@
        =~= "</oneNumber>\n  <oneNumber name=\"DEC\">"@);
    assert("</oneNumber>\n"@ + "</newNumberVector>\n"@ =~= "</oneNumber>\n</newNumberVector>\n"@);
    assert(coordinates_sent(device, ra, dec) =~= "<newNumberVector device=\""@ + device + (
    "\" name=\""@ + "EQUATORIAL_EOD_COORD"@ + "\">\n"@ + "  <oneNumber name=\""@ + "RA"@ + "\">"@)
        + ra + ("</oneNumber>\n"@ + "  <oneNumber name=\""@ + "DEC"@ + "\">"@) + dec + (
    "</oneNumber>\n"@ + "</newNumberVector>\n"@));
}

/// Before a slew the switch "TRACK" is on, before a sync the switch "SYNC", and
/// no other switch is.
pub proof fn law_one_mode_is_on(device: Seq<char>)
    ensures
        ({
            let head = "<newSwitchVector device=\""@ + device + "\" name=\""@ + "ON_COORD_SET"@
                + "\">\n"@;
            let tail = "</newSwitchVector>\n"@;
            &&& coordinate_mode(device, false) == head + (line_on("TRACK"@) + line_off("SLEW"@)
                + line_off("SYNC"@)) + tail
            &&& coordinate_mode(device, true) == head + (line_off("TRACK"@) + line_off("SLEW"@)
                + line_on("SYNC"@)) + tail
        }),
{
    lemma_two_lines("TRACK"@, true, "SLEW"@, false);
    lemma_two_lines("TRACK"@, false, "SLEW"@, false);
    let plain = seq![("TRACK"@, true), ("SLEW"@, false)];
    let sync = seq![("TRACK"@, false), ("SLEW"@, false)];
    crate::indi::command::law_switches_have_their_lines(device, "ON_COORD_SET"@, plain, "SYNC"@);
    crate::indi::command::law_switches_have_their_lines(device, "ON_COORD_SET"@, sync, "SYNC"@);
    assert(plain.push(("SYNC"@, false)) =~= seq![
        ("TRACK"@, true),
        ("SLEW"@, false),
        ("SYNC"@, false),
    ]);
    assert(sync.push(("SYNC"@, true)) =~= seq![
        ("TRACK"@, false),
        ("SLEW"@, false),
        ("SYNC"@, true),
    ]);
    assert(line_on("TRACK"@) + line_off("SLEW"@) + "  <oneSwitch name=\""@ + "SYNC"@
        + "\">Off</oneSwitch>\n"@ =~= line_on("TRACK"@) + line_off("SLEW"@) + line_off("SYNC"@));
    assert(line_off("TRACK"@) + line_off("SLEW"@) + "  <oneSwitch name=\""@ + "SYNC"@
        + "\">On</oneSwitch>\n"@ =~= line_off("TRACK"@) + line_off("SLEW"@) + line_on("SYNC"@));
}

/// Unparking switches "UNPARK" on and "PARK" off; tracking is switched on and
/// not off.
pub proof fn law_mount_is_made_ready(device: Seq<char>)
    ensures
        unparked(device) == "<newSwitchVector device=\""@ + device + "\" name=\""@
            + "TELESCOPE_PARK"@ + "\">\n"@ + (line_off("PARK"@) + line_on("UNPARK"@))
            + "</newSwitchVector>\n"@,
        tracking_on(device) == "<newSwitchVector device=\""@ + device + "\" name=\""@
            + "TELESCOPE_TRACK_STATE"@ + "\">\n"@ + (line_on("TRACK_ON"@) + line_off(
            "TRACK_OFF"@,
        )) + "</newSwitchVector>\n"@,
{
    lemma_two_lines("PARK"@, false, "UNPARK"@, true);
    lemma_two_lines("TRACK_ON"@, true, "TRACK_OFF"@, false);
}

/// A slew to a known side of the pier first switches that side on and the other
/// off, and then goes to the target. The side that a flip asks for is not the
/// one that the telescope is on.
pub proof fn law_side_is_asked_for(
    device: Seq<char>,
    side: PierSide,
    ra: Seq<char>,
    dec: Seq<char>,
)
    ensures
        ({
            let head = "<newSwitchVector device=\""@ + device + "\" name=\""@
                + "TELESCOPE_PIER_SIDE"@ + "\">\n"@;
            let tail = "</newSwitchVector>\n"@;
            let east = StepView::Send(
                head + (line_on("PIER_EAST"@) + line_off("PIER_WEST"@)) + tail,
            );
            let west = StepView::Send(
                head + (line_on("PIER_WEST"@) + line_off("PIER_EAST"@)) + tail,
            );
            let steps = goto_on_side(device, side, ra, dec);
            let flip = goto_on_side(device, opposite(side), ra, dec);
            &&& side is East ==> steps[0] == east && flip[0] == west
            &&& side is West ==> steps[0] == west && flip[0] == east
            &&& !(side is Unknown) ==> steps.len() == 8 && steps[1] == StepView::Wait(500)
            &&& side is Unknown ==> steps.len() == 7 && steps[0] == StepView::Wait(500)
            &&& steps[steps.len() - 2] == StepView::Send(coordinates_sent(device, ra, dec))
            &&& steps.last() == StepView::WatchSlew
        }),
{
    lemma_two_lines("PIER_EAST"@, true, "PIER_WEST"@, false);
    lemma_two_lines("PIER_WEST"@, true, "PIER_EAST"@, false);
}

/// The rate of index `i` is named after the number `i + 1`.
pub proof fn law_rates_are_numbered(i: nat)
    requires
        i < 9,
    ensures
        rate_label(i as int) == seq![(0x31 + i) as char, 'x'],
        rate_switches(i as int)[i as int] == (seq![(0x31 + i) as char, 'x'], true),
{
    reveal_strlit("1x");
    reveal_strlit("2x");
    reveal_strlit("3x");
    reveal_strlit("4x");
    reveal_strlit("5x");
    reveal_strlit("6x");
    reveal_strlit("7x");
    reveal_strlit("8x");
    reveal_strlit("9x");
    assert(rate_label(i as int) =~= seq![(0x31 + i) as char, 'x']);
}

/// A flip is warned about where the telescope was on a side and still is, and
/// nowhere else.
pub proof fn law_flip_that_changed_nothing_is_told(before: PierSide, after: PierSide)
    ensures
        flip_warning(before, after) is Some <==> (before is West && after is West) || (before
            is East && after is East),
{
}

/// Only a telescope on the west side, whose coordinates are known, and whose
/// hour angle is beyond the limit is due to flip.
pub proof fn law_flip_is_due(client: IndiClient, beyond_limit: bool)
    ensures
        client.flip_due(beyond_limit) <==> client.pier() is West && client.coordinates() is Some
            && beyond_limit,
{
}

/// A slew gives the mount a quarter of a second to unpark, turns tracking on and
/// makes new coordinates a target before it sends them, and is watched at its
/// end. A sync rests three tenths of a second between the coordinates and the
/// mode that follows, and is not watched.
pub proof fn law_rests_of_slew_and_sync(device: Seq<char>, ra: Seq<char>, dec: Seq<char>)
    ensures
        ({
            let g = goto_steps(device, ra, dec);
            let s = sync_steps(device, ra, dec);
            &&& g.len() == 6
            &&& g[1] == StepView::Wait(250)
            &&& g[2] == StepView::Send(tracking_on(device))
            &&& g[3] == StepView::Send(coordinate_mode(device, false))
            &&& g[5] == StepView::WatchSlew
            &&& s.len() == 4
            &&& s[2] == StepView::Wait(300)
        }),
{
}

} // verus!
