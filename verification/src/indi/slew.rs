//! Watching the mount: the progress of a slew, of a connection, and the
//! arrival of properties.

use crate::indi::client::{switched_on, IndiClient};
use crate::indi::error::IndiError;
use crate::indi::state::PropertyView;
use crate::number::{decimal, decimal_text};
use crate::text::{concat2, concat3, contains, lowercase_of, same_text, text_has};
use vstd::prelude::*;

verus! {

/// What the coordinates of the mount say of its motion.
#[derive(Debug, Clone, Copy, PartialEq, Eq, Structural)]
pub enum Motion {
    Slewing,
    Tracking,
    Unknown,
}

/// The motion that a property tells.
pub open spec fn motion_of(p: Option<PropertyView>) -> Motion {
    match p {
        Some(p) => if p.state == "Busy"@ {
            Motion::Slewing
        } else if p.state == "Ok"@ {
            Motion::Tracking
        } else {
            Motion::Unknown
        },
        None => Motion::Unknown,
    }
}

impl Motion {
    pub open spec fn label(self) -> Seq<char> {
        match self {
            Motion::Slewing => " SLEWING"@,
            Motion::Tracking => " TRACKING"@,
            Motion::Unknown => "UNKNOWN"@,
        }
    }

    /// The word for the motion in progress messages.
    pub fn name(&self) -> (r: &'static str)
        ensures
            r@ == self.label(),
    {
        match self {
            Motion::Slewing => " SLEWING",
            Motion::Tracking => " TRACKING",
            Motion::Unknown => "UNKNOWN",
        }
    }
}

impl IndiClient {
    /// How the mount moves.
    pub fn motion(&self) -> (r: Motion)
        requires
            self.wf(),
        ensures
            r == motion_of(self.coordinates()),
    {
        match self.state.property(self.device_name.as_str(), "EQUATORIAL_EOD_COORD") {
            Some(p) => if same_text(p.state.as_str(), "Busy") {
                Motion::Slewing
            } else if same_text(p.state.as_str(), "Ok") {
                Motion::Tracking
            } else {
                Motion::Unknown
            },
            None => Motion::Unknown,
        }
    }
}

/// What has been seen of a slew.
#[derive(Debug, Clone, Copy, PartialEq, Eq, Structural)]
pub struct SlewWatch {
    /// The mount was seen slewing.
    pub seen_busy: bool,
    /// How often in a row the mount was last seen tracking.
    pub stable_ok: u64,
    /// The mount was looked at before.
    pub polled: bool,
}

/// The number of times in a row that a mount must be seen tracking to count as
/// arrived, where it was never seen slewing.
pub const STABLE_READINGS: u64 = 5;

/// The number of seconds after which a slew has failed.
pub const SLEW_TIMEOUT_S: u64 = 120;

/// What to do before the mount is looked at.
#[derive(Debug)]
pub enum SlewCheck {
    /// The slew was stopped. Publish the note; this is no error.
    Aborted { note: String },
    /// The driver refuses the target. Publish the note.
    Refused { note: String, error: IndiError },
    /// Wait this many milliseconds, then look at the mount.
    Look { after_ms: u64 },
}

/// What a look at the mount means for the slew.
#[derive(Debug, Clone, Copy, PartialEq, Eq, Structural)]
pub enum SlewVerdict {
    /// The slew goes on.
    Continue,
    /// The mount has slewed and stopped.
    Reached,
    /// The mount tracks and was never seen slewing: it is at the target.
    AlreadyThere,
    /// The slew took too long.
    TimedOut,
}

/// A message of the driver, in lower case, tells of a horizon or a limit.
pub open spec fn tells_limit(lower: Seq<char>) -> bool {
    contains(lower, "horizon"@) || contains(lower, "limit"@)
}

/// Whether a message of the driver, in lower case, tells of a horizon or a
/// limit.
pub fn warns_of_limit(lower: &str) -> (r: bool)
    ensures
        r == tells_limit(lower@),
{
    text_has(lower, "horizon") || text_has(lower, "limit")
}

impl SlewWatch {
    /// Nothing has been seen yet.
    pub fn new() -> (r: SlewWatch)
        ensures
            r == (SlewWatch { seen_busy: false, stable_ok: 0, polled: false }),
            r.watching(),
    {
        SlewWatch { seen_busy: false, stable_ok: 0, polled: false }
    }

    /// The slew has not come to its end.
    pub open spec fn watching(self) -> bool {
        &&& self.stable_ok < STABLE_READINGS
        &&& self.seen_busy ==> self.stable_ok == 0
    }

    /// What is to be done before the mount is looked at, given the running
    /// flag and the last message of the driver.
    pub open spec fn asks(self, running: Option<bool>, message: Seq<char>, r: SlewCheck) -> bool {
        match r {
            SlewCheck::Aborted { note } => running == Some(false) && note@
                == "Slew aborted by user."@,
            SlewCheck::Refused { note, error } => {
                &&& running != Some(false)
                &&& tells_limit(lowercase_of(message))
                &&& note@ == "Error: "@ + message
                &&& error is Command
                &&& error->Command_0@ == message
            },
            SlewCheck::Look { after_ms } => {
                &&& running != Some(false)
                &&& !tells_limit(lowercase_of(message))
                &&& after_ms == if self.polled {
                    1000u64
                } else {
                    0u64
                }
            },
        }
    }

    /// Decides what to do before the mount is looked at, given the running
    /// flag and the last message of the driver.
    pub fn check(&self, running: Option<bool>, latest_message: &str) -> (r: SlewCheck)
        ensures
            self.asks(running, latest_message@, r),
    {
        if let Some(running) = running {
            if !running {
                return SlewCheck::Aborted { note: "Slew aborted by user.".to_owned() };
            }
        }
        let lower = latest_message.to_lowercase();
        if warns_of_limit(lower.as_str()) {
            return SlewCheck::Refused {
                note: concat2("Error: ", latest_message),
                error: IndiError::Command(latest_message.to_owned()),
            };
        }
        SlewCheck::Look {
            after_ms: if self.polled {
                1000
            } else {
                0
            },
        }
    }

    /// What is known behind a look at the mount.
    pub open spec fn seen(self, motion: Motion) -> SlewWatch {
        SlewWatch {
            seen_busy: self.seen_busy || motion is Slewing,
            stable_ok: match motion {
                Motion::Slewing => 0,
                Motion::Tracking => (self.stable_ok + 1) as u64,
                Motion::Unknown => 0,
            },
            polled: true,
        }
    }

    /// What a look at the mount means, `elapsed` seconds after the start.
    pub open spec fn verdict(self, motion: Motion, elapsed: nat) -> SlewVerdict {
        let now = self.seen(motion);
        if now.seen_busy && !(motion is Slewing) {
            SlewVerdict::Reached
        } else if !now.seen_busy && now.stable_ok >= STABLE_READINGS {
            SlewVerdict::AlreadyThere
        } else if elapsed > SLEW_TIMEOUT_S {
            SlewVerdict::TimedOut
        } else {
            SlewVerdict::Continue
        }
    }

    /// Takes a look at the mount in, `elapsed` seconds after the start.
    pub fn observe(&mut self, motion: Motion, elapsed: u64) -> (r: SlewVerdict)
        requires
            old(self).watching(),
        ensures
            *final(self) == old(self).seen(motion),
            r == old(self).verdict(motion, elapsed as nat),
            r is Continue ==> final(self).watching(),
    {
        match motion {
            Motion::Slewing => {
                self.seen_busy = true;
                self.stable_ok = 0;
            },
            Motion::Tracking => {
                self.stable_ok = self.stable_ok + 1;
            },
            Motion::Unknown => {
                self.stable_ok = 0;
            },
        }
        self.polled = true;
        let busy = matches!(motion, Motion::Slewing);
        if self.seen_busy && !busy {
            SlewVerdict::Reached
        } else if !self.seen_busy && self.stable_ok >= STABLE_READINGS {
            SlewVerdict::AlreadyThere
        } else if elapsed > SLEW_TIMEOUT_S {
            SlewVerdict::TimedOut
        } else {
            SlewVerdict::Continue
        }
    }
}

/// The error of a slew that took too long.
pub fn slew_timeout() -> (r: IndiError)
    ensures
        r is Command,
        r->Command_0@ == "Slew timed out after 120 s"@,
{
    IndiError::Command("Slew timed out after 120 s".to_owned())
}

/// The number, with a space before it where it has one digit.
pub open spec fn two_wide(n: nat) -> Seq<char> {
    if n < 10 {
        " "@ + decimal(n)
    } else {
        decimal(n)
    }
}

/// The progress message of a slew. The numbers are text.
pub open spec fn progress_line(
    elapsed: nat,
    motion: Motion,
    ra: Seq<char>,
    dec: Seq<char>,
    delta_ra: Seq<char>,
    delta_dec: Seq<char>,
) -> Seq<char> {
    "["@ + two_wide(elapsed) + "s] "@ + motion.label() + " Pointing to : - RA: "@ + ra
        + "h, DEC: "@ + dec + "° (ΔRA:"@ + delta_ra + "h, ΔDEC:"@ + delta_dec + "°)"@
}

/// The progress message of a slew. The numbers are text.
pub fn progress_text(
    elapsed: u64,
    motion: Motion,
    ra: &str,
    dec: &str,
    delta_ra: &str,
    delta_dec: &str,
) -> (r: String)
    ensures
        r@ == progress_line(elapsed as nat, motion, ra@, dec@, delta_ra@, delta_dec@),
{
    let wide = if elapsed < 10 {
        concat2(" ", decimal_text(elapsed).as_str())
    } else {
        decimal_text(elapsed)
    };
    let mut line = concat3("[", wide.as_str(), "s] ");
    line.append(motion.name());
    line.append(" Pointing to : - RA: ");
    line.append(ra);
    line.append("h, DEC: ");
    line.append(dec);
    line.append("° (ΔRA:");
    line.append(delta_ra);
    line.append("h, ΔDEC:");
    line.append(delta_dec);
    line.append("°)");
    line
}

// ---------------------------------------------------------------------------
// Connecting, and waiting for properties
// ---------------------------------------------------------------------------

/// The number of seconds that a mount has to connect.
pub const CONNECT_POLLS: u32 = 10;

/// What to do when the mount was looked at while it connects.
#[derive(Debug)]
pub enum ConnectNext {
    /// The mount is connected: enable it.
    Enable,
    /// Wait a second and look again.
    Wait,
    /// The mount did not connect.
    Failed { error: IndiError },
}

/// What to do when a property was looked for.
#[derive(Debug)]
pub enum PropertyNext {
    /// The property is there.
    Defined,
    /// Wait a quarter of a second and look again.
    Wait,
    /// The property did not come.
    Failed { error: IndiError },
}

impl IndiClient {
    /// Decides what to do before the mount is looked at during a slew. A
    /// message with which the driver refuses the target is then forgotten, so
    /// that it refuses no later slew.
    pub fn check_slew(&mut self, watch: &SlewWatch, running: Option<bool>) -> (r: SlewCheck)
        ensures
            watch.asks(running, old(self).latest_message@, r),
            final(self).latest_message@ == if r is Refused {
                ""@
            } else {
                old(self).latest_message@
            },
            final(self).device_name == old(self).device_name,
            final(self).state == old(self).state,
    {
        let r = watch.check(running, self.latest_message.as_str());
        if let SlewCheck::Refused { .. } = &r {
            self.latest_message = "".to_owned();
        }
        r
    }

    /// What to do at look `polls` (from 1) at a mount that connects.
    pub fn connect_next(&self, polls: u32) -> (r: ConnectNext)
        requires
            self.wf(),
        ensures
            match r {
                ConnectNext::Enable => switched_on(
                    self.property("CONNECTION"@),
                    "CONNECT"@,
                ),
                ConnectNext::Wait => {
                    &&& !switched_on(self.property("CONNECTION"@), "CONNECT"@)
                    &&& polls < CONNECT_POLLS
                    &&& polls < 10
                },
                ConnectNext::Failed { error } => {
                    &&& !switched_on(self.property("CONNECTION"@), "CONNECT"@)
                    &&& polls >= CONNECT_POLLS
                    &&& polls >= 10
                    &&& error is Connection
                    &&& error->Connection_0@ == "Timeout waiting for mount to connect."@
                },
            },
    {
        if self.is_connected() {
            ConnectNext::Enable
        } else if polls < CONNECT_POLLS {
            ConnectNext::Wait
        } else {
            ConnectNext::Failed {
                error: IndiError::Connection("Timeout waiting for mount to connect.".to_owned()),
            }
        }
    }

    /// What to do when the property was looked for, given whether its time is
    /// up.
    pub fn wait_for_property(&self, property: &str, time_is_up: bool) -> (r: PropertyNext)
        requires
            self.wf(),
        ensures
            match r {
                PropertyNext::Defined => self.property(property@) is Some,
                PropertyNext::Wait => self.property(property@) is None && !time_is_up,
                PropertyNext::Failed { error } => {
                    &&& self.property(property@) is None
                    &&& time_is_up
                    &&& error is Device
                    &&& error->Device_0@ == "Timeout waiting for property '"@ + property@
                        + "' to be defined on '"@ + self.device_name@ + "'"@
                },
            },
    {
        if self.state.property(self.device_name.as_str(), property).is_some() {
            return PropertyNext::Defined;
        }
        if !time_is_up {
            return PropertyNext::Wait;
        }
        let mut text = concat3(
            "Timeout waiting for property '",
            property,
            "' to be defined on '",
        );
        text.append(self.device_name.as_str());
        text.append("'");
        PropertyNext::Failed { error: IndiError::Device(text) }
    }
}

// ---------------------------------------------------------------------------
// Laws
// ---------------------------------------------------------------------------

/// A mount whose motion is unknown is never taken for one that was at its
/// target from the start.
pub proof fn law_unknown_is_no_arrival(watch: SlewWatch, elapsed: nat)
    requires
        watch.watching(),
        !watch.seen_busy,
    ensures
        watch.verdict(Motion::Unknown, elapsed) is Continue || watch.verdict(
            Motion::Unknown,
            elapsed,
        ) is TimedOut,
{
}

/// A slewing mount has not arrived.
pub proof fn law_slewing_is_no_arrival(watch: SlewWatch, elapsed: nat)
    requires
        watch.watching(),
    ensures
        watch.verdict(Motion::Slewing, elapsed) is Continue || watch.verdict(
            Motion::Slewing,
            elapsed,
        ) is TimedOut,
{
}

/// A slew counts as completed exactly when the mount was seen slewing and is
/// slewing no more, or when it was never seen slewing and is seen tracking for
/// the fifth time in a row.
pub proof fn law_arrival(watch: SlewWatch, motion: Motion, elapsed: nat)
    requires
        watch.watching(),
    ensures
        watch.verdict(motion, elapsed) is Reached <==> watch.seen_busy && !(motion is Slewing),
        watch.verdict(motion, elapsed) is AlreadyThere <==> !watch.seen_busy && motion is Tracking
            && watch.stable_ok + 1 == 5,
{
}

/// What has been seen of a slew in which the mount was seen to move so.
pub open spec fn watched(motions: Seq<Motion>) -> SlewWatch
    decreases motions.len(),
{
    if motions.len() == 0 {
        SlewWatch { seen_busy: false, stable_ok: 0, polled: false }
    } else {
        watched(motions.drop_last()).seen(motions.last())
    }
}

/// How often in a row the mount was last seen tracking.
pub open spec fn last_tracking(motions: Seq<Motion>) -> nat
    decreases motions.len(),
{
    if motions.len() > 0 && motions.last() is Tracking {
        1 + last_tracking(motions.drop_last())
    } else {
        0
    }
}

/// Only looks in a row count: each look at which the mount is not seen
/// tracking begins the count anew.
pub proof fn law_looks_in_a_row_count(motions: Seq<Motion>)
    requires
        motions.len() <= u64::MAX,
    ensures
        watched(motions).stable_ok == last_tracking(motions),
        last_tracking(motions) <= motions.len(),
        watched(motions).seen_busy <==> motions.contains(Motion::Slewing),
    decreases motions.len(),
{
    if motions.len() > 0 {
        let before = motions.drop_last();
        law_looks_in_a_row_count(before);
        if motions.last() is Slewing {
            assert(motions[motions.len() - 1] == Motion::Slewing);
        }
        if before.contains(Motion::Slewing) {
            let i = choose|i: int| 0 <= i < before.len() && before[i] == Motion::Slewing;
            assert(motions[i] == Motion::Slewing);
        }
        if motions.contains(Motion::Slewing) && !(motions.last() is Slewing) {
            let i = choose|i: int| 0 <= i < motions.len() && motions[i] == Motion::Slewing;
            assert(before[i] == Motion::Slewing);
        }
    }
}

/// Every slew comes to an end: no slew goes on after 120 seconds, and none times
/// out before.
pub proof fn law_slew_times_out(watch: SlewWatch, motion: Motion, elapsed: nat)
    ensures
        watch.verdict(motion, elapsed) is Continue ==> elapsed <= 120,
        watch.verdict(motion, elapsed) is TimedOut ==> elapsed > 120,
{
}

/// What comes of the last of several looks at the mount: it has arrived where it
/// was seen slewing before and is no more, or where it was never seen slewing
/// and was seen tracking five times in a row; else the slew goes on, for 120
/// seconds.
pub proof fn law_arrival_by_looks(motions: Seq<Motion>, elapsed: nat)
    requires
        0 < motions.len() <= u64::MAX,
        watched(motions.drop_last()).watching(),
    ensures
        ({
            let before = motions.drop_last();
            let verdict = watched(before).verdict(motions.last(), elapsed);
            let reached = before.contains(Motion::Slewing) && motions.last() != Motion::Slewing;
            let there = !motions.contains(Motion::Slewing) && last_tracking(motions) == 5;
            &&& verdict is Reached <==> reached
            &&& verdict is AlreadyThere <==> there
            &&& verdict is TimedOut <==> !reached && !there && elapsed > 120
            &&& verdict is Continue <==> !reached && !there && elapsed <= 120
        }),
{
    let before = motions.drop_last();
    law_looks_in_a_row_count(motions);
    law_looks_in_a_row_count(before);
    assert(watched(motions) == watched(before).seen(motions.last()));
}

/// Busy coordinates tell of a slew and coordinates that are ok of tracking;
/// nothing else tells of a motion.
pub proof fn law_motion_is_told(p: PropertyView)
    ensures
        motion_of(Some(p)) == Motion::Slewing <==> p.state == "Busy"@,
        motion_of(Some(p)) == Motion::Tracking <==> p.state == "Ok"@,
        motion_of(None) == Motion::Unknown,
{
    reveal_strlit("Busy");
    reveal_strlit("Ok");
    assert("Busy"@.len() == 4 && "Ok"@.len() == 2);
}

/// A message that holds the word "horizon" or the word "limit" anywhere tells of
/// a limit.
pub proof fn law_limits_are_told(before: Seq<char>, behind: Seq<char>)
    ensures
        tells_limit(before + "horizon"@ + behind),
        tells_limit(before + "limit"@ + behind),
        before.len() < 5 ==> !tells_limit(before),
{
    crate::text::law_parts_occur(before, "horizon"@, behind);
    crate::text::law_parts_occur(before, "limit"@, behind);
    reveal_strlit("horizon");
    reveal_strlit("limit");
}

/// A message in which neither word stands tells of no limit.
pub proof fn law_other_messages_tell_no_limit(lower: Seq<char>)
    requires
        forall|i: int| !crate::text::occurs_at(lower, "horizon"@, i),
        forall|i: int| !crate::text::occurs_at(lower, "limit"@, i),
    ensures
        !tells_limit(lower),
{
}

/// A slew that was stopped is aborted, whatever the driver says. Else a message
/// of a limit refuses it, with that message as the error. Else the mount is
/// looked at, at once for the first time and each time a second after the last
/// look.
pub proof fn law_before_a_look(
    watch: SlewWatch,
    running: Option<bool>,
    message: Seq<char>,
    r: SlewCheck,
)
    requires
        watch.asks(running, message, r),
    ensures
        r is Aborted <==> running == Some(false),
        r is Refused <==> running != Some(false) && tells_limit(lowercase_of(message)),
        r matches SlewCheck::Refused { note, error } ==> note@ == "Error: "@ + message && error
            is Command && error->Command_0@ == message,
        r matches SlewCheck::Look { after_ms } ==> after_ms == 0 || after_ms == 1000,
        r matches SlewCheck::Look { after_ms } ==> (after_ms == 0 <==> !watch.polled),
{
}

/// Each look is remembered: after one the mount counts as looked at, and as
/// seen slewing for good once it was seen so.
pub proof fn law_looks_are_remembered(watch: SlewWatch, motion: Motion)
    ensures
        watch.seen(motion).polled,
        watch.seen_busy || motion is Slewing <==> watch.seen(motion).seen_busy,
{
}

/// The progress of a slew is told by the seconds, at least two characters wide,
/// the motion, the position and the distance that is left.
pub proof fn law_progress_of_a_slew(
    elapsed: nat,
    motion: Motion,
    ra: Seq<char>,
    dec: Seq<char>,
    delta_ra: Seq<char>,
    delta_dec: Seq<char>,
)
    ensures
        ({
            let line = progress_line(elapsed, motion, ra, dec, delta_ra, delta_dec);
            let place = " Pointing to : - RA: "@ + ra + "h, DEC: "@ + dec + "° (ΔRA:"@ + delta_ra
                + "h, ΔDEC:"@ + delta_dec + "°)"@;
            let word = match motion {
                Motion::Slewing => " SLEWING"@,
                Motion::Tracking => " TRACKING"@,
                Motion::Unknown => "UNKNOWN"@,
            };
            &&& elapsed < 10 ==> line == "[ "@ + decimal(elapsed) + "s] "@ + word + place
            &&& elapsed >= 10 ==> line == "["@ + decimal(elapsed) + "s] "@ + word + place
        }),
{
    let line = progress_line(elapsed, motion, ra, dec, delta_ra, delta_dec);
    let place = " Pointing to : - RA: "@ + ra + "h, DEC: "@ + dec + "° (ΔRA:"@ + delta_ra
        + "h, ΔDEC:"@ + delta_dec + "°)"@;
    reveal_strlit("[");
    reveal_strlit(" ");
    reveal_strlit("[ ");
    assert("["@ + " "@ =~= "[ "@);
    if elapsed < 10 {
        assert(line =~= "["@ + " "@ + decimal(elapsed) + "s] "@ + motion.label() + place);
    } else {
        assert(line =~= "["@ + decimal(elapsed) + "s] "@ + motion.label() + place);
    }
}

} // verus!
