//! Sequences over several targets.
//!
//! A sequence is an ordered list of groups. Each group slews to its target and
//! captures frames, or parks the mount. As with the run of one group, the
//! sequence is a machine: the driver performs a request and reports its
//! outcome.

use crate::capture::plan::{count_frames, frame_total, SequenceItem};
use crate::notes::{added, none, one};
use crate::number::{decimal, decimal_text};
use crate::sexagesimal::{
    angle_parts, parse_angle, parse_real_triple, parse_time, real_triple, time_parts,
};
use crate::text::{concat3, texts};
use vstd::prelude::*;

verus! {

/// One target of a sequence.
#[derive(Debug)]
pub struct SequenceGroup {
    /// Display and folder name of the target.
    pub target: String,
    /// The frames to capture.
    pub sequence: Vec<SequenceItem>,
    /// Right ascension "HH:MM:SS".
    pub ra: Option<String>,
    /// Declination "DD:MM:SS".
    pub dec: Option<String>,
    /// Capture where the telescope points.
    pub skip_goto: Option<bool>,
    /// Only park the mount.
    pub park: Option<bool>,
}

/// A request to run a sequence.
#[derive(Debug)]
pub struct StartSequencePayload {
    /// The targets, in order.
    pub groups: Vec<SequenceGroup>,
    pub date: String,
    pub resume_from: Option<u32>,
    pub subfolder: Option<String>,
    /// Flip the mount when a target crosses the meridian.
    pub meridian_flip: Option<bool>,
    /// How many hours past the meridian a flip waits, as text.
    pub post_meridian_limit_h: Option<String>,
    /// Park the mount at the end.
    pub park_after: Option<bool>,
    /// Shut the computer down at the end.
    pub shutdown_after: Option<bool>,
    /// Check each slew with a plate solve.
    pub closed_loop: Option<bool>,
    /// Recenter after this many light frames; 0 or none means never.
    pub recenter_every: Option<u32>,
}

/// The flag, or false where it is not given.
pub open spec fn set(flag: Option<bool>) -> bool {
    flag == Some(true)
}

fn is_set(flag: Option<bool>) -> (r: bool)
    ensures
        r == set(flag),
{
    match flag {
        Some(b) => b,
        None => false,
    }
}

impl SequenceGroup {
    /// Both coordinates are given.
    pub open spec fn has_target(self) -> bool {
        self.ra is Some && self.dec is Some
    }

    /// Both coordinates are given and can be slewed to.
    pub open spec fn can_slew(self) -> bool {
        self.has_target() && time_parts(self.ra->0@) is Some && angle_parts(self.dec->0@) is Some
    }

    /// Both coordinates are given as real numbers.
    pub open spec fn has_real_target(self) -> bool {
        self.has_target() && real_triple(self.ra->0@) is Some && real_triple(self.dec->0@) is Some
    }

    fn slews(&self) -> (r: bool)
        ensures
            r == self.can_slew(),
    {
        match (&self.ra, &self.dec) {
            (Some(ra), Some(dec)) => parse_time(ra.as_str()).is_some() && parse_angle(
                dec.as_str(),
            ).is_some(),
            _ => false,
        }
    }

    fn real_target(&self) -> (r: bool)
        ensures
            r == self.has_real_target(),
    {
        match (&self.ra, &self.dec) {
            (Some(ra), Some(dec)) => parse_real_triple(ra.as_str()).is_some()
                && parse_real_triple(dec.as_str()).is_some(),
            _ => false,
        }
    }
}

/// What the driver of a sequence is waiting for.
#[derive(Debug, Clone, Copy, PartialEq, Eq, Structural)]
pub enum GroupWaiting {
    /// Which devices are connected.
    Devices,
    /// The flags, before a group.
    GroupFlags,
    /// The end of parking in a group.
    ParkEnd,
    /// The end of a slew.
    GotoEnd,
    /// The end of a group's run.
    CaptureEnd,
    /// The flags, behind a group's run.
    CaptureFlags,
    /// The flags, behind the last group.
    EndFlags,
    /// The closing of the sequence.
    Closed,
    /// The end of parking behind the sequence.
    FinalPark,
    /// Nothing: the sequence is over.
    Over,
}

/// Where a sequence stands.
#[derive(Debug, Clone, Copy, PartialEq, Eq, Structural)]
pub struct GroupPosition {
    pub waiting: GroupWaiting,
    pub group: usize,
    /// A mount is connected.
    pub mount: bool,
    /// Nothing has gone wrong and nothing was stopped.
    pub all_ok: bool,
}

/// The status of the sequence that clients see.
#[derive(Debug, Clone, Copy, PartialEq, Eq, Structural)]
pub enum SequenceStatus {
    Idle,
    Running,
    Paused,
}

impl SequenceStatus {
    pub open spec fn label(self) -> Seq<char> {
        match self {
            SequenceStatus::Idle => "idle"@,
            SequenceStatus::Running => "running"@,
            SequenceStatus::Paused => "paused"@,
        }
    }

    /// The word that clients see.
    pub fn name(&self) -> (r: String)
        ensures
            r@ == self.label(),
    {
        match self {
            SequenceStatus::Idle => "idle".to_owned(),
            SequenceStatus::Running => "running".to_owned(),
            SequenceStatus::Paused => "paused".to_owned(),
        }
    }
}

/// What the driver of a sequence shall do.
#[derive(Debug, Clone, Copy, PartialEq, Eq, Structural)]
pub enum GroupRequest {
    /// Find out whether the camera and the mount are connected.
    CheckDevices,
    /// Read the stop and pause flags.
    ReadFlags,
    /// Park the mount.
    Park,
    /// Slew to the target of the group.
    Goto,
    /// Run the group's frames behind frame `resume`. Flips and recenterings
    /// may happen where the group says so.
    Capture { resume: u32, flip: bool, recenter: bool },
    /// Show `status`, drop the progress where it is idle, clear the running
    /// flag and forget the flip settings.
    Close { status: SequenceStatus },
    /// Show the status idle; the sequence is over.
    Abandon,
    /// Wait half a second and shut the computer down; the sequence is over.
    Shutdown,
    /// The sequence is over.
    Finish,
}

/// What the driver of a sequence reports.
#[derive(Debug)]
pub enum GroupReport {
    Devices { camera: bool, mount: bool },
    Flags { running: bool, paused: bool },
    Done,
    Failed { error: String },
}

/// What a step of a sequence gives.
#[derive(Debug)]
pub struct GroupStep {
    /// Messages to publish before the request, in this order.
    pub notes: Vec<String>,
    pub request: GroupRequest,
    pub position: GroupPosition,
}

/// What a step of a sequence gives, with the texts of its messages.
pub struct GroupStepView {
    pub notes: Seq<Seq<char>>,
    pub request: GroupRequest,
    pub position: GroupPosition,
}

impl View for GroupStep {
    type V = GroupStepView;

    open spec fn view(&self) -> GroupStepView {
        GroupStepView { notes: texts(self.notes@), request: self.request, position: self.position }
    }
}

/// The report `r` answers what `w` waits for.
pub open spec fn answers(w: GroupWaiting, r: GroupReport) -> bool {
    match w {
        GroupWaiting::Devices => r is Devices,
        GroupWaiting::GroupFlags | GroupWaiting::CaptureFlags | GroupWaiting::EndFlags => r
            is Flags,
        GroupWaiting::ParkEnd | GroupWaiting::GotoEnd | GroupWaiting::CaptureEnd
        | GroupWaiting::FinalPark => r is Done || r is Failed,
        GroupWaiting::Closed => r is Done,
        GroupWaiting::Over => false,
    }
}

impl StartSequencePayload {
    /// The frames of each group can be counted.
    pub open spec fn countable(self) -> bool {
        forall|i: int|
            0 <= i < self.groups@.len() ==> frame_total(
                (#[trigger] self.groups@[i]).sequence@,
            ) <= u32::MAX
    }

    /// A position that the sequence can be at.
    pub open spec fn at_group(self, p: GroupPosition) -> bool {
        match p.waiting {
            GroupWaiting::GroupFlags | GroupWaiting::ParkEnd | GroupWaiting::GotoEnd
            | GroupWaiting::CaptureEnd | GroupWaiting::CaptureFlags => p.group
                < self.groups@.len(),
            _ => p.group <= self.groups@.len(),
        }
    }

    pub open spec fn resume(self) -> nat {
        match self.resume_from {
            Some(n) => n as nat,
            None => 0,
        }
    }

    pub open spec fn recenter_step(self) -> nat {
        match self.recenter_every {
            Some(n) => n as nat,
            None => 0,
        }
    }

    /// The message that answers the request.
    pub open spec fn received_note(self) -> Seq<char> {
        "Received Start Sequence request ("@ + decimal(self.groups@.len()) + " group(s))"@
    }

    /// "Group i/n" of the group at position `g`.
    pub open spec fn group_label(self, g: int) -> Seq<char> {
        "Group "@ + decimal((g + 1) as nat) + "/"@ + decimal(self.groups@.len())
    }

    pub open spec fn step(
        self,
        p: GroupPosition,
        notes: Seq<Seq<char>>,
        request: GroupRequest,
        waiting: GroupWaiting,
    ) -> GroupStepView {
        GroupStepView {
            notes,
            request,
            position: GroupPosition { waiting, group: p.group, mount: p.mount, all_ok: p.all_ok },
        }
    }

    /// The sequence comes to its end, after something went wrong.
    pub open spec fn break_off(self, p: GroupPosition, note: Seq<Seq<char>>) -> GroupStepView {
        self.step(
            GroupPosition { waiting: p.waiting, group: p.group, mount: p.mount, all_ok: false },
            note,
            GroupRequest::ReadFlags,
            GroupWaiting::EndFlags,
        )
    }

    /// The sequence arrives at a group, or at its end.
    pub open spec fn arrive(self, p: GroupPosition, g: nat, notes: Seq<Seq<char>>) -> GroupStepView {
        let q = GroupPosition {
            waiting: p.waiting,
            group: g as usize,
            mount: p.mount,
            all_ok: p.all_ok,
        };
        if g >= self.groups@.len() {
            self.step(q, notes, GroupRequest::ReadFlags, GroupWaiting::EndFlags)
        } else {
            self.step(q, notes, GroupRequest::ReadFlags, GroupWaiting::GroupFlags)
        }
    }

    /// The frames of the group are captured.
    pub open spec fn capture(self, p: GroupPosition, notes: Seq<Seq<char>>) -> GroupStepView {
        let g = self.groups@[p.group as int];
        self.step(
            p,
            notes.push(
                self.group_label(p.group as int) + ": Capturing "@ + decimal(
                    frame_total(g.sequence@),
                ) + " for "@ + g.target@ + "..."@,
            ),
            GroupRequest::Capture {
                resume: if p.group == 0 {
                    self.resume() as u32
                } else {
                    0
                },
                flip: set(self.meridian_flip) && g.has_real_target(),
                recenter: self.recenter_step() > 0 && g.has_real_target(),
            },
            GroupWaiting::CaptureEnd,
        )
    }

    /// What the group at the current position begins with.
    pub open spec fn open_group(self, p: GroupPosition) -> GroupStepView {
        let g = self.groups@[p.group as int];
        if set(g.park) {
            let note = seq!["Parking mount (sequence group)..."@];
            if p.mount {
                self.step(p, note, GroupRequest::Park, GroupWaiting::ParkEnd)
            } else {
                self.arrive(p, (p.group + 1) as nat, note)
            }
        } else if !set(g.skip_goto) && g.has_target() {
            let note = seq![self.group_label(p.group as int) + ": Slewing to "@ + g.target@ + "..."@];
            if !g.can_slew() {
                self.capture(
                    p,
                    note.push("Invalid RA/Dec for group "@ + g.target@ + ", skipping GoTo."@),
                )
            } else if !p.mount {
                self.capture(p, note.push("Mount not connected, skipping GoTo."@))
            } else {
                self.step(p, note, GroupRequest::Goto, GroupWaiting::GotoEnd)
            }
        } else {
            self.capture(p, seq![])
        }
    }

    /// What follows once the sequence is closed and the mount is parked.
    pub open spec fn shutdown_or_finish(self, p: GroupPosition, notes: Seq<Seq<char>>) -> GroupStepView {
        if set(self.shutdown_after) {
            self.step(
                p,
                notes.push("Shutting down after sequence..."@),
                GroupRequest::Shutdown,
                GroupWaiting::Over,
            )
        } else {
            self.step(p, notes, GroupRequest::Finish, GroupWaiting::Over)
        }
    }

    /// What the sequence does at position `p` on report `r`.
    pub open spec fn next_step(self, p: GroupPosition, r: GroupReport) -> GroupStepView {
        let target = self.groups@[p.group as int].target@;
        match (p.waiting, r) {
            (GroupWaiting::Devices, GroupReport::Devices { camera, mount }) => if camera {
                self.arrive(
                    GroupPosition { waiting: p.waiting, group: p.group, mount, all_ok: true },
                    0,
                    seq![],
                )
            } else {
                self.step(
                    p,
                    seq!["Camera not connected, cannot start sequence."@],
                    GroupRequest::Abandon,
                    GroupWaiting::Over,
                )
            },
            (GroupWaiting::GroupFlags, GroupReport::Flags { running, .. }) => if running {
                self.open_group(p)
            } else {
                self.break_off(p, seq!["Sequence stopped between groups."@])
            },
            (GroupWaiting::ParkEnd, GroupReport::Done) => self.arrive(
                p,
                (p.group + 1) as nat,
                seq!["Mount parked."@],
            ),
            (GroupWaiting::ParkEnd, GroupReport::Failed { error }) => self.break_off(
                p,
                seq!["Park failed during sequence: "@ + error@],
            ),
            (GroupWaiting::GotoEnd, GroupReport::Done) => self.capture(p, seq![]),
            (GroupWaiting::GotoEnd, GroupReport::Failed { error }) => self.break_off(
                p,
                seq!["GoTo failed for "@ + target + ": "@ + error@],
            ),
            (GroupWaiting::CaptureEnd, GroupReport::Done) => self.step(
                p,
                seq![],
                GroupRequest::ReadFlags,
                GroupWaiting::CaptureFlags,
            ),
            (GroupWaiting::CaptureEnd, GroupReport::Failed { error }) => self.break_off(
                p,
                seq!["Plan failed for "@ + target + ": "@ + error@],
            ),
            (GroupWaiting::CaptureFlags, GroupReport::Flags { running, paused }) => if !running
                || paused {
                self.break_off(p, seq![])
            } else if p.group + 1 < self.groups@.len() {
                self.arrive(
                    p,
                    (p.group + 1) as nat,
                    seq![self.group_label(p.group as int) + " complete ("@ + target + ")."@],
                )
            } else {
                self.arrive(p, (p.group + 1) as nat, seq![])
            },
            (GroupWaiting::EndFlags, GroupReport::Flags { paused, .. }) => {
                let q = GroupPosition {
                    waiting: p.waiting,
                    group: p.group,
                    mount: p.mount,
                    all_ok: p.all_ok && !paused,
                };
                self.step(
                    q,
                    if q.all_ok {
                        seq!["Sequence complete!"@]
                    } else {
                        seq![]
                    },
                    GroupRequest::Close {
                        status: if paused {
                            SequenceStatus::Paused
                        } else {
                            SequenceStatus::Idle
                        },
                    },
                    GroupWaiting::Closed,
                )
            },
            (GroupWaiting::Closed, GroupReport::Done) => if !p.all_ok {
                self.step(p, seq![], GroupRequest::Finish, GroupWaiting::Over)
            } else if set(self.park_after) {
                let note = seq!["Parking mount after sequence..."@];
                if p.mount {
                    self.step(p, note, GroupRequest::Park, GroupWaiting::FinalPark)
                } else {
                    self.shutdown_or_finish(p, note)
                }
            } else {
                self.shutdown_or_finish(p, seq![])
            },
            (GroupWaiting::FinalPark, GroupReport::Done) => self.shutdown_or_finish(
                p,
                seq!["Mount parked after sequence."@],
            ),
            (GroupWaiting::FinalPark, GroupReport::Failed { error }) => self.shutdown_or_finish(
                p,
                seq!["Post-sequence park failed: "@ + error@],
            ),
            _ => self.step(p, seq![], GroupRequest::Finish, GroupWaiting::Over),
        }
    }

    /// Whether the frames of each group can be counted.
    pub fn is_countable(&self) -> (r: bool)
        ensures
            r == self.countable(),
    {
        for i in 0..self.groups.len()
            invariant
                forall|k: int|
                    0 <= k < i ==> frame_total((#[trigger] self.groups@[k]).sequence@)
                        <= u32::MAX,
        {
            if count_frames(&self.groups[i].sequence).is_none() {
                assert(frame_total(self.groups@[i as int].sequence@) > u32::MAX);
                return false;
            }
        }
        true
    }

    /// The message that answers the request.
    pub fn received_text(&self) -> (r: String)
        ensures
            r@ == self.received_note(),
    {
        concat3(
            "Received Start Sequence request (",
            decimal_text(self.groups.len() as u64).as_str(),
            " group(s))",
        )
    }

    /// How many hours past the meridian a flip waits, as text.
    pub fn flip_limit(&self) -> (r: String)
        ensures
            r@ == match self.post_meridian_limit_h {
                Some(h) => h@,
                None => "0.1"@,
            },
    {
        match &self.post_meridian_limit_h {
            Some(h) => h.clone(),
            None => "0.1".to_owned(),
        }
    }

    fn label_text(&self, g: usize) -> (r: String)
        requires
            g < self.groups@.len(),
        ensures
            r@ == self.group_label(g as int),
    {
        let n = self.groups.len();
        let mut out = "Group ".to_owned();
        out.append(decimal_text(g as u64 + 1).as_str());
        out.append("/");
        out.append(decimal_text(n as u64).as_str());
        out
    }

    fn make(
        &self,
        p: GroupPosition,
        notes: Vec<String>,
        request: GroupRequest,
        waiting: GroupWaiting,
    ) -> (r: GroupStep)
        ensures
            r@ == self.step(p, texts(notes@), request, waiting),
    {
        GroupStep {
            notes,
            request,
            position: GroupPosition { waiting, group: p.group, mount: p.mount, all_ok: p.all_ok },
        }
    }

    fn stop_here(&self, p: GroupPosition, notes: Vec<String>) -> (r: GroupStep)
        ensures
            r@ == self.break_off(p, texts(notes@)),
    {
        self.make(
            GroupPosition { waiting: p.waiting, group: p.group, mount: p.mount, all_ok: false },
            notes,
            GroupRequest::ReadFlags,
            GroupWaiting::EndFlags,
        )
    }

    fn enter(&self, p: GroupPosition, g: usize, notes: Vec<String>) -> (r: GroupStep)
        ensures
            r@ == self.arrive(p, g as nat, texts(notes@)),
    {
        let q = GroupPosition { waiting: p.waiting, group: g, mount: p.mount, all_ok: p.all_ok };
        if g >= self.groups.len() {
            self.make(q, notes, GroupRequest::ReadFlags, GroupWaiting::EndFlags)
        } else {
            self.make(q, notes, GroupRequest::ReadFlags, GroupWaiting::GroupFlags)
        }
    }

    fn shoot(&self, p: GroupPosition, notes: Vec<String>) -> (r: GroupStep)
        requires
            self.countable(),
            p.group < self.groups@.len(),
        ensures
            r@ == self.capture(p, texts(notes@)),
    {
        let g = &self.groups[p.group];
        let mut note = self.label_text(p.group);
        note.append(": Capturing ");
        let frames: u64 = match count_frames(&g.sequence) {
            Some(n) => n as u64,
            None => 0,
        };
        note.append(decimal_text(frames).as_str());
        note.append(" for ");
        note.append(g.target.as_str());
        note.append("...");
        let resume: u32 = if p.group == 0 {
            match self.resume_from {
                Some(n) => n,
                None => 0,
            }
        } else {
            0
        };
        let recenter = match self.recenter_every {
            Some(n) => n > 0,
            None => false,
        };
        let located = g.real_target();
        self.make(
            p,
            added(notes, note),
            GroupRequest::Capture {
                resume,
                flip: is_set(self.meridian_flip) && located,
                recenter: recenter && located,
            },
            GroupWaiting::CaptureEnd,
        )
    }

    fn open(&self, p: GroupPosition) -> (r: GroupStep)
        requires
            self.countable(),
            p.group < self.groups@.len(),
        ensures
            r@ == self.open_group(p),
    {
        let n = self.groups.len();
        let g = &self.groups[p.group];
        if is_set(g.park) {
            let notes = one("Parking mount (sequence group)...".to_owned());
            if p.mount {
                self.make(p, notes, GroupRequest::Park, GroupWaiting::ParkEnd)
            } else {
                self.enter(p, p.group + 1, notes)
            }
        } else if !is_set(g.skip_goto) && g.ra.is_some() && g.dec.is_some() {
            let mut note = self.label_text(p.group);
            note.append(": Slewing to ");
            note.append(g.target.as_str());
            note.append("...");
            let notes = one(note);
            if !g.slews() {
                let more = concat3(
                    "Invalid RA/Dec for group ",
                    g.target.as_str(),
                    ", skipping GoTo.",
                );
                self.shoot(p, added(notes, more))
            } else if !p.mount {
                self.shoot(p, added(notes, "Mount not connected, skipping GoTo.".to_owned()))
            } else {
                self.make(p, notes, GroupRequest::Goto, GroupWaiting::GotoEnd)
            }
        } else {
            self.shoot(p, none())
        }
    }

    fn leave(&self, p: GroupPosition, notes: Vec<String>) -> (r: GroupStep)
        ensures
            r@ == self.shutdown_or_finish(p, texts(notes@)),
    {
        if is_set(self.shutdown_after) {
            let notes = added(notes, "Shutting down after sequence...".to_owned());
            self.make(p, notes, GroupRequest::Shutdown, GroupWaiting::Over)
        } else {
            self.make(p, notes, GroupRequest::Finish, GroupWaiting::Over)
        }
    }

    /// The message that announces the sequence.
    pub open spec fn start_note(self) -> Seq<char> {
        "Starting sequence ("@ + decimal(self.groups@.len()) + " group(s), resuming from "@
            + decimal(self.resume()) + ")..."@
    }

    /// Starts the sequence.
    pub fn begin(&self) -> (r: GroupStep)
        requires
            self.countable(),
        ensures
            r@ == (GroupStepView {
                notes: seq![self.start_note()],
                request: GroupRequest::CheckDevices,
                position: GroupPosition {
                    waiting: GroupWaiting::Devices,
                    group: 0,
                    mount: false,
                    all_ok: true,
                },
            }),
            self.at_group(r.position),
    {
        let resume: u32 = match self.resume_from {
            Some(n) => n,
            None => 0,
        };
        let mut note = "Starting sequence (".to_owned();
        note.append(decimal_text(self.groups.len() as u64).as_str());
        note.append(" group(s), resuming from ");
        note.append(decimal_text(resume as u64).as_str());
        note.append(")...");
        self.make(
            GroupPosition {
                waiting: GroupWaiting::Devices,
                group: 0,
                mount: false,
                all_ok: true,
            },
            one(note),
            GroupRequest::CheckDevices,
            GroupWaiting::Devices,
        )
    }

    /// Takes the report `r` at position `p` and goes on.
    pub fn advance(&self, p: GroupPosition, r: GroupReport) -> (s: GroupStep)
        requires
            self.countable(),
            self.at_group(p),
            answers(p.waiting, r),
        ensures
            s@ == self.next_step(p, r),
            self.at_group(s.position),
    {
        let n = self.groups.len();
        match (p.waiting, r) {
            (GroupWaiting::Devices, GroupReport::Devices { camera, mount }) => if camera {
                self.enter(
                    GroupPosition { waiting: p.waiting, group: p.group, mount, all_ok: true },
                    0,
                    none(),
                )
            } else {
                self.make(
                    p,
                    one("Camera not connected, cannot start sequence.".to_owned()),
                    GroupRequest::Abandon,
                    GroupWaiting::Over,
                )
            },
            (GroupWaiting::GroupFlags, GroupReport::Flags { running, .. }) => if running {
                self.open(p)
            } else {
                self.stop_here(p, one("Sequence stopped between groups.".to_owned()))
            },
            (GroupWaiting::ParkEnd, GroupReport::Done) => self.enter(
                p,
                p.group + 1,
                one("Mount parked.".to_owned()),
            ),
            (GroupWaiting::ParkEnd, GroupReport::Failed { error }) => {
                let mut note = "Park failed during sequence: ".to_owned();
                note.append(error.as_str());
                self.stop_here(p, one(note))
            },
            (GroupWaiting::GotoEnd, GroupReport::Done) => self.shoot(p, none()),
            (GroupWaiting::GotoEnd, GroupReport::Failed { error }) => {
                let mut note = concat3(
                    "GoTo failed for ",
                    self.groups[p.group].target.as_str(),
                    ": ",
                );
                note.append(error.as_str());
                self.stop_here(p, one(note))
            },
            (GroupWaiting::CaptureEnd, GroupReport::Done) => self.make(
                p,
                none(),
                GroupRequest::ReadFlags,
                GroupWaiting::CaptureFlags,
            ),
            (GroupWaiting::CaptureEnd, GroupReport::Failed { error }) => {
                let mut note = concat3(
                    "Plan failed for ",
                    self.groups[p.group].target.as_str(),
                    ": ",
                );
                note.append(error.as_str());
                self.stop_here(p, one(note))
            },
            (GroupWaiting::CaptureFlags, GroupReport::Flags { running, paused }) => if !running
                || paused {
                self.stop_here(p, none())
            } else if p.group + 1 < n {
                let mut note = self.label_text(p.group);
                note.append(" complete (");
                note.append(self.groups[p.group].target.as_str());
                note.append(").");
                self.enter(p, p.group + 1, one(note))
            } else {
                self.enter(p, p.group + 1, none())
            },
            (GroupWaiting::EndFlags, GroupReport::Flags { paused, .. }) => {
                let all_ok = p.all_ok && !paused;
                let q = GroupPosition {
                    waiting: p.waiting,
                    group: p.group,
                    mount: p.mount,
                    all_ok,
                };
                let notes = if all_ok {
                    one("Sequence complete!".to_owned())
                } else {
                    none()
                };
                let status = if paused {
                    SequenceStatus::Paused
                } else {
                    SequenceStatus::Idle
                };
                self.make(q, notes, GroupRequest::Close { status }, GroupWaiting::Closed)
            },
            (GroupWaiting::Closed, GroupReport::Done) => if !p.all_ok {
                self.make(p, none(), GroupRequest::Finish, GroupWaiting::Over)
            } else if is_set(self.park_after) {
                let notes = one("Parking mount after sequence...".to_owned());
                if p.mount {
                    self.make(p, notes, GroupRequest::Park, GroupWaiting::FinalPark)
                } else {
                    self.leave(p, notes)
                }
            } else {
                self.leave(p, none())
            },
            (GroupWaiting::FinalPark, GroupReport::Done) => self.leave(
                p,
                one("Mount parked after sequence.".to_owned()),
            ),
            (GroupWaiting::FinalPark, GroupReport::Failed { error }) => {
                let mut note = "Post-sequence park failed: ".to_owned();
                note.append(error.as_str());
                self.leave(p, one(note))
            },
            _ => self.make(p, none(), GroupRequest::Finish, GroupWaiting::Over),
        }
    }
}

// ---------------------------------------------------------------------------
// Laws
// ---------------------------------------------------------------------------

/// A sequence that counts as successful has run all its groups by the time it
/// comes to its end.
pub open spec fn success_is_earned(job: StartSequencePayload, p: GroupPosition) -> bool {
    match p.waiting {
        GroupWaiting::EndFlags | GroupWaiting::Closed => p.all_ok ==> p.group
            == job.groups@.len(),
        GroupWaiting::FinalPark => p.all_ok && p.group == job.groups@.len(),
        _ => true,
    }
}

/// Every step keeps it that a success has been earned by running all groups.
pub proof fn law_success_is_earned(job: StartSequencePayload, p: GroupPosition, r: GroupReport)
    requires
        job.groups@.len() <= usize::MAX,
        job.at_group(p),
        answers(p.waiting, r),
        success_is_earned(job, p),
    ensures
        success_is_earned(job, job.next_step(p, r).position),
{
}

/// The computer is shut down only where that was asked for, nothing failed,
/// nothing was stopped and every group has run.
pub proof fn law_shutdown_is_earned(job: StartSequencePayload, p: GroupPosition, r: GroupReport)
    requires
        job.groups@.len() <= usize::MAX,
        job.at_group(p),
        answers(p.waiting, r),
        success_is_earned(job, p),
        job.next_step(p, r).request is Shutdown,
    ensures
        set(job.shutdown_after),
        p.all_ok,
        p.group == job.groups@.len(),
{
}

/// Once something has failed or was stopped, the sequence neither parks the
/// mount nor slews, captures or shuts down any more, and it never announces
/// its completion.
pub proof fn law_failure_is_final(job: StartSequencePayload, p: GroupPosition, r: GroupReport)
    requires
        answers(p.waiting, r),
        !p.all_ok,
        p.waiting is EndFlags || p.waiting is Closed,
    ensures
        !job.next_step(p, r).position.all_ok,
        job.next_step(p, r).request is Close || job.next_step(p, r).request is Finish,
        job.next_step(p, r).notes == Seq::<Seq<char>>::empty(),
{
}

/// A failed slew, a failed park and a failed run end the sequence, with the
/// error in the last message.
pub proof fn law_failure_ends_sequence(
    job: StartSequencePayload,
    p: GroupPosition,
    error: String,
)
    requires
        p.waiting is ParkEnd || p.waiting is GotoEnd || p.waiting is CaptureEnd,
    ensures
        ({
            let s = job.next_step(p, GroupReport::Failed { error });
            &&& s.position.waiting is EndFlags
            &&& !s.position.all_ok
            &&& s.notes.len() == 1
            &&& crate::text::ends(s.notes[0], error@)
        }),
{
    let s = job.next_step(p, GroupReport::Failed { error });
    let n = s.notes[0];
    assert(n.subrange(n.len() - error@.len(), n.len() as int) =~= error@);
}

/// Only the first group of a sequence leaves frames out that an earlier run
/// took.
pub proof fn law_only_first_group_resumes(
    job: StartSequencePayload,
    p: GroupPosition,
    r: GroupReport,
)
    requires
        answers(p.waiting, r),
    ensures
        job.next_step(p, r).request matches GroupRequest::Capture { resume, .. } ==> resume == (
        if p.group == 0 {
            job.resume()
        } else {
            0
        }),
{
}

/// A stop before a group keeps that group from starting.
pub proof fn law_stop_between_groups(job: StartSequencePayload, p: GroupPosition, paused: bool)
    requires
        p.waiting is GroupFlags,
    ensures
        ({
            let s = job.next_step(p, GroupReport::Flags { running: false, paused });
            s.request is ReadFlags && s.position.waiting is EndFlags && !s.position.all_ok
        }),
{
}

/// A pause behind a group keeps the next one from starting, and the sequence
/// is shown as paused.
pub proof fn law_pause_behind_group(job: StartSequencePayload, p: GroupPosition, running: bool)
    requires
        p.waiting is CaptureFlags,
    ensures
        ({
            let pause = GroupReport::Flags { running, paused: true };
            let s = job.next_step(p, pause);
            &&& s.position.waiting is EndFlags
            &&& job.next_step(s.position, pause).request == (GroupRequest::Close {
                status: SequenceStatus::Paused,
            })
        }),
{
}

/// The position behind the reports of a history.
pub open spec fn driven(
    job: StartSequencePayload,
    start: GroupPosition,
    history: Seq<GroupReport>,
) -> GroupPosition
    decreases history.len(),
{
    if history.len() == 0 {
        start
    } else {
        job.next_step(driven(job, start, history.drop_last()), history.last()).position
    }
}

/// Each report of the history answers what the sequence waited for.
pub open spec fn is_history(
    job: StartSequencePayload,
    start: GroupPosition,
    history: Seq<GroupReport>,
) -> bool
    decreases history.len(),
{
    history.len() == 0 || {
        &&& is_history(job, start, history.drop_last())
        &&& answers(driven(job, start, history.drop_last()).waiting, history.last())
    }
}

/// The groups whose frames were requested, in the order of the requests.
pub open spec fn captured(
    job: StartSequencePayload,
    start: GroupPosition,
    history: Seq<GroupReport>,
) -> Seq<int>
    decreases history.len(),
{
    if history.len() == 0 {
        Seq::empty()
    } else {
        let before = captured(job, start, history.drop_last());
        let s = job.next_step(driven(job, start, history.drop_last()), history.last());
        if s.request is Capture {
            before.push(s.position.group as int)
        } else {
            before
        }
    }
}

/// The first `n` groups without those that only park the mount.
pub open spec fn capture_groups(job: StartSequencePayload, n: nat) -> Seq<int>
    decreases n,
{
    if n == 0 {
        Seq::empty()
    } else {
        let before = capture_groups(job, (n - 1) as nat);
        if set(job.groups@[n - 1].park) {
            before
        } else {
            before.push(n - 1)
        }
    }
}

/// The start of a sequence.
pub open spec fn start_position() -> GroupPosition {
    GroupPosition { waiting: GroupWaiting::Devices, group: 0, mount: false, all_ok: true }
}

/// How far the captures have come where the sequence waits.
spec fn captures_are(job: StartSequencePayload, p: GroupPosition, done: Seq<int>) -> bool {
    match p.waiting {
        GroupWaiting::Devices => p.group == 0 && done.len() == 0,
        GroupWaiting::GroupFlags => done == capture_groups(job, p.group as nat),
        GroupWaiting::ParkEnd => set(job.groups@[p.group as int].park) && done
            == capture_groups(job, p.group as nat),
        GroupWaiting::GotoEnd => !set(job.groups@[p.group as int].park) && done
            == capture_groups(job, p.group as nat),
        GroupWaiting::CaptureEnd | GroupWaiting::CaptureFlags => done == capture_groups(
            job,
            (p.group + 1) as nat,
        ),
        GroupWaiting::EndFlags | GroupWaiting::Closed | GroupWaiting::FinalPark => p.all_ok
            ==> done == capture_groups(job, job.groups@.len()),
        GroupWaiting::Over => true,
    }
}

proof fn lemma_capture_step(
    job: StartSequencePayload,
    p: GroupPosition,
    r: GroupReport,
    done: Seq<int>,
)
    requires
        job.groups@.len() <= usize::MAX,
        job.at_group(p),
        answers(p.waiting, r),
        captures_are(job, p, done),
    ensures
        job.at_group(job.next_step(p, r).position),
        captures_are(
            job,
            job.next_step(p, r).position,
            if job.next_step(p, r).request is Capture {
                done.push(job.next_step(p, r).position.group as int)
            } else {
                done
            },
        ),
{
    let s = job.next_step(p, r);
    if p.waiting is Devices {
        assert(done =~= capture_groups(job, 0));
    }
    if p.group < job.groups@.len() {
        let before = capture_groups(job, p.group as nat);
        let behind = capture_groups(job, (p.group + 1) as nat);
        assert(behind == if set(job.groups@[p.group as int].park) {
            before
        } else {
            before.push(p.group as int)
        });
    }
}

proof fn lemma_captures(job: StartSequencePayload, history: Seq<GroupReport>)
    requires
        job.groups@.len() <= usize::MAX,
        is_history(job, start_position(), history),
    ensures
        job.at_group(driven(job, start_position(), history)),
        captures_are(
            job,
            driven(job, start_position(), history),
            captured(job, start_position(), history),
        ),
    decreases history.len(),
{
    if history.len() > 0 {
        let h = history.drop_last();
        lemma_captures(job, h);
        lemma_capture_step(
            job,
            driven(job, start_position(), h),
            history.last(),
            captured(job, start_position(), h),
        );
    }
}

/// When a sequence comes to its end and nothing has failed or was stopped, the
/// frames of every group that captures were requested once, in order.
pub proof fn law_every_group_is_captured(job: StartSequencePayload, history: Seq<GroupReport>)
    requires
        job.groups@.len() <= usize::MAX,
        is_history(job, start_position(), history),
        driven(job, start_position(), history).waiting is EndFlags,
        driven(job, start_position(), history).all_ok,
    ensures
        captured(job, start_position(), history) == capture_groups(job, job.groups@.len()),
{
    lemma_captures(job, history);
}

/// A group that is to be parked parks the mount where there is one, and captures
/// nothing. Any other slews first where a mount is connected, both coordinates
/// are given and can be read, and the slew is not to be left out; else it
/// captures at once.
pub proof fn law_what_a_group_begins_with(
    job: StartSequencePayload,
    p: GroupPosition,
    paused: bool,
)
    requires
        job.groups@.len() <= usize::MAX,
        p.waiting is GroupFlags,
        p.group < job.groups@.len(),
    ensures
        ({
            let g = job.groups@[p.group as int];
            let s = job.next_step(p, GroupReport::Flags { running: true, paused });
            let parks = g.park == Some(true);
            let slews = g.skip_goto != Some(true) && g.ra is Some && g.dec is Some && time_parts(
                g.ra->0@,
            ) is Some && angle_parts(g.dec->0@) is Some && p.mount;
            &&& s.request == GroupRequest::Park <==> parks && p.mount
            &&& s.request == GroupRequest::Goto <==> !parks && slews
            &&& s.request is Capture <==> !parks && !slews
            &&& parks && !p.mount ==> s.request == GroupRequest::ReadFlags && s.position.group
                == p.group + 1
            &&& !parks ==> s.position.group == p.group
        }),
{
}

/// A group is captured behind its slew, and the next one is looked at behind its
/// frames and behind its parking.
pub proof fn law_groups_follow_one_another(job: StartSequencePayload, p: GroupPosition)
    requires
        job.groups@.len() < usize::MAX,
        p.group < job.groups@.len(),
    ensures
        p.waiting is GotoEnd ==> job.next_step(p, GroupReport::Done).request is Capture
            && job.next_step(p, GroupReport::Done).position.group == p.group,
        p.waiting is ParkEnd ==> job.next_step(p, GroupReport::Done).position.group == p.group + 1,
        p.waiting is CaptureEnd ==> ({
            let s = job.next_step(p, GroupReport::Done);
            let next = job.next_step(
                s.position,
                GroupReport::Flags { running: true, paused: false },
            );
            &&& s.request == GroupRequest::ReadFlags
            &&& next.request == GroupRequest::ReadFlags
            &&& next.position.group == p.group + 1
            &&& next.position.all_ok == p.all_ok
            &&& next.position.waiting is GroupFlags <==> p.group + 1 < job.groups@.len()
        }),
{
}

/// What a run of a group may do: it flips the mount where the sequence asks for
/// flips, recenters where it asks for that with a number above zero, and in both
/// cases only where the coordinates of the group are given as numbers. The first
/// group leaves out as many frames as the request says.
pub proof fn law_what_a_run_may_do(job: StartSequencePayload, p: GroupPosition, r: GroupReport)
    requires
        answers(p.waiting, r),
        p.group < job.groups@.len(),
        job.next_step(p, r).request is Capture,
    ensures
        ({
            let g = job.groups@[p.group as int];
            let located = g.ra is Some && g.dec is Some && real_triple(g.ra->0@) is Some
                && real_triple(g.dec->0@) is Some;
            let c = job.next_step(p, r).request;
            &&& c->flip <==> job.meridian_flip == Some(true) && located
            &&& c->recenter <==> job.recenter_every is Some && job.recenter_every->0 > 0 && located
            &&& p.group == 0 && job.resume_from is Some ==> c->resume == job.resume_from->0
            &&& p.group > 0 || job.resume_from is None ==> c->resume == 0
        }),
{
}

/// Without a camera nothing is begun; with one the first group is looked at, and
/// the mount counts as connected where it was reported so.
pub proof fn law_sequence_needs_a_camera(job: StartSequencePayload, camera: bool, mount: bool)
    ensures
        ({
            let s = job.next_step(start_position(), GroupReport::Devices { camera, mount });
            &&& !camera ==> s.request == GroupRequest::Abandon && s.position.waiting is Over
                && s.notes == seq!["Camera not connected, cannot start sequence."@]
            &&& camera ==> s.request == GroupRequest::ReadFlags && s.position.group == 0
                && s.position.all_ok && s.position.mount == mount
            &&& camera && job.groups@.len() > 0 ==> s.position.waiting is GroupFlags
        }),
{
}

/// The devices are not forgotten: whether a mount is connected stays as it was
/// reported.
pub proof fn law_mount_is_remembered(job: StartSequencePayload, p: GroupPosition, r: GroupReport)
    requires
        answers(p.waiting, r),
        !(p.waiting is Devices),
    ensures
        job.next_step(p, r).position.mount == p.mount,
{
}

/// A stop behind a group keeps the next one from starting.
pub proof fn law_stop_behind_group(job: StartSequencePayload, p: GroupPosition, paused: bool)
    requires
        p.waiting is CaptureFlags,
    ensures
        ({
            let s = job.next_step(p, GroupReport::Flags { running: false, paused });
            s.request is ReadFlags && s.position.waiting is EndFlags && !s.position.all_ok
        }),
{
}

/// A sequence is shown as paused at its end where it was paused, and as idle
/// where it was not. It is announced as complete where nothing went wrong and it
/// was not paused. Only then is the mount parked, where that was asked for and
/// there is one, and only then is the computer shut down, where that was asked
/// for.
pub proof fn law_end_of_a_sequence(
    job: StartSequencePayload,
    p: GroupPosition,
    running: bool,
    paused: bool,
    error: String,
)
    requires
        p.waiting is EndFlags,
    ensures
        ({
            let closed = job.next_step(p, GroupReport::Flags { running, paused });
            let behind = job.next_step(closed.position, GroupReport::Done);
            let good = p.all_ok && !paused;
            let parks = good && job.park_after == Some(true) && p.mount;
            let down = job.shutdown_after == Some(true);
            let last = if down {
                GroupRequest::Shutdown
            } else {
                GroupRequest::Finish
            };
            &&& closed.request == (GroupRequest::Close {
                status: if paused {
                    SequenceStatus::Paused
                } else {
                    SequenceStatus::Idle
                },
            })
            &&& good ==> closed.notes == seq!["Sequence complete!"@]
            &&& !good ==> closed.notes.len() == 0
            &&& !good ==> behind.request == GroupRequest::Finish && behind.notes.len() == 0
            &&& behind.request == GroupRequest::Park <==> parks
            &&& good && !parks ==> behind.request == last
            &&& parks ==> job.next_step(behind.position, GroupReport::Done).request == last
            &&& parks ==> job.next_step(behind.position, GroupReport::Failed { error }).request
                == last
        }),
{
}

/// As long as nothing counts as failed, no failure has been reported, but for
/// one of the last parking.
pub proof fn law_success_has_no_failure(
    job: StartSequencePayload,
    history: Seq<GroupReport>,
    i: int,
)
    requires
        is_history(job, start_position(), history),
        driven(job, start_position(), history).all_ok,
        !(driven(job, start_position(), history).waiting is Over),
        0 <= i < history.len(),
    ensures
        !(history[i] is Failed),
    decreases history.len(),
{
    let before = history.drop_last();
    if i < before.len() {
        law_success_has_no_failure(job, before, i);
        assert(before[i] == history[i]);
    }
}

/// The words for the status of a sequence.
pub proof fn law_status_words(one: SequenceStatus, other: SequenceStatus)
    requires
        one != other,
    ensures
        one.label() != other.label(),
        SequenceStatus::Idle.label() == "idle"@,
        SequenceStatus::Running.label() == "running"@,
        SequenceStatus::Paused.label() == "paused"@,
{
    reveal_strlit("idle");
    reveal_strlit("running");
    reveal_strlit("paused");
    assert("idle"@.len() == 4 && "running"@.len() == 7 && "paused"@.len() == 6);
}

/// A request without a frame to resume from begins at the first frame, and one
/// without a number of frames never recenters. What is told of it names the
/// number of its groups and the frame that it resumes from.
pub proof fn law_counts_of_a_request(job: StartSequencePayload, n: u32)
    ensures
        job.resume_from is None ==> job.resume() == 0,
        job.resume_from == Some(n) ==> job.resume() == n,
        job.recenter_every is None ==> job.recenter_step() == 0,
        job.recenter_every == Some(n) ==> job.recenter_step() == n,
        job.received_note() == "Received Start Sequence request ("@ + decimal(job.groups@.len())
            + " group(s))"@,
        job.resume_from is None ==> job.start_note() == "Starting sequence ("@ + decimal(
            job.groups@.len(),
        ) + " group(s), resuming from "@ + decimal(0) + ")..."@,
        job.resume_from == Some(n) ==> job.start_note() == "Starting sequence ("@ + decimal(
            job.groups@.len(),
        ) + " group(s), resuming from "@ + decimal(n as nat) + ")..."@,
{
}

/// A group can be slewed to where both its coordinates are given and read as a
/// time and as an angle.
pub proof fn law_groups_that_can_be_slewed_to(group: SequenceGroup)
    ensures
        group.can_slew() <==> {
            &&& group.ra matches Some(ra) && time_parts(ra@) is Some
            &&& group.dec matches Some(dec) && angle_parts(dec@) is Some
        },
        group.has_real_target() <==> {
            &&& group.ra matches Some(ra) && real_triple(ra@) is Some
            &&& group.dec matches Some(dec) && real_triple(dec@) is Some
        },
        group.has_target() <==> group.ra is Some && group.dec is Some,
{
}

/// A group whose frames were taken is told as complete with its number, counted
/// from one, the number of groups and its target; the last one is not.
pub proof fn law_complete_groups_are_told(job: StartSequencePayload, p: GroupPosition)
    requires
        p.group < job.groups@.len(),
        p.waiting is CaptureFlags,
    ensures
        ({
            let notes = job.next_step(
                p,
                GroupReport::Flags { running: true, paused: false },
            ).notes;
            &&& p.group + 1 < job.groups@.len() ==> notes == seq![
                "Group "@ + decimal((p.group + 1) as nat) + "/"@ + decimal(job.groups@.len())
                    + " complete ("@ + job.groups@[p.group as int].target@ + ")."@,
            ]
            &&& p.group + 1 == job.groups@.len() ==> notes.len() == 0
        }),
{
}

} // verus!
