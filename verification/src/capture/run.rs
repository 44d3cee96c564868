//! The run of a sequence: which frame comes next, and what happens between
//! the frames.
//!
//! A run is a machine. Whoever drives it performs the request that the last
//! step returned (reads the stop and pause flags, moves the mount, takes a
//! photo) and reports the outcome, which gives the next request. The messages
//! that come with a request are published before it is performed.

use crate::capture::plan::{
    count_frames, frame_total, plan_steps, run_steps, steps_upto, PlanStep, SequenceItem,
    SequenceType,
};
use crate::indi::pier::PierSide;
use crate::number::{decimal, decimal_text};
use crate::text::{concat3, texts};
use vstd::prelude::*;

verus! {

/// What a run captures, and what it may do between the frames.
#[derive(Debug)]
pub struct SequenceRun {
    pub items: Vec<SequenceItem>,
    pub steps: Vec<PlanStep>,
    pub total: u32,
    /// The first `resume` frames were taken by an earlier run.
    pub resume: u32,
    /// A mount is connected and a meridian flip is configured.
    pub can_flip: bool,
    /// A mount is connected and a recentering target is known.
    pub can_recenter: bool,
    /// Recenter after this many light frames; 0 means never.
    pub recenter_every: u32,
}

/// What the driver of a run is waiting for.
#[derive(Debug, Clone, Copy, PartialEq, Eq, Structural)]
pub enum Waiting {
    /// The flags, before an item.
    ItemFlags,
    /// The directory of an item.
    Directory,
    /// The flags, before a frame.
    FrameFlags,
    /// Whether a meridian flip is due.
    FlipCheck,
    /// The end of a meridian flip.
    FlipEnd,
    /// The flags, after a meridian flip.
    FlipFlags,
    /// The end of a recentering.
    RecenterEnd,
    /// The flags, after a recentering.
    RecenterFlags,
    /// The photo.
    Photo,
    /// The flags, after the photo.
    PhotoFlags,
    /// The flags, after the photo was handed on.
    HandedOn,
    /// The last photo that was handed on.
    Drained,
    /// Nothing: the run is over.
    Over,
}

/// Where a run stands.
#[derive(Debug, Clone, Copy, PartialEq, Eq, Structural)]
pub struct RunPosition {
    pub waiting: Waiting,
    /// The position in the list of steps.
    pub step: usize,
    /// The number of light frames that this run has taken.
    pub lights: u64,
}

/// What the driver of a run shall do.
#[derive(Debug, Clone, Copy, PartialEq, Eq, Structural)]
pub enum Request {
    /// Wait this many milliseconds, then read the stop and pause flags.
    ReadFlags { after_ms: u64 },
    /// Create the directory of the item of the current step.
    CreateDirectory,
    /// Find out whether a meridian flip is due.
    CheckFlip,
    /// Flip the mount.
    Flip,
    /// Recenter the target.
    Recenter,
    /// Take the frame of the current step.
    TakePhoto,
    /// Hand the photo on for renaming and conversion, then read the flags.
    HandOn,
    /// Delete the photo; the run is over.
    DiscardPhoto,
    /// Wait until the last photo that was handed on has been dealt with.
    Drain,
    /// The run is over.
    Finish,
    /// The run is over, with the error that was reported last.
    Fail,
}

/// What the driver of a run reports.
#[derive(Debug)]
pub enum Report {
    /// The stop and pause flags.
    Flags { running: bool, paused: bool },
    /// What was requested has been done.
    Done,
    /// What was requested has failed.
    Failed { error: String },
    /// No meridian flip is due.
    NoFlip,
    /// A meridian flip is due; the hour angle is text.
    FlipDue { pier: PierSide, hour_angle: String },
    /// The meridian flip is done.
    Flipped { pier: PierSide },
}

/// What a step of a run gives.
#[derive(Debug)]
pub struct RunStep {
    /// Messages to publish, in this order.
    pub notes: Vec<String>,
    pub request: Request,
    pub position: RunPosition,
}

/// What a step of a run gives, with the texts of its messages.
pub struct RunStepView {
    pub notes: Seq<Seq<char>>,
    pub request: Request,
    pub position: RunPosition,
}

impl View for RunStep {
    type V = RunStepView;

    open spec fn view(&self) -> RunStepView {
        RunStepView { notes: texts(self.notes@), request: self.request, position: self.position }
    }
}

/// The report `r` answers what `w` waits for.
pub open spec fn answers(w: Waiting, r: Report) -> bool {
    match w {
        Waiting::ItemFlags | Waiting::FrameFlags | Waiting::FlipFlags | Waiting::RecenterFlags
        | Waiting::PhotoFlags | Waiting::HandedOn => r is Flags,
        Waiting::Directory | Waiting::RecenterEnd | Waiting::Photo => r is Done || r is Failed,
        Waiting::FlipCheck => r is NoFlip || r is FlipDue,
        Waiting::FlipEnd => r is Flipped || r is Failed,
        Waiting::Drained => r is Done,
        Waiting::Over => false,
    }
}

impl SequenceRun {
    /// The steps and the total belong to the items.
    pub open spec fn wf(self) -> bool {
        &&& frame_total(self.items@) <= u32::MAX
        &&& self.total == frame_total(self.items@)
        &&& self.steps@ == run_steps(self.items@, self.resume as nat)
    }

    /// The item that step `k` belongs to.
    pub open spec fn item_of(self, k: int) -> SequenceItem {
        match self.steps@[k] {
            PlanStep::Item { item } => self.items@[item as int],
            PlanStep::Frame { item, .. } => self.items@[item as int],
        }
    }

    /// Step `k` is a light frame.
    pub open spec fn is_light(self, k: int) -> bool {
        self.steps@[k] is Frame && self.item_of(k).item_type is Light
    }

    /// A position that the run can be at.
    pub open spec fn at_step(self, p: RunPosition) -> bool {
        &&& p.step <= self.steps@.len()
        &&& p.waiting is Over || p.lights <= p.step
        &&& match p.waiting {
            Waiting::ItemFlags | Waiting::Directory => p.step < self.steps@.len()
                && self.steps@[p.step as int] is Item,
            Waiting::Drained | Waiting::Over => true,
            _ => p.step < self.steps@.len() && self.steps@[p.step as int] is Frame,
        }
    }

    /// The run is over.
    pub open spec fn over(
        self,
        p: RunPosition,
        notes: Seq<Seq<char>>,
        request: Request,
    ) -> RunStepView {
        RunStepView {
            notes,
            request,
            position: RunPosition { waiting: Waiting::Over, step: p.step, lights: p.lights },
        }
    }

    /// The run goes on at the same step.
    pub open spec fn stay(
        self,
        p: RunPosition,
        notes: Seq<Seq<char>>,
        request: Request,
        waiting: Waiting,
    ) -> RunStepView {
        RunStepView {
            notes,
            request,
            position: RunPosition { waiting, step: p.step, lights: p.lights },
        }
    }

    /// The run arrives at a step.
    pub open spec fn arrive(self, step: nat, lights: nat) -> RunStepView {
        let p = RunPosition { waiting: Waiting::Over, step: step as usize, lights: lights as u64 };
        if step >= self.steps@.len() {
            self.stay(p, seq![], Request::Drain, Waiting::Drained)
        } else if self.steps@[step as int] is Item {
            self.stay(p, seq![], Request::ReadFlags { after_ms: 0 }, Waiting::ItemFlags)
        } else {
            self.stay(p, seq![], Request::ReadFlags { after_ms: 0 }, Waiting::FrameFlags)
        }
    }

    /// The message that announces a frame.
    pub open spec fn progress_note(self, k: int) -> Seq<char> {
        let it = self.item_of(k);
        match self.steps@[k] {
            PlanStep::Frame { number, index, .. } => "PROGRESS:"@ + decimal(index as nat) + "/"@
                + decimal(self.total as nat) + ":Capturing "@ + it.item_type.folder() + " frame "@
                + decimal(number as nat) + "/"@ + decimal(it.count as nat) + " ("@
                + it.used_exposure() + "s)..."@,
            PlanStep::Item { .. } => Seq::empty(),
        }
    }

    /// The frame of the current step is taken.
    pub open spec fn shoot(self, p: RunPosition) -> RunStepView {
        self.stay(
            p,
            seq![self.progress_note(p.step as int)],
            Request::TakePhoto,
            Waiting::Photo,
        )
    }

    /// A recentering is due before the frame of the current step.
    pub open spec fn recenter_due(self, p: RunPosition) -> bool {
        &&& self.can_recenter
        &&& self.is_light(p.step as int)
        &&& self.recenter_every > 0
        &&& p.lights > 0
        &&& p.lights % self.recenter_every as u64 == 0
    }

    /// The target is recentered where that is due; else the frame is taken.
    pub open spec fn recenter_or_shoot(self, p: RunPosition) -> RunStepView {
        if self.recenter_due(p) {
            self.stay(
                p,
                seq![
                    "Auto-recenter: "@ + decimal(p.lights as nat)
                        + " light frames captured, recentering..."@,
                ],
                Request::Recenter,
                Waiting::RecenterEnd,
            )
        } else {
            self.shoot(p)
        }
    }

    /// What the run does at position `p` on report `r`.
    pub open spec fn next_step(self, p: RunPosition, r: Report) -> RunStepView {
        match (p.waiting, r) {
            (Waiting::ItemFlags, Report::Flags { running, paused }) => if !running {
                self.over(p, seq!["Plan cancelled manually."@], Request::Finish)
            } else if paused {
                self.over(p, seq!["Plan paused manually."@], Request::Finish)
            } else {
                self.stay(p, seq![], Request::CreateDirectory, Waiting::Directory)
            },
            (Waiting::Directory, Report::Done) => self.arrive(
                (p.step + 1) as nat,
                p.lights as nat,
            ),
            (Waiting::Directory, Report::Failed { .. }) => self.over(p, seq![], Request::Fail),
            (Waiting::FrameFlags, Report::Flags { running, paused }) => if !running {
                self.over(p, seq!["Sequence cancelled manually."@], Request::Finish)
            } else if paused {
                self.over(p, seq!["Sequence paused manually."@], Request::Finish)
            } else if self.is_light(p.step as int) && self.can_flip {
                self.stay(p, seq![], Request::CheckFlip, Waiting::FlipCheck)
            } else {
                self.recenter_or_shoot(p)
            },
            (Waiting::FlipCheck, Report::NoFlip) => self.recenter_or_shoot(p),
            (Waiting::FlipCheck, Report::FlipDue { pier, hour_angle }) => self.stay(
                p,
                seq![
                    "Meridian flip triggered! Pier="@ + pier.label() + ", HA="@ + hour_angle@
                        + "h. Flipping..."@,
                ],
                Request::Flip,
                Waiting::FlipEnd,
            ),
            (Waiting::FlipEnd, Report::Flipped { pier }) => self.stay(
                p,
                seq!["Meridian flip complete. New pier side: "@ + pier.label()],
                Request::ReadFlags { after_ms: 2000 },
                Waiting::FlipFlags,
            ),
            (Waiting::FlipEnd, Report::Failed { error }) => self.stay(
                p,
                seq!["Meridian flip failed: "@ + error@ + ". Continuing anyway."@],
                Request::ReadFlags { after_ms: 0 },
                Waiting::FlipFlags,
            ),
            (Waiting::FlipFlags, Report::Flags { running, .. }) => if !running {
                self.over(
                    p,
                    seq!["Sequence cancelled during meridian flip."@],
                    Request::Finish,
                )
            } else {
                self.recenter_or_shoot(p)
            },
            (Waiting::RecenterEnd, Report::Done) => self.stay(
                p,
                seq!["Auto-recenter complete."@],
                Request::ReadFlags { after_ms: 0 },
                Waiting::RecenterFlags,
            ),
            (Waiting::RecenterEnd, Report::Failed { error }) => self.stay(
                p,
                seq!["Auto-recenter failed: "@ + error@ + ". Continuing sequence."@],
                Request::ReadFlags { after_ms: 0 },
                Waiting::RecenterFlags,
            ),
            (Waiting::RecenterFlags, Report::Flags { running, .. }) => if !running {
                self.over(p, seq!["Sequence cancelled during recenter."@], Request::Finish)
            } else {
                self.shoot(p)
            },
            (Waiting::Photo, Report::Done) => self.stay(
                p,
                seq![],
                Request::ReadFlags { after_ms: 0 },
                Waiting::PhotoFlags,
            ),
            (Waiting::Photo, Report::Failed { .. }) => self.over(p, seq![], Request::Fail),
            (Waiting::PhotoFlags, Report::Flags { running, .. }) => if !running {
                self.over(
                    p,
                    seq!["Sequence cancelled manually. Deleting last image."@],
                    Request::DiscardPhoto,
                )
            } else {
                self.stay(p, seq![], Request::HandOn, Waiting::HandedOn)
            },
            (Waiting::HandedOn, Report::Flags { paused, .. }) => {
                let lights = p.lights as nat + if self.is_light(p.step as int) {
                    1nat
                } else {
                    0nat
                };
                if paused {
                    self.over(
                        RunPosition { waiting: p.waiting, step: p.step, lights: lights as u64 },
                        seq!["Sequence paused manually."@],
                        Request::Finish,
                    )
                } else {
                    self.arrive((p.step + 1) as nat, lights)
                }
            },
            (Waiting::Drained, Report::Done) => self.over(
                p,
                seq![
                    "Sequence complete! Captured "@ + decimal(self.total as nat)
                        + " frames total."@,
                ],
                Request::Finish,
            ),
            _ => self.over(p, seq![], Request::Finish),
        }
    }

    /// A run of `items` that goes on behind frame `resume`; none where the
    /// frames cannot be counted.
    pub fn new(
        items: Vec<SequenceItem>,
        resume: u32,
        can_flip: bool,
        can_recenter: bool,
        recenter_every: u32,
    ) -> (r: Option<SequenceRun>)
        ensures
            r is Some <==> frame_total(items@) <= u32::MAX,
            r matches Some(run) ==> run.wf() && run.items@ == items@ && run.resume == resume
                && run.can_flip == can_flip && run.can_recenter == can_recenter
                && run.recenter_every == recenter_every,
    {
        let total = match count_frames(&items) {
            Some(n) => n,
            None => return None,
        };
        let steps = plan_steps(&items, resume);
        Some(
            SequenceRun { items, steps, total, resume, can_flip, can_recenter, recenter_every },
        )
    }

    fn end(&self, p: RunPosition, note: &str, request: Request) -> (r: RunStep)
        ensures
            r@ == self.over(p, seq![note@], request),
    {
        let mut notes: Vec<String> = Vec::new();
        notes.push(note.to_owned());
        let r = RunStep {
            notes,
            request,
            position: RunPosition { waiting: Waiting::Over, step: p.step, lights: p.lights },
        };
        assert(r@.notes =~= seq![note@]);
        r
    }

    fn quiet(&self, p: RunPosition, request: Request, waiting: Waiting) -> (r: RunStep)
        ensures
            r@ == self.stay(p, seq![], request, waiting),
    {
        let r = RunStep {
            notes: Vec::new(),
            request,
            position: RunPosition { waiting, step: p.step, lights: p.lights },
        };
        assert(r@.notes =~= Seq::<Seq<char>>::empty());
        r
    }

    fn noted(&self, p: RunPosition, note: String, request: Request, waiting: Waiting) -> (r:
        RunStep)
        ensures
            r@ == self.stay(p, seq![note@], request, waiting),
    {
        let ghost text = note@;
        let mut notes: Vec<String> = Vec::new();
        notes.push(note);
        let r = RunStep {
            notes,
            request,
            position: RunPosition { waiting, step: p.step, lights: p.lights },
        };
        assert(r@.notes =~= seq![text]);
        r
    }

    fn enter(&self, step: usize, lights: u64) -> (r: RunStep)
        ensures
            r@ == self.arrive(step as nat, lights as nat),
    {
        let p = RunPosition { waiting: Waiting::Over, step, lights };
        if step >= self.steps.len() {
            return self.quiet(p, Request::Drain, Waiting::Drained);
        }
        match self.steps[step] {
            PlanStep::Item { .. } => self.quiet(
                p,
                Request::ReadFlags { after_ms: 0 },
                Waiting::ItemFlags,
            ),
            PlanStep::Frame { .. } => self.quiet(
                p,
                Request::ReadFlags { after_ms: 0 },
                Waiting::FrameFlags,
            ),
        }
    }

    /// Starts the run.
    pub fn begin(&self) -> (r: RunStep)
        requires
            self.wf(),
        ensures
            r@ == self.arrive(0, 0),
            self.at_step(r.position),
    {
        self.enter(0, 0)
    }

    fn take(&self, p: RunPosition) -> (r: RunStep)
        requires
            self.wf(),
            p.step < self.steps@.len(),
            self.steps@[p.step as int] is Frame,
        ensures
            r@ == self.shoot(p),
    {
        let n = self.items.len();
        proof {
            lemma_items_in_range(self.items@, self.resume as nat, self.items@.len());
        }
        if let PlanStep::Frame { item, number, index } = self.steps[p.step] {
            let it = &self.items[item];
            let mut note = "PROGRESS:".to_owned();
            note.append(decimal_text(index as u64).as_str());
            note.append("/");
            note.append(decimal_text(self.total as u64).as_str());
            note.append(":Capturing ");
            note.append(it.item_type.folder_name().as_str());
            note.append(" frame ");
            note.append(decimal_text(number as u64).as_str());
            note.append("/");
            note.append(decimal_text(it.count as u64).as_str());
            note.append(" (");
            note.append(it.exposure_text().as_str());
            note.append("s)...");
            return self.noted(p, note, Request::TakePhoto, Waiting::Photo);
        }
        self.quiet(p, Request::Finish, Waiting::Over)
    }

    /// Whether step `k` is a light frame.
    pub fn takes_light(&self, k: usize) -> (r: bool)
        requires
            self.wf(),
            k < self.steps@.len(),
        ensures
            r == self.is_light(k as int),
    {
        let n = self.items.len();
        proof {
            lemma_items_in_range(self.items@, self.resume as nat, self.items@.len());
        }
        match self.steps[k] {
            PlanStep::Frame { item, .. } => match self.items[item].item_type {
                SequenceType::Light => true,
                _ => false,
            },
            PlanStep::Item { .. } => false,
        }
    }

    fn recenter_or_take(&self, p: RunPosition) -> (r: RunStep)
        requires
            self.wf(),
            p.step < self.steps@.len(),
            self.steps@[p.step as int] is Frame,
        ensures
            r@ == self.recenter_or_shoot(p),
    {
        if self.can_recenter && self.takes_light(p.step) && self.recenter_every > 0 && p.lights > 0
            && p.lights % self.recenter_every as u64 == 0 {
            let note = concat3(
                "Auto-recenter: ",
                decimal_text(p.lights).as_str(),
                " light frames captured, recentering...",
            );
            self.noted(p, note, Request::Recenter, Waiting::RecenterEnd)
        } else {
            self.take(p)
        }
    }

    /// Takes the report `r` at position `p` and goes on.
    pub fn advance(&self, p: RunPosition, r: Report) -> (s: RunStep)
        requires
            self.wf(),
            self.at_step(p),
            answers(p.waiting, r),
        ensures
            s@ == self.next_step(p, r),
            self.at_step(s.position),
    {
        let n = self.steps.len();
        match (p.waiting, r) {
            (Waiting::ItemFlags, Report::Flags { running, paused }) => if !running {
                self.end(p, "Plan cancelled manually.", Request::Finish)
            } else if paused {
                self.end(p, "Plan paused manually.", Request::Finish)
            } else {
                self.quiet(p, Request::CreateDirectory, Waiting::Directory)
            },
            (Waiting::Directory, Report::Done) => self.enter(p.step + 1, p.lights),
            (Waiting::Directory, Report::Failed { .. }) => self.quiet(
                p,
                Request::Fail,
                Waiting::Over,
            ),
            (Waiting::FrameFlags, Report::Flags { running, paused }) => if !running {
                self.end(p, "Sequence cancelled manually.", Request::Finish)
            } else if paused {
                self.end(p, "Sequence paused manually.", Request::Finish)
            } else if self.takes_light(p.step) && self.can_flip {
                self.quiet(p, Request::CheckFlip, Waiting::FlipCheck)
            } else {
                self.recenter_or_take(p)
            },
            (Waiting::FlipCheck, Report::NoFlip) => self.recenter_or_take(p),
            (Waiting::FlipCheck, Report::FlipDue { pier, hour_angle }) => {
                let mut note = "Meridian flip triggered! Pier=".to_owned();
                note.append(pier.name().as_str());
                note.append(", HA=");
                note.append(hour_angle.as_str());
                note.append("h. Flipping...");
                self.noted(p, note, Request::Flip, Waiting::FlipEnd)
            },
            (Waiting::FlipEnd, Report::Flipped { pier }) => {
                let mut note = "Meridian flip complete. New pier side: ".to_owned();
                note.append(pier.name().as_str());
                self.noted(
                    p,
                    note,
                    Request::ReadFlags { after_ms: 2000 },
                    Waiting::FlipFlags,
                )
            },
            (Waiting::FlipEnd, Report::Failed { error }) => {
                let note = concat3(
                    "Meridian flip failed: ",
                    error.as_str(),
                    ". Continuing anyway.",
                );
                self.noted(p, note, Request::ReadFlags { after_ms: 0 }, Waiting::FlipFlags)
            },
            (Waiting::FlipFlags, Report::Flags { running, .. }) => if !running {
                self.end(p, "Sequence cancelled during meridian flip.", Request::Finish)
            } else {
                self.recenter_or_take(p)
            },
            (Waiting::RecenterEnd, Report::Done) => {
                let note = "Auto-recenter complete.".to_owned();
                self.noted(p, note, Request::ReadFlags { after_ms: 0 }, Waiting::RecenterFlags)
            },
            (Waiting::RecenterEnd, Report::Failed { error }) => {
                let note = concat3(
                    "Auto-recenter failed: ",
                    error.as_str(),
                    ". Continuing sequence.",
                );
                self.noted(p, note, Request::ReadFlags { after_ms: 0 }, Waiting::RecenterFlags)
            },
            (Waiting::RecenterFlags, Report::Flags { running, .. }) => if !running {
                self.end(p, "Sequence cancelled during recenter.", Request::Finish)
            } else {
                self.take(p)
            },
            (Waiting::Photo, Report::Done) => self.quiet(
                p,
                Request::ReadFlags { after_ms: 0 },
                Waiting::PhotoFlags,
            ),
            (Waiting::Photo, Report::Failed { .. }) => self.quiet(p, Request::Fail, Waiting::Over),
            (Waiting::PhotoFlags, Report::Flags { running, .. }) => if !running {
                self.end(
                    p,
                    "Sequence cancelled manually. Deleting last image.",
                    Request::DiscardPhoto,
                )
            } else {
                self.quiet(p, Request::HandOn, Waiting::HandedOn)
            },
            (Waiting::HandedOn, Report::Flags { paused, .. }) => {
                let lights = if self.takes_light(p.step) {
                    p.lights + 1
                } else {
                    p.lights
                };
                if paused {
                    self.end(
                        RunPosition { waiting: p.waiting, step: p.step, lights },
                        "Sequence paused manually.",
                        Request::Finish,
                    )
                } else {
                    self.enter(p.step + 1, lights)
                }
            },
            (Waiting::Drained, Report::Done) => {
                let note = concat3(
                    "Sequence complete! Captured ",
                    decimal_text(self.total as u64).as_str(),
                    " frames total.",
                );
                self.noted(p, note, Request::Finish, Waiting::Over)
            },
            _ => self.quiet(p, Request::Finish, Waiting::Over),
        }
    }
}

/// Each step of a plan speaks of an item that there is.
pub proof fn lemma_items_in_range(items: Seq<SequenceItem>, resume: nat, k: nat)
    requires
        k <= items.len(),
        items.len() <= usize::MAX,
    ensures
        forall|i: int|
            #![trigger steps_upto(items, resume, k)[i]]
            0 <= i < steps_upto(items, resume, k).len() ==> match steps_upto(items, resume, k)[i] {
                PlanStep::Item { item } => item < k,
                PlanStep::Frame { item, .. } => item < k,
            },
    decreases k,
{
    if k > 0 {
        lemma_items_in_range(items, resume, (k - 1) as nat);
    }
}

} // verus!
