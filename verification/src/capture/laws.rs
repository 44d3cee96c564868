//! What holds of every run of a sequence.

use crate::capture::plan::{
    frame_indices, frame_total, index_range, items_begun, law_each_item_begins,
    law_run_takes_each_frame_once, run_steps, PlanStep, SequenceItem, SequenceType,
};
use crate::capture::run::{
    answers, Report, Request, RunPosition, RunStepView, SequenceRun, Waiting,
};
use crate::number::decimal;
use vstd::prelude::*;

verus! {

/// Where a run stands after the reports, from its start on.
pub open spec fn driven(run: SequenceRun, reports: Seq<Report>) -> RunStepView
    decreases reports.len(),
{
    if reports.len() == 0 {
        run.arrive(0, 0)
    } else {
        run.next_step(driven(run, reports.drop_last()).position, reports.last())
    }
}

/// Each report answers what the run waited for.
pub open spec fn is_history(run: SequenceRun, reports: Seq<Report>) -> bool
    decreases reports.len(),
{
    reports.len() == 0 || (is_history(run, reports.drop_last()) && answers(
        driven(run, reports.drop_last()).position.waiting,
        reports.last(),
    ))
}

/// The steps whose frames were requested, in the order of the requests.
pub open spec fn photo_steps(run: SequenceRun, reports: Seq<Report>) -> Seq<int>
    decreases reports.len(),
{
    let before = if reports.len() == 0 {
        Seq::empty()
    } else {
        photo_steps(run, reports.drop_last())
    };
    let now = driven(run, reports);
    if now.request is TakePhoto {
        before.push(now.position.step as int)
    } else {
        before
    }
}

/// The first `n` steps that are frames, as positions.
pub open spec fn frame_steps(steps: Seq<PlanStep>, n: nat) -> Seq<int>
    decreases n,
{
    if n == 0 {
        Seq::empty()
    } else if steps[n - 1] is Frame {
        frame_steps(steps, (n - 1) as nat).push(n - 1)
    } else {
        frame_steps(steps, (n - 1) as nat)
    }
}

/// How many steps lie behind a run that is not over.
spec fn steps_behind(run: SequenceRun, p: RunPosition) -> nat {
    match p.waiting {
        Waiting::Photo | Waiting::PhotoFlags | Waiting::HandedOn => (p.step + 1) as nat,
        Waiting::Drained => run.steps@.len(),
        _ => p.step as nat,
    }
}

proof fn lemma_history(run: SequenceRun, reports: Seq<Report>)
    requires
        run.wf(),
        run.steps@.len() < usize::MAX,
        is_history(run, reports),
    ensures
        run.at_step(driven(run, reports).position),
        driven(run, reports).request is TakePhoto <==> driven(run, reports).position.waiting
            is Photo,
        driven(run, reports).request is Drain <==> driven(run, reports).position.waiting
            is Drained,
        driven(run, reports).position.waiting is Over || photo_steps(run, reports) == frame_steps(
            run.steps@,
            steps_behind(run, driven(run, reports).position),
        ),
        exists|n: nat|
            n <= run.steps@.len() && photo_steps(run, reports) == frame_steps(run.steps@, n),
    decreases reports.len(),
{
    let now = driven(run, reports);
    if reports.len() == 0 {
        assert(frame_steps(run.steps@, 0) =~= Seq::<int>::empty());
        assert(photo_steps(run, reports) == frame_steps(run.steps@, 0));
    } else {
        lemma_history(run, reports.drop_last());
        let was = driven(run, reports.drop_last());
        let n = steps_behind(run, was.position);
        assert(n <= run.steps@.len());
        if now.position.waiting is Over {
            assert(photo_steps(run, reports) == frame_steps(run.steps@, n));
        } else {
            let m = steps_behind(run, now.position);
            assert(m <= run.steps@.len());
            assert(photo_steps(run, reports) =~= frame_steps(run.steps@, m));
        }
    }
}

/// Whatever is reported, the frames that a run requests are the first of its
/// plan, none left out and none twice.
pub proof fn law_photos_follow_the_plan(run: SequenceRun, reports: Seq<Report>)
    requires
        run.wf(),
        run.steps@.len() < usize::MAX,
        is_history(run, reports),
    ensures
        exists|n: nat|
            n <= run.steps@.len() && photo_steps(run, reports) == frame_steps(run.steps@, n),
{
    lemma_history(run, reports);
}

/// A run that comes to its end has requested every frame of its plan.
pub proof fn law_complete_run_takes_every_frame(run: SequenceRun, reports: Seq<Report>)
    requires
        run.wf(),
        run.steps@.len() < usize::MAX,
        is_history(run, reports),
        driven(run, reports).request is Drain,
    ensures
        photo_steps(run, reports) == frame_steps(run.steps@, run.steps@.len()),
{
    lemma_history(run, reports);
}

/// A stop ends the run at the next reading of the flags, except between a
/// frame that was handed on and the next step.
pub proof fn law_stop_ends_run(run: SequenceRun, p: RunPosition, paused: bool)
    requires
        answers(p.waiting, Report::Flags { running: false, paused }),
        !(p.waiting is HandedOn),
    ensures
        ({
            let s = run.next_step(p, Report::Flags { running: false, paused });
            &&& s.position.waiting is Over
            &&& s.request is Finish || s.request is DiscardPhoto
            &&& s.request is DiscardPhoto <==> p.waiting is PhotoFlags
        }),
{
}

/// A pause ends the run before an item, before a frame and behind a frame.
pub proof fn law_pause_ends_run(run: SequenceRun, p: RunPosition)
    requires
        p.waiting is ItemFlags || p.waiting is FrameFlags || p.waiting is HandedOn,
    ensures
        ({
            let s = run.next_step(p, Report::Flags { running: true, paused: true });
            &&& s.position.waiting is Over
            &&& s.request is Finish
        }),
{
}

/// The mount is flipped or recentered only before a light frame, and only
/// where the run may do so.
pub proof fn law_mount_moves_for_lights_only(run: SequenceRun, reports: Seq<Report>)
    requires
        run.wf(),
        run.steps@.len() < usize::MAX,
        is_history(run, reports),
    ensures
        ({
            let s = driven(run, reports);
            &&& s.request is Flip ==> run.can_flip && run.is_light(s.position.step as int)
            &&& s.request is Recenter ==> run.recenter_due(s.position)
        }),
    decreases reports.len(),
{
    lemma_flip_waits(run, reports);
}

proof fn lemma_flip_waits(run: SequenceRun, reports: Seq<Report>)
    requires
        run.wf(),
        run.steps@.len() < usize::MAX,
        is_history(run, reports),
    ensures
        ({
            let s = driven(run, reports);
            &&& (s.position.waiting is FlipCheck || s.position.waiting is FlipEnd) ==> run.can_flip
                && run.is_light(s.position.step as int)
            &&& s.request is Flip ==> s.position.waiting is FlipEnd
            &&& s.request is Recenter ==> run.recenter_due(s.position)
        }),
    decreases reports.len(),
{
    if reports.len() > 0 {
        lemma_flip_waits(run, reports.drop_last());
    }
}

/// Step `k` takes a frame of an item of light frames.
pub open spec fn takes_light(run: SequenceRun, k: int) -> bool {
    match run.steps@[k] {
        PlanStep::Frame { item, .. } => run.items@[item as int].item_type == SequenceType::Light,
        PlanStep::Item { .. } => false,
    }
}

/// The requests of a run behind the reports, in their order.
pub open spec fn requests(run: SequenceRun, reports: Seq<Report>) -> Seq<Request>
    decreases reports.len(),
{
    if reports.len() == 0 {
        seq![driven(run, reports).request]
    } else {
        requests(run, reports.drop_last()).push(driven(run, reports).request)
    }
}

/// How often `request` stands among `all`.
pub open spec fn times(all: Seq<Request>, request: Request) -> nat
    decreases all.len(),
{
    if all.len() == 0 {
        0
    } else if all.last() == request {
        times(all.drop_last(), request) + 1
    } else {
        times(all.drop_last(), request)
    }
}

/// The number of light frames that were requested.
pub open spec fn light_photos(run: SequenceRun, reports: Seq<Report>) -> nat
    decreases reports.len(),
{
    let before = if reports.len() == 0 {
        0
    } else {
        light_photos(run, reports.drop_last())
    };
    let now = driven(run, reports);
    if now.request == Request::TakePhoto && takes_light(run, now.position.step as int) {
        before + 1
    } else {
        before
    }
}

/// The number of multiples of `n` among 1, 2 and so on up to one less than
/// `lights`.
pub open spec fn recenters_before(lights: nat, n: nat) -> nat {
    if lights == 0 {
        0
    } else {
        ((lights - 1) as nat) / n
    }
}

proof fn lemma_next_multiple(lights: nat, n: nat)
    requires
        n > 0,
        lights > 0,
    ensures
        lights % n == 0 ==> lights / n == ((lights - 1) as nat) / n + 1,
        lights % n != 0 ==> lights / n == ((lights - 1) as nat) / n,
{
    let l = lights as int;
    let m = n as int;
    let q = (l - 1) / m;
    let r = (l - 1) % m;
    vstd::arithmetic::div_mod::lemma_fundamental_div_mod(l - 1, m);
    assert(0 <= r < m);
    if r + 1 < m {
        vstd::arithmetic::div_mod::lemma_fundamental_div_mod_converse(l, m, q, r + 1);
    } else {
        assert(m * (q + 1) == m * q + m) by (nonlinear_arith);
        vstd::arithmetic::div_mod::lemma_fundamental_div_mod_converse(l, m, q + 1, 0);
    }
}

proof fn lemma_recenters(run: SequenceRun, reports: Seq<Report>)
    requires
        run.wf(),
        run.steps@.len() < usize::MAX,
        is_history(run, reports),
    ensures
        ({
            let p = driven(run, reports).position;
            let lights = light_photos(run, reports);
            let done = times(requests(run, reports), Request::Recenter);
            let n = run.recenter_every as nat;
            let may = run.can_recenter && n > 0;
            &&& driven(run, reports).request == Request::Recenter <==> p.waiting is RecenterEnd
            &&& match p.waiting {
                Waiting::Over => true,
                Waiting::Photo | Waiting::PhotoFlags | Waiting::HandedOn => lights == p.lights
                    + if takes_light(run, p.step as int) {
                    1nat
                } else {
                    0nat
                },
                _ => lights == p.lights,
            }
            &&& p.waiting is RecenterEnd || p.waiting is RecenterFlags ==> may && lights > 0
                && lights % n == 0 && takes_light(run, p.step as int)
            &&& !may ==> done == 0
            &&& may && (p.waiting is RecenterEnd || p.waiting is RecenterFlags) ==> done == lights
                / n
            &&& may && !(p.waiting is RecenterEnd || p.waiting is RecenterFlags || p.waiting
                is Over) ==> done == recenters_before(lights, n)
        }),
    decreases reports.len(),
{
    if reports.len() == 0 {
        assert(requests(run, reports).drop_last() =~= Seq::<Request>::empty());
        assert(times(requests(run, reports).drop_last(), Request::Recenter) == 0);
    } else {
        let before = reports.drop_last();
        lemma_recenters(run, before);
        lemma_history(run, before);
        assert(requests(run, reports).drop_last() =~= requests(run, before));
        let lights = light_photos(run, before);
        if run.recenter_every > 0 && lights > 0 {
            lemma_next_multiple(lights, run.recenter_every as nat);
        }
    }
}

/// While a run takes light frames, the target is recentered before the frame
/// that follows each `n` of them: when the light frame with the number `lights`
/// of the run is requested, and when the run comes to its end, it has been
/// recentered once for each multiple of `n` that is less than `lights`. A run
/// that may not recenter never does.
pub proof fn law_recentered_every_n_lights(run: SequenceRun, reports: Seq<Report>)
    requires
        run.wf(),
        run.steps@.len() < usize::MAX,
        is_history(run, reports),
    ensures
        !run.can_recenter || run.recenter_every == 0 ==> times(
            requests(run, reports),
            Request::Recenter,
        ) == 0,
        run.can_recenter && run.recenter_every > 0 && (driven(run, reports).request
            == Request::TakePhoto || driven(run, reports).request == Request::Drain) ==> times(
            requests(run, reports),
            Request::Recenter,
        ) == if light_photos(run, reports) == 0 {
            0
        } else {
            (light_photos(run, reports) - 1) / run.recenter_every as int
        },
{
    lemma_recenters(run, reports);
    lemma_history(run, reports);
}

/// The target is recentered only before a light frame, and only when the number
/// of light frames that the run has taken is a multiple of `n`, not zero.
pub proof fn law_recentering_is_due(run: SequenceRun, reports: Seq<Report>)
    requires
        run.wf(),
        run.steps@.len() < usize::MAX,
        is_history(run, reports),
        driven(run, reports).request == Request::Recenter,
    ensures
        run.can_recenter,
        run.recenter_every > 0,
        takes_light(run, driven(run, reports).position.step as int),
        light_photos(run, reports) > 0,
        light_photos(run, reports) % run.recenter_every as nat == 0,
{
    lemma_recenters(run, reports);
}

/// A flip or a recentering that fails does not end the run.
pub proof fn law_mount_failure_is_survived(run: SequenceRun, p: RunPosition, error: String)
    requires
        p.waiting is FlipEnd || p.waiting is RecenterEnd,
    ensures
        !(run.next_step(p, Report::Failed { error }).position.waiting is Over),
{
}

/// Runs that take over from one another take every frame once: what one run
/// took up to frame `k` and the frames of the run that resumes there are all
/// frames, in order.
pub proof fn law_resume_continues(items: Seq<SequenceItem>, k: nat)
    requires
        k <= frame_total(items),
    ensures
        index_range(1, k) + frame_indices(run_steps(items, k)) == frame_indices(
            run_steps(items, 0),
        ),
{
    law_run_takes_each_frame_once(items, k);
    law_run_takes_each_frame_once(items, 0);
    assert(index_range(1, k) + index_range(k + 1, frame_total(items)) =~= index_range(
        1,
        frame_total(items),
    ));
}

/// The number of items that begin among the first `n` steps.
pub open spec fn items_before(steps: Seq<PlanStep>, n: nat) -> nat
    decreases n,
{
    if n == 0 {
        0
    } else if steps[n - 1] is Item {
        items_before(steps, (n - 1) as nat) + 1
    } else {
        items_before(steps, (n - 1) as nat)
    }
}

proof fn lemma_items_before(steps: Seq<PlanStep>, n: nat)
    requires
        n <= steps.len(),
    ensures
        items_before(steps, n) == items_begun(steps.take(n as int)).len(),
    decreases n,
{
    if n > 0 {
        lemma_items_before(steps, (n - 1) as nat);
        assert(steps.take(n as int).drop_last() =~= steps.take(n - 1));
        assert(steps.take(n as int).last() == steps[n - 1]);
    }
}

proof fn lemma_request_counts(run: SequenceRun, reports: Seq<Report>)
    requires
        run.wf(),
        run.steps@.len() < usize::MAX,
        is_history(run, reports),
    ensures
        ({
            let s = driven(run, reports);
            let p = s.position;
            let all = requests(run, reports);
            let lights = light_photos(run, reports);
            let checks = times(all, Request::CheckFlip);
            let handed = times(all, Request::HandOn);
            let made = times(all, Request::CreateDirectory);
            let photos = photo_steps(run, reports).len();
            let begun = items_before(run.steps@, p.step as nat);
            &&& s.request == Request::CheckFlip <==> p.waiting is FlipCheck
            &&& s.request == Request::HandOn <==> p.waiting is HandedOn
            &&& s.request == Request::CreateDirectory <==> p.waiting is Directory
            &&& s.request == Request::Recenter <==> p.waiting is RecenterEnd
            &&& s.request == Request::TakePhoto <==> p.waiting is Photo
            &&& s.request == Request::Drain <==> p.waiting is Drained
            &&& !run.can_flip ==> checks == 0
            &&& match p.waiting {
                Waiting::FlipCheck | Waiting::FlipEnd | Waiting::FlipFlags => {
                    &&& run.can_flip
                    &&& checks == lights + 1
                    &&& takes_light(run, p.step as int)
                },
                Waiting::RecenterEnd | Waiting::RecenterFlags => {
                    &&& run.can_flip ==> checks == lights + 1
                    &&& takes_light(run, p.step as int)
                },
                Waiting::Over => true,
                _ => run.can_flip ==> checks == lights,
            }
            &&& match p.waiting {
                Waiting::Photo | Waiting::PhotoFlags => handed + 1 == photos,
                Waiting::Over => true,
                _ => handed == photos,
            }
            &&& match p.waiting {
                Waiting::Directory => made == begun + 1,
                Waiting::Over => true,
                Waiting::Drained => made == begun && p.step == run.steps@.len(),
                _ => made == begun,
            }
        }),
    decreases reports.len(),
{
    let all = requests(run, reports);
    if reports.len() == 0 {
        let none = Seq::<Request>::empty();
        assert(all.drop_last() =~= none);
        assert(times(none, Request::CheckFlip) == 0);
        assert(times(none, Request::HandOn) == 0);
        assert(times(none, Request::CreateDirectory) == 0);
    } else {
        let before = reports.drop_last();
        lemma_request_counts(run, before);
        lemma_history(run, before);
        assert(all.drop_last() =~= requests(run, before));
        let was = driven(run, before).position;
        if was.step < run.steps@.len() {
            assert(items_before(run.steps@, (was.step + 1) as nat) == items_before(
                run.steps@,
                was.step as nat,
            ) + if run.steps@[was.step as int] is Item {
                1nat
            } else {
                0nat
            });
        }
    }
}

/// A run that may flip the mount asks before each light frame whether a flip is
/// due, once; one that may not never asks.
pub proof fn law_flip_is_checked_for_each_light(run: SequenceRun, reports: Seq<Report>)
    requires
        run.wf(),
        run.steps@.len() < usize::MAX,
        is_history(run, reports),
    ensures
        !run.can_flip ==> times(requests(run, reports), Request::CheckFlip) == 0,
        run.can_flip && (driven(run, reports).request == Request::TakePhoto || driven(
            run,
            reports,
        ).request == Request::Drain) ==> times(requests(run, reports), Request::CheckFlip)
            == light_photos(run, reports),
{
    lemma_request_counts(run, reports);
}

/// The mount is flipped where a flip was reported as due, and nowhere else.
pub proof fn law_flip_follows_its_report(run: SequenceRun, reports: Seq<Report>)
    requires
        run.wf(),
        run.steps@.len() < usize::MAX,
        is_history(run, reports),
    ensures
        driven(run, reports).request == Request::Flip <==> reports.len() > 0 && reports.last()
            is FlipDue,
{
}

/// Every photo is handed on before the next one is taken and before the run
/// comes to its end.
pub proof fn law_photos_are_handed_on(run: SequenceRun, reports: Seq<Report>)
    requires
        run.wf(),
        run.steps@.len() < usize::MAX,
        is_history(run, reports),
    ensures
        driven(run, reports).request == Request::TakePhoto ==> times(
            requests(run, reports),
            Request::HandOn,
        ) + 1 == photo_steps(run, reports).len(),
        driven(run, reports).request == Request::Drain ==> times(
            requests(run, reports),
            Request::HandOn,
        ) == photo_steps(run, reports).len(),
{
    lemma_request_counts(run, reports);
}

/// A run that comes to its end has made a directory for each of its items.
pub proof fn law_each_item_gets_its_directory(run: SequenceRun, reports: Seq<Report>)
    requires
        run.wf(),
        run.steps@.len() < usize::MAX,
        run.items@.len() <= usize::MAX,
        is_history(run, reports),
        driven(run, reports).request == Request::Drain,
    ensures
        times(requests(run, reports), Request::CreateDirectory) == run.items@.len(),
{
    lemma_request_counts(run, reports);
    lemma_items_before(run.steps@, run.steps@.len());
    assert(run.steps@.take(run.steps@.len() as int) =~= run.steps@);
    law_each_item_begins(run.items@, run.resume as nat);
}

/// A run ends for a reason: it was stopped or paused, a directory could not be
/// made or a photo could not be taken, or it has come to its end. It fails in
/// the second case alone, and says that it is complete in the last case alone.
pub proof fn law_run_ends_for_a_reason(run: SequenceRun, reports: Seq<Report>)
    requires
        run.wf(),
        run.steps@.len() < usize::MAX,
        is_history(run, reports),
        driven(run, reports).position.waiting is Over,
    ensures
        reports.len() > 0,
        ({
            let asked = driven(run, reports.drop_last()).request;
            let end = driven(run, reports);
            match reports.last() {
                Report::Flags { running, paused } => (!running || paused) && (end.request
                    == Request::Finish || end.request == Request::DiscardPhoto),
                Report::Failed { .. } => (asked == Request::CreateDirectory || asked
                    == Request::TakePhoto) && end.request == Request::Fail,
                Report::Done => asked == Request::Drain && end.request == Request::Finish
                    && end.notes == seq![
                    "Sequence complete! Captured "@ + decimal(run.total as nat)
                        + " frames total."@,
                ],
                _ => false,
            }
        }),
{
    if reports.len() > 0 {
        lemma_request_counts(run, reports.drop_last());
        lemma_history(run, reports.drop_last());
    }
}

/// Neither a directory nor a photo that fails is passed over.
pub proof fn law_failure_ends_the_run(run: SequenceRun, reports: Seq<Report>)
    requires
        run.wf(),
        run.steps@.len() < usize::MAX,
        is_history(run, reports),
        reports.len() > 0,
        reports.last() is Failed,
        driven(run, reports.drop_last()).request == Request::TakePhoto || driven(
            run,
            reports.drop_last(),
        ).request == Request::CreateDirectory,
    ensures
        driven(run, reports).request == Request::Fail,
        driven(run, reports).position.waiting is Over,
{
    lemma_request_counts(run, reports.drop_last());
}

/// A photo that was taken is discarded where the run was stopped meanwhile, and
/// handed on where it was not.
pub proof fn law_photo_of_a_stopped_run_is_discarded(run: SequenceRun, p: RunPosition, paused: bool)
    requires
        p.waiting is Photo,
    ensures
        ({
            let taken = run.next_step(p, Report::Done);
            let stopped = Report::Flags { running: false, paused };
            let running = Report::Flags { running: true, paused };
            &&& taken.request == Request::ReadFlags { after_ms: 0 }
            &&& run.next_step(taken.position, stopped).request == Request::DiscardPhoto
            &&& run.next_step(taken.position, running).request == Request::HandOn
        }),
{
}

/// What is told of the mount, and what follows: a flip that is due is told with
/// the side of the pier and the hour angle. Behind a flip that was made the run
/// tells the new side and rests two seconds, behind one that failed and behind a
/// recentering it goes on at once; a failure is told with its reason.
pub proof fn law_motion_of_the_mount_is_told(run: SequenceRun, reports: Seq<Report>)
    requires
        run.wf(),
        run.steps@.len() < usize::MAX,
        is_history(run, reports),
        reports.len() > 0,
    ensures
        ({
            let asked = driven(run, reports.drop_last()).request;
            let now = driven(run, reports);
            match reports.last() {
                Report::FlipDue { pier, hour_angle } => now.notes == seq![
                    "Meridian flip triggered! Pier="@ + pier.label() + ", HA="@ + hour_angle@
                        + "h. Flipping..."@,
                ],
                Report::Flipped { pier } => {
                    &&& now.notes == seq!["Meridian flip complete. New pier side: "@ + pier.label()]
                    &&& now.request == (Request::ReadFlags { after_ms: 2000 })
                },
                Report::Failed { error } => {
                    &&& asked == Request::Flip ==> {
                        &&& now.notes == seq![
                            "Meridian flip failed: "@ + error@ + ". Continuing anyway."@,
                        ]
                        &&& now.request == (Request::ReadFlags { after_ms: 0 })
                    }
                    &&& asked == Request::Recenter ==> {
                        &&& now.notes == seq![
                            "Auto-recenter failed: "@ + error@ + ". Continuing sequence."@,
                        ]
                        &&& now.request == (Request::ReadFlags { after_ms: 0 })
                    }
                },
                Report::Done => asked == Request::Recenter ==> {
                    &&& now.notes == seq!["Auto-recenter complete."@]
                    &&& now.request == (Request::ReadFlags { after_ms: 0 })
                },
                _ => true,
            }
        }),
{
    lemma_request_counts(run, reports.drop_last());
    lemma_history(run, reports.drop_last());
}

/// A run that is stopped or paused says so, by what it was doing: a stop counts
/// before a pause.
pub proof fn law_stop_and_pause_are_told(
    run: SequenceRun,
    p: RunPosition,
    running: bool,
    paused: bool,
)
    requires
        !running || paused,
    ensures
        ({
            let notes = run.next_step(p, Report::Flags { running, paused }).notes;
            &&& p.waiting is ItemFlags && !running ==> notes == seq!["Plan cancelled manually."@]
            &&& p.waiting is ItemFlags && running ==> notes == seq!["Plan paused manually."@]
            &&& p.waiting is FrameFlags && !running ==> notes == seq![
                "Sequence cancelled manually."@,
            ]
            &&& p.waiting is FrameFlags && running ==> notes == seq!["Sequence paused manually."@]
            &&& p.waiting is FlipFlags && !running ==> notes == seq![
                "Sequence cancelled during meridian flip."@,
            ]
            &&& p.waiting is RecenterFlags && !running ==> notes == seq![
                "Sequence cancelled during recenter."@,
            ]
            &&& p.waiting is PhotoFlags && !running ==> notes == seq![
                "Sequence cancelled manually. Deleting last image."@,
            ]
            &&& p.waiting is HandedOn && paused ==> notes == seq!["Sequence paused manually."@]
        }),
{
}

/// A light that was handed on is counted, also where the run pauses behind it;
/// nothing else is.
pub proof fn law_lights_are_counted(run: SequenceRun, p: RunPosition, r: Report)
    requires
        run.wf(),
        run.steps@.len() < usize::MAX,
        p.step < run.steps@.len(),
        p.lights < u64::MAX,
        answers(p.waiting, r),
    ensures
        ({
            let light = run.steps@[p.step as int] matches PlanStep::Frame { item, .. }
                && run.items@[item as int].item_type is Light;
            run.next_step(p, r).position.lights == p.lights + if p.waiting is HandedOn && light {
                1int
            } else {
                0int
            }
        }),
{
}

} // verus!
