//! The guider as a whole: its session, the guide stars, the last errors, and
//! what is told of a frame.
//!
//! A position `P` and an error `E` are whatever the caller measures with.

use crate::guiding::session::{
    followed, found_again, last_of, GuiderAction, GuiderCommand, SampleWindow, Session,
    StarFindingAlgorithm, RMS_WINDOW_SIZE,
};
use vstd::prelude::*;

verus! {

/// The guider with its guide stars and the last errors.
#[derive(Debug)]
pub struct Guidance<P, E> {
    session: Session,
    stars: Vec<P>,
    errors: SampleWindow<E>,
}

/// The guider, with its lists as sequences.
pub struct GuidanceView<P, E> {
    pub session: Session,
    pub stars: Seq<P>,
    pub errors: Seq<E>,
}

impl<P, E> View for Guidance<P, E> {
    type V = GuidanceView<P, E>;

    closed spec fn view(&self) -> GuidanceView<P, E> {
        GuidanceView { session: self.session, stars: self.stars@, errors: self.errors@ }
    }
}

/// What is told of a frame.
#[derive(Debug)]
pub struct FrameStars<P> {
    pub is_guiding: bool,
    pub algorithm: StarFindingAlgorithm,
    pub guide_stars: Vec<P>,
    /// The first guide star.
    pub selected: Option<P>,
    /// The guide stars that were found again, with their numbers.
    pub again: Vec<(usize, P)>,
    /// The star on which the algorithms are compared.
    pub compared: Option<P>,
}

impl<P, E> GuidanceView<P, E> {
    /// A guider without stars and errors.
    pub open spec fn start() -> GuidanceView<P, E> {
        GuidanceView {
            session: Session { is_guiding: false, algorithm: StarFindingAlgorithm::FGF },
            stars: Seq::empty(),
            errors: Seq::empty(),
        }
    }

    /// An idle guider has no stars and no errors, and not too many errors are
    /// kept.
    pub open spec fn wf(self) -> bool {
        &&& self.errors.len() <= RMS_WINDOW_SIZE
        &&& !self.session.is_guiding ==> self.stars.len() == 0 && self.errors.len() == 0
    }

    /// The guider behind a command. A stop forgets the stars and the errors.
    pub open spec fn commanded(self, command: GuiderCommand) -> GuidanceView<P, E> {
        let session = self.session.after(command);
        if command is Stop {
            GuidanceView { session, stars: Seq::empty(), errors: Seq::empty() }
        } else {
            GuidanceView { session, ..self }
        }
    }

    /// The guider when stars were selected: they are the guide stars, and the
    /// errors are forgotten. An idle guider takes none.
    pub open spec fn selected(self, stars: Seq<P>) -> GuidanceView<P, E> {
        if self.session.is_guiding {
            GuidanceView { session: self.session, stars, errors: Seq::empty() }
        } else {
            self
        }
    }

    /// The guider when the error of a frame was measured, given the number of
    /// stars that were found again and whether the error is small.
    pub open spec fn measured(self, again: nat, small: bool, error: E) -> GuidanceView<P, E> {
        if self.session.is_guiding && again > 0 && small {
            GuidanceView {
                errors: last_of(self.errors.push(error), RMS_WINDOW_SIZE as int),
                ..self
            }
        } else {
            self
        }
    }

    /// `r` tells of a frame in which each guide star was looked for.
    pub open spec fn tells(self, found: Seq<Option<P>>, r: FrameStars<P>) -> bool {
        let again = followed(found, found.len());
        &&& r.is_guiding == self.session.is_guiding
        &&& r.algorithm == self.session.algorithm
        &&& r.guide_stars@ == self.stars
        &&& r.selected == if self.stars.len() > 0 {
            Some(self.stars[0])
        } else {
            None
        }
        &&& r.again@ == again
        &&& r.compared == if again.len() > 0 {
            Some(again[0].1)
        } else {
            None
        }
    }
}

impl<P: Copy, E> Guidance<P, E> {
    /// The guider is idle.
    pub fn new() -> (r: Guidance<P, E>)
        ensures
            r@ == GuidanceView::<P, E>::start(),
            r@.wf(),
    {
        Guidance { session: Session::new(), stars: Vec::new(), errors: SampleWindow::new() }
    }

    /// The state of the session.
    pub fn session(&self) -> (r: Session)
        ensures
            r == self@.session,
    {
        self.session
    }

    /// The guide stars.
    pub fn stars(&self) -> (r: &Vec<P>)
        ensures
            r@ == self@.stars,
    {
        &self.stars
    }

    /// The errors that are kept, the oldest first.
    pub fn errors(&self) -> (r: &Vec<E>)
        ensures
            r@ == self@.errors,
    {
        self.errors.samples()
    }

    /// Takes a command. Returns what it makes the guider do.
    pub fn command(&mut self, command: GuiderCommand) -> (r: GuiderAction)
        requires
            old(self)@.wf(),
        ensures
            final(self)@ == old(self)@.commanded(command),
            final(self)@.wf(),
            r == old(self)@.session.action_for(command),
    {
        let action = self.session.command(command);
        if let GuiderAction::ForgetStars = action {
            self.stars = Vec::new();
            self.errors.clear();
        }
        action
    }

    /// Takes the stars that were selected.
    pub fn select(&mut self, stars: Vec<P>)
        requires
            old(self)@.wf(),
        ensures
            final(self)@ == old(self)@.selected(stars@),
            final(self)@.wf(),
    {
        if self.session.is_guiding {
            self.stars = stars;
            self.errors.clear();
        }
    }

    /// Takes the error of a frame, where it counts.
    pub fn measure(&mut self, again: usize, small: bool, error: E)
        requires
            old(self)@.wf(),
        ensures
            final(self)@ == old(self)@.measured(again as nat, small, error),
            final(self)@.wf(),
    {
        if self.session.counts(again, small) {
            self.errors.record(error);
        }
    }

    /// What is told of a frame in which each guide star was looked for.
    pub fn frame_stars(&self, found: &Vec<Option<P>>) -> (r: FrameStars<P>)
        requires
            found@.len() == self@.stars.len(),
        ensures
            self@.tells(found@, r),
    {
        let mut guide_stars: Vec<P> = Vec::new();
        for i in 0..self.stars.len()
            invariant
                guide_stars@ == self.stars@.take(i as int),
        {
            let star = self.stars[i];
            assert(self.stars@.take(i + 1) =~= self.stars@.take(i as int).push(star));
            guide_stars.push(star);
        }
        assert(self.stars@.take(self.stars@.len() as int) =~= self.stars@);
        let selected = if guide_stars.len() > 0 {
            Some(guide_stars[0])
        } else {
            None
        };
        let again = found_again(found);
        let compared = if again.len() > 0 {
            Some(again[0].1)
        } else {
            None
        };
        FrameStars {
            is_guiding: self.session.is_guiding,
            algorithm: self.session.algorithm,
            guide_stars,
            selected,
            again,
            compared,
        }
    }
}

// ---------------------------------------------------------------------------
// Laws
// ---------------------------------------------------------------------------

/// What happens to a guider.
pub enum GuidanceEvent<P, E> {
    Command(GuiderCommand),
    Selected(Seq<P>),
    Measured { again: nat, small: bool, error: E },
}

/// The guider behind the events.
pub open spec fn behind<P, E>(events: Seq<GuidanceEvent<P, E>>) -> GuidanceView<P, E>
    decreases events.len(),
{
    if events.len() == 0 {
        GuidanceView::start()
    } else {
        let before = behind(events.drop_last());
        match events.last() {
            GuidanceEvent::Command(command) => before.commanded(command),
            GuidanceEvent::Selected(stars) => before.selected(stars),
            GuidanceEvent::Measured { again, small, error } => before.measured(again, small, error),
        }
    }
}

/// The last start or stop among the events is a start.
pub open spec fn was_started<P, E>(events: Seq<GuidanceEvent<P, E>>) -> bool
    decreases events.len(),
{
    if events.len() == 0 {
        false
    } else {
        match events.last() {
            GuidanceEvent::Command(GuiderCommand::Start) => true,
            GuidanceEvent::Command(GuiderCommand::Stop) => false,
            _ => was_started(events.drop_last()),
        }
    }
}

/// The guider is active exactly when it was started and not stopped since.
pub proof fn law_active_when_started<P, E>(events: Seq<GuidanceEvent<P, E>>)
    ensures
        behind(events).session.is_guiding == was_started(events),
        behind(events).wf(),
    decreases events.len(),
{
    if events.len() > 0 {
        law_active_when_started(events.drop_last());
    }
}

/// A guider that is idle, before the first start or after a stop, tells of no
/// stars, selected, found again or compared, and keeps no errors, whatever
/// happened before.
pub proof fn law_idle_guider_tells_nothing<P, E>(
    events: Seq<GuidanceEvent<P, E>>,
    found: Seq<Option<P>>,
    r: FrameStars<P>,
)
    requires
        !was_started(events),
        found.len() == behind(events).stars.len(),
        behind(events).tells(found, r),
    ensures
        !r.is_guiding,
        r.guide_stars@.len() == 0,
        r.selected is None,
        r.again@.len() == 0,
        r.compared is None,
        behind(events).errors.len() == 0,
{
    law_active_when_started(events);
}

/// The algorithm that was set last.
pub open spec fn last_algorithm<P, E>(events: Seq<GuidanceEvent<P, E>>) -> StarFindingAlgorithm
    decreases events.len(),
{
    if events.len() == 0 {
        StarFindingAlgorithm::FGF
    } else {
        match events.last() {
            GuidanceEvent::Command(GuiderCommand::SetAlgorithm { algorithm }) => algorithm,
            _ => last_algorithm(events.drop_last()),
        }
    }
}

/// The guider uses the algorithm that was set last, at first the fast Gaussian
/// fit.
pub proof fn law_last_algorithm_is_used<P, E>(events: Seq<GuidanceEvent<P, E>>)
    ensures
        behind(events).session.algorithm == last_algorithm(events),
    decreases events.len(),
{
    if events.len() > 0 {
        law_last_algorithm_is_used(events.drop_last());
    }
}

/// The stars that were selected last while the guider was active; none behind a
/// stop.
pub open spec fn last_selected<P, E>(events: Seq<GuidanceEvent<P, E>>) -> Seq<P>
    decreases events.len(),
{
    if events.len() == 0 {
        Seq::empty()
    } else {
        match events.last() {
            GuidanceEvent::Command(GuiderCommand::Stop) => Seq::empty(),
            GuidanceEvent::Selected(stars) => if was_started(events.drop_last()) {
                stars
            } else {
                last_selected(events.drop_last())
            },
            _ => last_selected(events.drop_last()),
        }
    }
}

/// The guide stars are those that were selected last while the guider was
/// active.
pub proof fn law_last_selection_is_followed<P, E>(events: Seq<GuidanceEvent<P, E>>)
    ensures
        behind(events).stars == last_selected(events),
    decreases events.len(),
{
    if events.len() > 0 {
        law_last_selection_is_followed(events.drop_last());
        law_active_when_started(events.drop_last());
    }
}

/// The errors that counted since the stars were selected, the oldest first: those
/// that are small and were measured on a star at least.
pub open spec fn errors_since<P, E>(events: Seq<GuidanceEvent<P, E>>) -> Seq<E>
    decreases events.len(),
{
    if events.len() == 0 {
        Seq::empty()
    } else {
        let before = events.drop_last();
        match events.last() {
            GuidanceEvent::Command(GuiderCommand::Stop) => Seq::empty(),
            GuidanceEvent::Selected(_) => if was_started(before) {
                Seq::empty()
            } else {
                errors_since(before)
            },
            GuidanceEvent::Measured { again, small, error } => if was_started(before) && again > 0
                && small {
                errors_since(before).push(error)
            } else {
                errors_since(before)
            },
            _ => errors_since(before),
        }
    }
}

/// The guider keeps the last hundred of the errors that counted since the stars
/// were selected.
pub proof fn law_errors_since_selection_are_kept<P, E>(events: Seq<GuidanceEvent<P, E>>)
    ensures
        ({
            let all = errors_since(events);
            behind(events).errors == if all.len() <= 100 {
                all
            } else {
                all.skip(all.len() - 100)
            }
        }),
    decreases events.len(),
{
    if events.len() > 0 {
        let before = events.drop_last();
        law_errors_since_selection_are_kept(before);
        law_active_when_started(before);
        let all = errors_since(events);
        let kept = if all.len() <= 100 {
            all
        } else {
            all.skip(all.len() - 100)
        };
        assert(behind(events).errors =~= kept);
    }
}

/// What is told of a frame: the first guide star is the selected one, and the
/// first star that was found again is the one that is compared.
pub proof fn law_what_a_frame_tells<P, E>(
    g: GuidanceView<P, E>,
    found: Seq<Option<P>>,
    r: FrameStars<P>,
)
    requires
        g.tells(found, r),
        found.len() == g.stars.len(),
        found.len() <= usize::MAX,
    ensures
        r.guide_stars@ == g.stars,
        r.is_guiding == g.session.is_guiding,
        r.algorithm == g.session.algorithm,
        r.selected is Some <==> g.stars.len() > 0,
        g.stars.len() > 0 ==> r.selected == Some(g.stars[0]),
        forall|k: usize, p: P|
            #[trigger] r.again@.contains((k, p)) <==> k < found.len() && found[k as int]
                == Some(p),
        r.compared is Some <==> r.again@.len() > 0,
        r.again@.len() > 0 ==> r.compared == Some(r.again@[0].1),
{
    assert forall|k: usize, p: P|
        #[trigger] r.again@.contains((k, p)) <==> k < found.len() && found[k as int]
            == Some(p) by {
        crate::guiding::session::law_found_stars_are_followed(found, found.len(), k, p);
    }
}

} // verus!
