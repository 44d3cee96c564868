//! The course of a guiding session.

use crate::number::{decimal, decimal_text};
use crate::text::concat3;
use vstd::prelude::*;

verus! {

/// How the position of a star is computed.
#[derive(Debug, Clone, Copy, PartialEq, Eq, Structural)]
pub enum StarFindingAlgorithm {
    /// Center of gravity.
    CG,
    /// Gaussian fit.
    GF,
    /// Fast Gaussian fit.
    FGF,
}

/// What the user asks of the guider.
#[derive(Debug, Clone, Copy, PartialEq, Eq, Structural)]
pub enum GuiderCommand {
    Start,
    Stop,
    SetAlgorithm { algorithm: StarFindingAlgorithm },
}

/// What a command makes the guider do.
#[derive(Debug, Clone, Copy, PartialEq, Eq, Structural)]
pub enum GuiderAction {
    /// Take a frame, select guide stars, refine them with the algorithm, take
    /// the position of the mount as the reference, and forget the errors.
    SelectStars,
    /// Forget the guide stars and the errors.
    ForgetStars,
    /// Nothing.
    Nothing,
}

/// The state of the guider.
#[derive(Debug, Clone, Copy, PartialEq, Eq, Structural)]
pub struct Session {
    pub is_guiding: bool,
    pub algorithm: StarFindingAlgorithm,
}

impl Session {
    /// The guider is idle and uses the fast Gaussian fit.
    pub fn new() -> (r: Session)
        ensures
            r == (Session { is_guiding: false, algorithm: StarFindingAlgorithm::FGF }),
    {
        Session { is_guiding: false, algorithm: StarFindingAlgorithm::FGF }
    }

    /// The state behind a command.
    pub open spec fn after(self, command: GuiderCommand) -> Session {
        match command {
            GuiderCommand::Start => Session { is_guiding: true, ..self },
            GuiderCommand::Stop => Session { is_guiding: false, ..self },
            GuiderCommand::SetAlgorithm { algorithm } => Session { algorithm, ..self },
        }
    }

    /// What a command makes the guider do.
    pub open spec fn action_for(self, command: GuiderCommand) -> GuiderAction {
        match command {
            GuiderCommand::Start => GuiderAction::SelectStars,
            GuiderCommand::Stop => GuiderAction::ForgetStars,
            GuiderCommand::SetAlgorithm { .. } => if self.is_guiding {
                GuiderAction::SelectStars
            } else {
                GuiderAction::Nothing
            },
        }
    }

    /// Takes a command. A new algorithm selects the guide stars anew while the
    /// guider is active, since the algorithms differ in the positions they
    /// find.
    pub fn command(&mut self, command: GuiderCommand) -> (r: GuiderAction)
        ensures
            *final(self) == old(self).after(command),
            r == old(self).action_for(command),
    {
        match command {
            GuiderCommand::Start => {
                self.is_guiding = true;
                GuiderAction::SelectStars
            },
            GuiderCommand::Stop => {
                self.is_guiding = false;
                GuiderAction::ForgetStars
            },
            GuiderCommand::SetAlgorithm { algorithm } => {
                self.algorithm = algorithm;
                if self.is_guiding {
                    GuiderAction::SelectStars
                } else {
                    GuiderAction::Nothing
                }
            },
        }
    }

    /// Whether the stars are followed in a frame.
    pub fn follows(&self, guide_stars: usize) -> (r: bool)
        ensures
            r == (self.is_guiding && guide_stars > 0),
    {
        self.is_guiding && guide_stars > 0
    }

    /// Whether the error of a frame counts, given the number of stars that
    /// were found again and whether the error is small.
    pub fn counts(&self, followed: usize, small: bool) -> (r: bool)
        ensures
            r == (self.is_guiding && followed > 0 && small),
    {
        self.is_guiding && followed > 0 && small
    }
}

// ---------------------------------------------------------------------------
// Stars that were found again
// ---------------------------------------------------------------------------

/// The guide stars that were found again, with their numbers.
pub open spec fn followed<P>(found: Seq<Option<P>>, n: nat) -> Seq<(usize, P)>
    decreases n,
{
    if n == 0 {
        Seq::empty()
    } else {
        let before = followed(found, (n - 1) as nat);
        match found[n - 1] {
            Some(p) => before.push(((n - 1) as usize, p)),
            None => before,
        }
    }
}

/// The guide stars that were found again, with their numbers.
pub fn found_again<P: Copy>(found: &Vec<Option<P>>) -> (r: Vec<(usize, P)>)
    ensures
        r@ == followed(found@, found@.len()),
{
    let mut out: Vec<(usize, P)> = Vec::new();
    for i in 0..found.len()
        invariant
            out@ == followed(found@, i as nat),
    {
        match found[i] {
            Some(p) => {
                out.push((i, p));
            },
            None => {},
        }
    }
    out
}

// ---------------------------------------------------------------------------
// The last errors
// ---------------------------------------------------------------------------

/// The number of errors that are kept.
pub const RMS_WINDOW_SIZE: usize = 100;

/// The last errors, the oldest first.
#[derive(Debug)]
pub struct SampleWindow<T> {
    samples: Vec<T>,
}

/// The last `limit` values of `all`.
pub open spec fn last_of<T>(all: Seq<T>, limit: int) -> Seq<T> {
    if all.len() <= limit {
        all
    } else {
        all.skip(all.len() - limit)
    }
}

impl<T> View for SampleWindow<T> {
    type V = Seq<T>;

    closed spec fn view(&self) -> Seq<T> {
        self.samples@
    }
}

impl<T> SampleWindow<T> {
    /// No error is kept yet.
    pub fn new() -> (r: SampleWindow<T>)
        ensures
            r@ == Seq::<T>::empty(),
    {
        SampleWindow { samples: Vec::new() }
    }

    /// Keeps one more error, and forgets the oldest where there are too many.
    pub fn record(&mut self, sample: T)
        requires
            old(self)@.len() <= RMS_WINDOW_SIZE,
        ensures
            final(self)@ == last_of(old(self)@.push(sample), RMS_WINDOW_SIZE as int),
            final(self)@.len() <= RMS_WINDOW_SIZE,
    {
        let ghost before = self.samples@;
        if self.samples.len() >= RMS_WINDOW_SIZE {
            let _ = self.samples.remove(0);
        }
        self.samples.push(sample);
        assert(self.samples@ =~= last_of(before.push(sample), RMS_WINDOW_SIZE as int));
    }

    /// Forgets all errors.
    pub fn clear(&mut self)
        ensures
            final(self)@ == Seq::<T>::empty(),
    {
        self.samples = Vec::new();
    }

    /// The errors that are kept, the oldest first.
    pub fn samples(&self) -> (r: &Vec<T>)
        ensures
            r@ == self@,
    {
        &self.samples
    }
}

/// The errors that are kept behind the first `n` that were recorded.
pub open spec fn recorded<T>(all: Seq<T>, n: nat) -> Seq<T>
    decreases n,
{
    if n == 0 {
        Seq::empty()
    } else {
        last_of(recorded(all, (n - 1) as nat).push(all[n - 1]), RMS_WINDOW_SIZE as int)
    }
}

/// The window always holds the last errors that were recorded.
pub proof fn law_window_holds_last<T>(all: Seq<T>, n: nat)
    requires
        n <= all.len(),
    ensures
        recorded(all, n) == last_of(all.take(n as int), RMS_WINDOW_SIZE as int),
    decreases n,
{
    if n == 0 {
        assert(recorded(all, n) =~= last_of(all.take(0), RMS_WINDOW_SIZE as int));
    } else {
        law_window_holds_last(all, (n - 1) as nat);
        assert(recorded(all, n) =~= last_of(all.take(n as int), RMS_WINDOW_SIZE as int));
    }
}

/// A stop forgets the stars, whatever came before, and a new algorithm alone
/// never starts the guider.
pub proof fn law_only_start_starts(s: Session, command: GuiderCommand)
    requires
        !s.is_guiding,
    ensures
        s.after(command).is_guiding <==> command is Start,
        s.action_for(command) is SelectStars <==> command is Start,
        s.after(GuiderCommand::Stop).is_guiding == false,
        s.action_for(GuiderCommand::Stop) is ForgetStars,
{
}

// ---------------------------------------------------------------------------
// The report of a frame
// ---------------------------------------------------------------------------

/// The numbers of a report, as text.
#[derive(Debug)]
pub struct FrameNumbers {
    pub mount_x: String,
    pub mount_y: String,
    pub error_ra: String,
    pub error_dec: String,
    pub error: String,
    pub correction_ra: String,
    pub correction_dec: String,
}

/// The report of a frame.
pub open spec fn frame_report(
    guiding: bool,
    n: FrameNumbers,
    micros: nat,
    followed: nat,
    guide_stars: nat,
) -> Seq<char> {
    let mount = "STATUS: "@ + if guiding {
        "GUIDING"@
    } else {
        "IDLE"@
    } + "\n\nMOUNT STATUS\n  Position: ("@ + n.mount_x@ + ", "@ + n.mount_y@
        + ")\n  Error:    ΔRA="@ + n.error_ra@ + "  ΔDEC="@ + n.error_dec@ + "  |Δ|="@
        + n.error@ + " px\n"@;
    if guiding {
        mount + "\nGUIDING\n  Correction: ΔRA="@ + n.correction_ra@ + "  ΔDEC="@
            + n.correction_dec@ + "\n  Time taken: "@ + decimal(micros) + "μs:\n\nSTAR TRACKING ("@
            + decimal(followed) + "/"@ + decimal(guide_stars) + " stars)\n"@
    } else {
        mount
    }
}

/// The report of a frame.
pub fn frame_report_text(
    guiding: bool,
    n: &FrameNumbers,
    micros: u64,
    followed: usize,
    guide_stars: usize,
) -> (r: String)
    ensures
        r@ == frame_report(guiding, *n, micros as nat, followed as nat, guide_stars as nat),
{
    let mut log = concat3(
        "STATUS: ",
        if guiding {
            "GUIDING"
        } else {
            "IDLE"
        },
        "\n\nMOUNT STATUS\n  Position: (",
    );
    log.append(n.mount_x.as_str());
    log.append(", ");
    log.append(n.mount_y.as_str());
    log.append(")\n  Error:    ΔRA=");
    log.append(n.error_ra.as_str());
    log.append("  ΔDEC=");
    log.append(n.error_dec.as_str());
    log.append("  |Δ|=");
    log.append(n.error.as_str());
    log.append(" px\n");
    if guiding {
        log.append("\nGUIDING\n  Correction: ΔRA=");
        log.append(n.correction_ra.as_str());
        log.append("  ΔDEC=");
        log.append(n.correction_dec.as_str());
        log.append("\n  Time taken: ");
        log.append(decimal_text(micros).as_str());
        log.append("μs:\n\nSTAR TRACKING (");
        log.append(decimal_text(followed as u64).as_str());
        log.append("/");
        log.append(decimal_text(guide_stars as u64).as_str());
        log.append(" stars)\n");
    }
    log
}

/// The window holds all errors as long as there are at most a hundred, and then
/// the last hundred, in their order.
pub proof fn law_hundred_errors_are_kept<T>(all: Seq<T>, n: nat)
    requires
        n <= all.len(),
    ensures
        n <= 100 ==> recorded(all, n) == all.take(n as int),
        n > 100 ==> recorded(all, n) == all.subrange(n - 100, n as int),
{
    law_window_holds_last(all, n);
    if n > 100 {
        assert(all.take(n as int).skip(n - 100) =~= all.subrange(n - 100, n as int));
    }
}

/// A star was found again where it was found, with its number and its position,
/// and no other was.
pub proof fn law_found_stars_are_followed<P>(found: Seq<Option<P>>, n: nat, k: usize, p: P)
    requires
        n <= found.len() <= usize::MAX,
    ensures
        followed(found, n).contains((k, p)) <==> k < n && found[k as int] == Some(p),
    decreases n,
{
    if n > 0 {
        let before = followed(found, (n - 1) as nat);
        let all = followed(found, n);
        law_found_stars_are_followed(found, (n - 1) as nat, k, p);
        match found[n - 1] {
            Some(q) => {
                let new = ((n - 1) as usize, q);
                assert(all.last() == new);
                if before.contains((k, p)) {
                    let i = choose|i: int| 0 <= i < before.len() && before[i] == (k, p);
                    assert(all[i] == (k, p));
                }
                if all.contains((k, p)) && (k, p) != new {
                    let i = choose|i: int| 0 <= i < all.len() && all[i] == (k, p);
                    assert(before[i] == (k, p));
                }
                if k == n - 1 && p == q {
                    assert(all[all.len() - 1] == (k, p));
                }
            },
            None => {},
        }
    }
}

/// Stars that were found again stand in the order of their numbers.
pub proof fn law_followed_in_order<P>(found: Seq<Option<P>>, n: nat, i: int, j: int)
    requires
        n <= found.len() <= usize::MAX,
        0 <= i < j < followed(found, n).len(),
    ensures
        followed(found, n)[i].0 < followed(found, n)[j].0,
    decreases n,
{
    if n > 0 {
        let before = followed(found, (n - 1) as nat);
        let all = followed(found, n);
        if j < before.len() {
            law_followed_in_order(found, (n - 1) as nat, i, j);
            assert(all[i] == before[i] && all[j] == before[j]);
        } else {
            assert(all[i] == before[i]);
            assert(before.contains(before[i]));
            law_found_stars_are_followed(found, (n - 1) as nat, before[i].0, before[i].1);
        }
    }
}

/// What each command does: a start makes the guider active and selects stars, a
/// stop makes it idle and forgets them, and a new algorithm replaces the old
/// one, selects stars where the guider is active, and leaves it as active as it
/// was. Neither a start nor a stop changes the algorithm.
pub proof fn law_commands(s: Session, algorithm: StarFindingAlgorithm)
    ensures
        s.after(GuiderCommand::Start).is_guiding,
        s.action_for(GuiderCommand::Start) == GuiderAction::SelectStars,
        !s.after(GuiderCommand::Stop).is_guiding,
        s.action_for(GuiderCommand::Stop) == GuiderAction::ForgetStars,
        s.after(GuiderCommand::Start).algorithm == s.algorithm,
        s.after(GuiderCommand::Stop).algorithm == s.algorithm,
        ({
            let set = GuiderCommand::SetAlgorithm { algorithm };
            &&& s.after(set).algorithm == algorithm
            &&& s.after(set).is_guiding == s.is_guiding
            &&& s.action_for(set) == if s.is_guiding {
                GuiderAction::SelectStars
            } else {
                GuiderAction::Nothing
            }
        }),
{
}

/// An idle guider reports the mount alone; an active one adds to the same report
/// the correction, the time and how many of its stars it found again.
pub proof fn law_report_of_a_frame(
    n: FrameNumbers,
    micros: nat,
    followed: nat,
    guide_stars: nat,
)
    ensures
        ({
            let mount = "\n\nMOUNT STATUS\n  Position: ("@ + n.mount_x@ + ", "@ + n.mount_y@
                + ")\n  Error:    ΔRA="@ + n.error_ra@ + "  ΔDEC="@ + n.error_dec@ + "  |Δ|="@
                + n.error@ + " px\n"@;
            let stars = "\nGUIDING\n  Correction: ΔRA="@ + n.correction_ra@ + "  ΔDEC="@
                + n.correction_dec@ + "\n  Time taken: "@ + decimal(micros)
                + "μs:\n\nSTAR TRACKING ("@ + decimal(followed) + "/"@ + decimal(guide_stars)
                + " stars)\n"@;
            &&& frame_report(false, n, micros, followed, guide_stars) == "STATUS: IDLE"@ + mount
            &&& frame_report(true, n, micros, followed, guide_stars) == "STATUS: GUIDING"@ + mount
                + stars
        }),
{
    let mount = "\n\nMOUNT STATUS\n  Position: ("@ + n.mount_x@ + ", "@ + n.mount_y@
        + ")\n  Error:    ΔRA="@ + n.error_ra@ + "  ΔDEC="@ + n.error_dec@ + "  |Δ|="@ + n.error@
        + " px\n"@;
    let stars = "\nGUIDING\n  Correction: ΔRA="@ + n.correction_ra@ + "  ΔDEC="@
        + n.correction_dec@ + "\n  Time taken: "@ + decimal(micros) + "μs:\n\nSTAR TRACKING ("@
        + decimal(followed) + "/"@ + decimal(guide_stars) + " stars)\n"@;
    reveal_strlit("STATUS: ");
    reveal_strlit("IDLE");
    reveal_strlit("GUIDING");
    reveal_strlit("STATUS: IDLE");
    reveal_strlit("STATUS: GUIDING");
    assert("STATUS: "@ + "IDLE"@ =~= "STATUS: IDLE"@);
    assert("STATUS: "@ + "GUIDING"@ =~= "STATUS: GUIDING"@);
    assert(frame_report(false, n, micros, followed, guide_stars) =~= "STATUS: "@ + "IDLE"@ + mount);
    assert(frame_report(true, n, micros, followed, guide_stars) =~= "STATUS: "@ + "GUIDING"@ + mount
        + stars);
}

} // verus!
