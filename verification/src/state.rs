//! What the server keeps between requests. Real numbers are text.

use crate::number::{decimal, decimal_text, parse_decimal, read_decimal};
use crate::progress::{parse_progress, progress_of};
use crate::reals::{is_real, is_short_decimal, shortest, shortest_text, text_writes_real};
use crate::text::concat3;
use vstd::prelude::*;

verus! {

/// Where the observer stands.
#[derive(Debug, Clone)]
pub struct Location {
    pub latitude: String,
    pub longitude: String,
    pub elevation: String,
}

/// What the camera is set to.
#[derive(Debug, Clone)]
pub struct CameraGlobalSettings {
    pub iso: u64,
    pub platesolving_exposure: String,
    pub pixel_size_micron: String,
    pub focal_length_mm: String,
    pub bitdepth: u16,
    /// The model of the connected camera, empty as long as none was connected.
    pub camera_model: String,
}

/// What a solver has to know of the camera.
#[derive(Debug, Clone)]
pub struct CameraConfig {
    pub pixel_size_micron: String,
    pub focal_length_mm: String,
    pub bitdepth: u16,
}

impl Default for CameraGlobalSettings {
    fn default() -> (r: Self)
        ensures
            r.iso == 1600,
            r.platesolving_exposure@ == "2"@,
            r.pixel_size_micron@ == "6"@,
            r.focal_length_mm@ == "714"@,
            r.bitdepth == 14,
            r.camera_model@ == ""@,
    {
        CameraGlobalSettings {
            iso: 1600,
            platesolving_exposure: "2".to_owned(),
            pixel_size_micron: "6".to_owned(),
            focal_length_mm: "714".to_owned(),
            bitdepth: 14,
            camera_model: "".to_owned(),
        }
    }
}

/// A request to change what the camera is set to.
#[derive(Debug, Clone)]
pub struct CameraSettingsPayload {
    pub iso: String,
    pub platesolving_exposure: String,
    pub pixel_size_micron: Option<String>,
    pub focal_length_mm: Option<String>,
    pub bitdepth: Option<String>,
}

/// The numbers that the texts of a request write, as floating point prints
/// them. What stands here for a text that writes no number is not used.
#[derive(Debug, Clone)]
pub struct PrintedReals {
    pub platesolving_exposure: String,
    pub pixel_size_micron: String,
    pub focal_length_mm: String,
}

/// The new text of a real number: the number asked for, where the text writes
/// one, else the one before. A short decimal takes its shortest form; any other
/// number stands as it is printed.
pub open spec fn real_or_kept(asked: Seq<char>, printed: Seq<char>, kept: Seq<char>) -> Seq<char> {
    if is_short_decimal(asked) {
        shortest(asked)
    } else if is_real(asked) {
        printed
    } else {
        kept
    }
}

/// The same, where nothing may be asked for.
pub open spec fn asked_or_kept(
    asked: Option<String>,
    printed: Seq<char>,
    kept: Seq<char>,
) -> Seq<char> {
    match asked {
        Some(v) => real_or_kept(v@, printed, kept),
        None => kept,
    }
}

/// The number asked for, where the text writes one that is not too large, else
/// the one before.
pub open spec fn number_or_kept(asked: Seq<char>, kept: nat, max: nat) -> nat {
    match parse_decimal(asked, max) {
        Some(n) => n,
        None => kept,
    }
}

fn keep_real(asked: &str, printed: &str, kept: String) -> (r: String)
    ensures
        r@ == real_or_kept(asked@, printed@, kept@),
{
    match shortest_text(asked) {
        Some(short) => short,
        None => if text_writes_real(asked) {
            printed.to_owned()
        } else {
            kept
        },
    }
}

fn keep_asked(asked: &Option<String>, printed: &str, kept: String) -> (r: String)
    ensures
        r@ == asked_or_kept(*asked, printed@, kept@),
{
    match asked {
        Some(v) => keep_real(v.as_str(), printed, kept),
        None => kept,
    }
}

impl CameraGlobalSettings {
    /// What a solver has to know of the camera.
    pub fn to_camera_config(&self) -> (r: CameraConfig)
        ensures
            r.pixel_size_micron@ == self.pixel_size_micron@,
            r.focal_length_mm@ == self.focal_length_mm@,
            r.bitdepth == self.bitdepth,
    {
        CameraConfig {
            pixel_size_micron: self.pixel_size_micron.clone(),
            focal_length_mm: self.focal_length_mm.clone(),
            bitdepth: self.bitdepth,
        }
    }

    /// The settings after a request to change them. Each text that does not
    /// write a number of its kind leaves its setting as it was.
    pub fn changed(self, payload: &CameraSettingsPayload, printed: &PrintedReals) -> (r:
        CameraGlobalSettings)
        ensures
            r.iso == number_or_kept(payload.iso@, self.iso as nat, u64::MAX as nat),
            r.platesolving_exposure@ == real_or_kept(
                payload.platesolving_exposure@,
                printed.platesolving_exposure@,
                self.platesolving_exposure@,
            ),
            r.pixel_size_micron@ == asked_or_kept(
                payload.pixel_size_micron,
                printed.pixel_size_micron@,
                self.pixel_size_micron@,
            ),
            r.focal_length_mm@ == asked_or_kept(
                payload.focal_length_mm,
                printed.focal_length_mm@,
                self.focal_length_mm@,
            ),
            r.bitdepth == match payload.bitdepth {
                Some(v) => number_or_kept(v@, self.bitdepth as nat, u16::MAX as nat),
                None => self.bitdepth as nat,
            },
            r.camera_model == self.camera_model,
    {
        let iso: u64 = match read_decimal(payload.iso.as_str(), u64::MAX) {
            Some(n) => n,
            None => self.iso,
        };
        let bitdepth: u16 = match &payload.bitdepth {
            Some(v) => match read_decimal(v.as_str(), u16::MAX as u64) {
                Some(n) => n as u16,
                None => self.bitdepth,
            },
            None => self.bitdepth,
        };
        CameraGlobalSettings {
            iso,
            platesolving_exposure: keep_real(
                payload.platesolving_exposure.as_str(),
                printed.platesolving_exposure.as_str(),
                self.platesolving_exposure,
            ),
            pixel_size_micron: keep_asked(
                &payload.pixel_size_micron,
                printed.pixel_size_micron.as_str(),
                self.pixel_size_micron,
            ),
            focal_length_mm: keep_asked(
                &payload.focal_length_mm,
                printed.focal_length_mm.as_str(),
                self.focal_length_mm,
            ),
            bitdepth,
            camera_model: self.camera_model,
        }
    }

    /// What is published when the settings were changed.
    pub open spec fn changed_note(self) -> Seq<char> {
        "Camera settings updated: ISO="@ + decimal(self.iso as nat) + ", Plate Expose="@
            + self.platesolving_exposure@ + ", Pixel Size="@ + self.pixel_size_micron@
            + "μm, Focal Length="@ + self.focal_length_mm@ + "mm, Bitdepth="@ + decimal(
            self.bitdepth as nat,
        )
    }

    /// What is published when the settings were changed.
    pub fn changed_text(&self) -> (r: String)
        ensures
            r@ == self.changed_note(),
    {
        let mut m = concat3(
            "Camera settings updated: ISO=",
            decimal_text(self.iso).as_str(),
            ", Plate Expose=",
        );
        m.append(self.platesolving_exposure.as_str());
        m.append(", Pixel Size=");
        m.append(self.pixel_size_micron.as_str());
        m.append("μm, Focal Length=");
        m.append(self.focal_length_mm.as_str());
        m.append("mm, Bitdepth=");
        m.append(decimal_text(self.bitdepth as u64).as_str());
        m
    }
}

/// What is to be done around a sequence.
#[derive(Debug, Clone)]
pub struct SequenceOptions {
    pub park_after: bool,
    pub shutdown_after: bool,
    pub meridian_flip: bool,
    pub post_meridian_limit_h: String,
    pub subfolder: String,
    /// The number of light frames between two recenterings, 0 for none.
    pub recenter_every: u32,
    /// What is added to the names of the frames, empty for nothing.
    pub custom_suffix: String,
}

impl Default for SequenceOptions {
    fn default() -> (r: Self)
        ensures
            !r.park_after && !r.shutdown_after && !r.meridian_flip,
            r.post_meridian_limit_h@ == "0.1"@,
            r.subfolder@ == ""@,
            r.recenter_every == 0,
            r.custom_suffix@ == ""@,
    {
        SequenceOptions {
            park_after: false,
            shutdown_after: false,
            meridian_flip: false,
            post_meridian_limit_h: "0.1".to_owned(),
            subfolder: "".to_owned(),
            recenter_every: 0,
            custom_suffix: "".to_owned(),
        }
    }
}

/// An entry of the plan that a client keeps on the server.
#[derive(Debug, Clone)]
pub struct SequenceItemBackend {
    pub id: String,
    pub item_type: String,
    pub exposure: String,
    pub count: String,
    pub target_name: String,
    pub target_ra_deg: String,
    pub target_dec_deg: String,
    pub skip_goto: bool,
}

/// How far a sequence has come.
#[derive(Debug, Clone)]
pub struct SequenceProgress {
    pub current: u32,
    pub total: u32,
    pub msg: String,
}

/// The plan that is kept, and how far its sequence has come.
#[derive(Debug, Clone)]
pub struct BackendSequenceState {
    pub plan: Vec<SequenceItemBackend>,
    pub status: String,
    pub progress: Option<SequenceProgress>,
}

impl Default for BackendSequenceState {
    fn default() -> (r: Self)
        ensures
            r.plan@.len() == 0,
            r.status@ == "idle"@,
            r.progress is None,
    {
        BackendSequenceState { plan: Vec::new(), status: "idle".to_owned(), progress: None }
    }
}

/// A change of the state of the sequence: what is absent stays.
#[derive(Debug, Clone)]
pub struct SequenceStateUpdate {
    pub plan: Option<Vec<SequenceItemBackend>>,
    pub status: Option<String>,
    pub progress: Option<SequenceProgress>,
}

impl BackendSequenceState {
    /// A sequence starts.
    pub fn start(&mut self)
        ensures
            final(self).plan == old(self).plan,
            final(self).status@ == "running"@,
            final(self).progress is None,
    {
        self.status = "running".to_owned();
        self.progress = None;
    }

    /// A sequence could not start.
    pub fn give_up(&mut self)
        ensures
            final(self).plan == old(self).plan,
            final(self).status@ == "idle"@,
            final(self).progress == old(self).progress,
    {
        self.status = "idle".to_owned();
    }

    /// The sequence is stopped.
    pub fn stop(&mut self)
        ensures
            final(self).plan == old(self).plan,
            final(self).status@ == "idle"@,
            final(self).progress is None,
    {
        self.status = "idle".to_owned();
        self.progress = None;
    }

    /// The sequence is paused. How far it has come stays known.
    pub fn pause(&mut self)
        ensures
            final(self).plan == old(self).plan,
            final(self).status@ == "paused"@,
            final(self).progress == old(self).progress,
    {
        self.status = "paused".to_owned();
    }

    /// The sequence is over, or paused.
    pub fn finish(&mut self, paused: bool)
        ensures
            final(self).plan == old(self).plan,
            final(self).status@ == if paused {
                "paused"@
            } else {
                "idle"@
            },
            final(self).progress == if paused {
                old(self).progress
            } else {
                None
            },
    {
        if paused {
            self.pause();
        } else {
            self.stop();
        }
    }

    /// Takes note of a published message: where it tells how far the sequence
    /// has come, that is kept.
    pub fn follow(&mut self, message: &str)
        ensures
            final(self).plan == old(self).plan,
            final(self).status == old(self).status,
            match progress_of(message@) {
                Some((current, total, msg)) => {
                    &&& final(self).progress matches Some(p)
                    &&& p.current == current
                    &&& p.total == total
                    &&& p.msg@ == msg
                },
                None => final(self).progress == old(self).progress,
            },
    {
        match parse_progress(message) {
            Some(p) => {
                self.progress = Some(p);
            },
            None => {},
        }
    }

    /// Changes what the update names.
    pub fn update(&mut self, update: SequenceStateUpdate)
        ensures
            final(self).plan == match update.plan {
                Some(plan) => plan,
                None => old(self).plan,
            },
            final(self).status == match update.status {
                Some(status) => status,
                None => old(self).status,
            },
            final(self).progress == match update.progress {
                Some(progress) => Some(progress),
                None => old(self).progress,
            },
    {
        match update.plan {
            Some(plan) => {
                self.plan = plan;
            },
            None => {},
        }
        match update.status {
            Some(status) => {
                self.status = status;
            },
            None => {},
        }
        match update.progress {
            Some(progress) => {
                self.progress = Some(progress);
            },
            None => {},
        }
    }
}

/// All settings.
#[derive(Debug, Clone)]
pub struct Settings {
    pub camera_settings: CameraGlobalSettings,
    pub closed_loop: bool,
    pub observer_location: Location,
    pub sequence_options: SequenceOptions,
    pub sequence_state: BackendSequenceState,
}

/// A change of the settings: what is absent stays.
#[derive(Debug, Clone)]
pub struct SettingsUpdate {
    pub camera_settings: Option<CameraGlobalSettings>,
    pub closed_loop: Option<bool>,
    pub observer_location: Option<Location>,
    pub sequence_options: Option<SequenceOptions>,
    pub sequence_state: Option<SequenceStateUpdate>,
}

/// `new` is what the update makes of the state of the sequence.
pub open spec fn is_updated_sequence(
    before: BackendSequenceState,
    update: SequenceStateUpdate,
    new: BackendSequenceState,
) -> bool {
    &&& new.plan == match update.plan {
        Some(plan) => plan,
        None => before.plan,
    }
    &&& new.status == match update.status {
        Some(status) => status,
        None => before.status,
    }
    &&& new.progress == match update.progress {
        Some(progress) => Some(progress),
        None => before.progress,
    }
}

impl Settings {
    /// Changes what the update names, and returns whether the mount has to be
    /// told a new location.
    pub fn update(&mut self, update: SettingsUpdate) -> (tell_mount: bool)
        ensures
            final(self).camera_settings == match update.camera_settings {
                Some(s) => s,
                None => old(self).camera_settings,
            },
            final(self).closed_loop == match update.closed_loop {
                Some(c) => c,
                None => old(self).closed_loop,
            },
            final(self).observer_location == match update.observer_location {
                Some(l) => l,
                None => old(self).observer_location,
            },
            final(self).sequence_options == match update.sequence_options {
                Some(o) => o,
                None => old(self).sequence_options,
            },
            match update.sequence_state {
                Some(u) => is_updated_sequence(
                    old(self).sequence_state,
                    u,
                    final(self).sequence_state,
                ),
                None => final(self).sequence_state == old(self).sequence_state,
            },
            tell_mount == (update.observer_location is Some),
    {
        let tell_mount = update.observer_location.is_some();
        match update.camera_settings {
            Some(s) => {
                self.camera_settings = s;
            },
            None => {},
        }
        match update.closed_loop {
            Some(c) => {
                self.closed_loop = c;
            },
            None => {},
        }
        match update.observer_location {
            Some(l) => {
                self.observer_location = l;
            },
            None => {},
        }
        match update.sequence_options {
            Some(o) => {
                self.sequence_options = o;
            },
            None => {},
        }
        match update.sequence_state {
            Some(u) => {
                self.sequence_state.update(u);
            },
            None => {},
        }
        tell_mount
    }
}

/// An update that names nothing changes nothing.
pub proof fn law_empty_update_changes_nothing(
    before: BackendSequenceState,
    update: SequenceStateUpdate,
    new: BackendSequenceState,
)
    requires
        update.plan is None,
        update.status is None,
        update.progress is None,
        is_updated_sequence(before, update, new),
    ensures
        new == before,
{
}

/// The same update twice does what it does once.
pub proof fn law_update_twice(
    before: BackendSequenceState,
    update: SequenceStateUpdate,
    once: BackendSequenceState,
    twice: BackendSequenceState,
)
    requires
        is_updated_sequence(before, update, once),
        is_updated_sequence(once, update, twice),
    ensures
        twice == once,
{
}

/// A whole number that was asked for and is not too large replaces the one
/// before; one that is too large, and a text that is none, leaves it.
pub proof fn law_number_replaces(n: nat, kept: nat, max: nat, other: Seq<char>)
    ensures
        n <= max ==> number_or_kept(decimal(n), kept, max) == n,
        n > max ==> number_or_kept(decimal(n), kept, max) == kept,
        parse_decimal(other, max) is None ==> number_or_kept(other, kept, max) == kept,
{
    if n <= max {
        crate::number::law_decimal_round_trip(n, max);
    } else {
        crate::number::law_read_back(n, 10);
        let w = decimal(n);
        assert(crate::number::is_digit_of(w[0], 10));
        assert(w[0] != '+');
    }
}

/// A number that was asked for replaces the one before, in its shortest form
/// where it is short and as it is printed where it is not; a text that is no
/// number leaves it, and so does nothing at all.
pub proof fn law_real_replaces(asked: String, printed: Seq<char>, kept: Seq<char>)
    ensures
        is_short_decimal(asked@) ==> real_or_kept(asked@, printed, kept) == shortest(asked@),
        is_real(asked@) && !is_short_decimal(asked@) ==> real_or_kept(asked@, printed, kept)
            == printed,
        !is_real(asked@) ==> real_or_kept(asked@, printed, kept) == kept,
        asked_or_kept(Some(asked), printed, kept) == real_or_kept(asked@, printed, kept),
        asked_or_kept(None, printed, kept) == kept,
{
}

} // verus!
