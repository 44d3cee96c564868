//! The frames of a sequence, in the order in which they are taken.

use crate::number::{decimal, padded_text, zero_padded};
use crate::text::{chars_of, concat2};
use vstd::prelude::*;

verus! {

/// The kind of a frame.
#[derive(Debug, Clone, Copy, PartialEq, Eq, Structural)]
pub enum SequenceType {
    Light,
    Dark,
    Bias,
    Flat,
}

impl SequenceType {
    /// The folder that holds frames of this kind.
    pub open spec fn folder(self) -> Seq<char> {
        match self {
            SequenceType::Light => "lights"@,
            SequenceType::Dark => "darks"@,
            SequenceType::Bias => "biases"@,
            SequenceType::Flat => "flats"@,
        }
    }

    /// The word for this kind in file names.
    pub open spec fn label(self) -> Seq<char> {
        match self {
            SequenceType::Light => "Light"@,
            SequenceType::Dark => "Dark"@,
            SequenceType::Bias => "Bias"@,
            SequenceType::Flat => "Flat"@,
        }
    }

    /// The folder that holds frames of this kind.
    pub fn folder_name(&self) -> (r: String)
        ensures
            r@ == self.folder(),
    {
        match self {
            SequenceType::Light => "lights".to_owned(),
            SequenceType::Dark => "darks".to_owned(),
            SequenceType::Bias => "biases".to_owned(),
            SequenceType::Flat => "flats".to_owned(),
        }
    }

    /// The word for this kind in file names.
    pub fn label_text(&self) -> (r: String)
        ensures
            r@ == self.label(),
    {
        match self {
            SequenceType::Light => "Light".to_owned(),
            SequenceType::Dark => "Dark".to_owned(),
            SequenceType::Bias => "Bias".to_owned(),
            SequenceType::Flat => "Flat".to_owned(),
        }
    }
}

/// A number of frames of one kind and exposure.
#[derive(Debug, Clone)]
pub struct SequenceItem {
    pub item_type: SequenceType,
    /// The exposure in seconds, as text.
    pub exposure: String,
    pub count: u32,
}

impl SequenceItem {
    /// The exposure that is used: a bias frame has the shortest there is.
    pub open spec fn used_exposure(self) -> Seq<char> {
        if self.item_type is Bias {
            "0"@
        } else {
            self.exposure@
        }
    }

    /// The exposure that is used: a bias frame has the shortest there is.
    pub fn exposure_text(&self) -> (r: String)
        ensures
            r@ == self.used_exposure(),
    {
        match self.item_type {
            SequenceType::Bias => "0".to_owned(),
            _ => self.exposure.clone(),
        }
    }
}

/// One step of a run: the start of an item, or a frame of it.
#[derive(Debug, Clone, Copy, PartialEq, Eq, Structural)]
pub enum PlanStep {
    /// The item at this position begins.
    Item { item: usize },
    /// Frame `number` (from 1) of the item, frame `index` (from 1) of the run.
    Frame { item: usize, number: u32, index: u32 },
}

/// The number of frames of the first `k` items.
pub open spec fn frames_upto(items: Seq<SequenceItem>, k: nat) -> nat
    decreases k,
{
    if k == 0 {
        0
    } else {
        frames_upto(items, (k - 1) as nat) + items[k - 1].count as nat
    }
}

/// The number of frames of all items.
pub open spec fn frame_total(items: Seq<SequenceItem>) -> nat {
    frames_upto(items, items.len())
}

/// How many of `count` frames that follow the first `base` frames were taken,
/// where the first `resume` frames of the run were.
pub open spec fn skipped(count: nat, base: nat, resume: nat) -> nat {
    if resume <= base {
        0
    } else if resume - base >= count {
        count
    } else {
        (resume - base) as nat
    }
}

/// The frames of one item that are still to be taken.
pub open spec fn item_frames(item: int, count: nat, base: nat, resume: nat) -> Seq<PlanStep> {
    let s = skipped(count, base, resume);
    Seq::new(
        (count - s) as nat,
        |j: int|
            PlanStep::Frame {
                item: item as usize,
                number: (s + j + 1) as u32,
                index: (base + s + j + 1) as u32,
            },
    )
}

/// The steps of the first `k` items.
pub open spec fn steps_upto(items: Seq<SequenceItem>, resume: nat, k: nat) -> Seq<PlanStep>
    decreases k,
{
    if k == 0 {
        Seq::empty()
    } else {
        let before = (k - 1) as nat;
        steps_upto(items, resume, before).push(PlanStep::Item { item: before as usize })
            + item_frames(
            before as int,
            items[before as int].count as nat,
            frames_upto(items, before),
            resume,
        )
    }
}

/// The steps of a run that goes on behind frame `resume`.
pub open spec fn run_steps(items: Seq<SequenceItem>, resume: nat) -> Seq<PlanStep> {
    steps_upto(items, resume, items.len())
}

/// The run indices of the frames among `steps`.
pub open spec fn frame_indices(steps: Seq<PlanStep>) -> Seq<u32>
    decreases steps.len(),
{
    if steps.len() == 0 {
        Seq::empty()
    } else {
        match steps.last() {
            PlanStep::Frame { index, .. } => frame_indices(steps.drop_last()).push(index),
            PlanStep::Item { .. } => frame_indices(steps.drop_last()),
        }
    }
}

/// The consecutive frame indices from `first` to `last`.
pub open spec fn index_range(first: nat, last: nat) -> Seq<u32> {
    Seq::new(
        if last + 1 >= first {
            (last + 1 - first) as nat
        } else {
            0
        },
        |j: int| (first + j) as u32,
    )
}

pub proof fn lemma_frames_monotone(items: Seq<SequenceItem>, a: nat, b: nat)
    requires
        a <= b,
    ensures
        frames_upto(items, a) <= frames_upto(items, b),
    decreases b,
{
    if a < b {
        lemma_frames_monotone(items, a, (b - 1) as nat);
    }
}

proof fn lemma_indices_concat(a: Seq<PlanStep>, b: Seq<PlanStep>)
    ensures
        frame_indices(a + b) == frame_indices(a) + frame_indices(b),
    decreases b.len(),
{
    if b.len() == 0 {
        assert(a + b =~= a);
        assert(frame_indices(a) + frame_indices(b) =~= frame_indices(a));
    } else {
        assert((a + b).drop_last() =~= a + b.drop_last());
        assert((a + b).last() == b.last());
        lemma_indices_concat(a, b.drop_last());
        assert(frame_indices(a + b) =~= frame_indices(a) + frame_indices(b));
    }
}

proof fn lemma_item_indices(item: int, count: nat, base: nat, resume: nat, n: nat)
    requires
        n <= count - skipped(count, base, resume),
    ensures
        frame_indices(item_frames(item, count, base, resume).take(n as int)) == Seq::new(
            n,
            |j: int| (base + skipped(count, base, resume) + j + 1) as u32,
        ),
    decreases n,
{
    let f = item_frames(item, count, base, resume);
    if n > 0 {
        lemma_item_indices(item, count, base, resume, (n - 1) as nat);
        assert(f.take(n as int).drop_last() =~= f.take(n - 1));
        assert(f.take(n as int).last() == f[n - 1]);
    }
    assert(frame_indices(f.take(n as int)) =~= Seq::new(
        n,
        |j: int| (base + skipped(count, base, resume) + j + 1) as u32,
    ));
}

proof fn lemma_indices_upto(items: Seq<SequenceItem>, resume: nat, k: nat)
    requires
        k <= items.len(),
    ensures
        frame_indices(steps_upto(items, resume, k)) == index_range(
            resume + 1,
            frames_upto(items, k),
        ),
    decreases k,
{
    if k == 0 {
        assert(frame_indices(steps_upto(items, resume, k)) =~= index_range(
            resume + 1,
            frames_upto(items, k),
        ));
    } else {
        let b = (k - 1) as nat;
        lemma_indices_upto(items, resume, b);
        let head = steps_upto(items, resume, b).push(PlanStep::Item { item: b as usize });
        let base = frames_upto(items, b);
        let count = items[b as int].count as nat;
        let f = item_frames(b as int, count, base, resume);
        assert(head.drop_last() =~= steps_upto(items, resume, b));
        lemma_indices_concat(head, f);
        lemma_item_indices(b as int, count, base, resume, f.len());
        assert(f.take(f.len() as int) =~= f);
        assert(frame_indices(steps_upto(items, resume, k)) =~= index_range(
            resume + 1,
            frames_upto(items, k),
        ));
    }
}

/// A run takes each frame behind `resume` once, in order, up to the last one.
pub proof fn law_run_takes_each_frame_once(items: Seq<SequenceItem>, resume: nat)
    ensures
        frame_indices(run_steps(items, resume)) == index_range(resume + 1, frame_total(items)),
{
    lemma_indices_upto(items, resume, items.len());
}

/// The number of frames of all items, where it fits.
pub fn count_frames(items: &Vec<SequenceItem>) -> (r: Option<u32>)
    ensures
        match r {
            Some(n) => n == frame_total(items@),
            None => frame_total(items@) > u32::MAX,
        },
{
    let mut total: u32 = 0;
    for i in 0..items.len()
        invariant
            total == frames_upto(items@, i as nat),
    {
        match total.checked_add(items[i].count) {
            Some(n) => {
                total = n;
            },
            None => {
                proof {
                    lemma_frames_monotone(items@, (i + 1) as nat, items@.len());
                }
                return None;
            },
        }
    }
    Some(total)
}

/// The steps of a run that goes on behind frame `resume`.
pub fn plan_steps(items: &Vec<SequenceItem>, resume: u32) -> (r: Vec<PlanStep>)
    requires
        frame_total(items@) <= u32::MAX,
    ensures
        r@ == run_steps(items@, resume as nat),
{
    let mut steps: Vec<PlanStep> = Vec::new();
    let mut base: u32 = 0;
    for k in 0..items.len()
        invariant
            frame_total(items@) <= u32::MAX,
            base == frames_upto(items@, k as nat),
            steps@ == steps_upto(items@, resume as nat, k as nat),
    {
        proof {
            lemma_frames_monotone(items@, (k + 1) as nat, items@.len());
        }
        let count = items[k].count;
        let first: u32 = if resume <= base {
            0
        } else if resume - base >= count {
            count
        } else {
            resume - base
        };
        steps.push(PlanStep::Item { item: k });
        let ghost head = steps@;
        let ghost frames = item_frames(k as int, count as nat, base as nat, resume as nat);
        for j in first..count
            invariant
                base + count <= u32::MAX,
                first == skipped(count as nat, base as nat, resume as nat),
                frames == item_frames(k as int, count as nat, base as nat, resume as nat),
                steps@ =~= head + frames.take(j - first),
        {
            steps.push(PlanStep::Frame { item: k, number: j + 1, index: base + j + 1 });
            assert(frames.take(j + 1 - first) =~= frames.take(j - first).push(frames[j - first]));
        }
        assert(frames.take(count - first) =~= frames);
        base = base + count;
    }
    steps
}

/// The folders, from the outermost to the innermost, that a frame is saved in
/// below the capture directory.
pub open spec fn save_folders(
    subfolder: Option<Seq<char>>,
    target: Seq<char>,
    kind: SequenceType,
) -> Seq<Seq<char>> {
    match subfolder {
        Some(sub) => seq![sub, target, kind.folder()],
        None => seq![target, kind.folder()],
    }
}

/// The folders that a frame is saved in below the capture directory.
pub fn save_path(subfolder: &Option<String>, target: &str, kind: SequenceType) -> (r: Vec<String>)
    ensures
        crate::text::texts(r@) == save_folders(
            match subfolder {
                Some(s) => Some(s@),
                None => None,
            },
            target@,
            kind,
        ),
{
    let mut out: Vec<String> = Vec::new();
    if let Some(s) = subfolder {
        out.push(s.clone());
    }
    out.push(target.to_owned());
    out.push(kind.folder_name());
    assert(crate::text::texts(out@) =~= save_folders(
        match subfolder {
            Some(s) => Some(s@),
            None => None,
        },
        target@,
        kind,
    ));
    out
}

/// `part` with an underscore in front, or nothing where it is empty.
pub open spec fn name_part(part: Seq<char>) -> Seq<char> {
    if part.len() == 0 {
        Seq::empty()
    } else {
        "_"@ + part
    }
}

/// The name of the file that holds frame `index`.
pub open spec fn frame_name(
    target: Seq<char>,
    date: Seq<char>,
    kind: SequenceType,
    model: Seq<char>,
    suffix: Seq<char>,
    index: nat,
    extension: Seq<char>,
) -> Seq<char> {
    target + "_"@ + date + "_"@ + kind.label() + name_part(model) + name_part(suffix) + "_"@
        + zero_padded(decimal(index), 4) + "."@ + extension
}

fn part_text(part: &str) -> (r: String)
    ensures
        r@ == name_part(part@),
{
    let c = chars_of(part);
    if c.len() == 0 {
        let r = String::new();
        assert(r@ =~= name_part(part@));
        r
    } else {
        concat2("_", part)
    }
}

/// The name of the file that holds frame `index`.
pub fn frame_filename(
    target: &str,
    date: &str,
    kind: SequenceType,
    model: &str,
    suffix: &str,
    index: u32,
    extension: &str,
) -> (r: String)
    ensures
        r@ == frame_name(target@, date@, kind, model@, suffix@, index as nat, extension@),
{
    let mut out = target.to_owned();
    out.append("_");
    out.append(date);
    out.append("_");
    out.append(kind.label_text().as_str());
    out.append(part_text(model).as_str());
    out.append(part_text(suffix).as_str());
    out.append("_");
    out.append(padded_text(index as u64, 10, 4).as_str());
    out.append(".");
    out.append(extension);
    out
}

/// A run without items has no frames, and an item adds as many frames as it
/// counts.
pub proof fn law_items_add_their_frames(items: Seq<SequenceItem>, item: SequenceItem)
    ensures
        frame_total(Seq::empty()) == 0,
        frame_total(items.push(item)) == frame_total(items) + item.count,
{
    let more = items.push(item);
    lemma_same_frames(items, more, items.len());
}

proof fn lemma_same_frames(a: Seq<SequenceItem>, b: Seq<SequenceItem>, k: nat)
    requires
        k <= a.len(),
        k <= b.len(),
        forall|i: int| 0 <= i < k ==> a[i] == b[i],
    ensures
        frames_upto(a, k) == frames_upto(b, k),
    decreases k,
{
    if k > 0 {
        lemma_same_frames(a, b, (k - 1) as nat);
    }
}

/// The step is a frame of an item, with a number from 1 to the count of the
/// item, and its index in the run counts the frames of the items before.
pub open spec fn is_frame_of(items: Seq<SequenceItem>, resume: nat, step: PlanStep) -> bool {
    match step {
        PlanStep::Frame { item, number, index } => {
            &&& item < items.len()
            &&& 1 <= number <= items[item as int].count
            &&& index == frames_upto(items, item as nat) + number
            &&& index > resume
        },
        PlanStep::Item { item } => item < items.len(),
    }
}

/// Every frame of a run is one of an item: its number runs from 1 to the count
/// of the item, its index counts the frames of the items before, and it was not
/// taken before. It follows the start of its item, with frames of that item
/// alone between them.
pub proof fn law_frames_are_those_of_items(items: Seq<SequenceItem>, resume: nat, k: int)
    requires
        frame_total(items) <= u32::MAX,
        items.len() <= usize::MAX,
        0 <= k < run_steps(items, resume).len(),
    ensures
        is_frame_of(items, resume, run_steps(items, resume)[k]),
        run_steps(items, resume)[k] matches PlanStep::Frame { item, .. } ==> exists|j: int|
            0 <= j < k && #[trigger] run_steps(items, resume)[j] == (PlanStep::Item { item })
                && forall|i: int|
                j < i < k ==> #[trigger] run_steps(items, resume)[i] is Frame && run_steps(
                    items,
                    resume,
                )[i]->Frame_item == item,
{
    lemma_steps_of_items(items, resume, items.len(), k);
}

proof fn lemma_steps_of_items(items: Seq<SequenceItem>, resume: nat, n: nat, k: int)
    requires
        frame_total(items) <= u32::MAX,
        items.len() <= usize::MAX,
        n <= items.len(),
        0 <= k < steps_upto(items, resume, n).len(),
    ensures
        is_frame_of(items, resume, steps_upto(items, resume, n)[k]),
        steps_upto(items, resume, n)[k] matches PlanStep::Frame { item, .. } ==> exists|j: int|
            0 <= j < k && #[trigger] steps_upto(items, resume, n)[j] == (PlanStep::Item { item })
                && forall|i: int|
                j < i < k ==> #[trigger] steps_upto(items, resume, n)[i] is Frame && steps_upto(
                    items,
                    resume,
                    n,
                )[i]->Frame_item == item,
    decreases n,
{
    let m = (n - 1) as nat;
    let s = steps_upto(items, resume, n);
    let before = steps_upto(items, resume, m);
    let at = before.len() as int;
    if n == 0 {
    } else if k < at {
        lemma_steps_of_items(items, resume, m, k);
        assert(s[k] == before[k]);
        match s[k] {
            PlanStep::Frame { item, .. } => {
                let j = choose|j: int|
                    0 <= j < k && #[trigger] before[j] == (PlanStep::Item { item }) && forall|
                        i: int,
                    |
                        j < i < k ==> #[trigger] before[i] is Frame && before[i]->Frame_item
                            == item;
                assert(s[j] == before[j]);
                assert forall|i: int| j < i < k implies #[trigger] s[i] is Frame
                    && s[i]->Frame_item == item by {
                    assert(s[i] == before[i]);
                }
            },
            PlanStep::Item { .. } => {},
        }
    } else {
        let count = items[m as int].count as nat;
        let base = frames_upto(items, m);
        let frames = item_frames(m as int, count, base, resume);
        lemma_frames_monotone(items, n, items.len());
        assert(s[at] == (PlanStep::Item { item: m as usize }));
        assert forall|i: int| at < i <= k implies #[trigger] s[i] == frames[i - at - 1] by {}
        if k > at {
            assert(s[k] == frames[k - at - 1]);
            assert forall|i: int| at < i < k implies #[trigger] s[i] is Frame
                && s[i]->Frame_item == m as usize by {
                assert(s[i] == frames[i - at - 1]);
            }
        }
    }
}

/// Each item of a run begins once, in order: as many items begin as there are.
pub proof fn law_each_item_begins(items: Seq<SequenceItem>, resume: nat)
    requires
        items.len() <= usize::MAX,
    ensures
        items_begun(run_steps(items, resume)) == Seq::new(items.len(), |i: int| i as usize),
{
    lemma_items_begun(items, resume, items.len());
}

/// The items that begin among the steps.
pub open spec fn items_begun(steps: Seq<PlanStep>) -> Seq<usize>
    decreases steps.len(),
{
    if steps.len() == 0 {
        Seq::empty()
    } else {
        match steps.last() {
            PlanStep::Item { item } => items_begun(steps.drop_last()).push(item),
            PlanStep::Frame { .. } => items_begun(steps.drop_last()),
        }
    }
}

proof fn lemma_frames_begin_nothing(a: Seq<PlanStep>, b: Seq<PlanStep>)
    requires
        forall|i: int| 0 <= i < b.len() ==> #[trigger] b[i] is Frame,
    ensures
        items_begun(a + b) == items_begun(a),
    decreases b.len(),
{
    if b.len() == 0 {
        assert(a + b =~= a);
    } else {
        let c = b.drop_last();
        assert((a + b).drop_last() =~= a + c);
        assert((a + b).last() == b[b.len() - 1]);
        assert forall|i: int| 0 <= i < c.len() implies #[trigger] c[i] is Frame by {
            assert(c[i] == b[i]);
        }
        lemma_frames_begin_nothing(a, c);
    }
}

proof fn lemma_items_begun(items: Seq<SequenceItem>, resume: nat, k: nat)
    requires
        k <= items.len() <= usize::MAX,
    ensures
        items_begun(steps_upto(items, resume, k)) == Seq::new(k, |i: int| i as usize),
    decreases k,
{
    if k == 0 {
        assert(items_begun(steps_upto(items, resume, k)) =~= Seq::new(k, |i: int| i as usize));
    } else {
        let b = (k - 1) as nat;
        lemma_items_begun(items, resume, b);
        let head = steps_upto(items, resume, b).push(PlanStep::Item { item: b as usize });
        assert(head.drop_last() =~= steps_upto(items, resume, b));
        lemma_frames_begin_nothing(
            head,
            item_frames(b as int, items[b as int].count as nat, frames_upto(items, b), resume),
        );
        assert(items_begun(steps_upto(items, resume, k)) =~= Seq::new(k, |i: int| i as usize));
    }
}

/// Each kind of frame has a folder and a word of its own.
pub proof fn law_kinds_are_told_apart(one: SequenceType, other: SequenceType)
    requires
        one != other,
    ensures
        one.folder() != other.folder(),
        one.label() != other.label(),
        SequenceType::Light.folder() == "lights"@ && SequenceType::Light.label() == "Light"@,
        SequenceType::Dark.folder() == "darks"@ && SequenceType::Dark.label() == "Dark"@,
        SequenceType::Bias.folder() == "biases"@ && SequenceType::Bias.label() == "Bias"@,
        SequenceType::Flat.folder() == "flats"@ && SequenceType::Flat.label() == "Flat"@,
{
    reveal_strlit("lights");
    reveal_strlit("darks");
    reveal_strlit("biases");
    reveal_strlit("flats");
    reveal_strlit("Light");
    reveal_strlit("Dark");
    reveal_strlit("Bias");
    reveal_strlit("Flat");
    assert("lights"@[0] == 'l' && "darks"@[0] == 'd' && "biases"@[0] == 'b' && "flats"@[0] == 'f');
    assert("Light"@[0] == 'L' && "Dark"@[0] == 'D' && "Bias"@[0] == 'B' && "Flat"@[0] == 'F');
}

/// A bias frame has no exposure; every other frame has that of its item.
pub proof fn law_exposure_of_a_frame(item: SequenceItem)
    ensures
        item.item_type == SequenceType::Bias ==> item.used_exposure() == "0"@,
        item.item_type != SequenceType::Bias ==> item.used_exposure() == item.exposure@,
{
}

/// Frames that differ in their index alone have different names.
pub proof fn law_frames_have_their_names(
    target: Seq<char>,
    date: Seq<char>,
    kind: SequenceType,
    model: Seq<char>,
    suffix: Seq<char>,
    index: nat,
    other: nat,
    extension: Seq<char>,
)
    requires
        index != other,
    ensures
        frame_name(target, date, kind, model, suffix, index, extension) != frame_name(
            target,
            date,
            kind,
            model,
            suffix,
            other,
            extension,
        ),
{
    let head = target + "_"@ + date + "_"@ + kind.label() + name_part(model) + name_part(suffix)
        + "_"@;
    let tail = "."@ + extension;
    let a = frame_name(target, date, kind, model, suffix, index, extension);
    let b = frame_name(target, date, kind, model, suffix, other, extension);
    let x = zero_padded(decimal(index), 4);
    let y = zero_padded(decimal(other), 4);
    assert(a =~= head + x + tail);
    assert(b =~= head + y + tail);
    crate::number::law_padded_read_back(index, 4);
    crate::number::law_padded_read_back(other, 4);
    if a == b {
        assert(a.subrange(head.len() as int, a.len() - tail.len()) =~= x);
        assert(b.subrange(head.len() as int, b.len() - tail.len()) =~= y);
    }
}

/// A frame is named after its target, the date and its kind, then the model of
/// the camera and the suffix where there are any, and its index, of at least
/// four digits. The name has the extension of the picture.
pub proof fn law_name_of_a_frame(
    target: Seq<char>,
    date: Seq<char>,
    kind: SequenceType,
    model: Seq<char>,
    suffix: Seq<char>,
    index: nat,
    extension: Seq<char>,
)
    requires
        !extension.contains('.'),
    ensures
        ({
            let name = frame_name(target, date, kind, model, suffix, index, extension);
            &&& crate::paths::extension(name) == extension
            &&& crate::text::begins(name, target + "_"@ + date + "_"@ + kind.label())
            &&& crate::text::ends(
                crate::paths::stem(name),
                "_"@ + zero_padded(decimal(index), 4),
            )
            &&& model.len() > 0 && suffix.len() > 0 ==> name == target + "_"@ + date + "_"@
                + kind.label() + "_"@ + model + "_"@ + suffix + "_"@ + zero_padded(
                decimal(index),
                4,
            ) + "."@ + extension
            &&& model.len() == 0 && suffix.len() == 0 ==> name == target + "_"@ + date + "_"@
                + kind.label() + "_"@ + zero_padded(decimal(index), 4) + "."@ + extension
            &&& model.len() > 0 && suffix.len() == 0 ==> name == target + "_"@ + date + "_"@
                + kind.label() + "_"@ + model + "_"@ + zero_padded(decimal(index), 4) + "."@
                + extension
        }),
{
    let name = frame_name(target, date, kind, model, suffix, index, extension);
    let number = zero_padded(decimal(index), 4);
    let front = target + "_"@ + date + "_"@ + kind.label();
    let head = front + name_part(model) + name_part(suffix);
    let base = head + ("_"@ + number);
    reveal_strlit("_");
    reveal_strlit(".");
    assert(name =~= base + seq!['.'] + extension);
    crate::number::law_padded_read_back(index, 4);
    assert(base.len() >= 4);
    crate::paths::law_last_dot_parts(base, extension);
    crate::text::law_parts_occur(
        Seq::empty(),
        front,
        name_part(model) + name_part(suffix) + ("_"@ + number) + seq!['.'] + extension,
    );
    assert(front + (name_part(model) + name_part(suffix) + ("_"@ + number) + seq!['.'] + extension)
        =~= name);
    crate::text::law_parts_occur(head, "_"@ + number, Seq::empty());
    if suffix.len() == 0 {
        if model.len() == 0 {
            assert(name =~= front + "_"@ + number + "."@ + extension);
        } else {
            assert(name =~= front + "_"@ + model + "_"@ + number + "."@ + extension);
        }
    } else if model.len() > 0 {
        assert(name =~= front + "_"@ + model + "_"@ + suffix + "_"@ + number + "."@ + extension);
    }
}

/// A frame is saved in a folder for its kind, within one for its target, within
/// the subfolder where there is one.
pub proof fn law_folders_of_a_frame(
    subfolder: Option<Seq<char>>,
    target: Seq<char>,
    kind: SequenceType,
)
    ensures
        ({
            let folders = save_folders(subfolder, target, kind);
            &&& folders.len() == if subfolder is Some {
                3nat
            } else {
                2nat
            }
            &&& folders.last() == kind.folder()
            &&& folders[folders.len() - 2] == target
            &&& subfolder is Some ==> folders[0] == subfolder->0
        }),
{
}

} // verus!
