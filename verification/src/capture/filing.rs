//! Filing a captured frame: it gets its final name, becomes the latest preview,
//! and is converted to FITS.
//!
//! Each step asks for something to be done with the file, and the report on it
//! leads to the next step.

use crate::capture::plan::{frame_filename, frame_name, SequenceType};
use crate::notes::{added, none, one};
use crate::number::{decimal, decimal_text};
use crate::paths::{
    extension, extension_dot, file_extension, file_stem, has_extension, join_path, joined_path,
    last_part, last_part_of, stem,
};
use crate::text::{concat2, concat3, texts};
use vstd::prelude::*;

verus! {

/// A captured frame that is to be filed. Real numbers are text.
#[derive(Debug)]
pub struct FrameFiling {
    /// The directory of the frame.
    pub folder: String,
    /// The name that the camera gave to the file.
    pub file: String,
    pub target: String,
    pub date: String,
    pub kind: SequenceType,
    /// The model of the camera, empty where it is not known.
    pub model: String,
    /// What is added to the name, empty for nothing.
    pub suffix: String,
    pub index: u32,
    pub total: u32,
    /// Where the mount pointed, empty where that is not known.
    pub ra: String,
    pub dec: String,
    pub focal: String,
    pub pixel: String,
    pub exposure: String,
    pub iso: u64,
}

/// What the last request was for.
#[derive(Debug, Clone, Copy, PartialEq, Eq, Structural)]
pub enum FilingStage {
    Renaming,
    Previewing,
    Looking,
    Converting,
    Deleting,
    Over,
}

/// What is asked for.
#[derive(Debug)]
pub enum FilingRequest {
    Rename { from: String, to: String },
    /// Make the file the latest preview.
    MakePreview(String),
    /// Report whether the file is there.
    LookFor(String),
    /// Run the script for pictures with these arguments.
    Convert(Vec<String>),
    Delete(String),
    Finish,
}

/// The report on a request.
#[derive(Debug)]
pub enum FilingReport {
    Done,
    Failed(String),
    /// Whether the file is there.
    Found(bool),
}

/// The step that follows a report.
#[derive(Debug)]
pub struct FilingStep {
    pub stage: FilingStage,
    pub request: FilingRequest,
    pub notes: Vec<String>,
}

/// A request, with its texts.
pub enum FilingRequestView {
    Rename { from: Seq<char>, to: Seq<char> },
    MakePreview(Seq<char>),
    LookFor(Seq<char>),
    Convert(Seq<Seq<char>>),
    Delete(Seq<char>),
    Finish,
}

impl View for FilingRequest {
    type V = FilingRequestView;

    open spec fn view(&self) -> FilingRequestView {
        match *self {
            FilingRequest::Rename { from, to } => FilingRequestView::Rename {
                from: from@,
                to: to@,
            },
            FilingRequest::MakePreview(p) => FilingRequestView::MakePreview(p@),
            FilingRequest::LookFor(p) => FilingRequestView::LookFor(p@),
            FilingRequest::Convert(words) => FilingRequestView::Convert(texts(words@)),
            FilingRequest::Delete(p) => FilingRequestView::Delete(p@),
            FilingRequest::Finish => FilingRequestView::Finish,
        }
    }
}

/// A step, with its texts.
pub struct FilingStepView {
    pub stage: FilingStage,
    pub request: FilingRequestView,
    pub notes: Seq<Seq<char>>,
}

impl View for FilingStep {
    type V = FilingStepView;

    open spec fn view(&self) -> FilingStepView {
        FilingStepView { stage: self.stage, request: self.request@, notes: texts(self.notes@) }
    }
}

/// The report is one that the stage can get.
pub open spec fn answers(stage: FilingStage, report: FilingReport) -> bool {
    match stage {
        FilingStage::Looking => report is Found,
        FilingStage::Over => false,
        _ => report is Done || report is Failed,
    }
}

impl FrameFiling {
    /// The path of a file in the directory of the frame.
    pub open spec fn path(self, name: Seq<char>) -> Seq<char> {
        joined_path(self.folder@, name)
    }

    /// The final name of the frame.
    pub open spec fn final_name(self) -> Seq<char> {
        frame_name(
            self.target@,
            self.date@,
            self.kind,
            self.model@,
            self.suffix@,
            self.index as nat,
            extension(self.file@),
        )
    }

    /// The name of the converted frame.
    pub open spec fn fits_name(self) -> Seq<char> {
        stem(self.final_name()) + ".fits"@
    }

    /// The arguments of the script that converts the frame.
    pub open spec fn conversion(self) -> Seq<Seq<char>> {
        seq![
            "tiff"@,
            self.path(self.final_name()),
            self.path(self.fits_name()),
            self.target@,
            self.ra@,
            self.dec@,
            self.focal@,
            self.pixel@,
            self.exposure@,
            decimal(self.iso as nat),
        ]
    }

    /// What is published when the frame was filed.
    pub open spec fn filed_note(self) -> Seq<char> {
        "Captured frame "@ + decimal(self.index as nat) + "/"@ + decimal(self.total as nat)
    }

    /// The end, with a note before the last one.
    pub open spec fn finish(self, notes: Seq<Seq<char>>) -> FilingStepView {
        FilingStepView {
            stage: FilingStage::Over,
            request: FilingRequestView::Finish,
            notes: notes.push(self.filed_note()),
        }
    }

    /// The first step: a file without an extension keeps its name.
    pub open spec fn first_step(self) -> FilingStepView {
        if extension_dot(self.file@) is Some {
            FilingStepView {
                stage: FilingStage::Renaming,
                request: FilingRequestView::Rename {
                    from: self.path(self.file@),
                    to: self.path(self.final_name()),
                },
                notes: Seq::empty(),
            }
        } else {
            self.finish(Seq::empty())
        }
    }

    /// The step that follows a report.
    pub open spec fn next_step(self, stage: FilingStage, report: FilingReport) -> FilingStepView {
        match stage {
            FilingStage::Renaming => match report {
                FilingReport::Failed(e) => self.finish(
                    seq!["Warning: Failed to rename file: "@ + e@],
                ),
                _ => FilingStepView {
                    stage: FilingStage::Previewing,
                    request: FilingRequestView::MakePreview(self.path(self.final_name())),
                    notes: Seq::empty(),
                },
            },
            FilingStage::Previewing => FilingStepView {
                stage: FilingStage::Looking,
                request: FilingRequestView::LookFor(self.path(self.fits_name())),
                notes: match report {
                    FilingReport::Failed(_) => Seq::empty(),
                    _ => seq!["SEQ_IMAGE_READY"@],
                },
            },
            FilingStage::Looking => match report {
                FilingReport::Found(false) => FilingStepView {
                    stage: FilingStage::Converting,
                    request: FilingRequestView::Convert(self.conversion()),
                    notes: Seq::empty(),
                },
                _ => self.finish(Seq::empty()),
            },
            FilingStage::Converting => match report {
                FilingReport::Failed(_) => self.finish(Seq::empty()),
                _ => FilingStepView {
                    stage: FilingStage::Deleting,
                    request: FilingRequestView::Delete(self.path(self.final_name())),
                    notes: seq!["FITS saved: "@ + last_part(self.fits_name())],
                },
            },
            FilingStage::Deleting => self.finish(Seq::empty()),
            FilingStage::Over => self.finish(Seq::empty()),
        }
    }

    fn path_of(&self, name: &str) -> (r: String)
        ensures
            r@ == self.path(name@),
    {
        join_path(self.folder.as_str(), name)
    }

    fn final_filename(&self) -> (r: String)
        ensures
            r@ == self.final_name(),
    {
        frame_filename(
            self.target.as_str(),
            self.date.as_str(),
            self.kind,
            self.model.as_str(),
            self.suffix.as_str(),
            self.index,
            file_extension(self.file.as_str()).as_str(),
        )
    }

    fn fits_filename(&self) -> (r: String)
        ensures
            r@ == self.fits_name(),
    {
        concat2(file_stem(self.final_filename().as_str()).as_str(), ".fits")
    }

    fn final_path(&self) -> (r: String)
        ensures
            r@ == self.path(self.final_name()),
    {
        self.path_of(self.final_filename().as_str())
    }

    fn arguments(&self) -> (r: Vec<String>)
        ensures
            texts(r@) == self.conversion(),
    {
        let mut a: Vec<String> = Vec::new();
        a.push("tiff".to_owned());
        a.push(self.final_path());
        a.push(self.path_of(self.fits_filename().as_str()));
        a.push(self.target.clone());
        a.push(self.ra.clone());
        a.push(self.dec.clone());
        a.push(self.focal.clone());
        a.push(self.pixel.clone());
        a.push(self.exposure.clone());
        a.push(decimal_text(self.iso));
        assert(texts(a@) =~= self.conversion());
        a
    }

    fn finished(&self, notes: Vec<String>) -> (r: FilingStep)
        ensures
            r@ == self.finish(texts(notes@)),
    {
        let mut note = concat3("Captured frame ", decimal_text(self.index as u64).as_str(), "/");
        note.append(decimal_text(self.total as u64).as_str());
        FilingStep {
            stage: FilingStage::Over,
            request: FilingRequest::Finish,
            notes: added(notes, note),
        }
    }

    /// The first step.
    pub fn begin(&self) -> (r: FilingStep)
        ensures
            r@ == self.first_step(),
    {
        if has_extension(self.file.as_str()) {
            FilingStep {
                stage: FilingStage::Renaming,
                request: FilingRequest::Rename {
                    from: self.path_of(self.file.as_str()),
                    to: self.final_path(),
                },
                notes: none(),
            }
        } else {
            self.finished(none())
        }
    }

    /// The step that follows the report on the last one.
    pub fn advance(&self, stage: FilingStage, report: &FilingReport) -> (r: FilingStep)
        requires
            answers(stage, *report),
        ensures
            r@ == self.next_step(stage, *report),
    {
        match stage {
            FilingStage::Renaming => match report {
                FilingReport::Failed(e) => self.finished(
                    one(concat2("Warning: Failed to rename file: ", e.as_str())),
                ),
                _ => FilingStep {
                    stage: FilingStage::Previewing,
                    request: FilingRequest::MakePreview(self.final_path()),
                    notes: none(),
                },
            },
            FilingStage::Previewing => FilingStep {
                stage: FilingStage::Looking,
                request: FilingRequest::LookFor(self.path_of(self.fits_filename().as_str())),
                notes: match report {
                    FilingReport::Failed(_) => none(),
                    _ => one("SEQ_IMAGE_READY".to_owned()),
                },
            },
            FilingStage::Looking => match report {
                FilingReport::Found(false) => FilingStep {
                    stage: FilingStage::Converting,
                    request: FilingRequest::Convert(self.arguments()),
                    notes: none(),
                },
                _ => self.finished(none()),
            },
            FilingStage::Converting => match report {
                FilingReport::Failed(_) => self.finished(none()),
                _ => FilingStep {
                    stage: FilingStage::Deleting,
                    request: FilingRequest::Delete(self.final_path()),
                    notes: one(
                        concat2(
                            "FITS saved: ",
                            last_part_of(self.fits_filename().as_str()).as_str(),
                        ),
                    ),
                },
            },
            FilingStage::Deleting => self.finished(none()),
            FilingStage::Over => self.finished(none()),
        }
    }
}

/// A frame is deleted only when it has been converted.
pub proof fn law_deleted_frame_is_converted(
    f: FrameFiling,
    stage: FilingStage,
    report: FilingReport,
)
    requires
        answers(stage, report),
        f.next_step(stage, report).request is Delete,
    ensures
        stage == FilingStage::Converting,
        report is Done,
{
}

/// A conversion that is there is not made again.
pub proof fn law_conversion_is_not_repeated(f: FrameFiling)
    ensures
        f.next_step(FilingStage::Looking, FilingReport::Found(true)) == f.finish(Seq::empty()),
{
}

/// A frame that cannot be renamed is left alone.
pub proof fn law_unnamed_frame_is_left_alone(f: FrameFiling, error: String)
    ensures
        f.next_step(FilingStage::Renaming, FilingReport::Failed(error)).request
            == FilingRequestView::Finish,
{
}

/// However the filing goes, it ends with the note that the frame was captured.
pub proof fn law_filing_is_reported(f: FrameFiling, stage: FilingStage, report: FilingReport)
    requires
        answers(stage, report),
    ensures
        ({
            let next = f.next_step(stage, report);
            next.request is Finish ==> next.notes.len() > 0 && next.notes.last() == f.filed_note()
        }),
{
}

/// How far a stage is from the end.
pub open spec fn steps_left(stage: FilingStage) -> nat {
    match stage {
        FilingStage::Renaming => 5,
        FilingStage::Previewing => 4,
        FilingStage::Looking => 3,
        FilingStage::Converting => 2,
        FilingStage::Deleting => 1,
        FilingStage::Over => 0,
    }
}

/// Filing comes to an end, whatever is reported.
pub proof fn law_filing_ends(f: FrameFiling, stage: FilingStage, report: FilingReport)
    requires
        answers(stage, report),
    ensures
        steps_left(f.next_step(stage, report).stage) < steps_left(stage),
{
}

/// A frame that is filed without a failure is renamed, becomes the preview, is
/// converted where that has not been done, and is deleted. All of this is done
/// to one file, in the directory of the frame.
pub proof fn law_frame_is_filed(f: FrameFiling)
    requires
        extension_dot(f.file@) is Some,
    ensures
        ({
            let name = frame_name(
                f.target@,
                f.date@,
                f.kind,
                f.model@,
                f.suffix@,
                f.index as nat,
                extension(f.file@),
            );
            let frame = joined_path(f.folder@, name);
            let fits = joined_path(f.folder@, stem(name) + ".fits"@);
            let renamed = f.first_step();
            let shown = f.next_step(renamed.stage, FilingReport::Done);
            let looked = f.next_step(shown.stage, FilingReport::Done);
            let converted = f.next_step(looked.stage, FilingReport::Found(false));
            let deleted = f.next_step(converted.stage, FilingReport::Done);
            let end = f.next_step(deleted.stage, FilingReport::Done);
            &&& renamed.request == (FilingRequestView::Rename {
                from: joined_path(f.folder@, f.file@),
                to: frame,
            })
            &&& shown.request == FilingRequestView::MakePreview(frame)
            &&& looked.request == FilingRequestView::LookFor(fits)
            &&& looked.notes == seq!["SEQ_IMAGE_READY"@]
            &&& converted.request == FilingRequestView::Convert(
                seq![
                    "tiff"@,
                    frame,
                    fits,
                    f.target@,
                    f.ra@,
                    f.dec@,
                    f.focal@,
                    f.pixel@,
                    f.exposure@,
                    decimal(f.iso as nat),
                ],
            )
            &&& deleted.request == FilingRequestView::Delete(frame)
            &&& deleted.notes == seq!["FITS saved: "@ + last_part(stem(name) + ".fits"@)]
            &&& end.request == FilingRequestView::Finish
            &&& end.notes == seq![
                "Captured frame "@ + decimal(f.index as nat) + "/"@ + decimal(f.total as nat),
            ]
        }),
{
    let end = f.finish(Seq::empty());
    assert(end.notes =~= seq![
        "Captured frame "@ + decimal(f.index as nat) + "/"@ + decimal(f.total as nat),
    ]);
}

/// A failure to rename a frame ends its filing with a warning; a failure to show
/// it, to convert it or to delete it is passed over.
pub proof fn law_failed_filing(f: FrameFiling, error: String)
    ensures
        ({
            let failed = FilingReport::Failed(error);
            let filed = "Captured frame "@ + decimal(f.index as nat) + "/"@ + decimal(
                f.total as nat,
            );
            let renamed = f.next_step(FilingStage::Renaming, failed);
            let shown = f.next_step(FilingStage::Previewing, failed);
            &&& renamed.request is Finish
            &&& renamed.notes == seq!["Warning: Failed to rename file: "@ + error@, filed]
            &&& shown.request is LookFor
            &&& shown.notes.len() == 0
            &&& f.next_step(FilingStage::Converting, failed).request is Finish
            &&& f.next_step(FilingStage::Converting, failed).notes == seq![filed]
            &&& f.next_step(FilingStage::Deleting, failed).request is Finish
        }),
{
    let filed = f.filed_note();
    assert(f.finish(seq!["Warning: Failed to rename file: "@ + error@]).notes =~= seq![
        "Warning: Failed to rename file: "@ + error@,
        filed,
    ]);
    assert(f.finish(Seq::empty()).notes =~= seq![filed]);
}

/// A frame whose file has no extension keeps its name and is not touched.
pub proof fn law_plain_file_is_left_alone(f: FrameFiling)
    requires
        !f.file@.contains('.'),
    ensures
        f.first_step().request is Finish,
{
    crate::paths::law_plain_name_has_no_extension(f.file@);
    crate::paths::law_stem_and_extension(f.file@);
    if extension_dot(f.file@) is Some {
        let k = stem(f.file@).len() as int;
        assert((stem(f.file@) + seq!['.'] + extension(f.file@))[k] == '.');
        assert(f.file@.contains('.'));
    }
}

} // verus!
