//! The baseline variant: a run that leaves decoding and encoding to an
//! outside transcoder, started once for each step.
//!
//! The input is first encoded at the lowest quality as a background. The
//! frames of the background and of the input are written out as pictures;
//! for each box of the track, the box's region of the input picture is laid
//! over the background picture; the results are encoded as the output. The
//! plan decides which step comes next; the caller runs it and reports what
//! came of it.

use vstd::prelude::*;
use crate::bbox::BoundingBox;
use crate::error::ErrorKind;
use crate::track::BoxTrack;

verus! {

/// The part of a picture that is cut out and laid over the background: its
/// top left corner and its size in pixels.
#[derive(Clone, Copy, Debug, PartialEq, Eq, Structural)]
pub struct CropRegion {
    pub x: i32,
    pub y: i32,
    pub width: u32,
    pub height: u32,
}

/// The region that is cut out for a box: from the box's first corner, as wide
/// and as high as the corners are apart. A box whose corners are not apart
/// along both axes has no region.
pub open spec fn crop_of(b: BoundingBox) -> Option<CropRegion> {
    if b.x2 - b.x1 > 0 && b.y2 - b.y1 > 0 {
        Some(
            CropRegion {
                x: b.x1,
                y: b.y1,
                width: (b.x2 - b.x1) as u32,
                height: (b.y2 - b.y1) as u32,
            },
        )
    } else {
        None
    }
}

/// The region that is cut out of the input picture for a box, where it has one.
pub fn crop_region(b: &BoundingBox) -> (r: Option<CropRegion>)
    ensures
        r == crop_of(*b),
{
    let width: i64 = b.x2 as i64 - b.x1 as i64;
    let height: i64 = b.y2 as i64 - b.y1 as i64;
    if width > 0 && height > 0 {
        Some(CropRegion { x: b.x1, y: b.y1, width: width as u32, height: height as u32 })
    } else {
        None
    }
}

/// The number of frames after which progress is reported.
pub const PROGRESS_INTERVAL: u64 = 30;

/// Whether progress is reported after the frame with this number, counted
/// from one: after every thirtieth frame.
pub fn progress_due(frame_number: u64) -> (r: bool)
    ensures
        r == (frame_number % PROGRESS_INTERVAL == 0),
{
    frame_number % PROGRESS_INTERVAL == 0
}

/// The position of the first box at or behind `from` that has a region, or
/// the length of the track where there is none.
pub open spec fn next_with_region(track: Seq<BoundingBox>, from: int) -> int
    decreases track.len() - from,
{
    if from >= track.len() {
        track.len() as int
    } else if crop_of(track[from]) is Some {
        from
    } else {
        next_with_region(track, from + 1)
    }
}

/// Where a baseline run stands.
#[derive(Clone, Copy, Debug, PartialEq, Eq, Structural)]
pub enum BaselinePhase {
    /// The run has not begun.
    Idle,
    /// The background is being encoded into the temporary file.
    GeneratingBackground,
    /// The directories for the pictures are being made.
    CreatingDirs,
    /// The background's frames are being written out.
    ExtractingBackground,
    /// The input's frames are being written out.
    ExtractingInput,
    /// The pictures of the frame of the box at `position` are being looked for.
    Probing { position: usize },
    /// The frame of the box at `position` is being composited.
    Compositing { position: usize },
    /// The output is being encoded from the composited pictures.
    Encoding,
    /// The temporary files are being removed, after a run with this failure
    /// or with none.
    CleaningUp { failure: Option<ErrorKind> },
    /// The run has ended, with this failure or with none.
    Done { failure: Option<ErrorKind> },
}

/// What came of the last step.
#[derive(Clone, Copy, Debug, PartialEq, Eq, Structural)]
pub enum BaselineEvent {
    /// The run begins.
    Started,
    /// The step was done; of a transcoder, that it ended well.
    Succeeded,
    /// The transcoder ran and reported a failure.
    Failed,
    /// The step could not be run at all.
    IoFailed,
    /// Both pictures of the frame are there.
    FramePresent,
    /// A picture of the frame is missing.
    FrameMissing,
}

/// The step to run next.
#[derive(Clone, Copy, Debug, PartialEq, Eq, Structural)]
pub enum BaselineAction {
    /// Encode the input at the lowest quality into the temporary file.
    GenerateBackground,
    /// Make the directories for the pictures.
    CreateDirs,
    /// Write out the frames of the background.
    ExtractBackground,
    /// Write out the frames of the input.
    ExtractInput,
    /// Look whether both pictures of the frame with this number are there.
    /// Frames are numbered from one.
    ProbeFrame { number: u64 },
    /// Lay `region` of the input picture with this number over the background
    /// picture with the same number.
    CompositeFrame { number: u64, region: CropRegion },
    /// Encode the composited pictures, with the input's audio, as the output.
    Encode,
    /// Remove the temporary file and the directories.
    CleanUp,
    /// The run has ended, with this failure or with none.
    Finish { failure: Option<ErrorKind> },
}

/// The phase and the step in which the frames from `from` on are begun: the
/// probe of the next box that has a region, or the encoding of the output
/// where no such box is left.
pub open spec fn begin_frames(track: Seq<BoundingBox>, from: int) -> (BaselinePhase, BaselineAction) {
    let position = next_with_region(track, from);
    if position < track.len() {
        (
            BaselinePhase::Probing { position: position as usize },
            BaselineAction::ProbeFrame { number: (position + 1) as u64 },
        )
    } else {
        (BaselinePhase::Encoding, BaselineAction::Encode)
    }
}

/// The phase and the step with which a run gives up: the temporary files are
/// removed before the failure is reported.
pub open spec fn give_up(kind: ErrorKind) -> (BaselinePhase, BaselineAction) {
    (BaselinePhase::CleaningUp { failure: Some(kind) }, BaselineAction::CleanUp)
}

/// One step of a baseline run over `track`: the phase and the step that
/// follow an event.
///
/// The background is generated, the directories are made and both sets of
/// pictures are written out; a failure in any of these ends the run. Then the
/// boxes are taken in order. A box without a region is passed over. Where a
/// picture of a box's frame is missing, no further box is taken. A frame that
/// cannot be composited is left out, and the run goes on with the next box.
/// At last the output is encoded. The temporary files are removed at the end
/// of every run that has begun, whether it failed or not. A transcoder that
/// reports a failure is a `CodecError`; a step that cannot be run, and an
/// event that does not answer the last step, an `IoError`.
pub open spec fn baseline_step(track: Seq<BoundingBox>, phase: BaselinePhase, event: BaselineEvent)
    -> (BaselinePhase, BaselineAction) {
    match (phase, event) {
        (BaselinePhase::Done { failure }, _) => (phase, BaselineAction::Finish { failure }),
        (BaselinePhase::CleaningUp { failure }, _) => (
            BaselinePhase::Done { failure },
            BaselineAction::Finish { failure },
        ),
        (BaselinePhase::Idle, BaselineEvent::Started) => (
            BaselinePhase::GeneratingBackground,
            BaselineAction::GenerateBackground,
        ),
        (BaselinePhase::Idle, _) => (
            BaselinePhase::Done { failure: Some(ErrorKind::IoError) },
            BaselineAction::Finish { failure: Some(ErrorKind::IoError) },
        ),
        (BaselinePhase::GeneratingBackground, BaselineEvent::Succeeded) => (
            BaselinePhase::CreatingDirs,
            BaselineAction::CreateDirs,
        ),
        (BaselinePhase::CreatingDirs, BaselineEvent::Succeeded) => (
            BaselinePhase::ExtractingBackground,
            BaselineAction::ExtractBackground,
        ),
        (BaselinePhase::ExtractingBackground, BaselineEvent::Succeeded) => (
            BaselinePhase::ExtractingInput,
            BaselineAction::ExtractInput,
        ),
        (BaselinePhase::ExtractingInput, BaselineEvent::Succeeded) => begin_frames(track, 0),
        (BaselinePhase::Probing { position }, BaselineEvent::FramePresent) => if position
            < track.len() && crop_of(track[position as int]) is Some {
            (
                BaselinePhase::Compositing { position },
                BaselineAction::CompositeFrame {
                    number: (position + 1) as u64,
                    region: crop_of(track[position as int])->0,
                },
            )
        } else {
            give_up(ErrorKind::IoError)
        },
        (BaselinePhase::Probing { position }, BaselineEvent::FrameMissing) => (
            BaselinePhase::Encoding,
            BaselineAction::Encode,
        ),
        (BaselinePhase::Compositing { position }, BaselineEvent::Succeeded) => begin_frames(
            track,
            position + 1,
        ),
        (BaselinePhase::Compositing { position }, BaselineEvent::Failed) => begin_frames(
            track,
            position + 1,
        ),
        (BaselinePhase::Encoding, BaselineEvent::Succeeded) => (
            BaselinePhase::CleaningUp { failure: None },
            BaselineAction::CleanUp,
        ),
        (_, BaselineEvent::Failed) => give_up(ErrorKind::CodecError),
        _ => give_up(ErrorKind::IoError),
    }
}

/// The phase of a baseline run after a sequence of events.
pub open spec fn baseline_run(
    track: Seq<BoundingBox>,
    phase: BaselinePhase,
    events: Seq<BaselineEvent>,
) -> BaselinePhase
    decreases events.len(),
{
    if events.len() == 0 {
        phase
    } else {
        baseline_step(track, baseline_run(track, phase, events.drop_last()), events.last()).0
    }
}

/// The plan of a baseline run.
#[derive(Debug)]
pub struct BaselinePlan {
    phase: BaselinePhase,
}

impl View for BaselinePlan {
    type V = BaselinePhase;

    closed spec fn view(&self) -> BaselinePhase {
        self.phase
    }
}

impl BaselinePlan {
    /// The plan of a run that has not begun.
    pub fn new() -> (plan: BaselinePlan)
        ensures
            plan@ == BaselinePhase::Idle,
    {
        BaselinePlan { phase: BaselinePhase::Idle }
    }

    /// The phase that the run is in.
    pub fn phase(&self) -> (phase: BaselinePhase)
        ensures
            phase == self@,
    {
        self.phase
    }

    /// Takes an event and says which step is to be run next.
    pub fn step(&mut self, track: &BoxTrack, event: BaselineEvent) -> (action: BaselineAction)
        ensures
            (final(self)@, action) == baseline_step(track@, old(self)@, event),
    {
        let give_up_io = (
            BaselinePhase::CleaningUp { failure: Some(ErrorKind::IoError) },
            BaselineAction::CleanUp,
        );
        let n = track.len();
        let (phase, action) = match (self.phase, event) {
            (BaselinePhase::Done { failure }, _) => (self.phase, BaselineAction::Finish { failure }),
            (BaselinePhase::CleaningUp { failure }, _) => (
                BaselinePhase::Done { failure },
                BaselineAction::Finish { failure },
            ),
            (BaselinePhase::Idle, BaselineEvent::Started) => (
                BaselinePhase::GeneratingBackground,
                BaselineAction::GenerateBackground,
            ),
            (BaselinePhase::Idle, _) => (
                BaselinePhase::Done { failure: Some(ErrorKind::IoError) },
                BaselineAction::Finish { failure: Some(ErrorKind::IoError) },
            ),
            (BaselinePhase::GeneratingBackground, BaselineEvent::Succeeded) => (
                BaselinePhase::CreatingDirs,
                BaselineAction::CreateDirs,
            ),
            (BaselinePhase::CreatingDirs, BaselineEvent::Succeeded) => (
                BaselinePhase::ExtractingBackground,
                BaselineAction::ExtractBackground,
            ),
            (BaselinePhase::ExtractingBackground, BaselineEvent::Succeeded) => (
                BaselinePhase::ExtractingInput,
                BaselineAction::ExtractInput,
            ),
            (BaselinePhase::ExtractingInput, BaselineEvent::Succeeded) => frames_from(track, 0),
            (BaselinePhase::Probing { position }, BaselineEvent::FramePresent) => match track.get(
                position,
            ) {
                Some(b) => match crop_region(&b) {
                    Some(region) => (
                        BaselinePhase::Compositing { position },
                        BaselineAction::CompositeFrame { number: frame_number(position, n), region },
                    ),
                    None => give_up_io,
                },
                None => give_up_io,
            },
            (BaselinePhase::Probing { position }, BaselineEvent::FrameMissing) => (
                BaselinePhase::Encoding,
                BaselineAction::Encode,
            ),
            (BaselinePhase::Compositing { position }, BaselineEvent::Succeeded) => frames_after(
                track,
                position,
            ),
            (BaselinePhase::Compositing { position }, BaselineEvent::Failed) => frames_after(
                track,
                position,
            ),
            (BaselinePhase::Encoding, BaselineEvent::Succeeded) => (
                BaselinePhase::CleaningUp { failure: None },
                BaselineAction::CleanUp,
            ),
            (_, BaselineEvent::Failed) => (
                BaselinePhase::CleaningUp { failure: Some(ErrorKind::CodecError) },
                BaselineAction::CleanUp,
            ),
            _ => give_up_io,
        };
        self.phase = phase;
        action
    }
}

/// The number of the frame of the box at `position` of a track of `len` boxes.
fn frame_number(position: usize, len: usize) -> (number: u64)
    requires
        position < len,
    ensures
        number == position + 1,
{
    position as u64 + 1
}

/// Begins the frames behind `position`.
fn frames_after(track: &BoxTrack, position: usize) -> (r: (BaselinePhase, BaselineAction))
    ensures
        r == begin_frames(track@, position + 1),
{
    if position < track.len() {
        frames_from(track, position + 1)
    } else {
        (BaselinePhase::Encoding, BaselineAction::Encode)
    }
}

/// Begins the frames from `from` on: looks for the next box with a region.
fn frames_from(track: &BoxTrack, from: usize) -> (r: (BaselinePhase, BaselineAction))
    ensures
        r == begin_frames(track@, from as int),
{
    let n = track.len();
    let mut position = from;
    while position < n
        invariant
            n == track@.len(),
            from <= position,
            next_with_region(track@, from as int) == next_with_region(track@, position as int),
        decreases n - position,
    {
        let found = match track.get(position) {
            Some(b) => crop_region(&b).is_some(),
            None => false,
        };
        if found {
            return (
                BaselinePhase::Probing { position },
                BaselineAction::ProbeFrame { number: frame_number(position, n) },
            );
        }
        position += 1;
    }
    (BaselinePhase::Encoding, BaselineAction::Encode)
}

/// The temporary files are removed on every path: a run that has begun ends
/// only through the cleaning up, on success and on failure alike.
pub proof fn lemma_ends_through_clean_up(
    track: Seq<BoundingBox>,
    phase: BaselinePhase,
    event: BaselineEvent,
)
    requires
        !(phase is Idle),
        !(phase is Done),
        baseline_step(track, phase, event).0 is Done,
    ensures
        phase is CleaningUp,
        baseline_step(track, phase, event).0 == (BaselinePhase::Done {
            failure: phase->CleaningUp_failure,
        }),
{
}

/// A failure of a step before the frames ends the run: the next step is the
/// cleaning up, and the failure is reported after it.
pub proof fn lemma_early_failure_gives_up(
    track: Seq<BoundingBox>,
    phase: BaselinePhase,
    event: BaselineEvent,
)
    requires
        phase is GeneratingBackground || phase is CreatingDirs || phase is ExtractingBackground
            || phase is ExtractingInput || phase is Encoding,
        event is Failed || event is IoFailed,
    ensures
        baseline_step(track, phase, event) == give_up(
            if event is Failed {
                ErrorKind::CodecError
            } else {
                ErrorKind::IoError
            },
        ),
{
}

/// Only boxes with a region are composited, each with its own region and
/// under the number of its position, counted from one.
pub proof fn lemma_composites_own_region(
    track: Seq<BoundingBox>,
    phase: BaselinePhase,
    event: BaselineEvent,
)
    requires
        baseline_step(track, phase, event).1 is CompositeFrame,
    ensures
        phase is Probing,
        event is FramePresent,
        phase->Probing_position < track.len(),
        baseline_step(track, phase, event).1 == (BaselineAction::CompositeFrame {
            number: (phase->Probing_position + 1) as u64,
            region: crop_of(track[phase->Probing_position as int])->0,
        }),
        crop_of(track[phase->Probing_position as int]) is Some,
{
}

/// The boxes between `from` and the next box with a region have none: no box
/// with a region is passed over, and the box that is taken has one.
pub proof fn lemma_next_with_region(track: Seq<BoundingBox>, from: int)
    requires
        0 <= from <= track.len(),
    ensures
        from <= next_with_region(track, from) <= track.len(),
        next_with_region(track, from) < track.len() ==> crop_of(
            track[next_with_region(track, from)],
        ) is Some,
        forall|k: int| from <= k < next_with_region(track, from) ==> crop_of(#[trigger] track[k])
            is None,
    decreases track.len() - from,
{
    if from < track.len() && crop_of(track[from]) is None {
        lemma_next_with_region(track, from + 1);
    }
}

/// The end of a baseline run is final.
pub proof fn lemma_baseline_end_is_final(
    track: Seq<BoundingBox>,
    phase: BaselinePhase,
    events: Seq<BaselineEvent>,
)
    requires
        phase is Done,
    ensures
        baseline_run(track, phase, events) == phase,
    decreases events.len(),
{
    if events.len() > 0 {
        lemma_baseline_end_is_final(track, phase, events.drop_last());
    }
}

} // verus!
