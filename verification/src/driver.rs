//! The pipeline driver: what happens to each frame, and in which order the
//! parts of a run follow each other.

use vstd::prelude::*;
use crate::align::effective;
use crate::align::effective_box;
use crate::bbox::BoundingBox;
use crate::compositor::composite;
use crate::compositor::composited;
use crate::compositor::lemma_composited_background;
use crate::compositor::lemma_composited_keeps_region;
use crate::compositor::CHROMA_BACKGROUND;
use crate::compositor::LUMA_BACKGROUND;
use crate::error::ErrorKind;
use crate::frame::Frame;
use crate::frame::FrameView;
use crate::timing::assign_pts;
use crate::track::BoxTrack;

verus! {

/// `after` is what the pipeline makes of the frame `before` as frame number
/// `index`: the frame composited with the box in effect for that index, with
/// the index as its presentation timestamp.
pub open spec fn processed(
    before: FrameView,
    track: Seq<BoundingBox>,
    index: int,
    after: FrameView,
) -> bool {
    &&& composited(
        before,
        effective(track, index, before.width, before.height),
        after.with_pts(before.pts),
    )
    &&& after.pts == index
}

/// Processes the frame with the given zero-based index: composites it with
/// the box that the track puts in effect for it, and stamps it with its index.
/// The timestamp that the frame came with is dropped.
pub fn process_frame(frame: &mut Frame, track: &BoxTrack, index: u64)
    requires
        old(frame)@.wf(),
        index <= i64::MAX,
    ensures
        final(frame)@.wf(),
        processed(old(frame)@, track@, index as int, final(frame)@),
{
    let region = effective_box(track, index, frame.width(), frame.height());
    composite(frame, &region);
    frame.set_pts(assign_pts(index));
}

/// Processes a whole video held in memory: frame `i` of the result is frame
/// `i` of the input, processed as frame number `i`. No frame is added, dropped
/// or moved.
pub fn process_frames(frames: &mut Vec<Frame>, track: &BoxTrack)
    requires
        old(frames)@.len() <= i64::MAX,
        forall|i: int| 0 <= i < old(frames)@.len() ==> (#[trigger] old(frames)@[i])@.wf(),
    ensures
        final(frames)@.len() == old(frames)@.len(),
        forall|i: int|
            0 <= i < final(frames)@.len() ==> (#[trigger] final(frames)@[i])@.wf() && processed(
                old(frames)@[i]@,
                track@,
                i,
                final(frames)@[i]@,
            ),
{
    let n = frames.len();
    let mut i: usize = 0;
    while i < n
        invariant
            i <= n,
            n == frames@.len(),
            n == old(frames)@.len(),
            n <= i64::MAX,
            forall|j: int| 0 <= j < i ==> (#[trigger] frames@[j])@.wf() && processed(
                old(frames)@[j]@,
                track@,
                j,
                frames@[j]@,
            ),
            forall|j: int| i <= j < n ==> #[trigger] frames@[j] == old(frames)@[j],
            forall|j: int| 0 <= j < n ==> (#[trigger] old(frames)@[j])@.wf(),
        decreases n - i,
    {
        process_frame(&mut frames[i], track, i as u64);
        i += 1;
    }
}

/// Where a run stands.
#[derive(Clone, Copy, Debug, PartialEq, Eq, Structural)]
pub enum DriverPhase {
    /// The run has not begun.
    Idle,
    /// The frame source is being opened.
    OpeningSource,
    /// The box track is being loaded.
    LoadingTrack,
    /// The frame sink is being set up.
    OpeningSink,
    /// The container's header is being written.
    WritingHeader,
    /// The source was asked for the next frame.
    AwaitFrame,
    /// A frame is being processed and handed to the sink.
    Submitting,
    /// The sink is being flushed.
    Flushing,
    /// The container's trailer is being written.
    WritingTrailer,
    /// The run has ended well. The driver stays here for ever.
    Done,
    /// The run has failed. The driver stays here for ever.
    Failed(ErrorKind),
}

/// What came of the last action.
#[derive(Clone, Copy, Debug, PartialEq, Eq, Structural)]
pub enum DriverEvent {
    /// The run begins.
    Started,
    /// The last action was done.
    Succeeded,
    /// The last action failed in this way.
    Failed(ErrorKind),
    /// The source gave a frame.
    FrameDecoded,
    /// The source has no more frames.
    EndOfStream,
}

/// What is to be done next.
#[derive(Clone, Copy, Debug, PartialEq, Eq, Structural)]
pub enum DriverAction {
    /// Open the frame source and take its geometry.
    OpenSource,
    /// Load the box track.
    LoadTrack,
    /// Set up the frame sink with the geometry of the source.
    OpenSink,
    /// Write the container's header.
    WriteHeader,
    /// Ask the source for the next frame.
    DecodeFrame,
    /// Process the frame as frame number `index` and submit it to the sink.
    ProcessFrame { index: u64 },
    /// Flush the sink.
    Flush,
    /// Write the container's trailer.
    WriteTrailer,
    /// The run has ended well.
    Finish,
    /// The run has ended with a failure of this kind.
    Abort(ErrorKind),
    /// Nothing: what was reported does not end the run, and the outcome of
    /// the last action is still awaited.
    Proceed,
}

/// The state of a run: its phase, and how many frames were decoded and how
/// many were submitted to the sink so far.
#[derive(Clone, Copy, Debug, PartialEq, Eq, Structural)]
pub struct DriverState {
    pub phase: DriverPhase,
    pub decoded: u64,
    pub submitted: u64,
}

/// The state before a run.
pub open spec fn driver_start() -> DriverState {
    DriverState { phase: DriverPhase::Idle, decoded: 0, submitted: 0 }
}

/// One step of a run: the state and the action that follow an event.
///
/// The source is opened first, then the track is loaded, and only then the
/// sink is set up and the header written. Each decoded frame is processed
/// under the next index and submitted; at the end of the stream the sink is
/// flushed and the trailer written. A fatal failure ends the run at once and
/// keeps its kind; a failure that is not fatal changes nothing. An event that
/// does not answer the last action ends the run with a `CodecError`, and so
/// does a frame whose index no timestamp can hold.
pub open spec fn driver_step(state: DriverState, event: DriverEvent) -> (DriverState, DriverAction) {
    let to = |phase: DriverPhase| DriverState { phase, ..state };
    match (state.phase, event) {
        (DriverPhase::Done, _) => (state, DriverAction::Finish),
        (DriverPhase::Failed(kind), _) => (state, DriverAction::Abort(kind)),
        (DriverPhase::Idle, DriverEvent::Started) => (
            to(DriverPhase::OpeningSource),
            DriverAction::OpenSource,
        ),
        (DriverPhase::Idle, _) => (
            to(DriverPhase::Failed(ErrorKind::CodecError)),
            DriverAction::Abort(ErrorKind::CodecError),
        ),
        (_, DriverEvent::Failed(kind)) => if kind.fatal() {
            (to(DriverPhase::Failed(kind)), DriverAction::Abort(kind))
        } else {
            (state, DriverAction::Proceed)
        },
        (DriverPhase::OpeningSource, DriverEvent::Succeeded) => (
            to(DriverPhase::LoadingTrack),
            DriverAction::LoadTrack,
        ),
        (DriverPhase::LoadingTrack, DriverEvent::Succeeded) => (
            to(DriverPhase::OpeningSink),
            DriverAction::OpenSink,
        ),
        (DriverPhase::OpeningSink, DriverEvent::Succeeded) => (
            to(DriverPhase::WritingHeader),
            DriverAction::WriteHeader,
        ),
        (DriverPhase::WritingHeader, DriverEvent::Succeeded) => (
            to(DriverPhase::AwaitFrame),
            DriverAction::DecodeFrame,
        ),
        (DriverPhase::AwaitFrame, DriverEvent::FrameDecoded) => if state.decoded < i64::MAX {
            (
                DriverState {
                    phase: DriverPhase::Submitting,
                    decoded: (state.decoded + 1) as u64,
                    submitted: state.submitted,
                },
                DriverAction::ProcessFrame { index: state.decoded },
            )
        } else {
            (
                to(DriverPhase::Failed(ErrorKind::CodecError)),
                DriverAction::Abort(ErrorKind::CodecError),
            )
        },
        (DriverPhase::AwaitFrame, DriverEvent::EndOfStream) => (
            to(DriverPhase::Flushing),
            DriverAction::Flush,
        ),
        (DriverPhase::Submitting, DriverEvent::Succeeded) => if state.submitted < u64::MAX {
            (
                DriverState {
                    phase: DriverPhase::AwaitFrame,
                    decoded: state.decoded,
                    submitted: (state.submitted + 1) as u64,
                },
                DriverAction::DecodeFrame,
            )
        } else {
            (
                to(DriverPhase::Failed(ErrorKind::CodecError)),
                DriverAction::Abort(ErrorKind::CodecError),
            )
        },
        (DriverPhase::Flushing, DriverEvent::Succeeded) => (
            to(DriverPhase::WritingTrailer),
            DriverAction::WriteTrailer,
        ),
        (DriverPhase::WritingTrailer, DriverEvent::Succeeded) => (
            to(DriverPhase::Done),
            DriverAction::Finish,
        ),
        _ => (
            to(DriverPhase::Failed(ErrorKind::CodecError)),
            DriverAction::Abort(ErrorKind::CodecError),
        ),
    }
}

/// The state of a run after a sequence of events.
pub open spec fn driver_run(state: DriverState, events: Seq<DriverEvent>) -> DriverState
    decreases events.len(),
{
    if events.len() == 0 {
        state
    } else {
        driver_step(driver_run(state, events.drop_last()), events.last()).0
    }
}

/// The counts of a state agree: while a frame is being submitted, one more
/// frame was decoded than was submitted; at every other time of a run that
/// has not failed, every decoded frame was submitted.
pub open spec fn counts_agree(state: DriverState) -> bool {
    match state.phase {
        DriverPhase::Submitting => state.decoded == state.submitted + 1,
        DriverPhase::Failed(_) => state.submitted <= state.decoded <= state.submitted + 1,
        _ => state.decoded == state.submitted,
    }
}

/// The pipeline driver: owns the order of a run and the count of its frames.
#[derive(Debug)]
pub struct Driver {
    state: DriverState,
}

impl View for Driver {
    type V = DriverState;

    closed spec fn view(&self) -> DriverState {
        self.state
    }
}

impl Driver {
    /// A driver before its run.
    pub fn new() -> (driver: Driver)
        ensures
            driver@ == driver_start(),
    {
        Driver { state: DriverState { phase: DriverPhase::Idle, decoded: 0, submitted: 0 } }
    }

    /// The phase that the run is in.
    pub fn phase(&self) -> (phase: DriverPhase)
        ensures
            phase == self@.phase,
    {
        self.state.phase
    }

    /// The number of frames that were decoded so far.
    pub fn frames_decoded(&self) -> (n: u64)
        ensures
            n == self@.decoded,
    {
        self.state.decoded
    }

    /// The number of frames that were submitted to the sink so far.
    pub fn frames_submitted(&self) -> (n: u64)
        ensures
            n == self@.submitted,
    {
        self.state.submitted
    }

    /// The outcome of the run, once it has ended.
    pub fn outcome(&self) -> (r: Option<Result<(), ErrorKind>>)
        ensures
            r == (match self@.phase {
                DriverPhase::Done => Some(Ok::<(), ErrorKind>(())),
                DriverPhase::Failed(kind) => Some(Err::<(), ErrorKind>(kind)),
                _ => None,
            }),
    {
        match self.state.phase {
            DriverPhase::Done => Some(Ok(())),
            DriverPhase::Failed(kind) => Some(Err(kind)),
            _ => None,
        }
    }

    /// Takes an event and says what is to be done next.
    pub fn step(&mut self, event: DriverEvent) -> (action: DriverAction)
        ensures
            (final(self)@, action) == driver_step(old(self)@, event),
    {
        let state = self.state;
        let failed = (
            DriverState { phase: DriverPhase::Failed(ErrorKind::CodecError), ..state },
            DriverAction::Abort(ErrorKind::CodecError),
        );
        let (next, action) = match (state.phase, event) {
            (DriverPhase::Done, _) => (state, DriverAction::Finish),
            (DriverPhase::Failed(kind), _) => (state, DriverAction::Abort(kind)),
            (DriverPhase::Idle, DriverEvent::Started) => (
                DriverState { phase: DriverPhase::OpeningSource, ..state },
                DriverAction::OpenSource,
            ),
            (DriverPhase::Idle, _) => failed,
            (_, DriverEvent::Failed(kind)) => if kind.is_fatal() {
                (DriverState { phase: DriverPhase::Failed(kind), ..state }, DriverAction::Abort(kind))
            } else {
                (state, DriverAction::Proceed)
            },
            (DriverPhase::OpeningSource, DriverEvent::Succeeded) => (
                DriverState { phase: DriverPhase::LoadingTrack, ..state },
                DriverAction::LoadTrack,
            ),
            (DriverPhase::LoadingTrack, DriverEvent::Succeeded) => (
                DriverState { phase: DriverPhase::OpeningSink, ..state },
                DriverAction::OpenSink,
            ),
            (DriverPhase::OpeningSink, DriverEvent::Succeeded) => (
                DriverState { phase: DriverPhase::WritingHeader, ..state },
                DriverAction::WriteHeader,
            ),
            (DriverPhase::WritingHeader, DriverEvent::Succeeded) => (
                DriverState { phase: DriverPhase::AwaitFrame, ..state },
                DriverAction::DecodeFrame,
            ),
            (DriverPhase::AwaitFrame, DriverEvent::FrameDecoded) => if state.decoded
                < i64::MAX as u64 {
                (
                    DriverState {
                        phase: DriverPhase::Submitting,
                        decoded: state.decoded + 1,
                        submitted: state.submitted,
                    },
                    DriverAction::ProcessFrame { index: state.decoded },
                )
            } else {
                failed
            },
            (DriverPhase::AwaitFrame, DriverEvent::EndOfStream) => (
                DriverState { phase: DriverPhase::Flushing, ..state },
                DriverAction::Flush,
            ),
            (DriverPhase::Submitting, DriverEvent::Succeeded) => if state.submitted < u64::MAX {
                (
                    DriverState {
                        phase: DriverPhase::AwaitFrame,
                        decoded: state.decoded,
                        submitted: state.submitted + 1,
                    },
                    DriverAction::DecodeFrame,
                )
            } else {
                failed
            },
            (DriverPhase::Flushing, DriverEvent::Succeeded) => (
                DriverState { phase: DriverPhase::WritingTrailer, ..state },
                DriverAction::WriteTrailer,
            ),
            (DriverPhase::WritingTrailer, DriverEvent::Succeeded) => (
                DriverState { phase: DriverPhase::Done, ..state },
                DriverAction::Finish,
            ),
            _ => failed,
        };
        self.state = next;
        action
    }
}

/// Fidelity of the region, for every frame of a video: a pixel inside the box
/// in effect for the frame keeps its luma sample and its chroma samples.
pub proof fn lemma_processed_keeps_region(
    before: FrameView,
    track: Seq<BoundingBox>,
    index: int,
    after: FrameView,
    x: int,
    y: int,
)
    requires
        before.wf(),
        processed(before, track, index, after),
        0 <= x < before.width,
        0 <= y < before.height,
        effective(track, index, before.width, before.height).contains(x, y),
    ensures
        after.luma(x, y) == before.luma(x, y),
        after.cb(x / 2, y / 2) == before.cb(x / 2, y / 2),
        after.cr(x / 2, y / 2) == before.cr(x / 2, y / 2),
{
    lemma_composited_keeps_region(
        before,
        effective(track, index, before.width, before.height),
        after.with_pts(before.pts),
    );
}

/// Uniformity of the background, for every frame of a video: a pixel outside
/// the box in effect for the frame is black, and its chroma is neutral where
/// its chroma sample lies outside the box's chroma box.
pub proof fn lemma_processed_background(
    before: FrameView,
    track: Seq<BoundingBox>,
    index: int,
    after: FrameView,
    x: int,
    y: int,
)
    requires
        before.wf(),
        processed(before, track, index, after),
        0 <= x < before.width,
        0 <= y < before.height,
        !effective(track, index, before.width, before.height).contains(x, y),
    ensures
        after.luma(x, y) == LUMA_BACKGROUND,
        !effective(track, index, before.width, before.height).chroma().contains(x / 2, y / 2) ==> {
            &&& after.cb(x / 2, y / 2) == CHROMA_BACKGROUND
            &&& after.cr(x / 2, y / 2) == CHROMA_BACKGROUND
        },
{
    lemma_composited_background(
        before,
        effective(track, index, before.width, before.height),
        after.with_pts(before.pts),
    );
}

/// Every frame behind the end of a short track is composited with the
/// track's last box.
pub proof fn lemma_processed_short_track(
    before: FrameView,
    track: Seq<BoundingBox>,
    index: int,
    after: FrameView,
)
    requires
        0 < track.len() <= index,
        processed(before, track, index, after),
    ensures
        composited(
            before,
            track[track.len() - 1].clamped(before.width, before.height),
            after.with_pts(before.pts),
        ),
{
}

/// Frames are stamped in rising order: of two processed frames, the one with
/// the greater index has the greater timestamp, and the timestamps of
/// neighbours differ by one.
pub proof fn lemma_processed_pts_increase(
    first: FrameView,
    second: FrameView,
    before_first: FrameView,
    before_second: FrameView,
    track: Seq<BoundingBox>,
    i: int,
    j: int,
)
    requires
        i < j,
        processed(before_first, track, i, first),
        processed(before_second, track, j, second),
    ensures
        first.pts < second.pts,
        second.pts - first.pts == j - i,
{
}

/// A step keeps the counts in agreement.
pub proof fn lemma_step_keeps_counts(state: DriverState, event: DriverEvent)
    requires
        counts_agree(state),
    ensures
        counts_agree(driver_step(state, event).0),
{
}

/// No frame is lost: at every moment of a run, every decoded frame was
/// submitted to the sink, but for the one that is being submitted; and when
/// the run has ended well, as many frames were written as were decoded.
pub proof fn lemma_frame_count_preserved(events: Seq<DriverEvent>)
    ensures
        counts_agree(driver_run(driver_start(), events)),
        driver_run(driver_start(), events).phase is Done ==> driver_run(
            driver_start(),
            events,
        ).submitted == driver_run(driver_start(), events).decoded,
    decreases events.len(),
{
    if events.len() > 0 {
        lemma_frame_count_preserved(events.drop_last());
        lemma_step_keeps_counts(driver_run(driver_start(), events.drop_last()), events.last());
    }
}

/// Each decoded frame is processed under the number of frames decoded before
/// it: the first frame as frame 0, and each frame as the successor of the one
/// before.
pub proof fn lemma_frames_are_numbered(state: DriverState, event: DriverEvent)
    requires
        driver_step(state, event).1 is ProcessFrame,
    ensures
        event is FrameDecoded,
        driver_step(state, event).1 == (DriverAction::ProcessFrame { index: state.decoded }),
        driver_step(state, event).0.decoded == state.decoded + 1,
        state.decoded <= i64::MAX,
{
}

/// The end of a run is final, and the kind of a failure is kept.
pub proof fn lemma_run_end_is_final(state: DriverState, events: Seq<DriverEvent>)
    requires
        state.phase is Done || state.phase is Failed,
    ensures
        driver_run(state, events) == state,
    decreases events.len(),
{
    if events.len() > 0 {
        lemma_run_end_is_final(state, events.drop_last());
    }
}

/// A fatal failure ends the run with its own kind, in whatever phase of a
/// running driver it is reported.
pub proof fn lemma_failure_keeps_kind(state: DriverState, kind: ErrorKind)
    requires
        kind.fatal(),
        !(state.phase is Idle),
        !(state.phase is Done),
        !(state.phase is Failed),
    ensures
        driver_step(state, DriverEvent::Failed(kind)).0.phase == DriverPhase::Failed(kind),
        driver_step(state, DriverEvent::Failed(kind)).1 == DriverAction::Abort(kind),
{
}

/// The sink is set up only when the track is loaded: without a track no
/// output is begun.
pub proof fn lemma_sink_needs_track(state: DriverState, event: DriverEvent)
    requires
        driver_step(state, event).1 is OpenSink,
    ensures
        state.phase is LoadingTrack,
        event is Succeeded,
{
}

} // verus!
