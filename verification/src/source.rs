//! The frame source's protocol: how decoded frames are pumped out of a
//! container and a decoder.
//!
//! A decoder takes packets in and gives frames out, not one for one. The
//! source decides what is asked of the container and the decoder next; the
//! caller does what is asked and reports what came of it.

use vstd::prelude::*;
use crate::error::ErrorKind;
use crate::timing::Rational;
use crate::timing::frame_rate_or_default;
use crate::timing::nominal_rate;

verus! {

/// The layout of the samples of a picture. The pipeline works on planar
/// YUV 4:2:0 and refuses everything else.
#[derive(Clone, Copy, Debug, PartialEq, Eq, Structural)]
pub enum PixelFormat {
    /// Planar YUV with both chroma planes at half the resolution along both
    /// axes, eight bits per sample.
    Yuv420p,
    /// Any other layout.
    Other,
}

/// What a container reports of its video stream.
#[derive(Clone, Copy, Debug, PartialEq, Eq, Structural)]
pub struct SourceInfo {
    pub width: u32,
    pub height: u32,
    pub pixel_format: PixelFormat,
    pub aspect_ratio: Rational,
    pub time_base: Rational,
    /// The nominal frame rate, where the container reports one.
    pub frame_rate: Option<Rational>,
}

/// Where the source stands in its protocol.
#[derive(Clone, Copy, Debug, PartialEq, Eq, Structural)]
pub enum SourcePhase {
    /// No request is under way and the container may hold more packets.
    Ready,
    /// The decoder was asked for a frame.
    AwaitFrame,
    /// The container was asked for a packet.
    AwaitPacket,
    /// A packet of the video stream was pushed into the decoder.
    AwaitSend,
    /// The decoder was told that no more packets come.
    AwaitEof,
    /// No request is under way and the decoder is being drained.
    Draining,
    /// The decoder was asked for one of its remaining frames.
    AwaitDrained,
    /// The stream has ended. The source stays here for ever.
    Finished,
}

/// What came of the last action, or a new request.
#[derive(Clone, Copy, Debug, PartialEq, Eq, Structural)]
pub enum SourceEvent {
    /// The caller asks for the next frame.
    Requested,
    /// The decoder gave a frame.
    FrameReceived,
    /// The decoder has no frame to give yet.
    NoFrame,
    /// The container gave a packet of the stream with this index.
    PacketRead { stream: usize },
    /// The container has no more packets.
    InputExhausted,
    /// The decoder took the packet.
    PacketSent,
    /// The decoder refused the packet.
    SendFailed,
    /// The decoder was told that the input has ended.
    EofSignalled,
}

/// What is to be done next.
#[derive(Clone, Copy, Debug, PartialEq, Eq, Structural)]
pub enum SourceAction {
    /// Ask the decoder for a frame.
    ReceiveFrame,
    /// Ask the container for its next packet.
    ReadPacket,
    /// Push the packet that was just read into the decoder.
    SendPacket,
    /// Tell the decoder that no more packets come.
    SignalEof,
    /// Hand the frame that was just received to the caller.
    YieldFrame,
    /// Tell the caller that the stream has ended.
    EndOfStream,
}

/// The state of a frame source: its phase, the index of the video stream that
/// it decodes, and what the container reports of that stream.
#[derive(Clone, Copy, Debug, PartialEq, Eq, Structural)]
pub struct SourceState {
    pub phase: SourcePhase,
    pub video_stream: usize,
    pub info: SourceInfo,
}

/// One step of the protocol: the state and the action that follow an event.
///
/// A request makes the source ask the decoder for a frame. A frame is handed
/// on. Without a frame the source reads a packet: one of the video stream is
/// pushed into the decoder, any other is dropped, and the decoder is asked
/// again. When the container is exhausted the decoder is told so and drained,
/// one frame for each request, and when it has no frame left the stream ends.
/// A packet that the decoder refuses ends the stream at once. An event that
/// does not answer the last action ends the stream as well.
pub open spec fn source_step(state: SourceState, event: SourceEvent) -> (SourceState, SourceAction) {
    let to = |phase: SourcePhase| SourceState { phase, ..state };
    match (state.phase, event) {
        (SourcePhase::Ready, SourceEvent::Requested) => (
            to(SourcePhase::AwaitFrame),
            SourceAction::ReceiveFrame,
        ),
        (SourcePhase::AwaitFrame, SourceEvent::FrameReceived) => (
            to(SourcePhase::Ready),
            SourceAction::YieldFrame,
        ),
        (SourcePhase::AwaitFrame, SourceEvent::NoFrame) => (
            to(SourcePhase::AwaitPacket),
            SourceAction::ReadPacket,
        ),
        (SourcePhase::AwaitPacket, SourceEvent::PacketRead { stream }) => if stream
            == state.video_stream {
            (to(SourcePhase::AwaitSend), SourceAction::SendPacket)
        } else {
            (to(SourcePhase::AwaitFrame), SourceAction::ReceiveFrame)
        },
        (SourcePhase::AwaitPacket, SourceEvent::InputExhausted) => (
            to(SourcePhase::AwaitEof),
            SourceAction::SignalEof,
        ),
        (SourcePhase::AwaitSend, SourceEvent::PacketSent) => (
            to(SourcePhase::AwaitFrame),
            SourceAction::ReceiveFrame,
        ),
        (SourcePhase::AwaitEof, SourceEvent::EofSignalled) => (
            to(SourcePhase::AwaitDrained),
            SourceAction::ReceiveFrame,
        ),
        (SourcePhase::Draining, SourceEvent::Requested) => (
            to(SourcePhase::AwaitDrained),
            SourceAction::ReceiveFrame,
        ),
        (SourcePhase::AwaitDrained, SourceEvent::FrameReceived) => (
            to(SourcePhase::Draining),
            SourceAction::YieldFrame,
        ),
        _ => (to(SourcePhase::Finished), SourceAction::EndOfStream),
    }
}

/// The state that a source is in after a sequence of events.
pub open spec fn source_run(state: SourceState, events: Seq<SourceEvent>) -> SourceState
    decreases events.len(),
{
    if events.len() == 0 {
        state
    } else {
        source_step(source_run(state, events.drop_last()), events.last()).0
    }
}

/// The phase lies behind the end of the container: the decoder was told that
/// the input has ended, or is about to be told.
pub open spec fn past_input(phase: SourcePhase) -> bool {
    phase is AwaitEof || phase is Draining || phase is AwaitDrained || phase is Finished
}

/// How a source is opened: on the best video stream of the container, where
/// it has one, given by its index and by what the container reports of it,
/// and with whether a decoder for that stream could be made.
pub open spec fn opened(best_video_stream: Option<(usize, SourceInfo)>, decoder_ready: bool)
    -> Result<SourceState, ErrorKind> {
    match best_video_stream {
        None => Err(ErrorKind::StreamNotFound),
        Some((video_stream, info)) => if decoder_ready {
            Ok(SourceState { phase: SourcePhase::Ready, video_stream, info })
        } else {
            Err(ErrorKind::CodecError)
        },
    }
}

/// A frame source: a lazy, finite sequence of decoded frames that is walked
/// once and cannot be started again.
#[derive(Debug)]
pub struct FrameSource {
    state: SourceState,
}

impl View for FrameSource {
    type V = SourceState;

    closed spec fn view(&self) -> SourceState {
        self.state
    }
}

impl FrameSource {
    /// Opens a source on the container's best video stream. Fails with
    /// `StreamNotFound` where the container has no video stream, and with
    /// `CodecError` where no decoder could be made for it.
    pub fn open(best_video_stream: Option<(usize, SourceInfo)>, decoder_ready: bool) -> (r: Result<
        FrameSource,
        ErrorKind,
    >)
        ensures
            r matches Ok(source) ==> opened(best_video_stream, decoder_ready) == Ok::<
                SourceState,
                ErrorKind,
            >(source@),
            r matches Err(kind) ==> opened(best_video_stream, decoder_ready) == Err::<
                SourceState,
                ErrorKind,
            >(kind),
    {
        match best_video_stream {
            None => Err(ErrorKind::StreamNotFound),
            Some((video_stream, info)) => if decoder_ready {
                Ok(
                    FrameSource {
                        state: SourceState { phase: SourcePhase::Ready, video_stream, info },
                    },
                )
            } else {
                Err(ErrorKind::CodecError)
            },
        }
    }

    /// What the container reports of the stream that is decoded: its width,
    /// height, pixel format, aspect ratio and time base.
    pub fn info(&self) -> (info: SourceInfo)
        ensures
            info == self@.info,
    {
        self.state.info
    }

    /// The nominal frame rate of the stream: the rate that the container
    /// reports, or 30 frames per second where it reports none.
    pub fn frame_rate(&self) -> (rate: Rational)
        ensures
            rate == nominal_rate(self@.info.frame_rate),
            rate.positive(),
    {
        frame_rate_or_default(self.state.info.frame_rate)
    }

    /// The index of the stream that is decoded.
    pub fn video_stream(&self) -> (index: usize)
        ensures
            index == self@.video_stream,
    {
        self.state.video_stream
    }

    /// The phase that the source is in.
    pub fn phase(&self) -> (phase: SourcePhase)
        ensures
            phase == self@.phase,
    {
        self.state.phase
    }

    /// Whether the stream has ended.
    pub fn is_finished(&self) -> (r: bool)
        ensures
            r == (self@.phase is Finished),
    {
        match self.state.phase {
            SourcePhase::Finished => true,
            _ => false,
        }
    }

    /// Takes an event and says what is to be done next.
    pub fn step(&mut self, event: SourceEvent) -> (action: SourceAction)
        ensures
            (final(self)@, action) == source_step(old(self)@, event),
    {
        let video_stream = self.state.video_stream;
        let info = self.state.info;
        let (phase, action) = match (self.state.phase, event) {
            (SourcePhase::Ready, SourceEvent::Requested) => (
                SourcePhase::AwaitFrame,
                SourceAction::ReceiveFrame,
            ),
            (SourcePhase::AwaitFrame, SourceEvent::FrameReceived) => (
                SourcePhase::Ready,
                SourceAction::YieldFrame,
            ),
            (SourcePhase::AwaitFrame, SourceEvent::NoFrame) => (
                SourcePhase::AwaitPacket,
                SourceAction::ReadPacket,
            ),
            (SourcePhase::AwaitPacket, SourceEvent::PacketRead { stream }) => if stream
                == video_stream {
                (SourcePhase::AwaitSend, SourceAction::SendPacket)
            } else {
                (SourcePhase::AwaitFrame, SourceAction::ReceiveFrame)
            },
            (SourcePhase::AwaitPacket, SourceEvent::InputExhausted) => (
                SourcePhase::AwaitEof,
                SourceAction::SignalEof,
            ),
            (SourcePhase::AwaitSend, SourceEvent::PacketSent) => (
                SourcePhase::AwaitFrame,
                SourceAction::ReceiveFrame,
            ),
            (SourcePhase::AwaitEof, SourceEvent::EofSignalled) => (
                SourcePhase::AwaitDrained,
                SourceAction::ReceiveFrame,
            ),
            (SourcePhase::Draining, SourceEvent::Requested) => (
                SourcePhase::AwaitDrained,
                SourceAction::ReceiveFrame,
            ),
            (SourcePhase::AwaitDrained, SourceEvent::FrameReceived) => (
                SourcePhase::Draining,
                SourceAction::YieldFrame,
            ),
            _ => (SourcePhase::Finished, SourceAction::EndOfStream),
        };
        self.state = SourceState { phase, video_stream, info };
        action
    }
}

/// The end is final: a source that has finished stays finished, whatever
/// happens, and answers every event with the end of the stream.
pub proof fn lemma_finished_is_sticky(state: SourceState, event: SourceEvent)
    requires
        state.phase is Finished,
    ensures
        source_step(state, event) == (state, SourceAction::EndOfStream),
{
}

/// A source that has finished is still finished after any sequence of events.
pub proof fn lemma_finished_for_ever(state: SourceState, events: Seq<SourceEvent>)
    requires
        state.phase is Finished,
    ensures
        source_run(state, events) == state,
    decreases events.len(),
{
    if events.len() > 0 {
        lemma_finished_for_ever(state, events.drop_last());
    }
}

/// A frame is handed to the caller only when the decoder has just given one.
pub proof fn lemma_yield_follows_frame(state: SourceState, event: SourceEvent)
    requires
        source_step(state, event).1 is YieldFrame,
    ensures
        event is FrameReceived,
        state.phase is AwaitFrame || state.phase is AwaitDrained,
{
}

/// Only packets of the video stream reach the decoder.
pub proof fn lemma_send_only_video(state: SourceState, event: SourceEvent)
    requires
        source_step(state, event).1 is SendPacket,
    ensures
        event == (SourceEvent::PacketRead { stream: state.video_stream }),
{
}

/// Once the container is exhausted it is not read again, and the decoder gets
/// no more packets.
pub proof fn lemma_no_input_after_end(state: SourceState, event: SourceEvent)
    requires
        past_input(state.phase),
    ensures
        past_input(source_step(state, event).0.phase),
        !(source_step(state, event).1 is ReadPacket),
        !(source_step(state, event).1 is SendPacket),
        !(source_step(state, event).1 is SignalEof),
{
}

/// The source never changes the stream that it decodes, nor what is known of it.
pub proof fn lemma_stream_is_kept(state: SourceState, event: SourceEvent)
    ensures
        source_step(state, event).0.video_stream == state.video_stream,
        source_step(state, event).0.info == state.info,
{
}

} // verus!
