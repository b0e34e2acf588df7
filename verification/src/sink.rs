//! The frame sink's protocol: how frames are pumped through an encoder into
//! an output container.
//!
//! An encoder takes frames in and gives packets out, not one for one. After
//! each frame the sink drains every packet that the encoder has ready; at the
//! end of the stream it tells the encoder so and drains what is left.

use vstd::prelude::*;
use crate::error::ErrorKind;
use crate::timing::Rational;
use crate::timing::Timestamps;
use crate::timing::rescaled_i64;

verus! {

/// Where the sink stands in its protocol.
#[derive(Clone, Copy, Debug, PartialEq, Eq, Structural)]
pub enum SinkPhase {
    /// The sink takes the next frame, or the end of the stream.
    Ready,
    /// A frame was pushed into the encoder.
    AwaitAccept,
    /// The encoder was asked for a packet, after a frame.
    AwaitPacket,
    /// A packet is being written, after a frame.
    AwaitWrite,
    /// The encoder was told that no more frames come.
    AwaitEof,
    /// The encoder was asked for one of its remaining packets.
    AwaitLastPacket,
    /// One of the remaining packets is being written.
    AwaitLastWrite,
    /// Every packet is written. The sink stays here for ever.
    Flushed,
    /// The sink has failed. It stays here for ever.
    Failed(ErrorKind),
}

/// What came of the last action, or new input.
#[derive(Clone, Copy, Debug, PartialEq, Eq, Structural)]
pub enum SinkEvent {
    /// The driver submits a frame.
    FrameSubmitted,
    /// The driver has no more frames.
    EndOfStream,
    /// The encoder took the frame.
    FrameAccepted,
    /// The encoder refused the frame.
    FrameRejected,
    /// The encoder gave a packet.
    PacketReceived,
    /// The encoder has no packet to give.
    NoPacket,
    /// The packet is in the container.
    PacketWritten,
    /// The packet could not be written.
    WriteFailed,
    /// The encoder was told that the stream has ended.
    EofSignalled,
    /// The encoder could not be told that the stream has ended.
    EofFailed,
}

/// What is to be done next.
#[derive(Clone, Copy, Debug, PartialEq, Eq, Structural)]
pub enum SinkAction {
    /// Push the submitted frame into the encoder.
    SendFrame,
    /// Ask the encoder for a packet.
    ReceivePacket,
    /// Convert the packet's timestamps to the output stream's time base and
    /// write the packet to the container.
    WritePacket,
    /// Tell the encoder that no more frames come.
    SignalEof,
    /// Go on with the next frame: the encoder has no packet ready.
    NextFrame,
    /// Every packet is written: the container can be closed.
    Finish,
    /// Give up with a failure of this kind.
    Fail(ErrorKind),
}

/// One step of the protocol: the phase and the action that follow an event.
///
/// A submitted frame is pushed into the encoder; then packets are received and
/// written until the encoder has none, and the sink is ready again. At the end
/// of the stream the encoder is told so, and packets are received and written
/// until none is left. A packet that cannot be written is an `IoError`. A
/// frame or an end that the encoder refuses is a `CodecError`, and so is every
/// event that does not answer the last action. A sink that has failed repeats
/// its failure, and one that has finished has nothing more to do.
pub open spec fn sink_step(phase: SinkPhase, event: SinkEvent) -> (SinkPhase, SinkAction) {
    match (phase, event) {
        (SinkPhase::Ready, SinkEvent::FrameSubmitted) => (
            SinkPhase::AwaitAccept,
            SinkAction::SendFrame,
        ),
        (SinkPhase::Ready, SinkEvent::EndOfStream) => (SinkPhase::AwaitEof, SinkAction::SignalEof),
        (SinkPhase::AwaitAccept, SinkEvent::FrameAccepted) => (
            SinkPhase::AwaitPacket,
            SinkAction::ReceivePacket,
        ),
        (SinkPhase::AwaitPacket, SinkEvent::PacketReceived) => (
            SinkPhase::AwaitWrite,
            SinkAction::WritePacket,
        ),
        (SinkPhase::AwaitPacket, SinkEvent::NoPacket) => (SinkPhase::Ready, SinkAction::NextFrame),
        (SinkPhase::AwaitWrite, SinkEvent::PacketWritten) => (
            SinkPhase::AwaitPacket,
            SinkAction::ReceivePacket,
        ),
        (SinkPhase::AwaitEof, SinkEvent::EofSignalled) => (
            SinkPhase::AwaitLastPacket,
            SinkAction::ReceivePacket,
        ),
        (SinkPhase::AwaitLastPacket, SinkEvent::PacketReceived) => (
            SinkPhase::AwaitLastWrite,
            SinkAction::WritePacket,
        ),
        (SinkPhase::AwaitLastPacket, SinkEvent::NoPacket) => (
            SinkPhase::Flushed,
            SinkAction::Finish,
        ),
        (SinkPhase::AwaitLastWrite, SinkEvent::PacketWritten) => (
            SinkPhase::AwaitLastPacket,
            SinkAction::ReceivePacket,
        ),
        (SinkPhase::AwaitWrite, SinkEvent::WriteFailed) => (
            SinkPhase::Failed(ErrorKind::IoError),
            SinkAction::Fail(ErrorKind::IoError),
        ),
        (SinkPhase::AwaitLastWrite, SinkEvent::WriteFailed) => (
            SinkPhase::Failed(ErrorKind::IoError),
            SinkAction::Fail(ErrorKind::IoError),
        ),
        (SinkPhase::Flushed, _) => (SinkPhase::Flushed, SinkAction::Finish),
        (SinkPhase::Failed(kind), _) => (SinkPhase::Failed(kind), SinkAction::Fail(kind)),
        _ => (SinkPhase::Failed(ErrorKind::CodecError), SinkAction::Fail(ErrorKind::CodecError)),
    }
}

/// The phase that a sink is in after a sequence of events.
pub open spec fn sink_run(phase: SinkPhase, events: Seq<SinkEvent>) -> SinkPhase
    decreases events.len(),
{
    if events.len() == 0 {
        phase
    } else {
        sink_step(sink_run(phase, events.drop_last()), events.last()).0
    }
}

/// A frame sink: takes composited frames in the order in which they are shown
/// and has their packets written.
#[derive(Debug)]
pub struct FrameSink {
    phase: SinkPhase,
    encoder_time_base: Rational,
    stream_time_base: Rational,
}

/// A sink as a mathematical value.
#[derive(Clone, Copy, Debug, PartialEq, Eq, Structural)]
pub struct SinkState {
    pub phase: SinkPhase,
    /// The time base in which the encoder stamps its packets.
    pub encoder_time_base: Rational,
    /// The time base of the stream in the output container.
    pub stream_time_base: Rational,
}

impl View for FrameSink {
    type V = SinkState;

    closed spec fn view(&self) -> SinkState {
        SinkState {
            phase: self.phase,
            encoder_time_base: self.encoder_time_base,
            stream_time_base: self.stream_time_base,
        }
    }
}

impl FrameSink {
    /// A sink that is ready for its first frame.
    pub fn new(encoder_time_base: Rational, stream_time_base: Rational) -> (sink: FrameSink)
        ensures
            sink@ == (SinkState { phase: SinkPhase::Ready, encoder_time_base, stream_time_base }),
    {
        FrameSink { phase: SinkPhase::Ready, encoder_time_base, stream_time_base }
    }

    /// The phase that the sink is in.
    pub fn phase(&self) -> (phase: SinkPhase)
        ensures
            phase == self@.phase,
    {
        self.phase
    }

    /// Takes an event and says what is to be done next. The time bases stay as
    /// they are.
    pub fn step(&mut self, event: SinkEvent) -> (action: SinkAction)
        ensures
            (final(self)@.phase, action) == sink_step(old(self)@.phase, event),
            final(self)@.encoder_time_base == old(self)@.encoder_time_base,
            final(self)@.stream_time_base == old(self)@.stream_time_base,
    {
        let (phase, action) = match (self.phase, event) {
            (SinkPhase::Ready, SinkEvent::FrameSubmitted) => (
                SinkPhase::AwaitAccept,
                SinkAction::SendFrame,
            ),
            (SinkPhase::Ready, SinkEvent::EndOfStream) => (
                SinkPhase::AwaitEof,
                SinkAction::SignalEof,
            ),
            (SinkPhase::AwaitAccept, SinkEvent::FrameAccepted) => (
                SinkPhase::AwaitPacket,
                SinkAction::ReceivePacket,
            ),
            (SinkPhase::AwaitPacket, SinkEvent::PacketReceived) => (
                SinkPhase::AwaitWrite,
                SinkAction::WritePacket,
            ),
            (SinkPhase::AwaitPacket, SinkEvent::NoPacket) => (
                SinkPhase::Ready,
                SinkAction::NextFrame,
            ),
            (SinkPhase::AwaitWrite, SinkEvent::PacketWritten) => (
                SinkPhase::AwaitPacket,
                SinkAction::ReceivePacket,
            ),
            (SinkPhase::AwaitEof, SinkEvent::EofSignalled) => (
                SinkPhase::AwaitLastPacket,
                SinkAction::ReceivePacket,
            ),
            (SinkPhase::AwaitLastPacket, SinkEvent::PacketReceived) => (
                SinkPhase::AwaitLastWrite,
                SinkAction::WritePacket,
            ),
            (SinkPhase::AwaitLastPacket, SinkEvent::NoPacket) => (
                SinkPhase::Flushed,
                SinkAction::Finish,
            ),
            (SinkPhase::AwaitLastWrite, SinkEvent::PacketWritten) => (
                SinkPhase::AwaitLastPacket,
                SinkAction::ReceivePacket,
            ),
            (SinkPhase::AwaitWrite, SinkEvent::WriteFailed) => (
                SinkPhase::Failed(ErrorKind::IoError),
                SinkAction::Fail(ErrorKind::IoError),
            ),
            (SinkPhase::AwaitLastWrite, SinkEvent::WriteFailed) => (
                SinkPhase::Failed(ErrorKind::IoError),
                SinkAction::Fail(ErrorKind::IoError),
            ),
            (SinkPhase::Flushed, _) => (SinkPhase::Flushed, SinkAction::Finish),
            (SinkPhase::Failed(kind), _) => (SinkPhase::Failed(kind), SinkAction::Fail(kind)),
            _ => (
                SinkPhase::Failed(ErrorKind::CodecError),
                SinkAction::Fail(ErrorKind::CodecError),
            ),
        };
        self.phase = phase;
        action
    }

    /// The timestamps with which a packet is written: those that the encoder
    /// gave it, converted from the encoder's time base to the output stream's.
    /// Fails with `CodecError` where a timestamp cannot be converted.
    pub fn packet_timestamps(&self, stamped: Timestamps) -> (r: Result<Timestamps, ErrorKind>)
        ensures
            r == written_timestamps(stamped, self@.encoder_time_base, self@.stream_time_base),
    {
        match stamped.rescale_ts(self.encoder_time_base, self.stream_time_base) {
            Some(t) => Ok(t),
            None => Err(ErrorKind::CodecError),
        }
    }
}

/// The timestamps with which a packet is written to a stream with the time
/// base `to`, given those that it has in the time base `from`.
pub open spec fn written_timestamps(stamped: Timestamps, from: Rational, to: Rational) -> Result<
    Timestamps,
    ErrorKind,
> {
    match (rescaled_i64(stamped.pts, from, to), rescaled_i64(stamped.dts, from, to)) {
        (Some(pts), Some(dts)) => Ok(Timestamps { pts, dts }),
        _ => Err(ErrorKind::CodecError),
    }
}

/// A sink that has failed stays failed, with the failure that it had, and a
/// sink that has finished stays finished.
pub proof fn lemma_sink_end_is_final(phase: SinkPhase, events: Seq<SinkEvent>)
    requires
        phase is Failed || phase is Flushed,
    ensures
        sink_run(phase, events) == phase,
    decreases events.len(),
{
    if events.len() > 0 {
        lemma_sink_end_is_final(phase, events.drop_last());
    }
}

/// The kind of a failure is kept: what the sink reports is what went wrong.
pub proof fn lemma_sink_failure_kind(phase: SinkPhase, event: SinkEvent)
    requires
        !(phase is Failed),
        sink_step(phase, event).1 is Fail,
    ensures
        sink_step(phase, event).0 == SinkPhase::Failed(sink_step(phase, event).1->Fail_0),
        event is WriteFailed && (phase is AwaitWrite || phase is AwaitLastWrite) ==> sink_step(
            phase,
            event,
        ).1 == SinkAction::Fail(ErrorKind::IoError),
        !(event is WriteFailed && (phase is AwaitWrite || phase is AwaitLastWrite)) ==> sink_step(
            phase,
            event,
        ).1 == SinkAction::Fail(ErrorKind::CodecError),
{
}

/// Every packet that the encoder gives is written: a received packet is
/// answered with a write and with nothing else.
pub proof fn lemma_packets_are_written(phase: SinkPhase, event: SinkEvent)
    ensures
        event is PacketReceived && (phase is AwaitPacket || phase is AwaitLastPacket) ==> sink_step(
            phase,
            event,
        ).1 is WritePacket,
        sink_step(phase, event).1 is WritePacket ==> event is PacketReceived,
{
}

/// No frame is taken after the end of the stream: once the encoder is told
/// that the stream has ended, nothing is pushed into it any more.
pub proof fn lemma_no_frame_after_end(phase: SinkPhase, event: SinkEvent)
    requires
        phase is AwaitEof || phase is AwaitLastPacket || phase is AwaitLastWrite || phase
            is Flushed || phase is Failed,
    ensures
        !(sink_step(phase, event).1 is SendFrame),
        !(sink_step(phase, event).1 is NextFrame),
        ({
            let next = sink_step(phase, event).0;
            next is AwaitEof || next is AwaitLastPacket || next is AwaitLastWrite || next
                is Flushed || next is Failed
        }),
{
}

/// A packet that is decoded when it is shown keeps that property when it is
/// written: equal timestamps are converted to equal timestamps.
pub proof fn lemma_written_dts_equals_pts(stamped: Timestamps, from: Rational, to: Rational)
    requires
        stamped.dts == stamped.pts,
    ensures
        written_timestamps(stamped, from, to) matches Ok(t) ==> t.dts == t.pts,
{
}

} // verus!
