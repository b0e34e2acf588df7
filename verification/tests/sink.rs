use roi_pipeline::error::ErrorKind;
use roi_pipeline::sink::FrameSink;
use roi_pipeline::sink::SinkAction;
use roi_pipeline::sink::SinkEvent;
use roi_pipeline::sink::SinkPhase;
use roi_pipeline::timing::Rational;
use roi_pipeline::timing::Timestamps;

fn sink() -> FrameSink {
    FrameSink::new(Rational::new(1, 30), Rational::new(1, 15360))
}

/// An encoder that holds frames back and gives their packets in order.
struct Rig {
    held: Vec<i64>,
    delay: usize,
    eof: bool,
    pending: Option<i64>,
    written: Vec<Timestamps>,
    fail_write_at: Option<usize>,
}

impl Rig {
    fn new(delay: usize) -> Rig {
        Rig { held: Vec::new(), delay, eof: false, pending: None, written: Vec::new(), fail_write_at: None }
    }

    fn perform(&mut self, sink: &FrameSink, action: SinkAction, frame: Option<i64>) -> SinkEvent {
        match action {
            SinkAction::SendFrame => {
                self.held.push(frame.unwrap());
                SinkEvent::FrameAccepted
            }
            SinkAction::ReceivePacket => {
                let keep = if self.eof { 0 } else { self.delay };
                if self.held.len() > keep {
                    self.pending = Some(self.held.remove(0));
                    SinkEvent::PacketReceived
                } else {
                    SinkEvent::NoPacket
                }
            }
            SinkAction::WritePacket => {
                if self.fail_write_at == Some(self.written.len()) {
                    return SinkEvent::WriteFailed;
                }
                let stamped = Timestamps::of_frame(self.pending.take().unwrap());
                self.written.push(sink.packet_timestamps(stamped).unwrap());
                SinkEvent::PacketWritten
            }
            SinkAction::SignalEof => {
                self.eof = true;
                SinkEvent::EofSignalled
            }
            other => panic!("nothing is performed for {:?}", other),
        }
    }
}

fn drive(sink: &mut FrameSink, rig: &mut Rig, first: SinkEvent, frame: Option<i64>) -> SinkAction {
    let mut action = sink.step(first);
    loop {
        match action {
            SinkAction::NextFrame | SinkAction::Finish | SinkAction::Fail(_) => return action,
            other => {
                let event = rig.perform(sink, other, frame);
                action = sink.step(event);
            }
        }
    }
}

fn encode(frames: i64, delay: usize) -> Rig {
    let mut sink = sink();
    let mut rig = Rig::new(delay);
    for pts in 0..frames {
        assert_eq!(
            drive(&mut sink, &mut rig, SinkEvent::FrameSubmitted, Some(pts)),
            SinkAction::NextFrame
        );
    }
    assert_eq!(drive(&mut sink, &mut rig, SinkEvent::EndOfStream, None), SinkAction::Finish);
    assert_eq!(sink.phase(), SinkPhase::Flushed);
    rig
}

#[test]
fn new_sink_is_ready() {
    assert_eq!(sink().phase(), SinkPhase::Ready);
}

#[test]
fn every_frame_is_written_as_a_packet() {
    let rig = encode(5, 0);
    assert_eq!(rig.written.len(), 5);
}

#[test]
fn packets_held_back_by_the_encoder_are_flushed() {
    let rig = encode(5, 3);
    assert_eq!(rig.written.len(), 5);
    let rig = encode(2, 10);
    assert_eq!(rig.written.len(), 2);
}

#[test]
fn written_timestamps_rise_and_dts_equals_pts() {
    let rig = encode(5, 2);
    let pts: Vec<i64> = rig.written.iter().map(|t| t.pts).collect();
    assert_eq!(pts, vec![0, 512, 1024, 1536, 2048]);
    for t in &rig.written {
        assert_eq!(t.dts, t.pts);
    }
    for pair in pts.windows(2) {
        assert!(pair[0] < pair[1]);
    }
}

#[test]
fn stream_without_frames_is_flushed() {
    let rig = encode(0, 0);
    assert!(rig.written.is_empty());
}

#[test]
fn steps_of_one_frame() {
    let mut sink = sink();
    assert_eq!(sink.step(SinkEvent::FrameSubmitted), SinkAction::SendFrame);
    assert_eq!(sink.phase(), SinkPhase::AwaitAccept);
    assert_eq!(sink.step(SinkEvent::FrameAccepted), SinkAction::ReceivePacket);
    assert_eq!(sink.step(SinkEvent::PacketReceived), SinkAction::WritePacket);
    assert_eq!(sink.phase(), SinkPhase::AwaitWrite);
    assert_eq!(sink.step(SinkEvent::PacketWritten), SinkAction::ReceivePacket);
    assert_eq!(sink.step(SinkEvent::PacketReceived), SinkAction::WritePacket);
    assert_eq!(sink.step(SinkEvent::PacketWritten), SinkAction::ReceivePacket);
    assert_eq!(sink.step(SinkEvent::NoPacket), SinkAction::NextFrame);
    assert_eq!(sink.phase(), SinkPhase::Ready);
}

#[test]
fn steps_at_the_end_of_the_stream() {
    let mut sink = sink();
    assert_eq!(sink.step(SinkEvent::EndOfStream), SinkAction::SignalEof);
    assert_eq!(sink.phase(), SinkPhase::AwaitEof);
    assert_eq!(sink.step(SinkEvent::EofSignalled), SinkAction::ReceivePacket);
    assert_eq!(sink.step(SinkEvent::PacketReceived), SinkAction::WritePacket);
    assert_eq!(sink.phase(), SinkPhase::AwaitLastWrite);
    assert_eq!(sink.step(SinkEvent::PacketWritten), SinkAction::ReceivePacket);
    assert_eq!(sink.step(SinkEvent::NoPacket), SinkAction::Finish);
    assert_eq!(sink.phase(), SinkPhase::Flushed);
    assert_eq!(sink.step(SinkEvent::FrameSubmitted), SinkAction::Finish);
    assert_eq!(sink.phase(), SinkPhase::Flushed);
}

#[test]
fn refused_frame_is_a_codec_error() {
    let mut sink = sink();
    assert_eq!(sink.step(SinkEvent::FrameSubmitted), SinkAction::SendFrame);
    assert_eq!(sink.step(SinkEvent::FrameRejected), SinkAction::Fail(ErrorKind::CodecError));
    assert_eq!(sink.phase(), SinkPhase::Failed(ErrorKind::CodecError));
}

#[test]
fn refused_end_is_a_codec_error() {
    let mut sink = sink();
    assert_eq!(sink.step(SinkEvent::EndOfStream), SinkAction::SignalEof);
    assert_eq!(sink.step(SinkEvent::EofFailed), SinkAction::Fail(ErrorKind::CodecError));
}

#[test]
fn packet_that_cannot_be_written_is_an_io_error() {
    let mut sink = sink();
    let mut rig = Rig::new(0);
    rig.fail_write_at = Some(1);
    assert_eq!(
        drive(&mut sink, &mut rig, SinkEvent::FrameSubmitted, Some(0)),
        SinkAction::NextFrame
    );
    assert_eq!(
        drive(&mut sink, &mut rig, SinkEvent::FrameSubmitted, Some(1)),
        SinkAction::Fail(ErrorKind::IoError)
    );
    assert_eq!(sink.phase(), SinkPhase::Failed(ErrorKind::IoError));
    let mut sink = FrameSink::new(Rational::new(1, 30), Rational::new(1, 15360));
    assert_eq!(sink.step(SinkEvent::EndOfStream), SinkAction::SignalEof);
    assert_eq!(sink.step(SinkEvent::EofSignalled), SinkAction::ReceivePacket);
    assert_eq!(sink.step(SinkEvent::PacketReceived), SinkAction::WritePacket);
    assert_eq!(sink.step(SinkEvent::WriteFailed), SinkAction::Fail(ErrorKind::IoError));
}

#[test]
fn failed_sink_repeats_its_failure() {
    let mut sink = sink();
    assert_eq!(sink.step(SinkEvent::PacketWritten), SinkAction::Fail(ErrorKind::CodecError));
    for event in [
        SinkEvent::FrameSubmitted,
        SinkEvent::EndOfStream,
        SinkEvent::FrameAccepted,
        SinkEvent::NoPacket,
        SinkEvent::WriteFailed,
    ] {
        assert_eq!(sink.step(event), SinkAction::Fail(ErrorKind::CodecError));
        assert_eq!(sink.phase(), SinkPhase::Failed(ErrorKind::CodecError));
    }
}

#[test]
fn no_frame_is_taken_while_another_is_under_way() {
    let mut sink = sink();
    assert_eq!(sink.step(SinkEvent::FrameSubmitted), SinkAction::SendFrame);
    assert_eq!(sink.step(SinkEvent::FrameSubmitted), SinkAction::Fail(ErrorKind::CodecError));
}

#[test]
fn timestamps_that_cannot_be_converted_are_a_codec_error() {
    let broken = FrameSink::new(Rational::new(1, 30), Rational::new(0, 1));
    assert_eq!(
        broken.packet_timestamps(Timestamps::of_frame(1)),
        Err(ErrorKind::CodecError)
    );
    let fine = FrameSink::new(Rational::new(1, 1), Rational::new(1, 1000));
    assert_eq!(
        fine.packet_timestamps(Timestamps::of_frame(i64::MAX)),
        Err(ErrorKind::CodecError)
    );
    assert_eq!(
        fine.packet_timestamps(Timestamps::of_frame(2)),
        Ok(Timestamps { pts: 2000, dts: 2000 })
    );
}
