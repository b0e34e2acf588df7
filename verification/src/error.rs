//! The kinds of failure the pipeline reports.

use vstd::prelude::*;

verus! {

/// What went wrong. The kind of a failure is kept from the place where it
/// arises to the place where it is reported.
#[derive(Clone, Copy, Debug, PartialEq, Eq, Structural)]
pub enum ErrorKind {
    /// A file could not be opened, read or written.
    IoError,
    /// The input holds no video stream.
    StreamNotFound,
    /// A decoder or encoder could not be set up, or failed while running.
    CodecError,
    /// The track holds no valid record.
    NoBoxes,
    /// One line of the track is not a record. The line is skipped.
    MalformedBoxLine,
    /// The track and the video differ in their number of frames. The last box
    /// of a shorter track is used again for the frames that follow.
    DimensionMismatch,
}

impl ErrorKind {
    /// The failure ends the run. A malformed line and a mismatch in length are
    /// reported and the run goes on.
    pub open spec fn fatal(self) -> bool {
        !(self is MalformedBoxLine) && !(self is DimensionMismatch)
    }

    /// Whether the failure ends the run.
    pub fn is_fatal(&self) -> (r: bool)
        ensures
            r == self.fatal(),
    {
        match self {
            ErrorKind::MalformedBoxLine => false,
            ErrorKind::DimensionMismatch => false,
            _ => true,
        }
    }
}

/// The exit code of a run with the given outcome: zero on success, and on a
/// failure that does not end the run; nonzero on every fatal failure.
pub open spec fn exit_code_of(outcome: Result<(), ErrorKind>) -> u8 {
    match outcome {
        Ok(_) => 0,
        Err(kind) => if kind.fatal() {
            1
        } else {
            0
        },
    }
}

/// The exit code of a run with the given outcome.
pub fn exit_code(outcome: &Result<(), ErrorKind>) -> (code: u8)
    ensures
        code == exit_code_of(*outcome),
        code != 0 <==> (outcome matches Err(kind) && kind.fatal()),
{
    match outcome {
        Ok(_) => 0,
        Err(kind) => if kind.is_fatal() {
            1
        } else {
            0
        },
    }
}

} // verus!
