//! The aligner: which box a frame gets, whatever the lengths of the track and
//! of the video.

use vstd::prelude::*;
use crate::bbox::BoundingBox;
use crate::error::ErrorKind;
use crate::track::BoxTrack;

verus! {

/// The box that a track selects for frame `index`: the box at that position
/// where the track is long enough, and the track's last box for every frame
/// behind its end.
pub open spec fn selected(track: Seq<BoundingBox>, index: int) -> BoundingBox {
    if index < track.len() {
        track[index]
    } else {
        track[track.len() - 1]
    }
}

/// The box in effect for frame `index` of a video of `width` by `height`
/// pixels: the selected box, clamped to the frame.
pub open spec fn effective(track: Seq<BoundingBox>, index: int, width: int, height: int)
    -> BoundingBox {
    selected(track, index).clamped(width, height)
}

/// The box that the track selects for frame `index`.
pub fn select_box(track: &BoxTrack, index: u64) -> (b: BoundingBox)
    ensures
        b == selected(track@, index as int),
        index < track@.len() ==> b == track@[index as int],
        index >= track@.len() ==> b == track@[track@.len() - 1],
{
    let n = track.len();
    if index < n as u64 {
        match track.get(index as usize) {
            Some(b) => b,
            None => track.last(),
        }
    } else {
        track.last()
    }
}

/// The box in effect for frame `index` of a video of `width` by `height`
/// pixels. In a frame that has pixels, the box lies inside the frame and is
/// not empty.
pub fn effective_box(track: &BoxTrack, index: u64, width: u32, height: u32) -> (b: BoundingBox)
    ensures
        b == effective(track@, index as int, width as int, height as int),
        width > 0 && height > 0 ==> b.within(width as int, height as int),
{
    select_box(track, index).clamp(width, height)
}

/// Whether the track and the video differ in length: `DimensionMismatch` where
/// the track has more or fewer boxes than the video has frames. The mismatch
/// does not end the run.
pub fn check_lengths(track: &BoxTrack, frames: u64) -> (r: Option<ErrorKind>)
    ensures
        r == (if track@.len() == frames {
            None
        } else {
            Some(ErrorKind::DimensionMismatch)
        }),
        r matches Some(kind) ==> !kind.fatal(),
{
    if track.len() as u64 == frames {
        None
    } else {
        Some(ErrorKind::DimensionMismatch)
    }
}

/// A track that is shorter than the video: every frame from the end of the
/// track on gets the track's last box.
pub proof fn lemma_short_track_reuses_last(track: Seq<BoundingBox>, frames: int, index: int)
    requires
        0 < track.len() < frames,
        track.len() <= index < frames,
    ensures
        selected(track, index) == track[track.len() - 1],
        selected(track, index) == selected(track, track.len() - 1),
{
}

/// A track that is longer than the video: every frame gets the box at its own
/// position, and the boxes behind the last frame are not used.
pub proof fn lemma_long_track_by_position(track: Seq<BoundingBox>, frames: int, index: int)
    requires
        0 <= index < frames <= track.len(),
    ensures
        selected(track, index) == track[index],
{
}

/// The box in effect depends on the frame's size only through clamping: in a
/// frame that has pixels it lies inside the frame, and it is the selected box
/// itself where that one lies inside the frame.
pub proof fn lemma_effective_within(track: Seq<BoundingBox>, index: int, width: int, height: int)
    requires
        0 < width,
        0 < height,
    ensures
        effective(track, index, width, height).within(width, height),
        selected(track, index).within(width, height) ==> effective(track, index, width, height)
            == selected(track, index),
{
}

} // verus!
