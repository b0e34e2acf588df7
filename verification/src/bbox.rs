//! Inclusive pixel rectangles: the region of interest of one frame.

use vstd::prelude::*;

verus! {

/// An inclusive rectangle in pixel coordinates: the pixels `(x, y)` with
/// `x1 <= x <= x2` and `y1 <= y <= y2`. Coordinates may lie outside any frame,
/// and may be negative, until the box is clamped to a frame's dimensions.
#[derive(Clone, Copy, Debug, PartialEq, Eq, Structural)]
pub struct BoundingBox {
    pub x1: i32,
    pub y1: i32,
    pub x2: i32,
    pub y2: i32,
}

/// The low edge of a clamped box along one axis of `size` pixels.
pub open spec fn clamp_low(v: int, size: int) -> int {
    vstd::math::max(0, vstd::math::min(size - 1, v))
}

/// The high edge of a clamped box along one axis, given its clamped low edge.
pub open spec fn clamp_high(low: int, v: int, size: int) -> int {
    vstd::math::max(low, vstd::math::min(size - 1, v))
}

impl BoundingBox {
    /// The pixel `(x, y)` lies inside the box.
    pub open spec fn contains(self, x: int, y: int) -> bool {
        self.x1 <= x <= self.x2 && self.y1 <= y <= self.y2
    }

    /// No pixel lies inside the box.
    pub open spec fn is_empty(self) -> bool {
        self.x2 < self.x1 || self.y2 < self.y1
    }

    /// The box lies inside a frame of `width` by `height` pixels and is not empty.
    pub open spec fn within(self, width: int, height: int) -> bool {
        0 <= self.x1 <= self.x2 < width && 0 <= self.y1 <= self.y2 < height
    }

    /// Every pixel of a frame of `width` by `height` pixels lies inside the box.
    pub open spec fn covers(self, width: int, height: int) -> bool {
        self.x1 <= 0 && self.y1 <= 0 && width - 1 <= self.x2 && height - 1 <= self.y2
    }

    /// The box clamped to a frame of `width` by `height` pixels: each low edge is
    /// moved into the frame, each high edge is moved below the frame's size and
    /// then up to the clamped low edge.
    pub open spec fn clamped(self, width: int, height: int) -> BoundingBox {
        let x1 = clamp_low(self.x1 as int, width);
        let y1 = clamp_low(self.y1 as int, height);
        BoundingBox {
            x1: x1 as i32,
            y1: y1 as i32,
            x2: clamp_high(x1, self.x2 as int, width) as i32,
            y2: clamp_high(y1, self.y2 as int, height) as i32,
        }
    }

    /// The box in the coordinates of a plane subsampled by two along both axes:
    /// every coordinate halved, rounding toward negative infinity. An empty box
    /// has an empty chroma box.
    ///
    /// The chroma box holds the chroma sample of every pixel of the box and no
    /// other sample. Where an edge of the box cuts through a chroma sample, the
    /// sample belongs to the chroma box: the region kept in the chroma planes
    /// is never smaller than the region kept in the luma plane, and may reach
    /// one pixel beyond it.
    pub open spec fn chroma(self) -> BoundingBox {
        if self.is_empty() {
            BoundingBox { x1: 0, y1: 0, x2: -1i32, y2: -1i32 }
        } else {
            BoundingBox {
                x1: (self.x1 as int / 2) as i32,
                y1: (self.y1 as int / 2) as i32,
                x2: (self.x2 as int / 2) as i32,
                y2: (self.y2 as int / 2) as i32,
            }
        }
    }

    pub fn new(x1: i32, y1: i32, x2: i32, y2: i32) -> (b: BoundingBox)
        ensures
            b == (BoundingBox { x1, y1, x2, y2 }),
    {
        BoundingBox { x1, y1, x2, y2 }
    }

    /// Whether the pixel in column `x` of row `y` lies inside the box.
    pub fn contains_pixel(&self, x: u32, y: u32) -> (inside: bool)
        ensures
            inside == self.contains(x as int, y as int),
    {
        let px: i64 = x as i64;
        let py: i64 = y as i64;
        self.x1 as i64 <= px && px <= self.x2 as i64 && self.y1 as i64 <= py && py
            <= self.y2 as i64
    }

    /// Whether no pixel lies inside the box.
    pub fn empty(&self) -> (r: bool)
        ensures
            r == self.is_empty(),
    {
        self.x2 < self.x1 || self.y2 < self.y1
    }

    /// Whether the box holds every pixel of a frame of `width` by `height` pixels.
    pub fn covers_frame(&self, width: u32, height: u32) -> (r: bool)
        ensures
            r == self.covers(width as int, height as int),
    {
        self.x1 <= 0 && self.y1 <= 0 && width as i64 - 1 <= self.x2 as i64 && height as i64 - 1
            <= self.y2 as i64
    }

    /// Clamps the box to a frame of `width` by `height` pixels.
    pub fn clamp(&self, width: u32, height: u32) -> (b: BoundingBox)
        ensures
            b == self.clamped(width as int, height as int),
            width > 0 && height > 0 ==> b.within(width as int, height as int),
            0 <= b.x1 <= b.x2 && 0 <= b.y1 <= b.y2,
    {
        let x1 = clamp_edge(0, self.x1, width);
        let y1 = clamp_edge(0, self.y1, height);
        let x2 = clamp_edge(x1, self.x2, width);
        let y2 = clamp_edge(y1, self.y2, height);
        BoundingBox { x1, y1, x2, y2 }
    }

    /// The box in the coordinates of the half-resolution chroma planes.
    pub fn chroma_box(&self) -> (b: BoundingBox)
        ensures
            b == self.chroma(),
    {
        if self.empty() {
            BoundingBox { x1: 0, y1: 0, x2: -1i32, y2: -1i32 }
        } else {
            BoundingBox {
                x1: floor_half(self.x1),
                y1: floor_half(self.y1),
                x2: floor_half(self.x2),
                y2: floor_half(self.y2),
            }
        }
    }
}

/// `v` moved below `size` and then up to `low`.
fn clamp_edge(low: i32, v: i32, size: u32) -> (r: i32)
    requires
        0 <= low,
    ensures
        r == clamp_high(low as int, v as int, size as int),
        low <= r,
{
    let limit: i64 = size as i64 - 1;
    let capped: i64 = if limit < v as i64 {
        limit
    } else {
        v as i64
    };
    if capped < low as i64 {
        low
    } else {
        capped as i32
    }
}

/// Half of `v`, rounded toward negative infinity.
fn floor_half(v: i32) -> (r: i32)
    ensures
        r == v as int / 2,
{
    if v >= 0 {
        v / 2
    } else {
        let w: i64 = v as i64;
        (-((1 - w) / 2)) as i32
    }
}

/// Clamping is idempotent: a clamped box is its own clamp.
pub proof fn lemma_clamp_idempotent(b: BoundingBox, width: int, height: int)
    ensures
        b.clamped(width, height).clamped(width, height) == b.clamped(width, height),
{
}

/// A box that lies inside the frame is left as it is by clamping.
pub proof fn lemma_clamp_within(b: BoundingBox, width: int, height: int)
    requires
        b.within(width, height),
    ensures
        b.clamped(width, height) == b,
{
}

/// Clamping loses no pixel of the frame: a pixel of the frame that lies inside a
/// box lies inside the clamped box.
pub proof fn lemma_clamp_keeps_frame_pixels(b: BoundingBox, width: int, height: int, x: int, y: int)
    requires
        0 <= x < width,
        0 <= y < height,
        b.contains(x, y),
    ensures
        b.clamped(width, height).contains(x, y),
{
}

/// A pixel inside a box has its chroma sample inside the chroma box.
pub proof fn lemma_chroma_contains(b: BoundingBox, x: int, y: int)
    requires
        b.contains(x, y),
    ensures
        b.chroma().contains(x / 2, y / 2),
{
}

/// The chroma box holds exactly the samples that the pixels of the box use: a
/// sample lies inside it if and only if it is the chroma sample of some pixel
/// inside the box.
pub proof fn lemma_chroma_exact(b: BoundingBox, cx: int, cy: int)
    ensures
        b.chroma().contains(cx, cy) <==> exists|x: int, y: int|
            #[trigger] b.contains(x, y) && x / 2 == cx && y / 2 == cy,
{
    if b.chroma().contains(cx, cy) {
        let x = if 2 * cx >= b.x1 {
            2 * cx
        } else {
            b.x1 as int
        };
        let y = if 2 * cy >= b.y1 {
            2 * cy
        } else {
            b.y1 as int
        };
        assert(b.contains(x, y) && x / 2 == cx && y / 2 == cy);
    }
}

/// A pixel that is more than one column or more than one row away from a box
/// has its chroma sample outside the chroma box.
pub proof fn lemma_chroma_excludes(b: BoundingBox, x: int, y: int)
    requires
        x < b.x1 - 1 || b.x2 + 1 < x || y < b.y1 - 1 || b.y2 + 1 < y,
    ensures
        !b.chroma().contains(x / 2, y / 2),
{
}

/// A box that covers a frame of even size has a chroma box that covers the
/// frame's chroma planes.
pub proof fn lemma_chroma_covers(b: BoundingBox, width: int, height: int)
    requires
        b.covers(width, height),
        0 < width,
        0 < height,
        width % 2 == 0,
        height % 2 == 0,
    ensures
        b.chroma().covers(width / 2, height / 2),
{
}

/// An empty box has an empty chroma box, and a box that holds a pixel has a
/// chroma box that holds a sample.
pub proof fn lemma_chroma_empty(b: BoundingBox)
    ensures
        b.chroma().is_empty() == b.is_empty(),
{
}

} // verus!
