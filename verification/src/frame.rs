//! Decoded frames in planar YUV 4:2:0 with 8-bit samples.

use vstd::prelude::*;
use crate::error::ErrorKind;

verus! {

/// The offset of column `x` of row `y` in a plane whose rows are `stride`
/// bytes apart.
pub open spec fn offset(stride: int, x: int, y: int) -> int {
    y * stride + x
}

/// A frame as a mathematical value: its geometry, the bytes of its three
/// planes and its presentation timestamp.
pub struct FrameView {
    pub width: int,
    pub height: int,
    pub y_stride: int,
    pub u_stride: int,
    pub v_stride: int,
    pub y: Seq<u8>,
    pub u: Seq<u8>,
    pub v: Seq<u8>,
    pub pts: int,
}

/// The geometry and the plane lengths describe a frame in planar YUV 4:2:0:
/// width and height are even, no stride is shorter than a row of its plane,
/// and each plane holds all of its rows. The luma plane has `width` by
/// `height` samples, each chroma plane half as many along both axes.
pub open spec fn layout_valid(
    width: int,
    height: int,
    y_stride: int,
    u_stride: int,
    v_stride: int,
    y_len: int,
    u_len: int,
    v_len: int,
) -> bool {
    &&& width % 2 == 0
    &&& height % 2 == 0
    &&& width <= y_stride
    &&& width / 2 <= u_stride
    &&& width / 2 <= v_stride
    &&& y_stride * height <= y_len
    &&& u_stride * (height / 2) <= u_len
    &&& v_stride * (height / 2) <= v_len
}

impl FrameView {
    /// The frame is well formed: its size is not negative and its planes fit
    /// its geometry.
    pub open spec fn wf(self) -> bool {
        &&& 0 <= self.width
        &&& 0 <= self.height
        &&& layout_valid(
            self.width,
            self.height,
            self.y_stride,
            self.u_stride,
            self.v_stride,
            self.y.len() as int,
            self.u.len() as int,
            self.v.len() as int,
        )
    }

    /// The luma sample of the pixel in column `x` of row `y`.
    pub open spec fn luma(self, x: int, y: int) -> u8 {
        self.y[offset(self.y_stride, x, y)]
    }

    /// The first chroma sample (U) in column `x` of row `y` of its plane.
    pub open spec fn cb(self, x: int, y: int) -> u8 {
        self.u[offset(self.u_stride, x, y)]
    }

    /// The second chroma sample (V) in column `x` of row `y` of its plane.
    pub open spec fn cr(self, x: int, y: int) -> u8 {
        self.v[offset(self.v_stride, x, y)]
    }

    /// The same frame with another presentation timestamp.
    pub open spec fn with_pts(self, pts: int) -> FrameView {
        FrameView { pts, ..self }
    }
}

/// A decoded frame in planar YUV 4:2:0: a full-resolution luma plane and two
/// chroma planes at half the resolution along both axes, one byte per sample.
#[derive(Debug)]
pub struct Frame {
    pub(crate) width: u32,
    pub(crate) height: u32,
    pub(crate) y_stride: usize,
    pub(crate) u_stride: usize,
    pub(crate) v_stride: usize,
    pub(crate) y: Vec<u8>,
    pub(crate) u: Vec<u8>,
    pub(crate) v: Vec<u8>,
    pub(crate) pts: i64,
}

impl View for Frame {
    type V = FrameView;

    closed spec fn view(&self) -> FrameView {
        FrameView {
            width: self.width as int,
            height: self.height as int,
            y_stride: self.y_stride as int,
            u_stride: self.u_stride as int,
            v_stride: self.v_stride as int,
            y: self.y@,
            u: self.u@,
            v: self.v@,
            pts: self.pts as int,
        }
    }
}

impl Frame {
    /// What the view is made of, for the modules of this crate that write to
    /// the planes.
    pub(crate) proof fn lemma_view(&self)
        ensures
            self@ == (FrameView {
                width: self.width as int,
                height: self.height as int,
                y_stride: self.y_stride as int,
                u_stride: self.u_stride as int,
                v_stride: self.v_stride as int,
                y: self.y@,
                u: self.u@,
                v: self.v@,
                pts: self.pts as int,
            }),
    {
    }

    /// Makes a frame of the given geometry from the bytes of its planes.
    ///
    /// Fails with `CodecError` where the planes do not describe a frame in
    /// planar YUV 4:2:0: an odd width or height, a stride shorter than a row,
    /// or a plane that does not hold all of its rows.
    pub fn new(
        width: u32,
        height: u32,
        y_stride: usize,
        u_stride: usize,
        v_stride: usize,
        y: Vec<u8>,
        u: Vec<u8>,
        v: Vec<u8>,
        pts: i64,
    ) -> (r: Result<Frame, ErrorKind>)
        ensures
            r is Ok <==> layout_valid(
                width as int,
                height as int,
                y_stride as int,
                u_stride as int,
                v_stride as int,
                y@.len() as int,
                u@.len() as int,
                v@.len() as int,
            ),
            r matches Ok(frame) ==> frame@.wf() && frame@ == (FrameView {
                width: width as int,
                height: height as int,
                y_stride: y_stride as int,
                u_stride: u_stride as int,
                v_stride: v_stride as int,
                y: y@,
                u: u@,
                v: v@,
                pts: pts as int,
            }),
            r matches Err(kind) ==> kind == ErrorKind::CodecError,
    {
        let half_width: u32 = width / 2;
        let half_height: u32 = height / 2;
        let valid = width % 2 == 0 && height % 2 == 0 && width as usize <= y_stride
            && half_width as usize <= u_stride && half_width as usize <= v_stride && plane_fits(
            y_stride,
            height,
            y.len(),
        ) && plane_fits(u_stride, half_height, u.len()) && plane_fits(
            v_stride,
            half_height,
            v.len(),
        );
        if valid {
            Ok(Frame { width, height, y_stride, u_stride, v_stride, y, u, v, pts })
        } else {
            Err(ErrorKind::CodecError)
        }
    }

    /// The width of the luma plane in pixels.
    pub fn width(&self) -> (w: u32)
        ensures
            w == self@.width,
    {
        self.width
    }

    /// The height of the luma plane in pixels.
    pub fn height(&self) -> (h: u32)
        ensures
            h == self@.height,
    {
        self.height
    }

    /// The presentation timestamp.
    pub fn pts(&self) -> (pts: i64)
        ensures
            pts == self@.pts,
    {
        self.pts
    }

    /// Sets the presentation timestamp and leaves the picture as it is.
    pub fn set_pts(&mut self, pts: i64)
        ensures
            final(self)@ == old(self)@.with_pts(pts as int),
    {
        self.pts = pts;
    }

    /// The distance in bytes between two rows of the luma plane.
    pub fn y_stride(&self) -> (s: usize)
        ensures
            s == self@.y_stride,
    {
        self.y_stride
    }

    /// The distance in bytes between two rows of the first chroma plane.
    pub fn u_stride(&self) -> (s: usize)
        ensures
            s == self@.u_stride,
    {
        self.u_stride
    }

    /// The distance in bytes between two rows of the second chroma plane.
    pub fn v_stride(&self) -> (s: usize)
        ensures
            s == self@.v_stride,
    {
        self.v_stride
    }

    /// The bytes of the luma plane.
    pub fn y_plane(&self) -> (plane: &Vec<u8>)
        ensures
            plane@ == self@.y,
    {
        &self.y
    }

    /// The bytes of the first chroma plane.
    pub fn u_plane(&self) -> (plane: &Vec<u8>)
        ensures
            plane@ == self@.u,
    {
        &self.u
    }

    /// The bytes of the second chroma plane.
    pub fn v_plane(&self) -> (plane: &Vec<u8>)
        ensures
            plane@ == self@.v,
    {
        &self.v
    }

    /// The luma sample of the pixel in column `x` of row `y`.
    pub fn luma(&self, x: u32, y: u32) -> (sample: u8)
        requires
            self@.wf(),
            x < self@.width,
            y < self@.height,
        ensures
            sample == self@.luma(x as int, y as int),
    {
        proof {
            lemma_offset_in_plane(self.y_stride as int, self.height as int, x as int, y as int);
            assert(self.y@.len() == self.y.len());
        }
        self.y[y as usize * self.y_stride + x as usize]
    }

    /// The first chroma sample (U) in column `x` of row `y` of its plane.
    pub fn cb(&self, x: u32, y: u32) -> (sample: u8)
        requires
            self@.wf(),
            x < self@.width / 2,
            y < self@.height / 2,
        ensures
            sample == self@.cb(x as int, y as int),
    {
        proof {
            lemma_offset_in_plane(
                self.u_stride as int,
                self.height as int / 2,
                x as int,
                y as int,
            );
            assert(self.u@.len() == self.u.len());
        }
        self.u[y as usize * self.u_stride + x as usize]
    }

    /// The second chroma sample (V) in column `x` of row `y` of its plane.
    pub fn cr(&self, x: u32, y: u32) -> (sample: u8)
        requires
            self@.wf(),
            x < self@.width / 2,
            y < self@.height / 2,
        ensures
            sample == self@.cr(x as int, y as int),
    {
        proof {
            lemma_offset_in_plane(
                self.v_stride as int,
                self.height as int / 2,
                x as int,
                y as int,
            );
            assert(self.v@.len() == self.v.len());
        }
        self.v[y as usize * self.v_stride + x as usize]
    }
}

/// Whether a plane of `len` bytes holds `rows` rows that are `stride` bytes apart.
fn plane_fits(stride: usize, rows: u32, len: usize) -> (r: bool)
    ensures
        r == (stride * rows <= len),
{
    assert(stride * rows <= 0xffff_ffff_ffff_ffff * 0xffff_ffff) by (nonlinear_arith)
        requires
            0 <= stride <= 0xffff_ffff_ffff_ffff,
            0 <= rows <= 0xffff_ffff,
    ;
    let needed: u128 = stride as u128 * rows as u128;
    needed <= len as u128
}

/// A sample of a plane of `rows` rows lies inside the plane, after the rows
/// above it and before the rows below it.
pub proof fn lemma_offset_in_plane(stride: int, rows: int, x: int, y: int)
    by (nonlinear_arith)
    requires
        0 <= x < stride,
        0 <= y < rows,
    ensures
        0 <= y * stride <= offset(stride, x, y) < (y + 1) * stride <= stride * rows,
{
}

} // verus!
