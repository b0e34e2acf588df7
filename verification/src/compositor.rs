//! The compositor: keeps the samples inside a box and paints the rest of the
//! frame with a flat background.

use vstd::prelude::*;
use crate::bbox::BoundingBox;
use crate::bbox::lemma_chroma_contains;
use crate::bbox::lemma_chroma_covers;
use crate::bbox::lemma_chroma_excludes;
use crate::frame::Frame;
use crate::frame::FrameView;
use crate::frame::offset;

verus! {

/// The luma value of the background: black.
pub const LUMA_BACKGROUND: u8 = 0;

/// The chroma value of the background: neutral, without colour.
pub const CHROMA_BACKGROUND: u8 = 128;

/// What the byte in column `x` of row `y` of a plane holds once the plane is
/// masked: the background where the sample lies outside the region, and what
/// it held before everywhere else, row padding included.
pub open spec fn masked_sample(
    before: Seq<u8>,
    stride: int,
    width: int,
    region: BoundingBox,
    background: u8,
    x: int,
    y: int,
) -> u8 {
    if x < width && !region.contains(x, y) {
        background
    } else {
        before[offset(stride, x, y)]
    }
}

/// `after` is the plane `before` masked to `region`: every byte of every row is
/// the masked sample, and the bytes behind the last row are as they were.
pub open spec fn plane_masked(
    before: Seq<u8>,
    after: Seq<u8>,
    width: int,
    height: int,
    stride: int,
    region: BoundingBox,
    background: u8,
) -> bool {
    &&& after.len() == before.len()
    &&& forall|x: int, y: int|
        0 <= x < stride && 0 <= y < height ==> after[#[trigger] offset(stride, x, y)]
            == masked_sample(before, stride, width, region, background, x, y)
    &&& forall|i: int| stride * height <= i < before.len() ==> after[i] == before[i]
}

/// `after` is the frame `before` composited with `region`: the same geometry
/// and timestamp, the luma plane masked to the region with black, and both
/// chroma planes masked to the region's chroma box with neutral chroma.
pub open spec fn composited(before: FrameView, region: BoundingBox, after: FrameView) -> bool {
    &&& after.width == before.width
    &&& after.height == before.height
    &&& after.y_stride == before.y_stride
    &&& after.u_stride == before.u_stride
    &&& after.v_stride == before.v_stride
    &&& after.pts == before.pts
    &&& plane_masked(
        before.y,
        after.y,
        before.width,
        before.height,
        before.y_stride,
        region,
        LUMA_BACKGROUND,
    )
    &&& plane_masked(
        before.u,
        after.u,
        before.width / 2,
        before.height / 2,
        before.u_stride,
        region.chroma(),
        CHROMA_BACKGROUND,
    )
    &&& plane_masked(
        before.v,
        after.v,
        before.width / 2,
        before.height / 2,
        before.v_stride,
        region.chroma(),
        CHROMA_BACKGROUND,
    )
}

/// Every byte of the rows of a plane is the byte of exactly one column and row.
pub proof fn lemma_offset_decompose(stride: int, rows: int, i: int)
    by (nonlinear_arith)
    requires
        0 <= i < stride * rows,
        0 <= rows,
        0 <= stride,
    ensures
        0 < stride,
        0 <= i % stride < stride,
        0 <= i / stride < rows,
        offset(stride, i % stride, i / stride) == i,
{
}

/// Masking determines the plane: two planes that are both the masked form of
/// one plane are equal.
pub proof fn lemma_masking_is_exact(
    before: Seq<u8>,
    first: Seq<u8>,
    second: Seq<u8>,
    width: int,
    height: int,
    stride: int,
    region: BoundingBox,
    background: u8,
)
    requires
        0 <= height,
        0 <= stride,
        plane_masked(before, first, width, height, stride, region, background),
        plane_masked(before, second, width, height, stride, region, background),
    ensures
        first == second,
{
    assert forall|i: int| 0 <= i < first.len() implies first[i] == second[i] by {
        if i < stride * height {
            lemma_offset_decompose(stride, height, i);
            assert(first[offset(stride, i % stride, i / stride)] == second[offset(
                stride,
                i % stride,
                i / stride,
            )]);
        }
    }
    assert(first =~= second);
}

/// A plane whose samples all lie inside the region is left as it is by masking.
pub proof fn lemma_masking_identity(
    before: Seq<u8>,
    after: Seq<u8>,
    width: int,
    height: int,
    stride: int,
    region: BoundingBox,
    background: u8,
)
    requires
        0 <= height,
        0 <= stride,
        plane_masked(before, after, width, height, stride, region, background),
        forall|x: int, y: int| 0 <= x < width && 0 <= y < height ==> region.contains(x, y),
    ensures
        after == before,
{
    assert forall|i: int| 0 <= i < after.len() implies after[i] == before[i] by {
        if i < stride * height {
            lemma_offset_decompose(stride, height, i);
            let x = i % stride;
            let y = i / stride;
            assert(after[offset(stride, x, y)] == masked_sample(
                before,
                stride,
                width,
                region,
                background,
                x,
                y,
            ));
        }
    }
    assert(after =~= before);
}

/// Masks one plane in place. Samples of the `width` by `height` picture that
/// lie outside `region` are set to `background`; samples inside it, the padding
/// at the end of each row and the bytes behind the last row are not written.
pub fn mask_plane(
    data: &mut Vec<u8>,
    width: u32,
    height: u32,
    stride: usize,
    region: &BoundingBox,
    background: u8,
)
    requires
        width <= stride,
        stride * height <= old(data)@.len(),
    ensures
        plane_masked(
            old(data)@,
            final(data)@,
            width as int,
            height as int,
            stride as int,
            *region,
            background,
        ),
{
    let ghost before = data@;
    let len = data.len();
    let mut y: u32 = 0;
    while y < height
        invariant
            y <= height,
            width <= stride,
            stride * height <= len,
            data@.len() == len,
            before.len() == len,
            forall|c: int, r: int|
                0 <= c < stride && 0 <= r < y ==> data@[#[trigger] offset(stride as int, c, r)]
                    == masked_sample(
                    before,
                    stride as int,
                    width as int,
                    *region,
                    background,
                    c,
                    r,
                ),
            forall|i: int| y * stride <= i < len ==> data@[i] == before[i],
        decreases height - y,
    {
        proof {
            lemma_row_start(stride as int, height as int, y as int);
        }
        let row: usize = y as usize * stride;
        let mut x: u32 = 0;
        while x < width
            invariant
                x <= width,
                y < height,
                width <= stride,
                row == y * stride,
                row + stride <= len,
                data@.len() == len,
                before.len() == len,
                forall|c: int, r: int|
                    0 <= c < stride && 0 <= r < y ==> data@[#[trigger] offset(
                        stride as int,
                        c,
                        r,
                    )] == masked_sample(
                        before,
                        stride as int,
                        width as int,
                        *region,
                        background,
                        c,
                        r,
                    ),
                forall|c: int|
                    0 <= c < x ==> data@[#[trigger] offset(stride as int, c, y as int)]
                        == masked_sample(
                        before,
                        stride as int,
                        width as int,
                        *region,
                        background,
                        c,
                        y as int,
                    ),
                forall|i: int| row + x <= i < len ==> data@[i] == before[i],
            decreases width - x,
        {
            if !region.contains_pixel(x, y) {
                proof {
                    assert forall|c: int, r: int| 0 <= c < stride && 0 <= r < y implies offset(
                        stride as int,
                        c,
                        r,
                    ) < row by {
                        lemma_row_before(stride as int, y as int, c, r);
                    }
                }
                data.set(row + x as usize, background);
            }
            x += 1;
        }
        proof {
            assert((y + 1) * stride == row + stride) by (nonlinear_arith)
                requires
                    row == y * stride,
            ;
        }
        y += 1;
    }
}

/// Composites a frame in place: the samples inside `region` keep their values,
/// every other luma sample becomes black and every other chroma sample
/// neutral. The chroma planes are masked to the region's chroma box, which
/// holds the chroma sample of every pixel of the region.
///
/// A region that holds every pixel leaves the frame as it is, without a write;
/// an empty region turns the whole picture into the background.
pub fn composite(frame: &mut Frame, region: &BoundingBox)
    requires
        old(frame)@.wf(),
    ensures
        final(frame)@.wf(),
        composited(old(frame)@, *region, final(frame)@),
        // Inside the region the picture is kept: luma, and the chroma of each pixel.
        forall|x: int, y: int|
            0 <= x < old(frame)@.width && 0 <= y < old(frame)@.height && #[trigger] region.contains(
                x,
                y,
            ) ==> final(frame)@.luma(x, y) == old(frame)@.luma(x, y) && final(frame)@.cb(
                x / 2,
                y / 2,
            ) == old(frame)@.cb(x / 2, y / 2) && final(frame)@.cr(x / 2, y / 2) == old(frame)@.cr(
                x / 2,
                y / 2,
            ),
        // Outside the region the luma is black.
        forall|x: int, y: int|
            0 <= x < old(frame)@.width && 0 <= y < old(frame)@.height && !#[trigger] region.contains(
                x,
                y,
            ) ==> final(frame)@.luma(x, y) == LUMA_BACKGROUND,
        // Outside the region's chroma box the chroma is neutral.
        forall|x: int, y: int|
            0 <= x < old(frame)@.width / 2 && 0 <= y < old(frame)@.height / 2
                && !#[trigger] region.chroma().contains(x, y) ==> final(frame)@.cb(x, y)
                == CHROMA_BACKGROUND && final(frame)@.cr(x, y) == CHROMA_BACKGROUND,
        // A region that covers the frame changes nothing.
        region.covers(old(frame)@.width, old(frame)@.height) ==> final(frame)@ == old(frame)@,
        // An empty region leaves nothing but the background.
        region.is_empty() ==> is_background(final(frame)@),
{
    let width = frame.width;
    let height = frame.height;
    let region_uv = region.chroma_box();
    proof {
        frame.lemma_view();
    }
    mask_plane(&mut frame.y, width, height, frame.y_stride, region, LUMA_BACKGROUND);
    mask_plane(
        &mut frame.u,
        width / 2,
        height / 2,
        frame.u_stride,
        &region_uv,
        CHROMA_BACKGROUND,
    );
    mask_plane(
        &mut frame.v,
        width / 2,
        height / 2,
        frame.v_stride,
        &region_uv,
        CHROMA_BACKGROUND,
    );
    proof {
        frame.lemma_view();
        lemma_composited_keeps_region(old(frame)@, *region, frame@);
        lemma_composited_background(old(frame)@, *region, frame@);
        lemma_composited_identity(old(frame)@, *region, frame@);
    }
}

/// Every sample of the picture holds the background: the luma is black and
/// the chroma neutral.
pub open spec fn is_background(frame: FrameView) -> bool {
    &&& forall|x: int, y: int|
        0 <= x < frame.width && 0 <= y < frame.height ==> frame.y[#[trigger] offset(
            frame.y_stride,
            x,
            y,
        )] == LUMA_BACKGROUND
    &&& forall|x: int, y: int|
        0 <= x < frame.width / 2 && 0 <= y < frame.height / 2 ==> frame.u[#[trigger] offset(
            frame.u_stride,
            x,
            y,
        )] == CHROMA_BACKGROUND
    &&& forall|x: int, y: int|
        0 <= x < frame.width / 2 && 0 <= y < frame.height / 2 ==> frame.v[#[trigger] offset(
            frame.v_stride,
            x,
            y,
        )] == CHROMA_BACKGROUND
}

/// Fidelity of the region: a pixel of the frame that lies inside the region
/// keeps its luma sample and its chroma samples.
pub proof fn lemma_composited_keeps_region(before: FrameView, region: BoundingBox, after: FrameView)
    requires
        before.wf(),
        composited(before, region, after),
    ensures
        forall|x: int, y: int|
            0 <= x < before.width && 0 <= y < before.height && #[trigger] region.contains(x, y)
                ==> after.luma(x, y) == before.luma(x, y) && after.cb(x / 2, y / 2) == before.cb(
                x / 2,
                y / 2,
            ) && after.cr(x / 2, y / 2) == before.cr(x / 2, y / 2),
{
    assert forall|x: int, y: int|
        0 <= x < before.width && 0 <= y < before.height && #[trigger] region.contains(
            x,
            y,
        ) implies after.luma(x, y) == before.luma(x, y) && after.cb(x / 2, y / 2) == before.cb(
        x / 2,
        y / 2,
    ) && after.cr(x / 2, y / 2) == before.cr(x / 2, y / 2) by {
        lemma_chroma_contains(region, x, y);
        assert(after.y[offset(before.y_stride, x, y)] == masked_sample(
            before.y,
            before.y_stride,
            before.width,
            region,
            LUMA_BACKGROUND,
            x,
            y,
        ));
        assert(after.u[offset(before.u_stride, x / 2, y / 2)] == masked_sample(
            before.u,
            before.u_stride,
            before.width / 2,
            region.chroma(),
            CHROMA_BACKGROUND,
            x / 2,
            y / 2,
        ));
        assert(after.v[offset(before.v_stride, x / 2, y / 2)] == masked_sample(
            before.v,
            before.v_stride,
            before.width / 2,
            region.chroma(),
            CHROMA_BACKGROUND,
            x / 2,
            y / 2,
        ));
    }
}

/// Uniformity of the background: a pixel outside the region is black, and a
/// chroma sample outside the region's chroma box is neutral. Where the region
/// is empty, the whole picture is the background.
pub proof fn lemma_composited_background(before: FrameView, region: BoundingBox, after: FrameView)
    requires
        before.wf(),
        composited(before, region, after),
    ensures
        forall|x: int, y: int|
            0 <= x < before.width && 0 <= y < before.height && !#[trigger] region.contains(x, y)
                ==> after.luma(x, y) == LUMA_BACKGROUND,
        forall|x: int, y: int|
            0 <= x < before.width / 2 && 0 <= y < before.height / 2
                && !#[trigger] region.chroma().contains(x, y) ==> after.cb(x, y)
                == CHROMA_BACKGROUND && after.cr(x, y) == CHROMA_BACKGROUND,
        region.is_empty() ==> is_background(after),
{
    assert forall|x: int, y: int|
        0 <= x < before.width && 0 <= y < before.height && !#[trigger] region.contains(
            x,
            y,
        ) implies after.luma(x, y) == LUMA_BACKGROUND by {
        assert(after.y[offset(before.y_stride, x, y)] == masked_sample(
            before.y,
            before.y_stride,
            before.width,
            region,
            LUMA_BACKGROUND,
            x,
            y,
        ));
    }
    assert forall|x: int, y: int|
        0 <= x < before.width / 2 && 0 <= y < before.height / 2
            && !#[trigger] region.chroma().contains(x, y) implies after.cb(x, y)
        == CHROMA_BACKGROUND && after.cr(x, y) == CHROMA_BACKGROUND by {
        assert(after.u[offset(before.u_stride, x, y)] == masked_sample(
            before.u,
            before.u_stride,
            before.width / 2,
            region.chroma(),
            CHROMA_BACKGROUND,
            x,
            y,
        ));
        assert(after.v[offset(before.v_stride, x, y)] == masked_sample(
            before.v,
            before.v_stride,
            before.width / 2,
            region.chroma(),
            CHROMA_BACKGROUND,
            x,
            y,
        ));
    }
    if region.is_empty() {
        assert forall|x: int, y: int|
            0 <= x < after.width && 0 <= y < after.height implies after.y[#[trigger] offset(
            after.y_stride,
            x,
            y,
        )] == LUMA_BACKGROUND by {
            assert(!region.contains(x, y));
            assert(after.luma(x, y) == LUMA_BACKGROUND);
        }
        assert forall|x: int, y: int|
            0 <= x < after.width / 2 && 0 <= y < after.height / 2 implies after.u[#[trigger] offset(
            after.u_stride,
            x,
            y,
        )] == CHROMA_BACKGROUND by {
            assert(!region.chroma().contains(x, y));
            assert(after.cb(x, y) == CHROMA_BACKGROUND);
        }
        assert forall|x: int, y: int|
            0 <= x < after.width / 2 && 0 <= y < after.height / 2 implies after.v[#[trigger] offset(
            after.v_stride,
            x,
            y,
        )] == CHROMA_BACKGROUND by {
            assert(!region.chroma().contains(x, y));
            assert(after.cr(x, y) == CHROMA_BACKGROUND);
        }
    }
}

/// Away from the region everything is background: a pixel that is more than
/// one column or more than one row away from the region is black and has
/// neutral chroma. A pixel that touches the region shares its chroma sample
/// with a pixel of the region where the region's edge is odd, and keeps it.
pub proof fn lemma_composited_away_from_region(
    before: FrameView,
    region: BoundingBox,
    after: FrameView,
    x: int,
    y: int,
)
    requires
        before.wf(),
        composited(before, region, after),
        0 <= x < before.width,
        0 <= y < before.height,
        x < region.x1 - 1 || region.x2 + 1 < x || y < region.y1 - 1 || region.y2 + 1 < y,
    ensures
        after.luma(x, y) == LUMA_BACKGROUND,
        after.cb(x / 2, y / 2) == CHROMA_BACKGROUND,
        after.cr(x / 2, y / 2) == CHROMA_BACKGROUND,
{
    lemma_chroma_excludes(region, x, y);
    lemma_composited_background(before, region, after);
    assert(!region.contains(x, y));
    assert(!region.chroma().contains(x / 2, y / 2));
}

/// A region that covers the frame is the identity: the composited frame is
/// equal to the frame before, byte for byte.
pub proof fn lemma_composited_identity(before: FrameView, region: BoundingBox, after: FrameView)
    requires
        before.wf(),
        composited(before, region, after),
    ensures
        region.covers(before.width, before.height) ==> after == before,
{
    if region.covers(before.width, before.height) {
        lemma_masking_identity(
            before.y,
            after.y,
            before.width,
            before.height,
            before.y_stride,
            region,
            LUMA_BACKGROUND,
        );
        if 0 < before.width && 0 < before.height {
            lemma_chroma_covers(region, before.width, before.height);
        }
        lemma_masking_identity(
            before.u,
            after.u,
            before.width / 2,
            before.height / 2,
            before.u_stride,
            region.chroma(),
            CHROMA_BACKGROUND,
        );
        lemma_masking_identity(
            before.v,
            after.v,
            before.width / 2,
            before.height / 2,
            before.v_stride,
            region.chroma(),
            CHROMA_BACKGROUND,
        );
    }
}

/// Every byte of a row lies before the first byte of each row below it.
proof fn lemma_row_before(stride: int, y: int, c: int, r: int)
    by (nonlinear_arith)
    requires
        0 <= c < stride,
        0 <= r < y,
    ensures
        offset(stride, c, r) < y * stride,
{
}

/// The first byte of row `y` of a plane of `rows` rows lies inside the plane.
proof fn lemma_row_start(stride: int, rows: int, y: int)
    by (nonlinear_arith)
    requires
        0 <= y < rows,
        0 <= stride,
    ensures
        0 <= y * stride,
        y * stride + stride <= stride * rows,
{
}

} // verus!
