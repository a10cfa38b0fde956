//! A stand-in face parser for testing without model files: it lays out a
//! fixed portrait (hair on top, a face box with eyes, nose and upper lip,
//! background around it) scaled to the image.

use vstd::prelude::*;
use crate::regions::SegmentationRegion;

verus! {

/// First row of the face box: 15% of the height, rounded down.
pub open spec fn face_top(h: int) -> int {
    (h * 15) / 100
}

/// Last row of the face box: 75% of the height, rounded down.
pub open spec fn face_bottom(h: int) -> int {
    (h * 3) / 4
}

/// First column of the face box: 25% of the width, rounded down.
pub open spec fn face_left(w: int) -> int {
    w / 4
}

/// Last column of the face box: 75% of the width, rounded down.
pub open spec fn face_right(w: int) -> int {
    (w * 3) / 4
}

/// `a / b` exceeds `p` percent.
pub open spec fn above_pct(a: int, b: int, p: int) -> bool {
    100 * a > p * b
}

/// `a / b` is below `p` percent.
pub open spec fn below_pct(a: int, b: int, p: int) -> bool {
    100 * a < p * b
}

/// The region of a point of the face box at relative offset `a / fw`
/// across and `b / fh` down.
pub open spec fn face_feature(a: int, fw: int, b: int, fh: int) -> SegmentationRegion {
    if above_pct(b, fh, 25) && below_pct(b, fh, 40) {
        if above_pct(a, fw, 18) && below_pct(a, fw, 40) {
            SegmentationRegion::LeftEye
        } else if above_pct(a, fw, 60) && below_pct(a, fw, 82) {
            SegmentationRegion::RightEye
        } else {
            SegmentationRegion::Skin
        }
    } else if above_pct(b, fh, 42) && below_pct(b, fh, 62) && above_pct(a, fw, 38) && below_pct(a, fw, 62) {
        SegmentationRegion::Nose
    } else if above_pct(b, fh, 68) && below_pct(b, fh, 82) && above_pct(a, fw, 30) && below_pct(a, fw, 70) {
        SegmentationRegion::UpperLip
    } else {
        SegmentationRegion::Skin
    }
}

/// The region the stand-in parser gives pixel `(x, y)` of a `w × h` image.
pub open spec fn placeholder_region(w: int, h: int, x: int, y: int) -> SegmentationRegion {
    let fy0 = face_top(h);
    let fy1 = face_bottom(h);
    let fx0 = face_left(w);
    let fx1 = face_right(w);
    let fw = if fx1 - fx0 < 1 { 1 } else { fx1 - fx0 };
    let fh = if fy1 - fy0 < 1 { 1 } else { fy1 - fy0 };
    if y < fy0 {
        SegmentationRegion::Hair
    } else if y <= fy1 && fx0 <= x <= fx1 {
        face_feature(x - fx0, fw, y - fy0, fh)
    } else {
        SegmentationRegion::Background
    }
}

proof fn lemma_row_major_before(w: int, px: int, py: int, x: int, y: int)
    requires
        0 <= px < w,
        0 <= x < w,
        0 <= py,
        py < y || (py == y && px < x),
    ensures
        py * w + px < y * w + x,
{
    if py < y {
        assert(py * w + px < y * w + x) by (nonlinear_arith)
            requires
                0 <= px < w,
                0 <= x,
                py < y,
        ;
    }
}

/// The stand-in layout: rows above 15% of the height are hair; the face box
/// spans columns from a quarter to three quarters of the width and rows
/// from 15% to 75% of the height, and every pixel in it is a face feature
/// (skin, an eye, the nose or the upper lip); every other pixel below the
/// hair is background.
pub proof fn lemma_face_box_layout(w: int, h: int, x: int, y: int)
    requires
        0 <= x < w,
        0 <= y < h,
    ensures
        y < (h * 15) / 100 ==> placeholder_region(w, h, x, y) == SegmentationRegion::Hair,
        ((h * 15) / 100 <= y <= (h * 3) / 4 && w / 4 <= x <= (w * 3) / 4) ==> placeholder_region(w, h, x, y)
            != SegmentationRegion::Background && placeholder_region(w, h, x, y) != SegmentationRegion::Hair,
        ((h * 15) / 100 <= y && !(y <= (h * 3) / 4 && w / 4 <= x <= (w * 3) / 4)) ==> placeholder_region(w, h, x, y)
            == SegmentationRegion::Background,
{
}

/// The stand-in face parser.
pub struct PlaceholderSegmenter;

impl PlaceholderSegmenter {
    /// The region of every pixel of a `width × height` image, row-major.
    pub fn segment(&self, width: u32, height: u32) -> (regions: Vec<SegmentationRegion>)
        requires
            width * height <= u32::MAX,
        ensures
            regions@.len() == width * height,
            forall|x: int, y: int|
                0 <= x < width && 0 <= y < height ==> #[trigger] regions@[y * width + x] == placeholder_region(
                    width as int,
                    height as int,
                    x,
                    y,
                ),
            forall|x: int, y: int|
                0 <= x < width && 0 <= y < height ==> {
                    let r = #[trigger] regions@[y * width + x];
                    &&& (y < (height * 15) / 100 ==> r == SegmentationRegion::Hair)
                    &&& (((height * 15) / 100 <= y <= (height * 3) / 4 && width / 4 <= x <= (width * 3) / 4) ==> r
                        != SegmentationRegion::Background && r != SegmentationRegion::Hair)
                    &&& (((height * 15) / 100 <= y && !(y <= (height * 3) / 4 && width / 4 <= x <= (width * 3) / 4))
                        ==> r == SegmentationRegion::Background)
                },
    {
        let w = width;
        let h = height;
        let fy0: u64 = (h as u64) * 15 / 100;
        let fy1: u64 = (h as u64) * 3 / 4;
        let fx0: u64 = (w as u64) / 4;
        let fx1: u64 = (w as u64) * 3 / 4;
        let fw: u64 = if fx1 - fx0 < 1 { 1 } else { fx1 - fx0 };
        let fh: u64 = if fy1 - fy0 < 1 { 1 } else { fy1 - fy0 };
        let mut regions: Vec<SegmentationRegion> = Vec::new();
        let mut y: u32 = 0;
        while y < h
            invariant
                y <= h,
                w == width,
                h == height,
                w * h <= u32::MAX,
                fy0 == face_top(h as int),
                fy1 == face_bottom(h as int),
                fx0 == face_left(w as int),
                fx1 == face_right(w as int),
                fw == (if fx1 - fx0 < 1 { 1 } else { fx1 - fx0 }),
                fh == (if fy1 - fy0 < 1 { 1 } else { fy1 - fy0 }),
                fx1 <= w,
                fy1 <= h,
                regions@.len() == y * w,
                forall|px: int, py: int|
                    0 <= px < w && 0 <= py < y ==> #[trigger] regions@[py * w + px] == placeholder_region(
                        w as int,
                        h as int,
                        px,
                        py,
                    ),
            decreases h - y,
        {
            let mut x: u32 = 0;
            while x < w
                invariant
                    y < h,
                    x <= w,
                    w == width,
                    h == height,
                    w * h <= u32::MAX,
                    fy0 == face_top(h as int),
                    fy1 == face_bottom(h as int),
                    fx0 == face_left(w as int),
                    fx1 == face_right(w as int),
                    fw == (if fx1 - fx0 < 1 { 1 } else { fx1 - fx0 }),
                    fh == (if fy1 - fy0 < 1 { 1 } else { fy1 - fy0 }),
                    fx1 <= w,
                    fy1 <= h,
                    regions@.len() == y * w + x,
                    forall|px: int, py: int|
                        0 <= px < w && 0 <= py <= y && (py < y || px < x) ==> #[trigger] regions@[py * w + px]
                            == placeholder_region(w as int, h as int, px, py),
                decreases w - x,
            {
                let yy = y as u64;
                let xx = x as u64;
                let region = if yy < fy0 {
                    SegmentationRegion::Hair
                } else if yy <= fy1 && fx0 <= xx && xx <= fx1 {
                    let a = xx - fx0;
                    let b = yy - fy0;
                    if 100 * b > 25 * fh && 100 * b < 40 * fh {
                        if 100 * a > 18 * fw && 100 * a < 40 * fw {
                            SegmentationRegion::LeftEye
                        } else if 100 * a > 60 * fw && 100 * a < 82 * fw {
                            SegmentationRegion::RightEye
                        } else {
                            SegmentationRegion::Skin
                        }
                    } else if 100 * b > 42 * fh && 100 * b < 62 * fh && 100 * a > 38 * fw && 100 * a < 62 * fw {
                        SegmentationRegion::Nose
                    } else if 100 * b > 68 * fh && 100 * b < 82 * fh && 100 * a > 30 * fw && 100 * a < 70 * fw {
                        SegmentationRegion::UpperLip
                    } else {
                        SegmentationRegion::Skin
                    }
                } else {
                    SegmentationRegion::Background
                };
                proof {
                    assert(region == placeholder_region(w as int, h as int, x as int, y as int));
                }
                let ghost before = regions@;
                regions.push(region);
                proof {
                    assert forall|px: int, py: int|
                        0 <= px < w && 0 <= py <= y && (py < y || px < x + 1) implies #[trigger] regions@[py * w + px]
                            == placeholder_region(w as int, h as int, px, py) by {
                        if py == y && px == x {
                        } else {
                            lemma_row_major_before(w as int, px, py, x as int, y as int);
                            assert(regions@[py * w + px] == before[py * w + px]);
                        }
                    }
                }
                x = x + 1;
            }
            proof {
                assert((y + 1) * w == y * w + w) by (nonlinear_arith);
            }
            y = y + 1;
        }
        proof {
            assert(y * w == w * h) by (nonlinear_arith)
                requires
                    y == h,
            ;
            assert forall|px: int, py: int| 0 <= px < width && 0 <= py < height implies {
                let r = #[trigger] regions@[py * width + px];
                &&& (py < (height * 15) / 100 ==> r == SegmentationRegion::Hair)
                &&& (((height * 15) / 100 <= py <= (height * 3) / 4 && width / 4 <= px <= (width * 3) / 4) ==> r
                    != SegmentationRegion::Background && r != SegmentationRegion::Hair)
                &&& (((height * 15) / 100 <= py && !(py <= (height * 3) / 4 && width / 4 <= px <= (width * 3) / 4))
                    ==> r == SegmentationRegion::Background)
            } by {
                lemma_face_box_layout(width as int, height as int, px, py);
            }
        }
        regions
    }
}

} // verus!
