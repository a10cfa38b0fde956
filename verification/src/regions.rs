//! Face-parsing regions: mapping segmentation class indices to regions, and
//! rendering a class map in its display colors.

use vstd::prelude::*;
use crate::raster::{Pixel, RasterModel, RgbaRaster};

verus! {

/// A region of a face-parsing segmentation.
#[derive(Debug, Clone, Copy, PartialEq, Eq, Hash, Structural)]
pub enum SegmentationRegion {
    Background,
    Skin,
    LeftEyebrow,
    RightEyebrow,
    LeftEye,
    RightEye,
    Eyeglasses,
    LeftEar,
    RightEar,
    Earring,
    Nose,
    InnerMouth,
    UpperLip,
    LowerLip,
    Neck,
    Hair,
    Hat,
    /// Whole face (coarse parsers).
    Face,
    /// Both eyes and brows (coarse parsers).
    Eyes,
    /// Both lips and the mouth (coarse parsers).
    Lips,
    /// Both ears (coarse parsers).
    Ears,
    Clothing,
}

/// The region of each BiSeNet face-parsing class.
pub open spec fn bisenet_region(class_id: int) -> SegmentationRegion {
    if class_id == 0 {
        SegmentationRegion::Background
    } else if class_id == 1 {
        SegmentationRegion::Skin
    } else if class_id == 2 {
        SegmentationRegion::LeftEyebrow
    } else if class_id == 3 {
        SegmentationRegion::RightEyebrow
    } else if class_id == 4 {
        SegmentationRegion::LeftEye
    } else if class_id == 5 {
        SegmentationRegion::RightEye
    } else if class_id == 6 {
        SegmentationRegion::Eyeglasses
    } else if class_id == 7 {
        SegmentationRegion::LeftEar
    } else if class_id == 8 {
        SegmentationRegion::RightEar
    } else if class_id == 9 {
        SegmentationRegion::Earring
    } else if class_id == 10 {
        SegmentationRegion::Nose
    } else if class_id == 11 {
        SegmentationRegion::InnerMouth
    } else if class_id == 12 {
        SegmentationRegion::UpperLip
    } else if class_id == 13 {
        SegmentationRegion::LowerLip
    } else if class_id == 14 {
        SegmentationRegion::Neck
    } else if class_id == 15 {
        SegmentationRegion::Hair
    } else if class_id == 16 {
        SegmentationRegion::Hat
    } else if class_id == 17 || class_id == 18 {
        SegmentationRegion::Earring
    } else {
        SegmentationRegion::Background
    }
}

/// Maps a BiSeNet class index to its region; unknown indices are
/// background.
pub fn bisenet_class_to_region(class_id: usize) -> (r: SegmentationRegion)
    ensures
        r == bisenet_region(class_id as int),
{
    match class_id {
        0 => SegmentationRegion::Background,
        1 => SegmentationRegion::Skin,
        2 => SegmentationRegion::LeftEyebrow,
        3 => SegmentationRegion::RightEyebrow,
        4 => SegmentationRegion::LeftEye,
        5 => SegmentationRegion::RightEye,
        6 => SegmentationRegion::Eyeglasses,
        7 => SegmentationRegion::LeftEar,
        8 => SegmentationRegion::RightEar,
        9 => SegmentationRegion::Earring,
        10 => SegmentationRegion::Nose,
        11 => SegmentationRegion::InnerMouth,
        12 => SegmentationRegion::UpperLip,
        13 => SegmentationRegion::LowerLip,
        14 => SegmentationRegion::Neck,
        15 => SegmentationRegion::Hair,
        16 => SegmentationRegion::Hat,
        17 | 18 => SegmentationRegion::Earring,
        _ => SegmentationRegion::Background,
    }
}

/// BiSeNet keeps its classes apart: the classes 0 to 16 map to 17 distinct
/// regions, the three earring classes (9, 17, 18) share one, and every index
/// past the model's 19 classes is background.
pub proof fn lemma_bisenet_classes_preserved(a: int, b: int)
    ensures
        0 <= a <= 16 && 0 <= b <= 16 && a != b ==> bisenet_region(a) != bisenet_region(b),
        (a == 9 || a == 17 || a == 18) ==> bisenet_region(a) == SegmentationRegion::Earring,
        a >= 19 ==> bisenet_region(a) == SegmentationRegion::Background,
{
}

/// The region of each class of the coarse face-parsing layout.
pub open spec fn coarse_region(class_id: int) -> SegmentationRegion {
    if class_id == 0 {
        SegmentationRegion::Background
    } else if 1 <= class_id <= 2 {
        SegmentationRegion::Face
    } else if 3 <= class_id <= 10 {
        SegmentationRegion::Eyes
    } else if 11 <= class_id <= 14 {
        SegmentationRegion::Nose
    } else if 15 <= class_id <= 16 {
        SegmentationRegion::Lips
    } else if class_id == 17 {
        SegmentationRegion::Hair
    } else if class_id == 18 {
        SegmentationRegion::Ears
    } else if class_id == 19 {
        SegmentationRegion::Neck
    } else if class_id == 20 {
        SegmentationRegion::Clothing
    } else {
        SegmentationRegion::Background
    }
}

/// Maps a class index of the coarse face-parsing layout to its region;
/// unknown indices are background.
pub fn map_class_to_region(class_id: usize) -> (r: SegmentationRegion)
    ensures
        r == coarse_region(class_id as int),
{
    match class_id {
        0 => SegmentationRegion::Background,
        1..=2 => SegmentationRegion::Face,
        3..=8 => SegmentationRegion::Eyes,
        9..=10 => SegmentationRegion::Eyes,
        11..=14 => SegmentationRegion::Nose,
        15..=16 => SegmentationRegion::Lips,
        17 => SegmentationRegion::Hair,
        18 => SegmentationRegion::Ears,
        19 => SegmentationRegion::Neck,
        20 => SegmentationRegion::Clothing,
        _ => SegmentationRegion::Background,
    }
}

/// Display colors (RGBA) of the 19 segmentation classes, by class index.
pub const SEGMENTATION_COLORS: [(u8, u8, u8, u8); 19] = [
    (0, 0, 0, 255),
    (204, 153, 153, 255),
    (139, 90, 43, 255),
    (139, 90, 43, 255),
    (0, 255, 255, 255),
    (0, 255, 255, 255),
    (128, 128, 128, 255),
    (255, 182, 193, 255),
    (255, 182, 193, 255),
    (255, 215, 0, 255),
    (255, 140, 0, 255),
    (200, 0, 0, 255),
    (255, 105, 180, 255),
    (255, 105, 180, 255),
    (144, 238, 144, 255),
    (139, 69, 19, 255),
    (255, 255, 255, 255),
    (255, 215, 0, 255),
    (255, 215, 0, 255),
];

/// The display color of a class index: its table color, or opaque black for
/// indices outside the table.
pub open spec fn class_color(class_id: int) -> Pixel {
    if 0 <= class_id < 19 {
        let c = SEGMENTATION_COLORS@[class_id];
        Pixel { r: c.0, g: c.1, b: c.2, a: c.3 }
    } else {
        Pixel { r: 0, g: 0, b: 0, a: 255 }
    }
}

/// Looks up the display color of a class index.
pub fn segmentation_class_color(class_id: u8) -> (p: Pixel)
    ensures
        p == class_color(class_id as int),
{
    if (class_id as usize) < SEGMENTATION_COLORS.len() {
        let c = SEGMENTATION_COLORS[class_id as usize];
        Pixel::rgba(c.0, c.1, c.2, c.3)
    } else {
        Pixel::rgba(0, 0, 0, 255)
    }
}

/// Renders a row-major class map as a `width × height` image of class
/// colors. Pixels past the end of the map stay transparent.
pub fn visualize_segmentation_colors(class_map: &[u8], width: u32, height: u32) -> (img: RgbaRaster)
    requires
        width * height <= usize::MAX,
        class_map@.len() <= width * height,
    ensures
        img.wf(),
        img@.width == width,
        img@.height == height,
        forall|x: int, y: int|
            #![trigger img@.at(x, y)]
            img@.in_bounds(x, y) ==> img@.at(x, y) == (if y * width + x < class_map@.len() {
                class_color(class_map@[y * width + x] as int)
            } else {
                Pixel::spec_transparent()
            }),
{
    let mut img = RgbaRaster::new(width, height);
    let n = class_map.len();
    let mut i: usize = 0;
    while i < n
        invariant
            n == class_map@.len(),
            n <= width * height,
            i <= n,
            img.wf(),
            img@.width == width,
            img@.height == height,
            forall|x: int, y: int|
                #![trigger img@.at(x, y)]
                img@.in_bounds(x, y) ==> img@.at(x, y) == (if y * width + x < i {
                    class_color(class_map@[y * width + x] as int)
                } else {
                    Pixel::spec_transparent()
                }),
        decreases n - i,
    {
        proof {
            assert(width > 0) by (nonlinear_arith)
                requires
                    i < width * height,
                    0 <= i,
            ;
        }
        let xi: usize = i % (width as usize);
        let yi: usize = i / (width as usize);
        proof {
            vstd::arithmetic::div_mod::lemma_fundamental_div_mod(i as int, width as int);
            vstd::arithmetic::div_mod::lemma_mod_bound(i as int, width as int);
            assert(yi < height) by (nonlinear_arith)
                requires
                    i == (width as int) * yi + xi,
                    0 <= xi,
                    i < width * height,
                    width > 0,
            ;
            assert(yi * width + xi == i) by (nonlinear_arith)
                requires
                    i == (width as int) * yi + xi,
            ;
        }
        let x: u32 = xi as u32;
        let y: u32 = yi as u32;
        let color = segmentation_class_color(class_map[i]);
        let ghost before: RasterModel = img@;
        img.put_pixel(x, y, color);
        proof {
            assert forall|px: int, py: int|
                #![trigger img@.at(px, py)]
                img@.in_bounds(px, py) implies img@.at(px, py) == (if py * width + px < i + 1 {
                    class_color(class_map@[py * width + px] as int)
                } else {
                    Pixel::spec_transparent()
                }) by {
                if px == x && py == y {
                } else {
                    assert(img@.at(px, py) == before.at(px, py));
                    if py * width + px == i {
                        crate::raster::lemma_index_injective(width as nat, px, py, x as int, y as int);
                    }
                }
            }
        }
        i = i + 1;
    }
    img
}


/// The pixel bounding box of a region: its leftmost and rightmost columns
/// and its top and bottom rows (all inclusive).
#[derive(Debug, Clone, Copy, PartialEq, Eq, Structural)]
pub struct PixelBounds {
    pub min_x: u32,
    pub min_y: u32,
    pub max_x: u32,
    pub max_y: u32,
}

/// Pixel `(x, y)` of the `w`-wide row-major region map belongs to `r`.
pub open spec fn in_region(map: Seq<SegmentationRegion>, w: int, r: SegmentationRegion, x: int, y: int) -> bool {
    map[y * w + x] == r
}

/// Some pixel of the `w × h` map belongs to `r`.
pub open spec fn region_present(map: Seq<SegmentationRegion>, w: int, h: int, r: SegmentationRegion) -> bool {
    exists|x: int, y: int| 0 <= x < w && 0 <= y < h && #[trigger] in_region(map, w, r, x, y)
}

/// `b` is the bounding box of the pixels of `r` in the `w × h` map: it
/// contains every such pixel, and each of its four sides touches one.
pub open spec fn is_region_bounds(map: Seq<SegmentationRegion>, w: int, h: int, r: SegmentationRegion, b: PixelBounds) -> bool {
    &&& forall|x: int, y: int|
        0 <= x < w && 0 <= y < h && #[trigger] in_region(map, w, r, x, y) ==> b.min_x <= x <= b.max_x && b.min_y <= y <= b.max_y
    &&& exists|y: int| 0 <= y < h && #[trigger] in_region(map, w, r, b.min_x as int, y)
    &&& exists|y: int| 0 <= y < h && #[trigger] in_region(map, w, r, b.max_x as int, y)
    &&& exists|x: int| 0 <= x < w && #[trigger] in_region(map, w, r, x, b.min_y as int)
    &&& exists|x: int| 0 <= x < w && #[trigger] in_region(map, w, r, x, b.max_y as int)
    &&& b.min_x < w && b.max_x < w && b.min_y < h && b.max_y < h
}

/// The bounding box of the pixels of `region` in a `width × height`
/// row-major region map; `None` when the region does not occur.
pub fn region_bounds(map: &[SegmentationRegion], width: u32, height: u32, region: SegmentationRegion) -> (r: Option<PixelBounds>)
    requires
        map@.len() == width * height,
        width * height <= usize::MAX,
    ensures
        r is None <==> !region_present(map@, width as int, height as int, region),
        r matches Some(b) ==> is_region_bounds(map@, width as int, height as int, region, b),
{
    let ghost m = map@;
    let ghost wi = width as int;
    let mut found: Option<PixelBounds> = None;
    // rows of pixels on the left and right sides, columns of pixels on the
    // top and bottom sides
    let ghost mut wit: (int, int, int, int) = (0, 0, 0, 0);
    let mut y: u32 = 0;
    while y < height
        invariant
            y <= height,
            m == map@,
            wi == width,
            map@.len() == width * height,
            width * height <= usize::MAX,
            found is None ==> forall|px: int, py: int| 0 <= px < wi && 0 <= py < y ==> !#[trigger] in_region(m, wi, region, px, py),
            found matches Some(b) ==> {
                &&& forall|px: int, py: int|
                    0 <= px < wi && 0 <= py < y && #[trigger] in_region(m, wi, region, px, py) ==> b.min_x <= px <= b.max_x && b.min_y
                        <= py <= b.max_y
                &&& 0 <= wit.0 < y && in_region(m, wi, region, b.min_x as int, wit.0)
                &&& 0 <= wit.1 < y && in_region(m, wi, region, b.max_x as int, wit.1)
                &&& 0 <= wit.2 < wi && in_region(m, wi, region, wit.2, b.min_y as int)
                &&& 0 <= wit.3 < wi && in_region(m, wi, region, wit.3, b.max_y as int)
                &&& b.min_x < wi && b.max_x < wi && b.min_y < y && b.max_y < y
            },
        decreases height - y,
    {
        let mut x: u32 = 0;
        while x < width
            invariant
                y < height,
                x <= width,
                m == map@,
                wi == width,
                map@.len() == width * height,
                width * height <= usize::MAX,
                found is None ==> forall|px: int, py: int|
                    0 <= px < wi && 0 <= py <= y && (py < y || px < x) ==> !#[trigger] in_region(m, wi, region, px, py),
                found matches Some(b) ==> {
                    &&& forall|px: int, py: int|
                        0 <= px < wi && 0 <= py <= y && (py < y || px < x) && #[trigger] in_region(m, wi, region, px, py) ==> b.min_x
                            <= px <= b.max_x && b.min_y <= py <= b.max_y
                    &&& 0 <= wit.0 <= y && in_region(m, wi, region, b.min_x as int, wit.0)
                    &&& 0 <= wit.1 <= y && in_region(m, wi, region, b.max_x as int, wit.1)
                    &&& 0 <= wit.2 < wi && in_region(m, wi, region, wit.2, b.min_y as int)
                    &&& 0 <= wit.3 < wi && in_region(m, wi, region, wit.3, b.max_y as int)
                    &&& b.min_x < wi && b.max_x < wi && b.min_y <= y && b.max_y <= y
                },
            decreases width - x,
        {
            proof {
                crate::raster::lemma_index_in_range(width as nat, height as nat, x as int, y as int);
            }
            let idx: usize = (y as usize) * (width as usize) + (x as usize);
            if map[idx] == region {
                proof {
                    assert(in_region(m, wi, region, x as int, y as int));
                }
                let ghost prev = found;
                let nb = match found {
                    None => PixelBounds { min_x: x, min_y: y, max_x: x, max_y: y },
                    Some(b) => PixelBounds {
                        min_x: if x < b.min_x { x } else { b.min_x },
                        min_y: b.min_y,
                        max_x: if x > b.max_x { x } else { b.max_x },
                        max_y: y,
                    },
                };
                proof {
                    let xi = x as int;
                    let yi = y as int;
                    match prev {
                        None => {
                            wit = (yi, yi, xi, xi);
                        },
                        Some(b) => {
                            wit = (
                                if x < b.min_x { yi } else { wit.0 },
                                if x > b.max_x { yi } else { wit.1 },
                                wit.2,
                                xi,
                            );
                        },
                    }
                }
                found = Some(nb);
            }
            x = x + 1;
        }
        y = y + 1;
    }
    proof {
        if found is None {
            assert(!region_present(m, wi, height as int, region));
        } else {
            let b = found->0;
            assert(in_region(m, wi, region, b.min_x as int, wit.0));
            assert(region_present(m, wi, height as int, region));
        }
    }
    found
}

} // verus!
