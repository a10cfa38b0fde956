//! Output sizing: how the aspect-ratio mode, the target size and the input
//! image's dimensions give the dimensions of the pixel-art output, and which
//! preview tab is shown.

use vstd::prelude::*;
use crate::contact_sheet::{div_round, lemma_div_round};

verus! {

/// How the output's aspect ratio is chosen.
#[derive(Debug, Clone, Copy, PartialEq, Eq, Structural)]
pub enum AspectRatioMode {
    /// A square of the target size.
    Square,
    /// The input's aspect ratio, the longer side at the target size.
    Preserve,
    /// Width and height set by the user.
    Custom,
}

impl Default for AspectRatioMode {
    fn default() -> (m: AspectRatioMode)
        ensures
            m == AspectRatioMode::Square,
    {
        AspectRatioMode::Square
    }
}

/// The tab of the preview area.
#[derive(Debug, Clone, Copy, PartialEq, Eq, Structural)]
pub enum PreviewTab {
    Original,
    MLMaps,
    /// The image after depth-to-flat shading, before the transform.
    Flat,
    /// The image after the transform, before downsampling.
    Preprocessed,
    Output,
}

impl Default for PreviewTab {
    fn default() -> (t: PreviewTab)
        ensures
            t == PreviewTab::Original,
    {
        PreviewTab::Original
    }
}

/// The smallest side an output dimension is given.
pub const MIN_OUTPUT_SIDE: u32 = 8;

/// `v`, raised to at least the minimum output side.
pub open spec fn at_least_min(v: int) -> int {
    if v < MIN_OUTPUT_SIDE { MIN_OUTPUT_SIDE as int } else { v }
}

/// The output dimensions for the mode, the target size, the custom size and
/// the input image's dimensions (when an image is loaded). In `Preserve`
/// mode the longer side of the input gets the target size and the shorter
/// one the target size scaled by the aspect ratio, rounded half up and at
/// least the minimum side.
pub open spec fn output_dimensions(
    mode: AspectRatioMode,
    output_size: int,
    custom_width: int,
    custom_height: int,
    input: Option<(u32, u32)>,
) -> (int, int) {
    match mode {
        AspectRatioMode::Square => (output_size, output_size),
        AspectRatioMode::Custom => (at_least_min(custom_width), at_least_min(custom_height)),
        AspectRatioMode::Preserve => match input {
            None => (output_size, output_size),
            Some((w, h)) => if w >= h && w > 0 {
                (output_size, at_least_min(div_round(output_size * h, w as int)))
            } else if w >= h {
                (MIN_OUTPUT_SIDE as int, output_size)
            } else {
                (at_least_min(div_round(output_size * w, h as int)), output_size)
            },
        },
    }
}

/// `round(t * a / b)` for `a <= b`, which is at most `t`.
pub(crate) fn scaled_side(t: u32, a: u32, b: u32) -> (s: u32)
    requires
        a <= b,
        b > 0,
    ensures
        s == div_round(t * a, b as int),
        s <= t,
{
    proof {
        assert((t as int) * (a as int) <= (t as int) * (b as int)) by (nonlinear_arith)
            requires
                a <= b,
        ;
        assert((t as int) * (a as int) <= 0xffff_ffff * 0xffff_ffff) by (nonlinear_arith)
            requires
                t <= 0xffff_ffffu32,
                a <= 0xffff_ffffu32,
        ;
    }
    let n: u64 = (t as u64) * (a as u64);
    let q: u64 = n / (b as u64);
    let r: u64 = n % (b as u64);
    proof {
        lemma_div_round(n as int, b as int);
        assert(q <= t) by (nonlinear_arith)
            requires
                q == n / (b as u64),
                n <= (t as int) * (b as int),
                b > 0,
        ;
        assert(q < t || r == 0) by (nonlinear_arith)
            requires
                q == n / (b as u64),
                r == n % (b as u64),
                n <= (t as int) * (b as int),
                b > 0,
        ;
    }
    let s: u64 = if 2 * r >= b as u64 { q + 1 } else { q };
    s as u32
}

/// The output dimensions (width, height) for the current sizing settings;
/// `input` holds the loaded image's dimensions, if one is loaded.
pub fn get_output_dimensions(
    mode: AspectRatioMode,
    output_size: u32,
    custom_width: u32,
    custom_height: u32,
    input: Option<(u32, u32)>,
) -> (dims: (u32, u32))
    ensures
        (dims.0 as int, dims.1 as int) == output_dimensions(mode, output_size as int, custom_width as int, custom_height as int, input),
{
    let t = output_size;
    match mode {
        AspectRatioMode::Square => (t, t),
        AspectRatioMode::Custom => {
            let w = if custom_width < MIN_OUTPUT_SIDE { MIN_OUTPUT_SIDE } else { custom_width };
            let h = if custom_height < MIN_OUTPUT_SIDE { MIN_OUTPUT_SIDE } else { custom_height };
            (w, h)
        },
        AspectRatioMode::Preserve => match input {
            None => (t, t),
            Some((w, h)) => {
                if w >= h && w > 0 {
                    let s = scaled_side(t, h, w);
                    (t, if s < MIN_OUTPUT_SIDE { MIN_OUTPUT_SIDE } else { s })
                } else if w >= h {
                    (MIN_OUTPUT_SIDE, t)
                } else {
                    let s = scaled_side(t, w, h);
                    (if s < MIN_OUTPUT_SIDE { MIN_OUTPUT_SIDE } else { s }, t)
                }
            },
        },
    }
}

/// In `Preserve` mode the output keeps the input's orientation: a landscape
/// (or square) input gives an output at least as wide as it is high once the
/// target size reaches the minimum side, and a portrait one an output at
/// least as high as it is wide.
pub proof fn lemma_preserve_keeps_orientation(output_size: u32, w: u32, h: u32)
    requires
        output_size >= MIN_OUTPUT_SIDE,
        w > 0,
        h > 0,
    ensures
        ({
            let d = output_dimensions(AspectRatioMode::Preserve, output_size as int, 0, 0, Some((w, h)));
            &&& w >= h ==> d.0 == output_size && d.1 <= d.0
            &&& w < h ==> d.1 == output_size && d.0 <= d.1
        }),
{
    let t = output_size as int;
    if w >= h {
        lemma_div_round(t * h, w as int);
        assert(t * h <= t * w) by (nonlinear_arith)
            requires
                h <= w,
                t >= 0,
        ;
        assert((t * h) / (w as int) <= t) by (nonlinear_arith)
            requires
                t * h <= t * w,
                w > 0,
                t >= 0,
        ;
        assert(((t * h) / (w as int) < t) || (t * h) % (w as int) == 0) by (nonlinear_arith)
            requires
                t * h <= t * w,
                w > 0,
                t >= 0,
        ;
    } else {
        lemma_div_round(t * w, h as int);
        assert(t * w <= t * h) by (nonlinear_arith)
            requires
                w <= h,
                t >= 0,
        ;
        assert((t * w) / (h as int) <= t) by (nonlinear_arith)
            requires
                t * w <= t * h,
                h > 0,
                t >= 0,
        ;
        assert(((t * w) / (h as int) < t) || (t * w) % (h as int) == 0) by (nonlinear_arith)
            requires
                t * w <= t * h,
                h > 0,
                t >= 0,
        ;
    }
}

/// Custom and preserved sizes never have a side below the minimum (given a
/// target size of at least the minimum), and a square output is exactly the
/// target size.
pub proof fn lemma_output_sides_at_least_min(
    mode: AspectRatioMode,
    output_size: u32,
    custom_width: u32,
    custom_height: u32,
    input: Option<(u32, u32)>,
)
    requires
        output_size >= MIN_OUTPUT_SIDE,
    ensures
        ({
            let d = output_dimensions(mode, output_size as int, custom_width as int, custom_height as int, input);
            &&& d.0 >= MIN_OUTPUT_SIDE
            &&& d.1 >= MIN_OUTPUT_SIDE
            &&& mode == AspectRatioMode::Square ==> d.0 == output_size && d.1 == output_size
        }),
{
}

} // verus!
