//! The contact sheet: a vertical stack of labelled rows (images, settings
//! blocks or placeholders) rendered into one raster.

use vstd::prelude::*;
use crate::captions::{not_run_text, row_subtitle, stage_label, stage_label_text, SheetStage};
use crate::imaging::{nearest_resized, resize_to_fit, ResizeFilter};
use crate::raster::{Pixel, RasterModel, RgbaRaster, same_outside_rows};
use crate::text::{draw_text_simple, draw_text_small, label_text_color, small_text_color, text_covers};

verus! {

/// Background of the sheet, the subtitle bands and the row gaps.
pub open spec fn sheet_background() -> Pixel {
    Pixel { r: 24, g: 24, b: 28, a: 255 }
}

/// Background of the label band.
pub open spec fn label_band_color() -> Pixel {
    Pixel { r: 40, g: 40, b: 46, a: 255 }
}

/// Background of a placeholder row.
pub open spec fn placeholder_color() -> Pixel {
    Pixel { r: 44, g: 44, b: 52, a: 255 }
}

/// Background of a settings block.
pub open spec fn settings_color() -> Pixel {
    Pixel { r: 28, g: 28, b: 34, a: 255 }
}

fn sheet_background_pixel() -> (p: Pixel)
    ensures
        p == sheet_background(),
{
    Pixel::rgba(24, 24, 28, 255)
}

/// Height of the label band above every row.
pub const LABEL_HEIGHT: u32 = 22;
/// Height of the subtitle band, present when a row has a subtitle.
pub const SUBTITLE_HEIGHT: u32 = 14;
/// Vertical gap after every row, and the top padding.
pub const ROW_GAP: u32 = 8;
/// Line pitch of a settings block (7-pixel glyphs and 4 pixels of spacing).
pub const SETTINGS_LINE_H: u32 = 11;

/// The text of a placeholder row.
pub open spec fn placeholder_text() -> Seq<char> {
    "(not available — run analysis / process first)"@
}

/// One row of the contact sheet: a label and either an image, a block of
/// `key: value` settings lines, or (with neither) a placeholder.
pub struct ContactSheetRow<'a> {
    pub label: &'a str,
    pub image: Option<RgbaRaster>,
    /// An optional line under the label, e.g. source and displayed sizes.
    pub subtitle: Option<&'a str>,
    /// When present, the row renders these pairs as text instead of an image.
    pub settings: Option<Vec<(String, String)>>,
}

/// The content of a row.
pub struct RowModel {
    pub label: Seq<char>,
    pub image: Option<RasterModel>,
    pub subtitle: Option<Seq<char>>,
    pub settings: Option<Seq<(Seq<char>, Seq<char>)>>,
}

impl<'a> ContactSheetRow<'a> {
    pub open spec fn model(&self) -> RowModel {
        RowModel {
            label: self.label@,
            image: match self.image {
                Some(img) => Some(img@),
                None => None,
            },
            subtitle: match self.subtitle {
                Some(s) => Some(s@),
                None => None,
            },
            settings: match self.settings {
                Some(v) => Some(v@.map_values(|p: (String, String)| (p.0@, p.1@))),
                None => None,
            },
        }
    }

    /// Every image of the row is a well-formed raster.
    pub open spec fn wf(&self) -> bool {
        self.image matches Some(img) ==> img.wf()
    }
}

/// The models of a slice of rows.
pub open spec fn rows_model(rows: Seq<ContactSheetRow>) -> Seq<RowModel> {
    rows.map_values(|r: ContactSheetRow| r.model())
}

/// `n / d` rounded to the nearest integer, halves rounded up.
pub open spec fn div_round(n: int, d: int) -> int {
    (2 * n + d) / (2 * d)
}

/// The sheet's width: the requested row width, at least 64.
pub open spec fn sheet_width(row_width: int) -> int {
    if row_width < 64 { 64 } else { row_width }
}

/// Height of the subtitle band of a row.
pub open spec fn subtitle_height(row: RowModel) -> int {
    if row.subtitle is Some { SUBTITLE_HEIGHT as int } else { 0 }
}

/// Height of the content of a row: settings blocks take one line per pair
/// plus padding; images are scaled to the row width keeping their aspect
/// ratio (at least 8 pixels); placeholders and empty images take 64.
pub open spec fn content_height(row: RowModel, rw: int) -> int {
    match row.settings {
        Some(pairs) => SETTINGS_LINE_H * pairs.len() + 8,
        None => match row.image {
            Some(m) => if m.width > 0 {
                let s = div_round(rw * m.height, m.width as int);
                if s < 8 { 8 } else { s }
            } else {
                64
            },
            None => 64,
        },
    }
}

/// Full height of a row: label band, subtitle band, content and gap.
pub open spec fn row_height(row: RowModel, rw: int) -> int {
    LABEL_HEIGHT + subtitle_height(row) + content_height(row, rw) + ROW_GAP
}

/// Total height of the first `n` rows.
pub open spec fn rows_height(rows: Seq<RowModel>, rw: int, n: int) -> int
    decreases n,
{
    if n <= 0 {
        0
    } else {
        rows_height(rows, rw, n - 1) + row_height(rows[n - 1], rw)
    }
}

/// The top of row `i`: the padding plus the rows above it.
pub open spec fn row_top(rows: Seq<RowModel>, rw: int, i: int) -> int {
    ROW_GAP + rows_height(rows, rw, i)
}

/// Height of the whole sheet.
pub open spec fn sheet_height(rows: Seq<RowModel>, rw: int) -> int {
    row_top(rows, rw, rows.len() as int)
}

/// The text of settings line `(key, value)`.
pub open spec fn settings_line(pair: (Seq<char>, Seq<char>)) -> Seq<char> {
    pair.0 + ": "@ + pair.1
}

/// A settings block whose content starts at row `c0` lights `(x, y)`:
/// line `l` is drawn with its top at `c0 + 4 + 11 * l`.
pub open spec fn settings_covers(pairs: Seq<(Seq<char>, Seq<char>)>, c0: int, rw: int, w: int, h: int, x: int, y: int) -> bool {
    let l = (y - c0 - 4) / (SETTINGS_LINE_H as int);
    &&& y >= c0 + 4
    &&& l < pairs.len()
    &&& text_covers(settings_line(pairs[l]), 96, 8, c0 + 4 + SETTINGS_LINE_H * l, rw, w, h, x, y)
}

/// The pixel at `(x, y)` of the content band of `row`, which starts at row
/// `c0` and is `ch` high, on a `w × h` sheet whose rows are `rw` wide.
pub open spec fn content_pixel(row: RowModel, rw: int, c0: int, ch: int, w: int, h: int, x: int, y: int) -> Pixel {
    match row.settings {
        Some(pairs) => if settings_covers(pairs, c0, rw, w, h, x, y) {
            small_text_color()
        } else {
            settings_color()
        },
        None => match row.image {
            Some(m) => {
                let r = nearest_resized(m, rw as u32, ch as u32);
                if y - c0 < r.height && x < r.width {
                    r.at(x, y - c0)
                } else {
                    sheet_background()
                }
            },
            None => if text_covers(placeholder_text(), 96, 8, c0 + ch / 2 - 6, rw, w, h, x, y) {
                small_text_color()
            } else {
                placeholder_color()
            },
        },
    }
}

/// The pixel at `(x, y)` of `row` drawn with its top at `top` on a `w × h`
/// sheet whose rows are `rw` wide.
pub open spec fn row_pixel(row: RowModel, rw: int, top: int, w: int, h: int, x: int, y: int) -> Pixel {
    let c0 = top + LABEL_HEIGHT + subtitle_height(row);
    let ch = content_height(row, rw);
    if y < top + LABEL_HEIGHT {
        if text_covers(row.label, 64, 6, top + 4, rw, w, h, x, y) {
            label_text_color()
        } else {
            label_band_color()
        }
    } else if y < c0 {
        match row.subtitle {
            Some(s) => if text_covers(s, 96, 6, top + LABEL_HEIGHT + 3, rw, w, h, x, y) {
                small_text_color()
            } else {
                sheet_background()
            },
            None => sheet_background(),
        }
    } else if y < c0 + ch {
        content_pixel(row, rw, c0, ch, w, h, x, y)
    } else {
        sheet_background()
    }
}

/// Every pixel of rows `y0..y1` of `m` is the sheet background.
pub open spec fn rows_are_background(m: RasterModel, y0: int, y1: int) -> bool {
    forall|x: int, y: int| #![trigger m.at(x, y)] m.in_bounds(x, y) && y0 <= y < y1 ==> m.at(x, y) == sheet_background()
}

/// Paints the label band of a row whose top is `top`.
fn paint_label_band(sheet: &mut RgbaRaster, label: &str, top: u32, rw: u32)
    requires
        old(sheet).wf(),
        old(sheet)@.width == rw,
        top + LABEL_HEIGHT <= old(sheet)@.height,
    ensures
        same_outside_rows(old(sheet)@, final(sheet)@, top as int, top + LABEL_HEIGHT),
        forall|x: int, y: int|
            #![trigger final(sheet)@.at(x, y)]
            final(sheet)@.in_bounds(x, y) && top <= y < top + LABEL_HEIGHT ==> final(sheet)@.at(x, y) == (if text_covers(
                label@, 64, 6, top + 4, rw as int, old(sheet)@.width as int, old(sheet)@.height as int, x, y,
            ) {
                label_text_color()
            } else {
                label_band_color()
            }),
{
    let ghost orig = sheet@;
    proof {
        sheet.lemma_dims_fit();
    }
    sheet.fill_rows(top, top + LABEL_HEIGHT, Pixel::rgba(40, 40, 46, 255));
    let ghost filled = sheet@;
    draw_text_simple(sheet, label, 6, top + 4, rw);
    proof {
        assert forall|x: int, y: int|
            #![trigger sheet@.at(x, y)]
            sheet@.in_bounds(x, y) && !(top <= y < top + LABEL_HEIGHT) implies sheet@.at(x, y) == orig.at(x, y) by {
            assert(sheet@.at(x, y) == filled.at(x, y));
        }
    }
}

/// Paints the subtitle band of a row, starting at row `y0`.
fn paint_subtitle_band(sheet: &mut RgbaRaster, subtitle: &str, y0: u32, rw: u32)
    requires
        old(sheet).wf(),
        old(sheet)@.width == rw,
        y0 + SUBTITLE_HEIGHT <= old(sheet)@.height,
    ensures
        same_outside_rows(old(sheet)@, final(sheet)@, y0 as int, y0 + SUBTITLE_HEIGHT),
        forall|x: int, y: int|
            #![trigger final(sheet)@.at(x, y)]
            final(sheet)@.in_bounds(x, y) && y0 <= y < y0 + SUBTITLE_HEIGHT ==> final(sheet)@.at(x, y) == (if text_covers(
                subtitle@, 96, 6, y0 + 3, rw as int, old(sheet)@.width as int, old(sheet)@.height as int, x, y,
            ) {
                small_text_color()
            } else {
                sheet_background()
            }),
{
    let ghost orig = sheet@;
    proof {
        sheet.lemma_dims_fit();
    }
    sheet.fill_rows(y0, y0 + SUBTITLE_HEIGHT, sheet_background_pixel());
    let ghost filled = sheet@;
    draw_text_small(sheet, subtitle, 6, y0 + 3, rw);
    proof {
        assert forall|x: int, y: int|
            #![trigger sheet@.at(x, y)]
            sheet@.in_bounds(x, y) && !(y0 <= y < y0 + SUBTITLE_HEIGHT) implies sheet@.at(x, y) == orig.at(x, y) by {
            assert(sheet@.at(x, y) == filled.at(x, y));
        }
    }
}

/// Paints a placeholder content band of height `ch` starting at row `c0`.
fn paint_placeholder(sheet: &mut RgbaRaster, c0: u32, ch: u32, rw: u32)
    requires
        old(sheet).wf(),
        old(sheet)@.width == rw,
        c0 + ch <= old(sheet)@.height,
        ch >= 26,
    ensures
        same_outside_rows(old(sheet)@, final(sheet)@, c0 as int, c0 + ch),
        forall|x: int, y: int|
            #![trigger final(sheet)@.at(x, y)]
            final(sheet)@.in_bounds(x, y) && c0 <= y < c0 + ch ==> final(sheet)@.at(x, y) == (if text_covers(
                placeholder_text(), 96, 8, c0 + ch / 2 - 6, rw as int, old(sheet)@.width as int, old(sheet)@.height as int, x, y,
            ) {
                small_text_color()
            } else {
                placeholder_color()
            }),
{
    let ghost orig = sheet@;
    proof {
        sheet.lemma_dims_fit();
    }
    sheet.fill_rows(c0, c0 + ch, Pixel::rgba(44, 44, 52, 255));
    let ghost filled = sheet@;
    let text_y: u32 = c0 + (ch / 2).saturating_sub(6);
    draw_text_small(sheet, "(not available — run analysis / process first)", 8, text_y, rw);
    proof {
        assert forall|x: int, y: int|
            #![trigger sheet@.at(x, y)]
            sheet@.in_bounds(x, y) && !(c0 <= y < c0 + ch) implies sheet@.at(x, y) == orig.at(x, y) by {
            assert(sheet@.at(x, y) == filled.at(x, y));
        }
    }
}

/// Paints a settings block of `pairs.len()` lines whose content band starts
/// at row `c0`.
fn paint_settings(sheet: &mut RgbaRaster, pairs: &Vec<(String, String)>, c0: u32, rw: u32)
    requires
        old(sheet).wf(),
        old(sheet)@.width == rw,
        c0 + SETTINGS_LINE_H * pairs@.len() + 8 <= old(sheet)@.height,
    ensures
        same_outside_rows(old(sheet)@, final(sheet)@, c0 as int, c0 + SETTINGS_LINE_H * pairs@.len() + 8),
        forall|x: int, y: int|
            #![trigger final(sheet)@.at(x, y)]
            final(sheet)@.in_bounds(x, y) && c0 <= y < c0 + SETTINGS_LINE_H * pairs@.len() + 8 ==> final(sheet)@.at(x, y) == (
            if settings_covers(
                pairs@.map_values(|p: (String, String)| (p.0@, p.1@)), c0 as int, rw as int, old(sheet)@.width as int,
                old(sheet)@.height as int, x, y,
            ) {
                small_text_color()
            } else {
                settings_color()
            }),
{
    let ghost orig = sheet@;
    let ghost w = orig.width as int;
    let ghost h = orig.height as int;
    let ghost model = pairs@.map_values(|p: (String, String)| (p.0@, p.1@));
    proof {
        sheet.lemma_dims_fit();
    }
    let n = pairs.len();
    let ch: u32 = SETTINGS_LINE_H * (n as u32) + 8;
    sheet.fill_rows(c0, c0 + ch, Pixel::rgba(28, 28, 34, 255));
    let ghost filled = sheet@;
    let mut l: usize = 0;
    while l < n
        invariant
            l <= n,
            n == pairs@.len(),
            ch == SETTINGS_LINE_H * n + 8,
            c0 + ch <= orig.height,
            orig.height <= u32::MAX,
            w == orig.width,
            h == orig.height,
            rw == orig.width,
            model == pairs@.map_values(|p: (String, String)| (p.0@, p.1@)),
            same_outside_rows(orig, sheet@, c0 as int, c0 + ch),
            forall|x: int, y: int|
                #![trigger sheet@.at(x, y)]
                sheet@.in_bounds(x, y) && c0 <= y < c0 + ch ==> sheet@.at(x, y) == (if settings_covers(model, c0 as int, rw as int, w, h, x, y)
                    && (y - c0 - 4) / (SETTINGS_LINE_H as int) < l {
                    small_text_color()
                } else {
                    settings_color()
                }),
        decreases n - l,
    {
        let (key, val) = &pairs[l];
        let mut line: String = key.clone();
        line.append(": ");
        line.append(val.as_str());
        let line_y: u32 = c0 + 4 + (l as u32) * SETTINGS_LINE_H;
        let ghost before = sheet@;
        proof {
            assert(model[l as int] == (key@, val@));
            assert(line@ == settings_line(model[l as int]));
        }
        draw_text_small(sheet, line.as_str(), 8, line_y, rw);
        proof {
            assert forall|x: int, y: int|
                #![trigger sheet@.at(x, y)]
                sheet@.in_bounds(x, y) implies sheet@.at(x, y) == (if c0 <= y < c0 + ch {
                    if settings_covers(model, c0 as int, rw as int, w, h, x, y) && (y - c0 - 4) / (SETTINGS_LINE_H as int) < l + 1 {
                        small_text_color()
                    } else {
                        settings_color()
                    }
                } else {
                    orig.at(x, y)
                }) by {
                let covered = text_covers(line@, 96, 8, line_y as int, rw as int, w, h, x, y);
                if covered {
                    assert(line_y <= y < line_y + 7);
                    assert((y - c0 - 4) / (SETTINGS_LINE_H as int) == l);
                } else if c0 + 4 <= y && (y - c0 - 4) / (SETTINGS_LINE_H as int) == l {
                    assert(!settings_covers(model, c0 as int, rw as int, w, h, x, y));
                }
            }
        }
        l = l + 1;
    }
}

/// Copies the image of a row, scaled to fit `rw × ch` with nearest-neighbour
/// sampling, into the content band starting at row `c0`; the band must be
/// background beforehand.
fn paint_image(sheet: &mut RgbaRaster, img: &RgbaRaster, c0: u32, ch: u32, rw: u32)
    requires
        old(sheet).wf(),
        img.wf(),
        old(sheet)@.width == rw,
        c0 + ch <= old(sheet)@.height,
        rows_are_background(old(sheet)@, c0 as int, c0 + ch),
    ensures
        same_outside_rows(old(sheet)@, final(sheet)@, c0 as int, c0 + ch),
        forall|x: int, y: int|
            #![trigger final(sheet)@.at(x, y)]
            final(sheet)@.in_bounds(x, y) && c0 <= y < c0 + ch ==> final(sheet)@.at(x, y) == ({
                let r = nearest_resized(img@, rw, ch);
                if y - c0 < r.height && x < r.width {
                    r.at(x, y - c0)
                } else {
                    sheet_background()
                }
            }),
{
    let ghost orig = sheet@;
    proof {
        sheet.lemma_dims_fit();
    }
    let resized = resize_to_fit(img, rw, ch, ResizeFilter::Nearest);
    let ghost r = resized@;
    let (rwid, rh) = resized.dimensions();
    let rows_to_copy: u32 = if ch < rh { ch } else { rh };
    let cols_to_copy: u32 = if rw < rwid { rw } else { rwid };
    let mut sy: u32 = 0;
    while sy < rows_to_copy
        invariant
            sy <= rows_to_copy,
            rows_to_copy <= ch,
            rows_to_copy <= rh,
            rows_to_copy == (if ch < rh { ch } else { rh }),
            cols_to_copy == (if rw < rwid { rw } else { rwid }),
            rwid == r.width,
            rh == r.height,
            resized@ == r,
            resized.wf(),
            c0 + ch <= orig.height,
            orig.height <= u32::MAX,
            orig.width == rw,
            rows_are_background(orig, c0 as int, c0 + ch),
            same_outside_rows(orig, sheet@, c0 as int, c0 + ch),
            forall|x: int, y: int|
                #![trigger sheet@.at(x, y)]
                sheet@.in_bounds(x, y) && c0 <= y < c0 + ch ==> sheet@.at(x, y) == (if y - c0 < sy && x < cols_to_copy {
                    r.at(x, y - c0)
                } else {
                    sheet_background()
                }),
        decreases rows_to_copy - sy,
    {
        let mut x: u32 = 0;
        while x < cols_to_copy
            invariant
                sy < rows_to_copy,
                x <= cols_to_copy,
                rows_to_copy <= ch,
                rows_to_copy <= rh,
                cols_to_copy <= rw,
                cols_to_copy <= rwid,
                rwid == r.width,
                rh == r.height,
                resized@ == r,
                resized.wf(),
                c0 + ch <= orig.height,
                orig.height <= u32::MAX,
                orig.width == rw,
                same_outside_rows(orig, sheet@, c0 as int, c0 + ch),
                forall|px: int, py: int|
                    #![trigger sheet@.at(px, py)]
                    sheet@.in_bounds(px, py) && c0 <= py < c0 + ch ==> sheet@.at(px, py) == (if (py - c0 < sy && px < cols_to_copy)
                        || (py - c0 == sy && px < x) {
                        r.at(px, py - c0)
                    } else {
                        sheet_background()
                    }),
            decreases cols_to_copy - x,
        {
            let p = resized.get_pixel(x, sy);
            sheet.put_pixel(x, c0 + sy, p);
            x = x + 1;
        }
        sy = sy + 1;
    }
    if rh < ch {
        let ghost before = sheet@;
        sheet.fill_rows(c0 + rh, c0 + ch, sheet_background_pixel());
        proof {
            assert forall|x: int, y: int|
                #![trigger sheet@.at(x, y)]
                sheet@.in_bounds(x, y) && !(c0 <= y < c0 + ch) implies sheet@.at(x, y) == orig.at(x, y) by {
                assert(sheet@.at(x, y) == before.at(x, y));
            }
        }
    }
}

/// `(2n + d) / (2d)` equals `n / d` plus one when the remainder is at least
/// half of `d`.
pub proof fn lemma_div_round(n: int, d: int)
    requires
        n >= 0,
        d > 0,
    ensures
        div_round(n, d) == n / d + (if 2 * (n % d) >= d { 1int } else { 0int }),
{
    let q = n / d;
    let r = n % d;
    vstd::arithmetic::div_mod::lemma_fundamental_div_mod(n, d);
    vstd::arithmetic::div_mod::lemma_mod_bound(n, d);
    let extra: int = if 2 * r >= d { 1 } else { 0 };
    assert(2 * n + d == (2 * d) * (q + extra) + (2 * r + d - 2 * d * extra)) by (nonlinear_arith)
        requires
            n == d * q + r,
    ;
    assert(0 <= 2 * r + d - 2 * d * extra < 2 * d);
    vstd::arithmetic::div_mod::lemma_div_multiples_vanish_fancy(q + extra, 2 * r + d - 2 * d * extra, 2 * d);
}

/// Computes the content height of a row (see `content_height`).
fn row_content_height(row: &ContactSheetRow, rw: u32) -> (ch: u32)
    requires
        row.wf(),
        content_height(row.model(), rw as int) <= u32::MAX,
    ensures
        ch == content_height(row.model(), rw as int),
{
    match &row.settings {
        Some(pairs) => {
            proof {
                assert(row.model().settings.unwrap().len() == pairs@.len());
            }
            SETTINGS_LINE_H * (pairs.len() as u32) + 8
        },
        None => match &row.image {
            Some(img) => {
                let (img_w, img_h) = img.dimensions();
                if img_w > 0 {
                    proof {
                        assert((rw as int) * (img_h as int) <= 0xffff_ffff * 0xffff_ffff) by (nonlinear_arith)
                            requires
                                rw <= 0xffff_ffffu32,
                                img_h <= 0xffff_ffffu32,
                        ;
                    }
                    let n: u64 = (rw as u64) * (img_h as u64);
                    let q: u64 = n / (img_w as u64);
                    let r: u64 = n % (img_w as u64);
                    proof {
                        assert(q <= n) by (nonlinear_arith)
                            requires
                                q == n / (img_w as u64),
                                img_w > 0,
                        ;
                    }
                    let s: u64 = if 2 * r >= img_w as u64 { q + 1 } else { q };
                    proof {
                        lemma_div_round(n as int, img_w as int);
                    }
                    if s < 8 {
                        8
                    } else {
                        s as u32
                    }
                } else {
                    64
                }
            },
            None => 64,
        },
    }
}

/// Renders one row whose top is at `top`; the row's rows of the sheet must
/// be background beforehand.
fn render_row(sheet: &mut RgbaRaster, row: &ContactSheetRow, top: u32, rw: u32, ch: u32)
    requires
        old(sheet).wf(),
        row.wf(),
        old(sheet)@.width == rw,
        ch == content_height(row.model(), rw as int),
        top + row_height(row.model(), rw as int) <= old(sheet)@.height,
        rows_are_background(old(sheet)@, top as int, top + row_height(row.model(), rw as int)),
    ensures
        same_outside_rows(old(sheet)@, final(sheet)@, top as int, top + row_height(row.model(), rw as int)),
        forall|x: int, y: int|
            #![trigger final(sheet)@.at(x, y)]
            final(sheet)@.in_bounds(x, y) && top <= y < top + row_height(row.model(), rw as int) ==> final(sheet)@.at(x, y)
                == row_pixel(row.model(), rw as int, top as int, old(sheet)@.width as int, old(sheet)@.height as int, x, y),
{
    let ghost m = row.model();
    let ghost s0 = sheet@;
    let ghost w = s0.width as int;
    let ghost h = s0.height as int;
    let ghost rh = row_height(m, rw as int);
    let ghost c0 = top + LABEL_HEIGHT + subtitle_height(m);
    proof {
        sheet.lemma_dims_fit();
    }
    paint_label_band(sheet, row.label, top, rw);
    let ghost s1 = sheet@;
    let mut y: u32 = top + LABEL_HEIGHT;
    match row.subtitle {
        Some(sub) => {
            paint_subtitle_band(sheet, sub, y, rw);
            y = y + SUBTITLE_HEIGHT;
        },
        None => {},
    }
    let ghost s2 = sheet@;
    proof {
        assert(y == c0);
        assert(rows_are_background(s2, c0, c0 + ch)) by {
            assert forall|x: int, yy: int| #![trigger s2.at(x, yy)] s2.in_bounds(x, yy) && c0 <= yy < c0 + ch implies s2.at(x, yy) == sheet_background() by {
                assert(s2.at(x, yy) == s1.at(x, yy));
                assert(s1.at(x, yy) == s0.at(x, yy));
            }
        }
    }
    match &row.settings {
        Some(pairs) => {
            proof {
                assert(m.settings == Some(pairs@.map_values(|p: (String, String)| (p.0@, p.1@))));
            }
            paint_settings(sheet, pairs, y, rw);
        },
        None => match &row.image {
            Some(img) => {
                paint_image(sheet, img, y, ch, rw);
            },
            None => {
                paint_placeholder(sheet, y, ch, rw);
            },
        },
    }
    let ghost s3 = sheet@;
    proof {
        assert forall|x: int, yy: int|
            #![trigger s3.at(x, yy)]
            s3.in_bounds(x, yy) implies s3.at(x, yy) == (if top <= yy < top + rh {
                row_pixel(m, rw as int, top as int, w, h, x, yy)
            } else {
                s0.at(x, yy)
            }) by {
            if yy < top || yy >= top + rh {
                assert(s3.at(x, yy) == s2.at(x, yy));
                assert(s2.at(x, yy) == s1.at(x, yy));
            } else if yy < top + LABEL_HEIGHT {
                assert(s3.at(x, yy) == s2.at(x, yy));
                assert(s2.at(x, yy) == s1.at(x, yy));
            } else if yy < c0 {
                assert(s3.at(x, yy) == s2.at(x, yy));
            } else if yy < c0 + ch {
            } else {
                assert(s3.at(x, yy) == s2.at(x, yy));
                assert(s2.at(x, yy) == s1.at(x, yy));
                assert(s1.at(x, yy) == s0.at(x, yy));
            }
        }
    }
}

/// Rows never have negative height, so the running total only grows.
pub proof fn lemma_rows_height_monotone(rows: Seq<RowModel>, rw: int, a: int, b: int)
    requires
        0 <= a <= b,
        rw >= 0,
    ensures
        rows_height(rows, rw, a) <= rows_height(rows, rw, b),
    decreases b - a,
{
    if a < b {
        lemma_rows_height_monotone(rows, rw, a, b - 1);
        lemma_row_height_positive(rows[b - 1], rw);
    }
}

/// Every row is at least as high as its label band and gap.
pub proof fn lemma_row_height_positive(row: RowModel, rw: int)
    requires
        rw >= 0,
    ensures
        content_height(row, rw) >= 0,
        row_height(row, rw) >= LABEL_HEIGHT + ROW_GAP,
{
    match row.settings {
        Some(p) => {},
        None => match row.image {
            Some(m) => {
                if m.width > 0 {
                    assert(rw * m.height >= 0) by (nonlinear_arith)
                        requires
                            rw >= 0,
                    ;
                }
            },
            None => {},
        },
    }
}

/// The rows tile the sheet below its top padding: every sheet row from the
/// padding down to the bottom lies in exactly one contact-sheet row.
pub proof fn lemma_rows_tile_sheet(rows: Seq<RowModel>, rw: int, y: int)
    requires
        rw >= 0,
        ROW_GAP <= y < sheet_height(rows, rw),
    ensures
        exists|i: int| #![trigger row_top(rows, rw, i)] 0 <= i < rows.len() && row_top(rows, rw, i) <= y < row_top(rows, rw, i + 1),
        forall|i: int, j: int|
            #![trigger row_top(rows, rw, i), row_top(rows, rw, j)]
            0 <= i < rows.len() && 0 <= j < rows.len() && row_top(rows, rw, i) <= y < row_top(rows, rw, i + 1) && row_top(rows, rw, j) <= y
                < row_top(rows, rw, j + 1) ==> i == j,
{
    lemma_rows_tile_prefix(rows, rw, y, rows.len() as int);
    assert forall|i: int, j: int|
        #![trigger row_top(rows, rw, i), row_top(rows, rw, j)]
        0 <= i < rows.len() && 0 <= j < rows.len() && row_top(rows, rw, i) <= y < row_top(rows, rw, i + 1) && row_top(rows, rw, j) <= y
            < row_top(rows, rw, j + 1) implies i == j by {
        if i < j {
            lemma_rows_height_monotone(rows, rw, i + 1, j);
        } else if j < i {
            lemma_rows_height_monotone(rows, rw, j + 1, i);
        }
    }
}

proof fn lemma_rows_tile_prefix(rows: Seq<RowModel>, rw: int, y: int, n: int)
    requires
        rw >= 0,
        0 <= n <= rows.len(),
        ROW_GAP <= y < row_top(rows, rw, n),
    ensures
        exists|i: int| #![trigger row_top(rows, rw, i)] 0 <= i < n && row_top(rows, rw, i) <= y < row_top(rows, rw, i + 1),
    decreases n,
{
    if n > 0 {
        if y < row_top(rows, rw, n - 1) {
            lemma_rows_tile_prefix(rows, rw, y, n - 1);
        } else {
            assert(row_top(rows, rw, n - 1) <= y < row_top(rows, rw, n));
        }
    }
}

/// The content height of a row when it fits in `u32`.
fn checked_content_height(row: &ContactSheetRow, rw: u32) -> (r: Option<u32>)
    requires
        row.wf(),
    ensures
        r is Some <==> content_height(row.model(), rw as int) <= u32::MAX,
        r matches Some(ch) ==> ch == content_height(row.model(), rw as int),
{
    match &row.settings {
        Some(pairs) => {
            proof {
                assert(row.model().settings.unwrap().len() == pairs@.len());
            }
            let n = pairs.len();
            if n > (0xffff_ffffusize - 8) / 11 {
                None
            } else {
                Some(SETTINGS_LINE_H * (n as u32) + 8)
            }
        },
        None => match &row.image {
            Some(img) => {
                let (img_w, img_h) = img.dimensions();
                if img_w > 0 {
                    proof {
                        assert((rw as int) * (img_h as int) <= 0xffff_ffff * 0xffff_ffff) by (nonlinear_arith)
                            requires
                                rw <= 0xffff_ffffu32,
                                img_h <= 0xffff_ffffu32,
                        ;
                    }
                    let n: u64 = (rw as u64) * (img_h as u64);
                    let q: u64 = n / (img_w as u64);
                    let r: u64 = n % (img_w as u64);
                    proof {
                        assert(q <= n) by (nonlinear_arith)
                            requires
                                q == n / (img_w as u64),
                                img_w > 0,
                        ;
                        lemma_div_round(n as int, img_w as int);
                    }
                    let s: u64 = if 2 * r >= img_w as u64 { q + 1 } else { q };
                    if s < 8 {
                        Some(8)
                    } else if s > 0xffff_ffffu64 {
                        None
                    } else {
                        Some(s as u32)
                    }
                } else {
                    Some(64)
                }
            },
            None => Some(64),
        },
    }
}

/// The size `(width, height)` of the sheet that `compose_contact_sheet`
/// draws for these rows, or `None` when the sheet would be too large to
/// address (its height past `u32::MAX` or its pixel count past
/// `usize::MAX`).
pub fn contact_sheet_size(rows: &[ContactSheetRow], row_width: u32) -> (r: Option<(u32, u32)>)
    requires
        forall|i: int| 0 <= i < rows@.len() ==> (#[trigger] rows@[i]).wf(),
    ensures
        r is Some <==> (sheet_height(rows_model(rows@), sheet_width(row_width as int)) <= u32::MAX && sheet_width(row_width as int)
            * sheet_height(rows_model(rows@), sheet_width(row_width as int)) <= usize::MAX),
        r matches Some(d) ==> d.0 == sheet_width(row_width as int) && d.1 == sheet_height(
            rows_model(rows@),
            sheet_width(row_width as int),
        ),
{
    let ghost m = rows_model(rows@);
    let rw: u32 = if row_width < 64 { 64 } else { row_width };
    let ghost rwi = rw as int;
    let n = rows.len();
    let mut total: u32 = ROW_GAP;
    let mut i: usize = 0;
    while i < n
        invariant
            i <= n,
            n == rows@.len(),
            m == rows_model(rows@),
            rwi == rw,
            rwi == sheet_width(row_width as int),
            rw >= 64,
            total == row_top(m, rwi, i as int),
            forall|k: int| 0 <= k < rows@.len() ==> (#[trigger] rows@[k]).wf(),
        decreases n - i,
    {
        proof {
            lemma_rows_height_monotone(m, rwi, i + 1, n as int);
            lemma_row_height_positive(m[i as int], rwi);
            assert(m[i as int] == rows@[i as int].model());
            assert(row_top(m, rwi, i + 1) == total + row_height(m[i as int], rwi));
        }
        let row = &rows[i];
        proof {
            assert(m.len() == n);
            assert(sheet_height(m, rwi) >= row_top(m, rwi, i + 1));
        }
        match checked_content_height(row, rw) {
            None => {
                proof {
                    assert(content_height(m[i as int], rwi) > u32::MAX);
                }
                return None;
            },
            Some(ch) => {
                let sh: u32 = if row.subtitle.is_some() { SUBTITLE_HEIGHT } else { 0 };
                let extra: u64 = (LABEL_HEIGHT as u64) + (sh as u64) + (ch as u64) + (ROW_GAP as u64);
                if (total as u64) + extra > 0xffff_ffffu64 {
                    return None;
                }
                total = total + LABEL_HEIGHT + sh + ch + ROW_GAP;
            },
        }
        i = i + 1;
    }
    proof {
        assert(total == sheet_height(m, rwi));
        assert((rw as int) * (total as int) <= 0xffff_ffff * 0xffff_ffff) by (nonlinear_arith)
            requires
                rw <= 0xffff_ffffu32,
                total <= 0xffff_ffffu32,
        ;
    }
    let area: u64 = (rw as u64) * (total as u64);
    if area > usize::MAX as u64 {
        None
    } else {
        Some((rw, total))
    }
}

/// Composes the rows top to bottom into one sheet `max(row_width, 64)`
/// pixels wide. Each row has a label band (22 pixels, label drawn at
/// `(6, top + 4)`), an optional subtitle band (14 pixels, text at
/// `(6, top + 25)`), its content and an 8-pixel gap; the sheet starts with
/// 8 pixels of padding. Images are scaled with nearest-neighbour sampling to
/// fit the row width and their content height; settings blocks list one
/// `key: value` line per pair; rows with neither show a placeholder.
pub fn compose_contact_sheet(rows: &[ContactSheetRow], row_width: u32) -> (sheet: RgbaRaster)
    requires
        forall|i: int| 0 <= i < rows@.len() ==> (#[trigger] rows@[i]).wf(),
        sheet_height(rows_model(rows@), sheet_width(row_width as int)) <= u32::MAX,
        sheet_width(row_width as int) * sheet_height(rows_model(rows@), sheet_width(row_width as int)) <= usize::MAX,
    ensures
        sheet.wf(),
        sheet@.width == sheet_width(row_width as int),
        sheet@.height == sheet_height(rows_model(rows@), sheet_width(row_width as int)),
        rows_are_background(sheet@, 0, ROW_GAP as int),
        forall|i: int, x: int, y: int|
            #![trigger sheet@.at(x, y), row_top(rows_model(rows@), sheet_width(row_width as int), i)]
            0 <= i < rows@.len() && sheet@.in_bounds(x, y) && row_top(rows_model(rows@), sheet_width(row_width as int), i) <= y
                < row_top(rows_model(rows@), sheet_width(row_width as int), i + 1) ==> sheet@.at(x, y) == row_pixel(
                rows_model(rows@)[i],
                sheet_width(row_width as int),
                row_top(rows_model(rows@), sheet_width(row_width as int), i),
                sheet@.width as int,
                sheet@.height as int,
                x,
                y,
            ),
{
    let ghost m = rows_model(rows@);
    let rw: u32 = if row_width < 64 { 64 } else { row_width };
    let ghost rwi = rw as int;
    let n = rows.len();
    proof {
        lemma_rows_height_monotone(m, rwi, 0, n as int);
    }
    let mut heights: Vec<u32> = Vec::new();
    let mut total: u32 = ROW_GAP;
    let mut i: usize = 0;
    while i < n
        invariant
            i <= n,
            n == rows@.len(),
            m == rows_model(rows@),
            rwi == rw,
            rw >= 64,
            total == row_top(m, rwi, i as int),
            sheet_height(m, rwi) <= u32::MAX,
            forall|k: int| 0 <= k < rows@.len() ==> (#[trigger] rows@[k]).wf(),
            heights@.len() == i,
            forall|k: int| 0 <= k < i ==> heights@[k] == content_height(#[trigger] m[k], rwi),
        decreases n - i,
    {
        proof {
            lemma_rows_height_monotone(m, rwi, i + 1, n as int);
            lemma_row_height_positive(m[i as int], rwi);
            assert(m[i as int] == rows@[i as int].model());
        }
        let row = &rows[i];
        let ch = row_content_height(row, rw);
        let sh: u32 = if row.subtitle.is_some() { SUBTITLE_HEIGHT } else { 0 };
        total = total + LABEL_HEIGHT + sh + ch + ROW_GAP;
        heights.push(ch);
        i = i + 1;
    }
    let mut sheet = RgbaRaster::from_pixel(rw, total, sheet_background_pixel());
    let ghost w = rw as int;
    let ghost h = total as int;
    let mut y: u32 = ROW_GAP;
    i = 0;
    while i < n
        invariant
            i <= n,
            n == rows@.len(),
            m == rows_model(rows@),
            rwi == rw,
            rw >= 64,
            w == rw,
            h == total,
            total == sheet_height(m, rwi),
            y == row_top(m, rwi, i as int),
            forall|k: int| 0 <= k < rows@.len() ==> (#[trigger] rows@[k]).wf(),
            heights@.len() == n,
            forall|k: int| 0 <= k < n ==> heights@[k] == content_height(#[trigger] m[k], rwi),
            sheet.wf(),
            sheet@.width == rw,
            sheet@.height == total,
            rows_are_background(sheet@, 0, ROW_GAP as int),
            rows_are_background(sheet@, y as int, h),
            forall|k: int, x: int, yy: int|
                #![trigger sheet@.at(x, yy), row_top(m, rwi, k)]
                0 <= k < i && sheet@.in_bounds(x, yy) && row_top(m, rwi, k) <= yy < row_top(m, rwi, k + 1) ==> sheet@.at(x, yy)
                    == row_pixel(m[k], rwi, row_top(m, rwi, k), w, h, x, yy),
        decreases n - i,
    {
        let ghost before = sheet@;
        proof {
            lemma_rows_height_monotone(m, rwi, i + 1, n as int);
            lemma_row_height_positive(m[i as int], rwi);
            assert(m[i as int] == rows@[i as int].model());
            assert(row_top(m, rwi, i + 1) == y + row_height(m[i as int], rwi));
        }
        let row = &rows[i];
        let sh: u32 = if row.subtitle.is_some() { SUBTITLE_HEIGHT } else { 0 };
        let rh: u32 = LABEL_HEIGHT + sh + heights[i] + ROW_GAP;
        render_row(&mut sheet, row, y, rw, heights[i]);
        proof {
            assert forall|k: int, x: int, yy: int|
                #![trigger sheet@.at(x, yy), row_top(m, rwi, k)]
                0 <= k < i + 1 && sheet@.in_bounds(x, yy) && row_top(m, rwi, k) <= yy < row_top(m, rwi, k + 1) implies sheet@.at(x, yy)
                    == row_pixel(m[k], rwi, row_top(m, rwi, k), w, h, x, yy) by {
                if k < i {
                    lemma_rows_height_monotone(m, rwi, k + 1, i as int);
                    assert(sheet@.at(x, yy) == before.at(x, yy));
                }
            }
            assert forall|x: int, yy: int| #![trigger sheet@.at(x, yy)] sheet@.in_bounds(x, yy) && y + rh <= yy < h implies sheet@.at(x, yy) == sheet_background() by {
                assert(sheet@.at(x, yy) == before.at(x, yy));
            }
            assert forall|x: int, yy: int| #![trigger sheet@.at(x, yy)] sheet@.in_bounds(x, yy) && 0 <= yy < ROW_GAP implies sheet@.at(x, yy) == sheet_background() by {
                lemma_rows_height_monotone(m, rwi, 0, i as int);
                assert(sheet@.at(x, yy) == before.at(x, yy));
            }
        }
        y = y + rh;
        i = i + 1;
    }
    sheet
}

/// `row` shows `stage`: its label, `image`, and as subtitle `caption` when
/// there is an image and the stage's not-run note when there is none.
pub open spec fn is_stage_row(row: ContactSheetRow, stage: SheetStage, image: Option<RgbaRaster>, caption: Seq<char>) -> bool {
    &&& row.label@ == stage_label_text(stage)
    &&& row.image == image
    &&& row.settings is None
    &&& row.subtitle matches Some(t) && t@ == (if image is Some { caption } else { not_run_text(stage) })
}

/// The row of a pipeline stage that shows an image once the stage has run.
pub fn stage_row<'a>(stage: SheetStage, image: Option<RgbaRaster>, caption: &'a str) -> (row: ContactSheetRow<'a>)
    ensures
        is_stage_row(row, stage, image, caption@),
{
    let shown = match &image {
        Some(_) => Some(caption),
        None => None,
    };
    ContactSheetRow { label: stage_label(stage), subtitle: Some(row_subtitle(stage, shown)), image, settings: None }
}

/// The stage shown by row `k` of a pipeline's contact sheet.
pub open spec fn pipeline_stage(k: int) -> SheetStage {
    if k == 0 {
        SheetStage::Input
    } else if k == 1 {
        SheetStage::Depth
    } else if k == 2 {
        SheetStage::Edges
    } else if k == 3 {
        SheetStage::Superpixels
    } else if k == 4 {
        SheetStage::Segmentation
    } else if k == 5 {
        SheetStage::Flat
    } else if k == 6 {
        SheetStage::Output
    } else {
        SheetStage::Settings
    }
}

/// The rows of a pipeline's contact sheet, one per stage in pipeline order
/// (input, depth map, edge map, SLIC regions, segmentation, flat-shaded,
/// output; `captions` holds their captions in that order), then the
/// settings block. A stage that has not run (no image) carries its not-run
/// note in place of its caption.
pub fn pipeline_rows<'a>(
    input: RgbaRaster,
    depth: Option<RgbaRaster>,
    edges: Option<RgbaRaster>,
    superpixels: Option<RgbaRaster>,
    segmentation: Option<RgbaRaster>,
    flat: Option<RgbaRaster>,
    output: Option<RgbaRaster>,
    captions: &'a Vec<String>,
    settings: Vec<(String, String)>,
) -> (rows: Vec<ContactSheetRow<'a>>)
    requires
        captions@.len() == 7,
    ensures
        rows@.len() == 8,
        is_stage_row(rows@[0], pipeline_stage(0), Some(input), captions@[0]@),
        is_stage_row(rows@[1], pipeline_stage(1), depth, captions@[1]@),
        is_stage_row(rows@[2], pipeline_stage(2), edges, captions@[2]@),
        is_stage_row(rows@[3], pipeline_stage(3), superpixels, captions@[3]@),
        is_stage_row(rows@[4], pipeline_stage(4), segmentation, captions@[4]@),
        is_stage_row(rows@[5], pipeline_stage(5), flat, captions@[5]@),
        is_stage_row(rows@[6], pipeline_stage(6), output, captions@[6]@),
        rows@[7].label@ == stage_label_text(pipeline_stage(7)),
        rows@[7].image is None,
        rows@[7].subtitle is None,
        rows@[7].settings == Some(settings),
{
    let mut rows: Vec<ContactSheetRow<'a>> = Vec::new();
    rows.push(stage_row(SheetStage::Input, Some(input), captions[0].as_str()));
    rows.push(stage_row(SheetStage::Depth, depth, captions[1].as_str()));
    rows.push(stage_row(SheetStage::Edges, edges, captions[2].as_str()));
    rows.push(stage_row(SheetStage::Superpixels, superpixels, captions[3].as_str()));
    rows.push(stage_row(SheetStage::Segmentation, segmentation, captions[4].as_str()));
    rows.push(stage_row(SheetStage::Flat, flat, captions[5].as_str()));
    rows.push(stage_row(SheetStage::Output, output, captions[6].as_str()));
    rows.push(ContactSheetRow { label: stage_label(SheetStage::Settings), image: None, subtitle: None, settings: Some(settings) });
    rows
}

} // verus!
