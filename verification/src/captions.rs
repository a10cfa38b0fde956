//! Captions of the contact sheet's rows: image dimensions, cluster counts and
//! palette sizes written in decimal.

use vstd::prelude::*;

verus! {

broadcast use vstd::std_specs::hash::group_hash_axioms;

/// The character of decimal digit `d`.
pub open spec fn digit_char(d: int) -> char {
    (48 + d) as char
}

/// `n` written in decimal, without leading zeros.
pub open spec fn decimal(n: nat) -> Seq<char>
    decreases n,
{
    if n < 10 {
        seq![digit_char(n as int)]
    } else {
        decimal(n / 10).push(digit_char((n % 10) as int))
    }
}

/// The one-character string of digit `d`.
fn digit_str(d: u64) -> (s: &'static str)
    requires
        d < 10,
    ensures
        s@ == seq![digit_char(d as int)],
{
    if d == 0 {
        proof { reveal_strlit("0"); }
        "0"
    } else if d == 1 {
        proof { reveal_strlit("1"); }
        "1"
    } else if d == 2 {
        proof { reveal_strlit("2"); }
        "2"
    } else if d == 3 {
        proof { reveal_strlit("3"); }
        "3"
    } else if d == 4 {
        proof { reveal_strlit("4"); }
        "4"
    } else if d == 5 {
        proof { reveal_strlit("5"); }
        "5"
    } else if d == 6 {
        proof { reveal_strlit("6"); }
        "6"
    } else if d == 7 {
        proof { reveal_strlit("7"); }
        "7"
    } else if d == 8 {
        proof { reveal_strlit("8"); }
        "8"
    } else {
        proof { reveal_strlit("9"); }
        "9"
    }
}

/// `n` in decimal.
pub fn decimal_string(n: u64) -> (s: String)
    ensures
        s@ == decimal(n as nat),
    decreases n,
{
    if n < 10 {
        String::from_str(digit_str(n))
    } else {
        let mut s = decimal_string(n / 10);
        s.append(digit_str(n % 10));
        s
    }
}

/// `w` and `h` as `WxH`.
pub open spec fn dims_text(w: nat, h: nat) -> Seq<char> {
    decimal(w) + "x"@ + decimal(h)
}

/// The dimensions `w × h` as `WxH`, as the settings block lists them.
pub fn dims_string(w: u32, h: u32) -> (s: String)
    ensures
        s@ == dims_text(w as nat, h as nat),
{
    let mut s = decimal_string(w as u64);
    s.append("x");
    let hs = decimal_string(h as u64);
    s.append(hs.as_str());
    s
}

/// The caption of a row that shows a `w × h` image: its dimensions, two
/// spaces, then `note`.
pub fn dims_caption(w: u32, h: u32, note: &str) -> (s: String)
    ensures
        s@ == dims_text(w as nat, h as nat) + "  "@ + note@,
{
    let mut s = dims_string(w, h);
    s.append("  ");
    s.append(note);
    s
}

/// The caption of the superpixel row: dimensions, the requested cluster
/// count `k` and the number of regions found.
pub fn slic_caption(w: u32, h: u32, k: u64, regions: u64) -> (s: String)
    ensures
        s@ == dims_text(w as nat, h as nat) + "  k="@ + decimal(k as nat) + "  "@ + decimal(regions as nat) + " regions"@,
{
    let mut s = dims_string(w, h);
    s.append("  k=");
    let ks = decimal_string(k);
    s.append(ks.as_str());
    s.append("  ");
    let rs = decimal_string(regions);
    s.append(rs.as_str());
    s.append(" regions");
    s
}

/// The caption of the output row: dimensions and palette size.
pub fn palette_caption(w: u32, h: u32, colors: u64) -> (s: String)
    ensures
        s@ == dims_text(w as nat, h as nat) + "  "@ + decimal(colors as nat) + " colors"@,
{
    let mut s = dims_string(w, h);
    s.append("  ");
    let cs = decimal_string(colors);
    s.append(cs.as_str());
    s.append(" colors");
    s
}

/// The number of distinct labels in a label map.
pub fn count_distinct_labels(labels: &[u32]) -> (n: usize)
    ensures
        n == labels@.to_set().len(),
{
    let mut seen: std::collections::HashSet<u32> = std::collections::HashSet::new();
    let len = labels.len();
    let mut i: usize = 0;
    while i < len
        invariant
            len == labels@.len(),
            i <= len,
            seen@ == labels@.subrange(0, i as int).to_set(),
        decreases len - i,
    {
        let l = labels[i];
        proof {
            assert(labels@.subrange(0, i + 1) =~= labels@.subrange(0, i as int).push(l));
            labels@.subrange(0, i as int).lemma_push_to_set_commute(l);
        }
        seen.insert(l);
        i = i + 1;
    }
    proof {
        assert(labels@.subrange(0, len as int) =~= labels@);
    }
    seen.len()
}

/// A row of the contact sheet, in the order the sheet shows them.
#[derive(Clone, Copy, Debug, PartialEq, Eq, Structural)]
pub enum SheetStage {
    /// The source image.
    Input,
    /// The depth map of the depth estimator.
    Depth,
    /// The edge map of the edge detector.
    Edges,
    /// The SLIC superpixel regions.
    Superpixels,
    /// The segmentation mask.
    Segmentation,
    /// The flat-shaded image after depth-to-flat.
    Flat,
    /// The final pixel-art output.
    Output,
    /// The block of settings.
    Settings,
}

/// The label printed on a stage's row.
pub open spec fn stage_label_text(stage: SheetStage) -> Seq<char> {
    match stage {
        SheetStage::Input => "INPUT"@,
        SheetStage::Depth => "DEPTH MAP"@,
        SheetStage::Edges => "EDGE MAP"@,
        SheetStage::Superpixels => "SLIC REGIONS"@,
        SheetStage::Segmentation => "SEGMENTATION"@,
        SheetStage::Flat => "FLAT (POST-DTF)"@,
        SheetStage::Output => "OUTPUT"@,
        SheetStage::Settings => "SETTINGS"@,
    }
}

/// The label printed on a stage's row.
pub fn stage_label(stage: SheetStage) -> (s: &'static str)
    ensures
        s@ == stage_label_text(stage),
{
    match stage {
        SheetStage::Input => "INPUT",
        SheetStage::Depth => "DEPTH MAP",
        SheetStage::Edges => "EDGE MAP",
        SheetStage::Superpixels => "SLIC REGIONS",
        SheetStage::Segmentation => "SEGMENTATION",
        SheetStage::Flat => "FLAT (POST-DTF)",
        SheetStage::Output => "OUTPUT",
        SheetStage::Settings => "SETTINGS",
    }
}

/// The note a stage's row carries while the stage has not run: what to do
/// to fill it. The input is always there and the settings have no caption.
pub open spec fn not_run_text(stage: SheetStage) -> Seq<char> {
    match stage {
        SheetStage::Depth => "not run \u{2014} enable depth estimation and run ML analysis"@,
        SheetStage::Edges => "not run \u{2014} enable edge detection and run ML analysis"@,
        SheetStage::Superpixels => "not computed \u{2014} run Process once"@,
        SheetStage::Segmentation => "not run \u{2014} enable segmentation and run ML analysis"@,
        SheetStage::Flat => "run Process to populate"@,
        SheetStage::Output => "run Process to populate"@,
        SheetStage::Input => ""@,
        SheetStage::Settings => ""@,
    }
}

/// The note a stage's row carries while the stage has not run.
pub fn not_run_note(stage: SheetStage) -> (s: &'static str)
    ensures
        s@ == not_run_text(stage),
{
    match stage {
        SheetStage::Depth => "not run \u{2014} enable depth estimation and run ML analysis",
        SheetStage::Edges => "not run \u{2014} enable edge detection and run ML analysis",
        SheetStage::Superpixels => "not computed \u{2014} run Process once",
        SheetStage::Segmentation => "not run \u{2014} enable segmentation and run ML analysis",
        SheetStage::Flat => "run Process to populate",
        SheetStage::Output => "run Process to populate",
        SheetStage::Input => "",
        SheetStage::Settings => "",
    }
}

/// The subtitle of a stage's row: the stage's caption when it has run
/// (`caption` is `Some`), else the stage's not-run note.
pub fn row_subtitle<'a>(stage: SheetStage, caption: Option<&'a str>) -> (s: &'a str)
    ensures
        s@ == match caption {
            Some(c) => c@,
            None => not_run_text(stage),
        },
{
    match caption {
        Some(c) => c,
        None => not_run_note(stage),
    }
}

} // verus!
