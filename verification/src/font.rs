//! A built-in 5×7 bitmap font covering the printable ASCII range from the
//! space to the underscore (upper-case letters, digits and punctuation).
//!
//! Each glyph is a `u64` bit mask of 35 bits: row 0 (top) occupies the most
//! significant five bits and row 6 (bottom) the least significant five; within
//! a row, column 0 (left) is the higher bit. The bit for screen position
//! `(gx, gy)` is therefore `(6 - gy) * 5 + (4 - gx)`.

use vstd::prelude::*;

verus! {

/// The glyph table.
pub open spec fn glyph_bits(ch: char) -> Option<u64> {
    match ch {
        ' ' => Some(0u64),
        '!' => Some(0b00001_00001_00001_00001_00001_00000_00001u64),
        '"' => Some(0b00011_00011_00000_00000_00000_00000_00000u64),
        '#' => Some(0b01010_01010_11111_01010_11111_01010_01010u64),
        '$' => Some(0b00100_01111_10100_01110_00101_11110_00100u64),
        '%' => Some(0b11000_11001_00010_00100_01000_10011_00011u64),
        '&' => Some(0b01100_10010_01100_10001_01011_10010_01101u64),
        '\'' => Some(0b00001_00001_00000_00000_00000_00000_00000u64),
        '(' => Some(0b00001_00010_00010_00010_00010_00010_00001u64),
        ')' => Some(0b01000_00100_00100_00100_00100_00100_01000u64),
        '*' => Some(0b00000_00100_10101_01110_10101_00100_00000u64),
        '+' => Some(0b00000_00100_00100_11111_00100_00100_00000u64),
        ',' => Some(0b00000_00000_00000_00000_00000_00001_00010u64),
        '-' => Some(0b00000_00000_00000_11111_00000_00000_00000u64),
        '.' => Some(0b00000_00000_00000_00000_00000_00000_00001u64),
        '/' => Some(0b00001_00010_00010_00100_01000_01000_10000u64),
        '0' => Some(0b01110_10001_10011_10101_11001_10001_01110u64),
        '1' => Some(0b00100_01100_00100_00100_00100_00100_01110u64),
        '2' => Some(0b01110_10001_00001_00010_00100_01000_11111u64),
        '3' => Some(0b11111_00010_00100_00010_00001_10001_01110u64),
        '4' => Some(0b00010_00110_01010_10010_11111_00010_00010u64),
        '5' => Some(0b11111_10000_11110_00001_00001_10001_01110u64),
        '6' => Some(0b00110_01000_10000_11110_10001_10001_01110u64),
        '7' => Some(0b11111_00001_00010_00100_01000_01000_01000u64),
        '8' => Some(0b01110_10001_10001_01110_10001_10001_01110u64),
        '9' => Some(0b01110_10001_10001_01111_00001_00010_01100u64),
        ':' => Some(0b00000_00000_00001_00000_00000_00001_00000u64),
        ';' => Some(0b00000_00000_00001_00000_00000_00001_00010u64),
        '<' => Some(0b00010_00100_01000_10000_01000_00100_00010u64),
        '=' => Some(0b00000_00000_11111_00000_11111_00000_00000u64),
        '>' => Some(0b01000_00100_00010_00001_00010_00100_01000u64),
        '?' => Some(0b01110_10001_00001_00010_00100_00000_00100u64),
        '@' => Some(0b01110_10001_10111_10101_10111_10000_01110u64),
        'A' => Some(0b01110_10001_10001_11111_10001_10001_10001u64),
        'B' => Some(0b11110_10001_10001_11110_10001_10001_11110u64),
        'C' => Some(0b01110_10001_10000_10000_10000_10001_01110u64),
        'D' => Some(0b11110_10001_10001_10001_10001_10001_11110u64),
        'E' => Some(0b11111_10000_10000_11110_10000_10000_11111u64),
        'F' => Some(0b11111_10000_10000_11110_10000_10000_10000u64),
        'G' => Some(0b01110_10001_10000_10111_10001_10001_01111u64),
        'H' => Some(0b10001_10001_10001_11111_10001_10001_10001u64),
        'I' => Some(0b01110_00100_00100_00100_00100_00100_01110u64),
        'J' => Some(0b00111_00010_00010_00010_00010_10010_01100u64),
        'K' => Some(0b10001_10010_10100_11000_10100_10010_10001u64),
        'L' => Some(0b10000_10000_10000_10000_10000_10000_11111u64),
        'M' => Some(0b10001_11011_10101_10101_10001_10001_10001u64),
        'N' => Some(0b10001_10001_11001_10101_10011_10001_10001u64),
        'O' => Some(0b01110_10001_10001_10001_10001_10001_01110u64),
        'P' => Some(0b11110_10001_10001_11110_10000_10000_10000u64),
        'Q' => Some(0b01110_10001_10001_10001_10101_10010_01101u64),
        'R' => Some(0b11110_10001_10001_11110_10100_10010_10001u64),
        'S' => Some(0b01111_10000_10000_01110_00001_00001_11110u64),
        'T' => Some(0b11111_00100_00100_00100_00100_00100_00100u64),
        'U' => Some(0b10001_10001_10001_10001_10001_10001_01110u64),
        'V' => Some(0b10001_10001_10001_10001_10001_01010_00100u64),
        'W' => Some(0b10001_10001_10001_10101_10101_11011_10001u64),
        'X' => Some(0b10001_10001_01010_00100_01010_10001_10001u64),
        'Y' => Some(0b10001_10001_01010_00100_00100_00100_00100u64),
        'Z' => Some(0b11111_00001_00010_00100_01000_10000_11111u64),
        '[' => Some(0b01110_01000_01000_01000_01000_01000_01110u64),
        '\\' => Some(0b10000_01000_01000_00100_00010_00010_00001u64),
        ']' => Some(0b01110_00010_00010_00010_00010_00010_01110u64),
        '^' => Some(0b00100_01010_10001_00000_00000_00000_00000u64),
        '_' => Some(0b00000_00000_00000_00000_00000_00000_11111u64),
        _ => None,
    }
}

/// Whether the pixel at column `gx`, row `gy` of the 5×7 cell is lit.
pub open spec fn glyph_pixel(bits: u64, gx: int, gy: int) -> bool {
    (bits >> (((6 - gy) * 5 + (4 - gx)) as u64)) & 1 != 0
}

/// The font drawn row by row: for each character, its seven rows from top
/// to bottom, each a five-column pattern read left to right (`1` lit). The
/// empty sequence for a character outside the font.
pub open spec fn font_rows(ch: char) -> Seq<u8> {
    match ch {
        ' ' => seq![0b00000u8, 0b00000u8, 0b00000u8, 0b00000u8, 0b00000u8, 0b00000u8, 0b00000u8],
        '!' => seq![0b00001u8, 0b00001u8, 0b00001u8, 0b00001u8, 0b00001u8, 0b00000u8, 0b00001u8],
        '"' => seq![0b00011u8, 0b00011u8, 0b00000u8, 0b00000u8, 0b00000u8, 0b00000u8, 0b00000u8],
        '#' => seq![0b01010u8, 0b01010u8, 0b11111u8, 0b01010u8, 0b11111u8, 0b01010u8, 0b01010u8],
        '$' => seq![0b00100u8, 0b01111u8, 0b10100u8, 0b01110u8, 0b00101u8, 0b11110u8, 0b00100u8],
        '%' => seq![0b11000u8, 0b11001u8, 0b00010u8, 0b00100u8, 0b01000u8, 0b10011u8, 0b00011u8],
        '&' => seq![0b01100u8, 0b10010u8, 0b01100u8, 0b10001u8, 0b01011u8, 0b10010u8, 0b01101u8],
        '\'' => seq![0b00001u8, 0b00001u8, 0b00000u8, 0b00000u8, 0b00000u8, 0b00000u8, 0b00000u8],
        '(' => seq![0b00001u8, 0b00010u8, 0b00010u8, 0b00010u8, 0b00010u8, 0b00010u8, 0b00001u8],
        ')' => seq![0b01000u8, 0b00100u8, 0b00100u8, 0b00100u8, 0b00100u8, 0b00100u8, 0b01000u8],
        '*' => seq![0b00000u8, 0b00100u8, 0b10101u8, 0b01110u8, 0b10101u8, 0b00100u8, 0b00000u8],
        '+' => seq![0b00000u8, 0b00100u8, 0b00100u8, 0b11111u8, 0b00100u8, 0b00100u8, 0b00000u8],
        ',' => seq![0b00000u8, 0b00000u8, 0b00000u8, 0b00000u8, 0b00000u8, 0b00001u8, 0b00010u8],
        '-' => seq![0b00000u8, 0b00000u8, 0b00000u8, 0b11111u8, 0b00000u8, 0b00000u8, 0b00000u8],
        '.' => seq![0b00000u8, 0b00000u8, 0b00000u8, 0b00000u8, 0b00000u8, 0b00000u8, 0b00001u8],
        '/' => seq![0b00001u8, 0b00010u8, 0b00010u8, 0b00100u8, 0b01000u8, 0b01000u8, 0b10000u8],
        '0' => seq![0b01110u8, 0b10001u8, 0b10011u8, 0b10101u8, 0b11001u8, 0b10001u8, 0b01110u8],
        '1' => seq![0b00100u8, 0b01100u8, 0b00100u8, 0b00100u8, 0b00100u8, 0b00100u8, 0b01110u8],
        '2' => seq![0b01110u8, 0b10001u8, 0b00001u8, 0b00010u8, 0b00100u8, 0b01000u8, 0b11111u8],
        '3' => seq![0b11111u8, 0b00010u8, 0b00100u8, 0b00010u8, 0b00001u8, 0b10001u8, 0b01110u8],
        '4' => seq![0b00010u8, 0b00110u8, 0b01010u8, 0b10010u8, 0b11111u8, 0b00010u8, 0b00010u8],
        '5' => seq![0b11111u8, 0b10000u8, 0b11110u8, 0b00001u8, 0b00001u8, 0b10001u8, 0b01110u8],
        '6' => seq![0b00110u8, 0b01000u8, 0b10000u8, 0b11110u8, 0b10001u8, 0b10001u8, 0b01110u8],
        '7' => seq![0b11111u8, 0b00001u8, 0b00010u8, 0b00100u8, 0b01000u8, 0b01000u8, 0b01000u8],
        '8' => seq![0b01110u8, 0b10001u8, 0b10001u8, 0b01110u8, 0b10001u8, 0b10001u8, 0b01110u8],
        '9' => seq![0b01110u8, 0b10001u8, 0b10001u8, 0b01111u8, 0b00001u8, 0b00010u8, 0b01100u8],
        ':' => seq![0b00000u8, 0b00000u8, 0b00001u8, 0b00000u8, 0b00000u8, 0b00001u8, 0b00000u8],
        ';' => seq![0b00000u8, 0b00000u8, 0b00001u8, 0b00000u8, 0b00000u8, 0b00001u8, 0b00010u8],
        '<' => seq![0b00010u8, 0b00100u8, 0b01000u8, 0b10000u8, 0b01000u8, 0b00100u8, 0b00010u8],
        '=' => seq![0b00000u8, 0b00000u8, 0b11111u8, 0b00000u8, 0b11111u8, 0b00000u8, 0b00000u8],
        '>' => seq![0b01000u8, 0b00100u8, 0b00010u8, 0b00001u8, 0b00010u8, 0b00100u8, 0b01000u8],
        '?' => seq![0b01110u8, 0b10001u8, 0b00001u8, 0b00010u8, 0b00100u8, 0b00000u8, 0b00100u8],
        '@' => seq![0b01110u8, 0b10001u8, 0b10111u8, 0b10101u8, 0b10111u8, 0b10000u8, 0b01110u8],
        'A' => seq![0b01110u8, 0b10001u8, 0b10001u8, 0b11111u8, 0b10001u8, 0b10001u8, 0b10001u8],
        'B' => seq![0b11110u8, 0b10001u8, 0b10001u8, 0b11110u8, 0b10001u8, 0b10001u8, 0b11110u8],
        'C' => seq![0b01110u8, 0b10001u8, 0b10000u8, 0b10000u8, 0b10000u8, 0b10001u8, 0b01110u8],
        'D' => seq![0b11110u8, 0b10001u8, 0b10001u8, 0b10001u8, 0b10001u8, 0b10001u8, 0b11110u8],
        'E' => seq![0b11111u8, 0b10000u8, 0b10000u8, 0b11110u8, 0b10000u8, 0b10000u8, 0b11111u8],
        'F' => seq![0b11111u8, 0b10000u8, 0b10000u8, 0b11110u8, 0b10000u8, 0b10000u8, 0b10000u8],
        'G' => seq![0b01110u8, 0b10001u8, 0b10000u8, 0b10111u8, 0b10001u8, 0b10001u8, 0b01111u8],
        'H' => seq![0b10001u8, 0b10001u8, 0b10001u8, 0b11111u8, 0b10001u8, 0b10001u8, 0b10001u8],
        'I' => seq![0b01110u8, 0b00100u8, 0b00100u8, 0b00100u8, 0b00100u8, 0b00100u8, 0b01110u8],
        'J' => seq![0b00111u8, 0b00010u8, 0b00010u8, 0b00010u8, 0b00010u8, 0b10010u8, 0b01100u8],
        'K' => seq![0b10001u8, 0b10010u8, 0b10100u8, 0b11000u8, 0b10100u8, 0b10010u8, 0b10001u8],
        'L' => seq![0b10000u8, 0b10000u8, 0b10000u8, 0b10000u8, 0b10000u8, 0b10000u8, 0b11111u8],
        'M' => seq![0b10001u8, 0b11011u8, 0b10101u8, 0b10101u8, 0b10001u8, 0b10001u8, 0b10001u8],
        'N' => seq![0b10001u8, 0b10001u8, 0b11001u8, 0b10101u8, 0b10011u8, 0b10001u8, 0b10001u8],
        'O' => seq![0b01110u8, 0b10001u8, 0b10001u8, 0b10001u8, 0b10001u8, 0b10001u8, 0b01110u8],
        'P' => seq![0b11110u8, 0b10001u8, 0b10001u8, 0b11110u8, 0b10000u8, 0b10000u8, 0b10000u8],
        'Q' => seq![0b01110u8, 0b10001u8, 0b10001u8, 0b10001u8, 0b10101u8, 0b10010u8, 0b01101u8],
        'R' => seq![0b11110u8, 0b10001u8, 0b10001u8, 0b11110u8, 0b10100u8, 0b10010u8, 0b10001u8],
        'S' => seq![0b01111u8, 0b10000u8, 0b10000u8, 0b01110u8, 0b00001u8, 0b00001u8, 0b11110u8],
        'T' => seq![0b11111u8, 0b00100u8, 0b00100u8, 0b00100u8, 0b00100u8, 0b00100u8, 0b00100u8],
        'U' => seq![0b10001u8, 0b10001u8, 0b10001u8, 0b10001u8, 0b10001u8, 0b10001u8, 0b01110u8],
        'V' => seq![0b10001u8, 0b10001u8, 0b10001u8, 0b10001u8, 0b10001u8, 0b01010u8, 0b00100u8],
        'W' => seq![0b10001u8, 0b10001u8, 0b10001u8, 0b10101u8, 0b10101u8, 0b11011u8, 0b10001u8],
        'X' => seq![0b10001u8, 0b10001u8, 0b01010u8, 0b00100u8, 0b01010u8, 0b10001u8, 0b10001u8],
        'Y' => seq![0b10001u8, 0b10001u8, 0b01010u8, 0b00100u8, 0b00100u8, 0b00100u8, 0b00100u8],
        'Z' => seq![0b11111u8, 0b00001u8, 0b00010u8, 0b00100u8, 0b01000u8, 0b10000u8, 0b11111u8],
        '[' => seq![0b01110u8, 0b01000u8, 0b01000u8, 0b01000u8, 0b01000u8, 0b01000u8, 0b01110u8],
        '\\' => seq![0b10000u8, 0b01000u8, 0b01000u8, 0b00100u8, 0b00010u8, 0b00010u8, 0b00001u8],
        ']' => seq![0b01110u8, 0b00010u8, 0b00010u8, 0b00010u8, 0b00010u8, 0b00010u8, 0b01110u8],
        '^' => seq![0b00100u8, 0b01010u8, 0b10001u8, 0b00000u8, 0b00000u8, 0b00000u8, 0b00000u8],
        '_' => seq![0b00000u8, 0b00000u8, 0b00000u8, 0b00000u8, 0b00000u8, 0b00000u8, 0b11111u8],
        _ => Seq::empty(),
    }
}

/// Whether column `gx` of a five-column row pattern is lit.
pub open spec fn row_lit(row: u8, gx: int) -> bool {
    (row >> ((4 - gx) as u8)) & 1 != 0
}

/// Seven five-column rows packed top row first, five bits a row.
pub open spec fn pack_rows(r: Seq<u8>) -> int {
    r[0] * 0x4000_0000 + r[1] * 0x200_0000 + r[2] * 0x10_0000 + r[3] * 0x8000 + r[4] * 0x400 + r[5] * 0x20 + r[6]
}

/// Every row of a picture has five columns.
pub open spec fn rows_fit(r: Seq<u8>) -> bool {
    forall|i: int| 0 <= i < r.len() ==> #[trigger] r[i] < 32
}

/// The glyph table is the font's pictures packed: a character has a glyph
/// exactly when it has a seven-row picture, and its glyph is that picture
/// packed row by row.
pub proof fn lemma_glyph_table_is_font(ch: char)
    ensures
        glyph_bits(ch) is Some <==> font_rows(ch).len() == 7,
        rows_fit(font_rows(ch)),
        glyph_bits(ch) matches Some(b) ==> b == pack_rows(font_rows(ch)),
{
}

/// In a packed picture, pixel `(gx, gy)` is column `gx` of row `gy`.
proof fn lemma_packed_pixel(r: Seq<u8>, gx: int, gy: int)
    requires
        r.len() == 7,
        rows_fit(r),
        0 <= gx < 5,
        0 <= gy < 7,
    ensures
        glyph_pixel(pack_rows(r) as u64, gx, gy) <==> row_lit(r[gy], gx),
{
    let (r0, r1, r2, r3, r4, r5, r6) = (r[0] as u64, r[1] as u64, r[2] as u64, r[3] as u64, r[4] as u64, r[5] as u64, r[6] as u64);
    assert(r0 < 32 && r1 < 32 && r2 < 32 && r3 < 32 && r4 < 32 && r5 < 32 && r6 < 32);
    let b: u64 = (r0 * 0x4000_0000 + r1 * 0x200_0000 + r2 * 0x10_0000 + r3 * 0x8000 + r4 * 0x400 + r5 * 0x20 + r6) as u64;
    assert(b == pack_rows(r) as u64);
    let j: u64 = (4 - gx) as u64;
    let rgy: u8 = r[gy];
    let rg: u64 = rgy as u64;
    assert(((rgy >> (j as u8)) & 1) as u64 == (rg >> j) & 1) by (bit_vector)
        requires
            j < 5,
            rg == rgy as u64,
    ;
    let sh: u64 = ((6 - gy) * 5) as u64;
    assert((b >> (sh + j)) & 1 == (rg >> j) & 1) by (bit_vector)
        requires
            r0 < 32 && r1 < 32 && r2 < 32 && r3 < 32 && r4 < 32 && r5 < 32 && r6 < 32,
            b == r0 * 0x4000_0000 + r1 * 0x200_0000 + r2 * 0x10_0000 + r3 * 0x8000 + r4 * 0x400 + r5 * 0x20 + r6,
            j < 5,
            (sh == 30 && rg == r0) || (sh == 25 && rg == r1) || (sh == 20 && rg == r2) || (sh == 15 && rg == r3) || (sh
                == 10 && rg == r4) || (sh == 5 && rg == r5) || (sh == 0 && rg == r6),
    ;
    assert(((6 - gy) * 5 + (4 - gx)) as u64 == sh + j);
}

/// The font draws every character as its row-by-row picture: pixel
/// `(gx, gy)` of the glyph of `ch` is lit exactly when column `gx` of row
/// `gy` of `font_rows(ch)` is, and the characters with a glyph are exactly
/// those with a picture.
pub proof fn lemma_glyph_draws_rows(ch: char, gx: int, gy: int)
    requires
        0 <= gx < 5,
        0 <= gy < 7,
    ensures
        glyph_bits(ch) is Some <==> font_rows(ch).len() == 7,
        glyph_bits(ch) matches Some(b) ==> (glyph_pixel(b, gx, gy) <==> row_lit(font_rows(ch)[gy], gx)),
{
    lemma_glyph_table_is_font(ch);
    if glyph_bits(ch) is Some {
        lemma_packed_pixel(font_rows(ch), gx, gy);
    }
}

/// Looks up the bitmap of `ch`; `None` for characters outside the font.
pub fn glyph(ch: char) -> (g: Option<u64>)
    ensures
        g == glyph_bits(ch),
        g is Some <==> font_rows(ch).len() == 7,
        g matches Some(b) ==> b == pack_rows(font_rows(ch)),
{
    proof {
        lemma_glyph_table_is_font(ch);
    }
    match ch {
        ' ' => Some(0u64),
        '!' => Some(0b00001_00001_00001_00001_00001_00000_00001u64),
        '"' => Some(0b00011_00011_00000_00000_00000_00000_00000u64),
        '#' => Some(0b01010_01010_11111_01010_11111_01010_01010u64),
        '$' => Some(0b00100_01111_10100_01110_00101_11110_00100u64),
        '%' => Some(0b11000_11001_00010_00100_01000_10011_00011u64),
        '&' => Some(0b01100_10010_01100_10001_01011_10010_01101u64),
        '\'' => Some(0b00001_00001_00000_00000_00000_00000_00000u64),
        '(' => Some(0b00001_00010_00010_00010_00010_00010_00001u64),
        ')' => Some(0b01000_00100_00100_00100_00100_00100_01000u64),
        '*' => Some(0b00000_00100_10101_01110_10101_00100_00000u64),
        '+' => Some(0b00000_00100_00100_11111_00100_00100_00000u64),
        ',' => Some(0b00000_00000_00000_00000_00000_00001_00010u64),
        '-' => Some(0b00000_00000_00000_11111_00000_00000_00000u64),
        '.' => Some(0b00000_00000_00000_00000_00000_00000_00001u64),
        '/' => Some(0b00001_00010_00010_00100_01000_01000_10000u64),
        '0' => Some(0b01110_10001_10011_10101_11001_10001_01110u64),
        '1' => Some(0b00100_01100_00100_00100_00100_00100_01110u64),
        '2' => Some(0b01110_10001_00001_00010_00100_01000_11111u64),
        '3' => Some(0b11111_00010_00100_00010_00001_10001_01110u64),
        '4' => Some(0b00010_00110_01010_10010_11111_00010_00010u64),
        '5' => Some(0b11111_10000_11110_00001_00001_10001_01110u64),
        '6' => Some(0b00110_01000_10000_11110_10001_10001_01110u64),
        '7' => Some(0b11111_00001_00010_00100_01000_01000_01000u64),
        '8' => Some(0b01110_10001_10001_01110_10001_10001_01110u64),
        '9' => Some(0b01110_10001_10001_01111_00001_00010_01100u64),
        ':' => Some(0b00000_00000_00001_00000_00000_00001_00000u64),
        ';' => Some(0b00000_00000_00001_00000_00000_00001_00010u64),
        '<' => Some(0b00010_00100_01000_10000_01000_00100_00010u64),
        '=' => Some(0b00000_00000_11111_00000_11111_00000_00000u64),
        '>' => Some(0b01000_00100_00010_00001_00010_00100_01000u64),
        '?' => Some(0b01110_10001_00001_00010_00100_00000_00100u64),
        '@' => Some(0b01110_10001_10111_10101_10111_10000_01110u64),
        'A' => Some(0b01110_10001_10001_11111_10001_10001_10001u64),
        'B' => Some(0b11110_10001_10001_11110_10001_10001_11110u64),
        'C' => Some(0b01110_10001_10000_10000_10000_10001_01110u64),
        'D' => Some(0b11110_10001_10001_10001_10001_10001_11110u64),
        'E' => Some(0b11111_10000_10000_11110_10000_10000_11111u64),
        'F' => Some(0b11111_10000_10000_11110_10000_10000_10000u64),
        'G' => Some(0b01110_10001_10000_10111_10001_10001_01111u64),
        'H' => Some(0b10001_10001_10001_11111_10001_10001_10001u64),
        'I' => Some(0b01110_00100_00100_00100_00100_00100_01110u64),
        'J' => Some(0b00111_00010_00010_00010_00010_10010_01100u64),
        'K' => Some(0b10001_10010_10100_11000_10100_10010_10001u64),
        'L' => Some(0b10000_10000_10000_10000_10000_10000_11111u64),
        'M' => Some(0b10001_11011_10101_10101_10001_10001_10001u64),
        'N' => Some(0b10001_10001_11001_10101_10011_10001_10001u64),
        'O' => Some(0b01110_10001_10001_10001_10001_10001_01110u64),
        'P' => Some(0b11110_10001_10001_11110_10000_10000_10000u64),
        'Q' => Some(0b01110_10001_10001_10001_10101_10010_01101u64),
        'R' => Some(0b11110_10001_10001_11110_10100_10010_10001u64),
        'S' => Some(0b01111_10000_10000_01110_00001_00001_11110u64),
        'T' => Some(0b11111_00100_00100_00100_00100_00100_00100u64),
        'U' => Some(0b10001_10001_10001_10001_10001_10001_01110u64),
        'V' => Some(0b10001_10001_10001_10001_10001_01010_00100u64),
        'W' => Some(0b10001_10001_10001_10101_10101_11011_10001u64),
        'X' => Some(0b10001_10001_01010_00100_01010_10001_10001u64),
        'Y' => Some(0b10001_10001_01010_00100_00100_00100_00100u64),
        'Z' => Some(0b11111_00001_00010_00100_01000_10000_11111u64),
        '[' => Some(0b01110_01000_01000_01000_01000_01000_01110u64),
        '\\' => Some(0b10000_01000_01000_00100_00010_00010_00001u64),
        ']' => Some(0b01110_00010_00010_00010_00010_00010_01110u64),
        '^' => Some(0b00100_01010_10001_00000_00000_00000_00000u64),
        '_' => Some(0b00000_00000_00000_00000_00000_00000_11111u64),
        _ => None,
    }
}

/// The font covers exactly the characters from `' '` to `'_'`.
pub proof fn lemma_glyph_coverage(ch: char)
    ensures
        glyph_bits(ch) is Some <==> (' ' <= ch && ch <= '_'),
{
}

/// Every glyph fits in its 35-bit 5×7 cell.
pub proof fn lemma_glyph_fits_cell(ch: char)
    ensures
        glyph_bits(ch) matches Some(b) ==> b < 0x8_0000_0000u64,
{
}

} // verus!
