//! Text: bitmap fonts, character widths and text extents, text output
//! through a DC, text metrics, and font selection and creation.
//!
//! Text is drawn into the surface a DC draws on, one glyph cell after the
//! other. Cells of proportional characters overlap, so a pixel keeps the
//! colour of the last cell that covers it.

use vstd::prelude::*;
use crate::win32k::objects::{Rect, GdiState, GdiObject, GdiCreateFont, face_name_after, allocate_post, new_entry_spec,
    GdiObjectType};
use crate::win32k::dc::{DcObject, SizeL, TA_RIGHT};
use crate::win32k::surface::{GdiSurface, SurfaceTable, pixel_written};
use crate::win32k::gdi_ops::{surface_changed, dc_surface_addr};

verus! {

// =============================================================================
// Font metrics structures
// =============================================================================

/// TEXTMETRIC structure.
#[derive(Clone, Copy, Debug)]
#[allow(non_camel_case_types)]
pub struct TEXTMETRICW {
    pub tm_height: i32,
    pub tm_ascent: i32,
    pub tm_descent: i32,
    pub tm_internal_leading: i32,
    pub tm_external_leading: i32,
    pub tm_ave_char_width: i32,
    pub tm_max_char_width: i32,
    pub tm_weight: i32,
    pub tm_overhang: i32,
    pub tm_hanged_char_width: i32,
    pub tm_first_char: u16,
    pub tm_default_char: u16,
    pub tm_break_char: u16,
    pub tm_default_align: u8,
    pub tm_char_set: u8,
    pub tm_flags: u16,
}

/// The metrics of the system font: 16 pixels high (14 above the baseline,
/// 2 below), 8 wide, normal weight, characters from the space.
pub open spec fn system_metrics() -> TEXTMETRICW {
    TEXTMETRICW {
        tm_height: 16,
        tm_ascent: 14,
        tm_descent: 2,
        tm_internal_leading: 0,
        tm_external_leading: 2,
        tm_ave_char_width: 8,
        tm_max_char_width: 8,
        tm_weight: 400,
        tm_overhang: 0,
        tm_hanged_char_width: 0,
        tm_first_char: 0x20,
        tm_default_char: 0x1F,
        tm_break_char: 0x20,
        tm_default_align: 0,
        tm_char_set: 0,
        tm_flags: 0,
    }
}

impl TEXTMETRICW {
    /// The system font's metrics.
    pub fn new() -> (r: Self)
        ensures
            r == system_metrics(),
    {
        TEXTMETRICW {
            tm_height: 16,
            tm_ascent: 14,
            tm_descent: 2,
            tm_internal_leading: 0,
            tm_external_leading: 2,
            tm_ave_char_width: 8,
            tm_max_char_width: 8,
            tm_weight: 400,
            tm_overhang: 0,
            tm_hanged_char_width: 0,
            tm_first_char: 0x20,
            tm_default_char: 0x1F,
            tm_break_char: 0x20,
            tm_default_align: 0,
            tm_char_set: 0,
            tm_flags: 0,
        }
    }
}

/// ABC character width metrics.
#[derive(Clone, Copy, Debug)]
#[allow(non_snake_case, non_camel_case_types)]
pub struct ABC {
    /// Left side bearing.
    pub abcA: i32,
    /// Width of the character.
    pub abcB: u32,
    /// Right side bearing.
    pub abcC: i32,
}

/// LOGFONT structure.
#[derive(Clone, Copy, Debug)]
#[allow(non_camel_case_types)]
pub struct LOGFONTW {
    pub lf_height: i32,
    pub lf_width: i32,
    pub lf_escapement: i32,
    pub lf_orientation: i32,
    pub lf_weight: i32,
    pub lf_italic: u8,
    pub lf_underline: u8,
    pub lf_strike_out: u8,
    pub lf_char_set: u8,
    pub lf_out_precision: u8,
    pub lf_clip_precision: u8,
    pub lf_quality: u8,
    pub lf_pitch_and_family: u8,
    pub lf_face_name: [u16; 32],
}

impl LOGFONTW {
    /// A font description with every field 0.
    pub fn new() -> (r: Self)
        ensures
            r.lf_height == 0 && r.lf_width == 0 && r.lf_escapement == 0 && r.lf_orientation == 0,
            r.lf_weight == 0 && r.lf_italic == 0 && r.lf_underline == 0 && r.lf_strike_out == 0,
            r.lf_char_set == 0 && r.lf_out_precision == 0 && r.lf_clip_precision == 0,
            r.lf_quality == 0 && r.lf_pitch_and_family == 0,
            forall|i: int| 0 <= i < 32 ==> r.lf_face_name@[i] == 0,
    {
        LOGFONTW {
            lf_height: 0,
            lf_width: 0,
            lf_escapement: 0,
            lf_orientation: 0,
            lf_weight: 0,
            lf_italic: 0,
            lf_underline: 0,
            lf_strike_out: 0,
            lf_char_set: 0,
            lf_out_precision: 0,
            lf_clip_precision: 0,
            lf_quality: 0,
            lf_pitch_and_family: 0,
            lf_face_name: [0u16; 32],
        }
    }
}

// =============================================================================
// Bitmap fonts
// =============================================================================

/// The eight rows of glyph `idx` of the 8 x 8 font, first row in the high
/// byte. Row `r` of glyph `i` is byte `8 * i + r` of the font's byte table
/// (0 past its end).
pub open spec fn glyph8_bits(idx: usize) -> u64 {
    match idx {
        0 => 0x0000000000000000,
        1 => 0x1818181818001800,
        2 => 0x6C6C240000000000,
        3 => 0x247E24247E240000,
        4 => 0x042E683C0E7B0000,
        5 => 0x60660C1830660600,
        6 => 0x3C663C3867663F00,
        7 => 0x1818080000000000,
        8 => 0x0810202020100800,
        9 => 0x0804020202040800,
        10 => 0x00663CFF3C660000,
        11 => 0x0018187E18180000,
        12 => 0x0000000000181000,
        13 => 0x0000007E00000000,
        14 => 0x0000000000181800,
        15 => 0x02060C1830600000,
        16 => 0x3C666E7666663C00,
        17 => 0x1838181818187E00,
        18 => 0x3C66061C30607E00,
        19 => 0x3C66061C06663C00,
        20 => 0x060E1E667F060600,
        21 => 0x7E607C0606663C00,
        22 => 0x1C30607C66663C00,
        23 => 0x7E660C1818181800,
        24 => 0x3C66663C66663C00,
        25 => 0x3C66663E060C3800,
        26 => 0x0018180018180000,
        27 => 0x0018180018181000,
        28 => 0x0810204020100800,
        29 => 0x00007E007E000000,
        30 => 0x0804020102040800,
        31 => 0x3C66061C18001800,
        32 => 0x3C666E6E60623C00,
        33 => 0x182442427E424200,
        34 => 0x7C42427C42427C00,
        35 => 0x3C66606060663C00,
        36 => 0x786C6666666C7800,
        37 => 0x7E60607C60607E00,
        38 => 0x7E60607C60606000,
        39 => 0x3C66606E66663E00,
        40 => 0x6666667E66666600,
        41 => 0x7E18181818187E00,
        42 => 0x1F0C0C0C0C6C3800,
        43 => 0x666C7870786C6600,
        44 => 0x6060606060607E00,
        45 => 0x63777F6B63636300,
        46 => 0x66767E7E6E666600,
        47 => 0x3C66666666663C00,
        48 => 0x7C66667C60606000,
        49 => 0x3C666666666F3D00,
        50 => 0x7C66667C6C666600,
        51 => 0x3C66603C06663C00,
        52 => 0x7E18181818181800,
        53 => 0x6666666666663C00,
        54 => 0x66666666663C1800,
        55 => 0x6363636B7F776300,
        56 => 0x66663C183C666600,
        57 => 0x6666663C18181800,
        58 => 0x7E060C1830607E00,
        59 => 0x00003C667E603C00,
        60 => 0x60607C6666667C00,
        61 => 0x00003C6660663C00,
        62 => 0x06063E6666663E00,
        63 => 0x00003C667E603C00,
        64 => 0x1C30307E30303000,
        65 => 0x00003E66663E063C,
        66 => 0x60606C7666666600,
        67 => 0x1800381818183C00,
        68 => 0x0C001C0C0C0C6C38,
        69 => 0x6060666C786C6600,
        70 => 0x3818181818183C00,
        71 => 0x00006E7F7F6B6300,
        72 => 0x00007C6666666600,
        73 => 0x00003C6666663C00,
        74 => 0x00007C66667C6060,
        75 => 0x00003E66663E0606,
        76 => 0x00006C7660606000,
        77 => 0x00003C6630663C00,
        78 => 0x30307C3030301C00,
        79 => 0x0000666666663E00,
        80 => 0x00006666663C1800,
        81 => 0x0000636B7F7F3600,
        82 => 0x0000663C183C6600,
        83 => 0x00006666663E063C,
        84 => 0x00007E0C18307E00,
        85 => 0x0000000000000000,
        86 => 0x0000000000000000,
        87 => 0x0000000000000000,
        88 => 0x0000000000000000,
        89 => 0x0000000000000000,
        90 => 0x0000000000000000,
        _ => 0,
    }
}

fn glyph8(idx: usize) -> (g: u64)
    ensures
        g == glyph8_bits(idx),
{
    match idx {
        0 => 0x0000000000000000,
        1 => 0x1818181818001800,
        2 => 0x6C6C240000000000,
        3 => 0x247E24247E240000,
        4 => 0x042E683C0E7B0000,
        5 => 0x60660C1830660600,
        6 => 0x3C663C3867663F00,
        7 => 0x1818080000000000,
        8 => 0x0810202020100800,
        9 => 0x0804020202040800,
        10 => 0x00663CFF3C660000,
        11 => 0x0018187E18180000,
        12 => 0x0000000000181000,
        13 => 0x0000007E00000000,
        14 => 0x0000000000181800,
        15 => 0x02060C1830600000,
        16 => 0x3C666E7666663C00,
        17 => 0x1838181818187E00,
        18 => 0x3C66061C30607E00,
        19 => 0x3C66061C06663C00,
        20 => 0x060E1E667F060600,
        21 => 0x7E607C0606663C00,
        22 => 0x1C30607C66663C00,
        23 => 0x7E660C1818181800,
        24 => 0x3C66663C66663C00,
        25 => 0x3C66663E060C3800,
        26 => 0x0018180018180000,
        27 => 0x0018180018181000,
        28 => 0x0810204020100800,
        29 => 0x00007E007E000000,
        30 => 0x0804020102040800,
        31 => 0x3C66061C18001800,
        32 => 0x3C666E6E60623C00,
        33 => 0x182442427E424200,
        34 => 0x7C42427C42427C00,
        35 => 0x3C66606060663C00,
        36 => 0x786C6666666C7800,
        37 => 0x7E60607C60607E00,
        38 => 0x7E60607C60606000,
        39 => 0x3C66606E66663E00,
        40 => 0x6666667E66666600,
        41 => 0x7E18181818187E00,
        42 => 0x1F0C0C0C0C6C3800,
        43 => 0x666C7870786C6600,
        44 => 0x6060606060607E00,
        45 => 0x63777F6B63636300,
        46 => 0x66767E7E6E666600,
        47 => 0x3C66666666663C00,
        48 => 0x7C66667C60606000,
        49 => 0x3C666666666F3D00,
        50 => 0x7C66667C6C666600,
        51 => 0x3C66603C06663C00,
        52 => 0x7E18181818181800,
        53 => 0x6666666666663C00,
        54 => 0x66666666663C1800,
        55 => 0x6363636B7F776300,
        56 => 0x66663C183C666600,
        57 => 0x6666663C18181800,
        58 => 0x7E060C1830607E00,
        59 => 0x00003C667E603C00,
        60 => 0x60607C6666667C00,
        61 => 0x00003C6660663C00,
        62 => 0x06063E6666663E00,
        63 => 0x00003C667E603C00,
        64 => 0x1C30307E30303000,
        65 => 0x00003E66663E063C,
        66 => 0x60606C7666666600,
        67 => 0x1800381818183C00,
        68 => 0x0C001C0C0C0C6C38,
        69 => 0x6060666C786C6600,
        70 => 0x3818181818183C00,
        71 => 0x00006E7F7F6B6300,
        72 => 0x00007C6666666600,
        73 => 0x00003C6666663C00,
        74 => 0x00007C66667C6060,
        75 => 0x00003E66663E0606,
        76 => 0x00006C7660606000,
        77 => 0x00003C6630663C00,
        78 => 0x30307C3030301C00,
        79 => 0x0000666666663E00,
        80 => 0x00006666663C1800,
        81 => 0x0000636B7F7F3600,
        82 => 0x0000663C183C6600,
        83 => 0x00006666663E063C,
        84 => 0x00007E0C18307E00,
        85 => 0x0000000000000000,
        86 => 0x0000000000000000,
        87 => 0x0000000000000000,
        88 => 0x0000000000000000,
        89 => 0x0000000000000000,
        90 => 0x0000000000000000,
        _ => 0,
    }
}

/// The sixteen rows of glyph `idx` of the 16 x 16 font, first row in the
/// high byte. Row `r` of glyph `i` is byte `16 * i + r` of the font's byte
/// table.
pub open spec fn glyph16_bits(idx: usize) -> u128 {
    match idx {
        0 => 0x00000000000000000000000000000000,
        1 => 0x00000000000000F8F800000000000000,
        2 => 0x00000000008080C0C080800000000000,
        3 => 0x00000000404040707040404000000000,
        4 => 0x00000000202020383820202000000000,
        5 => 0x000000001010101C1C10101000000000,
        _ => 0,
    }
}

fn glyph16(idx: usize) -> (g: u128)
    ensures
        g == glyph16_bits(idx),
{
    match idx {
        0 => 0x00000000000000000000000000000000,
        1 => 0x00000000000000F8F800000000000000,
        2 => 0x00000000008080C0C080800000000000,
        3 => 0x00000000404040707040404000000000,
        4 => 0x00000000202020383820202000000000,
        5 => 0x000000001010101C1C10101000000000,
        _ => 0,
    }
}

/// Widths of the characters from the space on, for the 8 x 8 font.
pub open spec fn char_width_table(idx: usize) -> u8 {
    match idx {
        0 => 8,
        1 => 3,
        2 => 4,
        3 => 6,
        4 => 6,
        5 => 6,
        6 => 6,
        7 => 4,
        8 => 3,
        9 => 3,
        10 => 6,
        11 => 6,
        12 => 3,
        13 => 6,
        14 => 3,
        15 => 6,
        16 => 6,
        17 => 6,
        18 => 6,
        19 => 6,
        20 => 6,
        21 => 6,
        22 => 6,
        23 => 6,
        24 => 6,
        25 => 6,
        26 => 3,
        27 => 3,
        28 => 6,
        29 => 6,
        30 => 6,
        31 => 6,
        32 => 6,
        33 => 6,
        34 => 6,
        35 => 6,
        36 => 6,
        37 => 6,
        38 => 6,
        39 => 6,
        40 => 6,
        41 => 6,
        42 => 6,
        43 => 6,
        44 => 6,
        45 => 6,
        46 => 6,
        47 => 6,
        48 => 6,
        49 => 6,
        50 => 6,
        51 => 6,
        52 => 6,
        53 => 6,
        54 => 6,
        55 => 6,
        56 => 6,
        57 => 6,
        58 => 6,
        59 => 6,
        60 => 6,
        61 => 6,
        62 => 6,
        63 => 6,
        64 => 6,
        65 => 6,
        66 => 6,
        67 => 6,
        68 => 6,
        69 => 6,
        70 => 6,
        71 => 6,
        72 => 6,
        73 => 6,
        74 => 6,
        75 => 6,
        76 => 6,
        77 => 6,
        78 => 6,
        79 => 6,
        80 => 6,
        81 => 6,
        82 => 6,
        83 => 6,
        84 => 6,
        85 => 6,
        86 => 6,
        87 => 6,
        88 => 6,
        89 => 6,
        90 => 6,
        91 => 6,
        92 => 6,
        93 => 6,
        94 => 6,
        95 => 6,
        96 => 6,
        97 => 6,
        98 => 6,
        99 => 6,
        100 => 6,
        101 => 6,
        102 => 6,
        103 => 6,
        104 => 6,
        105 => 6,
        106 => 6,
        107 => 6,
        108 => 6,
        109 => 6,
        110 => 6,
        111 => 6,
        _ => 8,
    }
}

fn char_width_at(idx: usize) -> (w: u8)
    ensures
        w == char_width_table(idx),
{
    match idx {
        0 => 8,
        1 => 3,
        2 => 4,
        3 => 6,
        4 => 6,
        5 => 6,
        6 => 6,
        7 => 4,
        8 => 3,
        9 => 3,
        10 => 6,
        11 => 6,
        12 => 3,
        13 => 6,
        14 => 3,
        15 => 6,
        16 => 6,
        17 => 6,
        18 => 6,
        19 => 6,
        20 => 6,
        21 => 6,
        22 => 6,
        23 => 6,
        24 => 6,
        25 => 6,
        26 => 3,
        27 => 3,
        28 => 6,
        29 => 6,
        30 => 6,
        31 => 6,
        32 => 6,
        33 => 6,
        34 => 6,
        35 => 6,
        36 => 6,
        37 => 6,
        38 => 6,
        39 => 6,
        40 => 6,
        41 => 6,
        42 => 6,
        43 => 6,
        44 => 6,
        45 => 6,
        46 => 6,
        47 => 6,
        48 => 6,
        49 => 6,
        50 => 6,
        51 => 6,
        52 => 6,
        53 => 6,
        54 => 6,
        55 => 6,
        56 => 6,
        57 => 6,
        58 => 6,
        59 => 6,
        60 => 6,
        61 => 6,
        62 => 6,
        63 => 6,
        64 => 6,
        65 => 6,
        66 => 6,
        67 => 6,
        68 => 6,
        69 => 6,
        70 => 6,
        71 => 6,
        72 => 6,
        73 => 6,
        74 => 6,
        75 => 6,
        76 => 6,
        77 => 6,
        78 => 6,
        79 => 6,
        80 => 6,
        81 => 6,
        82 => 6,
        83 => 6,
        84 => 6,
        85 => 6,
        86 => 6,
        87 => 6,
        88 => 6,
        89 => 6,
        90 => 6,
        91 => 6,
        92 => 6,
        93 => 6,
        94 => 6,
        95 => 6,
        96 => 6,
        97 => 6,
        98 => 6,
        99 => 6,
        100 => 6,
        101 => 6,
        102 => 6,
        103 => 6,
        104 => 6,
        105 => 6,
        106 => 6,
        107 => 6,
        108 => 6,
        109 => 6,
        110 => 6,
        111 => 6,
        _ => 8,
    }
}

/// Row `row` of glyph `idx` of the 8 x 8 font.
pub open spec fn font8_row(idx: usize, row: int) -> u8 {
    ((glyph8_bits(idx) >> ((8 * (7 - row)) as u64)) & 0xFFu64) as u8
}

/// Row `row` of glyph `idx` of the 16 x 16 font.
pub open spec fn font16_row(idx: usize, row: int) -> u8 {
    ((glyph16_bits(idx) >> ((8 * (15 - row)) as u128)) & 0xFFu128) as u8
}

/// The glyph of `ch` in the 8 x 8 font: from the space to `z`, its
/// distance from the space; the space's otherwise.
pub open spec fn glyph8_index(ch: u8) -> usize {
    if 0x20 <= ch <= 0x7A { (ch - 0x20) as usize } else { 0 }
}

/// The glyph of `ch` in the 16 x 16 font: from `A` to `F`, its distance
/// from `A`; the first glyph otherwise.
pub open spec fn glyph16_index(ch: u8) -> usize {
    if 0x41 <= ch <= 0x46 { (ch - 0x41) as usize } else { 0 }
}

/// The width of `ch` in the 8 x 8 font.
pub open spec fn char_width(ch: u8) -> i32 {
    char_width_table(glyph8_index(ch)) as i32
}

/// A point, its colour, of the glyph cell at `(x, y)`: the text colour
/// where the row's bit for column `col` is set, the background elsewhere.
pub open spec fn cell_px(x: int, y: int, row_bits: u8, fg: u32, bg: u32, row: int, col: int) -> (int, int, u32) {
    (x + col, y + row, if (row_bits >> ((7 - col) as u8)) & 1u8 != 0 { fg } else { bg })
}

/// Columns `0..k` of row `row` of a glyph cell.
pub open spec fn cell_row_pts(x: int, y: int, row_bits: u8, fg: u32, bg: u32, row: int, k: int) -> Seq<(int, int, u32)>
    decreases k,
{
    if k <= 0 { Seq::empty() } else { cell_row_pts(x, y, row_bits, fg, bg, row, k - 1).push(cell_px(x, y, row_bits, fg, bg, row, k - 1)) }
}

/// Rows `0..rows` of the cell of glyph `idx` of the 8 x 8 font.
pub open spec fn cell8_pts(x: int, y: int, idx: usize, fg: u32, bg: u32, rows: int) -> Seq<(int, int, u32)>
    decreases rows,
{
    if rows <= 0 { Seq::empty() } else { cell8_pts(x, y, idx, fg, bg, rows - 1) + cell_row_pts(x, y, font8_row(idx, rows - 1), fg, bg, rows - 1, 8) }
}

/// Rows `0..rows` of the cell of glyph `idx` of the 16 x 16 font (8
/// columns of each row).
pub open spec fn cell16_pts(x: int, y: int, idx: usize, fg: u32, bg: u32, rows: int) -> Seq<(int, int, u32)>
    decreases rows,
{
    if rows <= 0 { Seq::empty() } else { cell16_pts(x, y, idx, fg, bg, rows - 1) + cell_row_pts(x, y, font16_row(idx, rows - 1), fg, bg, rows - 1, 8) }
}

// =============================================================================
// Drawing on a surface: the last write to a pixel stays
// =============================================================================

/// The colour the last of `pts` at `(x, y)` writes, if any does.
pub open spec fn last_write(pts: Seq<(int, int, u32)>, x: int, y: int) -> Option<u32>
    decreases pts.len(),
{
    if pts.len() == 0 {
        None
    } else if pts.last().0 == x && pts.last().1 == y {
        Some(pts.last().2)
    } else {
        last_write(pts.drop_last(), x, y)
    }
}

/// `after` is `before` with each pixel on the surface set to the colour
/// the last of `pts` at it writes (pixels no point writes keep theirs).
pub open spec fn pixels_drawn(before: GdiSurface, after: GdiSurface, pts: Seq<(int, int, u32)>) -> bool {
    &&& before.same_but_pixels(&after)
    &&& forall|px: int, py: int| #[trigger] after.in_bounds(px, py) && after.has_bits() ==>
        after.px(px, py) == match last_write(pts, px, py) {
            Some(c) => c,
            None => before.px(px, py),
        }
}

proof fn lemma_drawn_empty(s: GdiSurface)
    requires
        s.wf(),
    ensures
        pixels_drawn(s, s, Seq::empty()),
{
}

proof fn lemma_drawn_push(s0: GdiSurface, s1: GdiSurface, s2: GdiSurface, pts: Seq<(int, int, u32)>, x: i32, y: i32, c: u32)
    requires
        pixels_drawn(s0, s1, pts),
        pixel_written(s1, s2, x, y, c),
    ensures
        pixels_drawn(s0, s2, pts.push((x as int, y as int, c))),
{
    let p2 = pts.push((x as int, y as int, c));
    assert(p2.drop_last() =~= pts);
    assert forall|px: int, py: int| #[trigger] s2.in_bounds(px, py) && s2.has_bits() implies
        s2.px(px, py) == match last_write(p2, px, py) {
            Some(cc) => cc,
            None => s0.px(px, py),
        } by {
        assert(s1.in_bounds(px, py));
    }
}

proof fn lemma_last_write_append(a: Seq<(int, int, u32)>, b: Seq<(int, int, u32)>, x: int, y: int)
    ensures
        last_write(a + b, x, y) == match last_write(b, x, y) {
            Some(c) => Some(c),
            None => last_write(a, x, y),
        },
    decreases b.len(),
{
    if b.len() == 0 {
        assert(a + b =~= a);
    } else {
        assert((a + b).drop_last() =~= a + b.drop_last());
        assert((a + b).last() == b.last());
        lemma_last_write_append(a, b.drop_last(), x, y);
    }
}

proof fn lemma_drawn_append(s0: GdiSurface, s1: GdiSurface, s2: GdiSurface, a: Seq<(int, int, u32)>, b: Seq<(int, int, u32)>)
    requires
        pixels_drawn(s0, s1, a),
        pixels_drawn(s1, s2, b),
    ensures
        pixels_drawn(s0, s2, a + b),
{
    assert forall|px: int, py: int| #[trigger] s2.in_bounds(px, py) && s2.has_bits() implies
        s2.px(px, py) == match last_write(a + b, px, py) {
            Some(c) => c,
            None => s0.px(px, py),
        } by {
        assert(s1.in_bounds(px, py));
        lemma_last_write_append(a, b, px, py);
    }
}

/// Draw row `row` of a glyph cell (8 columns) at `(x, y)`.
fn draw_cell_row(surface: &mut GdiSurface, x: i32, y: i32, row_bits: u8, fg: u32, bg: u32, row: i32,
    Ghost(s0): Ghost<GdiSurface>, Ghost(done): Ghost<Seq<(int, int, u32)>>)
    requires
        old(surface).wf(),
        0 <= row,
        x + 7 <= i32::MAX,
        y + row <= i32::MAX,
        pixels_drawn(s0, *old(surface), done),
    ensures
        final(surface).wf(),
        pixels_drawn(s0, *final(surface), done + cell_row_pts(x as int, y as int, row_bits, fg, bg, row as int, 8)),
{
    let mut col: i32 = 0;
    assert(done + cell_row_pts(x as int, y as int, row_bits, fg, bg, row as int, 0) =~= done);
    while col < 8
        invariant
            0 <= col <= 8,
            0 <= row,
            x + 7 <= i32::MAX,
            y + row <= i32::MAX,
            surface.wf(),
            pixels_drawn(s0, *surface, done + cell_row_pts(x as int, y as int, row_bits, fg, bg, row as int, col as int)),
        decreases 8 - col,
    {
        let ghost s1 = *surface;
        let ghost d = done + cell_row_pts(x as int, y as int, row_bits, fg, bg, row as int, col as int);
        let bit = (row_bits >> ((7 - col) as u8)) & 1u8;
        let color = if bit != 0 { fg } else { bg };
        let px = x + col;
        let py = y + row;
        let _ = surface.set_pixel(px, py, color);
        proof {
            lemma_drawn_push(s0, s1, *surface, d, px, py, color);
            assert(d.push(((x + col) as int, (y + row) as int, color)) =~= done
                + cell_row_pts(x as int, y as int, row_bits, fg, bg, row as int, col + 1));
        }
        col = col + 1;
    }
}

/// Draw character `ch` of the 8 x 8 font in the 8 x 8 cell at `(x, y)`:
/// glyph bits in `fg_color`, the rest in `bg_color`, row by row.
pub fn draw_char_8x8(surface: &mut GdiSurface, x: i32, y: i32, ch: u8, fg_color: u32, bg_color: u32)
    requires
        old(surface).wf(),
        x + 7 <= i32::MAX,
        y + 7 <= i32::MAX,
    ensures
        final(surface).wf(),
        pixels_drawn(*old(surface), *final(surface), cell8_pts(x as int, y as int, glyph8_index(ch), fg_color, bg_color, 8)),
{
    let ghost s0 = *surface;
    let char_idx: usize = if ch >= 0x20 && ch <= 0x7A { (ch - 0x20) as usize } else { 0 };
    let g = glyph8(char_idx);
    let mut row: i32 = 0;
    proof {
        lemma_drawn_empty(s0);
    }
    while row < 8
        invariant
            0 <= row <= 8,
            char_idx == glyph8_index(ch),
            g == glyph8_bits(char_idx),
            x + 7 <= i32::MAX,
            y + 7 <= i32::MAX,
            surface.wf(),
            pixels_drawn(s0, *surface, cell8_pts(x as int, y as int, char_idx, fg_color, bg_color, row as int)),
        decreases 8 - row,
    {
        let row_data: u8 = ((g >> ((8 * (7 - row)) as u64)) & 0xFFu64) as u8;
        assert(row_data == font8_row(char_idx, row as int));
        draw_cell_row(surface, x, y, row_data, fg_color, bg_color, row, Ghost(s0),
            Ghost(cell8_pts(x as int, y as int, char_idx, fg_color, bg_color, row as int)));
        row = row + 1;
    }
}

/// Draw character `ch` of the 16 x 16 font (8 columns of each of its 16
/// rows) in the cell at `(x, y)`.
pub fn draw_char_16x16(surface: &mut GdiSurface, x: i32, y: i32, ch: u8, fg_color: u32, bg_color: u32)
    requires
        old(surface).wf(),
        x + 7 <= i32::MAX,
        y + 15 <= i32::MAX,
    ensures
        final(surface).wf(),
        pixels_drawn(*old(surface), *final(surface), cell16_pts(x as int, y as int, glyph16_index(ch), fg_color, bg_color, 16)),
{
    let ghost s0 = *surface;
    let char_idx: usize = if ch >= 0x41 && ch <= 0x46 { (ch - 0x41) as usize } else { 0 };
    let g = glyph16(char_idx);
    let mut row: i32 = 0;
    proof {
        lemma_drawn_empty(s0);
    }
    while row < 16
        invariant
            0 <= row <= 16,
            char_idx == glyph16_index(ch),
            g == glyph16_bits(char_idx),
            x + 7 <= i32::MAX,
            y + 15 <= i32::MAX,
            surface.wf(),
            pixels_drawn(s0, *surface, cell16_pts(x as int, y as int, char_idx, fg_color, bg_color, row as int)),
        decreases 16 - row,
    {
        let row_data: u8 = ((g >> ((8 * (15 - row)) as u128)) & 0xFFu128) as u8;
        assert(row_data == font16_row(char_idx, row as int));
        draw_cell_row(surface, x, y, row_data, fg_color, bg_color, row, Ghost(s0),
            Ghost(cell16_pts(x as int, y as int, char_idx, fg_color, bg_color, row as int)));
        row = row + 1;
    }
}

/// The width of character `ch` in the 8 x 8 font.
pub fn get_char_width_8x8(ch: u8) -> (r: i32)
    ensures
        r == char_width(ch),
{
    let idx: usize = if ch >= 0x20 && ch <= 0x7A { (ch - 0x20) as usize } else { 0 };
    char_width_at(idx) as i32
}

/// The width `calc_text_extent` counts for `ch`: its font width when it
/// is printable (space to tilde), 8 otherwise.
pub open spec fn extent_width(ch: u8) -> int {
    if 0x20 <= ch <= 0x7E { char_width(ch) as int } else { 8 }
}

/// The width of the first `n` characters of `text`.
pub open spec fn text_width(text: Seq<u8>, n: int) -> int
    decreases n,
{
    if n <= 0 { 0 } else { text_width(text, n - 1) + extent_width(text[n - 1]) }
}

proof fn lemma_text_width_nonneg(text: Seq<u8>, n: int)
    ensures
        text_width(text, n) >= 0,
    decreases n,
{
    if n > 0 {
        lemma_text_width_nonneg(text, n - 1);
        assert(extent_width(text[n - 1]) >= 0);
    }
}

proof fn lemma_text_width_mono(text: Seq<u8>, a: int, b: int)
    requires
        0 <= a <= b,
    ensures
        text_width(text, a) <= text_width(text, b),
        text_width(text, a) >= 0,
    decreases b,
{
    lemma_text_width_nonneg(text, a);
    if b > a {
        lemma_text_width_mono(text, a, b - 1);
        assert(extent_width(text[b - 1]) >= 0);
    }
}

/// The width and height of `text` (the height is `font_height`). Texts
/// wider than 32 bits allow are left out.
pub fn calc_text_extent(text: &[u8], font_height: i32) -> (r: (i32, i32))
    requires
        text_width(text@, text@.len() as int) <= i32::MAX,
    ensures
        r == (text_width(text@, text@.len() as int) as i32, font_height),
{
    let mut width: i32 = 0;
    let mut i: usize = 0;
    while i < text.len()
        invariant
            i <= text@.len(),
            width == text_width(text@, i as int),
            text_width(text@, text@.len() as int) <= i32::MAX,
        decreases text@.len() - i,
    {
        let ch = text[i];
        proof {
            lemma_text_width_mono(text@, i + 1, text@.len() as int);
        }
        let w: i32 = if ch >= 0x20 && ch <= 0x7E { get_char_width_8x8(ch) } else { 8 };
        assert(char_width_table(glyph8_index(ch)) <= 8) by {
            assert(char_width_table(glyph8_index(ch)) <= 8);
        }
        width = width + w;
        i = i + 1;
    }
    (width, font_height)
}



// =============================================================================
// Text output through a DC
// =============================================================================

/// A character the text functions draw: space to tilde.
pub open spec fn printable(ch: u8) -> bool {
    0x20 <= ch <= 0x7E
}

/// The background text is drawn on: the DC's background colour in opaque
/// mode (2), 0 otherwise.
pub open spec fn text_bg(dc: &DcObject) -> u32 {
    if dc.bk_mode == 2 { dc.bg_color } else { 0 }
}

/// How far the pen has moved after the first `n` characters: the widths
/// of the printable ones.
pub open spec fn advance(text: Seq<u8>, n: int) -> int
    decreases n,
{
    if n <= 0 { 0 } else { advance(text, n - 1) + if printable(text[n - 1]) { char_width(text[n - 1]) as int } else { 0 } }
}

/// The points `GreTextOut` writes for the first `n` characters: the cell
/// of each printable one where the pen stands.
pub open spec fn text_out_pts(x: int, y: int, text: Seq<u8>, fg: u32, bg: u32, n: int) -> Seq<(int, int, u32)>
    decreases n,
{
    if n <= 0 {
        Seq::empty()
    } else {
        text_out_pts(x, y, text, fg, bg, n - 1) + if printable(text[n - 1]) {
            cell8_pts(x + advance(text, n - 1), y, glyph8_index(text[n - 1]), fg, bg, 8)
        } else {
            Seq::empty()
        }
    }
}

/// The pen stays within 32 bits, and so does every cell drawn.
pub open spec fn text_out_fits(x: i32, y: i32, text: Seq<u8>) -> bool {
    &&& x + advance(text, text.len() as int) <= i32::MAX
    &&& forall|i: int| 0 <= i < text.len() && printable(#[trigger] text[i]) ==>
        x + advance(text, i) + 7 <= i32::MAX && y + 7 <= i32::MAX
}

proof fn lemma_advance_mono(text: Seq<u8>, a: int, b: int)
    requires
        0 <= a <= b,
    ensures
        0 <= advance(text, a) <= advance(text, b),
    decreases b,
{
    if b > a {
        lemma_advance_mono(text, a, b - 1);
    } else {
        lemma_advance_nonneg(text, a);
    }
}

proof fn lemma_advance_nonneg(text: Seq<u8>, n: int)
    ensures
        advance(text, n) >= 0,
    decreases n,
{
    if n > 0 {
        lemma_advance_nonneg(text, n - 1);
    }
}

/// Draw `text` on the surface of a DC from `(x, y)`: each printable
/// character's 8 x 8 cell in the DC's text colour on its background, the
/// pen moving by the character's width. False, with nothing drawn, when
/// the DC has no surface.
#[allow(non_snake_case)]
pub fn GreTextOut(surfaces: &mut SurfaceTable, dc: &DcObject, x: i32, y: i32, text: &[u8]) -> (r: bool)
    requires
        old(surfaces).wf(),
        old(surfaces).at(dc_surface_addr(dc, old(surfaces).primary)) is Some ==> text_out_fits(x, y, text@),
    ensures
        r == old(surfaces).at(dc_surface_addr(dc, old(surfaces).primary)) is Some,
        surface_changed(old(surfaces), final(surfaces), dc_surface_addr(dc, old(surfaces).primary),
            |s: GdiSurface, s2: GdiSurface| pixels_drawn(s, s2,
                text_out_pts(x as int, y as int, text@, dc.text_color, text_bg(dc), text@.len() as int))),
{
    let a = crate::win32k::gdi_ops::get_dc_surface(dc, surfaces);
    let fg_color = dc.text_color;
    let bg_color = if dc.bk_mode == 2 { dc.bg_color } else { 0 };
    match surfaces.take(a) {
        Some(mut s) => {
            let ghost s0 = s;
            proof {
                lemma_drawn_empty(s0);
            }
            let mut cursor_x: i32 = x;
            let mut i: usize = 0;
            while i < text.len()
                invariant
                    i <= text@.len(),
                    cursor_x == x + advance(text@, i as int),
                    text_out_fits(x, y, text@),
                    s.wf(),
                    pixels_drawn(s0, s, text_out_pts(x as int, y as int, text@, fg_color, bg_color, i as int)),
                decreases text@.len() - i,
            {
                let ch = text[i];
                proof {
                    lemma_advance_mono(text@, i + 1, text@.len() as int);
                }
                if ch >= 0x20 && ch <= 0x7E {
                    let ghost s1 = s;
                    assert(printable(text@[i as int]));
                    draw_char_8x8(&mut s, cursor_x, y, ch, fg_color, bg_color);
                    proof {
                        lemma_drawn_append(s0, s1, s,
                            text_out_pts(x as int, y as int, text@, fg_color, bg_color, i as int),
                            cell8_pts(cursor_x as int, y as int, glyph8_index(ch), fg_color, bg_color, 8));
                    }
                    let w = get_char_width_8x8(ch);
                    cursor_x = cursor_x + w;
                } else {
                    proof {
                        assert(text_out_pts(x as int, y as int, text@, fg_color, bg_color, i + 1)
                            =~= text_out_pts(x as int, y as int, text@, fg_color, bg_color, i as int));
                    }
                }
                i = i + 1;
            }
            surfaces.put(a, s);
            true
        },
        None => false,
    }
}

/// The character `GreExtTextOut` draws for a UTF-16 unit: itself below
/// 128, `?` otherwise.
pub open spec fn to_ascii(c: u16) -> u8 {
    if c < 128 { c as u8 } else { 0x3F }
}

/// The characters `GreExtTextOut` draws: the first 256 units, each as
/// `to_ascii` gives it.
pub open spec fn ext_ascii(text: Seq<u16>) -> Seq<u8> {
    let n = if text.len() < 256 { text.len() } else { 256 };
    Seq::new(n, |i: int| to_ascii(text[i]))
}

/// The advance of character `i`: the given spacing when there is one for
/// it, its font width otherwise.
pub open spec fn ext_width(ascii: Seq<u8>, dx: Option<Seq<i32>>, i: int) -> int {
    match dx {
        Some(d) => if i < d.len() { d[i] as int } else { char_width(ascii[i]) as int },
        None => char_width(ascii[i]) as int,
    }
}

/// The advances of the first `n` characters, printable or not.
pub open spec fn ext_total(ascii: Seq<u8>, dx: Option<Seq<i32>>, n: int) -> int
    decreases n,
{
    if n <= 0 { 0 } else { ext_total(ascii, dx, n - 1) + ext_width(ascii, dx, n - 1) }
}

/// The advances of the printable ones among the first `n` characters.
pub open spec fn ext_advance(ascii: Seq<u8>, dx: Option<Seq<i32>>, n: int) -> int
    decreases n,
{
    if n <= 0 { 0 } else { ext_advance(ascii, dx, n - 1) + if printable(ascii[n - 1]) { ext_width(ascii, dx, n - 1) } else { 0 } }
}

/// Where the pen starts: at `x`, or, right-aligned, at `x` less the
/// total advance.
pub open spec fn ext_start(x: i32, ascii: Seq<u8>, dx: Option<Seq<i32>>, right: bool) -> int {
    if right { x - ext_total(ascii, dx, ascii.len() as int) } else { x as int }
}

/// The points `GreExtTextOut` writes for the first `n` characters.
pub open spec fn ext_pts(start: int, y: int, ascii: Seq<u8>, dx: Option<Seq<i32>>, fg: u32, bg: u32, n: int) -> Seq<(int, int, u32)>
    decreases n,
{
    if n <= 0 {
        Seq::empty()
    } else {
        ext_pts(start, y, ascii, dx, fg, bg, n - 1) + if printable(ascii[n - 1]) {
            cell8_pts(start + ext_advance(ascii, dx, n - 1), y, glyph8_index(ascii[n - 1]), fg, bg, 8)
        } else {
            Seq::empty()
        }
    }
}

/// Every sum `GreExtTextOut` forms stays within 32 bits, and so does every
/// cell it draws.
pub open spec fn ext_fits(x: i32, y: i32, ascii: Seq<u8>, dx: Option<Seq<i32>>, right: bool) -> bool {
    let start = ext_start(x, ascii, dx, right);
    &&& right ==> forall|n: int| 0 <= n <= ascii.len() ==> i32::MIN <= #[trigger] ext_total(ascii, dx, n) <= i32::MAX
    &&& i32::MIN <= start <= i32::MAX
    &&& forall|n: int| 0 <= n <= ascii.len() ==> i32::MIN <= start + #[trigger] ext_advance(ascii, dx, n) <= i32::MAX
    &&& forall|i: int| 0 <= i < ascii.len() && printable(#[trigger] ascii[i]) ==>
        start + ext_advance(ascii, dx, i) + 7 <= i32::MAX && y + 7 <= i32::MAX
}

/// Draw UTF-16 text on the surface of a DC from `(x, y)`: the first 256
/// units, each drawn as `to_ascii` gives it; each printable one's cell in
/// the DC's text colour, the pen moving by the given spacing (or the
/// character's width). With right alignment the pen starts the total
/// advance to the left of `x`. The options and clip rectangle change
/// nothing. False, with nothing drawn, when the DC has no surface.
#[allow(non_snake_case)]
pub fn GreExtTextOut(surfaces: &mut SurfaceTable, dc: &DcObject, x: i32, y: i32, options: u32, clip_rect: Option<&Rect>,
    text: &[u16], dx: Option<&[i32]>) -> (r: bool)
    requires
        old(surfaces).wf(),
        old(surfaces).at(dc_surface_addr(dc, old(surfaces).primary)) is Some ==> ext_fits(x, y, ext_ascii(text@),
            match dx { Some(d) => Some(d@), None => None }, dc.text_align & TA_RIGHT != 0),
    ensures
        r == old(surfaces).at(dc_surface_addr(dc, old(surfaces).primary)) is Some,
        surface_changed(old(surfaces), final(surfaces), dc_surface_addr(dc, old(surfaces).primary),
            |s: GdiSurface, s2: GdiSurface| {
                let ascii = ext_ascii(text@);
                let d = match dx { Some(d) => Some(d@), None => None };
                pixels_drawn(s, s2, ext_pts(ext_start(x, ascii, d, dc.text_align & TA_RIGHT != 0), y as int, ascii, d,
                    dc.text_color, text_bg(dc), ascii.len() as int))
            }),
{
    let a = crate::win32k::gdi_ops::get_dc_surface(dc, surfaces);
    let fg_color = dc.text_color;
    let bg_color = if dc.bk_mode == 2 { dc.bg_color } else { 0 };
    let ghost gdx: Option<Seq<i32>> = match dx { Some(d) => Some(d@), None => None };
    let right = dc.text_align & TA_RIGHT != 0;
    match surfaces.take(a) {
        Some(mut s) => {
            let n = if text.len() < 256 { text.len() } else { 256 };
            let mut ascii: Vec<u8> = Vec::new();
            let mut k: usize = 0;
            while k < n
                invariant
                    k <= n,
                    n == (if text@.len() < 256 { text@.len() } else { 256 }),
                    ascii@.len() == k,
                    forall|j: int| 0 <= j < k ==> ascii@[j] == to_ascii(text@[j]),
                decreases n - k,
            {
                let c = text[k];
                ascii.push(if c < 128 { c as u8 } else { 0x3F });
                k = k + 1;
            }
            assert(ascii@ =~= ext_ascii(text@));
            let ghost asc = ascii@;
            let mut cursor_x: i32 = x;
            if right {
                let mut total: i32 = 0;
                let mut j: usize = 0;
                while j < ascii.len()
                    invariant
                        j <= asc.len(),
                        ascii@ == asc,
                        total == ext_total(asc, gdx, j as int),
                        gdx == match dx { Some(d) => Some(d@), None => None::<Seq<i32>> },
                        forall|m: int| 0 <= m <= asc.len() ==> i32::MIN <= #[trigger] ext_total(asc, gdx, m) <= i32::MAX,
                    decreases asc.len() - j,
                {
                    let ch = ascii[j];
                    let w: i32 = match dx {
                        Some(d) => if j < d.len() { d[j] } else { get_char_width_8x8(ch) },
                        None => get_char_width_8x8(ch),
                    };
                    assert(ext_total(asc, gdx, j + 1) == total + w);
                    total = total + w;
                    j = j + 1;
                }
                cursor_x = x - total;
            }
            let ghost start = ext_start(x, asc, gdx, right);
            let ghost s0 = s;
            proof {
                lemma_drawn_empty(s0);
            }
            let mut i: usize = 0;
            while i < ascii.len()
                invariant
                    i <= asc.len(),
                    ascii@ == asc,
                    gdx == match dx { Some(d) => Some(d@), None => None::<Seq<i32>> },
                    ext_fits(x, y, asc, gdx, right),
                    start == ext_start(x, asc, gdx, right),
                    cursor_x == start + ext_advance(asc, gdx, i as int),
                    s.wf(),
                    pixels_drawn(s0, s, ext_pts(start, y as int, asc, gdx, fg_color, bg_color, i as int)),
                decreases asc.len() - i,
            {
                let ch = ascii[i];
                if ch >= 0x20 && ch <= 0x7E {
                    let ghost s1 = s;
                    assert(printable(asc[i as int]));
                    draw_char_8x8(&mut s, cursor_x, y, ch, fg_color, bg_color);
                    proof {
                        lemma_drawn_append(s0, s1, s,
                            ext_pts(start, y as int, asc, gdx, fg_color, bg_color, i as int),
                            cell8_pts(cursor_x as int, y as int, glyph8_index(ch), fg_color, bg_color, 8));
                    }
                    let w: i32 = match dx {
                        Some(d) => if i < d.len() { d[i] } else { get_char_width_8x8(ch) },
                        None => get_char_width_8x8(ch),
                    };
                    assert(ext_advance(asc, gdx, i + 1) == ext_advance(asc, gdx, i as int) + w);
                    assert(i32::MIN <= start + ext_advance(asc, gdx, i + 1) <= i32::MAX);
                    cursor_x = cursor_x + w;
                } else {
                    proof {
                        assert(ext_pts(start, y as int, asc, gdx, fg_color, bg_color, i + 1)
                            =~= ext_pts(start, y as int, asc, gdx, fg_color, bg_color, i as int));
                    }
                }
                i = i + 1;
            }
            surfaces.put(a, s);
            true
        },
        None => false,
    }
}

// =============================================================================
// Text metrics
// =============================================================================

/// The metrics of the DC's font: those of the system font. Always true.
#[allow(non_snake_case)]
pub fn GreGetTextMetrics(dc: &DcObject, tm: &mut TEXTMETRICW) -> (r: bool)
    ensures
        r,
        *final(tm) == system_metrics(),
{
    *tm = TEXTMETRICW::new();
    true
}

/// The ABC widths of the characters `first..=last` (each taken modulo
/// 256): no bearings, the 8 x 8 font's width; written to `widths` as far
/// as it reaches. Always true.
#[allow(non_snake_case)]
pub fn GreGetCharABCWidths(dc: &DcObject, first: u16, last: u16, widths: &mut [ABC]) -> (r: bool)
    ensures
        r,
        final(widths)@.len() == old(widths)@.len(),
        forall|i: int| 0 <= i < old(widths)@.len() ==> #[trigger] final(widths)@[i] == if first + i <= last {
            ABC { abcA: 0, abcB: char_width(((first + i) % 256) as u8) as u32, abcC: 0 }
        } else {
            old(widths)@[i]
        },
{
    if first > last {
        return true;
    }
    let mut ch: u32 = first as u32;
    let mut i: usize = 0;
    while ch <= last as u32
        invariant
            first <= last,
            first <= ch <= last + 1,
            i == ch - first,
            widths@.len() == old(widths)@.len(),
            forall|j: int| 0 <= j < old(widths)@.len() ==> #[trigger] widths@[j] == if j < i {
                ABC { abcA: 0, abcB: char_width(((first + j) % 256) as u8) as u32, abcC: 0 }
            } else {
                old(widths)@[j]
            },
        decreases last + 1 - ch,
    {
        if i < widths.len() {
            let w = get_char_width_8x8((ch % 256) as u8);
            widths[i] = ABC { abcA: 0, abcB: w as u32, abcC: 0 };
        }
        ch = ch + 1;
        i = i + 1;
    }
    true
}

/// The widths of the characters `first..=last` (each taken modulo 256) in
/// the 8 x 8 font, written to `widths` as far as it reaches. Always true.
#[allow(non_snake_case)]
pub fn GreGetCharWidth32(dc: &DcObject, first: u16, last: u16, widths: &mut [i32]) -> (r: bool)
    ensures
        r,
        final(widths)@.len() == old(widths)@.len(),
        forall|i: int| 0 <= i < old(widths)@.len() ==> #[trigger] final(widths)@[i] == if first + i <= last {
            char_width(((first + i) % 256) as u8)
        } else {
            old(widths)@[i]
        },
{
    if first > last {
        return true;
    }
    let mut ch: u32 = first as u32;
    let mut i: usize = 0;
    while ch <= last as u32
        invariant
            first <= last,
            first <= ch <= last + 1,
            i == ch - first,
            widths@.len() == old(widths)@.len(),
            forall|j: int| 0 <= j < old(widths)@.len() ==> #[trigger] widths@[j] == if j < i {
                char_width(((first + j) % 256) as u8)
            } else {
                old(widths)@[j]
            },
        decreases last + 1 - ch,
    {
        if i < widths.len() {
            widths[i] = get_char_width_8x8((ch % 256) as u8);
        }
        ch = ch + 1;
        i = i + 1;
    }
    true
}

/// The extent of `text` in the system font: its width and 16. Always true.
/// Texts wider than 32 bits allow are left out.
#[allow(non_snake_case)]
pub fn GreGetTextExtentPoint(dc: &DcObject, text: &[u8], extent: &mut SizeL) -> (r: bool)
    requires
        text_width(text@, text@.len() as int) <= i32::MAX,
    ensures
        r,
        *final(extent) == (SizeL { cx: text_width(text@, text@.len() as int) as i32, cy: 16 }),
{
    let (width, height) = calc_text_extent(text, 16);
    extent.cx = width;
    extent.cy = height;
    true
}

/// The extent of `text` in the system font: its width and 16. Always true.
/// Texts wider than 32 bits allow are left out.
#[allow(non_snake_case)]
pub fn GreGetTextExtentPoint32(dc: &DcObject, text: &[u8], extent: &mut SizeL) -> (r: bool)
    requires
        text_width(text@, text@.len() as int) <= i32::MAX,
    ensures
        r,
        *final(extent) == (SizeL { cx: text_width(text@, text@.len() as int) as i32, cy: 16 }),
{
    let (width, height) = calc_text_extent(text, 16);
    extent.cx = width;
    extent.cy = height;
    true
}

// =============================================================================
// Font selection and creation
// =============================================================================

/// Select a font into a DC, giving back the font selected before.
#[allow(non_snake_case)]
pub fn GreSelectFont(dc: &mut DcObject, font_handle: u64) -> (r: u64)
    ensures
        r == old(dc).font,
        *final(dc) == (DcObject { font: font_handle, ..*old(dc) }),
{
    let old_font = dc.font;
    dc.font = font_handle;
    old_font
}

/// The font selected into a DC.
#[allow(non_snake_case)]
pub fn GreGetCurrentFont(dc: &DcObject) -> (r: u64)
    ensures
        r == dc.font,
{
    dc.font
}

/// Create a font from a LOGFONT: its height, width, weight, italic flag
/// and face name.
#[allow(non_snake_case)]
pub fn GreCreateFontIndirect(gdi: &mut GdiState, lf: &LOGFONTW) -> (r: u64)
    requires
        old(gdi).objects@.len() < u64::MAX,
    ensures
        final(gdi).objects@.len() == old(gdi).objects@.len() + 1,
        final(gdi).objects@.drop_last() == old(gdi).objects@,
        final(gdi).objects@.last() matches Some(GdiObject::Font(f)) && f.height == lf.lf_height && f.width == lf.lf_width
            && f.weight == lf.lf_weight && f.italic == (if lf.lf_italic != 0 { 1u8 } else { 0u8 })
            && f.face_name@ == face_name_after(Seq::new(32, |i: int| 0u16), lf.lf_face_name@),
        allocate_post(old(gdi).table.entries@, old(gdi).table.next_index, final(gdi).table.entries@,
            final(gdi).table.next_index, GdiObjectType::Font,
            new_entry_spec(GdiObjectType::Font, final(gdi).objects@.len() as u64, 0), r),
{
    GdiCreateFont(gdi, lf.lf_height, lf.lf_width, lf.lf_weight, lf.lf_italic != 0, lf.lf_face_name.as_slice())
}

/// The width of UTF-16 `text` in the 8 x 8 font (units from 128 on count
/// as `?`).
pub open spec fn tab_width(text: Seq<u16>, n: int) -> int
    decreases n,
{
    if n <= 0 { 0 } else { tab_width(text, n - 1) + char_width(to_ascii(text[n - 1])) as int }
}

proof fn lemma_tab_width_mono(text: Seq<u16>, a: int, b: int)
    requires
        0 <= a <= b,
    ensures
        0 <= tab_width(text, a) <= tab_width(text, b),
    decreases b,
{
    if b > a {
        lemma_tab_width_mono(text, a, b - 1);
    } else if a > 0 {
        lemma_tab_width_mono(text, a - 1, a - 1);
        assert(char_width(to_ascii(text[a - 1])) >= 0);
    }
}

/// The width, height (16) and last character width (0) of `text`; tab
/// stops are not applied and nothing is drawn. Texts wider than 32 bits
/// allow are left out.
#[allow(non_snake_case)]
pub fn GreTabbedTextOut(dc: &mut DcObject, x: i32, y: i32, text: &[u16], tab_stops: &[i32], tab_origin: i32) -> (r: (i32, i32, i32))
    requires
        tab_width(text@, text@.len() as int) <= i32::MAX,
    ensures
        r == (tab_width(text@, text@.len() as int) as i32, 16i32, 0i32),
        *final(dc) == *old(dc),
{
    let mut width: i32 = 0;
    let mut i: usize = 0;
    while i < text.len()
        invariant
            i <= text@.len(),
            width == tab_width(text@, i as int),
            tab_width(text@, text@.len() as int) <= i32::MAX,
        decreases text@.len() - i,
    {
        let c = text[i];
        let ch: u8 = if c < 128 { c as u8 } else { 0x3F };
        proof {
            lemma_tab_width_mono(text@, i + 1, text@.len() as int);
        }
        width = width + get_char_width_8x8(ch);
        i = i + 1;
    }
    (width, 16, 0)
}

} // verus!
