//! The built-in character font: 16 glyphs of 5 bytes each, occupying
//! the first 80 bytes of memory.

use vstd::prelude::*;

verus! {

/// Number of bytes the built-in font occupies.
pub const FONTSET_SIZE: usize = 80;

/// Row `r` (0 to 4) of glyph `g` (0 to 15); 0 outside those ranges.
pub open spec fn glyph_row(g: int, r: int) -> u8 {
    if g == 0x0 {
        if r == 0 { 0xF0 } else if r == 1 { 0x90 } else if r == 2 { 0x90 }
        else if r == 3 { 0x90 } else if r == 4 { 0xF0 } else { 0x00 }
    } else if g == 0x1 {
        if r == 0 { 0x20 } else if r == 1 { 0x60 } else if r == 2 { 0x20 }
        else if r == 3 { 0x20 } else if r == 4 { 0x70 } else { 0x00 }
    } else if g == 0x2 {
        if r == 0 { 0xF0 } else if r == 1 { 0x10 } else if r == 2 { 0xF0 }
        else if r == 3 { 0x80 } else if r == 4 { 0xF0 } else { 0x00 }
    } else if g == 0x3 {
        if r == 0 { 0xF0 } else if r == 1 { 0x10 } else if r == 2 { 0xF0 }
        else if r == 3 { 0x10 } else if r == 4 { 0xF0 } else { 0x00 }
    } else if g == 0x4 {
        if r == 0 { 0x90 } else if r == 1 { 0x90 } else if r == 2 { 0xF0 }
        else if r == 3 { 0x10 } else if r == 4 { 0x10 } else { 0x00 }
    } else if g == 0x5 {
        if r == 0 { 0xF0 } else if r == 1 { 0x80 } else if r == 2 { 0xF0 }
        else if r == 3 { 0x10 } else if r == 4 { 0xF0 } else { 0x00 }
    } else if g == 0x6 {
        if r == 0 { 0xF0 } else if r == 1 { 0x80 } else if r == 2 { 0xF0 }
        else if r == 3 { 0x90 } else if r == 4 { 0xF0 } else { 0x00 }
    } else if g == 0x7 {
        if r == 0 { 0xF0 } else if r == 1 { 0x10 } else if r == 2 { 0x20 }
        else if r == 3 { 0x40 } else if r == 4 { 0x40 } else { 0x00 }
    } else if g == 0x8 {
        if r == 0 { 0xF0 } else if r == 1 { 0x90 } else if r == 2 { 0xF0 }
        else if r == 3 { 0x90 } else if r == 4 { 0xF0 } else { 0x00 }
    } else if g == 0x9 {
        if r == 0 { 0xF0 } else if r == 1 { 0x90 } else if r == 2 { 0xF0 }
        else if r == 3 { 0x10 } else if r == 4 { 0xF0 } else { 0x00 }
    } else if g == 0xA {
        if r == 0 { 0xF0 } else if r == 1 { 0x90 } else if r == 2 { 0xF0 }
        else if r == 3 { 0x90 } else if r == 4 { 0x90 } else { 0x00 }
    } else if g == 0xB {
        if r == 0 { 0xE0 } else if r == 1 { 0x90 } else if r == 2 { 0xE0 }
        else if r == 3 { 0x90 } else if r == 4 { 0xE0 } else { 0x00 }
    } else if g == 0xC {
        if r == 0 { 0xF0 } else if r == 1 { 0x80 } else if r == 2 { 0x80 }
        else if r == 3 { 0x80 } else if r == 4 { 0xF0 } else { 0x00 }
    } else if g == 0xD {
        if r == 0 { 0xE0 } else if r == 1 { 0x90 } else if r == 2 { 0x90 }
        else if r == 3 { 0x90 } else if r == 4 { 0xE0 } else { 0x00 }
    } else if g == 0xE {
        if r == 0 { 0xF0 } else if r == 1 { 0x80 } else if r == 2 { 0xF0 }
        else if r == 3 { 0x80 } else if r == 4 { 0xF0 } else { 0x00 }
    } else if g == 0xF {
        if r == 0 { 0xF0 } else if r == 1 { 0x80 } else if r == 2 { 0xF0 }
        else if r == 3 { 0x80 } else if r == 4 { 0x80 } else { 0x00 }
    } else {
        0x00
    }
}

/// Byte `i` of the font block as a whole: glyph `i / 5`, row `i % 5`.
pub open spec fn font_sel(i: int) -> u8 {
    glyph_row(i / 5, i % 5)
}

/// The byte of the font block at index `i`.
pub fn font_byte(i: usize) -> (b: u8)
    requires
        i < 80,
    ensures
        b == font_sel(i as int),
{
    let g = i / 5;
    let r = i % 5;
    if g == 0x0 {
        if r == 0 { 0xF0 } else if r == 1 { 0x90 } else if r == 2 { 0x90 }
        else if r == 3 { 0x90 } else { 0xF0 }
    } else if g == 0x1 {
        if r == 0 { 0x20 } else if r == 1 { 0x60 } else if r == 2 { 0x20 }
        else if r == 3 { 0x20 } else { 0x70 }
    } else if g == 0x2 {
        if r == 0 { 0xF0 } else if r == 1 { 0x10 } else if r == 2 { 0xF0 }
        else if r == 3 { 0x80 } else { 0xF0 }
    } else if g == 0x3 {
        if r == 0 { 0xF0 } else if r == 1 { 0x10 } else if r == 2 { 0xF0 }
        else if r == 3 { 0x10 } else { 0xF0 }
    } else if g == 0x4 {
        if r == 0 { 0x90 } else if r == 1 { 0x90 } else if r == 2 { 0xF0 }
        else if r == 3 { 0x10 } else { 0x10 }
    } else if g == 0x5 {
        if r == 0 { 0xF0 } else if r == 1 { 0x80 } else if r == 2 { 0xF0 }
        else if r == 3 { 0x10 } else { 0xF0 }
    } else if g == 0x6 {
        if r == 0 { 0xF0 } else if r == 1 { 0x80 } else if r == 2 { 0xF0 }
        else if r == 3 { 0x90 } else { 0xF0 }
    } else if g == 0x7 {
        if r == 0 { 0xF0 } else if r == 1 { 0x10 } else if r == 2 { 0x20 }
        else if r == 3 { 0x40 } else { 0x40 }
    } else if g == 0x8 {
        if r == 0 { 0xF0 } else if r == 1 { 0x90 } else if r == 2 { 0xF0 }
        else if r == 3 { 0x90 } else { 0xF0 }
    } else if g == 0x9 {
        if r == 0 { 0xF0 } else if r == 1 { 0x90 } else if r == 2 { 0xF0 }
        else if r == 3 { 0x10 } else { 0xF0 }
    } else if g == 0xA {
        if r == 0 { 0xF0 } else if r == 1 { 0x90 } else if r == 2 { 0xF0 }
        else if r == 3 { 0x90 } else { 0x90 }
    } else if g == 0xB {
        if r == 0 { 0xE0 } else if r == 1 { 0x90 } else if r == 2 { 0xE0 }
        else if r == 3 { 0x90 } else { 0xE0 }
    } else if g == 0xC {
        if r == 0 { 0xF0 } else if r == 1 { 0x80 } else if r == 2 { 0x80 }
        else if r == 3 { 0x80 } else { 0xF0 }
    } else if g == 0xD {
        if r == 0 { 0xE0 } else if r == 1 { 0x90 } else if r == 2 { 0x90 }
        else if r == 3 { 0x90 } else { 0xE0 }
    } else if g == 0xE {
        if r == 0 { 0xF0 } else if r == 1 { 0x80 } else if r == 2 { 0xF0 }
        else if r == 3 { 0x80 } else { 0xF0 }
    } else {
        if r == 0 { 0xF0 } else if r == 1 { 0x80 } else if r == 2 { 0xF0 }
        else if r == 3 { 0x80 } else { 0x80 }
    }
}

} // verus!
