//! Fixed layout of the machine's 4096-byte address space, and the built-in
//! hexadecimal font table (16 glyphs of 5 rows each).

use vstd::prelude::*;

verus! {

/// Total size of the address space, in bytes.
pub const MEM_SIZE: usize = 4096;

/// First byte of the font table.
pub const FONT_START: usize = 0;

/// Number of bytes of one font glyph.
pub const GLYPH_SIZE: usize = 5;

/// Total size of the font table: 16 glyphs of 5 bytes each.
pub const FONT_SIZE: usize = 80;

/// First byte of the region a loaded program occupies, and the initial
/// program counter.
pub const PC_DEFAULT_START: usize = 0x200;

/// Largest program that fits between `PC_DEFAULT_START` and the end of
/// memory.
pub const MAX_PROGRAM_SIZE: usize = 3584;

/// First byte of the bit-packed framebuffer region.
pub const DISPLAY_MEM_START: usize = 0xF00;

/// Size of the framebuffer region in bytes: 64x32 pixels, 8 pixels per byte.
pub const DISPLAY_MEM_SIZE: usize = 256;

/// Width of the display in pixels.
pub const DISPLAY_WIDTH: usize = 64;

/// Height of the display in pixels.
pub const DISPLAY_HEIGHT: usize = 32;

/// Number of pixels of the display.
pub const DISPLAY_PIXELS: usize = 2048;

/// Maximum call depth of the bounded call stack.
pub const STACK_DEPTH: usize = 16;

/// Row `r` of glyph `g` of the built-in font, most-significant bit leftmost.
/// Outside `0 <= g < 16`, `0 <= r < 5` the row is zero.
pub open spec fn font_byte(g: int, r: int) -> u8 {
    if g == 0x0 {
        if r == 0 { 0xF0 } else if r == 1 { 0x90 } else if r == 2 { 0x90 }
        else if r == 3 { 0x90 } else if r == 4 { 0xF0 } else { 0 }
    } else if g == 0x1 {
        if r == 0 { 0x20 } else if r == 1 { 0x60 } else if r == 2 { 0x20 }
        else if r == 3 { 0x20 } else if r == 4 { 0x70 } else { 0 }
    } else if g == 0x2 {
        if r == 0 { 0xF0 } else if r == 1 { 0x10 } else if r == 2 { 0xF0 }
        else if r == 3 { 0x80 } else if r == 4 { 0xF0 } else { 0 }
    } else if g == 0x3 {
        if r == 0 { 0xF0 } else if r == 1 { 0x10 } else if r == 2 { 0xF0 }
        else if r == 3 { 0x10 } else if r == 4 { 0xF0 } else { 0 }
    } else if g == 0x4 {
        if r == 0 { 0x90 } else if r == 1 { 0x90 } else if r == 2 { 0xF0 }
        else if r == 3 { 0x10 } else if r == 4 { 0x10 } else { 0 }
    } else if g == 0x5 {
        if r == 0 { 0xF0 } else if r == 1 { 0x80 } else if r == 2 { 0xF0 }
        else if r == 3 { 0x10 } else if r == 4 { 0xF0 } else { 0 }
    } else if g == 0x6 {
        if r == 0 { 0xF0 } else if r == 1 { 0x80 } else if r == 2 { 0xF0 }
        else if r == 3 { 0x90 } else if r == 4 { 0xF0 } else { 0 }
    } else if g == 0x7 {
        if r == 0 { 0xF0 } else if r == 1 { 0x10 } else if r == 2 { 0x20 }
        else if r == 3 { 0x40 } else if r == 4 { 0x40 } else { 0 }
    } else if g == 0x8 {
        if r == 0 { 0xF0 } else if r == 1 { 0x90 } else if r == 2 { 0xF0 }
        else if r == 3 { 0x90 } else if r == 4 { 0xF0 } else { 0 }
    } else if g == 0x9 {
        if r == 0 { 0xF0 } else if r == 1 { 0x90 } else if r == 2 { 0xF0 }
        else if r == 3 { 0x10 } else if r == 4 { 0xF0 } else { 0 }
    } else if g == 0xA {
        if r == 0 { 0xF0 } else if r == 1 { 0x90 } else if r == 2 { 0xF0 }
        else if r == 3 { 0x90 } else if r == 4 { 0x90 } else { 0 }
    } else if g == 0xB {
        if r == 0 { 0xE0 } else if r == 1 { 0x90 } else if r == 2 { 0xE0 }
        else if r == 3 { 0x90 } else if r == 4 { 0xE0 } else { 0 }
    } else if g == 0xC {
        if r == 0 { 0xF0 } else if r == 1 { 0x80 } else if r == 2 { 0x80 }
        else if r == 3 { 0x80 } else if r == 4 { 0xF0 } else { 0 }
    } else if g == 0xD {
        if r == 0 { 0xE0 } else if r == 1 { 0x90 } else if r == 2 { 0x90 }
        else if r == 3 { 0x90 } else if r == 4 { 0xE0 } else { 0 }
    } else if g == 0xE {
        if r == 0 { 0xF0 } else if r == 1 { 0x80 } else if r == 2 { 0xF0 }
        else if r == 3 { 0x80 } else if r == 4 { 0xF0 } else { 0 }
    } else if g == 0xF {
        if r == 0 { 0xF0 } else if r == 1 { 0x80 } else if r == 2 { 0xF0 }
        else if r == 3 { 0x80 } else if r == 4 { 0x80 } else { 0 }
    } else {
        0
    }
}

/// Executable counterpart of [`font_byte`].
pub fn font_sprite_byte(g: usize, r: usize) -> (b: u8)
    ensures
        b == font_byte(g as int, r as int),
{
    if g == 0x0 {
        if r == 0 { 0xF0 } else if r == 1 { 0x90 } else if r == 2 { 0x90 }
        else if r == 3 { 0x90 } else if r == 4 { 0xF0 } else { 0 }
    } else if g == 0x1 {
        if r == 0 { 0x20 } else if r == 1 { 0x60 } else if r == 2 { 0x20 }
        else if r == 3 { 0x20 } else if r == 4 { 0x70 } else { 0 }
    } else if g == 0x2 {
        if r == 0 { 0xF0 } else if r == 1 { 0x10 } else if r == 2 { 0xF0 }
        else if r == 3 { 0x80 } else if r == 4 { 0xF0 } else { 0 }
    } else if g == 0x3 {
        if r == 0 { 0xF0 } else if r == 1 { 0x10 } else if r == 2 { 0xF0 }
        else if r == 3 { 0x10 } else if r == 4 { 0xF0 } else { 0 }
    } else if g == 0x4 {
        if r == 0 { 0x90 } else if r == 1 { 0x90 } else if r == 2 { 0xF0 }
        else if r == 3 { 0x10 } else if r == 4 { 0x10 } else { 0 }
    } else if g == 0x5 {
        if r == 0 { 0xF0 } else if r == 1 { 0x80 } else if r == 2 { 0xF0 }
        else if r == 3 { 0x10 } else if r == 4 { 0xF0 } else { 0 }
    } else if g == 0x6 {
        if r == 0 { 0xF0 } else if r == 1 { 0x80 } else if r == 2 { 0xF0 }
        else if r == 3 { 0x90 } else if r == 4 { 0xF0 } else { 0 }
    } else if g == 0x7 {
        if r == 0 { 0xF0 } else if r == 1 { 0x10 } else if r == 2 { 0x20 }
        else if r == 3 { 0x40 } else if r == 4 { 0x40 } else { 0 }
    } else if g == 0x8 {
        if r == 0 { 0xF0 } else if r == 1 { 0x90 } else if r == 2 { 0xF0 }
        else if r == 3 { 0x90 } else if r == 4 { 0xF0 } else { 0 }
    } else if g == 0x9 {
        if r == 0 { 0xF0 } else if r == 1 { 0x90 } else if r == 2 { 0xF0 }
        else if r == 3 { 0x10 } else if r == 4 { 0xF0 } else { 0 }
    } else if g == 0xA {
        if r == 0 { 0xF0 } else if r == 1 { 0x90 } else if r == 2 { 0xF0 }
        else if r == 3 { 0x90 } else if r == 4 { 0x90 } else { 0 }
    } else if g == 0xB {
        if r == 0 { 0xE0 } else if r == 1 { 0x90 } else if r == 2 { 0xE0 }
        else if r == 3 { 0x90 } else if r == 4 { 0xE0 } else { 0 }
    } else if g == 0xC {
        if r == 0 { 0xF0 } else if r == 1 { 0x80 } else if r == 2 { 0x80 }
        else if r == 3 { 0x80 } else if r == 4 { 0xF0 } else { 0 }
    } else if g == 0xD {
        if r == 0 { 0xE0 } else if r == 1 { 0x90 } else if r == 2 { 0x90 }
        else if r == 3 { 0x90 } else if r == 4 { 0xE0 } else { 0 }
    } else if g == 0xE {
        if r == 0 { 0xF0 } else if r == 1 { 0x80 } else if r == 2 { 0xF0 }
        else if r == 3 { 0x80 } else if r == 4 { 0xF0 } else { 0 }
    } else if g == 0xF {
        if r == 0 { 0xF0 } else if r == 1 { 0x80 } else if r == 2 { 0xF0 }
        else if r == 3 { 0x80 } else if r == 4 { 0x80 } else { 0 }
    } else {
        0
    }
}

} // verus!
