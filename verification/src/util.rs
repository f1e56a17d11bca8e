//! Bit access helpers, the descriptor an engine step returns, and the
//! translation of the bit-packed framebuffer into host pixels.

use vstd::prelude::*;
use crate::blit::fb_bit;
use crate::constants::DISPLAY_MEM_START;
use crate::constants::DISPLAY_PIXELS;
use crate::constants::MEM_SIZE;

verus! {

/// What one engine step asks of the host: whether the framebuffer changed,
/// and whether the machine is blocked on a key press (and for which register
/// the pressed key's code is destined).
#[derive(Clone, Copy, Debug, PartialEq, Eq, Structural)]
pub struct InterpreterResult {
    pub refresh_display: bool,
    pub wait_for_keyboard: Option<usize>,
}

/// Bit `n` of `b`, the least-significant bit being bit 0. False for `n >= 8`.
pub open spec fn nth_bit(b: u8, n: u8) -> bool {
    n < 8 && (b >> n) & 1u8 == 1u8
}

/// Whether bit `n` of `input` is set, the least-significant bit being bit 0.
/// Bits past the top of the byte read as clear.
pub fn get_bit_at(input: u8, n: u8) -> (r: bool)
    ensures
        r == nth_bit(input, n),
{
    if n < 8 {
        let r = input & (1u8 << n) != 0;
        proof {
            lemma_mask_vs_shift(input, n);
        }
        r
    } else {
        false
    }
}

/// A single-bit mask test agrees with shifting the bit down.
proof fn lemma_mask_vs_shift(b: u8, n: u8)
    by (bit_vector)
    requires
        n < 8,
    ensures
        (b & (1u8 << n) != 0) == ((b >> n) & 1u8 == 1u8),
{
}

/// Channel `c` of the RGBA color a pixel is rendered with: one fixed color
/// for a set pixel, another for a clear one.
pub open spec fn pixel_channel(on: bool, c: int) -> u8 {
    if on {
        if c == 0 { 0xfb } else if c == 1 { 0xbb } else if c == 2 { 0xb3 } else { 0xff }
    } else {
        if c == 0 { 0x88 } else if c == 1 { 0xaa } else if c == 2 { 0x88 } else { 0xff }
    }
}

/// Render the framebuffer region of `memory` into `frame`, four RGBA bytes
/// per pixel, row-major; the most-significant bit of each framebuffer byte
/// is the leftmost pixel of its group of eight.
pub fn draw(frame: &mut Vec<u8>, memory: &Vec<u8>)
    requires
        old(frame).len() == 4 * DISPLAY_PIXELS,
        memory.len() == MEM_SIZE,
    ensures
        final(frame)@.len() == 4 * DISPLAY_PIXELS,
        forall|idx: int|
            0 <= idx < 4 * DISPLAY_PIXELS ==> final(frame)@[idx] == pixel_channel(
                fb_bit(memory@, idx / 4),
                idx % 4,
            ),
{
    let mut p: usize = 0;
    while p < DISPLAY_PIXELS
        invariant
            p <= DISPLAY_PIXELS,
            frame@.len() == 4 * DISPLAY_PIXELS,
            memory@.len() == MEM_SIZE,
            forall|idx: int|
                0 <= idx < 4 * p ==> frame@[idx] == pixel_channel(
                    fb_bit(memory@, idx / 4),
                    idx % 4,
                ),
        decreases DISPLAY_PIXELS - p,
    {
        let byte = memory[DISPLAY_MEM_START + p / 8];
        let bit_pos: u8 = (7 - p % 8) as u8;
        let on = (byte >> bit_pos) & 1u8 == 1u8;
        proof {
            assert(on == fb_bit(memory@, p as int));
        }
        if on {
            frame.set(4 * p, 0xfb);
            frame.set(4 * p + 1, 0xbb);
            frame.set(4 * p + 2, 0xb3);
            frame.set(4 * p + 3, 0xff);
        } else {
            frame.set(4 * p, 0x88);
            frame.set(4 * p + 1, 0xaa);
            frame.set(4 * p + 2, 0x88);
            frame.set(4 * p + 3, 0xff);
        }
        p = p + 1;
    }
}

} // verus!
