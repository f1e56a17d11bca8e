//! The sprite-XOR draw algorithm: bit-packing, wraparound and collision.
//!
//! A sprite is `n` rows of one byte each, read from memory at the index
//! register, most-significant bit first. Its anchor is reduced modulo the
//! 64x32 pixel grid before the draw; the sprite body does not wrap mid-draw
//! except that individual pixel writes wrap at the 2048-pixel (256-byte)
//! framebuffer boundary. Every sprite bit is XORed into the framebuffer;
//! a collision is declared exactly when some XOR turns a previously-set
//! pixel off.
//!
//! The functions [`blit_rows`] and [`collide_rows`] are the exact
//! specification of one draw: they replay the algorithm row by row and bit
//! by bit, reading each sprite byte from the memory the draw has produced so
//! far, as the executable routine does.

use vstd::prelude::*;
use vstd::arithmetic::div_mod::lemma_fundamental_div_mod;
use vstd::arithmetic::div_mod::lemma_fundamental_div_mod_converse_mod;
use crate::constants::DISPLAY_MEM_START;
use crate::constants::DISPLAY_MEM_SIZE;
use crate::constants::DISPLAY_PIXELS;
use crate::constants::MEM_SIZE;
use crate::util::nth_bit;

verus! {

/// The byte of memory that holds pixel `p`.
pub open spec fn fb_byte_index(p: int) -> int {
    DISPLAY_MEM_START + p / 8
}

/// Where pixel `p` sits inside its byte: the most-significant bit is the
/// leftmost pixel of its group of eight.
pub open spec fn fb_bit_pos(p: int) -> u8 {
    (7 - p % 8) as u8
}

/// Pixel `p` of the framebuffer embedded in `mem`, row-major,
/// `0 <= p < 2048`.
pub open spec fn fb_bit(mem: Seq<u8>, p: int) -> bool {
    nth_bit(mem[fb_byte_index(p)], fb_bit_pos(p))
}

/// Bit `k` of one sprite row byte, counted from the left: bit 0 is the
/// most-significant bit.
pub open spec fn sprite_bit(b: u8, k: int) -> bool {
    nth_bit(b, (7 - k) as u8)
}

/// The framebuffer pixel that bit `k` of the sprite row at logical row
/// `yrow` and anchor column `x0` lands on, wrapping at the framebuffer
/// boundary.
pub open spec fn pixel_at(x0: int, yrow: int, k: int) -> int {
    (x0 + 64 * yrow + k) % (DISPLAY_PIXELS as int)
}

/// `mem` with pixel `p` toggled.
pub open spec fn flip_pixel(mem: Seq<u8>, p: int) -> Seq<u8> {
    mem.update(fb_byte_index(p), mem[fb_byte_index(p)] ^ (1u8 << fb_bit_pos(p)))
}

/// Memory after the first `k` bits of one sprite row byte `b` have been
/// XORed in.
pub open spec fn blit_row(mem: Seq<u8>, b: u8, x0: int, yrow: int, k: int) -> Seq<u8>
    decreases k,
{
    if k <= 0 {
        mem
    } else {
        let prev = blit_row(mem, b, x0, yrow, k - 1);
        if sprite_bit(b, k - 1) {
            flip_pixel(prev, pixel_at(x0, yrow, k - 1))
        } else {
            prev
        }
    }
}

/// Whether one of the first `k` bits of row byte `b` turned a set pixel off.
pub open spec fn collide_row(mem: Seq<u8>, b: u8, x0: int, yrow: int, k: int) -> bool
    decreases k,
{
    if k <= 0 {
        false
    } else {
        collide_row(mem, b, x0, yrow, k - 1) || (sprite_bit(b, k - 1) && fb_bit(
            blit_row(mem, b, x0, yrow, k - 1),
            pixel_at(x0, yrow, k - 1),
        ))
    }
}

/// Memory after the first `j` sprite rows have been drawn; row `r` is the
/// byte at address `i + r` of the memory as it stands when that row starts.
pub open spec fn blit_rows(mem: Seq<u8>, x0: int, y0: int, i: int, j: int) -> Seq<u8>
    decreases j,
{
    if j <= 0 {
        mem
    } else {
        let prev = blit_rows(mem, x0, y0, i, j - 1);
        blit_row(prev, prev[i + (j - 1)], x0, y0 + (j - 1), 8)
    }
}

/// Whether any of the first `j` sprite rows turned a set pixel off.
pub open spec fn collide_rows(mem: Seq<u8>, x0: int, y0: int, i: int, j: int) -> bool
    decreases j,
{
    if j <= 0 {
        false
    } else {
        let prev = blit_rows(mem, x0, y0, i, j - 1);
        collide_rows(mem, x0, y0, i, j - 1) || collide_row(
            prev,
            prev[i + (j - 1)],
            x0,
            y0 + (j - 1),
            8,
        )
    }
}

/// Whether the sprite source range `[i, i + n)` lies entirely outside the
/// framebuffer region, so that drawing does not alter the sprite being
/// drawn.
pub open spec fn sprite_outside_fb(i: int, n: int) -> bool {
    i + n <= DISPLAY_MEM_START || i >= DISPLAY_MEM_START + DISPLAY_MEM_SIZE
}

/// Whether one of the first `k` bits of row byte `b` is set and lands on
/// pixel `p`.
pub open spec fn row_touch(b: u8, x0: int, yrow: int, k: int, p: int) -> bool {
    exists|t: int| 0 <= t < k && #[trigger] pixel_at(x0, yrow, t) == p && sprite_bit(b, t)
}

/// Whether one of the sprite's `n` rows, read from `mem` at `i`, has a set
/// bit landing on pixel `p`.
pub open spec fn touched(mem: Seq<u8>, x0: int, y0: int, i: int, n: int, p: int) -> bool {
    exists|j: int, k: int|
        0 <= j < n && 0 <= k < 8 && #[trigger] pixel_at(x0, y0 + j, k) == p && sprite_bit(
            mem[i + j],
            k,
        )
}

/// XORing a single-bit mask flips exactly that bit.
proof fn lemma_xor_bit(b: u8, m: u8, j: u8)
    by (bit_vector)
    requires
        m < 8,
        j < 8,
    ensures
        nth_bit(b ^ (1u8 << m), j) == (if j == m {
            !nth_bit(b, j)
        } else {
            nth_bit(b, j)
        }),
{
}

/// Two bytes that agree on all eight bits are equal.
proof fn lemma_byte_from_bits(x: u8, y: u8)
    by (bit_vector)
    requires
        nth_bit(x, 0) == nth_bit(y, 0),
        nth_bit(x, 1) == nth_bit(y, 1),
        nth_bit(x, 2) == nth_bit(y, 2),
        nth_bit(x, 3) == nth_bit(y, 3),
        nth_bit(x, 4) == nth_bit(y, 4),
        nth_bit(x, 5) == nth_bit(y, 5),
        nth_bit(x, 6) == nth_bit(y, 6),
        nth_bit(x, 7) == nth_bit(y, 7),
    ensures
        x == y,
{
}

/// Shifting a nonnegative value by less than the modulus changes its
/// residue.
proof fn lemma_mod_shift_ne(a: int, d: int)
    requires
        0 <= a,
        0 < d < 2048,
    ensures
        a % 2048 != (a + d) % 2048,
{
    lemma_fundamental_div_mod(a, 2048);
    let q = a / 2048;
    let r = a % 2048;
    if r + d < 2048 {
        lemma_fundamental_div_mod_converse_mod(a + d, 2048, q, r + d);
    } else {
        lemma_fundamental_div_mod_converse_mod(a + d, 2048, q + 1, r + d - 2048);
    }
}

/// Two bits of one sprite row land on distinct pixels.
proof fn lemma_pixel_ne_same_row(x0: int, yrow: int, k1: int, k2: int)
    requires
        0 <= x0,
        0 <= yrow,
        0 <= k1 < k2 < 8,
    ensures
        pixel_at(x0, yrow, k1) != pixel_at(x0, yrow, k2),
{
    lemma_mod_shift_ne(x0 + 64 * yrow + k1, k2 - k1);
}

/// Bits of two different sprite rows land on distinct pixels, as long as
/// the rows are fewer than 32 apart.
proof fn lemma_pixel_ne_rows(x0: int, y1: int, k1: int, y2: int, k2: int)
    requires
        0 <= x0,
        0 <= y1 < y2,
        y2 - y1 < 32,
        0 <= k1 < 8,
        0 <= k2 < 8,
    ensures
        pixel_at(x0, y1, k1) != pixel_at(x0, y2, k2),
{
    lemma_mod_shift_ne(x0 + 64 * y1 + k1, 64 * (y2 - y1) + (k2 - k1));
}

/// Blitting one row leaves everything outside the framebuffer region
/// untouched.
proof fn lemma_blit_row_frame(mem: Seq<u8>, b: u8, x0: int, yrow: int, k: int)
    requires
        mem.len() == MEM_SIZE,
        0 <= x0,
        0 <= yrow,
        0 <= k <= 8,
    ensures
        blit_row(mem, b, x0, yrow, k).len() == MEM_SIZE,
        forall|a: int|
            0 <= a < MEM_SIZE && !(DISPLAY_MEM_START <= a < DISPLAY_MEM_START + DISPLAY_MEM_SIZE)
                ==> blit_row(mem, b, x0, yrow, k)[a] == mem[a],
    decreases k,
{
    if k > 0 {
        lemma_blit_row_frame(mem, b, x0, yrow, k - 1);
    }
}

/// Blitting a sprite leaves everything outside the framebuffer region
/// untouched.
proof fn lemma_blit_rows_frame(mem: Seq<u8>, x0: int, y0: int, i: int, n: int)
    requires
        mem.len() == MEM_SIZE,
        0 <= x0,
        0 <= y0,
        0 <= n,
    ensures
        blit_rows(mem, x0, y0, i, n).len() == MEM_SIZE,
        forall|a: int|
            0 <= a < MEM_SIZE && !(DISPLAY_MEM_START <= a < DISPLAY_MEM_START + DISPLAY_MEM_SIZE)
                ==> blit_rows(mem, x0, y0, i, n)[a] == mem[a],
    decreases n,
{
    if n > 0 {
        lemma_blit_rows_frame(mem, x0, y0, i, n - 1);
        let prev = blit_rows(mem, x0, y0, i, n - 1);
        lemma_blit_row_frame(prev, prev[i + (n - 1)], x0, y0 + (n - 1), 8);
    }
}

/// Reading a pixel after toggling another: only the toggled pixel changes.
proof fn lemma_flip_pixel_read(mem: Seq<u8>, q: int, p: int)
    requires
        mem.len() == MEM_SIZE,
        0 <= q < DISPLAY_PIXELS,
        0 <= p < DISPLAY_PIXELS,
    ensures
        fb_bit(flip_pixel(mem, q), p) == (if p == q {
            !fb_bit(mem, p)
        } else {
            fb_bit(mem, p)
        }),
{
    if fb_byte_index(p) == fb_byte_index(q) {
        lemma_xor_bit(mem[fb_byte_index(q)], fb_bit_pos(q), fb_bit_pos(p));
        if p != q {
            assert(p % 8 != q % 8);
            assert(fb_bit_pos(p) != fb_bit_pos(q));
        }
    }
}

/// One step of [`row_touch`], and: the newest bit lands on a pixel no
/// earlier bit of the row landed on.
proof fn lemma_row_touch_step(b: u8, x0: int, yrow: int, k: int, p: int)
    requires
        0 <= x0,
        0 <= yrow,
        1 <= k <= 8,
    ensures
        row_touch(b, x0, yrow, k, p) == (row_touch(b, x0, yrow, k - 1, p) || (pixel_at(
            x0,
            yrow,
            k - 1,
        ) == p && sprite_bit(b, k - 1))),
        !(row_touch(b, x0, yrow, k - 1, p) && pixel_at(x0, yrow, k - 1) == p),
{
    if row_touch(b, x0, yrow, k, p) {
        let t = choose|t: int|
            0 <= t < k && #[trigger] pixel_at(x0, yrow, t) == p && sprite_bit(b, t);
        if t < k - 1 {
            assert(row_touch(b, x0, yrow, k - 1, p));
        }
    }
    if row_touch(b, x0, yrow, k - 1, p) {
        let t = choose|t: int|
            0 <= t < k - 1 && #[trigger] pixel_at(x0, yrow, t) == p && sprite_bit(b, t);
        assert(row_touch(b, x0, yrow, k, p));
        lemma_pixel_ne_same_row(x0, yrow, t, k - 1);
    }
    if pixel_at(x0, yrow, k - 1) == p && sprite_bit(b, k - 1) {
        assert(row_touch(b, x0, yrow, k, p));
    }
}

/// After the first `k` bits of one row, each pixel holds its old value
/// XORed with whether a set bit landed on it.
proof fn lemma_blit_row_pixels(mem: Seq<u8>, b: u8, x0: int, yrow: int, k: int)
    requires
        mem.len() == MEM_SIZE,
        0 <= x0,
        0 <= yrow,
        0 <= k <= 8,
    ensures
        forall|p: int|
            0 <= p < DISPLAY_PIXELS ==> fb_bit(blit_row(mem, b, x0, yrow, k), p) == (fb_bit(
                mem,
                p,
            ) != row_touch(b, x0, yrow, k, p)),
    decreases k,
{
    if k > 0 {
        lemma_blit_row_pixels(mem, b, x0, yrow, k - 1);
        lemma_blit_row_frame(mem, b, x0, yrow, k - 1);
        let prev = blit_row(mem, b, x0, yrow, k - 1);
        let pk = pixel_at(x0, yrow, k - 1);
        assert forall|p: int| 0 <= p < DISPLAY_PIXELS implies fb_bit(
            blit_row(mem, b, x0, yrow, k),
            p,
        ) == (fb_bit(mem, p) != row_touch(b, x0, yrow, k, p)) by {
            lemma_row_touch_step(b, x0, yrow, k, p);
            if sprite_bit(b, k - 1) {
                lemma_flip_pixel_read(prev, pk, p);
            }
        }
    }
}

/// A whole row collides exactly when one of its set bits lands on a pixel
/// that was already set before the row was drawn.
proof fn lemma_collide_row_char(mem: Seq<u8>, b: u8, x0: int, yrow: int, k: int)
    requires
        mem.len() == MEM_SIZE,
        0 <= x0,
        0 <= yrow,
        0 <= k <= 8,
    ensures
        collide_row(mem, b, x0, yrow, k) == exists|t: int|
            0 <= t < k && sprite_bit(b, t) && fb_bit(mem, #[trigger] pixel_at(x0, yrow, t)),
    decreases k,
{
    if k > 0 {
        lemma_collide_row_char(mem, b, x0, yrow, k - 1);
        lemma_blit_row_pixels(mem, b, x0, yrow, k - 1);
        let prev = blit_row(mem, b, x0, yrow, k - 1);
        let pk = pixel_at(x0, yrow, k - 1);
        lemma_row_touch_step(b, x0, yrow, k, pk);
        assert(fb_bit(prev, pk) == fb_bit(mem, pk));
        if collide_row(mem, b, x0, yrow, k) {
            if collide_row(mem, b, x0, yrow, k - 1) {
                let t = choose|t: int|
                    0 <= t < k - 1 && sprite_bit(b, t) && fb_bit(
                        mem,
                        #[trigger] pixel_at(x0, yrow, t),
                    );
                assert(0 <= t < k && sprite_bit(b, t) && fb_bit(mem, pixel_at(x0, yrow, t)));
            } else {
                assert(sprite_bit(b, k - 1) && fb_bit(mem, pixel_at(x0, yrow, k - 1)));
            }
        }
        if exists|t: int|
            0 <= t < k && sprite_bit(b, t) && fb_bit(mem, #[trigger] pixel_at(x0, yrow, t)) {
            let t = choose|t: int|
                0 <= t < k && sprite_bit(b, t) && fb_bit(mem, #[trigger] pixel_at(x0, yrow, t));
            if t < k - 1 {
                assert(exists|u: int|
                    0 <= u < k - 1 && sprite_bit(b, u) && fb_bit(
                        mem,
                        #[trigger] pixel_at(x0, yrow, u),
                    ));
            }
            assert(collide_row(mem, b, x0, yrow, k));
        }
    }
}

/// One step of [`touched`], and: the newest row's bits land on pixels no
/// earlier row's bits landed on.
proof fn lemma_touched_step(mem: Seq<u8>, x0: int, y0: int, i: int, n: int, p: int)
    requires
        0 <= x0,
        0 <= y0,
        1 <= n <= 15,
    ensures
        touched(mem, x0, y0, i, n, p) == (touched(mem, x0, y0, i, n - 1, p) || row_touch(
            mem[i + (n - 1)],
            x0,
            y0 + (n - 1),
            8,
            p,
        )),
        !(touched(mem, x0, y0, i, n - 1, p) && row_touch(mem[i + (n - 1)], x0, y0 + (n - 1), 8, p)),
{
    let b = mem[i + (n - 1)];
    if touched(mem, x0, y0, i, n, p) {
        let (j, k) = choose|j: int, k: int|
            0 <= j < n && 0 <= k < 8 && #[trigger] pixel_at(x0, y0 + j, k) == p && sprite_bit(
                mem[i + j],
                k,
            );
        if j < n - 1 {
            assert(touched(mem, x0, y0, i, n - 1, p));
        } else {
            assert(row_touch(b, x0, y0 + (n - 1), 8, p));
        }
    }
    if touched(mem, x0, y0, i, n - 1, p) {
        let (j, k) = choose|j: int, k: int|
            0 <= j < n - 1 && 0 <= k < 8 && #[trigger] pixel_at(x0, y0 + j, k) == p && sprite_bit(
                mem[i + j],
                k,
            );
        assert(touched(mem, x0, y0, i, n, p));
        if row_touch(b, x0, y0 + (n - 1), 8, p) {
            let t = choose|t: int|
                0 <= t < 8 && #[trigger] pixel_at(x0, y0 + (n - 1), t) == p && sprite_bit(b, t);
            lemma_pixel_ne_rows(x0, y0 + j, k, y0 + (n - 1), t);
        }
    }
    if row_touch(b, x0, y0 + (n - 1), 8, p) {
        let t = choose|t: int|
            0 <= t < 8 && #[trigger] pixel_at(x0, y0 + (n - 1), t) == p && sprite_bit(b, t);
        assert(pixel_at(x0, y0 + (n - 1), t) == p && sprite_bit(mem[i + (n - 1)], t));
        assert(touched(mem, x0, y0, i, n, p));
    }
}

/// After a whole draw, each pixel holds its old value XORed with whether a
/// set sprite bit landed on it; everything outside the framebuffer region
/// is untouched. Requires the sprite source to lie outside the
/// framebuffer, so the rows read are the rows given.
pub proof fn lemma_blit_rows_pixels(mem: Seq<u8>, x0: int, y0: int, i: int, n: int)
    requires
        mem.len() == MEM_SIZE,
        0 <= x0 < 64,
        0 <= y0 < 32,
        0 <= n <= 15,
        0 <= i,
        i + n <= MEM_SIZE,
        sprite_outside_fb(i, n),
    ensures
        blit_rows(mem, x0, y0, i, n).len() == MEM_SIZE,
        forall|a: int|
            0 <= a < MEM_SIZE && !(DISPLAY_MEM_START <= a < DISPLAY_MEM_START + DISPLAY_MEM_SIZE)
                ==> blit_rows(mem, x0, y0, i, n)[a] == mem[a],
        forall|p: int|
            0 <= p < DISPLAY_PIXELS ==> fb_bit(blit_rows(mem, x0, y0, i, n), p) == (fb_bit(
                mem,
                p,
            ) != touched(mem, x0, y0, i, n, p)),
    decreases n,
{
    lemma_blit_rows_frame(mem, x0, y0, i, n);
    if n == 0 {
        assert forall|p: int| 0 <= p < DISPLAY_PIXELS implies !touched(
            mem,
            x0,
            y0,
            i,
            0,
            p,
        ) by {}
    } else {
        lemma_blit_rows_pixels(mem, x0, y0, i, n - 1);
        let prev = blit_rows(mem, x0, y0, i, n - 1);
        assert(prev[i + (n - 1)] == mem[i + (n - 1)]);
        let b = mem[i + (n - 1)];
        lemma_blit_row_pixels(prev, b, x0, y0 + (n - 1), 8);
        assert forall|p: int| 0 <= p < DISPLAY_PIXELS implies fb_bit(
            blit_rows(mem, x0, y0, i, n),
            p,
        ) == (fb_bit(mem, p) != touched(mem, x0, y0, i, n, p)) by {
            lemma_touched_step(mem, x0, y0, i, n, p);
        }
    }
}

/// A draw collides exactly when one of its set sprite bits lands on a
/// pixel that was set before the draw began. Requires the sprite source to
/// lie outside the framebuffer.
pub proof fn lemma_collide_rows_char(mem: Seq<u8>, x0: int, y0: int, i: int, n: int)
    requires
        mem.len() == MEM_SIZE,
        0 <= x0 < 64,
        0 <= y0 < 32,
        0 <= n <= 15,
        0 <= i,
        i + n <= MEM_SIZE,
        sprite_outside_fb(i, n),
    ensures
        collide_rows(mem, x0, y0, i, n) == exists|j: int, k: int|
            0 <= j < n && 0 <= k < 8 && sprite_bit(mem[i + j], k) && fb_bit(
                mem,
                #[trigger] pixel_at(x0, y0 + j, k),
            ),
    decreases n,
{
    if n > 0 {
        lemma_collide_rows_char(mem, x0, y0, i, n - 1);
        lemma_blit_rows_pixels(mem, x0, y0, i, n - 1);
        let prev = blit_rows(mem, x0, y0, i, n - 1);
        assert(prev[i + (n - 1)] == mem[i + (n - 1)]);
        let b = mem[i + (n - 1)];
        lemma_collide_row_char(prev, b, x0, y0 + (n - 1), 8);
        // A pixel of the newest row reads the same before and after the
        // earlier rows, which land elsewhere.
        assert forall|t: int| 0 <= t < 8 implies fb_bit(
            prev,
            #[trigger] pixel_at(x0, y0 + (n - 1), t),
        ) == fb_bit(mem, pixel_at(x0, y0 + (n - 1), t)) by {
            let p = pixel_at(x0, y0 + (n - 1), t);
            lemma_touched_step(mem, x0, y0, i, n, p);
            if touched(mem, x0, y0, i, n - 1, p) {
                let (j, k) = choose|j: int, k: int|
                    0 <= j < n - 1 && 0 <= k < 8 && #[trigger] pixel_at(x0, y0 + j, k) == p
                        && sprite_bit(mem[i + j], k);
                lemma_pixel_ne_rows(x0, y0 + j, k, y0 + (n - 1), t);
            }
        }
        if collide_rows(mem, x0, y0, i, n) {
            if collide_rows(mem, x0, y0, i, n - 1) {
                let (j, k) = choose|j: int, k: int|
                    0 <= j < n - 1 && 0 <= k < 8 && sprite_bit(mem[i + j], k) && fb_bit(
                        mem,
                        #[trigger] pixel_at(x0, y0 + j, k),
                    );
                assert(0 <= j < n && 0 <= k < 8 && sprite_bit(mem[i + j], k) && fb_bit(
                    mem,
                    pixel_at(x0, y0 + j, k),
                ));
            } else {
                let t = choose|t: int|
                    0 <= t < 8 && sprite_bit(b, t) && fb_bit(
                        prev,
                        #[trigger] pixel_at(x0, y0 + (n - 1), t),
                    );
                assert(sprite_bit(mem[i + (n - 1)], t) && fb_bit(
                    mem,
                    pixel_at(x0, y0 + (n - 1), t),
                ));
            }
        }
        if exists|j: int, k: int|
            0 <= j < n && 0 <= k < 8 && sprite_bit(mem[i + j], k) && fb_bit(
                mem,
                #[trigger] pixel_at(x0, y0 + j, k),
            ) {
            let (j, k) = choose|j: int, k: int|
                0 <= j < n && 0 <= k < 8 && sprite_bit(mem[i + j], k) && fb_bit(
                    mem,
                    #[trigger] pixel_at(x0, y0 + j, k),
                );
            if j < n - 1 {
                assert(exists|j2: int, k2: int|
                    0 <= j2 < n - 1 && 0 <= k2 < 8 && sprite_bit(mem[i + j2], k2) && fb_bit(
                        mem,
                        #[trigger] pixel_at(x0, y0 + j2, k2),
                    ));
            } else {
                assert(exists|t: int|
                    0 <= t < 8 && sprite_bit(b, t) && fb_bit(
                        prev,
                        #[trigger] pixel_at(x0, y0 + (n - 1), t),
                    ));
            }
            assert(collide_rows(mem, x0, y0, i, n));
        }
    }
}

/// Double-XOR: drawing the identical sprite at the identical location
/// twice in succession restores the framebuffer region, and with it all of
/// memory, to its contents before the first draw. Requires the sprite
/// source to lie outside the framebuffer, so the second draw reads the
/// same sprite rows as the first.
pub proof fn lemma_draw_twice_restores(mem: Seq<u8>, x0: int, y0: int, i: int, n: int)
    requires
        mem.len() == MEM_SIZE,
        0 <= x0 < 64,
        0 <= y0 < 32,
        0 <= n <= 15,
        0 <= i,
        i + n <= MEM_SIZE,
        sprite_outside_fb(i, n),
    ensures
        blit_rows(blit_rows(mem, x0, y0, i, n), x0, y0, i, n) == mem,
{
    let m1 = blit_rows(mem, x0, y0, i, n);
    let m2 = blit_rows(m1, x0, y0, i, n);
    lemma_blit_rows_pixels(mem, x0, y0, i, n);
    lemma_blit_rows_pixels(m1, x0, y0, i, n);
    // The second draw reads the same sprite bytes, so it touches the same
    // pixels.
    assert forall|p: int| 0 <= p < DISPLAY_PIXELS implies touched(m1, x0, y0, i, n, p) == touched(
        mem,
        x0,
        y0,
        i,
        n,
        p,
    ) by {
        if touched(m1, x0, y0, i, n, p) {
            let (j, k) = choose|j: int, k: int|
                0 <= j < n && 0 <= k < 8 && #[trigger] pixel_at(x0, y0 + j, k) == p && sprite_bit(
                    m1[i + j],
                    k,
                );
            assert(m1[i + j] == mem[i + j]);
            assert(touched(mem, x0, y0, i, n, p));
        }
        if touched(mem, x0, y0, i, n, p) {
            let (j, k) = choose|j: int, k: int|
                0 <= j < n && 0 <= k < 8 && #[trigger] pixel_at(x0, y0 + j, k) == p && sprite_bit(
                    mem[i + j],
                    k,
                );
            assert(m1[i + j] == mem[i + j]);
            assert(touched(m1, x0, y0, i, n, p));
        }
    }
    assert forall|a: int| 0 <= a < MEM_SIZE implies m2[a] == mem[a] by {
        if DISPLAY_MEM_START <= a < DISPLAY_MEM_START + DISPLAY_MEM_SIZE {
            let base = 8 * (a - DISPLAY_MEM_START);
            assert forall|j: u8| j < 8 implies nth_bit(m2[a], j) == nth_bit(mem[a], j) by {
                let p = base + 7 - j;
                assert(fb_byte_index(p) == a);
                assert(fb_bit_pos(p) == j);
                assert(fb_bit(m2, p) == fb_bit(mem, p));
            }
            lemma_byte_from_bits(m2[a], mem[a]);
        }
    }
    assert(m2 =~= mem);
}

/// What the second of two identical draws reports in VF: a collision
/// exactly where the first draw turned a pixel on, that is, where a set
/// sprite bit landed on a previously clear pixel. Requires the sprite
/// source to lie outside the framebuffer.
pub proof fn lemma_second_draw_collision(mem: Seq<u8>, x0: int, y0: int, i: int, n: int)
    requires
        mem.len() == MEM_SIZE,
        0 <= x0 < 64,
        0 <= y0 < 32,
        0 <= n <= 15,
        0 <= i,
        i + n <= MEM_SIZE,
        sprite_outside_fb(i, n),
    ensures
        collide_rows(blit_rows(mem, x0, y0, i, n), x0, y0, i, n) == exists|j: int, k: int|
            0 <= j < n && 0 <= k < 8 && sprite_bit(mem[i + j], k) && !fb_bit(
                mem,
                #[trigger] pixel_at(x0, y0 + j, k),
            ),
{
    let m1 = blit_rows(mem, x0, y0, i, n);
    lemma_blit_rows_pixels(mem, x0, y0, i, n);
    lemma_collide_rows_char(m1, x0, y0, i, n);
    assert forall|j: int, k: int| 0 <= j < n && 0 <= k < 8 implies (sprite_bit(m1[i + j], k)
        && fb_bit(m1, #[trigger] pixel_at(x0, y0 + j, k))) == (sprite_bit(mem[i + j], k)
        && !fb_bit(mem, pixel_at(x0, y0 + j, k))) by {
        assert(m1[i + j] == mem[i + j]);
        let p = pixel_at(x0, y0 + j, k);
        if sprite_bit(mem[i + j], k) {
            assert(touched(mem, x0, y0, i, n, p));
            assert(fb_bit(m1, p) == !fb_bit(mem, p));
        }
    }
    if collide_rows(m1, x0, y0, i, n) {
        let (j, k) = choose|j: int, k: int|
            0 <= j < n && 0 <= k < 8 && sprite_bit(m1[i + j], k) && fb_bit(
                m1,
                #[trigger] pixel_at(x0, y0 + j, k),
            );
        assert(sprite_bit(mem[i + j], k) && !fb_bit(mem, pixel_at(x0, y0 + j, k)));
    }
    if exists|j: int, k: int|
        0 <= j < n && 0 <= k < 8 && sprite_bit(mem[i + j], k) && !fb_bit(
            mem,
            #[trigger] pixel_at(x0, y0 + j, k),
        ) {
        let (j, k) = choose|j: int, k: int|
            0 <= j < n && 0 <= k < 8 && sprite_bit(mem[i + j], k) && !fb_bit(
                mem,
                #[trigger] pixel_at(x0, y0 + j, k),
            );
        assert(sprite_bit(m1[i + j], k) && fb_bit(m1, pixel_at(x0, y0 + j, k)));
        assert(collide_rows(m1, x0, y0, i, n));
    }
}

/// XOR an `n`-row sprite read from `mem` at address `i` into the
/// framebuffer, anchored at column `x0` and row `y0`; report whether any
/// previously-set pixel was turned off.
pub fn blit_sprite(mem: &mut Vec<u8>, x0: u8, y0: u8, i: u16, n: u8) -> (collision: bool)
    requires
        old(mem).len() == MEM_SIZE,
        x0 < 64,
        y0 < 32,
        n <= 15,
        i + n <= MEM_SIZE,
    ensures
        final(mem)@ == blit_rows(old(mem)@, x0 as int, y0 as int, i as int, n as int),
        collision == collide_rows(old(mem)@, x0 as int, y0 as int, i as int, n as int),
        final(mem)@.len() == MEM_SIZE,
{
    let ghost mem0 = mem@;
    let mut collision = false;
    let mut j: usize = 0;
    while j < n as usize
        invariant
            0 <= j <= n,
            mem@.len() == MEM_SIZE,
            x0 < 64,
            y0 < 32,
            n <= 15,
            i + n <= MEM_SIZE,
            mem@ == blit_rows(mem0, x0 as int, y0 as int, i as int, j as int),
            collision == collide_rows(mem0, x0 as int, y0 as int, i as int, j as int),
        decreases n as int - j as int,
    {
        let ghost row_start = mem@;
        let b = mem[i as usize + j];
        let yrow: usize = y0 as usize + j;
        let mut k: usize = 0;
        while k < 8
            invariant
                0 <= k <= 8,
                j < n,
                mem@.len() == MEM_SIZE,
                x0 < 64,
                y0 < 32,
                n <= 15,
                yrow == y0 as usize + j,
                mem@ == blit_row(row_start, b, x0 as int, yrow as int, k as int),
                collision == (collide_rows(mem0, x0 as int, y0 as int, i as int, j as int)
                    || collide_row(row_start, b, x0 as int, yrow as int, k as int)),
                row_start == blit_rows(mem0, x0 as int, y0 as int, i as int, j as int),
                row_start.len() == MEM_SIZE,
            decreases 8 - k as int,
        {
            let pos: usize = (x0 as usize + 64 * yrow + k) % 2048;
            let byte_index: usize = DISPLAY_MEM_START + pos / 8;
            let bit_pos: u8 = (7 - pos % 8) as u8;
            let sprite_sh: u8 = (7 - k) as u8;
            let sprite_on = (b >> sprite_sh) & 1u8 == 1u8;
            let display_on = (mem[byte_index] >> bit_pos) & 1u8 == 1u8;
            proof {
                assert(pos as int == pixel_at(x0 as int, yrow as int, k as int));
                assert(byte_index as int == fb_byte_index(pos as int));
                assert(bit_pos == fb_bit_pos(pos as int));
                assert(sprite_on == sprite_bit(b, k as int));
                assert(display_on == fb_bit(mem@, pos as int));
            }
            if sprite_on {
                if display_on {
                    collision = true;
                }
                let flipped = mem[byte_index] ^ (1u8 << bit_pos);
                mem.set(byte_index, flipped);
                proof {
                    assert(mem@ =~= flip_pixel(
                        blit_row(row_start, b, x0 as int, yrow as int, k as int),
                        pos as int,
                    ));
                }
            }
            k = k + 1;
        }
        proof {
            assert(row_start[i + j] == b);
            assert(blit_rows(mem0, x0 as int, y0 as int, i as int, j + 1) == blit_row(
                row_start,
                row_start[i + j],
                x0 as int,
                y0 + j as int,
                8,
            ));
            assert(collide_rows(mem0, x0 as int, y0 as int, i as int, j + 1) == (collide_rows(
                mem0,
                x0 as int,
                y0 as int,
                i as int,
                j as int,
            ) || collide_row(row_start, b, x0 as int, y0 + j as int, 8)));
        }
        j = j + 1;
    }
    collision
}

} // verus!
