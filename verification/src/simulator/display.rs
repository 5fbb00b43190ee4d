//! Decoding the simulated radio's LCD framebuffer into RGBA pixels, drawn
//! as a blue-backlit LCD for monochrome and grayscale screens.
use vstd::prelude::*;
use crate::radio_catalog::DisplayDef;
use super::framebuffer::{
    bit_of, channel, display_fits, lemma_pixel_byte, lemma_pixel_coords, rgb565_pixel,
    spec_lcd_buffer_size,
};

verus! {

/// LCD backlight color for monochrome/grayscale displays (blue tint).
pub const BACKLIGHT_R: u8 = 0x2F;
pub const BACKLIGHT_G: u8 = 0x7B;
pub const BACKLIGHT_B: u8 = 0xE3;

/// Channel `c` of pixel (x, y) of a 1-bit column-major framebuffer: a set
/// bit lights the pixel in the backlight color, a clear one leaves it
/// black; pixels beyond the buffer stay all zero.
pub open spec fn mono_pixel(src: Seq<u8>, w: int, x: int, y: int, c: int) -> u8 {
    let bi = (y / 8) * w + x;
    if bi >= src.len() {
        0
    } else if c == 3 {
        0xFF
    } else if bit_of(src[bi], y % 8) {
        channel(c, BACKLIGHT_R, BACKLIGHT_G, BACKLIGHT_B)
    } else {
        0
    }
}

/// The 4-bit level of pixel (x, y): pixels are packed two per byte in row
/// order, the even pixel in the high nibble.
pub open spec fn gray_level(src: Seq<u8>, w: int, x: int, y: int) -> int {
    let p = y * w + x;
    let b = src[p / 2];
    if p % 2 == 0 { (b / 16) as int } else { (b % 16) as int }
}

/// Channel `c` of pixel (x, y) of a 4-bit grayscale framebuffer: the
/// backlight color scaled by the level (0 black, 15 full).
pub open spec fn gray4_pixel(src: Seq<u8>, w: int, x: int, y: int, c: int) -> int {
    let p = y * w + x;
    if p / 2 >= src.len() {
        0
    } else if c == 3 {
        0xFF
    } else {
        (channel(c, BACKLIGHT_R, BACKLIGHT_G, BACKLIGHT_B) * (gray_level(src, w, x, y) * 17)) / 255
    }
}

/// Converts a 1-bit column-major LCD framebuffer to RGBA.
pub fn decode_mono(src: &[u8], w: usize, h: usize) -> (rgba: Vec<u8>)
    requires
        w * h * 4 <= usize::MAX,
    ensures
        rgba@.len() == w * h * 4,
        forall|x: int, y: int, c: int| 0 <= x < w && 0 <= y < h && 0 <= c < 4
            ==> rgba@[(y * w + x) * 4 + c] == #[trigger] mono_pixel(src@, w as int, x, y, c),
{
    let n = w * h;
    let mut rgba: Vec<u8> = Vec::new();
    let mut p: usize = 0;
    while p < n
        invariant
            n == w * h,
            w * h * 4 <= usize::MAX,
            p <= n,
            rgba@.len() == 4 * p,
            forall|k: int| 0 <= k < 4 * p ==> rgba@[k] == mono_pixel(src@, w as int, (k / 4) % (w as int), (k / 4) / (w as int), k % 4),
        decreases n - p,
    {
        proof {
            lemma_pixel_coords(p as int, w as int, h as int);
        }
        let x = p % w;
        let y = p / w;
        proof {
            assert((y / 8) * w <= y * w) by (nonlinear_arith)
                requires w > 0, y >= 0;
        }
        let bi = (y / 8) * w + x;
        let ghost start = rgba@;
        if bi >= src.len() {
            rgba.push(0);
            rgba.push(0);
            rgba.push(0);
            rgba.push(0);
        } else {
            let b = src[bi];
            if (b >> ((y % 8) as u8)) & 1u8 == 1u8 {
                rgba.push(BACKLIGHT_R);
                rgba.push(BACKLIGHT_G);
                rgba.push(BACKLIGHT_B);
            } else {
                rgba.push(0);
                rgba.push(0);
                rgba.push(0);
            }
            rgba.push(0xFF);
        }
        proof {
            assert forall|k: int| 0 <= k < 4 * (p + 1) implies rgba@[k] == mono_pixel(src@, w as int, (k / 4) % (w as int), (k / 4) / (w as int), k % 4) by {
                if k >= 4 * p {
                    assert(k / 4 == p);
                    assert(rgba@[k] == mono_pixel(src@, w as int, x as int, y as int, k % 4));
                } else {
                    assert(rgba@[k] == start[k]);
                }
            }
        }
        p += 1;
    }
    proof {
        assert forall|x: int, y: int, c: int| 0 <= x < w && 0 <= y < h && 0 <= c < 4
            implies rgba@[(y * w + x) * 4 + c] == #[trigger] mono_pixel(src@, w as int, x, y, c) by {
            lemma_pixel_byte(w as int, h as int, x, y, c);
        }
    }
    rgba
}

fn scale_exec(color: u8, level: u8) -> (r: u8)
    requires
        level <= 15,
    ensures
        r == (color * (level * 17)) / 255,
{
    let intensity: u8 = level * 17;
    proof {
        assert(color * intensity <= 255 * 255) by (nonlinear_arith)
            requires color <= 255, intensity <= 255;
        assert((color * intensity) / 255 <= 255) by (nonlinear_arith)
            requires color <= 255, intensity <= 255;
    }
    (color as u16 * intensity as u16 / 255) as u8
}

/// Converts a 4-bit grayscale framebuffer to RGBA.
pub fn decode_gray4(src: &[u8], w: usize, h: usize) -> (rgba: Vec<u8>)
    requires
        w * h * 4 <= usize::MAX,
    ensures
        rgba@.len() == w * h * 4,
        forall|x: int, y: int, c: int| 0 <= x < w && 0 <= y < h && 0 <= c < 4
            ==> rgba@[(y * w + x) * 4 + c] == #[trigger] gray4_pixel(src@, w as int, x, y, c),
{
    let n = w * h;
    let mut rgba: Vec<u8> = Vec::new();
    let mut p: usize = 0;
    while p < n
        invariant
            n == w * h,
            w * h * 4 <= usize::MAX,
            p <= n,
            rgba@.len() == 4 * p,
            forall|k: int| 0 <= k < 4 * p ==> rgba@[k] == gray4_pixel(src@, w as int, (k / 4) % (w as int), (k / 4) / (w as int), k % 4),
        decreases n - p,
    {
        proof {
            lemma_pixel_coords(p as int, w as int, h as int);
        }
        let x = p % w;
        let y = p / w;
        let bi = p / 2;
        let ghost start = rgba@;
        if bi >= src.len() {
            rgba.push(0);
            rgba.push(0);
            rgba.push(0);
            rgba.push(0);
        } else {
            let b = src[bi];
            let level: u8 = if p % 2 == 0 { b / 16 } else { b % 16 };
            rgba.push(scale_exec(BACKLIGHT_R, level));
            rgba.push(scale_exec(BACKLIGHT_G, level));
            rgba.push(scale_exec(BACKLIGHT_B, level));
            rgba.push(0xFF);
        }
        proof {
            assert(p == y * w + x);
            assert forall|k: int| 0 <= k < 4 * (p + 1) implies rgba@[k] == gray4_pixel(src@, w as int, (k / 4) % (w as int), (k / 4) / (w as int), k % 4) by {
                if k >= 4 * p {
                    assert(k / 4 == p);
                    assert(rgba@[k] == gray4_pixel(src@, w as int, x as int, y as int, k % 4));
                } else {
                    assert(rgba@[k] == start[k]);
                }
            }
        }
        p += 1;
    }
    proof {
        assert forall|x: int, y: int, c: int| 0 <= x < w && 0 <= y < h && 0 <= c < 4
            implies rgba@[(y * w + x) * 4 + c] == #[trigger] gray4_pixel(src@, w as int, x, y, c) by {
            lemma_pixel_byte(w as int, h as int, x, y, c);
        }
    }
    rgba
}

/// Converts a 16-bit little-endian RGB565 framebuffer to RGBA.
pub fn decode_rgb565(src: &[u8], w: usize, h: usize) -> (rgba: Vec<u8>)
    requires
        w * h * 4 <= usize::MAX,
    ensures
        rgba@.len() == w * h * 4,
        forall|x: int, y: int, c: int| 0 <= x < w && 0 <= y < h && 0 <= c < 4
            ==> rgba@[(y * w + x) * 4 + c] == #[trigger] rgb565_pixel(src@, w as int, x, y, c),
{
    super::framebuffer::decode_rgb565(src, w, h)
}

/// The expected framebuffer size of a display.
pub fn lcd_buffer_size(d: &DisplayDef) -> (r: usize)
    requires
        display_fits(*d),
    ensures
        r == spec_lcd_buffer_size(d.w as int, d.h as int, d.depth as int),
{
    super::framebuffer::lcd_buffer_size(d)
}

/// The RGBA image of a framebuffer, decoded by the display's depth.
pub open spec fn decoded_pixel(src: Seq<u8>, d: DisplayDef, x: int, y: int, c: int) -> int {
    if d.depth == 1 {
        mono_pixel(src, d.w as int, x, y, c) as int
    } else if d.depth == 4 {
        gray4_pixel(src, d.w as int, x, y, c)
    } else {
        rgb565_pixel(src, d.w as int, x, y, c)
    }
}

/// Decodes a framebuffer by the display's depth: 1-bit monochrome, 4-bit
/// grayscale, otherwise RGB565.
pub fn decode_framebuffer(src: &[u8], d: &DisplayDef) -> (rgba: Vec<u8>)
    requires
        display_fits(*d),
    ensures
        rgba@.len() == d.w * d.h * 4,
        forall|x: int, y: int, c: int| 0 <= x < d.w && 0 <= y < d.h && 0 <= c < 4
            ==> rgba@[(y * d.w + x) * 4 + c] == #[trigger] decoded_pixel(src@, *d, x, y, c),
{
    let w = d.w as usize;
    let h = d.h as usize;
    if d.depth == 1 {
        decode_mono(src, w, h)
    } else if d.depth == 4 {
        decode_gray4(src, w, h)
    } else {
        decode_rgb565(src, w, h)
    }
}

} // verus!
