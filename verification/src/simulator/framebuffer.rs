//! Decoding the simulated radio's LCD framebuffer into RGBA pixels, drawn
//! as a gray-green LCD for monochrome and grayscale screens.
use vstd::prelude::*;
use vstd::arithmetic::div_mod::lemma_fundamental_div_mod_converse;
use crate::radio_catalog::DisplayDef;

verus! {

/// LCD backlight color for monochrome/grayscale displays.
pub const BACKLIGHT_R: u8 = 0xC9;
pub const BACKLIGHT_G: u8 = 0xCB;
pub const BACKLIGHT_B: u8 = 0xBA;

/// LCD pixel "ink" color (dark, near-black).
pub const INK_R: u8 = 0x1A;
pub const INK_G: u8 = 0x1E;
pub const INK_B: u8 = 0x16;

/// Bit `i` (0 to 7) of a byte.
pub open spec fn bit_of(b: u8, i: int) -> bool {
    (b >> (i as u8)) & 1u8 == 1u8
}

/// One of three channel values by channel number.
pub open spec fn channel(c: int, r: u8, g: u8, b: u8) -> u8 {
    if c == 0 { r } else if c == 1 { g } else { b }
}

/// Channel `c` (0 red, 1 green, 2 blue, 3 alpha) of pixel (x, y) of a 1-bit
/// column-major framebuffer: byte `(y / 8) * w + x`, bit `y % 8`; a set bit
/// is ink, a clear one backlight; pixels beyond the buffer stay all zero.
pub open spec fn mono_pixel(src: Seq<u8>, w: int, x: int, y: int, c: int) -> u8 {
    let bi = (y / 8) * w + x;
    if bi >= src.len() {
        0
    } else if c == 3 {
        0xFF
    } else if bit_of(src[bi], y % 8) {
        channel(c, INK_R, INK_G, INK_B)
    } else {
        channel(c, BACKLIGHT_R, BACKLIGHT_G, BACKLIGHT_B)
    }
}

/// The 4-bit level of pixel (x, y): two rows share a byte, the low nibble
/// for even rows and the high nibble for odd ones.
pub open spec fn gray_level(b: u8, y: int) -> int {
    if y % 2 == 0 { (b % 16) as int } else { (b / 16) as int }
}

/// A level from 0 (darkest: ink) to 15 (brightest: backlight) blended
/// between the two colors.
pub open spec fn gray_channel(back: u8, ink: u8, level: int) -> int {
    back - ((back - ink) * ((15 - level) * 17)) / 255
}

/// Channel `c` of pixel (x, y) of a 4-bit grayscale framebuffer whose byte
/// `(y / 2) * w + x` holds the pixel.
pub open spec fn gray4_pixel(src: Seq<u8>, w: int, x: int, y: int, c: int) -> int {
    let bi = (y / 2) * w + x;
    if bi >= src.len() {
        0
    } else if c == 3 {
        0xFF
    } else {
        let l = gray_level(src[bi], y);
        if c == 0 {
            gray_channel(BACKLIGHT_R, INK_R, l)
        } else if c == 1 {
            gray_channel(BACKLIGHT_G, INK_G, l)
        } else {
            gray_channel(BACKLIGHT_B, INK_B, l)
        }
    }
}

/// Channel `c` of pixel (x, y) of a little-endian RGB565 framebuffer: the
/// 5-bit red, 6-bit green and 5-bit blue fields, shifted up to 8 bits.
pub open spec fn rgb565_pixel(src: Seq<u8>, w: int, x: int, y: int, c: int) -> int {
    let bi = (y * w + x) * 2;
    if bi + 1 >= src.len() {
        0
    } else {
        let lo = src[bi] as int;
        let hi = src[bi + 1] as int;
        if c == 0 {
            (hi / 8) * 8
        } else if c == 1 {
            (hi % 8) * 32 + (lo / 32) * 4
        } else if c == 2 {
            (lo % 32) * 8
        } else {
            0xFF
        }
    }
}

/// Byte `k` of an RGBA image `w` pixels wide lies in pixel
/// `((k / 4) % w, (k / 4) / w)`, channel `k % 4`.
pub proof fn lemma_pixel_byte(w: int, h: int, x: int, y: int, c: int)
    requires
        0 <= x < w,
        0 <= y < h,
        0 <= c < 4,
    ensures
        ((y * w + x) * 4 + c) / 4 == y * w + x,
        ((y * w + x) * 4 + c) % 4 == c,
        (y * w + x) % w == x,
        (y * w + x) / w == y,
        0 <= (y * w + x) * 4 + c < w * h * 4,
        0 <= y * w + x < w * h,
{
    lemma_fundamental_div_mod_converse(y * w + x, w, y, x);
    lemma_fundamental_div_mod_converse((y * w + x) * 4 + c, 4, y * w + x, c);
    assert(y * w + x < w * h) by (nonlinear_arith)
        requires 0 <= x < w, 0 <= y < h;
    assert(0 <= y * w) by (nonlinear_arith)
        requires 0 <= x < w, 0 <= y;
}

/// Pixel `p` of an image `w` wide is at `(p % w, p / w)`, inside an image
/// `h` high when `p < w * h`.
pub proof fn lemma_pixel_coords(p: int, w: int, h: int)
    requires
        0 <= p < w * h,
        w > 0,
    ensures
        0 <= p % w < w,
        0 <= p / w < h,
        (p / w) * w + p % w == p,
{
    vstd::arithmetic::div_mod::lemma_fundamental_div_mod(p, w);
    vstd::arithmetic::div_mod::lemma_div_pos_is_pos(p, w);
    vstd::arithmetic::div_mod::lemma_mod_pos_bound(p, w);
    vstd::arithmetic::mul::lemma_mul_is_commutative(w, p / w);
    if p / w >= h {
        assert((p / w) * w >= h * w) by (nonlinear_arith)
            requires p / w >= h, w > 0;
        assert(w * h == h * w) by (nonlinear_arith);
    }
}

/// Converts a 1-bit column-major LCD framebuffer to RGBA: a set bit is a
/// dark (ink) pixel, a clear one shows the backlight.
pub fn decode_mono(src: &[u8], w: usize, h: usize) -> (rgba: Vec<u8>)
    requires
        w * h * 4 <= usize::MAX,
    ensures
        rgba@.len() == w * h * 4,
        forall|x: int, y: int, c: int| 0 <= x < w && 0 <= y < h && 0 <= c < 4
            ==> rgba@[(y * w + x) * 4 + c] == #[trigger] mono_pixel(src@, w as int, x, y, c),
{
    let n = w * h;
    let mut rgba: Vec<u8> = Vec::new();
    let mut p: usize = 0;
    while p < n
        invariant
            n == w * h,
            w * h * 4 <= usize::MAX,
            p <= n,
            rgba@.len() == 4 * p,
            forall|k: int| 0 <= k < 4 * p ==> rgba@[k] == mono_pixel(src@, w as int, (k / 4) % (w as int), (k / 4) / (w as int), k % 4),
        decreases n - p,
    {
        proof {
            lemma_pixel_coords(p as int, w as int, h as int);
        }
        let x = p % w;
        let y = p / w;
        proof {
            assert((y / 8) * w <= y * w) by (nonlinear_arith)
                requires w > 0, y >= 0;
        }
        let bi = (y / 8) * w + x;
        let ghost start = rgba@;
        if bi >= src.len() {
            rgba.push(0);
            rgba.push(0);
            rgba.push(0);
            rgba.push(0);
        } else {
            let b = src[bi];
            let on = (b >> ((y % 8) as u8)) & 1u8 == 1u8;
            if on {
                rgba.push(INK_R);
                rgba.push(INK_G);
                rgba.push(INK_B);
            } else {
                rgba.push(BACKLIGHT_R);
                rgba.push(BACKLIGHT_G);
                rgba.push(BACKLIGHT_B);
            }
            rgba.push(0xFF);
        }
        proof {
            assert forall|k: int| 0 <= k < 4 * (p + 1) implies rgba@[k] == mono_pixel(src@, w as int, (k / 4) % (w as int), (k / 4) / (w as int), k % 4) by {
                if k >= 4 * p {
                    assert(k / 4 == p);
                    assert(rgba@[k] == mono_pixel(src@, w as int, x as int, y as int, k % 4));
                } else {
                    assert(rgba@[k] == start[k]);
                }
            }
        }
        p += 1;
    }
    proof {
        assert forall|x: int, y: int, c: int| 0 <= x < w && 0 <= y < h && 0 <= c < 4
            implies rgba@[(y * w + x) * 4 + c] == #[trigger] mono_pixel(src@, w as int, x, y, c) by {
            lemma_pixel_byte(w as int, h as int, x, y, c);
        }
    }
    rgba
}

/// One blended channel of a grayscale pixel.
fn gray_exec(back: u8, ink: u8, level: u8) -> (r: u8)
    requires
        ink <= back,
        level <= 15,
    ensures
        r == gray_channel(back, ink, level as int),
{
    let t: u16 = (15 - level as u16) * 17;
    let d: u16 = back as u16 - ink as u16;
    proof {
        assert(d * t <= 255 * 255) by (nonlinear_arith)
            requires d <= 255, t <= 255;
        assert((d * t) / 255 <= d) by (nonlinear_arith)
            requires t <= 255, d >= 0;
    }
    let v: u16 = back as u16 - d * t / 255;
    v as u8
}

/// Converts a 4-bit grayscale framebuffer to RGBA: level 0 is the darkest
/// (ink), level 15 the brightest (backlight), and levels between blend the
/// two.
pub fn decode_gray4(src: &[u8], w: usize, h: usize) -> (rgba: Vec<u8>)
    requires
        w * h * 4 <= usize::MAX,
    ensures
        rgba@.len() == w * h * 4,
        forall|x: int, y: int, c: int| 0 <= x < w && 0 <= y < h && 0 <= c < 4
            ==> rgba@[(y * w + x) * 4 + c] == #[trigger] gray4_pixel(src@, w as int, x, y, c),
{
    let n = w * h;
    let mut rgba: Vec<u8> = Vec::new();
    let mut p: usize = 0;
    while p < n
        invariant
            n == w * h,
            w * h * 4 <= usize::MAX,
            p <= n,
            rgba@.len() == 4 * p,
            forall|k: int| 0 <= k < 4 * p ==> rgba@[k] == gray4_pixel(src@, w as int, (k / 4) % (w as int), (k / 4) / (w as int), k % 4),
        decreases n - p,
    {
        proof {
            lemma_pixel_coords(p as int, w as int, h as int);
        }
        let x = p % w;
        let y = p / w;
        proof {
            assert((y / 2) * w <= y * w) by (nonlinear_arith)
                requires w > 0, y >= 0;
        }
        let bi = (y / 2) * w + x;
        let ghost start = rgba@;
        if bi >= src.len() {
            rgba.push(0);
            rgba.push(0);
            rgba.push(0);
            rgba.push(0);
        } else {
            let b = src[bi];
            let level: u8 = if y % 2 == 0 { b % 16 } else { b / 16 };
            rgba.push(gray_exec(BACKLIGHT_R, INK_R, level));
            rgba.push(gray_exec(BACKLIGHT_G, INK_G, level));
            rgba.push(gray_exec(BACKLIGHT_B, INK_B, level));
            rgba.push(0xFF);
        }
        proof {
            assert forall|k: int| 0 <= k < 4 * (p + 1) implies rgba@[k] == gray4_pixel(src@, w as int, (k / 4) % (w as int), (k / 4) / (w as int), k % 4) by {
                if k >= 4 * p {
                    assert(k / 4 == p);
                    assert(rgba@[k] == gray4_pixel(src@, w as int, x as int, y as int, k % 4));
                } else {
                    assert(rgba@[k] == start[k]);
                }
            }
        }
        p += 1;
    }
    proof {
        assert forall|x: int, y: int, c: int| 0 <= x < w && 0 <= y < h && 0 <= c < 4
            implies rgba@[(y * w + x) * 4 + c] == #[trigger] gray4_pixel(src@, w as int, x, y, c) by {
            lemma_pixel_byte(w as int, h as int, x, y, c);
        }
    }
    rgba
}

/// The red, green and blue bytes of one RGB565 value.
fn rgb565_channels(lo: u8, hi: u8) -> (r: (u8, u8, u8))
    ensures
        r.0 == (hi / 8) * 8,
        r.1 == (hi % 8) * 32 + (lo / 32) * 4,
        r.2 == (lo % 32) * 8,
{
    let v: u16 = lo as u16 | (hi as u16) << 8;
    let red = ((v >> 11) << 3) as u8;
    let green = (((v >> 5) & 0x3F) << 2) as u8;
    let blue = ((v & 0x1F) << 3) as u8;
    assert(((((lo as u16 | (hi as u16) << 8) >> 11) << 3) as u8) == (hi / 8) * 8) by (bit_vector);
    assert((((((lo as u16 | (hi as u16) << 8) >> 5) & 0x3F) << 2) as u8) == (hi % 8) * 32 + (lo / 32) * 4) by (bit_vector);
    assert(((((lo as u16 | (hi as u16) << 8) & 0x1F) << 3) as u8) == (lo % 32) * 8) by (bit_vector);
    (red, green, blue)
}

/// Converts a 16-bit little-endian RGB565 framebuffer to RGBA.
pub fn decode_rgb565(src: &[u8], w: usize, h: usize) -> (rgba: Vec<u8>)
    requires
        w * h * 4 <= usize::MAX,
    ensures
        rgba@.len() == w * h * 4,
        forall|x: int, y: int, c: int| 0 <= x < w && 0 <= y < h && 0 <= c < 4
            ==> rgba@[(y * w + x) * 4 + c] == #[trigger] rgb565_pixel(src@, w as int, x, y, c),
{
    let n = w * h;
    let mut rgba: Vec<u8> = Vec::new();
    let mut p: usize = 0;
    while p < n
        invariant
            n == w * h,
            w * h * 4 <= usize::MAX,
            p <= n,
            rgba@.len() == 4 * p,
            forall|k: int| 0 <= k < 4 * p ==> rgba@[k] == rgb565_pixel(src@, w as int, (k / 4) % (w as int), (k / 4) / (w as int), k % 4),
        decreases n - p,
    {
        proof {
            lemma_pixel_coords(p as int, w as int, h as int);
        }
        let x = p % w;
        let y = p / w;
        let bi = p * 2;
        let ghost start = rgba@;
        if bi + 1 >= src.len() {
            rgba.push(0);
            rgba.push(0);
            rgba.push(0);
            rgba.push(0);
        } else {
            let (r, g, b) = rgb565_channels(src[bi], src[bi + 1]);
            rgba.push(r);
            rgba.push(g);
            rgba.push(b);
            rgba.push(0xFF);
        }
        proof {
            assert(bi == (y * w + x) * 2);
            assert forall|k: int| 0 <= k < 4 * (p + 1) implies rgba@[k] == rgb565_pixel(src@, w as int, (k / 4) % (w as int), (k / 4) / (w as int), k % 4) by {
                if k >= 4 * p {
                    assert(k / 4 == p);
                    assert(rgba@[k] == rgb565_pixel(src@, w as int, x as int, y as int, k % 4));
                } else {
                    assert(rgba@[k] == start[k]);
                }
            }
        }
        p += 1;
    }
    proof {
        assert forall|x: int, y: int, c: int| 0 <= x < w && 0 <= y < h && 0 <= c < 4
            implies rgba@[(y * w + x) * 4 + c] == #[trigger] rgb565_pixel(src@, w as int, x, y, c) by {
            lemma_pixel_byte(w as int, h as int, x, y, c);
        }
    }
    rgba
}

/// The size in bytes of a display's framebuffer: 1 bit per pixel in
/// column bytes of 8 rows, 4 bits per pixel, or 2 bytes per pixel.
pub open spec fn spec_lcd_buffer_size(w: int, h: int, depth: int) -> int {
    if depth == 1 {
        w * ((h + 7) / 8)
    } else if depth == 4 {
        (w * h) / 2
    } else {
        w * h * 2
    }
}

/// A display whose pixel count, times 4, fits in memory.
pub open spec fn display_fits(d: DisplayDef) -> bool {
    d.w >= 0 && d.h >= 0 && d.w * d.h * 4 <= usize::MAX
}

/// The expected framebuffer size of a display.
pub fn lcd_buffer_size(d: &DisplayDef) -> (r: usize)
    requires
        display_fits(*d),
    ensures
        r == spec_lcd_buffer_size(d.w as int, d.h as int, d.depth as int),
{
    let w = d.w as usize;
    let h = d.h as usize;
    proof {
        assert(w * ((h + 7) / 8) <= w * h * 4) by (nonlinear_arith)
            requires w >= 0, h >= 0;
    }
    if d.depth == 1 {
        w * ((h + 7) / 8)
    } else if d.depth == 4 {
        w * h / 2
    } else {
        w * h * 2
    }
}

/// The RGBA image of a framebuffer, decoded by the display's depth: 1-bit
/// monochrome, 4-bit grayscale, otherwise RGB565.
pub open spec fn decoded_pixel(src: Seq<u8>, d: DisplayDef, x: int, y: int, c: int) -> int {
    if d.depth == 1 {
        mono_pixel(src, d.w as int, x, y, c) as int
    } else if d.depth == 4 {
        gray4_pixel(src, d.w as int, x, y, c)
    } else {
        rgb565_pixel(src, d.w as int, x, y, c)
    }
}

/// Decodes a framebuffer by the display's depth.
pub fn decode(src: &[u8], d: &DisplayDef) -> (rgba: Vec<u8>)
    requires
        display_fits(*d),
    ensures
        rgba@.len() == d.w * d.h * 4,
        forall|x: int, y: int, c: int| 0 <= x < d.w && 0 <= y < d.h && 0 <= c < 4
            ==> rgba@[(y * d.w + x) * 4 + c] == #[trigger] decoded_pixel(src@, *d, x, y, c),
{
    let w = d.w as usize;
    let h = d.h as usize;
    if d.depth == 1 {
        decode_mono(src, w, h)
    } else if d.depth == 4 {
        decode_gray4(src, w, h)
    } else {
        decode_rgb565(src, w, h)
    }
}

} // verus!
