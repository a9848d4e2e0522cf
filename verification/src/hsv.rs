//! HSV to RGB conversion over 8-bit channels.
//!
//! Hue, saturation and value each arrive as an 8-bit integer standing for a
//! fraction of 255. The hue is first reduced modulo 255 (not 256), so the
//! effective hue range is `[0, 254]`; the reduction is part of the interface
//! and `h == 255` lands on the same color as `h == 0`. The hue fraction is
//! split into one of six sectors of the color wheel plus a fractional
//! position inside the sector, and each sector scales two of the three
//! channels by the standard blending factors. Every channel is finally
//! quantized to `[0, 255]` by truncation.
//!
//! All arithmetic is exact: a scaled channel `v * x / 255` is computed as an
//! integer product followed by a truncating division, so the quantized
//! channels are the mathematical values of the blending formulas.

use vstd::prelude::*;
use vstd::arithmetic::div_mod::lemma_div_is_ordered;

verus! {

/// The hue input reduced modulo 255, in `[0, 254]`.
pub open spec fn hue_reduced(h: u8) -> int {
    h as int % 255
}

/// Which of the six 60-degree sectors of the color wheel the hue falls in,
/// in `[0, 5]` (the reduced hue never reaches a full turn, so a sector
/// index of 6 cannot arise, but a hue that somehow produced one would fall
/// through with all channels left at full value).
pub open spec fn sector_of(h: u8) -> int {
    6 * hue_reduced(h) / 255
}

/// Position inside the sector, as a numerator over 255: the fractional part
/// `f` of `6 * hue` is `sector_frac(h) / 255`, in `[0, 254]`.
pub open spec fn sector_frac(h: u8) -> int {
    6 * hue_reduced(h) % 255
}

/// A channel left at full value: `v`, already quantized since
/// `(v/255) * 255 == v`.
pub open spec fn chan_full(v: u8) -> int {
    v as int
}

/// A channel scaled by `1 - s`: the quantized value of
/// `(v/255) * (1 - s/255) * 255`.
pub open spec fn chan_flat(s: u8, v: u8) -> int {
    v as int * (255 - s as int) / 255
}

/// A channel scaled by `1 - s*f`, falling as the in-sector fraction
/// `f == fnum/255` grows: the quantized value of
/// `(v/255) * (1 - (s/255)*(fnum/255)) * 255`.
pub open spec fn chan_falling(s: u8, v: u8, fnum: int) -> int {
    v as int * (65025 - s as int * fnum) / 65025
}

/// A channel scaled by `1 - s*(1 - f)`, rising as the in-sector fraction
/// `f == fnum/255` grows: the quantized value of
/// `(v/255) * (1 - (s/255)*((255 - fnum)/255)) * 255`.
pub open spec fn chan_rising(s: u8, v: u8, fnum: int) -> int {
    v as int * (65025 - s as int * (255 - fnum)) / 65025
}

/// The three quantized channels (red, green, blue) that the conversion
/// produces for a given (hue, saturation, value) triple. Zero saturation
/// gives a gray level equal to `v` whatever the hue; otherwise each sector
/// leaves one channel at full value and blends the other two.
pub open spec fn rgb_levels(h: u8, s: u8, v: u8) -> (int, int, int) {
    if s == 0 {
        (chan_full(v), chan_full(v), chan_full(v))
    } else {
        let i = sector_of(h);
        let fnum = sector_frac(h);
        if i == 0 {
            (chan_full(v), chan_rising(s, v, fnum), chan_flat(s, v))
        } else if i == 1 {
            (chan_falling(s, v, fnum), chan_full(v), chan_flat(s, v))
        } else if i == 2 {
            (chan_flat(s, v), chan_full(v), chan_rising(s, v, fnum))
        } else if i == 3 {
            (chan_flat(s, v), chan_falling(s, v, fnum), chan_full(v))
        } else if i == 4 {
            (chan_rising(s, v, fnum), chan_flat(s, v), chan_full(v))
        } else if i == 5 {
            (chan_full(v), chan_flat(s, v), chan_falling(s, v, fnum))
        } else {
            (chan_full(v), chan_full(v), chan_full(v))
        }
    }
}

/// The red channel of the conversion.
pub open spec fn red_level(h: u8, s: u8, v: u8) -> int {
    rgb_levels(h, s, v).0
}

/// The green channel of the conversion.
pub open spec fn green_level(h: u8, s: u8, v: u8) -> int {
    rgb_levels(h, s, v).1
}

/// The blue channel of the conversion.
pub open spec fn blue_level(h: u8, s: u8, v: u8) -> int {
    rgb_levels(h, s, v).2
}

/// A scaled channel `a * num / den` stays within `[0, 255]` whenever the
/// base channel does and the scaling fraction `num / den` is at most one.
proof fn lemma_scale_bounds(a: int, num: int, den: int) by (nonlinear_arith)
    requires
        0 <= a <= 255,
        0 <= num <= den,
        0 < den,
    ensures
        0 <= a * num / den <= 255,
{
}

/// Zero saturation is achromatic: every channel equals the value input,
/// whatever the hue.
pub proof fn lemma_achromatic_gray(h: u8, v: u8)
    ensures
        rgb_levels(h, 0, v) == (v as int, v as int, v as int),
{
}

/// Every channel the conversion produces lies in `[0, 255]`: no blending
/// formula can overflow or underflow the 8-bit range.
pub proof fn lemma_levels_in_range(h: u8, s: u8, v: u8)
    ensures
        0 <= red_level(h, s, v) <= 255,
        0 <= green_level(h, s, v) <= 255,
        0 <= blue_level(h, s, v) <= 255,
{
    if s != 0 {
        let fnum = sector_frac(h);
        assert(0 <= fnum < 255);
        lemma_scale_bounds(v as int, 255 - s as int, 255);
        assert(0 <= s as int * fnum <= 65025) by (nonlinear_arith)
            requires
                0 <= s as int <= 255,
                0 <= fnum <= 255,
        ;
        lemma_scale_bounds(v as int, 65025 - s as int * fnum, 65025);
        assert(0 <= s as int * (255 - fnum) <= 65025) by (nonlinear_arith)
            requires
                0 <= s as int <= 255,
                0 <= 255 - fnum <= 255,
        ;
        lemma_scale_bounds(v as int, 65025 - s as int * (255 - fnum), 65025);
    }
}

/// The conversion is a pure function of its three inputs: two colors
/// produced from the same (hue, saturation, value) triple are channelwise
/// identical, so repeating a call, or replaying a whole cycle of hues,
/// reproduces the same output.
pub proof fn lemma_conversion_deterministic(c1: Color, c2: Color, h: u8, s: u8, v: u8)
    requires
        c1@ == rgb_levels(h, s, v),
        c2@ == rgb_levels(h, s, v),
    ensures
        c1@ == c2@,
{
}

/// Hues that agree modulo 255 produce identical colors; in particular a
/// hue of 255 lands on the same color as a hue of 0.
pub proof fn lemma_hue_periodic(h1: u8, h2: u8, s: u8, v: u8)
    requires
        h1 as int % 255 == h2 as int % 255,
    ensures
        rgb_levels(h1, s, v) == rgb_levels(h2, s, v),
{
}

/// Quantized channel scaled by `1 - s`: computes `chan_flat(s, v)`.
fn scale_flat(s: u8, v: u8) -> (c: u8)
    ensures
        c as int == chan_flat(s, v),
{
    proof {
        assert(v as int * (255 - s as int) <= 65025) by (nonlinear_arith)
            requires
                v <= 255,
                0 <= 255 - s as int <= 255,
        ;
        assert(v as int * (255 - s as int) >= 0) by (nonlinear_arith)
            requires
                v >= 0,
                255 - s as int >= 0,
        ;
    }
    let prod: u32 = (v as u32) * (255 - s as u32);
    proof {
        lemma_div_is_ordered(prod as int, 65025, 255);
    }
    (prod / 255) as u8
}

/// Quantized channel scaled by `1 - s * (num/255)`: computes
/// `v * (65025 - s * num) / 65025`, which is `chan_falling(s, v, num)` when
/// `num` is the in-sector fraction and `chan_rising(s, v, fnum)` when `num`
/// is `255 - fnum`.
fn scale_blend(s: u8, v: u8, num: u32) -> (c: u8)
    requires
        num <= 255,
    ensures
        c as int == v as int * (65025 - s as int * num) / 65025,
{
    proof {
        assert(s as int * num <= 65025) by (nonlinear_arith)
            requires
                s <= 255,
                num <= 255,
        ;
        assert(s as int * num >= 0) by (nonlinear_arith)
            requires
                s >= 0,
                num >= 0,
        ;
        assert(v as int * (65025 - s as int * num) <= 16581375) by (nonlinear_arith)
            requires
                v <= 255,
                0 <= 65025 - s as int * num <= 65025,
        ;
        assert(v as int * (65025 - s as int * num) >= 0) by (nonlinear_arith)
            requires
                v >= 0,
                65025 - s as int * num >= 0,
        ;
    }
    let prod: u32 = (v as u32) * (65025 - (s as u32) * num);
    proof {
        lemma_div_is_ordered(prod as int, 16581375, 65025);
    }
    (prod / 65025) as u8
}

/// An RGB color of three 8-bit channels, overwritten wholesale by each
/// conversion call.
pub struct Color {
    r: u8,
    g: u8,
    b: u8,
}

impl View for Color {
    type V = (int, int, int);

    closed spec fn view(&self) -> (int, int, int) {
        (self.r as int, self.g as int, self.b as int)
    }
}

impl Color {
    /// A fresh color with all channels at zero (black).
    pub fn new() -> (c: Self)
        ensures
            c@ == (0int, 0int, 0int),
    {
        Self { r: 0, g: 0, b: 0 }
    }

    /// Convert an HSV triple to RGB, overwriting the held color. Each
    /// channel of the new color is exactly the quantized blending value
    /// that `rgb_levels` gives for the inputs; the result depends on the
    /// three inputs alone, never on the previous color.
    pub fn hsv2rgb(&mut self, h: u8, s: u8, v: u8)
        ensures
            final(self)@ == rgb_levels(h, s, v),
    {
        let hp: u32 = h as u32 % 255;
        if s == 0 {
            self.r = v;
            self.g = v;
            self.b = v;
        } else {
            let t: u32 = 6 * hp;
            let i: u32 = t / 255;
            let fnum: u32 = t % 255;
            proof {
                assert(hp as int == hue_reduced(h));
                assert(i as int == sector_of(h));
                assert(fnum as int == sector_frac(h));
            }
            let full: u8 = v;
            let flat: u8 = scale_flat(s, v);
            let falling: u8 = scale_blend(s, v, fnum);
            let rising: u8 = scale_blend(s, v, 255 - fnum);
            match i {
                0 => {
                    self.r = full;
                    self.g = rising;
                    self.b = flat;
                }
                1 => {
                    self.r = falling;
                    self.g = full;
                    self.b = flat;
                }
                2 => {
                    self.r = flat;
                    self.g = full;
                    self.b = rising;
                }
                3 => {
                    self.r = flat;
                    self.g = falling;
                    self.b = full;
                }
                4 => {
                    self.r = rising;
                    self.g = flat;
                    self.b = full;
                }
                5 => {
                    self.r = full;
                    self.g = flat;
                    self.b = falling;
                }
                _ => {
                    self.r = full;
                    self.g = full;
                    self.b = full;
                }
            }
        }
    }

    /// The channels in order (red, green, blue).
    pub fn to_rgb_array(&self) -> (a: [u8; 3])
        ensures
            a@.len() == 3,
            a@[0] as int == self@.0,
            a@[1] as int == self@.1,
            a@[2] as int == self@.2,
    {
        [self.r, self.g, self.b]
    }
}

} // verus!
