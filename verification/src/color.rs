//! The normalized color value: four fixed-point channels with hex and HSV
//! conversion and blend/shade arithmetic.
//!
//! A channel holds `0 ..= 255000` in units of 1/255000, so the hex byte `b`
//! is exactly the channel `1000 * b`. Hue is measured in thousandths of a
//! degree (`0 ..= 360000`), saturation and value in thousandths of a percent
//! (`0 ..= 100000`), and blend/shade fractions in thousandths (`1000` is the
//! whole distance).

use vstd::prelude::*;
use vstd::string::*;
use vstd::arithmetic::div_mod::{
    lemma_fundamental_div_mod, lemma_div_is_ordered, lemma_div_multiples_vanish_fancy,
    lemma_fundamental_div_mod_converse, lemma_small_mod,
};
use vstd::arithmetic::mul::{lemma_mul_inequality, lemma_mul_upper_bound};
use crate::error::EngineError;
use crate::hex::{
    all_hex, byte_at, hex_pair, hex_val, hex_char, hex_digit_val, is_hex_digit,
    lower_hex_char, push_hex_byte, lemma_hex_digit_val_range, lemma_hex_pair_of_digits,
    lemma_hex_char_of_val,
};

verus! {

/// Full scale of a color channel: the value standing for 1.0.
pub const CHAN_MAX: u32 = 255000;

/// Full scale of saturation and value: one hundred percent.
pub const PCT_MAX: u32 = 100000;

/// Full circle of hue, in thousandths of a degree.
pub const HUE_MAX: u32 = 360000;

/// The fraction standing for 1.0 in blend and shade factors.
pub const FRAC_ONE: i32 = 1000;

pub open spec fn min_i(a: int, b: int) -> int {
    if a < b { a } else { b }
}

pub open spec fn clamp_i(v: int, lo: int, hi: int) -> int {
    if v < lo { lo } else if v > hi { hi } else { v }
}

/// Round half up: the nearest integer to `n / d`, halves rounded upward.
pub open spec fn rhu(n: int, d: int) -> int
    recommends d > 0,
{
    (n + d / 2) / d
}

/// Rounding division on machine words.
fn rhu64(n: u64, d: u64) -> (r: u64)
    requires
        d > 0,
        n + d / 2 <= u64::MAX,
    ensures
        r as int == rhu(n as int, d as int),
{
    (n + d / 2) / d
}

pub proof fn lemma_rhu_bounds(n: int, d: int)
    requires
        n >= 0,
        d > 0,
    ensures
        rhu(n, d) >= 0,
        d * rhu(n, d) <= n + d / 2 < d * (rhu(n, d) + 1),
{
    lemma_fundamental_div_mod(n + d / 2, d);
    assert(rhu(n, d) >= 0 && d * rhu(n, d) <= n + d / 2 < d * (rhu(n, d) + 1)) by (nonlinear_arith)
        requires
            n >= 0,
            d > 0,
            n + d / 2 == d * ((n + d / 2) / d) + (n + d / 2) % d,
            rhu(n, d) == (n + d / 2) / d,
    ;
}

pub proof fn lemma_rhu_ordered(a: int, b: int, d: int)
    requires
        0 <= a <= b,
        d > 0,
    ensures
        rhu(a, d) <= rhu(b, d),
{
    lemma_div_is_ordered(a + d / 2, b + d / 2, d);
}

/// A normalized RGBA color. Invariant: every channel is within
/// `0 ..= CHAN_MAX`; see [`Color::wf`].
#[derive(Clone, Copy, Debug, PartialEq, Eq, Structural)]
pub struct Color {
    pub red: u32,
    pub green: u32,
    pub blue: u32,
    pub alpha: u32,
}

pub open spec fn chan_clamp(v: int) -> int {
    clamp_i(v, 0, CHAN_MAX as int)
}

fn clamp_chan(v: i64) -> (r: u32)
    ensures
        r as int == chan_clamp(v as int),
{
    if v < 0 {
        0
    } else if v > CHAN_MAX as i64 {
        CHAN_MAX
    } else {
        v as u32
    }
}

/// The hex byte a channel rounds to, half up.
pub open spec fn spec_byte(c: int) -> int {
    (c + 500) / 1000
}

/// Parsing a hex color string: one optional leading `#`, then 6 hex digits
/// (full opacity) or 8 (trailing alpha byte); anything else is malformed.
pub open spec fn spec_from_hex(s: Seq<char>) -> Option<Color> {
    let t = if s.len() > 0 && s[0] == '#' { s.skip(1) } else { s };
    if t.len() == 6 && all_hex(t) {
        Some(Color {
            red: (1000 * byte_at(t, 0)) as u32,
            green: (1000 * byte_at(t, 1)) as u32,
            blue: (1000 * byte_at(t, 2)) as u32,
            alpha: CHAN_MAX,
        })
    } else if t.len() == 8 && all_hex(t) {
        Some(Color {
            red: (1000 * byte_at(t, 0)) as u32,
            green: (1000 * byte_at(t, 1)) as u32,
            blue: (1000 * byte_at(t, 2)) as u32,
            alpha: (1000 * byte_at(t, 3)) as u32,
        })
    } else {
        None
    }
}

/// The rendered form: `#` and the lowercase digit pairs of the channels.
pub open spec fn spec_to_css(c: Color, with_alpha: bool) -> Seq<char> {
    let base = seq!['#'] + hex_pair(spec_byte(c.red as int)) + hex_pair(spec_byte(c.green as int))
        + hex_pair(spec_byte(c.blue as int));
    if with_alpha {
        base + hex_pair(spec_byte(c.alpha as int))
    } else {
        base
    }
}

/// The packed numeric form of the rounded channel bytes.
pub open spec fn spec_to_hex(c: Color, with_alpha: bool) -> int {
    let rgb = (spec_byte(c.red as int) * 256 + spec_byte(c.green as int)) * 256
        + spec_byte(c.blue as int);
    if with_alpha {
        rgb * 256 + spec_byte(c.alpha as int)
    } else {
        rgb
    }
}

pub open spec fn spec_new(r: int, g: int, b: int, a: int) -> Color {
    Color {
        red: chan_clamp(r) as u32,
        green: chan_clamp(g) as u32,
        blue: chan_clamp(b) as u32,
        alpha: chan_clamp(a) as u32,
    }
}

pub open spec fn spec_from_rgba(r: u8, g: u8, b: u8, a: int) -> Color {
    Color {
        red: (1000 * r) as u32,
        green: (1000 * g) as u32,
        blue: (1000 * b) as u32,
        alpha: chan_clamp(a) as u32,
    }
}

impl Color {
    /// Channel ranges that every well-formed color obeys.
    pub open spec fn wf(self) -> bool {
        self.red <= CHAN_MAX && self.green <= CHAN_MAX && self.blue <= CHAN_MAX
            && self.alpha <= CHAN_MAX
    }

    /// A color from raw fixed-point channel values, each clamped into range.
    pub fn new(r: i64, g: i64, b: i64, a: i64) -> (c: Color)
        ensures
            c == spec_new(r as int, g as int, b as int, a as int),
            c.wf(),
    {
        Color {
            red: clamp_chan(r),
            green: clamp_chan(g),
            blue: clamp_chan(b),
            alpha: clamp_chan(a),
        }
    }

    /// A color from hex bytes and a fixed-point alpha (clamped into range).
    pub fn from_rgba(r: u8, g: u8, b: u8, a: i64) -> (c: Color)
        ensures
            c == spec_from_rgba(r, g, b, a as int),
            c.wf(),
    {
        Color {
            red: 1000 * (r as u32),
            green: 1000 * (g as u32),
            blue: 1000 * (b as u32),
            alpha: clamp_chan(a),
        }
    }

    /// Parses `#rrggbb`, `#rrggbbaa`, or the same without the `#`.
    pub fn from_hex_str(s: &str) -> (res: Result<Color, EngineError>)
        ensures
            match spec_from_hex(s@) {
                Some(c) => res == Ok::<Color, EngineError>(c) && c.wf(),
                None => res == Err::<Color, EngineError>(EngineError::MalformedColor),
            },
    {
        let n = s.unicode_len();
        let off: usize = if n > 0 && s.get_char(0) == '#' { 1 } else { 0 };
        let ghost t = if s@.len() > 0 && s@[0] == '#' { s@.skip(1) } else { s@ };
        assert(t.len() == n - off);
        assert(forall|j: int| 0 <= j < t.len() ==> t[j] == s@[j + off]);
        let m = n - off;
        if m != 6 && m != 8 {
            return Err(EngineError::MalformedColor);
        }
        let b0 = match Self::read_byte(s, off) {
            Some(v) => v,
            None => {
                return Err(EngineError::MalformedColor);
            },
        };
        let b1 = match Self::read_byte(s, off + 2) {
            Some(v) => v,
            None => {
                return Err(EngineError::MalformedColor);
            },
        };
        let b2 = match Self::read_byte(s, off + 4) {
            Some(v) => v,
            None => {
                return Err(EngineError::MalformedColor);
            },
        };
        if m == 6 {
            proof {
                assert(all_hex(t)) by {
                    assert(forall|i: int| 0 <= i < 6 ==> is_hex_digit(#[trigger] t[i])) by {
                        assert(is_hex_digit(t[0]) && is_hex_digit(t[1]) && is_hex_digit(t[2])
                            && is_hex_digit(t[3]) && is_hex_digit(t[4]) && is_hex_digit(t[5]));
                    }
                }
            }
            let c = Color {
                red: 1000 * (b0 as u32),
                green: 1000 * (b1 as u32),
                blue: 1000 * (b2 as u32),
                alpha: CHAN_MAX,
            };
            assert(b0 as int == byte_at(t, 0) && b1 as int == byte_at(t, 1) && b2 as int
                == byte_at(t, 2));
            Ok(c)
        } else {
            let b3 = match Self::read_byte(s, off + 6) {
                Some(v) => v,
                None => {
                    return Err(EngineError::MalformedColor);
                },
            };
            proof {
                assert(all_hex(t)) by {
                    assert(forall|i: int| 0 <= i < 8 ==> is_hex_digit(#[trigger] t[i])) by {
                        assert(is_hex_digit(t[0]) && is_hex_digit(t[1]) && is_hex_digit(t[2])
                            && is_hex_digit(t[3]) && is_hex_digit(t[4]) && is_hex_digit(t[5])
                            && is_hex_digit(t[6]) && is_hex_digit(t[7]));
                    }
                }
            }
            let c = Color {
                red: 1000 * (b0 as u32),
                green: 1000 * (b1 as u32),
                blue: 1000 * (b2 as u32),
                alpha: 1000 * (b3 as u32),
            };
            assert(b0 as int == byte_at(t, 0) && b1 as int == byte_at(t, 1) && b2 as int
                == byte_at(t, 2) && b3 as int == byte_at(t, 3));
            Ok(c)
        }
    }

    /// The byte written by the two hex digits at positions `p` and `p + 1`,
    /// `None` if either is not a hex digit.
    fn read_byte(s: &str, p: usize) -> (r: Option<u8>)
        requires
            p + 2 <= s@.len(),
            s@.len() <= usize::MAX,
        ensures
            r is Some <==> is_hex_digit(s@[p as int]) && is_hex_digit(s@[p as int + 1]),
            r matches Some(v) ==> v as int == 16 * hex_digit_val(s@[p as int]) + hex_digit_val(
                s@[p as int + 1],
            ),
    {
        let hi = match hex_val(s.get_char(p)) {
            Some(v) => v,
            None => {
                return None;
            },
        };
        let lo = match hex_val(s.get_char(p + 1)) {
            Some(v) => v,
            None => {
                return None;
            },
        };
        proof {
            lemma_hex_digit_val_range(s@[p as int]);
            lemma_hex_digit_val_range(s@[p as int + 1]);
        }
        Some(16 * hi + lo)
    }

    /// The rounded hex byte of a channel.
    fn byte_of(c: u32) -> (b: u8)
        requires
            c <= CHAN_MAX,
        ensures
            b as int == spec_byte(c as int),
    {
        ((c + 500) / 1000) as u8
    }

    /// The channels packed into one number, `0xrrggbb` or `0xrrggbbaa`.
    pub fn to_hex(&self, with_alpha: bool) -> (r: u32)
        requires
            self.wf(),
        ensures
            r as int == spec_to_hex(*self, with_alpha),
    {
        let rb = Self::byte_of(self.red) as u32;
        let gb = Self::byte_of(self.green) as u32;
        let bb = Self::byte_of(self.blue) as u32;
        let rgb = (rb * 256 + gb) * 256 + bb;
        if with_alpha {
            let ab = Self::byte_of(self.alpha) as u32;
            rgb * 256 + ab
        } else {
            rgb
        }
    }

    /// The `#`-prefixed lowercase hex string, 6 or 8 digits.
    pub fn to_css(&self, with_alpha: bool) -> (r: String)
        requires
            self.wf(),
        ensures
            r@ == spec_to_css(*self, with_alpha),
    {
        let mut out = String::new();
        out.append("#");
        proof {
            reveal_strlit("#");
            assert(out@ =~= seq!['#']);
        }
        push_hex_byte(&mut out, Self::byte_of(self.red));
        push_hex_byte(&mut out, Self::byte_of(self.green));
        push_hex_byte(&mut out, Self::byte_of(self.blue));
        if with_alpha {
            push_hex_byte(&mut out, Self::byte_of(self.alpha));
        }
        proof {
            assert(out@ =~= spec_to_css(*self, with_alpha));
        }
        out
    }
}

pub open spec fn spec_max3(c: Color) -> int {
    let mg = if c.green >= c.blue { c.green as int } else { c.blue as int };
    if c.red as int >= mg { c.red as int } else { mg }
}

pub open spec fn spec_min3(c: Color) -> int {
    let mg = if c.green <= c.blue { c.green as int } else { c.blue as int };
    if c.red as int <= mg { c.red as int } else { mg }
}

/// The hue of a color, in thousandths of a degree within `[0, 360000)`:
/// the six-sector formula, each division rounded to the nearest value.
pub open spec fn spec_hue(c: Color) -> int {
    let mx = spec_max3(c);
    let d = mx - spec_min3(c);
    if d == 0 {
        0
    } else if mx == c.red as int {
        if c.green >= c.blue {
            rhu(60000 * (c.green as int - c.blue as int), d)
        } else {
            let x = rhu(60000 * (c.blue as int - c.green as int), d);
            if x == 0 { 0 } else { 360000 - x }
        }
    } else if mx == c.green as int {
        if c.blue >= c.red {
            120000 + rhu(60000 * (c.blue as int - c.red as int), d)
        } else {
            120000 - rhu(60000 * (c.red as int - c.blue as int), d)
        }
    } else {
        if c.red >= c.green {
            240000 + rhu(60000 * (c.red as int - c.green as int), d)
        } else {
            240000 - rhu(60000 * (c.green as int - c.red as int), d)
        }
    }
}

/// Saturation in thousandths of a percent: delta over max.
pub open spec fn spec_sat(c: Color) -> int {
    let mx = spec_max3(c);
    if mx == 0 { 0 } else { rhu((mx - spec_min3(c)) * 100000, mx) }
}

/// Value in thousandths of a percent: the largest channel, rescaled.
pub open spec fn spec_val(c: Color) -> int {
    rhu(spec_max3(c) * 100000, 255000)
}

/// One channel of the HSV projection: `n` is 5 for red, 3 for green, 1 for
/// blue; `hw` the wrapped hue, `s` and `v` already clamped.
pub open spec fn spec_chan_f(n: int, hw: int, s: int, v: int) -> int {
    let k = (n * 60000 + hw) % 360000;
    let w = clamp_i(min_i(k, 240000 - k), 0, 60000);
    rhu(17 * v * (6000000000 - s * w), 40000000000)
}

/// The six-sector HSV projection over fixed-point values. The hue wraps
/// modulo one circle; saturation and value are clamped to their scale,
/// alpha to the channel scale.
pub open spec fn spec_from_hsv(h: int, s: int, v: int, a: int) -> Color {
    let hw = h % 360000;
    let sc = clamp_i(s, 0, 100000);
    let vc = clamp_i(v, 0, 100000);
    Color {
        red: spec_chan_f(5, hw, sc, vc) as u32,
        green: spec_chan_f(3, hw, sc, vc) as u32,
        blue: spec_chan_f(1, hw, sc, vc) as u32,
        alpha: chan_clamp(a) as u32,
    }
}

/// The value channel raised by `off` thousandths of a percent (clamped),
/// hue, saturation and alpha kept.
pub open spec fn spec_brighten(c: Color, off: int) -> Color {
    spec_from_hsv(spec_hue(c), spec_sat(c), spec_val(c) + off, c.alpha as int)
}

/// One channel interpolated from `c` toward `o` by `f` thousandths; the
/// exact fraction is rounded to the nearest channel unit after clamping.
pub open spec fn chan_mix(c: int, o: int, f: int) -> int {
    let num = c * 1000 + (o - c) * f;
    if num <= 0 {
        0
    } else if num >= 255000000 {
        255000
    } else {
        rhu(num, 1000)
    }
}

/// Linear interpolation of the RGB channels toward `o` by `f` thousandths
/// (extrapolation permitted); alpha kept from `c`.
pub open spec fn spec_blend(c: Color, o: Color, f: int) -> Color {
    Color {
        red: chan_mix(c.red as int, o.red as int, f) as u32,
        green: chan_mix(c.green as int, o.green as int, f) as u32,
        blue: chan_mix(c.blue as int, o.blue as int, f) as u32,
        alpha: c.alpha,
    }
}

/// Interpolation toward pure black when `f < 0`, pure white otherwise, by
/// `|f|` thousandths; alpha kept.
pub open spec fn spec_shade(c: Color, f: int) -> Color {
    let t = if f < 0 { 0 } else { 255000 };
    let p = if f < 0 { -f } else { f };
    Color {
        red: chan_mix(c.red as int, t, p) as u32,
        green: chan_mix(c.green as int, t, p) as u32,
        blue: chan_mix(c.blue as int, t, p) as u32,
        alpha: c.alpha,
    }
}

/// `rhu(k * diff, d) <= k` whenever `diff <= d`.
proof fn lemma_rhu_scale_le(diff: int, d: int, k: int)
    requires
        0 <= diff <= d,
        d > 0,
        k > 0,
    ensures
        0 <= rhu(k * diff, d) <= k,
{
    lemma_mul_inequality(diff, d, k);
    assert(k * diff == diff * k && k * d == d * k) by (nonlinear_arith);
    lemma_rhu_ordered(k * diff, k * d, d);
    lemma_div_multiples_vanish_fancy(k, d / 2, d);
    assert(d * k == k * d) by (nonlinear_arith);
    lemma_rhu_bounds(k * diff, d);
}

/// Wraps a hue offset into `[0, 360000)` the way the mathematical modulus
/// does, also for negative inputs.
fn wrap_hue(h: i64) -> (r: u64)
    requires
        h > i64::MIN,
    ensures
        r as int == (h as int) % 360000,
        r < 360000,
{
    if h >= 0 {
        (h as u64) % 360000
    } else {
        let m = ((-h) as u64) % 360000;
        proof {
            let p = -(h as int);
            let q = p / 360000;
            lemma_fundamental_div_mod(p, 360000);
            if p % 360000 == 0 {
                lemma_fundamental_div_mod_converse(h as int, 360000, -q, 0);
            } else {
                assert(h as int == (-q - 1) * 360000 + (360000 - p % 360000)) by (nonlinear_arith)
                    requires p == 360000 * q + p % 360000, h as int == -p;
                lemma_fundamental_div_mod_converse(
                    h as int, 360000, -q - 1, 360000 - p % 360000);
            }
        }
        if m == 0 {
            0
        } else {
            360000 - m
        }
    }
}

proof fn lemma_chan_f_range(n: int, hw: int, s: int, v: int)
    requires
        0 <= hw < 360000,
        0 <= s <= 100000,
        0 <= v <= 100000,
        n == 1 || n == 3 || n == 5,
    ensures
        0 <= spec_chan_f(n, hw, s, v) <= 255000,
{
    let k = (n * 60000 + hw) % 360000;
    let w = clamp_i(min_i(k, 240000 - k), 0, 60000);
    assert(0 <= w <= 60000);
    lemma_mul_upper_bound(s, 100000, w, 60000);
    assert(s * w >= 0) by (nonlinear_arith)
        requires s >= 0, w >= 0;
    let inner = 6000000000 - s * w;
    assert(0 <= inner <= 6000000000);
    assert(17 * v * inner <= 17 * v * 6000000000) by (nonlinear_arith)
        requires 0 <= inner <= 6000000000, v >= 0;
    assert(17 * v * 6000000000 <= 10200000000000000) by (nonlinear_arith)
        requires 0 <= v <= 100000;
    assert(17 * v * inner >= 0) by (nonlinear_arith)
        requires v >= 0, inner >= 0;
    lemma_rhu_bounds(17 * v * inner, 40000000000);
    lemma_rhu_ordered(17 * v * inner, 10200000000000000, 40000000000);
    assert(rhu(10200000000000000, 40000000000) == 255000);
}

/// One channel of the HSV projection, on machine words.
fn hsv_chan(n: u64, hw: u64, s: u64, v: u64) -> (r: u32)
    requires
        n == 1 || n == 3 || n == 5,
        hw < 360000,
        s <= 100000,
        v <= 100000,
    ensures
        r as int == spec_chan_f(n as int, hw as int, s as int, v as int),
        r <= CHAN_MAX,
{
    proof {
        lemma_chan_f_range(n as int, hw as int, s as int, v as int);
    }
    let k = (n * 60000 + hw) % 360000;
    let w: u64 = if k >= 240000 {
        0
    } else {
        let a = if k < 240000 - k { k } else { 240000 - k };
        if a > 60000 { 60000 } else { a }
    };
    proof {
        assert(w as int == clamp_i(min_i(k as int, 240000 - k as int), 0, 60000));
        lemma_mul_upper_bound(s as int, 100000, w as int, 60000);
        assert((17 * v) as int * (6000000000 - s * w) as int <= 17 * 100000 * 6000000000)
            by (nonlinear_arith)
            requires v <= 100000, 0 <= (6000000000 - s * w) as int <= 6000000000;
        assert(17 * (v as int) * ((6000000000 - s * w) as int) == (17 * v) as int * (
        6000000000 - s * w) as int) by (nonlinear_arith);
    }
    let inner: u64 = 6000000000 - s * w;
    let num: u64 = (17 * v) * inner;
    rhu64(num, 40000000000) as u32
}

impl Color {
    /// The HSV reading of the color: hue in thousandths of a degree,
    /// saturation and value in thousandths of a percent.
    pub fn to_hsv(&self) -> (r: (u32, u32, u32))
        requires
            self.wf(),
        ensures
            r.0 as int == spec_hue(*self),
            r.1 as int == spec_sat(*self),
            r.2 as int == spec_val(*self),
            r.0 < HUE_MAX,
            r.1 <= PCT_MAX,
            r.2 <= PCT_MAX,
    {
        let mg = if self.green >= self.blue { self.green } else { self.blue };
        let mx = if self.red >= mg { self.red } else { mg };
        let ng = if self.green <= self.blue { self.green } else { self.blue };
        let mn = if self.red <= ng { self.red } else { ng };
        let d = mx - mn;
        let h: u32 = if d == 0 {
            0
        } else if mx == self.red {
            if self.green >= self.blue {
                Self::hue_part(self.green - self.blue, d)
            } else {
                let x = Self::hue_part(self.blue - self.green, d);
                if x == 0 { 0 } else { 360000 - x }
            }
        } else if mx == self.green {
            if self.blue >= self.red {
                120000 + Self::hue_part(self.blue - self.red, d)
            } else {
                120000 - Self::hue_part(self.red - self.blue, d)
            }
        } else {
            if self.red >= self.green {
                240000 + Self::hue_part(self.red - self.green, d)
            } else {
                240000 - Self::hue_part(self.green - self.red, d)
            }
        };
        let s: u32 = if mx == 0 {
            0
        } else {
            proof {
                lemma_rhu_scale_le((d as int) * 100000 / 100000, mx as int, 100000);
                lemma_rhu_scale_le(d as int, mx as int, 100000);
                assert((d as int) * 100000 == 100000 * (d as int)) by (nonlinear_arith);
            }
            rhu64((d as u64) * 100000, mx as u64) as u32
        };
        let v: u32 = {
            proof {
                lemma_rhu_scale_le(mx as int, 255000, 100000);
                assert((mx as int) * 100000 == 100000 * (mx as int)) by (nonlinear_arith);
            }
            rhu64((mx as u64) * 100000, 255000) as u32
        };
        (h, s, v)
    }

    /// One sector term of the hue: `60000 * diff / d`, rounded.
    fn hue_part(diff: u32, d: u32) -> (r: u32)
        requires
            0 < d,
            diff <= d,
            d <= CHAN_MAX,
        ensures
            r as int == rhu(60000 * (diff as int), d as int),
            r <= 60000,
    {
        proof {
            lemma_rhu_scale_le(diff as int, d as int, 60000);
        }
        rhu64(60000 * (diff as u64), d as u64) as u32
    }

    /// A color from hue, saturation, value and a fixed-point alpha. The hue
    /// wraps modulo 360 degrees; saturation and value are clamped to their
    /// percent scale, alpha to the channel scale.
    pub fn from_hsv(h: i64, s: i64, v: i64, a: i64) -> (c: Color)
        requires
            h > i64::MIN,
        ensures
            c == spec_from_hsv(h as int, s as int, v as int, a as int),
            c.wf(),
    {
        let hw = wrap_hue(h);
        let sc: u64 = if s < 0 { 0 } else if s > 100000 { 100000 } else { s as u64 };
        let vc: u64 = if v < 0 { 0 } else if v > 100000 { 100000 } else { v as u64 };
        proof {
            lemma_chan_f_range(5, hw as int, sc as int, vc as int);
            lemma_chan_f_range(3, hw as int, sc as int, vc as int);
            lemma_chan_f_range(1, hw as int, sc as int, vc as int);
        }
        Color {
            red: hsv_chan(5, hw, sc, vc),
            green: hsv_chan(3, hw, sc, vc),
            blue: hsv_chan(1, hw, sc, vc),
            alpha: clamp_chan(a),
        }
    }

    /// Linear interpolation of the RGB channels toward `other` by `f`
    /// thousandths; `f` outside `0 ..= 1000` extrapolates. Alpha is kept.
    pub fn blend(&self, other: &Color, f: i32) -> (r: Color)
        requires
            self.wf(),
            other.wf(),
        ensures
            r == spec_blend(*self, *other, f as int),
            r.wf(),
    {
        Color {
            red: chan_mix_exec(self.red, other.red, f as i64),
            green: chan_mix_exec(self.green, other.green, f as i64),
            blue: chan_mix_exec(self.blue, other.blue, f as i64),
            alpha: self.alpha,
        }
    }

    /// Moves the RGB channels toward pure black (`f < 0`) or pure white
    /// (`f >= 0`) by `|f|` thousandths of the remaining distance.
    pub fn shade(&self, f: i32) -> (r: Color)
        requires
            self.wf(),
        ensures
            r == spec_shade(*self, f as int),
            r.wf(),
    {
        let t: u32 = if f < 0 { 0 } else { CHAN_MAX };
        let p: i64 = if f < 0 { -(f as i64) } else { f as i64 };
        Color {
            red: chan_mix_exec(self.red, t, p),
            green: chan_mix_exec(self.green, t, p),
            blue: chan_mix_exec(self.blue, t, p),
            alpha: self.alpha,
        }
    }

    /// Raises (or lowers) the HSV value channel by `v` thousandths of a
    /// percent, keeping hue, saturation and alpha.
    pub fn brighten(&self, v: i32) -> (r: Color)
        requires
            self.wf(),
        ensures
            r == spec_brighten(*self, v as int),
            r.wf(),
    {
        let (h, s, val) = self.to_hsv();
        Self::from_hsv(h as i64, s as i64, (val as i64) + (v as i64), self.alpha as i64)
    }
}

/// One mixed channel on machine words.
fn chan_mix_exec(c: u32, o: u32, f: i64) -> (r: u32)
    requires
        c <= CHAN_MAX,
        o <= CHAN_MAX,
        -2147483648 <= f <= 2147483648,
    ensures
        r as int == chan_mix(c as int, o as int, f as int),
        r <= CHAN_MAX,
{
    proof {
        assert(((o as int) - (c as int)) * (f as int) <= 255000 * 2147483648
            && ((o as int) - (c as int)) * (f as int) >= -(255000 * 2147483648))
            by (nonlinear_arith)
            requires
                -255000 <= (o as int) - (c as int) <= 255000,
                -2147483648 <= f as int <= 2147483648,
        ;
    }
    let num: i64 = (c as i64) * 1000 + ((o as i64) - (c as i64)) * f;
    if num <= 0 {
        0
    } else if num >= 255000000 {
        CHAN_MAX
    } else {
        proof {
            lemma_rhu_ordered(num as int, 254999999, 1000);
            lemma_rhu_bounds(num as int, 1000);
        }
        rhu64(num as u64, 1000) as u32
    }
}

/// Mixing with fraction zero keeps the channel.
proof fn lemma_chan_mix_zero(x: int, o: int)
    requires
        0 <= x <= 255000,
    ensures
        chan_mix(x, o, 0) == x,
{
    if 0 < x < 255000 {
        lemma_div_multiples_vanish_fancy(x, 500, 1000);
        assert(1000 * x == x * 1000) by (nonlinear_arith);
    }
}

/// Mixing with the whole fraction lands on the target channel.
proof fn lemma_chan_mix_one(x: int, o: int)
    requires
        0 <= x <= 255000,
        0 <= o <= 255000,
    ensures
        chan_mix(x, o, 1000) == o,
{
    assert(x * 1000 + (o - x) * 1000 == o * 1000) by (nonlinear_arith);
    if 0 < o < 255000 {
        lemma_div_multiples_vanish_fancy(o, 500, 1000);
        assert(1000 * o == o * 1000) by (nonlinear_arith);
    }
}

/// Shading by zero changes nothing.
pub proof fn lemma_shade_identity(c: Color)
    requires
        c.wf(),
    ensures
        spec_shade(c, 0) == c,
{
    lemma_chan_mix_zero(c.red as int, 255000);
    lemma_chan_mix_zero(c.green as int, 255000);
    lemma_chan_mix_zero(c.blue as int, 255000);
}

/// Shading by the whole fraction lands on the extreme: pure white for the
/// positive direction, pure black for the negative one. Alpha is kept.
pub proof fn lemma_shade_full(c: Color)
    requires
        c.wf(),
    ensures
        spec_shade(c, FRAC_ONE as int) == (Color { red: CHAN_MAX, green: CHAN_MAX, blue: CHAN_MAX, alpha: c.alpha }),
        spec_shade(c, -(FRAC_ONE as int)) == (Color { red: 0, green: 0, blue: 0, alpha: c.alpha }),
{
    lemma_chan_mix_one(c.red as int, 255000);
    lemma_chan_mix_one(c.green as int, 255000);
    lemma_chan_mix_one(c.blue as int, 255000);
    lemma_chan_mix_one(c.red as int, 0);
    lemma_chan_mix_one(c.green as int, 0);
    lemma_chan_mix_one(c.blue as int, 0);
}

/// Blending by zero gives the color itself back, alpha included.
pub proof fn lemma_blend_zero(c: Color, o: Color)
    requires
        c.wf(),
    ensures
        spec_blend(c, o, 0) == c,
{
    lemma_chan_mix_zero(c.red as int, o.red as int);
    lemma_chan_mix_zero(c.green as int, o.green as int);
    lemma_chan_mix_zero(c.blue as int, o.blue as int);
}

/// Blending by the whole fraction takes the other color's RGB channels and
/// keeps this color's alpha.
pub proof fn lemma_blend_one(c: Color, o: Color)
    requires
        c.wf(),
        o.wf(),
    ensures
        spec_blend(c, o, FRAC_ONE as int) == (Color { red: o.red, green: o.green, blue: o.blue, alpha: c.alpha }),
{
    lemma_chan_mix_one(c.red as int, o.red as int);
    lemma_chan_mix_one(c.green as int, o.green as int);
    lemma_chan_mix_one(c.blue as int, o.blue as int);
}

/// Whatever a hex string parses to is well-formed.
pub proof fn lemma_from_hex_wf(s: Seq<char>)
    ensures
        spec_from_hex(s) matches Some(c) ==> c.wf(),
{
    let t = if s.len() > 0 && s[0] == '#' { s.skip(1) } else { s };
    if spec_from_hex(s) is Some {
        assert(is_hex_digit(t[0]) && is_hex_digit(t[1]) && is_hex_digit(t[2]) && is_hex_digit(t[3])
            && is_hex_digit(t[4]) && is_hex_digit(t[5]));
        lemma_hex_digit_val_range(t[0]);
        lemma_hex_digit_val_range(t[1]);
        lemma_hex_digit_val_range(t[2]);
        lemma_hex_digit_val_range(t[3]);
        lemma_hex_digit_val_range(t[4]);
        lemma_hex_digit_val_range(t[5]);
        if t.len() == 8 {
            assert(is_hex_digit(t[6]) && is_hex_digit(t[7]));
            lemma_hex_digit_val_range(t[6]);
            lemma_hex_digit_val_range(t[7]);
        }
    }
}

/// Whatever the HSV projection produces is well-formed, for every input.
pub proof fn lemma_from_hsv_wf(h: int, s: int, v: int, a: int)
    ensures
        spec_from_hsv(h, s, v, a).wf(),
{
    vstd::arithmetic::div_mod::lemma_mod_division_less_than_divisor(h, 360000);
    let hw = h % 360000;
    let sc = clamp_i(s, 0, 100000);
    let vc = clamp_i(v, 0, 100000);
    lemma_chan_f_range(5, hw, sc, vc);
    lemma_chan_f_range(3, hw, sc, vc);
    lemma_chan_f_range(1, hw, sc, vc);
}

/// Whatever brightening produces is well-formed, for every input.
pub proof fn lemma_brighten_wf(c: Color, off: int)
    ensures
        spec_brighten(c, off).wf(),
{
    lemma_from_hsv_wf(spec_hue(c), spec_sat(c), spec_val(c) + off, c.alpha as int);
}

/// For any channel position, the channel value never exceeds the one a
/// weight of zero would give.
proof fn lemma_chan_f_le_peak(n: int, hw: int, s: int, v: int)
    requires
        0 <= hw < 360000,
        0 <= s <= 100000,
        0 <= v <= 100000,
        n == 1 || n == 3 || n == 5,
    ensures
        spec_chan_f(n, hw, s, v) <= rhu(102000000000 * v, 40000000000),
{
    let k = (n * 60000 + hw) % 360000;
    let w = clamp_i(min_i(k, 240000 - k), 0, 60000);
    assert(s * w >= 0) by (nonlinear_arith)
        requires s >= 0, w >= 0;
    lemma_mul_upper_bound(s, 100000, w, 60000);
    assert(17 * v * (6000000000 - s * w) <= 102000000000 * v) by (nonlinear_arith)
        requires v >= 0, 0 <= s * w <= 6000000000;
    assert(17 * v * (6000000000 - s * w) >= 0) by (nonlinear_arith)
        requires v >= 0, 0 <= s * w <= 6000000000;
    lemma_rhu_ordered(17 * v * (6000000000 - s * w), 102000000000 * v, 40000000000);
}

/// At the channel position whose weight is zero the projection reaches its
/// peak `rhu(102000000000 * v, 40000000000)` exactly.
proof fn lemma_chan_f_peak(n: int, hw: int, s: int, v: int)
    requires
        0 <= hw < 360000,
        0 <= s <= 100000,
        0 <= v <= 100000,
        n == 1 || n == 3 || n == 5,
        (n * 60000 + hw) % 360000 >= 240000 || (n * 60000 + hw) % 360000 == 0,
    ensures
        spec_chan_f(n, hw, s, v) == rhu(102000000000 * v, 40000000000),
{
    let k = (n * 60000 + hw) % 360000;
    assert(clamp_i(min_i(k, 240000 - k), 0, 60000) == 0);
    assert(17 * v * (6000000000 - s * 0) == 102000000000 * v) by (nonlinear_arith);
}

/// The largest channel the projection produces is the one whose weight is
/// zero: `rhu(102000000000 * v, 40000000000)`.
proof fn lemma_hsv_peak(h: int, s: int, v: int, a: int)
    requires
        0 <= s <= 100000,
        0 <= v <= 100000,
    ensures
        spec_max3(spec_from_hsv(h, s, v, a)) == rhu(102000000000 * v, 40000000000),
{
    let hw = h % 360000;
    vstd::arithmetic::div_mod::lemma_mod_division_less_than_divisor(h, 360000);
    let c = spec_from_hsv(h, s, v, a);
    lemma_chan_f_range(5, hw, s, v);
    lemma_chan_f_range(3, hw, s, v);
    lemma_chan_f_range(1, hw, s, v);
    lemma_chan_f_le_peak(5, hw, s, v);
    lemma_chan_f_le_peak(3, hw, s, v);
    lemma_chan_f_le_peak(1, hw, s, v);
    // one of the three channel positions has weight zero
    if hw < 60000 {
        lemma_small_mod((300000 + hw) as nat, 360000nat);
        lemma_chan_f_peak(5, hw, s, v);
    } else if hw < 180000 {
        lemma_small_mod((180000 + hw) as nat, 360000nat);
        lemma_chan_f_peak(3, hw, s, v);
    } else if hw < 300000 {
        lemma_small_mod((60000 + hw) as nat, 360000nat);
        lemma_chan_f_peak(1, hw, s, v);
    } else {
        lemma_fundamental_div_mod_converse(300000 + hw, 360000, 1, hw - 60000);
        lemma_chan_f_peak(5, hw, s, v);
    }
}

/// The projection of `(h, s, v)` keeps its value channel: reading the HSV
/// value back from the produced color gives `v` again, exactly, for every
/// hue, every saturation and every alpha.
pub proof fn lemma_hsv_value_round_trip(h: int, s: int, v: int, a: int)
    requires
        0 <= s <= 100000,
        0 <= v <= 100000,
    ensures
        spec_val(spec_from_hsv(h, s, v, a)) == v,
{
    let c = spec_from_hsv(h, s, v, a);
    let peak = rhu(102000000000 * v, 40000000000);
    lemma_hsv_peak(h, s, v, a);
    assert(spec_max3(c) == peak);
    lemma_rhu_bounds(102000000000 * v, 40000000000);
    assert(102000000000 * v >= 0) by (nonlinear_arith)
        requires v >= 0;
    assert(255000 * v <= peak * 100000 + 127500 < 255000 * (v + 1)) by (nonlinear_arith)
        requires
            40000000000 * peak <= 102000000000 * v + 20000000000,
            102000000000 * v + 20000000000 < 40000000000 * (peak + 1),
            0 <= v <= 100000,
    ;
    vstd::arithmetic::div_mod::lemma_fundamental_div_mod_converse_div(
        peak * 100000 + 127500,
        255000,
        v,
        peak * 100000 + 127500 - 255000 * v,
    );
    assert(v * 255000 == 255000 * v) by (nonlinear_arith);
}

/// No channel falls below the one whose weight is largest.
proof fn lemma_chan_f_ge_trough(n: int, hw: int, s: int, v: int)
    requires
        0 <= hw < 360000,
        0 <= s <= 100000,
        0 <= v <= 100000,
        n == 1 || n == 3 || n == 5,
    ensures
        spec_chan_f(n, hw, s, v) >= rhu(17 * v * (6000000000 - 60000 * s), 40000000000),
{
    let k = (n * 60000 + hw) % 360000;
    let w = clamp_i(min_i(k, 240000 - k), 0, 60000);
    assert(0 <= s * w <= s * 60000) by (nonlinear_arith)
        requires s >= 0, 0 <= w <= 60000;
    assert(s * 60000 == 60000 * s) by (nonlinear_arith);
    assert(17 * v * (6000000000 - 60000 * s) <= 17 * v * (6000000000 - s * w))
        by (nonlinear_arith)
        requires v >= 0, 0 <= s * w <= 60000 * s <= 6000000000;
    assert(17 * v * (6000000000 - 60000 * s) >= 0) by (nonlinear_arith)
        requires v >= 0, 60000 * s <= 6000000000;
    lemma_rhu_ordered(
        17 * v * (6000000000 - 60000 * s),
        17 * v * (6000000000 - s * w),
        40000000000,
    );
}

/// At the channel position whose weight is the whole sector the projection
/// reaches its trough exactly.
proof fn lemma_chan_f_trough(n: int, hw: int, s: int, v: int)
    requires
        0 <= hw < 360000,
        0 <= s <= 100000,
        0 <= v <= 100000,
        n == 1 || n == 3 || n == 5,
        60000 <= (n * 60000 + hw) % 360000 <= 180000,
    ensures
        spec_chan_f(n, hw, s, v) == rhu(17 * v * (6000000000 - 60000 * s), 40000000000),
{
    let k = (n * 60000 + hw) % 360000;
    assert(clamp_i(min_i(k, 240000 - k), 0, 60000) == 60000);
    assert(s * 60000 == 60000 * s) by (nonlinear_arith);
}

/// The smallest channel the projection produces is the one whose weight is
/// the whole sector.
proof fn lemma_hsv_trough(h: int, s: int, v: int, a: int)
    requires
        0 <= s <= 100000,
        0 <= v <= 100000,
    ensures
        spec_min3(spec_from_hsv(h, s, v, a)) == rhu(
            17 * v * (6000000000 - 60000 * s),
            40000000000,
        ),
{
    let hw = h % 360000;
    vstd::arithmetic::div_mod::lemma_mod_division_less_than_divisor(h, 360000);
    let c = spec_from_hsv(h, s, v, a);
    lemma_chan_f_range(5, hw, s, v);
    lemma_chan_f_range(3, hw, s, v);
    lemma_chan_f_range(1, hw, s, v);
    lemma_chan_f_ge_trough(5, hw, s, v);
    lemma_chan_f_ge_trough(3, hw, s, v);
    lemma_chan_f_ge_trough(1, hw, s, v);
    // one of the three channel positions carries the whole sector weight
    if hw < 60000 {
        lemma_small_mod((60000 + hw) as nat, 360000nat);
        lemma_chan_f_trough(1, hw, s, v);
    } else if hw < 120000 {
        lemma_small_mod((60000 + hw) as nat, 360000nat);
        lemma_chan_f_trough(1, hw, s, v);
    } else if hw < 240000 {
        lemma_fundamental_div_mod_converse(300000 + hw, 360000, 1, hw - 60000);
        lemma_chan_f_trough(5, hw, s, v);
    } else {
        lemma_fundamental_div_mod_converse(180000 + hw, 360000, 1, hw - 180000);
        lemma_chan_f_trough(3, hw, s, v);
    }
}

/// At full value the projection of `(h, s, v)` keeps its saturation
/// exactly: reading the HSV saturation back gives `s` again, for every
/// hue and every alpha.
pub proof fn lemma_hsv_saturation_round_trip_full_value(h: int, s: int, a: int)
    requires
        0 <= s <= 100000,
    ensures
        spec_sat(spec_from_hsv(h, s, 100000, a)) == s,
{
    let c = spec_from_hsv(h, s, 100000, a);
    lemma_hsv_peak(h, s, 100000, a);
    assert(102000000000 * 100000 == 10200000000000000) by (nonlinear_arith);
    assert(spec_max3(c) == rhu(10200000000000000, 40000000000));
    assert(spec_max3(c) == 255000);
    lemma_hsv_trough(h, s, 100000, a);
    let nt = 17 * 100000 * (6000000000 - 60000 * s);
    let t = rhu(nt, 40000000000);
    assert(spec_min3(c) == t);
    assert(nt == 10200000000000000 - 102000000000 * s) by (nonlinear_arith)
        requires nt == 17 * 100000 * (6000000000 - 60000 * s);
    assert(nt >= 0) by (nonlinear_arith)
        requires nt == 17 * 100000 * (6000000000 - 60000 * s), s <= 100000;
    lemma_rhu_bounds(nt, 40000000000);
    let d = spec_max3(c) - spec_min3(c);
    assert(255000 * s <= d * 100000 + 127500 < 255000 * (s + 1)) by (nonlinear_arith)
        requires
            40000000000 * t <= 10200000000000000 - 102000000000 * s + 20000000000,
            10200000000000000 - 102000000000 * s + 20000000000 < 40000000000 * (t + 1),
            d == 255000 - t,
            0 <= s <= 100000,
    ;
    vstd::arithmetic::div_mod::lemma_fundamental_div_mod_converse_div(
        d * 100000 + 127500,
        255000,
        s,
        d * 100000 + 127500 - 255000 * s,
    );
    assert(s * 255000 == 255000 * s) by (nonlinear_arith);
}

/// The middle channel at full saturation and value, as a function of its
/// weight: its hue term recovers the sector offset exactly.
proof fn lemma_mid_channel(w: int)
    requires
        0 <= w <= 60000,
    ensures
        ({
            let m = rhu(1700000 * (6000000000 - 100000 * w), 40000000000);
            &&& 0 <= m <= 255000
            &&& rhu(60000 * m, 255000) == 60000 - w
            &&& (w < 60000 ==> m >= 1)
            &&& (w >= 1 ==> m < 255000)
            &&& (w == 0 ==> m == 255000)
            &&& (w == 60000 ==> m == 0)
        }),
{
    let nm = 1700000 * (6000000000 - 100000 * w);
    assert(nm == 10200000000000000 - 170000000000 * w) by (nonlinear_arith)
        requires nm == 1700000 * (6000000000 - 100000 * w);
    assert(nm >= 0) by (nonlinear_arith)
        requires nm == 10200000000000000 - 170000000000 * w, w <= 60000;
    lemma_rhu_bounds(nm, 40000000000);
    let m = rhu(nm, 40000000000);
    assert(0 <= m <= 255000 && 255000 * (60000 - w) <= 60000 * m + 127500 < 255000 * (60001 - w)
        && (w < 60000 ==> m >= 1) && (w >= 1 ==> m < 255000) && (w == 0 ==> m == 255000) && (w
        == 60000 ==> m == 0)) by (nonlinear_arith)
        requires
            40000000000 * m <= 10200000000000000 - 170000000000 * w + 20000000000,
            10200000000000000 - 170000000000 * w + 20000000000 < 40000000000 * (m + 1),
            0 <= w <= 60000,
    ;
    vstd::arithmetic::div_mod::lemma_fundamental_div_mod_converse_div(
        60000 * m + 127500,
        255000,
        60000 - w,
        60000 * m + 127500 - 255000 * (60000 - w),
    );
    assert((60000 - w) * 255000 == 255000 * (60000 - w)) by (nonlinear_arith);
}

/// At full saturation and value a channel is determined by its weight.
proof fn lemma_chan_f_mid(n: int, hw: int, w: int)
    requires
        0 <= hw < 360000,
        n == 1 || n == 3 || n == 5,
        0 <= w <= 60000,
        clamp_i(
            min_i(
                (n * 60000 + hw) % 360000,
                240000 - (n * 60000 + hw) % 360000,
            ),
            0,
            60000,
        ) == w,
    ensures
        spec_chan_f(n, hw, 100000, 100000) == rhu(
            1700000 * (6000000000 - 100000 * w),
            40000000000,
        ),
{
    assert(17 * 100000 * (6000000000 - 100000 * w) == 1700000 * (6000000000 - 100000 * w))
        by (nonlinear_arith);
}

/// At full saturation and value the projection of `(h, s, v)` keeps its
/// hue exactly: reading the hue back gives `h` wrapped into the circle,
/// for every alpha.
#[verifier::spinoff_prover]
#[verifier::rlimit(100)]
pub proof fn lemma_hsv_hue_round_trip_full(h: int, a: int)
    ensures
        spec_hue(spec_from_hsv(h, 100000, 100000, a)) == h % 360000,
{
    let hw = h % 360000;
    vstd::arithmetic::div_mod::lemma_mod_division_less_than_divisor(h, 360000);
    let c = spec_from_hsv(h, 100000, 100000, a);
    // the peak channel is exactly 255000, the trough exactly 0
    assert(102000000000 * 100000 == 10200000000000000) by (nonlinear_arith);
    assert(rhu(10200000000000000, 40000000000) == 255000);
    assert(17 * 100000 * (6000000000 - 60000 * 100000) == 0) by (nonlinear_arith);
    assert(rhu(0, 40000000000) == 0);
    assert(60000 * 255000 == 15300000000) by (nonlinear_arith);
    assert(rhu(15300000000, 255000) == 60000);
    if hw < 60000 {
        lemma_small_mod((300000 + hw) as nat, 360000nat);
        lemma_small_mod((180000 + hw) as nat, 360000nat);
        lemma_small_mod((60000 + hw) as nat, 360000nat);
        lemma_chan_f_peak(5, hw, 100000, 100000);
        lemma_chan_f_trough(1, hw, 100000, 100000);
        let w = 60000 - hw;
        lemma_chan_f_mid(3, hw, w);
        lemma_mid_channel(w);
        let m = rhu(1700000 * (6000000000 - 100000 * w), 40000000000);
        assert(c.red as int == 255000 && c.blue as int == 0 && c.green as int == m);
        assert(spec_hue(c) == rhu(60000 * m, 255000));
        assert(spec_hue(c) == hw);
    } else if hw < 120000 {
        lemma_small_mod((180000 + hw) as nat, 360000nat);
        lemma_small_mod((60000 + hw) as nat, 360000nat);
        lemma_fundamental_div_mod_converse(300000 + hw, 360000, 1, hw - 60000);
        lemma_chan_f_peak(3, hw, 100000, 100000);
        lemma_chan_f_trough(1, hw, 100000, 100000);
        let w = hw - 60000;
        lemma_chan_f_mid(5, hw, w);
        lemma_mid_channel(w);
        let m = rhu(1700000 * (6000000000 - 100000 * w), 40000000000);
        assert(c.green as int == 255000 && c.blue as int == 0 && c.red as int == m);
        if w == 0 {
            // red sits at the peak too; the red sector formula still lands on the boundary
            assert(m == 255000);
            assert(spec_hue(c) == rhu((60000 * 255000) as int, 255000));
            assert(spec_hue(c) == hw);
        } else {
            assert(m < 255000 && m >= 1);
            assert(spec_hue(c) == 120000 - rhu(60000 * m, 255000));
            assert(spec_hue(c) == hw);
        }
    } else if hw < 180000 {
        lemma_small_mod((180000 + hw) as nat, 360000nat);
        lemma_small_mod((60000 + hw) as nat, 360000nat);
        lemma_fundamental_div_mod_converse(300000 + hw, 360000, 1, hw - 60000);
        lemma_chan_f_peak(3, hw, 100000, 100000);
        lemma_chan_f_trough(5, hw, 100000, 100000);
        let w = 180000 - hw;
        lemma_chan_f_mid(1, hw, w);
        lemma_mid_channel(w);
        let m = rhu(1700000 * (6000000000 - 100000 * w), 40000000000);
        assert(c.green as int == 255000 && c.red as int == 0 && c.blue as int == m);
        assert(spec_hue(c) == 120000 + rhu(60000 * m, 255000));
        assert(spec_hue(c) == hw);
    } else if hw < 240000 {
        lemma_small_mod((60000 + hw) as nat, 360000nat);
        lemma_fundamental_div_mod_converse(300000 + hw, 360000, 1, hw - 60000);
        lemma_fundamental_div_mod_converse(180000 + hw, 360000, 1, hw - 180000);
        lemma_chan_f_peak(1, hw, 100000, 100000);
        lemma_chan_f_trough(5, hw, 100000, 100000);
        let w = hw - 180000;
        lemma_chan_f_mid(3, hw, w);
        lemma_mid_channel(w);
        let m = rhu(1700000 * (6000000000 - 100000 * w), 40000000000);
        assert(c.blue as int == 255000 && c.red as int == 0 && c.green as int == m);
        if w == 0 {
            // green sits at the peak too; the green sector formula lands on the boundary
            assert(m == 255000);
            assert(spec_hue(c) == 120000 + rhu((60000 * 255000) as int, 255000));
            assert(spec_hue(c) == hw);
        } else {
            assert(m < 255000 && m >= 1);
            assert(spec_hue(c) == 240000 - rhu(60000 * m, 255000));
            assert(spec_hue(c) == hw);
        }
    } else if hw < 300000 {
        lemma_small_mod((60000 + hw) as nat, 360000nat);
        lemma_fundamental_div_mod_converse(180000 + hw, 360000, 1, hw - 180000);
        lemma_fundamental_div_mod_converse(300000 + hw, 360000, 1, hw - 60000);
        lemma_chan_f_peak(1, hw, 100000, 100000);
        lemma_chan_f_trough(3, hw, 100000, 100000);
        let w = 300000 - hw;
        lemma_chan_f_mid(5, hw, w);
        lemma_mid_channel(w);
        let m = rhu(1700000 * (6000000000 - 100000 * w), 40000000000);
        assert(c.blue as int == 255000 && c.green as int == 0 && c.red as int == m);
        assert(m < 255000);
        assert(spec_hue(c) == 240000 + rhu(60000 * m, 255000));
        assert(spec_hue(c) == hw);
    } else {
        lemma_fundamental_div_mod_converse(300000 + hw, 360000, 1, hw - 60000);
        lemma_fundamental_div_mod_converse(180000 + hw, 360000, 1, hw - 180000);
        lemma_fundamental_div_mod_converse(60000 + hw, 360000, 1, hw - 300000);
        lemma_chan_f_peak(5, hw, 100000, 100000);
        lemma_chan_f_trough(3, hw, 100000, 100000);
        let w = hw - 300000;
        lemma_chan_f_mid(1, hw, w);
        lemma_mid_channel(w);
        let m = rhu(1700000 * (6000000000 - 100000 * w), 40000000000);
        assert(c.red as int == 255000 && c.green as int == 0 && c.blue as int == m);
        assert(m >= 1);
        assert(rhu(60000 * m, 255000) == 60000 - w && 60000 - w >= 1);
        assert(spec_hue(c) == 360000 - rhu(60000 * m, 255000));
        assert(spec_hue(c) == hw);
    }
}

/// At full saturation and value the HSV round trip is the identity: the
/// projection of `(h, 100%, 100%)` reads back as exactly the wrapped hue,
/// full saturation and full value, for every hue and every alpha.
pub proof fn lemma_hsv_round_trip_full(h: int, a: int)
    ensures
        ({
            let c = spec_from_hsv(h, 100000, 100000, a);
            &&& spec_hue(c) == h % 360000
            &&& spec_sat(c) == 100000
            &&& spec_val(c) == 100000
        }),
{
    lemma_hsv_hue_round_trip_full(h, a);
    lemma_hsv_saturation_round_trip_full_value(h, 100000, a);
    lemma_hsv_value_round_trip(h, 100000, 100000, a);
}

/// A byte written as two hex digits and parsed back is itself: the channel a
/// hex digit pair denotes rounds back to that same pair.
pub proof fn lemma_byte_chan_round_trip(b: int)
    requires
        0 <= b <= 255,
    ensures
        spec_byte(1000 * b) == b,
{
}

/// Parsing a `#`-prefixed 6-digit hex string and rendering the color back
/// gives the same string, lowercased.
#[verifier::spinoff_prover]
#[verifier::rlimit(50)]
pub proof fn lemma_hex_css_round_trip(s: Seq<char>)
    requires
        s.len() == 7,
        s[0] == '#',
        all_hex(s.skip(1)),
    ensures
        spec_from_hex(s) is Some,
        spec_to_css(spec_from_hex(s)->Some_0, false) == Seq::new(s.len(), |i: int| lower_hex_char(s[i])),
{
    let t = s.skip(1);
    assert(t.len() == 6);
    let c = spec_from_hex(s)->Some_0;
    assert(forall|i: int| 0 <= i < 6 ==> t[i] == s[i + 1]);
    lemma_digit_pair_round_trip(t, 0);
    lemma_digit_pair_round_trip(t, 1);
    lemma_digit_pair_round_trip(t, 2);
    assert(c.red as int == 1000 * byte_at(t, 0));
    assert(spec_to_css(c, false) =~= seq![
        '#', lower_hex_char(s[1]), lower_hex_char(s[2]), lower_hex_char(s[3]),
        lower_hex_char(s[4]), lower_hex_char(s[5]), lower_hex_char(s[6]),
    ]);
    assert(lower_hex_char(s[0]) == '#');
    assert(Seq::new(s.len(), |i: int| lower_hex_char(s[i])) =~= seq![
        '#', lower_hex_char(s[1]), lower_hex_char(s[2]), lower_hex_char(s[3]),
        lower_hex_char(s[4]), lower_hex_char(s[5]), lower_hex_char(s[6]),
    ]);
}

/// The digit pair at slot `i` survives the trip through its channel value.
proof fn lemma_digit_pair_round_trip(t: Seq<char>, i: int)
    requires
        0 <= i,
        2 * i + 1 < t.len(),
        is_hex_digit(t[2 * i]),
        is_hex_digit(t[2 * i + 1]),
    ensures
        0 <= byte_at(t, i) <= 255,
        spec_byte(1000 * byte_at(t, i)) == byte_at(t, i),
        hex_pair(byte_at(t, i)) == seq![lower_hex_char(t[2 * i]), lower_hex_char(t[2 * i + 1])],
{
    let x = hex_digit_val(t[2 * i]);
    let y = hex_digit_val(t[2 * i + 1]);
    lemma_hex_digit_val_range(t[2 * i]);
    lemma_hex_digit_val_range(t[2 * i + 1]);
    lemma_hex_pair_of_digits(x, y);
    lemma_hex_char_of_val(t[2 * i]);
    lemma_hex_char_of_val(t[2 * i + 1]);
    lemma_byte_chan_round_trip(16 * x + y);
}

} // verus!
