use vstd::prelude::*;

verus! {

/// One pixel's colour: red, green and blue channels of 8 bits each.
#[derive(Clone, Copy, Debug, PartialEq, Eq, Structural)]
pub struct Sample {
    pub r: u8,
    pub g: u8,
    pub b: u8,
}

/// An exact non-negative fraction `num / den`, kept unreduced.
#[derive(Clone, Copy, Debug, PartialEq, Eq, Structural)]
pub struct Ratio {
    pub num: u32,
    pub den: u32,
}

/// A colour in the hue / lightness / saturation model. Hue is a fraction of a
/// full turn in `[0, 1)`; lightness and saturation are fractions in `[0, 1]`.
#[derive(Clone, Copy, Debug, PartialEq, Eq, Structural)]
pub struct Hls {
    pub hue: Ratio,
    pub lightness: Ratio,
    pub saturation: Ratio,
}

impl Sample {
    /// The sample made of the first three channels of an RGBA pixel; alpha is
    /// dropped.
    pub fn from_rgba(c: [u8; 4]) -> (s: Sample)
        ensures
            s.r == c@[0],
            s.g == c@[1],
            s.b == c@[2],
    {
        Sample { r: c[0], g: c[1], b: c[2] }
    }

    pub open spec fn max_channel(self) -> int {
        if self.r >= self.g && self.r >= self.b {
            self.r as int
        } else if self.g >= self.b {
            self.g as int
        } else {
            self.b as int
        }
    }

    pub open spec fn min_channel(self) -> int {
        if self.r <= self.g && self.r <= self.b {
            self.r as int
        } else if self.g <= self.b {
            self.g as int
        } else {
            self.b as int
        }
    }

    /// All three channels are equal: the colour has no hue.
    pub open spec fn is_achromatic(self) -> bool {
        self.r == self.g && self.g == self.b
    }
}

impl Ratio {
    /// A proper fraction: positive denominator, value at most one.
    pub open spec fn wf(self) -> bool {
        0 < self.den && self.num <= self.den
    }
}

impl Hls {
    pub open spec fn wf(self) -> bool {
        &&& self.hue.wf()
        &&& self.hue.num < self.hue.den
        &&& self.lightness.wf()
        &&& self.saturation.wf()
    }
}

pub open spec fn ratio(num: int, den: int) -> Ratio {
    Ratio { num: num as u32, den: den as u32 }
}

/// Hue in sixths of a turn, scaled by the chroma `max - min`: the channel
/// that is largest picks the sector (red first, then green, then blue), and
/// a negative offset in the red sector wraps round by one full turn.
pub open spec fn hue_sixths(s: Sample) -> int {
    let mx = s.max_channel();
    let d = mx - s.min_channel();
    if mx == s.r {
        if s.g >= s.b {
            s.g - s.b
        } else {
            6 * d + s.g - s.b
        }
    } else if mx == s.g {
        2 * d + s.b - s.r
    } else {
        4 * d + s.r - s.g
    }
}

/// The HLS colour of a sample, with each channel read as a fraction of 255.
/// Lightness is the mean of the largest and smallest channel. A grey sample
/// has hue and saturation zero. Otherwise saturation is the chroma over
/// `max + min` while lightness is at most one half, and over
/// `2 * 255 - max - min` above it; hue is `hue_sixths / (6 * chroma)`.
pub open spec fn hls_of(s: Sample) -> Hls {
    let mx = s.max_channel();
    let mn = s.min_channel();
    let d = mx - mn;
    if mx == mn {
        Hls { hue: ratio(0, 1), lightness: ratio(mn + mx, 510), saturation: ratio(0, 1) }
    } else {
        Hls {
            hue: ratio(hue_sixths(s), 6 * d),
            lightness: ratio(mn + mx, 510),
            saturation: if mn + mx <= 255 {
                ratio(d, mn + mx)
            } else {
                ratio(d, 510 - mn - mx)
            },
        }
    }
}

fn max_u8(a: u8, b: u8) -> (r: u8)
    ensures
        r == if a >= b { a } else { b },
{
    if a >= b { a } else { b }
}

fn min_u8(a: u8, b: u8) -> (r: u8)
    ensures
        r == if a <= b { a } else { b },
{
    if a <= b { a } else { b }
}

/// Converts a sample to hue, lightness and saturation, exactly.
pub fn rgb2hls(p: Sample) -> (h: Hls)
    ensures
        h == hls_of(p),
        h.wf(),
        p.is_achromatic() ==> h.hue.num == 0 && h.saturation.num == 0 && h.lightness.num
            * 255 == p.r * h.lightness.den,
{
    let maxc = max_u8(p.r, max_u8(p.g, p.b));
    let minc = min_u8(p.r, min_u8(p.g, p.b));
    assert(maxc == p.max_channel() && minc == p.min_channel());
    let sum: u32 = minc as u32 + maxc as u32;
    let lightness = Ratio { num: sum, den: 510 };
    if minc == maxc {
        return Hls { hue: Ratio { num: 0, den: 1 }, lightness, saturation: Ratio { num: 0, den: 1 } };
    }
    let diffc: u32 = (maxc - minc) as u32;
    let saturation = if sum <= 255 {
        Ratio { num: diffc, den: sum }
    } else {
        Ratio { num: diffc, den: 510 - sum }
    };
    let (r, g, b) = (p.r as u32, p.g as u32, p.b as u32);
    let sixths: u32 = if maxc == p.r {
        if g >= b {
            g - b
        } else {
            6 * diffc + g - b
        }
    } else if maxc == p.g {
        2 * diffc + b - r
    } else {
        4 * diffc + r - g
    };
    Hls { hue: Ratio { num: sixths, den: 6 * diffc }, lightness, saturation }
}

} // verus!
