//! The pixels of a frame buffer with eight bits for each of red, green and blue.

use vstd::prelude::*;
use vstd::std_specs::convert::{FromSpec, FromSpecImpl};

verus! {

/// A color whose red, green and blue are already multiplied by alpha.
#[derive(Clone, Copy, Debug, PartialEq, Eq, Structural)]
pub struct PremultipliedRgbaColor {
    pub red: u8,
    pub green: u8,
    pub blue: u8,
    pub alpha: u8,
}

/// A pixel in four bytes: from the highest to the lowest alpha, red, green and blue.
#[derive(Clone, Copy, Debug, PartialEq, Eq, Structural)]
pub struct DumbBufferPixelXrgb888(pub u32);

/// The pixel value of four channels.
pub open spec fn packed(red: u8, green: u8, blue: u8, alpha: u8) -> int {
    alpha * 0x100_0000 + red * 0x1_0000 + green * 0x100 + blue
}

/// The channel of a pixel value that counts in steps of `unit`.
pub open spec fn channel(value: u32, unit: u32) -> u8 {
    ((value / unit) % 0x100) as u8
}

impl FromSpecImpl<DumbBufferPixelXrgb888> for PremultipliedRgbaColor {
    open spec fn obeys_from_spec() -> bool {
        true
    }

    open spec fn from_spec(pixel: DumbBufferPixelXrgb888) -> Self {
        pixel.color()
    }
}

impl From<DumbBufferPixelXrgb888> for PremultipliedRgbaColor {
    fn from(pixel: DumbBufferPixelXrgb888) -> (color: Self) {
        let v: u32 = pixel.0;
        assert((v >> 16) as u8 == ((v / 0x1_0000) % 0x100) as u8) by (bit_vector);
        assert((v >> 8) as u8 == ((v / 0x100) % 0x100) as u8) by (bit_vector);
        assert((v >> 0) as u8 == ((v / 1) % 0x100) as u8) by (bit_vector);
        assert((v >> 24) as u8 == ((v / 0x100_0000) % 0x100) as u8) by (bit_vector);
        PremultipliedRgbaColor {
            red: #[verifier::truncate] ((v >> 16) as u8),
            green: #[verifier::truncate] ((v >> 8) as u8),
            blue: #[verifier::truncate] ((v >> 0) as u8),
            alpha: #[verifier::truncate] ((v >> 24) as u8),
        }
    }
}

impl FromSpecImpl<PremultipliedRgbaColor> for DumbBufferPixelXrgb888 {
    open spec fn obeys_from_spec() -> bool {
        true
    }

    open spec fn from_spec(color: PremultipliedRgbaColor) -> Self {
        DumbBufferPixelXrgb888::of(color)
    }
}

proof fn lemma_packed(red: u8, green: u8, blue: u8, alpha: u8)
    ensures
        (alpha as u32) << 24 | ((red as u32) << 16) | ((green as u32) << 8) | (blue as u32)
            == packed(red, green, blue, alpha),
{
    let (r, g, b, a) = (red as u32, green as u32, blue as u32, alpha as u32);
    assert((a << 24 | (r << 16) | (g << 8) | b) == a * 0x100_0000 + r * 0x1_0000 + g * 0x100 + b)
        by (bit_vector)
        requires
            r < 0x100,
            g < 0x100,
            b < 0x100,
            a < 0x100,
    ;
}

impl From<PremultipliedRgbaColor> for DumbBufferPixelXrgb888 {
    fn from(color: PremultipliedRgbaColor) -> (pixel: Self) {
        proof {
            lemma_packed(color.red, color.green, color.blue, color.alpha);
        }
        DumbBufferPixelXrgb888(
            (color.alpha as u32) << 24 | ((color.red as u32) << 16) | ((color.green as u32) << 8)
                | (color.blue as u32),
        )
    }
}

/// What is left of a channel below a color of the given alpha.
pub open spec fn dimmed(channel: u8, alpha: u8) -> int {
    channel * (255 - alpha) / 255
}

/// Whether a color can be laid over another one: no channel exceeds 255.
pub open spec fn can_blend(below: PremultipliedRgbaColor, color: PremultipliedRgbaColor) -> bool {
    &&& dimmed(below.red, color.alpha) + color.red <= 255
    &&& dimmed(below.green, color.alpha) + color.green <= 255
    &&& dimmed(below.blue, color.alpha) + color.blue <= 255
}

/// A color laid over another one.
pub open spec fn blended(
    below: PremultipliedRgbaColor,
    color: PremultipliedRgbaColor,
) -> PremultipliedRgbaColor {
    PremultipliedRgbaColor {
        red: (dimmed(below.red, color.alpha) + color.red) as u8,
        green: (dimmed(below.green, color.alpha) + color.green) as u8,
        blue: (dimmed(below.blue, color.alpha) + color.blue) as u8,
        alpha: (below.alpha + color.alpha - below.alpha * color.alpha / 255) as u8,
    }
}

/// Lays a color over another one. This calls `TargetPixel::blend` of `i_slint_core`'s software
/// renderer on its `PremultipliedRgbaColor`, and trusts that it dims each of red, green and blue
/// by the alpha of the upper color, rounding down, and adds that color's channel, and that alpha
/// becomes the sum of the two less their product over 255, rounded down. Sums above 255 overflow
/// there and are ruled out.
#[verifier::external_body]
fn blend_colors(
    below: PremultipliedRgbaColor,
    color: PremultipliedRgbaColor,
) -> (result: PremultipliedRgbaColor)
    requires
        can_blend(below, color),
    ensures
        result == blended(below, color),
{
    let mut x = i_slint_core::software_renderer::PremultipliedRgbaColor {
        red: below.red, green: below.green, blue: below.blue, alpha: below.alpha,
    };
    let c = i_slint_core::software_renderer::PremultipliedRgbaColor {
        red: color.red, green: color.green, blue: color.blue, alpha: color.alpha,
    };
    i_slint_core::software_renderer::TargetPixel::blend(&mut x, c);
    PremultipliedRgbaColor { red: x.red, green: x.green, blue: x.blue, alpha: x.alpha }
}

impl DumbBufferPixelXrgb888 {
    /// The channels of the pixel.
    pub open spec fn color(self) -> PremultipliedRgbaColor {
        PremultipliedRgbaColor {
            red: channel(self.0, 0x1_0000),
            green: channel(self.0, 0x100),
            blue: channel(self.0, 1),
            alpha: channel(self.0, 0x100_0000),
        }
    }

    /// The value of the pixel of a color.
    pub open spec fn of(color: PremultipliedRgbaColor) -> DumbBufferPixelXrgb888 {
        DumbBufferPixelXrgb888(packed(color.red, color.green, color.blue, color.alpha) as u32)
    }

    /// Lay a color over the pixel.
    pub fn blend(&mut self, color: PremultipliedRgbaColor)
        requires
            can_blend(old(self).color(), color),
        ensures
            *final(self) == DumbBufferPixelXrgb888::of(blended(old(self).color(), color)),
    {
        let x: PremultipliedRgbaColor = PremultipliedRgbaColor::from(*self);
        let x = blend_colors(x, color);
        *self = DumbBufferPixelXrgb888::from(x);
    }

    /// Whether the color can be laid over the pixel without exceeding a channel.
    pub fn accepts(&self, color: PremultipliedRgbaColor) -> (fits: bool)
        ensures
            fits == can_blend(self.color(), color),
    {
        let x: PremultipliedRgbaColor = PremultipliedRgbaColor::from(*self);
        let left: u32 = 255 - color.alpha as u32;
        assert(x.red * left <= 65025 && x.green * left <= 65025 && x.blue * left <= 65025)
            by (nonlinear_arith)
            requires
                left <= 255,
        ;
        x.red as u32 * left / 255 + color.red as u32 <= 255 && x.green as u32 * left / 255
            + color.green as u32 <= 255 && x.blue as u32 * left / 255 + color.blue as u32 <= 255
    }

    /// The pixel of an opaque color.
    pub fn from_rgb(r: u8, g: u8, b: u8) -> (pixel: Self)
        ensures
            pixel.0 == packed(r, g, b, 255),
    {
        let (r1, g1, b1) = (r as u32, g as u32, b as u32);
        assert((0xff000000u32 | (r1 << 16) | (g1 << 8) | b1) == 0xff000000 + r1 * 0x1_0000 + g1
            * 0x100 + b1) by (bit_vector)
            requires
                r1 < 0x100,
                g1 < 0x100,
                b1 < 0x100,
        ;
        DumbBufferPixelXrgb888(0xff000000 | ((r as u32) << 16) | ((g as u32) << 8) | (b as u32))
    }

    /// The pixel of what nothing has been drawn on.
    pub fn background() -> (pixel: Self)
        ensures
            pixel.0 == 0,
    {
        DumbBufferPixelXrgb888(0)
    }
}

/// Whether no channel of the color exceeds its alpha, as multiplying by alpha leaves them.
pub open spec fn is_premultiplied(color: PremultipliedRgbaColor) -> bool {
    color.red <= color.alpha && color.green <= color.alpha && color.blue <= color.alpha
}

/// A pixel keeps the color that it is made of.
pub proof fn law_pixel_keeps_color(color: PremultipliedRgbaColor)
    ensures
        DumbBufferPixelXrgb888::of(color).color() == color,
{
    let (r, g, b, a) = (
        color.red as int,
        color.green as int,
        color.blue as int,
        color.alpha as int,
    );
    let v = a * 0x100_0000 + r * 0x1_0000 + g * 0x100 + b;
    assert(v % 0x100 == b && (v / 0x100) % 0x100 == g && (v / 0x1_0000) % 0x100 == r && (v
        / 0x100_0000) % 0x100 == a);
}

/// A color keeps the pixel that it is read from.
pub proof fn law_color_keeps_pixel(pixel: DumbBufferPixelXrgb888)
    ensures
        DumbBufferPixelXrgb888::of(pixel.color()) == pixel,
{
}

/// A pixel made from red, green and blue is opaque.
pub proof fn law_rgb_is_opaque(r: u8, g: u8, b: u8)
    ensures
        DumbBufferPixelXrgb888(packed(r, g, b, 255) as u32).color() == (PremultipliedRgbaColor {
            red: r,
            green: g,
            blue: b,
            alpha: 255,
        }),
{
    law_pixel_keeps_color(PremultipliedRgbaColor { red: r, green: g, blue: b, alpha: 255 });
}

/// Laying a fully transparent color over a pixel changes nothing.
pub proof fn law_blend_transparent(pixel: DumbBufferPixelXrgb888)
    ensures
        ({
            let clear = PremultipliedRgbaColor { red: 0, green: 0, blue: 0, alpha: 0 };
            &&& can_blend(pixel.color(), clear)
            &&& DumbBufferPixelXrgb888::of(blended(pixel.color(), clear)) == pixel
        }),
{
    law_color_keeps_pixel(pixel);
}

/// Laying an opaque color over a pixel replaces it.
pub proof fn law_blend_opaque(pixel: DumbBufferPixelXrgb888, color: PremultipliedRgbaColor)
    requires
        color.alpha == 255,
    ensures
        can_blend(pixel.color(), color),
        blended(pixel.color(), color) == color,
{
}

/// A premultiplied color can be laid over any color; over another premultiplied one, the outcome is
/// premultiplied as well.
pub proof fn law_blend_premultiplied(below: PremultipliedRgbaColor, color: PremultipliedRgbaColor)
    requires
        is_premultiplied(color),
    ensures
        can_blend(below, color),
        is_premultiplied(below) ==> is_premultiplied(blended(below, color)),
{
    lemma_dimmed(below.red, below.alpha, color.alpha);
    lemma_dimmed(below.green, below.alpha, color.alpha);
    lemma_dimmed(below.blue, below.alpha, color.alpha);
}

proof fn lemma_dimmed(c: u8, below: u8, alpha: u8)
    ensures
        0 <= dimmed(c, alpha) <= 255 - alpha,
        0 <= below + alpha - below * alpha / 255 <= 255,
        c <= below ==> dimmed(c, alpha) <= below - below * alpha / 255,
{
    let (c, a, n) = (c as int, alpha as int, below as int);
    assert(0 <= c * (255 - a) <= 255 * (255 - a)) by (nonlinear_arith)
        requires
            0 <= c <= 255,
            0 <= a <= 255,
    ;
    assert((255 - n) * (255 - a) >= 0) by (nonlinear_arith)
        requires
            0 <= n <= 255,
            0 <= a <= 255,
    ;
    assert((255 - n) * (255 - a) == 65025 - 255 * n - 255 * a + n * a) by (nonlinear_arith);
    assert(0 <= n * a <= 255 * n) by (nonlinear_arith)
        requires
            0 <= n <= 255,
            0 <= a <= 255,
    ;
    if c <= n {
        assert(c * (255 - a) <= n * (255 - a)) by (nonlinear_arith)
            requires
                c <= n,
                a <= 255,
        ;
        assert(n * (255 - a) == 255 * n - n * a) by (nonlinear_arith);
    }
}

/// Each channel has a byte of the pixel to itself: the pixels of two colors differ by the differences
/// of the blue, green, red and alpha channels, weighted from the lowest byte to the highest.
pub proof fn law_channels_are_bytes(a: PremultipliedRgbaColor, b: PremultipliedRgbaColor)
    ensures
        DumbBufferPixelXrgb888::of(a).0 - DumbBufferPixelXrgb888::of(b).0 == (a.blue - b.blue)
            + 0x100 * (a.green - b.green) + 0x1_0000 * (a.red - b.red) + 0x100_0000 * (a.alpha
            - b.alpha),
        a.red == 0 && a.green == 0 && a.blue == 0 && a.alpha == 0 ==> DumbBufferPixelXrgb888::of(
            a,
        ).0 == 0,
{
}

/// The pixel of red, green and blue is the one of the opaque color with these channels.
pub proof fn law_rgb_is_a_color(r: u8, g: u8, b: u8)
    ensures
        packed(r, g, b, 255) == 0xff00_0000 + 0x1_0000 * r + 0x100 * g + b,
        packed(r, g, b, 255) == DumbBufferPixelXrgb888::of(
            PremultipliedRgbaColor { red: r, green: g, blue: b, alpha: 255 },
        ).0,
{
}

/// A color laid over a pixel covers it by its alpha, in 255ths: of each channel of the pixel the
/// uncovered part is left, without the fraction, and the channel of the color is added to it. The
/// parts that let through what lies behind are multiplied, up to a fraction.
pub proof fn law_blend_covers_by_alpha(pixel: DumbBufferPixelXrgb888, color: PremultipliedRgbaColor)
    requires
        can_blend(pixel.color(), color),
    ensures
        ({
            let below = pixel.color();
            let uncovered = 255 - color.alpha;
            let after = DumbBufferPixelXrgb888::of(blended(below, color)).color();
            &&& 255 * (after.red - color.red) <= below.red * uncovered < 255 * (after.red
                - color.red + 1)
            &&& 255 * (after.green - color.green) <= below.green * uncovered < 255 * (after.green
                - color.green + 1)
            &&& 255 * (after.blue - color.blue) <= below.blue * uncovered < 255 * (after.blue
                - color.blue + 1)
            &&& 255 * (255 - after.alpha) <= (255 - below.alpha) * uncovered < 255 * (256
                - after.alpha)
        }),
{
    let below = pixel.color();
    law_pixel_keeps_color(blended(below, color));
    lemma_dimmed(below.red, below.alpha, color.alpha);
    lemma_dimmed(below.green, below.alpha, color.alpha);
    lemma_dimmed(below.blue, below.alpha, color.alpha);
    let (n, a) = (below.alpha as int, color.alpha as int);
    assert((255 - n) * (255 - a) == 65025 - 255 * n - 255 * a + n * a) by (nonlinear_arith);
}

/// A color can be laid over a pixel exactly where no channel of it and of what is left uncovered of
/// the pixel exceeds 255 together.
pub proof fn law_blend_fits(pixel: DumbBufferPixelXrgb888, color: PremultipliedRgbaColor)
    ensures
        can_blend(pixel.color(), color) <==> {
            let below = pixel.color();
            let uncovered = 255 - color.alpha;
            &&& below.red * uncovered < 255 * (256 - color.red)
            &&& below.green * uncovered < 255 * (256 - color.green)
            &&& below.blue * uncovered < 255 * (256 - color.blue)
        },
{
}

/// Converting reads the four bytes of a pixel as alpha, red, green and blue, from the highest to the
/// lowest, and writes them so; and converting there and back gives what was there.
pub proof fn law_conversions(pixel: DumbBufferPixelXrgb888, color: PremultipliedRgbaColor)
    ensures
        ({
            let read: PremultipliedRgbaColor = FromSpec::from_spec(pixel);
            let written: DumbBufferPixelXrgb888 = FromSpec::from_spec(color);
            &&& pixel.0 == read.alpha * 0x100_0000 + read.red * 0x1_0000 + read.green * 0x100
                + read.blue
            &&& written.0 == color.alpha * 0x100_0000 + color.red * 0x1_0000 + color.green * 0x100
                + color.blue
            &&& read == pixel.color()
            &&& written == DumbBufferPixelXrgb888::of(color)
        }),
{
    law_color_keeps_pixel(pixel);
    law_pixel_keeps_color(color);
}

} // verus!
