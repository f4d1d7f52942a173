use vstd::prelude::*;
use embedded_graphics::pixelcolor::RgbColor;

verus! {

/// A 24-bit color with 8 bits per channel.
#[derive(Clone, Copy, Debug, PartialEq, Eq, Structural)]
pub struct Rgb888 {
    pub r: u8,
    pub g: u8,
    pub b: u8,
}

/// Black, all channels off.
pub open spec fn black() -> Rgb888 {
    Rgb888 { r: 0, g: 0, b: 0 }
}

/// White, all channels at their maximum.
pub open spec fn white() -> Rgb888 {
    Rgb888 { r: 255, g: 255, b: 255 }
}

impl Rgb888 {
    /// The color with the given channels.
    pub fn new(r: u8, g: u8, b: u8) -> (c: Self)
        ensures
            c == (Rgb888 { r, g, b }),
    {
        Rgb888 { r, g, b }
    }

    /// Black.
    pub fn black() -> (c: Self)
        ensures
            c == black(),
    {
        Rgb888 { r: 0, g: 0, b: 0 }
    }
}

/// The color of a monochrome display.
#[derive(Clone, Copy, Debug, PartialEq, Eq, Structural)]
pub enum BinaryColor {
    Off,
    On,
}

/// A color that can be shown on an RGB frame buffer.
pub trait IntoRgb888: Copy {
    /// The RGB color that this color is shown as.
    spec fn rgb(self) -> Rgb888;

    /// Converts this color to RGB.
    fn into_rgb888(self) -> (c: Rgb888)
        ensures
            c == self.rgb(),
    ;
}

impl IntoRgb888 for Rgb888 {
    open spec fn rgb(self) -> Rgb888 {
        self
    }

    fn into_rgb888(self) -> (c: Rgb888) {
        self
    }
}

impl IntoRgb888 for BinaryColor {
    /// `Off` is shown black and `On` white.
    open spec fn rgb(self) -> Rgb888 {
        match self {
            BinaryColor::Off => black(),
            BinaryColor::On => white(),
        }
    }

    fn into_rgb888(self) -> (c: Rgb888) {
        let on = match self {
            BinaryColor::Off => false,
            BinaryColor::On => true,
        };
        let (r, g, b) = binary_to_rgb888(on);
        Rgb888 { r, g, b }
    }
}

/// Calls embedded-graphics' `From<BinaryColor> for Rgb888` on the binary
/// color `BinaryColor::from(on)` and reads back the three channels. The
/// crate maps `Off` to `Rgb888::BLACK` (0, 0, 0) and `On` to `Rgb888::WHITE`
/// (255, 255, 255), which is what the contract claims.
#[verifier::external_body]
fn binary_to_rgb888(on: bool) -> (c: (u8, u8, u8))
    ensures
        on ==> c == (255u8, 255u8, 255u8),
        !on ==> c == (0u8, 0u8, 0u8),
{
    let color = embedded_graphics::pixelcolor::Rgb888::from(
        embedded_graphics::pixelcolor::BinaryColor::from(on),
    );
    (color.r(), color.g(), color.b())
}

/// A monochrome pixel that is off is shown black, one that is on white.
pub proof fn lemma_binary_colors()
    ensures
        BinaryColor::Off.rgb() == (Rgb888 { r: 0, g: 0, b: 0 }),
        BinaryColor::On.rgb() == (Rgb888 { r: 255, g: 255, b: 255 }),
{
}

} // verus!
