use vstd::prelude::*;
use crate::pixelcolor::{Rgb888, black};

verus! {

/// Color theme for binary displays: how the two colors of a monochrome
/// display look on the RGB output.
#[derive(Clone, Copy, Debug, PartialEq, Eq, Structural)]
pub enum BinaryColorTheme {
    /// Colors are shown as they are.
    Default,
    /// A white LCD.
    LcdWhite,
    /// A green LCD.
    LcdGreen,
    /// A blue LCD.
    LcdBlue,
    /// A white OLED display.
    OledWhite,
    /// A blue OLED display.
    OledBlue,
}

/// `color_off` for black, `color_on` for every other color.
pub open spec fn map_color(color: Rgb888, color_off: Rgb888, color_on: Rgb888) -> Rgb888 {
    if color == black() {
        color_off
    } else {
        color_on
    }
}

/// The colors a theme shows for pixels that are off and on, where it is
/// not the default theme.
pub open spec fn theme_palette(theme: BinaryColorTheme) -> (Rgb888, Rgb888) {
    match theme {
        BinaryColorTheme::Default => (black(), black()),
        BinaryColorTheme::LcdWhite => (
            Rgb888 { r: 245, g: 245, b: 245 },
            Rgb888 { r: 32, g: 32, b: 32 },
        ),
        BinaryColorTheme::LcdGreen => (
            Rgb888 { r: 120, g: 185, b: 50 },
            Rgb888 { r: 32, g: 32, b: 32 },
        ),
        BinaryColorTheme::LcdBlue => (
            Rgb888 { r: 70, g: 80, b: 230 },
            Rgb888 { r: 230, g: 230, b: 255 },
        ),
        BinaryColorTheme::OledWhite => (
            Rgb888 { r: 20, g: 20, b: 20 },
            Rgb888 { r: 255, g: 255, b: 255 },
        ),
        BinaryColorTheme::OledBlue => (
            Rgb888 { r: 0, g: 20, b: 40 },
            Rgb888 { r: 0, g: 210, b: 255 },
        ),
    }
}

/// What a theme shows for `color`: the color itself for the default
/// theme; otherwise the theme's "off" color for black and its "on" color
/// for anything else.
pub open spec fn convert_spec(theme: BinaryColorTheme, color: Rgb888) -> Rgb888 {
    match theme {
        BinaryColorTheme::Default => color,
        _ => map_color(color, theme_palette(theme).0, theme_palette(theme).1),
    }
}

fn map_color_exec(color: Rgb888, color_off: Rgb888, color_on: Rgb888) -> (c: Rgb888)
    ensures
        c == map_color(color, color_off, color_on),
{
    if color == Rgb888::black() {
        color_off
    } else {
        color_on
    }
}

impl BinaryColorTheme {
    /// Converts a color of the display to the color it is shown as.
    pub fn convert(&self, color: Rgb888) -> (c: Rgb888)
        ensures
            c == convert_spec(*self, color),
    {
        match self {
            BinaryColorTheme::Default => color,
            BinaryColorTheme::LcdWhite => map_color_exec(
                color,
                Rgb888::new(245, 245, 245),
                Rgb888::new(32, 32, 32),
            ),
            BinaryColorTheme::LcdGreen => map_color_exec(
                color,
                Rgb888::new(120, 185, 50),
                Rgb888::new(32, 32, 32),
            ),
            BinaryColorTheme::LcdBlue => map_color_exec(
                color,
                Rgb888::new(70, 80, 230),
                Rgb888::new(230, 230, 255),
            ),
            BinaryColorTheme::OledWhite => map_color_exec(
                color,
                Rgb888::new(20, 20, 20),
                Rgb888::new(255, 255, 255),
            ),
            BinaryColorTheme::OledBlue => map_color_exec(
                color,
                Rgb888::new(0, 20, 40),
                Rgb888::new(0, 210, 255),
            ),
        }
    }
}

/// A theme other than the default shows every color in one of its two
/// colors, black in its "off" color.
pub proof fn lemma_theme_shows_two_colors(theme: BinaryColorTheme, color: Rgb888)
    requires
        theme != BinaryColorTheme::Default,
    ensures
        convert_spec(theme, color) == theme_palette(theme).0 || convert_spec(theme, color)
            == theme_palette(theme).1,
        color == black() ==> convert_spec(theme, color) == theme_palette(theme).0,
{
}

/// The palette of every theme: the default theme shows each color as it
/// is; every other theme shows black in its "off" color and every other
/// color in its "on" color:
/// - white LCD: (245, 245, 245) off, (32, 32, 32) on;
/// - green LCD: (120, 185, 50) off, (32, 32, 32) on;
/// - blue LCD: (70, 80, 230) off, (230, 230, 255) on;
/// - white OLED: (20, 20, 20) off, (255, 255, 255) on;
/// - blue OLED: (0, 20, 40) off, (0, 210, 255) on.
pub proof fn lemma_theme_palettes(color: Rgb888)
    ensures
        convert_spec(BinaryColorTheme::Default, color) == color,
        convert_spec(BinaryColorTheme::LcdWhite, color) == if color == (Rgb888 { r: 0, g: 0, b: 0 }) {
            Rgb888 { r: 245, g: 245, b: 245 }
        } else {
            Rgb888 { r: 32, g: 32, b: 32 }
        },
        convert_spec(BinaryColorTheme::LcdGreen, color) == if color == (Rgb888 { r: 0, g: 0, b: 0 }) {
            Rgb888 { r: 120, g: 185, b: 50 }
        } else {
            Rgb888 { r: 32, g: 32, b: 32 }
        },
        convert_spec(BinaryColorTheme::LcdBlue, color) == if color == (Rgb888 { r: 0, g: 0, b: 0 }) {
            Rgb888 { r: 70, g: 80, b: 230 }
        } else {
            Rgb888 { r: 230, g: 230, b: 255 }
        },
        convert_spec(BinaryColorTheme::OledWhite, color) == if color == (Rgb888 { r: 0, g: 0, b: 0 }) {
            Rgb888 { r: 20, g: 20, b: 20 }
        } else {
            Rgb888 { r: 255, g: 255, b: 255 }
        },
        convert_spec(BinaryColorTheme::OledBlue, color) == if color == (Rgb888 { r: 0, g: 0, b: 0 }) {
            Rgb888 { r: 0, g: 20, b: 40 }
        } else {
            Rgb888 { r: 0, g: 210, b: 255 }
        },
{
}

} // verus!
