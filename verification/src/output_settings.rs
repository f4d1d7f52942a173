use vstd::prelude::*;
use crate::display::SimulatorDisplay;
use crate::geometry::Size;
use crate::theme::BinaryColorTheme;

verus! {

/// How a display is drawn on the frame buffer: each pixel becomes a
/// `scale` by `scale` square, `pixel_spacing` pixels apart, in the colors of
/// `theme`.
#[derive(Clone, Copy, Debug, PartialEq, Eq, Structural)]
pub struct OutputSettings {
    pub scale: u32,
    pub pixel_spacing: u32,
    pub theme: BinaryColorTheme,
}

/// The output length of `n` pixels: `n` squares of `scale` with
/// `pixel_spacing` between neighbours.
pub open spec fn output_length(n: u32, scale: u32, pixel_spacing: u32) -> int {
    n * scale + (if n == 0 { 0 } else { n - 1 }) * pixel_spacing
}

/// The frame buffer size for a display of size `size`.
pub open spec fn framebuffer_size_spec(s: OutputSettings, size: Size) -> Size {
    Size {
        width: output_length(size.width, s.scale, s.pixel_spacing) as u32,
        height: output_length(size.height, s.scale, s.pixel_spacing) as u32,
    }
}

/// The frame buffer size of a display of size `size` fits in 32 bits.
pub open spec fn framebuffer_size_fits(s: OutputSettings, size: Size) -> bool {
    &&& output_length(size.width, s.scale, s.pixel_spacing) <= u32::MAX
    &&& output_length(size.height, s.scale, s.pixel_spacing) <= u32::MAX
}

proof fn lemma_output_length_parts(n: u32, scale: u32, pixel_spacing: u32)
    requires
        output_length(n, scale, pixel_spacing) <= u32::MAX,
    ensures
        n * scale <= u32::MAX,
        (if n == 0 { 0 } else { n - 1 }) * pixel_spacing <= u32::MAX,
{
    assert(n * scale >= 0) by (nonlinear_arith);
    assert((if n == 0 { 0 } else { n - 1 }) * pixel_spacing >= 0) by (nonlinear_arith);
}

fn output_length_exec(n: u32, scale: u32, pixel_spacing: u32) -> (r: u32)
    requires
        output_length(n, scale, pixel_spacing) <= u32::MAX,
    ensures
        r == output_length(n, scale, pixel_spacing),
{
    proof {
        lemma_output_length_parts(n, scale, pixel_spacing);
    }
    n * scale + n.saturating_sub(1) * pixel_spacing
}

impl OutputSettings {
    /// Calculates the size of the frame buffer that shows `display`.
    pub fn framebuffer_size<C>(&self, display: &SimulatorDisplay<C>) -> (r: Size)
        requires
            framebuffer_size_fits(*self, display@.size),
        ensures
            r == framebuffer_size_spec(*self, display@.size),
    {
        let size = display.size();
        Size::new(
            output_length_exec(size.width, self.scale, self.pixel_spacing),
            output_length_exec(size.height, self.scale, self.pixel_spacing),
        )
    }
}

/// Builder for output settings.
pub struct OutputSettingsBuilder {
    scale: Option<u32>,
    pixel_spacing: Option<u32>,
    theme: BinaryColorTheme,
}

/// What a builder holds.
pub struct BuilderView {
    pub scale: Option<u32>,
    pub pixel_spacing: Option<u32>,
    pub theme: BinaryColorTheme,
}

impl View for OutputSettingsBuilder {
    type V = BuilderView;

    closed spec fn view(&self) -> BuilderView {
        BuilderView { scale: self.scale, pixel_spacing: self.pixel_spacing, theme: self.theme }
    }
}

impl OutputSettingsBuilder {
    /// A builder with nothing set and the default theme.
    pub fn new() -> (b: Self)
        ensures
            b@ == (BuilderView { scale: None, pixel_spacing: None, theme: BinaryColorTheme::Default }),
    {
        OutputSettingsBuilder { scale: None, pixel_spacing: None, theme: BinaryColorTheme::Default }
    }

    /// Sets the pixel scale, which must not be 0.
    pub fn scale(self, scale: u32) -> (b: Self)
        requires
            scale != 0,
        ensures
            b@ == (BuilderView { scale: Some(scale), ..self@ }),
    {
        OutputSettingsBuilder { scale: Some(scale), pixel_spacing: self.pixel_spacing, theme: self.theme }
    }

    /// Sets the theme. A theme that imitates a real display also sets the
    /// scale to 3 and the pixel spacing to 1, unless they were set before.
    pub fn theme(self, theme: BinaryColorTheme) -> (b: Self)
        ensures
            b@ == (BuilderView {
                scale: Some(
                    match self@.scale {
                        Some(s) => s,
                        None => 3u32,
                    },
                ),
                pixel_spacing: Some(
                    match self@.pixel_spacing {
                        Some(p) => p,
                        None => 1u32,
                    },
                ),
                theme,
            }),
    {
        let scale = match self.scale {
            Some(s) => s,
            None => 3,
        };
        let pixel_spacing = match self.pixel_spacing {
            Some(p) => p,
            None => 1,
        };
        OutputSettingsBuilder { scale: Some(scale), pixel_spacing: Some(pixel_spacing), theme }
    }

    /// Sets the gap between pixels.
    pub fn pixel_spacing(self, pixel_spacing: u32) -> (b: Self)
        ensures
            b@ == (BuilderView { pixel_spacing: Some(pixel_spacing), ..self@ }),
    {
        OutputSettingsBuilder { scale: self.scale, pixel_spacing: Some(pixel_spacing), theme: self.theme }
    }

    /// The settings: scale 1 and no spacing where they were not set.
    pub fn build(self) -> (s: OutputSettings)
        ensures
            s == (OutputSettings {
                scale: match self@.scale {
                    Some(v) => v,
                    None => 1u32,
                },
                pixel_spacing: match self@.pixel_spacing {
                    Some(v) => v,
                    None => 0u32,
                },
                theme: self@.theme,
            }),
    {
        let scale = match self.scale {
            Some(v) => v,
            None => 1,
        };
        let pixel_spacing = match self.pixel_spacing {
            Some(v) => v,
            None => 0,
        };
        OutputSettings { scale, pixel_spacing, theme: self.theme }
    }
}

/// The frame buffer for a `w` by `h` display is `w * scale` plus
/// `(w - 1) * pixel_spacing` wide and likewise high; 0 for an empty side.
pub proof fn lemma_framebuffer_size_formula(s: OutputSettings, size: Size)
    requires
        framebuffer_size_fits(s, size),
    ensures
        size.width > 0 ==> framebuffer_size_spec(s, size).width == size.width * s.scale + (size.width - 1)
            * s.pixel_spacing,
        size.width == 0 ==> framebuffer_size_spec(s, size).width == 0,
        size.height > 0 ==> framebuffer_size_spec(s, size).height == size.height * s.scale + (size.height
            - 1) * s.pixel_spacing,
        size.height == 0 ==> framebuffer_size_spec(s, size).height == 0,
{
    assert(size.width * s.scale >= 0) by (nonlinear_arith);
    assert(size.height * s.scale >= 0) by (nonlinear_arith);
    assert((if size.width == 0 { 0 } else { size.width - 1 }) * s.pixel_spacing >= 0) by (nonlinear_arith);
    assert((if size.height == 0 { 0 } else { size.height - 1 }) * s.pixel_spacing >= 0) by (nonlinear_arith);
}

} // verus!
