use vstd::prelude::*;
use crate::display::SimulatorDisplay;
use crate::framebuffer::{
    Framebuffer, FramebufferView, fresh_framebuffer, creatable, updated, update_in_range, slot, scaled,
    shown_bytes, steps, can_create, can_update, positions_fit, walk_fits, targets_fit,
    lemma_fresh_framebuffer_wf, lemma_update_shows_each_pixel,
    lemma_scaled_inside_framebuffer,
};
use crate::output_settings::{framebuffer_size_spec, framebuffer_size_fits};
use crate::display::DisplayView;
use crate::geometry::Point;
use crate::theme::convert_spec;
use crate::output_settings::OutputSettings;
use crate::pixelcolor::IntoRgb888;

verus! {

/// Simulator window: the output settings and, once it has been updated, the
/// frame buffer that shows the display.
pub struct Window {
    framebuffer: Option<Framebuffer>,
    output_settings: OutputSettings,
}

/// What a window holds.
pub struct WindowView {
    pub framebuffer: Option<FramebufferView>,
    pub output_settings: OutputSettings,
}

impl WindowView {
    /// A frame buffer, once there is one, is well formed and drawn with the
    /// window's settings.
    pub open spec fn wf(self) -> bool {
        match self.framebuffer {
            Some(f) => f.wf() && f.output_settings == self.output_settings,
            None => true,
        }
    }

    /// The frame buffer that the next update draws on: the one there is,
    /// or a new one for a display of size `display_size`.
    pub open spec fn target(self, display_size: crate::geometry::Size) -> FramebufferView {
        match self.framebuffer {
            Some(f) => f,
            None => fresh_framebuffer(self.output_settings, display_size),
        }
    }
}

impl View for Window {
    type V = WindowView;

    closed spec fn view(&self) -> WindowView {
        WindowView {
            framebuffer: match self.framebuffer {
                Some(f) => Some(f@),
                None => None,
            },
            output_settings: self.output_settings,
        }
    }
}

impl Window {
    /// Creates a new simulator window.
    pub fn new(output_settings: &OutputSettings) -> (w: Self)
        ensures
            w@ == (WindowView { framebuffer: None, output_settings: *output_settings }),
            w@.wf(),
    {
        Window { framebuffer: None, output_settings: *output_settings }
    }

    /// Updates the window: creates its frame buffer on the first update,
    /// then draws `display` on it.
    pub fn update<C: IntoRgb888>(&mut self, display: &SimulatorDisplay<C>)
        requires
            old(self)@.wf(),
            display@.wf(),
            old(self)@.framebuffer is None ==> creatable(old(self)@.output_settings, display@.size),
            update_in_range(old(self)@.output_settings, display@.size),
            walk_fits(display@.size),
            targets_fit(old(self)@.target(display@.size).size, old(self)@.output_settings, display@.size),
        ensures
            final(self)@ == (WindowView {
                framebuffer: Some(updated(old(self)@.target(display@.size), display@)),
                ..old(self)@
            }),
            final(self)@.wf(),
    {
        let mut framebuffer = match self.framebuffer.take() {
            Some(fb) => fb,
            None => Framebuffer::new(display, &self.output_settings),
        };
        framebuffer.update(display);
        self.framebuffer = Some(framebuffer);
    }

    /// Tells whether `update` can draw `display`: a frame buffer can be made
    /// for it where there is none yet, the scaled coordinates stay within
    /// `i32`, and the positions of the pixels it reads and writes fit 32-bit
    /// arithmetic.
    pub fn can_update<C>(&self, display: &SimulatorDisplay<C>) -> (r: bool)
        requires
            self@.wf(),
        ensures
            r == ((self@.framebuffer is None ==> creatable(self@.output_settings, display@.size))
                && update_in_range(self@.output_settings, display@.size) && walk_fits(display@.size)
                && targets_fit(self@.target(display@.size).size, self@.output_settings, display@.size)),
    {
        let size = display.size();
        let target_size = match &self.framebuffer {
            Some(fb) => fb.size(),
            None => {
                if !can_create(&self.output_settings, size) {
                    return false;
                }
                self.output_settings.framebuffer_size(display)
            },
        };
        if !can_update(&self.output_settings, size) {
            return false;
        }
        positions_fit(&self.output_settings, size, target_size)
    }

    /// The frame buffer, once the window has been updated.
    pub fn framebuffer(&self) -> (r: Option<&Framebuffer>)
        ensures
            r matches Some(f) ==> self@.framebuffer == Some(f@),
            r is None ==> self@.framebuffer is None,
    {
        match &self.framebuffer {
            Some(f) => Some(f),
            None => None,
        }
    }

    /// Shows a static display: updates the window once. The frame buffer is
    /// then shown by the VGA controller; with no window to be closed, there
    /// is nothing to wait for afterwards.
    pub fn show_static<C: IntoRgb888>(&mut self, display: &SimulatorDisplay<C>)
        requires
            old(self)@.wf(),
            display@.wf(),
            old(self)@.framebuffer is None ==> creatable(old(self)@.output_settings, display@.size),
            update_in_range(old(self)@.output_settings, display@.size),
            walk_fits(display@.size),
            targets_fit(old(self)@.target(display@.size).size, old(self)@.output_settings, display@.size),
        ensures
            final(self)@ == (WindowView {
                framebuffer: Some(updated(old(self)@.target(display@.size), display@)),
                ..old(self)@
            }),
            final(self)@.wf(),
    {
        self.update(display);
    }
}

/// After an update with a scale of at least one, the window's frame
/// buffer shows every pixel of the display: display pixel `(x, y)` at the
/// point `(x * p, y * p)`, `p` being scale plus spacing, in the theme's color
/// for its color. This holds of the first update, which makes a frame
/// buffer sized for the display, and of every later one from a display of
/// the same size.
pub proof fn lemma_window_shows_display<C: IntoRgb888>(w: WindowView, d: DisplayView<C>, x: int, y: int)
    requires
        w.wf(),
        d.wf(),
        w.framebuffer is None ==> creatable(w.output_settings, d.size),
        framebuffer_size_fits(w.output_settings, d.size),
        update_in_range(w.output_settings, d.size),
        w.target(d.size).size == framebuffer_size_spec(w.output_settings, d.size),
        w.output_settings.scale >= 1,
        w.output_settings.scale + w.output_settings.pixel_spacing <= i32::MAX,
        d.size.width <= i32::MAX,
        d.size.height <= i32::MAX,
        0 <= x < d.size.width,
        0 <= y < d.size.height,
    ensures
        ({
            let s = w.output_settings;
            let c = convert_spec(s.theme, d.color_at(Point { x: x as i32, y: y as i32 }).rgb());
            let at = Point {
                x: (x * (s.scale + s.pixel_spacing)) as i32,
                y: (y * (s.scale + s.pixel_spacing)) as i32,
            };
            slot(updated(w.target(d.size), d).data, w.target(d.size).size, at) == seq![0u8, c.r, c.g, c.b]
        }),
{
    if w.framebuffer is None {
        lemma_fresh_framebuffer_wf(w.output_settings, d.size);
    }
    lemma_scaled_inside_framebuffer(w.output_settings, d.size, x, y);
    lemma_update_shows_each_pixel(w.target(d.size), d, x, y);
}

} // verus!
