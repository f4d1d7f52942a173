use vstd::prelude::*;
use crate::display::{
    Pixel, SimulatorDisplay, DisplayView, pixel_count, index_of, in_bounds, index_fits, lemma_index_in_grid,
    lemma_index_injective,
};
use crate::geometry::{Point, Size, to_unsigned};
use crate::output_settings::{OutputSettings, framebuffer_size_spec, framebuffer_size_fits, output_length};
use crate::pixelcolor::{Rgb888, IntoRgb888, black};
use crate::primitives::{StyledRectangle, Rectangle, PrimitiveStyle, pixels_spec, drawable};
use crate::theme::convert_spec;

verus! {

/// Rgb888 frame buffer: four bytes per pixel, row by row, as the VGA
/// controller reads them.
pub struct Framebuffer {
    size: Size,
    data: Vec<u8>,
    output_settings: OutputSettings,
}

/// What a frame buffer holds.
pub struct FramebufferView {
    pub size: Size,
    pub data: Seq<u8>,
    pub output_settings: OutputSettings,
}

/// A frame buffer of this size fits in memory.
pub open spec fn buffer_addressable(size: Size) -> bool {
    pixel_count(size) * 4 <= usize::MAX
}

/// A buffer of the given size with every pixel's four bytes set to
/// `bytes`.
pub open spec fn filled(size: Size, bytes: Seq<u8>) -> Seq<u8> {
    Seq::new((pixel_count(size) * 4) as nat, |i: int| bytes[i % 4])
}

impl FramebufferView {
    pub open spec fn wf(self) -> bool {
        &&& buffer_addressable(self.size)
        &&& self.data.len() == pixel_count(self.size) * 4
    }
}

impl View for Framebuffer {
    type V = FramebufferView;

    closed spec fn view(&self) -> FramebufferView {
        FramebufferView { size: self.size, data: self.data@, output_settings: self.output_settings }
    }
}

/// The offset of the four bytes of `p`, where `p` lies inside the buffer.
pub open spec fn pixel_offset(size: Size, p: Point) -> Option<int> {
    match index_of(size, p) {
        Some(i) => Some(4 * i),
        None => None,
    }
}

/// `data` with the four bytes of `p` set to `bytes`, where `p` lies inside
/// the buffer; `data` unchanged otherwise.
pub open spec fn put_pixel(data: Seq<u8>, size: Size, p: Point, bytes: Seq<u8>) -> Seq<u8> {
    match pixel_offset(size, p) {
        Some(o) => data.update(o, bytes[0]).update(o + 1, bytes[1]).update(o + 2, bytes[2]).update(
            o + 3,
            bytes[3],
        ),
        None => data,
    }
}

/// The bytes a single pixel is stored as: a zero byte, then blue, green and
/// red.
pub open spec fn pixel_bytes(c: Rgb888) -> Seq<u8> {
    seq![0u8, c.b, c.g, c.r]
}

/// The bytes a filled rectangle is stored as: a zero byte, then red, green
/// and blue.
pub open spec fn fill_bytes(c: Rgb888) -> Seq<u8> {
    seq![0u8, c.r, c.g, c.b]
}

/// The background of a new frame buffer: the theme's color for black.
pub open spec fn background(s: OutputSettings) -> Rgb888 {
    convert_spec(s.theme, black())
}

/// A new frame buffer for a display of size `display_size`: sized by the
/// settings, every pixel filled with the background color.
pub open spec fn fresh_framebuffer(s: OutputSettings, display_size: Size) -> FramebufferView {
    let size = framebuffer_size_spec(s, display_size);
    FramebufferView { size, data: filled(size, fill_bytes(background(s))), output_settings: s }
}

/// The requirements of `Framebuffer::new` on the settings and the size of
/// the display.
pub open spec fn creatable(s: OutputSettings, display_size: Size) -> bool {
    &&& framebuffer_size_fits(s, display_size)
    &&& buffer_addressable(framebuffer_size_spec(s, display_size))
    &&& framebuffer_size_spec(s, display_size).width <= i32::MAX
    &&& framebuffer_size_spec(s, display_size).height <= i32::MAX
}

/// The frame buffer `fb` after `update` from display `d`.
pub open spec fn updated<C: IntoRgb888>(fb: FramebufferView, d: DisplayView<C>) -> FramebufferView {
    FramebufferView {
        data: update_rows(fb.data, fb.size, fb.output_settings, d, steps(d.size.height)),
        ..fb
    }
}

/// `data` after drawing `pixels` one after the other.
pub open spec fn draw_pixels(data: Seq<u8>, size: Size, pixels: Seq<Pixel<Rgb888>>) -> Seq<u8>
    decreases pixels.len(),
{
    if pixels.len() == 0 {
        data
    } else {
        let last = pixels.last();
        put_pixel(draw_pixels(data, size, pixels.drop_last()), size, last.0, pixel_bytes(last.1))
    }
}

/// Is the rectangle drawn by its outline, pixel by pixel?
pub open spec fn has_outline(item: StyledRectangle) -> bool {
    item.style.stroke_color.is_some() && item.style.stroke_width != 0
}

/// `data` after drawing the styled rectangle `item`: with an outline, each
/// of its pixels; otherwise only its top-left corner, in the fill color.
pub open spec fn draw_rectangle_spec(data: Seq<u8>, size: Size, item: StyledRectangle) -> Seq<u8> {
    if has_outline(item) {
        draw_pixels(data, size, pixels_spec(item))
    } else {
        match item.style.fill_color {
            Some(fill) => put_pixel(data, size, item.primitive.top_left, fill_bytes(fill)),
            None => data,
        }
    }
}

/// The distance between the displayed pixels: scale plus spacing, as an
/// `i32`.
pub open spec fn pitch(s: OutputSettings) -> int {
    ((s.scale + s.pixel_spacing) as u32) as i32 as int
}

/// The number of columns or rows that `update` walks for a display length
/// `n`: `n` taken as an `i32` (none where that is negative).
pub open spec fn steps(n: u32) -> int {
    (n as i32) as int
}

/// `update` walks every column (or row) of a display length that is an
/// `i32`: exactly `n` of them.
pub proof fn lemma_steps_is_length(n: u32)
    requires
        n <= i32::MAX,
    ensures
        steps(n) == n,
{
}

/// The scaled coordinates of the walked columns (or rows) of a display
/// length `n`, and one past them, are `i32` values.
pub open spec fn coordinate_in_range(n: u32, p: int) -> bool {
    steps(n) > 0 ==> {
        &&& i32::MIN <= (steps(n) - 1) * p
        &&& (steps(n) - 1) * p + 1 <= i32::MAX
    }
}

/// `update` computes its coordinates without overflow for a display of
/// size `size`.
pub open spec fn update_in_range(s: OutputSettings, size: Size) -> bool {
    &&& s.scale + s.pixel_spacing <= u32::MAX
    &&& coordinate_in_range(size.width, pitch(s))
    &&& coordinate_in_range(size.height, pitch(s))
}

/// Every display pixel that `update` walks has a position that fits 32-bit
/// arithmetic.
pub open spec fn walk_fits(d_size: Size) -> bool {
    forall|x: int, y: int|
        0 <= x < steps(d_size.width) && 0 <= y < steps(d_size.height) ==> #[trigger] index_fits(
            d_size,
            Point { x: x as i32, y: y as i32 },
        )
}

/// Every point at which `update` draws has a position in the frame buffer
/// of size `fb_size` that fits 32-bit arithmetic.
pub open spec fn targets_fit(fb_size: Size, s: OutputSettings, d_size: Size) -> bool {
    forall|x: int, y: int|
        0 <= x < steps(d_size.width) && 0 <= y < steps(d_size.height) ==> #[trigger] index_fits(
            fb_size,
            scaled(s, x, y),
        )
}

/// Where display pixel `(x, y)` is drawn on the frame buffer.
pub open spec fn scaled(s: OutputSettings, x: int, y: int) -> Point {
    Point { x: (x * pitch(s)) as i32, y: (y * pitch(s)) as i32 }
}

/// `data` after drawing display pixel `(x, y)` at its scaled place.
pub open spec fn update_pixel<C: IntoRgb888>(
    data: Seq<u8>,
    size: Size,
    s: OutputSettings,
    d: DisplayView<C>,
    x: int,
    y: int,
) -> Seq<u8> {
    let color = d.color_at(Point { x: x as i32, y: y as i32 }).rgb();
    put_pixel(data, size, scaled(s, x, y), fill_bytes(convert_spec(s.theme, color)))
}

/// `data` after drawing the first `n` pixels of row `y` of the display.
pub open spec fn update_row<C: IntoRgb888>(
    data: Seq<u8>,
    size: Size,
    s: OutputSettings,
    d: DisplayView<C>,
    y: int,
    n: int,
) -> Seq<u8>
    decreases n,
{
    if n <= 0 {
        data
    } else {
        update_pixel(update_row(data, size, s, d, y, n - 1), size, s, d, n - 1, y)
    }
}

/// `data` after drawing the first `n` rows of the display.
pub open spec fn update_rows<C: IntoRgb888>(
    data: Seq<u8>,
    size: Size,
    s: OutputSettings,
    d: DisplayView<C>,
    n: int,
) -> Seq<u8>
    decreases n,
{
    if n <= 0 {
        data
    } else {
        update_row(update_rows(data, size, s, d, n - 1), size, s, d, n - 1, steps(d.size.width))
    }
}

/// Setting the bytes of a pixel keeps the buffer's length, and they lie
/// inside it.
proof fn lemma_put_pixel_len(data: Seq<u8>, size: Size, p: Point, bytes: Seq<u8>)
    requires
        data.len() == pixel_count(size) * 4,
    ensures
        put_pixel(data, size, p, bytes).len() == data.len(),
        pixel_offset(size, p) matches Some(o) ==> 0 <= o && o + 4 <= data.len(),
{
    if in_bounds(size, p) {
        lemma_index_in_grid(size, p);
    }
}

proof fn lemma_draw_pixels_len(data: Seq<u8>, size: Size, pixels: Seq<Pixel<Rgb888>>)
    requires
        data.len() == pixel_count(size) * 4,
    ensures
        draw_pixels(data, size, pixels).len() == data.len(),
    decreases pixels.len(),
{
    if pixels.len() > 0 {
        let last = pixels.last();
        lemma_draw_pixels_len(data, size, pixels.drop_last());
        lemma_put_pixel_len(draw_pixels(data, size, pixels.drop_last()), size, last.0, pixel_bytes(last.1));
    }
}

fn output_length_fits(n: u32, scale: u32, pixel_spacing: u32) -> (r: bool)
    ensures
        r == (output_length(n, scale, pixel_spacing) <= u32::MAX),
{
    let before: u128 = if n == 0 { 0 } else { n as u128 - 1 };
    assert(n as u128 * scale as u128 <= 0xffff_ffff_ffff_ffffu128) by (nonlinear_arith)
        requires
            n <= u32::MAX,
            scale <= u32::MAX,
    ;
    assert(before * pixel_spacing as u128 <= 0xffff_ffff_ffff_ffffu128) by (nonlinear_arith)
        requires
            before <= u32::MAX,
            pixel_spacing <= u32::MAX,
    ;
    let total: u128 = n as u128 * scale as u128 + before * pixel_spacing as u128;
    total <= u32::MAX as u128
}

fn coordinate_fits(n: u32, p: i32) -> (r: bool)
    ensures
        r == coordinate_in_range(n, p as int),
{
    let st = #[verifier::truncate] (n as i32);
    if st > 0 {
        let m: i64 = st as i64 - 1;
        assert(-0x4000_0000_0000_0000 <= m * p <= 0x4000_0000_0000_0000) by (nonlinear_arith)
            requires
                0 <= m <= 0x7fff_ffff,
                -0x8000_0000 <= p <= 0x7fff_ffff,
        ;
        let last: i64 = m * p as i64;
        last >= i32::MIN as i64 && last + 1 <= i32::MAX as i64
    } else {
        true
    }
}

/// Tells whether `Framebuffer::new` can make a frame buffer with these
/// settings for a display of size `display_size`.
pub fn can_create(s: &OutputSettings, display_size: Size) -> (r: bool)
    ensures
        r == creatable(*s, display_size),
{
    if !output_length_fits(display_size.width, s.scale, s.pixel_spacing)
        || !output_length_fits(display_size.height, s.scale, s.pixel_spacing) {
        return false;
    }
    let width: u128 = display_size.width as u128 * s.scale as u128 + (if display_size.width == 0 {
        0
    } else {
        display_size.width as u128 - 1
    }) * s.pixel_spacing as u128;
    let height: u128 = display_size.height as u128 * s.scale as u128 + (if display_size.height == 0 {
        0
    } else {
        display_size.height as u128 - 1
    }) * s.pixel_spacing as u128;
    assert(width * height <= 0xffff_ffff_ffff_ffffu128) by (nonlinear_arith)
        requires
            width <= u32::MAX,
            height <= u32::MAX,
    ;
    let count: u128 = width * height;
    count * 4 <= usize::MAX as u128 && width <= i32::MAX as u128
        && height <= i32::MAX as u128
}

/// Tells whether `update` can draw a display of size `display_size` with
/// these settings.
pub fn can_update(s: &OutputSettings, display_size: Size) -> (r: bool)
    ensures
        r == update_in_range(*s, display_size),
{
    if s.scale as u64 + s.pixel_spacing as u64 > u32::MAX as u64 {
        return false;
    }
    let p = #[verifier::truncate] ((s.scale + s.pixel_spacing) as i32);
    coordinate_fits(display_size.width, p) && coordinate_fits(display_size.height, p)
}

/// Tells whether every display pixel that `update` walks, and every point
/// at which it draws in a frame buffer of size `fb_size`, has a position
/// that fits 32-bit arithmetic.
pub fn positions_fit(s: &OutputSettings, d_size: Size, fb_size: Size) -> (r: bool)
    requires
        update_in_range(*s, d_size),
    ensures
        r == (walk_fits(d_size) && targets_fit(fb_size, *s, d_size)),
{
    let p = #[verifier::truncate] ((s.scale + s.pixel_spacing) as i32);
    let height = #[verifier::truncate] (d_size.height as i32);
    let width = #[verifier::truncate] (d_size.width as i32);
    let mut y: i32 = 0;
    while y < height
        invariant
            0 <= y,
            y <= height || y == 0,
            update_in_range(*s, d_size),
            p == pitch(*s),
            height == steps(d_size.height),
            width == steps(d_size.width),
            forall|x0: int, y0: int|
                0 <= x0 < width && 0 <= y0 < y ==> #[trigger] index_fits(
                    d_size,
                    Point { x: x0 as i32, y: y0 as i32 },
                ),
            forall|x0: int, y0: int|
                0 <= x0 < width && 0 <= y0 < y ==> #[trigger] index_fits(fb_size, scaled(*s, x0, y0)),
        decreases height - y,
    {
        let mut x: i32 = 0;
        while x < width
            invariant
                0 <= x,
                x <= width || x == 0,
                0 <= y < height,
                update_in_range(*s, d_size),
                p == pitch(*s),
                height == steps(d_size.height),
                width == steps(d_size.width),
                forall|x0: int, y0: int|
                    0 <= x0 < width && 0 <= y0 < y ==> #[trigger] index_fits(
                        d_size,
                        Point { x: x0 as i32, y: y0 as i32 },
                    ),
                forall|x0: int, y0: int|
                    0 <= x0 < width && 0 <= y0 < y ==> #[trigger] index_fits(fb_size, scaled(*s, x0, y0)),
                forall|x0: int|
                    0 <= x0 < x ==> #[trigger] index_fits(d_size, Point { x: x0 as i32, y: y as i32 }),
                forall|x0: int| 0 <= x0 < x ==> #[trigger] index_fits(fb_size, scaled(*s, x0, y as int)),
            decreases width - x,
        {
            proof {
                lemma_scaled_in_range(x as int, d_size.width, p as int);
                lemma_scaled_in_range(y as int, d_size.height, p as int);
                assert(y * d_size.width <= 0x7fff_ffff * 0xffff_ffff) by (nonlinear_arith)
                    requires
                        0 <= y <= 0x7fff_ffff,
                        d_size.width <= 0xffff_ffff,
                ;
                assert(0 <= y * d_size.width) by (nonlinear_arith)
                    requires
                        0 <= y,
                ;
            }
            let index: u64 = x as u64 + y as u64 * d_size.width as u64;
            let px: i32 = x * p;
            let py: i32 = y * p;
            let inside = 0 <= px && (px as u32) < fb_size.width && 0 <= py && (py as u32) < fb_size.height;
            proof {
                if inside {
                    assert(py * fb_size.width <= 0x7fff_ffff * 0xffff_ffff) by (nonlinear_arith)
                        requires
                            0 <= py <= 0x7fff_ffff,
                            fb_size.width <= 0xffff_ffff,
                    ;
                    assert(0 <= py * fb_size.width) by (nonlinear_arith)
                        requires
                            0 <= py,
                    ;
                }
            }
            let target_fits = !inside || px as u64 + py as u64 * fb_size.width as u64 <= u32::MAX as u64;
            assert(index_fits(fb_size, scaled(*s, x as int, y as int)) == target_fits);
            assert(index_fits(d_size, Point { x: x as int as i32, y: y as int as i32 }) == (index
                <= u32::MAX as u64));
            if index > u32::MAX as u64 || !target_fits {
                return false;
            }
            x = x + 1;
        }
        y = y + 1;
    }
    true
}

/// A walked column (or row) `x` has its scaled coordinate, and one past
/// it, within `i32`.
proof fn lemma_scaled_in_range(x: int, n: u32, p: int)
    requires
        0 <= x < steps(n),
        coordinate_in_range(n, p),
    ensures
        i32::MIN <= x * p,
        x * p + 1 <= i32::MAX,
{
    let m = steps(n) - 1;
    if p >= 0 {
        assert(0 <= x * p <= m * p) by (nonlinear_arith)
            requires
                0 <= x <= m,
                p >= 0,
        ;
    } else {
        assert(m * p <= x * p <= 0) by (nonlinear_arith)
            requires
                0 <= x <= m,
                p < 0,
        ;
    }
}

fn zeros(n: usize) -> (v: Vec<u8>)
    ensures
        v@ == Seq::new(n as nat, |i: int| 0u8),
{
    let mut v: Vec<u8> = Vec::new();
    let mut i: usize = 0;
    while i < n
        invariant
            i <= n,
            v@ == Seq::new(i as nat, |j: int| 0u8),
        decreases n - i,
    {
        v.push(0);
        i = i + 1;
    }
    v
}

impl Framebuffer {
    /// Creates a new frame buffer for `display`, sized by `output_settings`
    /// and filled with the background color, the theme's color for black.
    pub fn new<C: IntoRgb888>(display: &SimulatorDisplay<C>, output_settings: &OutputSettings) -> (fb: Self)
        requires
            display@.wf(),
            creatable(*output_settings, display@.size),
        ensures
            fb@.wf(),
            fb@ == fresh_framebuffer(*output_settings, display@.size),
            forall|p: Point|
                in_bounds(fb@.size, p) ==> #[trigger] slot(fb@.data, fb@.size, p) == fill_bytes(
                    background(*output_settings),
                ),
    {
        let size = output_settings.framebuffer_size(display);
        let count = size.width as usize * size.height as usize;
        let data = zeros(count * 4);
        let mut framebuffer = Framebuffer { size, data, output_settings: *output_settings };
        let background_color = output_settings.theme.convert(Rgb888::black());
        framebuffer.clear(background_color).unwrap();
        proof {
            assert forall|p: Point| in_bounds(size, p) implies #[trigger] slot(
                framebuffer@.data,
                size,
                p,
            ) == fill_bytes(background_color) by {
                lemma_filled_slot(size, fill_bytes(background_color), p);
            }
        }
        framebuffer
    }

    /// Clears the buffer with `color`: every pixel's bytes become 0, red,
    /// green, blue. The buffer's size must be an `i32` point, as the corner
    /// of the rectangle that covers it.
    pub fn clear(&mut self, color: Rgb888) -> (r: Result<(), core::convert::Infallible>)
        requires
            old(self)@.wf(),
            old(self)@.size.width <= i32::MAX,
            old(self)@.size.height <= i32::MAX,
        ensures
            r is Ok,
            final(self)@ == (FramebufferView { data: filled(old(self)@.size, fill_bytes(color)), ..old(self)@ }),
            final(self)@.wf(),
    {
        let ghost v0 = self@;
        let ghost bytes = fill_bytes(color);
        let count = self.size.width as usize * self.size.height as usize;
        let mut j: usize = 0;
        while j < count
            invariant
                j <= count,
                count == pixel_count(v0.size),
                v0.wf(),
                self@.size == v0.size,
                self@.output_settings == v0.output_settings,
                self@.wf(),
                bytes == fill_bytes(color),
                forall|i: int| 0 <= i < 4 * j ==> self@.data[i] == #[trigger] bytes[i % 4],
            decreases count - j,
        {
            let start = 4 * j;
            self.write_pixel_bytes(start, 0, color.r, color.g, color.b);
            proof {
                assert forall|i: int| 0 <= i < 4 * (j + 1) implies self@.data[i] == #[trigger] bytes[i % 4] by {
                    if i >= 4 * j {
                        assert(i % 4 == i - 4 * j);
                    }
                }
            }
            j = j + 1;
        }
        proof {
            assert(self@.data =~= filled(v0.size, bytes));
        }
        Ok(())
    }

    /// The offset of the bytes of `point`, where it lies inside the buffer.
    fn pixel_offset_of(&self, point: Point) -> (r: Option<usize>)
        requires
            self@.wf(),
            index_fits(self@.size, point),
        ensures
            r matches Some(o) ==> pixel_offset(self@.size, point) == Some(o as int) && o + 4
                <= self@.data.len(),
            r is None ==> pixel_offset(self@.size, point) is None,
    {
        if let Some((x, y)) = to_unsigned(point) {
            if x < self.size.width && y < self.size.height {
                proof {
                    lemma_index_in_grid(self.size, point);
                }
                let start_index = (x + y * self.size.width) as usize * 4;
                return Some(start_index);
            }
        }
        None
    }

    fn write_pixel_bytes(&mut self, start: usize, b0: u8, b1: u8, b2: u8, b3: u8)
        requires
            old(self)@.wf(),
            start + 4 <= old(self)@.data.len(),
        ensures
            final(self)@.wf(),
            final(self)@ == (FramebufferView {
                data: old(self)@.data.update(start as int, b0).update(start + 1, b1).update(
                    start + 2,
                    b2,
                ).update(start + 3, b3),
                ..old(self)@
            }),
    {
        self.data.set(start, b0);
        self.data.set(start + 1, b1);
        self.data.set(start + 2, b2);
        self.data.set(start + 3, b3);
    }

    /// Sets a pixel: its bytes become 0, blue, green, red. A pixel outside
    /// the buffer is ignored.
    pub fn draw_pixel(&mut self, pixel: Pixel<Rgb888>) -> (r: Result<(), core::convert::Infallible>)
        requires
            old(self)@.wf(),
            index_fits(old(self)@.size, pixel.0),
        ensures
            r is Ok,
            final(self)@ == (FramebufferView {
                data: put_pixel(old(self)@.data, old(self)@.size, pixel.0, pixel_bytes(pixel.1)),
                ..old(self)@
            }),
            final(self)@.wf(),
    {
        proof {
            lemma_put_pixel_len(self@.data, self@.size, pixel.0, pixel_bytes(pixel.1));
        }
        let Pixel(point, color) = pixel;
        if let Some(start) = self.pixel_offset_of(point) {
            self.write_pixel_bytes(start, 0, color.b, color.g, color.r);
        }
        Ok(())
    }

    /// Draws `pixels` one after the other.
    pub fn draw_iter(&mut self, pixels: Vec<Pixel<Rgb888>>) -> (r: Result<(), core::convert::Infallible>)
        requires
            old(self)@.wf(),
            forall|i: int| 0 <= i < pixels@.len() ==> index_fits(old(self)@.size, #[trigger] pixels@[i].0),
        ensures
            r is Ok,
            final(self)@ == (FramebufferView {
                data: draw_pixels(old(self)@.data, old(self)@.size, pixels@),
                ..old(self)@
            }),
            final(self)@.wf(),
    {
        let ghost old_view = self@;
        let mut i: usize = 0;
        while i < pixels.len()
            invariant
                i <= pixels@.len(),
                old_view.wf(),
                forall|k: int| 0 <= k < pixels@.len() ==> index_fits(old_view.size, #[trigger] pixels@[k].0),
                self@.wf(),
                self@ == (FramebufferView {
                    data: draw_pixels(old_view.data, old_view.size, pixels@.take(i as int)),
                    ..old_view
                }),
            decreases pixels@.len() - i,
        {
            let Pixel(point, color) = pixels[i];
            let _ = self.draw_pixel(Pixel(point, color));
            proof {
                assert(pixels@.take(i + 1).drop_last() =~= pixels@.take(i as int));
                lemma_draw_pixels_len(old_view.data, old_view.size, pixels@.take(i + 1));
            }
            i = i + 1;
        }
        proof {
            assert(pixels@.take(i as int) =~= pixels@);
        }
        Ok(())
    }

    /// Draws a styled rectangle. With an outline it draws each of the
    /// rectangle's pixels; otherwise it fills only the top-left corner, with
    /// the bytes 0, red, green, blue.
    pub fn draw_rectangle(&mut self, item: &StyledRectangle) -> (r: Result<(), core::convert::Infallible>)
        requires
            old(self)@.wf(),
            has_outline(*item) ==> drawable(*item),
            has_outline(*item) ==> forall|i: int|
                0 <= i < pixels_spec(*item).len() ==> index_fits(old(self)@.size, #[trigger] pixels_spec(*item)[i].0),
            !has_outline(*item) ==> index_fits(old(self)@.size, item.primitive.top_left),
        ensures
            r is Ok,
            final(self)@ == (FramebufferView {
                data: draw_rectangle_spec(old(self)@.data, old(self)@.size, *item),
                ..old(self)@
            }),
            final(self)@.wf(),
    {
        proof {
            if let Some(fill) = item.style.fill_color {
                lemma_put_pixel_len(self@.data, self@.size, item.primitive.top_left, fill_bytes(fill));
            }
        }
        if item.style.stroke_color.is_some() && item.style.stroke_width != 0 {
            let pixels = item.pixels();
            return self.draw_iter(pixels);
        }
        if let Some(fill_color) = item.style.fill_color {
            let p = item.primitive.top_left;
            if let Some(start) = self.pixel_offset_of(p) {
                self.write_pixel_bytes(start, 0, fill_color.r, fill_color.g, fill_color.b);
            }
        }
        Ok(())
    }

    /// Updates the frame buffer from a display: each display pixel `(x, y)`,
    /// row by row, is drawn as a filled rectangle from `(x * p, y * p)` to
    /// one pixel further, where `p` is scale plus spacing, in the theme's
    /// color for the pixel's color. This buffer draws such a rectangle by its
    /// top-left corner alone.
    pub fn update<C: IntoRgb888>(&mut self, display: &SimulatorDisplay<C>)
        requires
            old(self)@.wf(),
            display@.wf(),
            update_in_range(old(self)@.output_settings, display@.size),
            walk_fits(display@.size),
            targets_fit(old(self)@.size, old(self)@.output_settings, display@.size),
        ensures
            final(self)@ == updated(old(self)@, display@),
            final(self)@.wf(),
    {
        let ghost v0 = self@;
        let size = display.size();
        let pixel_pitch = #[verifier::truncate] ((self.output_settings.scale
            + self.output_settings.pixel_spacing) as i32);
        let height = #[verifier::truncate] (size.height as i32);
        let width = #[verifier::truncate] (size.width as i32);
        let mut y: i32 = 0;
        while y < height
            invariant
                0 <= y,
                y <= height || y == 0,
                v0.wf(),
                display@.wf(),
                update_in_range(v0.output_settings, display@.size),
                size == display@.size,
                pixel_pitch == pitch(v0.output_settings),
                height == steps(size.height),
                width == steps(size.width),
                walk_fits(size),
                targets_fit(v0.size, v0.output_settings, size),
                self@.wf(),
                self@ == (FramebufferView {
                    data: update_rows(v0.data, v0.size, v0.output_settings, display@, y as int),
                    ..v0
                }),
            decreases height - y,
        {
            let ghost row_start = self@.data;
            let mut x: i32 = 0;
            while x < width
                invariant
                    0 <= x,
                    x <= width || x == 0,
                    0 <= y < height,
                    v0.wf(),
                    display@.wf(),
                    update_in_range(v0.output_settings, display@.size),
                    size == display@.size,
                    pixel_pitch == pitch(v0.output_settings),
                    height == steps(size.height),
                    width == steps(size.width),
                    walk_fits(size),
                    targets_fit(v0.size, v0.output_settings, size),
                    row_start == update_rows(v0.data, v0.size, v0.output_settings, display@, y as int),
                    self@.wf(),
                    self@ == (FramebufferView {
                        data: update_row(row_start, v0.size, v0.output_settings, display@, y as int, x as int),
                        ..v0
                    }),
                decreases width - x,
            {
                proof {
                    assert(index_fits(size, Point { x: x as int as i32, y: y as int as i32 }));
                    assert(index_fits(v0.size, scaled(v0.output_settings, x as int, y as int)));
                }
                let color = display.get_pixel(Point::new(x, y)).into_rgb888();
                proof {
                    lemma_scaled_in_range(x as int, size.width, pixel_pitch as int);
                    lemma_scaled_in_range(y as int, size.height, pixel_pitch as int);
                }
                let p = Point::new(x * pixel_pitch, y * pixel_pitch);
                let p1 = Point::new(p.x + 1, p.y + 1);
                let fill = self.output_settings.theme.convert(color);
                let rect = Rectangle::new(p, p1).into_styled(PrimitiveStyle::with_fill(fill));
                let _ = self.draw_rectangle(&rect);
                x = x + 1;
            }
            y = y + 1;
        }
    }

    /// The size of the buffer.
    pub fn size(&self) -> (s: Size)
        ensures
            s == self@.size,
    {
        self.size
    }

    /// The bytes of the buffer.
    pub fn data(&self) -> (d: &[u8])
        ensures
            d@ == self@.data,
    {
        self.data.as_slice()
    }
}


/// The four bytes of `p` in `data`, where `p` lies inside the buffer.
pub open spec fn slot(data: Seq<u8>, size: Size, p: Point) -> Seq<u8> {
    match pixel_offset(size, p) {
        Some(o) => data.subrange(o, o + 4),
        None => Seq::empty(),
    }
}

/// In a filled buffer every pixel holds the filling bytes.
pub proof fn lemma_filled_slot(size: Size, bytes: Seq<u8>, p: Point)
    requires
        in_bounds(size, p),
        bytes.len() == 4,
    ensures
        slot(filled(size, bytes), size, p) == bytes,
{
    lemma_index_in_grid(size, p);
    let o = 4 * (p.x + p.y * size.width);
    assert forall|k: int| 0 <= k < 4 implies #[trigger] slot(filled(size, bytes), size, p)[k] == bytes[k] by {
        assert((o + k) % 4 == k);
    }
    assert(slot(filled(size, bytes), size, p) =~= bytes);
}

/// Setting a pixel inside the buffer stores its four bytes in its slot.
pub proof fn lemma_put_pixel_sets_slot(data: Seq<u8>, size: Size, p: Point, bytes: Seq<u8>)
    requires
        data.len() == pixel_count(size) * 4,
        in_bounds(size, p),
        bytes.len() == 4,
    ensures
        slot(put_pixel(data, size, p, bytes), size, p) == bytes,
{
    lemma_index_in_grid(size, p);
    assert(slot(put_pixel(data, size, p, bytes), size, p) =~= bytes);
}

/// Setting a pixel leaves the slot of every other pixel as it was: the
/// slots of different pixels do not overlap.
pub proof fn lemma_put_pixel_keeps_other_slots(
    data: Seq<u8>,
    size: Size,
    p: Point,
    q: Point,
    bytes: Seq<u8>,
)
    requires
        data.len() == pixel_count(size) * 4,
        in_bounds(size, q),
        p != q,
    ensures
        slot(put_pixel(data, size, p, bytes), size, q) == slot(data, size, q),
{
    lemma_index_in_grid(size, q);
    if in_bounds(size, p) {
        lemma_index_in_grid(size, p);
        lemma_index_injective(size, p, q);
    }
    assert(slot(put_pixel(data, size, p, bytes), size, q) =~= slot(data, size, q));
}

/// Drawing a row keeps the length of the buffer.
proof fn lemma_update_row_len<C: IntoRgb888>(
    data: Seq<u8>,
    size: Size,
    s: OutputSettings,
    d: DisplayView<C>,
    y: int,
    n: int,
)
    requires
        data.len() == pixel_count(size) * 4,
    ensures
        update_row(data, size, s, d, y, n).len() == data.len(),
    decreases n,
{
    if n > 0 {
        lemma_update_row_len(data, size, s, d, y, n - 1);
        let color = d.color_at(Point { x: (n - 1) as i32, y: y as i32 }).rgb();
        lemma_put_pixel_len(
            update_row(data, size, s, d, y, n - 1),
            size,
            scaled(s, n - 1, y),
            fill_bytes(convert_spec(s.theme, color)),
        );
    }
}

/// Drawing rows keeps the length of the buffer.
proof fn lemma_update_rows_len<C: IntoRgb888>(
    data: Seq<u8>,
    size: Size,
    s: OutputSettings,
    d: DisplayView<C>,
    n: int,
)
    requires
        data.len() == pixel_count(size) * 4,
    ensures
        update_rows(data, size, s, d, n).len() == data.len(),
    decreases n,
{
    if n > 0 {
        lemma_update_rows_len(data, size, s, d, n - 1);
        lemma_update_row_len(
            update_rows(data, size, s, d, n - 1),
            size,
            s,
            d,
            n - 1,
            steps(d.size.width),
        );
    }
}

/// With a pitch of at least one, different display pixels are drawn at
/// different points.
proof fn lemma_scaled_distinct(s: OutputSettings, size: Size, x1: int, y1: int, x2: int, y2: int)
    requires
        pitch(s) >= 1,
        update_in_range(s, size),
        0 <= x1 < steps(size.width),
        0 <= x2 < steps(size.width),
        0 <= y1 < steps(size.height),
        0 <= y2 < steps(size.height),
        x1 != x2 || y1 != y2,
    ensures
        scaled(s, x1, y1) != scaled(s, x2, y2),
{
    let p = pitch(s);
    lemma_scaled_in_range(x1, size.width, p);
    lemma_scaled_in_range(x2, size.width, p);
    lemma_scaled_in_range(y1, size.height, p);
    lemma_scaled_in_range(y2, size.height, p);
    if x1 != x2 {
        assert(x1 * p != x2 * p) by (nonlinear_arith)
            requires
                x1 != x2,
                p >= 1,
        ;
    } else {
        assert(y1 * p != y2 * p) by (nonlinear_arith)
            requires
                y1 != y2,
                p >= 1,
        ;
    }
}

/// Drawing the first `n` pixels of row `y` leaves the slot of display pixel
/// `(x0, y0)` alone where that pixel is not among them.
proof fn lemma_row_keeps_slot<C: IntoRgb888>(
    data: Seq<u8>,
    size: Size,
    s: OutputSettings,
    d: DisplayView<C>,
    y: int,
    n: int,
    x0: int,
    y0: int,
)
    requires
        data.len() == pixel_count(size) * 4,
        pitch(s) >= 1,
        update_in_range(s, d.size),
        0 <= y < steps(d.size.height),
        0 <= y0 < steps(d.size.height),
        0 <= x0 < steps(d.size.width),
        n <= steps(d.size.width),
        y0 != y || x0 >= n,
        in_bounds(size, scaled(s, x0, y0)),
    ensures
        slot(update_row(data, size, s, d, y, n), size, scaled(s, x0, y0)) == slot(
            data,
            size,
            scaled(s, x0, y0),
        ),
    decreases n,
{
    if n > 0 {
        lemma_row_keeps_slot(data, size, s, d, y, n - 1, x0, y0);
        lemma_update_row_len(data, size, s, d, y, n - 1);
        lemma_scaled_distinct(s, d.size, n - 1, y, x0, y0);
        let color = d.color_at(Point { x: (n - 1) as i32, y: y as i32 }).rgb();
        lemma_put_pixel_keeps_other_slots(
            update_row(data, size, s, d, y, n - 1),
            size,
            scaled(s, n - 1, y),
            scaled(s, x0, y0),
            fill_bytes(convert_spec(s.theme, color)),
        );
    }
}

/// A new frame buffer is well formed.
pub proof fn lemma_fresh_framebuffer_wf(s: OutputSettings, display_size: Size)
    requires
        creatable(s, display_size),
    ensures
        fresh_framebuffer(s, display_size).wf(),
{
}

/// The bytes that `update` stores for display pixel `(x, y)`.
pub open spec fn shown_bytes<C: IntoRgb888>(s: OutputSettings, d: DisplayView<C>, x: int, y: int) -> Seq<u8> {
    fill_bytes(convert_spec(s.theme, d.color_at(Point { x: x as i32, y: y as i32 }).rgb()))
}

/// After the first `n` pixels of row `y`, each of them is shown in its
/// slot.
proof fn lemma_row_sets_slot<C: IntoRgb888>(
    data: Seq<u8>,
    size: Size,
    s: OutputSettings,
    d: DisplayView<C>,
    y: int,
    n: int,
    x0: int,
)
    requires
        data.len() == pixel_count(size) * 4,
        pitch(s) >= 1,
        update_in_range(s, d.size),
        0 <= y < steps(d.size.height),
        0 <= x0 < n <= steps(d.size.width),
        in_bounds(size, scaled(s, x0, y)),
    ensures
        slot(update_row(data, size, s, d, y, n), size, scaled(s, x0, y)) == shown_bytes(s, d, x0, y),
    decreases n,
{
    lemma_update_row_len(data, size, s, d, y, n - 1);
    if x0 == n - 1 {
        lemma_put_pixel_sets_slot(
            update_row(data, size, s, d, y, n - 1),
            size,
            scaled(s, x0, y),
            shown_bytes(s, d, x0, y),
        );
    } else {
        lemma_row_sets_slot(data, size, s, d, y, n - 1, x0);
        lemma_scaled_distinct(s, d.size, n - 1, y, x0, y);
        let color = d.color_at(Point { x: (n - 1) as i32, y: y as i32 }).rgb();
        lemma_put_pixel_keeps_other_slots(
            update_row(data, size, s, d, y, n - 1),
            size,
            scaled(s, n - 1, y),
            scaled(s, x0, y),
            fill_bytes(convert_spec(s.theme, color)),
        );
    }
}

/// After the first `m` rows, each of their pixels is shown in its slot.
proof fn lemma_rows_set_slot<C: IntoRgb888>(
    data: Seq<u8>,
    size: Size,
    s: OutputSettings,
    d: DisplayView<C>,
    m: int,
    x0: int,
    y0: int,
)
    requires
        data.len() == pixel_count(size) * 4,
        pitch(s) >= 1,
        update_in_range(s, d.size),
        0 <= y0 < m <= steps(d.size.height),
        0 <= x0 < steps(d.size.width),
        in_bounds(size, scaled(s, x0, y0)),
    ensures
        slot(update_rows(data, size, s, d, m), size, scaled(s, x0, y0)) == shown_bytes(s, d, x0, y0),
    decreases m,
{
    lemma_update_rows_len(data, size, s, d, m - 1);
    let before = update_rows(data, size, s, d, m - 1);
    if y0 == m - 1 {
        lemma_row_sets_slot(before, size, s, d, y0, steps(d.size.width), x0);
    } else {
        lemma_rows_set_slot(data, size, s, d, m - 1, x0, y0);
        lemma_row_keeps_slot(before, size, s, d, m - 1, steps(d.size.width), x0, y0);
    }
}

/// After an update, every display pixel whose scaled point lies inside the
/// frame buffer is shown there, in the theme's color for its color: the
/// bytes 0, red, green, blue. (With a pitch of at least one no two display
/// pixels share a point, so none overwrites another.)
pub proof fn lemma_update_shows_each_pixel<C: IntoRgb888>(
    fb: FramebufferView,
    d: DisplayView<C>,
    x: int,
    y: int,
)
    requires
        fb.wf(),
        d.wf(),
        update_in_range(fb.output_settings, d.size),
        pitch(fb.output_settings) >= 1,
        d.size.width <= i32::MAX,
        d.size.height <= i32::MAX,
        0 <= x < d.size.width,
        0 <= y < d.size.height,
        in_bounds(fb.size, scaled(fb.output_settings, x, y)),
    ensures
        slot(updated(fb, d).data, fb.size, scaled(fb.output_settings, x, y)) == {
            let c = convert_spec(fb.output_settings.theme, d.color_at(Point { x: x as i32, y: y as i32 }).rgb());
            seq![0u8, c.r, c.g, c.b]
        },
{
    lemma_steps_is_length(d.size.width);
    lemma_steps_is_length(d.size.height);
    lemma_rows_set_slot(fb.data, fb.size, fb.output_settings, d, steps(d.size.height), x, y);
}

/// With a scale of at least one, the scaled point of every display pixel
/// that `update` walks lies inside the frame buffer sized for that display.
pub proof fn lemma_scaled_inside_framebuffer(s: OutputSettings, size: Size, x: int, y: int)
    requires
        s.scale >= 1,
        s.scale + s.pixel_spacing <= i32::MAX,
        framebuffer_size_fits(s, size),
        update_in_range(s, size),
        size.width <= i32::MAX,
        size.height <= i32::MAX,
        0 <= x < size.width,
        0 <= y < size.height,
    ensures
        pitch(s) == s.scale + s.pixel_spacing,
        in_bounds(framebuffer_size_spec(s, size), scaled(s, x, y)),
{
    let p = s.scale + s.pixel_spacing;
    assert(pitch(s) == p);
    lemma_steps_is_length(size.width);
    lemma_steps_is_length(size.height);
    lemma_scaled_in_range(x, size.width, p);
    lemma_scaled_in_range(y, size.height, p);
    assert(x <= size.width - 1);
    assert(y <= size.height - 1);
    let sc = s.scale as int;
    let sp = s.pixel_spacing as int;
    let w = size.width as int;
    let h = size.height as int;
    assert(x * p < w * sc + (w - 1) * sp) by (nonlinear_arith)
        requires
            0 <= x <= w - 1,
            p == sc + sp,
            sc >= 1,
            sp >= 0,
    ;
    assert(y * p < h * sc + (h - 1) * sp) by (nonlinear_arith)
        requires
            0 <= y <= h - 1,
            p == sc + sp,
            sc >= 1,
            sp >= 0,
    ;
    assert(0 <= x * p) by (nonlinear_arith)
        requires
            0 <= x,
            p >= 0,
    ;
    assert(0 <= y * p) by (nonlinear_arith)
        requires
            0 <= y,
            p >= 0,
    ;
}

/// Drawing the first `n` pixels of row `y` leaves the slot of `q` alone
/// where none of them is drawn at `q`.
proof fn lemma_row_keeps_point<C: IntoRgb888>(
    data: Seq<u8>,
    size: Size,
    s: OutputSettings,
    d: DisplayView<C>,
    y: int,
    n: int,
    q: Point,
)
    requires
        data.len() == pixel_count(size) * 4,
        in_bounds(size, q),
        forall|x: int| 0 <= x < n ==> #[trigger] scaled(s, x, y) != q,
    ensures
        slot(update_row(data, size, s, d, y, n), size, q) == slot(data, size, q),
    decreases n,
{
    if n > 0 {
        lemma_row_keeps_point(data, size, s, d, y, n - 1, q);
        lemma_update_row_len(data, size, s, d, y, n - 1);
        assert(scaled(s, n - 1, y) != q);
        let color = d.color_at(Point { x: (n - 1) as i32, y: y as i32 }).rgb();
        lemma_put_pixel_keeps_other_slots(
            update_row(data, size, s, d, y, n - 1),
            size,
            scaled(s, n - 1, y),
            q,
            fill_bytes(convert_spec(s.theme, color)),
        );
    }
}

/// Drawing the first `m` rows leaves the slot of `q` alone where none of
/// their pixels is drawn at `q`.
proof fn lemma_rows_keep_point<C: IntoRgb888>(
    data: Seq<u8>,
    size: Size,
    s: OutputSettings,
    d: DisplayView<C>,
    m: int,
    q: Point,
)
    requires
        data.len() == pixel_count(size) * 4,
        in_bounds(size, q),
        forall|x: int, y: int|
            0 <= x < steps(d.size.width) && 0 <= y < m ==> #[trigger] scaled(s, x, y) != q,
    ensures
        slot(update_rows(data, size, s, d, m), size, q) == slot(data, size, q),
    decreases m,
{
    if m > 0 {
        lemma_rows_keep_point(data, size, s, d, m - 1, q);
        lemma_update_rows_len(data, size, s, d, m - 1);
        assert forall|x: int| 0 <= x < steps(d.size.width) implies #[trigger] scaled(s, x, m - 1) != q by {}
        lemma_row_keeps_point(
            update_rows(data, size, s, d, m - 1),
            size,
            s,
            d,
            m - 1,
            steps(d.size.width),
            q,
        );
    }
}

/// An update changes only the points at which it draws display pixels:
/// every other pixel of the frame buffer keeps its bytes.
pub proof fn lemma_update_keeps_other_pixels<C: IntoRgb888>(fb: FramebufferView, d: DisplayView<C>, q: Point)
    requires
        fb.wf(),
        in_bounds(fb.size, q),
        forall|x: int, y: int|
            0 <= x < steps(d.size.width) && 0 <= y < steps(d.size.height) ==> #[trigger] scaled(
                fb.output_settings,
                x,
                y,
            ) != q,
    ensures
        slot(updated(fb, d).data, fb.size, q) == slot(fb.data, fb.size, q),
{
    lemma_rows_keep_point(fb.data, fb.size, fb.output_settings, d, steps(d.size.height), q);
}

/// `data` after setting the pixels of `ops`, each a point and its bytes,
/// one after the other.
pub open spec fn apply_puts(data: Seq<u8>, size: Size, ops: Seq<(Point, Seq<u8>)>) -> Seq<u8>
    decreases ops.len(),
{
    if ops.len() == 0 {
        data
    } else {
        put_pixel(apply_puts(data, size, ops.drop_last()), size, ops.last().0, ops.last().1)
    }
}

proof fn lemma_apply_puts_len(data: Seq<u8>, size: Size, ops: Seq<(Point, Seq<u8>)>)
    requires
        data.len() == pixel_count(size) * 4,
    ensures
        apply_puts(data, size, ops).len() == data.len(),
    decreases ops.len(),
{
    if ops.len() > 0 {
        lemma_apply_puts_len(data, size, ops.drop_last());
        lemma_put_pixel_len(apply_puts(data, size, ops.drop_last()), size, ops.last().0, ops.last().1);
    }
}

/// Setting a pixel twice keeps only the second bytes.
proof fn lemma_put_pixel_overwrite(data: Seq<u8>, size: Size, p: Point, b: Seq<u8>, c: Seq<u8>)
    requires
        data.len() == pixel_count(size) * 4,
    ensures
        put_pixel(put_pixel(data, size, p, b), size, p, c) == put_pixel(data, size, p, c),
{
    lemma_put_pixel_len(data, size, p, b);
    assert(put_pixel(put_pixel(data, size, p, b), size, p, c) =~= put_pixel(data, size, p, c));
}

/// Setting two different pixels gives the same bytes in either order.
proof fn lemma_put_pixel_commute(data: Seq<u8>, size: Size, p: Point, b: Seq<u8>, q: Point, c: Seq<u8>)
    requires
        data.len() == pixel_count(size) * 4,
        p != q,
    ensures
        put_pixel(put_pixel(data, size, p, b), size, q, c) == put_pixel(put_pixel(data, size, q, c), size, p, b),
{
    lemma_put_pixel_len(data, size, p, b);
    lemma_put_pixel_len(data, size, q, c);
    if in_bounds(size, p) && in_bounds(size, q) {
        lemma_index_injective(size, p, q);
    }
    assert(put_pixel(put_pixel(data, size, p, b), size, q, c) =~= put_pixel(
        put_pixel(data, size, q, c),
        size,
        p,
        b,
    ));
}

/// Setting pixel `p` before a run of settings is undone by setting it
/// again after the run.
proof fn lemma_put_pixel_absorbs(x: Seq<u8>, size: Size, p: Point, b: Seq<u8>, ops: Seq<(Point, Seq<u8>)>)
    requires
        x.len() == pixel_count(size) * 4,
    ensures
        put_pixel(apply_puts(put_pixel(x, size, p, b), size, ops), size, p, b) == put_pixel(
            apply_puts(x, size, ops),
            size,
            p,
            b,
        ),
    decreases ops.len(),
{
    lemma_put_pixel_len(x, size, p, b);
    if ops.len() > 0 {
        let rest = ops.drop_last();
        let (q, c) = ops.last();
        let y = apply_puts(put_pixel(x, size, p, b), size, rest);
        let z = apply_puts(x, size, rest);
        lemma_apply_puts_len(put_pixel(x, size, p, b), size, rest);
        lemma_apply_puts_len(x, size, rest);
        lemma_put_pixel_absorbs(x, size, p, b, rest);
        if q == p {
            lemma_put_pixel_overwrite(y, size, p, c, b);
            lemma_put_pixel_overwrite(z, size, p, c, b);
        } else {
            lemma_put_pixel_commute(y, size, q, c, p, b);
            lemma_put_pixel_commute(z, size, q, c, p, b);
        }
    }
}

/// Running the same settings twice leaves what running them once leaves.
proof fn lemma_apply_puts_twice(data: Seq<u8>, size: Size, ops: Seq<(Point, Seq<u8>)>)
    requires
        data.len() == pixel_count(size) * 4,
    ensures
        apply_puts(apply_puts(data, size, ops), size, ops) == apply_puts(data, size, ops),
    decreases ops.len(),
{
    if ops.len() > 0 {
        let rest = ops.drop_last();
        let (p, b) = ops.last();
        let x = apply_puts(data, size, rest);
        lemma_apply_puts_len(data, size, rest);
        lemma_put_pixel_absorbs(x, size, p, b, rest);
        lemma_apply_puts_twice(data, size, rest);
    }
}

/// Running one list of settings and then another is running the two lists
/// joined.
proof fn lemma_apply_puts_append(data: Seq<u8>, size: Size, a: Seq<(Point, Seq<u8>)>, b: Seq<(Point, Seq<u8>)>)
    ensures
        apply_puts(data, size, a + b) == apply_puts(apply_puts(data, size, a), size, b),
    decreases b.len(),
{
    if b.len() == 0 {
        assert(a + b =~= a);
    } else {
        assert((a + b).drop_last() =~= a + b.drop_last());
        assert((a + b).last() == b.last());
        lemma_apply_puts_append(data, size, a, b.drop_last());
    }
}

/// The settings that drawing the first `n` pixels of row `y` makes.
pub open spec fn row_puts<C: IntoRgb888>(s: OutputSettings, d: DisplayView<C>, y: int, n: int) -> Seq<(Point, Seq<u8>)> {
    Seq::new(if n <= 0 { 0 } else { n as nat }, |x: int| (scaled(s, x, y), shown_bytes(s, d, x, y)))
}

/// The settings that drawing the first `m` rows makes.
pub open spec fn rows_puts<C: IntoRgb888>(s: OutputSettings, d: DisplayView<C>, m: int) -> Seq<(Point, Seq<u8>)>
    decreases m,
{
    if m <= 0 {
        Seq::empty()
    } else {
        rows_puts(s, d, m - 1) + row_puts(s, d, m - 1, steps(d.size.width))
    }
}

proof fn lemma_update_row_is_puts<C: IntoRgb888>(
    data: Seq<u8>,
    size: Size,
    s: OutputSettings,
    d: DisplayView<C>,
    y: int,
    n: int,
)
    ensures
        update_row(data, size, s, d, y, n) == apply_puts(data, size, row_puts(s, d, y, n)),
    decreases n,
{
    if n > 0 {
        lemma_update_row_is_puts(data, size, s, d, y, n - 1);
        assert(row_puts(s, d, y, n).drop_last() =~= row_puts(s, d, y, n - 1));
    } else {
        assert(row_puts(s, d, y, n) =~= Seq::<(Point, Seq<u8>)>::empty());
    }
}

proof fn lemma_update_rows_is_puts<C: IntoRgb888>(
    data: Seq<u8>,
    size: Size,
    s: OutputSettings,
    d: DisplayView<C>,
    m: int,
)
    ensures
        update_rows(data, size, s, d, m) == apply_puts(data, size, rows_puts(s, d, m)),
    decreases m,
{
    if m > 0 {
        lemma_update_rows_is_puts(data, size, s, d, m - 1);
        let w = steps(d.size.width);
        lemma_update_row_is_puts(update_rows(data, size, s, d, m - 1), size, s, d, m - 1, w);
        lemma_apply_puts_append(data, size, rows_puts(s, d, m - 1), row_puts(s, d, m - 1, w));
    }
}

/// Updating twice from the same display leaves the frame buffer as
/// updating once does.
pub proof fn lemma_update_idempotent<C: IntoRgb888>(fb: FramebufferView, d: DisplayView<C>)
    requires
        fb.wf(),
    ensures
        updated(updated(fb, d), d) == updated(fb, d),
{
    let h = steps(d.size.height);
    let ops = rows_puts(fb.output_settings, d, h);
    lemma_update_rows_is_puts(fb.data, fb.size, fb.output_settings, d, h);
    lemma_update_rows_is_puts(updated(fb, d).data, fb.size, fb.output_settings, d, h);
    lemma_apply_puts_twice(fb.data, fb.size, ops);
}

/// Drawing a rectangle with an outline draws its pixels one after the
/// other, in the order the rectangle iterator yields them, as `draw_iter`
/// draws a list of pixels.
pub proof fn lemma_outlined_rectangle_draws_its_pixels(data: Seq<u8>, size: Size, item: StyledRectangle)
    requires
        item.style.stroke_color is Some,
        item.style.stroke_width != 0,
    ensures
        draw_rectangle_spec(data, size, item) == draw_pixels(data, size, pixels_spec(item)),
{
}

/// After drawing a list of pixels, a pixel inside the buffer that no
/// later pixel of the list covers is shown: its point's bytes are 0, blue,
/// green, red of its color. In particular the last pixel of the list is
/// always shown.
pub proof fn lemma_draw_pixels_shows_last_at_each_point(
    data: Seq<u8>,
    size: Size,
    pixels: Seq<Pixel<Rgb888>>,
    i: int,
)
    requires
        data.len() == pixel_count(size) * 4,
        0 <= i < pixels.len(),
        in_bounds(size, pixels[i].0),
        forall|j: int| i < j < pixels.len() ==> (#[trigger] pixels[j]).0 != pixels[i].0,
    ensures
        slot(draw_pixels(data, size, pixels), size, pixels[i].0) == seq![
            0u8,
            pixels[i].1.b,
            pixels[i].1.g,
            pixels[i].1.r,
        ],
    decreases pixels.len(),
{
    let rest = pixels.drop_last();
    let last = pixels.last();
    lemma_draw_pixels_len(data, size, rest);
    if i == pixels.len() - 1 {
        lemma_put_pixel_sets_slot(draw_pixels(data, size, rest), size, last.0, pixel_bytes(last.1));
        assert(pixel_bytes(last.1) =~= seq![0u8, last.1.b, last.1.g, last.1.r]);
    } else {
        assert(rest[i] == pixels[i]);
        assert forall|j: int| i < j < rest.len() implies (#[trigger] rest[j]).0 != rest[i].0 by {
            assert(rest[j] == pixels[j]);
        }
        lemma_draw_pixels_shows_last_at_each_point(data, size, rest, i);
        assert(pixels[pixels.len() - 1].0 != pixels[i].0);
        lemma_put_pixel_keeps_other_slots(
            draw_pixels(data, size, rest),
            size,
            last.0,
            pixels[i].0,
            pixel_bytes(last.1),
        );
    }
}

/// Drawing a list of pixels leaves alone every point of the buffer that no
/// pixel of the list lies on.
pub proof fn lemma_draw_pixels_keeps_other_points(
    data: Seq<u8>,
    size: Size,
    pixels: Seq<Pixel<Rgb888>>,
    q: Point,
)
    requires
        data.len() == pixel_count(size) * 4,
        in_bounds(size, q),
        forall|j: int| 0 <= j < pixels.len() ==> (#[trigger] pixels[j]).0 != q,
    ensures
        slot(draw_pixels(data, size, pixels), size, q) == slot(data, size, q),
    decreases pixels.len(),
{
    if pixels.len() > 0 {
        let rest = pixels.drop_last();
        let last = pixels.last();
        assert forall|j: int| 0 <= j < rest.len() implies (#[trigger] rest[j]).0 != q by {
            assert(rest[j] == pixels[j]);
        }
        lemma_draw_pixels_len(data, size, rest);
        lemma_draw_pixels_keeps_other_points(data, size, rest, q);
        assert(pixels[pixels.len() - 1].0 != q);
        lemma_put_pixel_keeps_other_slots(draw_pixels(data, size, rest), size, last.0, q, pixel_bytes(last.1));
    }
}

/// A rectangle without an outline to draw (no outline color, or an
/// outline width of 0) is drawn by its top-left corner alone, in the fill
/// color with the bytes 0, red, green, blue; without a fill color nothing
/// is drawn.
pub proof fn lemma_rectangle_without_outline_fills_corner(data: Seq<u8>, size: Size, item: StyledRectangle)
    requires
        item.style.stroke_color is None || item.style.stroke_width == 0,
    ensures
        draw_rectangle_spec(data, size, item) == match item.style.fill_color {
            Some(f) => put_pixel(data, size, item.primitive.top_left, seq![0u8, f.r, f.g, f.b]),
            None => data,
        },
{
    if let Some(f) = item.style.fill_color {
        assert(fill_bytes(f) =~= seq![0u8, f.r, f.g, f.b]);
    }
}

/// Setting pixel `p` inside the buffer writes the four given bytes at
/// offset `4 * (x + y * width)` and leaves every other byte as it was.
pub proof fn lemma_put_pixel_bytes(data: Seq<u8>, size: Size, p: Point, bytes: Seq<u8>)
    requires
        data.len() == pixel_count(size) * 4,
        in_bounds(size, p),
    ensures
        ({
            let o = 4 * (p.x + p.y * size.width);
            let r = put_pixel(data, size, p, bytes);
            &&& r.len() == data.len()
            &&& forall|k: int| 0 <= k < 4 ==> #[trigger] r[o + k] == bytes[k]
            &&& forall|j: int| 0 <= j < data.len() && !(o <= j < o + 4) ==> #[trigger] r[j] == data[j]
        }),
{
    lemma_index_in_grid(size, p);
}

/// Setting a point outside the buffer changes nothing.
pub proof fn lemma_put_pixel_outside(data: Seq<u8>, size: Size, p: Point, bytes: Seq<u8>)
    requires
        !in_bounds(size, p),
    ensures
        put_pixel(data, size, p, bytes) == data,
{
}

/// Drawing a single pixel inside the buffer stores 0, blue, green, red of
/// its color at offset `4 * (x + y * width)`.
pub proof fn lemma_draw_pixel_bytes(data: Seq<u8>, size: Size, p: Point, c: Rgb888)
    requires
        data.len() == pixel_count(size) * 4,
        in_bounds(size, p),
    ensures
        ({
            let o = 4 * (p.x + p.y * size.width);
            let r = put_pixel(data, size, p, pixel_bytes(c));
            r[o] == 0 && r[o + 1] == c.b && r[o + 2] == c.g && r[o + 3] == c.r
        }),
{
    lemma_put_pixel_bytes(data, size, p, pixel_bytes(c));
    let o = 4 * (p.x + p.y * size.width);
    let r = put_pixel(data, size, p, pixel_bytes(c));
    assert(r[o + 0] == pixel_bytes(c)[0]);
    assert(r[o + 1] == pixel_bytes(c)[1]);
    assert(r[o + 2] == pixel_bytes(c)[2]);
    assert(r[o + 3] == pixel_bytes(c)[3]);
}

/// A new frame buffer holds, at every pixel, 0, red, green, blue of the
/// color its theme shows for black.
pub proof fn lemma_fresh_framebuffer_background(s: OutputSettings, display_size: Size, p: Point)
    requires
        in_bounds(framebuffer_size_spec(s, display_size), p),
    ensures
        ({
            let c = convert_spec(s.theme, Rgb888 { r: 0, g: 0, b: 0 });
            let fb = fresh_framebuffer(s, display_size);
            slot(fb.data, fb.size, p) == seq![0u8, c.r, c.g, c.b]
        }),
{
    let c = convert_spec(s.theme, Rgb888 { r: 0, g: 0, b: 0 });
    assert(fill_bytes(background(s)) =~= seq![0u8, c.r, c.g, c.b]);
    lemma_filled_slot(framebuffer_size_spec(s, display_size), fill_bytes(background(s)), p);
}

/// Clearing with color `c` stores 0, red, green, blue of `c` at every
/// pixel of the buffer.
pub proof fn lemma_clear_fills_every_pixel(size: Size, c: Rgb888, p: Point)
    requires
        in_bounds(size, p),
    ensures
        slot(filled(size, fill_bytes(c)), size, p) == seq![0u8, c.r, c.g, c.b],
{
    assert(fill_bytes(c) =~= seq![0u8, c.r, c.g, c.b]);
    lemma_filled_slot(size, fill_bytes(c), p);
}

} // verus!
