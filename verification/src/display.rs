use vstd::prelude::*;
use crate::geometry::{Point, Size, to_unsigned};
use crate::pixelcolor::BinaryColor;

verus! {

/// A pixel: a point and the color it is set to.
pub struct Pixel<C>(pub Point, pub C);

/// Simulator display: a `width` by `height` grid of colors, kept row by
/// row.
pub struct SimulatorDisplay<C> {
    size: Size,
    pixels: Vec<C>,
}

/// What a display holds: its size and its colors, row by row.
pub struct DisplayView<C> {
    pub size: Size,
    pub pixels: Seq<C>,
}

/// The number of pixels of a grid of the given size.
pub open spec fn pixel_count(size: Size) -> int {
    size.width as int * size.height as int
}

/// A grid size whose pixels can be counted in memory.
pub open spec fn addressable(size: Size) -> bool {
    pixel_count(size) <= usize::MAX
}

/// The position of `p`, where `p` lies inside the grid, can be computed in
/// 32-bit arithmetic, as the display and the frame buffer compute it.
pub open spec fn index_fits(size: Size, p: Point) -> bool {
    in_bounds(size, p) ==> p.x + p.y * size.width <= u32::MAX
}

/// Tells whether a display of this size can be made.
pub fn is_addressable(size: Size) -> (r: bool)
    ensures
        r == addressable(size),
{
    assert(size.width as u128 * size.height as u128 <= 0xffff_ffff_ffff_ffffu128) by (nonlinear_arith)
        requires
            size.width <= u32::MAX,
            size.height <= u32::MAX,
    ;
    let count: u128 = size.width as u128 * size.height as u128;
    count <= usize::MAX as u128
}

/// Tells whether the position of `p` fits 32-bit arithmetic in a grid of
/// the given size.
pub fn position_fits(size: Size, p: Point) -> (r: bool)
    ensures
        r == index_fits(size, p),
{
    if p.x >= 0 && p.y >= 0 && (p.x as u32) < size.width && (p.y as u32) < size.height {
        assert(p.y * size.width <= 0x7fff_ffff * 0xffff_ffff) by (nonlinear_arith)
            requires
                0 <= p.y <= 0x7fff_ffff,
                size.width <= 0xffff_ffff,
        ;
        assert(0 <= p.y * size.width) by (nonlinear_arith)
            requires
                0 <= p.y,
        ;
        p.x as u64 + p.y as u64 * size.width as u64 <= u32::MAX as u64
    } else {
        true
    }
}

/// Is `p` inside a grid of the given size?
pub open spec fn in_bounds(size: Size, p: Point) -> bool {
    0 <= p.x < size.width && 0 <= p.y < size.height
}

/// The position of `p` in the row-by-row order of a grid of the given
/// size, where `p` lies inside it.
pub open spec fn index_of(size: Size, p: Point) -> Option<int> {
    if in_bounds(size, p) {
        Some(p.x + p.y * size.width)
    } else {
        None
    }
}

impl<C> DisplayView<C> {
    pub open spec fn wf(self) -> bool {
        &&& addressable(self.size)
        &&& self.pixels.len() == pixel_count(self.size)
    }

    /// The color at `p`, where `p` lies inside the display.
    pub open spec fn color_at(self, p: Point) -> C {
        self.pixels[p.x + p.y * self.size.width]
    }

    /// The display after setting `pixel`: the color at its point changes
    /// where the point lies inside the display, and nothing else does.
    pub open spec fn draw(self, pixel: Pixel<C>) -> DisplayView<C> {
        match index_of(self.size, pixel.0) {
            Some(i) => DisplayView { size: self.size, pixels: self.pixels.update(i, pixel.1) },
            None => self,
        }
    }
}

impl<C> View for SimulatorDisplay<C> {
    type V = DisplayView<C>;

    closed spec fn view(&self) -> DisplayView<C> {
        DisplayView { size: self.size, pixels: self.pixels@ }
    }
}

/// The position of `p` lies among the pixels of a grid that holds it.
pub proof fn lemma_index_in_grid(size: Size, p: Point)
    requires
        in_bounds(size, p),
    ensures
        0 <= p.x + p.y * size.width < pixel_count(size),
{
    assert(p.y * size.width + size.width <= size.height * size.width) by (nonlinear_arith)
        requires
            0 <= p.y < size.height,
    ;
    assert(0 <= p.y * size.width) by (nonlinear_arith)
        requires
            0 <= p.y,
    ;
}

impl<C: Copy> SimulatorDisplay<C> {
    /// Creates a new display filled with a color.
    pub fn with_default_color(size: Size, default_color: C) -> (d: Self)
        requires
            addressable(size),
        ensures
            d@.wf(),
            d@.size == size,
            d@.pixels == Seq::new(pixel_count(size) as nat, |i: int| default_color),
    {
        let pixel_count = size.width as usize * size.height as usize;
        let mut pixels: Vec<C> = Vec::new();
        let mut i: usize = 0;
        while i < pixel_count
            invariant
                i <= pixel_count,
                pixel_count == size.width * size.height,
                pixels@ == Seq::new(i as nat, |j: int| default_color),
            decreases pixel_count - i,
        {
            pixels.push(default_color);
            i = i + 1;
        }
        SimulatorDisplay { size, pixels }
    }

    /// Returns the color of the pixel at a point, which must lie inside the
    /// display.
    pub fn get_pixel(&self, point: Point) -> (c: C)
        requires
            self@.wf(),
            in_bounds(self@.size, point),
            index_fits(self@.size, point),
        ensures
            c == self@.color_at(point),
    {
        let index = self.point_to_index(point);
        match index {
            Some(i) => self.pixels[i],
            None => self.pixels[0],
        }
    }

    /// The position of `point` among the pixels, where it lies inside the
    /// display: `x + y * width`, computed in 32-bit arithmetic.
    pub fn point_to_index(&self, point: Point) -> (r: Option<usize>)
        requires
            self@.wf(),
            index_fits(self@.size, point),
        ensures
            r matches Some(i) ==> index_of(self@.size, point) == Some(i as int),
            r is None ==> index_of(self@.size, point) is None,
            r matches Some(i) ==> i < self@.pixels.len(),
    {
        if let Some((x, y)) = to_unsigned(point) {
            if x < self.size.width && y < self.size.height {
                proof {
                    lemma_index_in_grid(self.size, point);
                }
                return Some((x + y * self.size.width) as usize);
            }
        }
        None
    }

    /// Sets a pixel; a pixel outside the display is ignored.
    pub fn draw_pixel(&mut self, pixel: Pixel<C>) -> (r: Result<(), core::convert::Infallible>)
        requires
            old(self)@.wf(),
            index_fits(old(self)@.size, pixel.0),
        ensures
            r is Ok,
            final(self)@ == old(self)@.draw(pixel),
            final(self)@.wf(),
    {
        let Pixel(point, color) = pixel;
        if let Some(index) = self.point_to_index(point) {
            self.pixels.set(index, color);
        }
        Ok(())
    }
}

impl<C> SimulatorDisplay<C> {
    /// The size of the display.
    pub fn size(&self) -> (s: Size)
        ensures
            s == self@.size,
    {
        self.size
    }
}

impl SimulatorDisplay<BinaryColor> {
    /// Creates a new display, filled with `BinaryColor::Off`.
    pub fn new(size: Size) -> (d: Self)
        requires
            addressable(size),
        ensures
            d@.wf(),
            d@.size == size,
            d@.pixels == Seq::new(pixel_count(size) as nat, |i: int| BinaryColor::Off),
    {
        Self::with_default_color(size, BinaryColor::Off)
    }
}


/// Two different points inside a grid have different positions in it.
pub proof fn lemma_index_injective(size: Size, p: Point, q: Point)
    requires
        in_bounds(size, p),
        in_bounds(size, q),
        p != q,
    ensures
        p.x + p.y * size.width != q.x + q.y * size.width,
{
    let w = size.width as int;
    if p.y < q.y {
        assert(p.y * w + w <= q.y * w) by (nonlinear_arith)
            requires
                p.y < q.y,
                w >= 0,
        ;
    } else if q.y < p.y {
        assert(q.y * w + w <= p.y * w) by (nonlinear_arith)
            requires
                q.y < p.y,
                w >= 0,
        ;
    }
}

/// Reading a pixel of a display gives back the color last drawn there.
pub proof fn lemma_display_read_after_write<C>(v: DisplayView<C>, p: Point, c: C)
    requires
        v.wf(),
        in_bounds(v.size, p),
    ensures
        v.draw(Pixel(p, c)).wf(),
        v.draw(Pixel(p, c)).color_at(p) == c,
{
    lemma_index_in_grid(v.size, p);
}

/// Drawing a pixel leaves every other pixel of the display as it was.
pub proof fn lemma_display_write_elsewhere<C>(v: DisplayView<C>, p: Point, q: Point, c: C)
    requires
        v.wf(),
        in_bounds(v.size, q),
        p != q,
    ensures
        v.draw(Pixel(p, c)).color_at(q) == v.color_at(q),
{
    lemma_index_in_grid(v.size, q);
    if in_bounds(v.size, p) {
        lemma_index_in_grid(v.size, p);
        lemma_index_injective(v.size, p, q);
    }
}

/// Drawing outside the display changes nothing.
pub proof fn lemma_display_write_outside<C>(v: DisplayView<C>, p: Point, c: C)
    requires
        !in_bounds(v.size, p),
    ensures
        v.draw(Pixel(p, c)) == v,
{
}

/// Every pixel of a display made with a default color has that color.
pub proof fn lemma_default_color_everywhere<C>(size: Size, c: C, p: Point)
    requires
        in_bounds(size, p),
    ensures
        (DisplayView { size, pixels: Seq::new(pixel_count(size) as nat, |i: int| c) }).color_at(p)
            == c,
{
    lemma_index_in_grid(size, p);
}

/// Drawing two pixels at different points gives the same display in
/// either order.
pub proof fn lemma_display_draws_commute<C>(v: DisplayView<C>, p: Point, c: C, q: Point, d: C)
    requires
        v.wf(),
        p != q,
    ensures
        v.draw(Pixel(p, c)).draw(Pixel(q, d)) == v.draw(Pixel(q, d)).draw(Pixel(p, c)),
{
    if in_bounds(v.size, p) {
        lemma_index_in_grid(v.size, p);
    }
    if in_bounds(v.size, q) {
        lemma_index_in_grid(v.size, q);
    }
    if in_bounds(v.size, p) && in_bounds(v.size, q) {
        lemma_index_injective(v.size, p, q);
        assert(v.draw(Pixel(p, c)).draw(Pixel(q, d)).pixels =~= v.draw(Pixel(q, d)).draw(
            Pixel(p, c),
        ).pixels);
    }
}

/// Drawing twice at one point leaves the display as drawing the second
/// color alone does.
pub proof fn lemma_display_draw_overwrites<C>(v: DisplayView<C>, p: Point, c: C, d: C)
    requires
        v.wf(),
    ensures
        v.draw(Pixel(p, c)).draw(Pixel(p, d)) == v.draw(Pixel(p, d)),
{
    if in_bounds(v.size, p) {
        lemma_index_in_grid(v.size, p);
        assert(v.draw(Pixel(p, c)).draw(Pixel(p, d)).pixels =~= v.draw(Pixel(p, d)).pixels);
    }
}

/// A point inside a grid has the position `x + y * width`; a point
/// outside has none.
pub proof fn lemma_index_of_formula(size: Size, p: Point)
    ensures
        (0 <= p.x < size.width && 0 <= p.y < size.height) ==> index_of(size, p) == Some(p.x + p.y
            * size.width),
        !(0 <= p.x < size.width && 0 <= p.y < size.height) ==> index_of(size, p) is None,
{
}

} // verus!
