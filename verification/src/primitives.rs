use vstd::prelude::*;
use embedded_graphics::pixelcolor::RgbColor;
use embedded_graphics::primitives::Primitive;
use embedded_graphics::pixelcolor::Rgb888 as EgRgb888;
use embedded_graphics::geometry::Point as EgPoint;
use crate::display::Pixel;
use crate::geometry::Point;
use crate::pixelcolor::Rgb888;

verus! {

/// A rectangle given by its top-left and bottom-right corners, both
/// included.
#[derive(Clone, Copy, Debug, PartialEq, Eq, Structural)]
pub struct Rectangle {
    pub top_left: Point,
    pub bottom_right: Point,
}

/// How a primitive is drawn: an optional fill, and an optional outline
/// `stroke_width` pixels wide.
#[derive(Clone, Copy, Debug, PartialEq, Eq, Structural)]
pub struct PrimitiveStyle {
    pub fill_color: Option<Rgb888>,
    pub stroke_color: Option<Rgb888>,
    pub stroke_width: u32,
}

/// A rectangle with a style.
#[derive(Clone, Copy, Debug, PartialEq, Eq, Structural)]
pub struct StyledRectangle {
    pub primitive: Rectangle,
    pub style: PrimitiveStyle,
}

impl Rectangle {
    /// The rectangle from `top_left` to `bottom_right`.
    pub fn new(top_left: Point, bottom_right: Point) -> (r: Self)
        ensures
            r == (Rectangle { top_left, bottom_right }),
    {
        Rectangle { top_left, bottom_right }
    }

    /// This rectangle drawn in `style`.
    pub fn into_styled(self, style: PrimitiveStyle) -> (s: StyledRectangle)
        ensures
            s == (StyledRectangle { primitive: self, style }),
    {
        StyledRectangle { primitive: self, style }
    }
}

impl PrimitiveStyle {
    /// Filled with `fill_color`, no outline.
    pub fn with_fill(fill_color: Rgb888) -> (s: Self)
        ensures
            s == (PrimitiveStyle { fill_color: Some(fill_color), stroke_color: None, stroke_width: 0 }),
    {
        PrimitiveStyle { fill_color: Some(fill_color), stroke_color: None, stroke_width: 0 }
    }

    /// An outline of `stroke_color`, `stroke_width` pixels wide, no fill.
    pub fn with_stroke(stroke_color: Rgb888, stroke_width: u32) -> (s: Self)
        ensures
            s == (PrimitiveStyle { fill_color: None, stroke_color: Some(stroke_color), stroke_width }),
    {
        PrimitiveStyle { fill_color: None, stroke_color: Some(stroke_color), stroke_width }
    }
}

/// The channels of an optional color.
pub open spec fn channels(c: Option<Rgb888>) -> Option<(u8, u8, u8)> {
    match c {
        Some(c) => Some((c.r, c.g, c.b)),
        None => None,
    }
}

/// The outline width as embedded-graphics uses it: saturated to `i32`.
pub open spec fn border_width(stroke_width: u32) -> int {
    if stroke_width > i32::MAX {
        i32::MAX as int
    } else {
        stroke_width as int
    }
}

/// The points that embedded-graphics' rectangle iterator visits, in order:
/// row by row from `top` to `bottom`, each row from `left` to `right` (only
/// `left` where `right` lies before it).
pub open spec fn scan_points(left: i32, top: i32, right: i32, bottom: i32) -> Seq<(int, int)> {
    let width: int = if right >= left { right - left + 1 } else { 1 };
    let height: int = if bottom >= top { bottom - top + 1 } else { 0 };
    Seq::new((width * height) as nat, |k: int| (left + k % width, top + k / width))
}

/// The color the iterator gives point `(x, y)`: the outline color within
/// the outline width of an edge, where there is an outline color; the fill
/// color otherwise; none where that color is missing.
pub open spec fn rectangle_point_color(
    left: i32,
    top: i32,
    right: i32,
    bottom: i32,
    fill: Option<(u8, u8, u8)>,
    stroke: Option<(u8, u8, u8)>,
    stroke_width: u32,
    x: int,
    y: int,
) -> Option<(u8, u8, u8)> {
    let bw = border_width(stroke_width);
    let border = (y >= top && y < top + bw) || (y <= bottom && y > bottom - bw) || (x >= left && x
        < left + bw) || (x <= right && x > right - bw);
    if border && stroke.is_some() {
        stroke
    } else {
        fill
    }
}

/// Does the iterator give a point a color?
pub open spec fn has_rectangle_color(
    left: i32,
    top: i32,
    right: i32,
    bottom: i32,
    fill: Option<(u8, u8, u8)>,
    stroke: Option<(u8, u8, u8)>,
    stroke_width: u32,
) -> spec_fn((int, int)) -> bool {
    |p: (int, int)|
        rectangle_point_color(left, top, right, bottom, fill, stroke, stroke_width, p.0, p.1).is_some()
}

/// The pixels, in drawing order, that embedded-graphics' iterator over a
/// styled rectangle yields: `(x, y, red, green, blue)` for each visited point
/// that has a color.
pub open spec fn styled_rectangle_pixels(
    left: i32,
    top: i32,
    right: i32,
    bottom: i32,
    fill: Option<(u8, u8, u8)>,
    stroke: Option<(u8, u8, u8)>,
    stroke_width: u32,
) -> Seq<(i32, i32, u8, u8, u8)> {
    let colored = scan_points(left, top, right, bottom).filter(
        has_rectangle_color(left, top, right, bottom, fill, stroke, stroke_width),
    );
    colored.map_values(
        |p: (int, int)|
            match rectangle_point_color(left, top, right, bottom, fill, stroke, stroke_width, p.0, p.1) {
                Some(c) => (p.0 as i32, p.1 as i32, c.0, c.1, c.2),
                None => (p.0 as i32, p.1 as i32, 0u8, 0u8, 0u8),
            },
    )
}

/// The `i32` arithmetic of the rectangle iterator does not overflow: it
/// yields nothing without colors or rows; otherwise it steps one past the
/// last column and the last row, always adds the outline width to `top`,
/// and adds it to `left` where some row lies farther than the outline width
/// from both `top` and `bottom` (the subtractions it makes cannot
/// overflow).
pub open spec fn iteration_in_range(
    left: i32,
    top: i32,
    right: i32,
    bottom: i32,
    has_color: bool,
    stroke_width: u32,
) -> bool {
    ||| !has_color
    ||| top > bottom
    ||| {
        &&& left < i32::MAX
        &&& right < i32::MAX
        &&& bottom < i32::MAX
        &&& top + border_width(stroke_width) <= i32::MAX
        &&& top + border_width(stroke_width) <= bottom - border_width(stroke_width) ==> left
            + border_width(stroke_width) <= i32::MAX
    }
}

/// Collects the pixels of embedded-graphics' iterator over the styled
/// rectangle from `(left, top)` to `(right, bottom)` (`IntoIterator` for
/// `&Styled<Rectangle, PrimitiveStyle<Rgb888>>`): the crate's scan of the
/// rectangle row by row, yielding the outline color within `stroke_width`
/// of an edge and the fill color elsewhere. The requirement keeps the
/// iterator's `i32` arithmetic from overflowing.
#[verifier::external_body]
fn rectangle_pixels_of(
    left: i32,
    top: i32,
    right: i32,
    bottom: i32,
    fill: Option<(u8, u8, u8)>,
    stroke: Option<(u8, u8, u8)>,
    stroke_width: u32,
) -> (ps: Vec<(i32, i32, u8, u8, u8)>)
    requires
        iteration_in_range(left, top, right, bottom, fill.is_some() || stroke.is_some(), stroke_width),
    ensures
        ps@ == styled_rectangle_pixels(left, top, right, bottom, fill, stroke, stroke_width),
{
    let mut style = embedded_graphics::style::PrimitiveStyle::<EgRgb888>::default();
    style.fill_color = fill.map(|(r, g, b)| EgRgb888::new(r, g, b));
    style.stroke_color = stroke.map(|(r, g, b)| EgRgb888::new(r, g, b));
    style.stroke_width = stroke_width;
    let top_left = EgPoint::new(left, top);
    let bottom_right = EgPoint::new(right, bottom);
    let styled = embedded_graphics::primitives::Rectangle::new(top_left, bottom_right).into_styled(style);
    (&styled).into_iter().map(|p| (p.0.x, p.0.y, p.1.r(), p.1.g(), p.1.b())).collect()
}

/// The pixels of the styled rectangle `s`, in drawing order.
pub open spec fn pixels_spec(s: StyledRectangle) -> Seq<Pixel<Rgb888>> {
    let raw = styled_rectangle_pixels(
        s.primitive.top_left.x,
        s.primitive.top_left.y,
        s.primitive.bottom_right.x,
        s.primitive.bottom_right.y,
        channels(s.style.fill_color),
        channels(s.style.stroke_color),
        s.style.stroke_width,
    );
    pixels_of(raw)
}

/// Plain pixel tuples `(x, y, red, green, blue)` as pixels.
pub open spec fn pixels_of(raw: Seq<(i32, i32, u8, u8, u8)>) -> Seq<Pixel<Rgb888>> {
    Seq::new(
        raw.len(),
        |i: int| Pixel(Point { x: raw[i].0, y: raw[i].1 }, Rgb888 { r: raw[i].2, g: raw[i].3, b: raw[i].4 }),
    )
}

/// The iterator over `s` keeps its arithmetic within `i32`.
pub open spec fn drawable(s: StyledRectangle) -> bool {
    iteration_in_range(
        s.primitive.top_left.x,
        s.primitive.top_left.y,
        s.primitive.bottom_right.x,
        s.primitive.bottom_right.y,
        s.style.fill_color.is_some() || s.style.stroke_color.is_some(),
        s.style.stroke_width,
    )
}

fn channels_exec(c: Option<Rgb888>) -> (r: Option<(u8, u8, u8)>)
    ensures
        r == channels(c),
{
    match c {
        Some(c) => Some((c.r, c.g, c.b)),
        None => None,
    }
}

/// Turns plain pixel tuples into pixels, one for one.
pub fn pixels_from_tuples(raw: &Vec<(i32, i32, u8, u8, u8)>) -> (ps: Vec<Pixel<Rgb888>>)
    ensures
        ps@ == pixels_of(raw@),
{
    let mut ps: Vec<Pixel<Rgb888>> = Vec::new();
    let mut i: usize = 0;
    while i < raw.len()
        invariant
            i <= raw@.len(),
            ps@ == pixels_of(raw@).take(i as int),
        decreases raw@.len() - i,
    {
        let (x, y, r, g, b) = raw[i];
        ps.push(Pixel(Point { x, y }, Rgb888 { r, g, b }));
        i = i + 1;
        assert(ps@ =~= pixels_of(raw@).take(i as int));
    }
    assert(ps@ =~= pixels_of(raw@));
    ps
}

impl StyledRectangle {
    /// Tells whether the pixels of this rectangle can be listed without
    /// overflow.
    pub fn is_drawable(&self) -> (r: bool)
        ensures
            r == drawable(*self),
    {
        let left = self.primitive.top_left.x as i64;
        let top = self.primitive.top_left.y as i64;
        let right = self.primitive.bottom_right.x as i64;
        let bottom = self.primitive.bottom_right.y as i64;
        let border: i64 = if self.style.stroke_width > i32::MAX as u32 {
            i32::MAX as i64
        } else {
            self.style.stroke_width as i64
        };
        let has_color = self.style.fill_color.is_some() || self.style.stroke_color.is_some();
        !has_color || top > bottom || (left < i32::MAX as i64 && right < i32::MAX as i64 && bottom
            < i32::MAX as i64 && top + border <= i32::MAX as i64 && (top + border > bottom - border
            || left + border <= i32::MAX as i64))
    }

    /// The pixels that drawing this rectangle sets, in drawing order.
    pub fn pixels(&self) -> (ps: Vec<Pixel<Rgb888>>)
        requires
            drawable(*self),
        ensures
            ps@ == pixels_spec(*self),
    {
        let raw = rectangle_pixels_of(
            self.primitive.top_left.x,
            self.primitive.top_left.y,
            self.primitive.bottom_right.x,
            self.primitive.bottom_right.y,
            channels_exec(self.style.fill_color),
            channels_exec(self.style.stroke_color),
            self.style.stroke_width,
        );
        pixels_from_tuples(&raw)
    }
}

/// The rightmost column the rectangle iterator visits.
pub open spec fn last_column(left: i32, right: i32) -> int {
    if right >= left {
        right as int
    } else {
        left as int
    }
}

proof fn lemma_scan_point(left: i32, top: i32, right: i32, bottom: i32, k: int)
    requires
        0 <= k < scan_points(left, top, right, bottom).len(),
    ensures
        top <= scan_points(left, top, right, bottom)[k].1 <= bottom,
        left <= scan_points(left, top, right, bottom)[k].0 <= last_column(left, right),
{
    let w: int = if right >= left { right - left + 1 } else { 1 };
    let h: int = if bottom >= top { bottom - top + 1 } else { 0 };
    assert(0 <= k % w < w && 0 <= k / w < h) by (nonlinear_arith)
        requires
            w >= 1,
            h >= 0,
            0 <= k < w * h,
    ;
}

/// Every pixel that the rectangle iterator yields lies in the rectangle
/// (from `top` to `bottom`, and from `left` to the last column), in the
/// outline color or the fill color.
pub proof fn lemma_rectangle_pixels_in_box(
    left: i32,
    top: i32,
    right: i32,
    bottom: i32,
    fill: Option<(u8, u8, u8)>,
    stroke: Option<(u8, u8, u8)>,
    stroke_width: u32,
    i: int,
)
    requires
        0 <= i < styled_rectangle_pixels(left, top, right, bottom, fill, stroke, stroke_width).len(),
    ensures
        ({
            let px = styled_rectangle_pixels(left, top, right, bottom, fill, stroke, stroke_width)[i];
            &&& top <= px.1 <= bottom
            &&& left <= px.0 <= last_column(left, right)
            &&& (stroke == Some((px.2, px.3, px.4)) || fill == Some((px.2, px.3, px.4)))
        }),
{
    broadcast use vstd::seq_lib::group_filter_ensures;

    let sp = scan_points(left, top, right, bottom);
    let pred = has_rectangle_color(left, top, right, bottom, fill, stroke, stroke_width);
    let f = sp.filter(pred);
    assert(f.contains(f[i]));
    sp.lemma_filter_contains_rev(pred, f[i]);
    let k = choose|k: int| 0 <= k < sp.len() && sp[k] == f[i];
    lemma_scan_point(left, top, right, bottom, k);
    assert(pred(f[i]));
}

/// With a fill color, the rectangle iterator yields every point of the
/// rectangle: each point from `top` to `bottom` and from `left` to the last
/// column.
pub proof fn lemma_rectangle_fill_covers_box(
    left: i32,
    top: i32,
    right: i32,
    bottom: i32,
    fill: Option<(u8, u8, u8)>,
    stroke: Option<(u8, u8, u8)>,
    stroke_width: u32,
    x: int,
    y: int,
)
    requires
        fill is Some,
        top <= y <= bottom,
        left <= x <= last_column(left, right),
    ensures
        exists|i: int|
            0 <= i < styled_rectangle_pixels(left, top, right, bottom, fill, stroke, stroke_width).len()
                && #[trigger] styled_rectangle_pixels(left, top, right, bottom, fill, stroke, stroke_width)[i].0
                == x && styled_rectangle_pixels(left, top, right, bottom, fill, stroke, stroke_width)[i].1
                == y,
{
    broadcast use vstd::seq_lib::group_filter_ensures;

    let sp = scan_points(left, top, right, bottom);
    let pred = has_rectangle_color(left, top, right, bottom, fill, stroke, stroke_width);
    let f = sp.filter(pred);
    let w: int = if right >= left { right - left + 1 } else { 1 };
    let h: int = bottom - top + 1;
    let k = (y - top) * w + (x - left);
    assert(0 <= k < w * h && k % w == x - left && k / w == y - top) by (nonlinear_arith)
        requires
            w >= 1,
            0 <= x - left < w,
            0 <= y - top < h,
            k == (y - top) * w + (x - left),
    ;
    assert(sp[k] == (x, y));
    assert(pred(sp[k]));
    sp.lemma_filter_contains(pred, k);
    let j = choose|j: int| 0 <= j < f.len() && f[j] == sp[k];
    let ps = styled_rectangle_pixels(left, top, right, bottom, fill, stroke, stroke_width);
    assert(ps[j].0 == x && ps[j].1 == y);
}

} // verus!
