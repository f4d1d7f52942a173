use versatilepb_vga::display::{is_addressable, position_fits, Pixel, SimulatorDisplay};
use versatilepb_vga::framebuffer::{can_create, can_update, Framebuffer};
use versatilepb_vga::geometry::{to_unsigned, Point, Size};
use versatilepb_vga::output_settings::{OutputSettings, OutputSettingsBuilder};
use versatilepb_vga::pixelcolor::{BinaryColor, IntoRgb888, Rgb888};
use versatilepb_vga::primitives::{PrimitiveStyle, Rectangle};
use versatilepb_vga::theme::BinaryColorTheme;
use versatilepb_vga::window::Window;

fn plain_settings() -> OutputSettings {
    OutputSettingsBuilder::new().build()
}

#[test]
fn to_unsigned_rejects_negative_coordinates() {
    assert_eq!(to_unsigned(Point::new(3, 4)), Some((3, 4)));
    assert_eq!(to_unsigned(Point::new(0, 0)), Some((0, 0)));
    assert_eq!(to_unsigned(Point::new(-1, 4)), None);
    assert_eq!(to_unsigned(Point::new(3, -4)), None);
    assert_eq!(to_unsigned(Point::new(i32::MAX, 7)), Some((i32::MAX as u32, 7)));
}

#[test]
fn binary_colors_convert_to_black_and_white() {
    assert_eq!(BinaryColor::Off.into_rgb888(), Rgb888::new(0, 0, 0));
    assert_eq!(BinaryColor::On.into_rgb888(), Rgb888::new(255, 255, 255));
    assert_eq!(Rgb888::new(1, 2, 3).into_rgb888(), Rgb888::new(1, 2, 3));
}

#[test]
fn display_with_default_color_is_filled() {
    let d = SimulatorDisplay::with_default_color(Size::new(4, 3), 7u8);
    assert_eq!(d.size(), Size::new(4, 3));
    for y in 0..3 {
        for x in 0..4 {
            assert_eq!(d.get_pixel(Point::new(x, y)), 7);
        }
    }
}

#[test]
fn new_display_is_off() {
    let d = SimulatorDisplay::new(Size::new(2, 2));
    assert_eq!(d.get_pixel(Point::new(1, 1)), BinaryColor::Off);
}

#[test]
fn display_read_after_write() {
    let mut d = SimulatorDisplay::new(Size::new(5, 4));
    d.draw_pixel(Pixel(Point::new(2, 3), BinaryColor::On)).unwrap();
    assert_eq!(d.get_pixel(Point::new(2, 3)), BinaryColor::On);
    assert_eq!(d.get_pixel(Point::new(3, 2)), BinaryColor::Off);
    assert_eq!(d.get_pixel(Point::new(2, 2)), BinaryColor::Off);
}

#[test]
fn display_ignores_pixels_outside() {
    let mut d = SimulatorDisplay::with_default_color(Size::new(2, 2), 0u8);
    d.draw_pixel(Pixel(Point::new(-1, 0), 9)).unwrap();
    d.draw_pixel(Pixel(Point::new(2, 0), 9)).unwrap();
    d.draw_pixel(Pixel(Point::new(0, 2), 9)).unwrap();
    for y in 0..2 {
        for x in 0..2 {
            assert_eq!(d.get_pixel(Point::new(x, y)), 0);
        }
    }
}

#[test]
fn addressable_sizes() {
    assert!(is_addressable(Size::new(640, 480)));
    assert!(is_addressable(Size::new(0, 0)));
    assert!(is_addressable(Size::new(0x10000, 0x10001)) == (usize::BITS == 64));
    assert!(is_addressable(Size::new(u32::MAX, u32::MAX)) == (usize::BITS == 64));
}

#[test]
fn theme_conversion() {
    let black = Rgb888::new(0, 0, 0);
    let grey = Rgb888::new(1, 1, 1);
    assert_eq!(BinaryColorTheme::Default.convert(grey), grey);
    assert_eq!(BinaryColorTheme::OledBlue.convert(black), Rgb888::new(0, 20, 40));
    assert_eq!(BinaryColorTheme::OledBlue.convert(grey), Rgb888::new(0, 210, 255));
    assert_eq!(BinaryColorTheme::OledWhite.convert(black), Rgb888::new(20, 20, 20));
    assert_eq!(BinaryColorTheme::LcdWhite.convert(Rgb888::new(255, 255, 255)), Rgb888::new(32, 32, 32));
    assert_eq!(BinaryColorTheme::LcdGreen.convert(black), Rgb888::new(120, 185, 50));
    assert_eq!(BinaryColorTheme::LcdBlue.convert(grey), Rgb888::new(230, 230, 255));
}

#[test]
fn output_settings_builder_defaults() {
    let s = OutputSettingsBuilder::new().build();
    assert_eq!(s, OutputSettings { scale: 1, pixel_spacing: 0, theme: BinaryColorTheme::Default });
    let s = OutputSettingsBuilder::new().theme(BinaryColorTheme::OledBlue).build();
    assert_eq!(s, OutputSettings { scale: 3, pixel_spacing: 1, theme: BinaryColorTheme::OledBlue });
    let s = OutputSettingsBuilder::new().scale(2).pixel_spacing(5).theme(BinaryColorTheme::LcdBlue).build();
    assert_eq!(s, OutputSettings { scale: 2, pixel_spacing: 5, theme: BinaryColorTheme::LcdBlue });
}

#[test]
fn framebuffer_size_follows_scale_and_spacing() {
    let d = SimulatorDisplay::new(Size::new(640, 480));
    let s = OutputSettingsBuilder::new().theme(BinaryColorTheme::OledBlue).build();
    assert_eq!(s.framebuffer_size(&d), Size::new(640 * 3 + 639, 480 * 3 + 479));
    let s = plain_settings();
    assert_eq!(s.framebuffer_size(&d), Size::new(640, 480));
    let empty = SimulatorDisplay::new(Size::new(0, 0));
    assert_eq!(s.framebuffer_size(&empty), Size::new(0, 0));
}

#[test]
fn new_framebuffer_is_cleared_at_top_left() {
    let d = SimulatorDisplay::new(Size::new(3, 2));
    let s = OutputSettingsBuilder::new().theme(BinaryColorTheme::OledBlue).build();
    let fb = Framebuffer::new(&d, &s);
    assert_eq!(fb.size(), Size::new(11, 7));
    let data = fb.data();
    assert_eq!(data.len(), 11 * 7 * 4);
    for i in 0..11 * 7 {
        assert_eq!(&data[i * 4..i * 4 + 4], &[0, 0, 20, 40]);
    }
}

#[test]
fn framebuffer_draw_pixel_stores_blue_first() {
    let d = SimulatorDisplay::new(Size::new(4, 4));
    let mut fb = Framebuffer::new(&d, &plain_settings());
    fb.draw_pixel(Pixel(Point::new(2, 1), Rgb888::new(10, 20, 30))).unwrap();
    let offset = (2 + 1 * 4) * 4;
    assert_eq!(&fb.data()[offset..offset + 4], &[0, 30, 20, 10]);
    // Outside: ignored.
    let before = fb.data().to_vec();
    fb.draw_pixel(Pixel(Point::new(4, 0), Rgb888::new(1, 1, 1))).unwrap();
    fb.draw_pixel(Pixel(Point::new(0, -1), Rgb888::new(1, 1, 1))).unwrap();
    assert_eq!(fb.data(), &before[..]);
}

#[test]
fn framebuffer_filled_rectangle_sets_top_left_only() {
    let d = SimulatorDisplay::new(Size::new(4, 4));
    let mut fb = Framebuffer::new(&d, &plain_settings());
    let rect = Rectangle::new(Point::new(1, 1), Point::new(3, 3))
        .into_styled(PrimitiveStyle::with_fill(Rgb888::new(10, 20, 30)));
    fb.draw_rectangle(&rect).unwrap();
    let offset = (1 + 1 * 4) * 4;
    assert_eq!(&fb.data()[offset..offset + 4], &[0, 10, 20, 30]);
    let offset = (2 + 2 * 4) * 4;
    assert_eq!(&fb.data()[offset..offset + 4], &[0, 0, 0, 0]);
}

#[test]
fn stroked_rectangle_pixels_follow_the_outline() {
    let rect = Rectangle::new(Point::new(2, 2), Point::new(4, 4))
        .into_styled(PrimitiveStyle::with_stroke(Rgb888::new(255, 0, 0), 1));
    assert!(rect.is_drawable());
    let points: Vec<(i32, i32)> = rect.pixels().iter().map(|p| (p.0.x, p.0.y)).collect();
    assert_eq!(points, vec![(2, 2), (3, 2), (4, 2), (2, 3), (4, 3), (2, 4), (3, 4), (4, 4)]);
    assert!(rect.pixels().iter().all(|p| p.1 == Rgb888::new(255, 0, 0)));
}

#[test]
fn framebuffer_stroked_rectangle_draws_outline() {
    let d = SimulatorDisplay::new(Size::new(5, 5));
    let mut fb = Framebuffer::new(&d, &plain_settings());
    let rect = Rectangle::new(Point::new(1, 1), Point::new(3, 3))
        .into_styled(PrimitiveStyle::with_stroke(Rgb888::new(10, 20, 30), 1));
    fb.draw_rectangle(&rect).unwrap();
    let at = |x: usize, y: usize| fb.data()[(x + y * 5) * 4..(x + y * 5) * 4 + 4].to_vec();
    assert_eq!(at(1, 1), vec![0, 30, 20, 10]);
    assert_eq!(at(3, 2), vec![0, 30, 20, 10]);
    assert_eq!(at(2, 3), vec![0, 30, 20, 10]);
    assert_eq!(at(2, 2), vec![0, 0, 0, 0]);
}

#[test]
fn undrawable_rectangle_is_detected() {
    let rect = Rectangle::new(Point::new(0, 0), Point::new(i32::MAX, 3))
        .into_styled(PrimitiveStyle::with_stroke(Rgb888::new(1, 2, 3), 1));
    assert!(!rect.is_drawable());
    let empty = Rectangle::new(Point::new(0, 5), Point::new(i32::MAX, 3))
        .into_styled(PrimitiveStyle::with_stroke(Rgb888::new(1, 2, 3), 1));
    assert!(empty.is_drawable());
}

#[test]
fn framebuffer_clear_sets_top_left() {
    let d = SimulatorDisplay::new(Size::new(2, 2));
    let mut fb = Framebuffer::new(&d, &plain_settings());
    fb.clear(Rgb888::new(7, 8, 9)).unwrap();
    for i in 0..4 {
        assert_eq!(&fb.data()[i * 4..i * 4 + 4], &[0, 7, 8, 9]);
    }
}

#[test]
fn update_shows_each_pixel_at_scaled_point() {
    let mut d = SimulatorDisplay::new(Size::new(3, 2));
    d.draw_pixel(Pixel(Point::new(1, 0), BinaryColor::On)).unwrap();
    d.draw_pixel(Pixel(Point::new(2, 1), BinaryColor::On)).unwrap();
    let s = OutputSettingsBuilder::new().theme(BinaryColorTheme::OledBlue).build();
    let mut fb = Framebuffer::new(&d, &s);
    assert!(can_update(&s, d.size()));
    fb.update(&d);
    let width = 11usize;
    let at = |x: usize, y: usize| fb.data()[(x + y * width) * 4..(x + y * width) * 4 + 4].to_vec();
    let off = vec![0, 0, 20, 40];
    let on = vec![0, 0, 210, 255];
    assert_eq!(at(0, 0), off);
    assert_eq!(at(4, 0), on);
    assert_eq!(at(8, 0), off);
    assert_eq!(at(0, 4), off);
    assert_eq!(at(4, 4), off);
    assert_eq!(at(8, 4), on);
    // Points between the scaled ones keep the background.
    assert_eq!(at(1, 0), off);
    assert_eq!(at(5, 5), off);
    // A second update from the same display changes nothing.
    let once = fb.data().to_vec();
    fb.update(&d);
    assert_eq!(fb.data(), &once[..]);
}

#[test]
fn window_creates_framebuffer_on_first_update() {
    let mut d = SimulatorDisplay::new(Size::new(2, 2));
    d.draw_pixel(Pixel(Point::new(1, 1), BinaryColor::On)).unwrap();
    let s = plain_settings();
    let mut w = Window::new(&s);
    assert!(w.framebuffer().is_none());
    assert!(w.can_update(&d));
    w.update(&d);
    let fb = w.framebuffer().unwrap();
    assert_eq!(fb.size(), Size::new(2, 2));
    assert_eq!(&fb.data()[12..16], &[0, 255, 255, 255]);
    assert_eq!(&fb.data()[0..4], &[0, 0, 0, 0]);
    // A second update draws on the same buffer.
    d.draw_pixel(Pixel(Point::new(0, 0), BinaryColor::On)).unwrap();
    w.update(&d);
    assert_eq!(&w.framebuffer().unwrap().data()[0..4], &[0, 255, 255, 255]);
    w.show_static(&d);
    assert_eq!(&w.framebuffer().unwrap().data()[0..4], &[0, 255, 255, 255]);
}

#[test]
fn show_static_updates_a_new_window() {
    let mut d = SimulatorDisplay::new(Size::new(2, 1));
    d.draw_pixel(Pixel(Point::new(1, 0), BinaryColor::On)).unwrap();
    let s = OutputSettingsBuilder::new().theme(BinaryColorTheme::OledBlue).build();
    let mut w = Window::new(&s);
    assert!(w.can_update(&d));
    w.show_static(&d);
    let fb = w.framebuffer().unwrap();
    assert_eq!(fb.size(), Size::new(7, 3));
    assert_eq!(&fb.data()[0..4], &[0, 0, 20, 40]);
    assert_eq!(&fb.data()[16..20], &[0, 0, 210, 255]);
    assert_eq!(&fb.data()[4..8], &[0, 0, 20, 40]);
}

#[test]
fn position_fits_u32_arithmetic() {
    assert!(position_fits(Size::new(640, 480), Point::new(639, 479)));
    assert!(position_fits(Size::new(0x10000, 0x10001), Point::new(0xffff, 0xffff)));
    assert!(!position_fits(Size::new(0x10000, 0x10001), Point::new(0, 0x10000)));
    // Outside the grid nothing is computed.
    assert!(position_fits(Size::new(0x10000, 0x10001), Point::new(0, 0x10001)));
}

#[test]
fn rectangle_bounds_only_where_the_iterator_computes() {
    // No row lies deeper than the outline width, so `left + width` is never
    // computed; the iterator runs without overflow.
    let left = i32::MAX - 3;
    let rect = Rectangle::new(Point::new(left, 0), Point::new(i32::MAX - 1, 2))
        .into_styled(PrimitiveStyle::with_stroke(Rgb888::new(1, 2, 3), 5));
    assert!(rect.is_drawable());
    assert_eq!(rect.pixels().len(), 9);
    let filled = Rectangle::new(Point::new(0, 0), Point::new(1, 1))
        .into_styled(PrimitiveStyle::with_fill(Rgb888::new(4, 5, 6)));
    let ps = filled.pixels();
    assert_eq!(ps.len(), 4);
    assert!(ps.iter().all(|p| p.1 == Rgb888::new(4, 5, 6)));
}

#[test]
fn overflowing_settings_are_detected() {
    let huge = OutputSettings { scale: u32::MAX, pixel_spacing: 1, theme: BinaryColorTheme::Default };
    assert!(!can_update(&huge, Size::new(2, 2)));
    assert!(!can_create(&huge, Size::new(2, 2)));
    let wide = OutputSettings { scale: 0x4000_0000, pixel_spacing: 0, theme: BinaryColorTheme::Default };
    assert!(!can_update(&wide, Size::new(3, 1)));
    assert!(can_update(&plain_settings(), Size::new(640, 480)));
    assert!(can_create(&plain_settings(), Size::new(640, 480)));
}

#[test]
fn display_draws_commute_and_overwrite() {
    let mut a = SimulatorDisplay::with_default_color(Size::new(3, 3), 0u8);
    let mut b = SimulatorDisplay::with_default_color(Size::new(3, 3), 0u8);
    a.draw_pixel(Pixel(Point::new(0, 1), 1)).unwrap();
    a.draw_pixel(Pixel(Point::new(2, 2), 2)).unwrap();
    b.draw_pixel(Pixel(Point::new(2, 2), 2)).unwrap();
    b.draw_pixel(Pixel(Point::new(0, 1), 1)).unwrap();
    for y in 0..3 {
        for x in 0..3 {
            assert_eq!(a.get_pixel(Point::new(x, y)), b.get_pixel(Point::new(x, y)));
        }
    }
    a.draw_pixel(Pixel(Point::new(1, 1), 5)).unwrap();
    a.draw_pixel(Pixel(Point::new(1, 1), 7)).unwrap();
    assert_eq!(a.get_pixel(Point::new(1, 1)), 7);
}
