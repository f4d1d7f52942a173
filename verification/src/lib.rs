//! Firmware logic for a VGA display on the VersatilePB board: a bump heap
//! allocator, an in-memory pixel display, the RGB frame buffer that the VGA
//! controller scans out, and the register programming of the controller.

pub mod vga;
pub mod allocator;
pub mod pixelcolor;
pub mod geometry;
pub mod display;
pub mod theme;
pub mod output_settings;
pub mod primitives;
pub mod framebuffer;
pub mod window;
