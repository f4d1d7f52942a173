# versatilepb_vga

Firmware logic for a 640x480 VGA display on the ARM VersatilePB board,
written in Verus and verified.

- `src/allocator.rs`: the bump heap allocator (`Dummy`), `align_up`, and the
  spin-lock wrapper `Locked`.
- `src/vga.rs`: the register writes that program the VGA controller.
- `src/geometry.rs`, `src/pixelcolor.rs`, `src/primitives.rs`: points, sizes,
  colors and styled rectangles.
- `src/display.rs`: the in-memory monochrome display that shapes are drawn on.
- `src/theme.rs`, `src/output_settings.rs`: how display pixels are scaled and
  colored on the output.
- `src/framebuffer.rs`: the RGB frame buffer that the controller scans out,
  and the proofs of what an update shows.
- `src/window.rs`: the window that owns the frame buffer.
- `app/main.rs`: the program: heap set-up, the global allocator, the
  memory-mapped register writes, and drawing with embedded-graphics.
