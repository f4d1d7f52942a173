use vstd::prelude::*;

verus! {

/// Base address of the frame buffer that `Vga::init` programs into the
/// controller and then paints black.
pub const FRAMEBUFFER_BASE: usize = 0x200000;

/// Number of 32-bit words of the 640x480 screen.
pub const SCREEN_WORDS: usize = 307200;

/// The word written to every pixel of the screen at start-up.
pub const BLANK_PIXEL: u32 = 0x77;

/// Register that holds the frame buffer's upper panel base address.
pub const UPPER_PANEL_BASE_REGISTER: usize = 0x10120010;

/// One write of a 32-bit value to a memory-mapped register.
#[derive(Clone, Copy, Debug, PartialEq, Eq, Structural)]
pub struct RegisterWrite {
    pub addr: usize,
    pub value: u32,
}

/// The register writes, in order, that set the controller up for 640x480.
pub open spec fn init_sequence() -> Seq<RegisterWrite> {
    seq![
        RegisterWrite { addr: 0x1000001c, value: 0x2C77 },
        RegisterWrite { addr: 0x10120000, value: 0x3F1F3F9C },
        RegisterWrite { addr: 0x10120004, value: 0x090B61DF },
        RegisterWrite { addr: 0x10120008, value: 0x067F1800 },
        RegisterWrite { addr: UPPER_PANEL_BASE_REGISTER, value: 0x200000 },
        RegisterWrite { addr: 0x10120018, value: 0x82B },
    ]
}

/// The VGA controller of the board.
pub struct Vga;

impl Vga {
    /// A handle on the controller.
    pub fn new() -> (v: Self)
        ensures
            v == Vga,
    {
        Vga {}
    }

    /// The register writes that initialise the controller for a 640x480
    /// display whose frame buffer starts at `FRAMEBUFFER_BASE`. Whoever
    /// performs them then writes `BLANK_PIXEL` to the `SCREEN_WORDS` words
    /// of the frame buffer.
    pub fn init() -> (writes: Vec<RegisterWrite>)
        ensures
            writes@ == init_sequence(),
    {
        let mut writes: Vec<RegisterWrite> = Vec::new();
        writes.push(RegisterWrite { addr: 0x1000001c, value: 0x2C77 });
        writes.push(RegisterWrite { addr: 0x10120000, value: 0x3F1F3F9C });
        writes.push(RegisterWrite { addr: 0x10120004, value: 0x090B61DF });
        writes.push(RegisterWrite { addr: 0x10120008, value: 0x067F1800 });
        writes.push(RegisterWrite { addr: UPPER_PANEL_BASE_REGISTER, value: 0x200000 });
        writes.push(RegisterWrite { addr: 0x10120018, value: 0x82B });
        writes
    }

    /// The register write that points the controller at a frame buffer
    /// starting at address `ptr` (the address is truncated to the
    /// controller's 32-bit register).
    #[allow(non_snake_case)]
    pub fn setPointer(ptr: usize) -> (w: RegisterWrite)
        ensures
            w.addr == UPPER_PANEL_BASE_REGISTER,
            w.value == ptr as u32,
    {
        RegisterWrite { addr: UPPER_PANEL_BASE_REGISTER, value: ptr as u32 }
    }
}

} // verus!
