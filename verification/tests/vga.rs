use versatilepb_vga::vga::{RegisterWrite, Vga, UPPER_PANEL_BASE_REGISTER};

#[test]
fn init_programs_640x480() {
    let writes = Vga::init();
    let expected = vec![
        RegisterWrite { addr: 0x1000001c, value: 0x2C77 },
        RegisterWrite { addr: 0x10120000, value: 0x3F1F3F9C },
        RegisterWrite { addr: 0x10120004, value: 0x090B61DF },
        RegisterWrite { addr: 0x10120008, value: 0x067F1800 },
        RegisterWrite { addr: 0x10120010, value: 0x200000 },
        RegisterWrite { addr: 0x10120018, value: 0x82B },
    ];
    assert_eq!(writes, expected);
}

#[test]
fn set_pointer_writes_upper_panel_base() {
    let w = Vga::setPointer(0x0012_3450);
    assert_eq!(w, RegisterWrite { addr: UPPER_PANEL_BASE_REGISTER, value: 0x0012_3450 });
}

#[test]
fn vga_new_is_unit() {
    let _vga: Vga = Vga::new();
}
