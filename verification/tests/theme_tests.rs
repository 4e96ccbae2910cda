use tone_mark::theme::{pack, unpack, PaletteId, Rgb, INITIAL_ACCENT, INITIAL_ACCENT_HI};

#[test]
fn palette_names_roundtrip() {
    for p in PaletteId::ALL {
        assert_eq!(PaletteId::from_id(p.id()), p);
    }
    assert_eq!(PaletteId::Cyan.id(), "cyan");
}

#[test]
fn unknown_palette_name_is_amber() {
    assert_eq!(PaletteId::from_id("teal"), PaletteId::Amber);
    assert_eq!(PaletteId::from_id(""), PaletteId::Amber);
    assert_eq!(PaletteId::from_id("CYAN"), PaletteId::Amber);
}

#[test]
fn palette_colours() {
    assert_eq!(
        PaletteId::Violet.pair(),
        (Rgb { r: 180, g: 110, b: 240 }, Rgb { r: 210, g: 150, b: 255 })
    );
}

#[test]
fn apply_packs_the_palette_colours() {
    assert_eq!(PaletteId::Amber.apply(), (INITIAL_ACCENT, INITIAL_ACCENT_HI));
    assert_eq!(PaletteId::Cyan.apply(), (0x0038C8E0, 0x006EE1F5));
}

#[test]
fn pack_then_unpack_gives_the_colour_back() {
    let c = Rgb { r: 1, g: 2, b: 254 };
    assert_eq!(pack(c), 0x000102FE);
    assert_eq!(unpack(pack(c)), c);
    assert_eq!(unpack(0xFF123456), Rgb { r: 0x12, g: 0x34, b: 0x56 });
}
