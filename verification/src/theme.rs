//! Colour palettes of the interface and the packed form in which the
//! current accent colours are kept.
use vstd::prelude::*;
use crate::text::str_eq;

verus! {

/// An opaque 8-bit sRGB colour.
#[derive(PartialEq, Eq, Structural, Clone, Copy, Debug)]
pub struct Rgb {
    pub r: u8,
    pub g: u8,
    pub b: u8,
}

/// An `Rgb` packed into the low 24 bits of a word: red, green, blue.
pub open spec fn packed(c: Rgb) -> u32 {
    (c.r as int * 65536 + c.g as int * 256 + c.b as int) as u32
}

/// Packs a colour into a word, red in bits 16..24, green in 8..16, blue in
/// 0..8.
pub fn pack(c: Rgb) -> (v: u32)
    ensures
        v == packed(c),
        v < 0x0100_0000,
{
    let r = c.r;
    let g = c.g;
    let b = c.b;
    let v: u32 = ((r as u32) << 16) | ((g as u32) << 8) | (b as u32);
    assert(v == r as u32 * 65536 + g as u32 * 256 + b as u32 && v < 0x0100_0000) by (bit_vector)
        requires
            v == ((r as u32) << 16) | ((g as u32) << 8) | (b as u32),
    ;
    v
}

/// Reads a colour back from the low 24 bits of a word.
pub fn unpack(v: u32) -> (c: Rgb)
    ensures
        c.r == ((v / 65536) % 256) as u8,
        c.g == ((v / 256) % 256) as u8,
        c.b == (v % 256) as u8,
{
    let r: u8 = (v >> 16) as u8;
    let g: u8 = (v >> 8) as u8;
    let b: u8 = v as u8;
    assert(r == ((v / 65536) % 256) as u8 && g == ((v / 256) % 256) as u8 && b == (v % 256) as u8)
        by (bit_vector)
        requires
            r == (v >> 16) as u8,
            g == (v >> 8) as u8,
            b == v as u8,
    ;
    Rgb { r, g, b }
}

/// The colour read back from a packed word is the colour that was packed.
pub proof fn lemma_unpack_pack(c: Rgb)
    ensures
        ((packed(c) / 65536) % 256) as u8 == c.r,
        ((packed(c) / 256) % 256) as u8 == c.g,
        (packed(c) % 256) as u8 == c.b,
{
    let v = c.r as int * 65536 + c.g as int * 256 + c.b as int;
    assert(v / 65536 == c.r as int);
    assert((v / 256) % 256 == c.g as int);
    assert(v % 256 == c.b as int);
}

/// The accent word the interface starts with.
pub const INITIAL_ACCENT: u32 = 0x00E8_7A26u32;

/// The highlight accent word the interface starts with.
pub const INITIAL_ACCENT_HI: u32 = 0x00FF_963Cu32;

/// The selectable interface palettes.
#[derive(PartialEq, Eq, Structural, Clone, Copy, Debug)]
pub enum PaletteId {
    Amber,
    Cyan,
    Crimson,
    Lime,
    Violet,
    Pink,
}

impl PaletteId {
    /// Every palette, in the order the settings page shows them.
    pub const ALL: [PaletteId; 6] = [
        PaletteId::Amber,
        PaletteId::Cyan,
        PaletteId::Crimson,
        PaletteId::Lime,
        PaletteId::Violet,
        PaletteId::Pink,
    ];

    /// Name under which the palette is stored in the settings file.
    pub open spec fn spec_id(self) -> Seq<char> {
        match self {
            PaletteId::Amber => "amber"@,
            PaletteId::Cyan => "cyan"@,
            PaletteId::Crimson => "crimson"@,
            PaletteId::Lime => "lime"@,
            PaletteId::Violet => "violet"@,
            PaletteId::Pink => "pink"@,
        }
    }

    /// Palette stored under a name; an unknown name gives `Amber`.
    pub open spec fn spec_from_id(s: Seq<char>) -> PaletteId {
        if s == "cyan"@ {
            PaletteId::Cyan
        } else if s == "crimson"@ {
            PaletteId::Crimson
        } else if s == "lime"@ {
            PaletteId::Lime
        } else if s == "violet"@ {
            PaletteId::Violet
        } else if s == "pink"@ {
            PaletteId::Pink
        } else {
            PaletteId::Amber
        }
    }

    /// Accent and highlight colours of the palette.
    pub open spec fn spec_pair(self) -> (Rgb, Rgb) {
        match self {
            PaletteId::Amber => (Rgb { r: 232, g: 122, b: 38 }, Rgb { r: 255, g: 150, b: 60 }),
            PaletteId::Cyan => (Rgb { r: 56, g: 200, b: 224 }, Rgb { r: 110, g: 225, b: 245 }),
            PaletteId::Crimson => (Rgb { r: 225, g: 70, b: 85 }, Rgb { r: 250, g: 105, b: 120 }),
            PaletteId::Lime => (Rgb { r: 150, g: 210, b: 90 }, Rgb { r: 180, g: 235, b: 120 }),
            PaletteId::Violet => (Rgb { r: 180, g: 110, b: 240 }, Rgb { r: 210, g: 150, b: 255 }),
            PaletteId::Pink => (Rgb { r: 240, g: 110, b: 180 }, Rgb { r: 255, g: 150, b: 205 }),
        }
    }

    /// Name under which the palette is stored.
    pub fn id(self) -> (s: &'static str)
        ensures
            s@ == self.spec_id(),
    {
        match self {
            PaletteId::Amber => "amber",
            PaletteId::Cyan => "cyan",
            PaletteId::Crimson => "crimson",
            PaletteId::Lime => "lime",
            PaletteId::Violet => "violet",
            PaletteId::Pink => "pink",
        }
    }

    /// Palette stored under `s`; any other text gives `Amber`.
    pub fn from_id(s: &str) -> (p: PaletteId)
        ensures
            p == PaletteId::spec_from_id(s@),
    {
        if str_eq(s, "cyan") {
            PaletteId::Cyan
        } else if str_eq(s, "crimson") {
            PaletteId::Crimson
        } else if str_eq(s, "lime") {
            PaletteId::Lime
        } else if str_eq(s, "violet") {
            PaletteId::Violet
        } else if str_eq(s, "pink") {
            PaletteId::Pink
        } else {
            PaletteId::Amber
        }
    }

    /// Accent and highlight colours of the palette.
    pub fn pair(self) -> (c: (Rgb, Rgb))
        ensures
            c == self.spec_pair(),
    {
        match self {
            PaletteId::Amber => (Rgb { r: 232, g: 122, b: 38 }, Rgb { r: 255, g: 150, b: 60 }),
            PaletteId::Cyan => (Rgb { r: 56, g: 200, b: 224 }, Rgb { r: 110, g: 225, b: 245 }),
            PaletteId::Crimson => (Rgb { r: 225, g: 70, b: 85 }, Rgb { r: 250, g: 105, b: 120 }),
            PaletteId::Lime => (Rgb { r: 150, g: 210, b: 90 }, Rgb { r: 180, g: 235, b: 120 }),
            PaletteId::Violet => (Rgb { r: 180, g: 110, b: 240 }, Rgb { r: 210, g: 150, b: 255 }),
            PaletteId::Pink => (Rgb { r: 240, g: 110, b: 180 }, Rgb { r: 255, g: 150, b: 205 }),
        }
    }

    /// The accent and highlight words that the interface holds once this
    /// palette is applied: the palette's two colours, packed.
    pub fn apply(self) -> (w: (u32, u32))
        ensures
            w == (packed(self.spec_pair().0), packed(self.spec_pair().1)),
    {
        let (a, ahi) = self.pair();
        (pack(a), pack(ahi))
    }
}

/// Storing a palette under its name and reading the name back gives the
/// same palette.
pub proof fn lemma_palette_id_roundtrip(p: PaletteId)
    ensures
        PaletteId::spec_from_id(p.spec_id()) == p,
{
    reveal_strlit("amber");
    reveal_strlit("cyan");
    reveal_strlit("crimson");
    reveal_strlit("lime");
    reveal_strlit("violet");
    reveal_strlit("pink");
    assert("amber"@.len() == 5 && "cyan"@.len() == 4 && "crimson"@.len() == 7);
    assert("lime"@.len() == 4 && "violet"@.len() == 6 && "pink"@.len() == 4);
    assert("cyan"@[0] == 'c' && "lime"@[0] == 'l' && "pink"@[0] == 'p');
}

/// The interface starts with the accent colours of the default palette.
pub proof fn lemma_initial_accent_is_amber()
    ensures
        INITIAL_ACCENT == packed(PaletteId::Amber.spec_pair().0),
        INITIAL_ACCENT_HI == packed(PaletteId::Amber.spec_pair().1),
{
}

} // verus!
