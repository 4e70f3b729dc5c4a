//! Colour ramps for the spectrogram: which ones there are, what they are called, and
//! the colours they hand out.
//!
//! Magma, Inferno, Viridis, Plasma and Cividis are perceptually uniform: equal steps in
//! level read as equal steps in brightness, so two points in the picture can be compared
//! by eye. Cividis is the one that survives colour-vision deficiency. The Cool Edit ramp
//! survives as Nostalgia Red; Ember, Ocean and Phosphor are of the same family, chosen to
//! look like something rather than to measure.
//!
//! **New ramps go on the end.** Nostalgia+ wrote the palette as a number as well as a
//! name, and the importer still reads both, so inserting one in the middle would change
//! what an old settings file means.
//!
//! Interpolating a ramp between its stops is floating-point work, rounded half to even
//! as Nostalgia+ did, and stays with the renderer. The library holds the finished
//! 256-entry table.

use vstd::prelude::*;
use crate::text;

verus! {

/// A colour ramp.
#[derive(Clone, Copy, Debug, PartialEq, Eq, Hash, Structural)]
pub enum PaletteKind {
    Magma,
    Inferno,
    Viridis,
    Turbo,
    NostalgiaRed,
    Ice,
    Grey,
    Plasma,
    Cividis,
    Twilight,
    Ocean,
    Phosphor,
    Ember,
}

impl Default for PaletteKind {
    fn default() -> (r: PaletteKind)
        ensures
            r == PaletteKind::Magma,
    {
        PaletteKind::Magma
    }
}

impl PaletteKind {
    /// Every value, in declaration order.
    pub const ALL: [PaletteKind; 13] = [
        PaletteKind::Magma,
        PaletteKind::Inferno,
        PaletteKind::Viridis,
        PaletteKind::Turbo,
        PaletteKind::NostalgiaRed,
        PaletteKind::Ice,
        PaletteKind::Grey,
        PaletteKind::Plasma,
        PaletteKind::Cividis,
        PaletteKind::Twilight,
        PaletteKind::Ocean,
        PaletteKind::Phosphor,
        PaletteKind::Ember,
    ];

    /// The name used in settings files.
    pub open spec fn spec_name(self) -> Seq<char> {
        match self {
            PaletteKind::Magma => "Magma"@,
            PaletteKind::Inferno => "Inferno"@,
            PaletteKind::Viridis => "Viridis"@,
            PaletteKind::Turbo => "Turbo"@,
            PaletteKind::NostalgiaRed => "NostalgiaRed"@,
            PaletteKind::Ice => "Ice"@,
            PaletteKind::Grey => "Grey"@,
            PaletteKind::Plasma => "Plasma"@,
            PaletteKind::Cividis => "Cividis"@,
            PaletteKind::Twilight => "Twilight"@,
            PaletteKind::Ocean => "Ocean"@,
            PaletteKind::Phosphor => "Phosphor"@,
            PaletteKind::Ember => "Ember"@,
        }
    }

    /// The value whose name `written` is, ignoring ASCII case.
    pub open spec fn spec_from_name(written: Seq<char>) -> Option<PaletteKind> {
        if exists|v: PaletteKind| text::eq_ignore_ascii_case(written, #[trigger] v.spec_name()) {
            Some(choose|v: PaletteKind| text::eq_ignore_ascii_case(written, #[trigger] v.spec_name()))
        } else {
            None
        }
    }

    /// The name used in settings files.
    pub fn name(self) -> (r: &'static str)
        ensures
            r@ == self.spec_name(),
    {
        match self {
            PaletteKind::Magma => "Magma",
            PaletteKind::Inferno => "Inferno",
            PaletteKind::Viridis => "Viridis",
            PaletteKind::Turbo => "Turbo",
            PaletteKind::NostalgiaRed => "NostalgiaRed",
            PaletteKind::Ice => "Ice",
            PaletteKind::Grey => "Grey",
            PaletteKind::Plasma => "Plasma",
            PaletteKind::Cividis => "Cividis",
            PaletteKind::Twilight => "Twilight",
            PaletteKind::Ocean => "Ocean",
            PaletteKind::Phosphor => "Phosphor",
            PaletteKind::Ember => "Ember",
        }
    }

    /// Parses a name, ignoring ASCII case.
    pub fn from_name(name: &str) -> (r: Option<PaletteKind>)
        ensures
            r == PaletteKind::spec_from_name(name@),
    {
        let all = PaletteKind::ALL;
        let mut i: usize = 0;
        while i < 13
            invariant
                all@ == seq![PaletteKind::Magma, PaletteKind::Inferno, PaletteKind::Viridis, PaletteKind::Turbo, PaletteKind::NostalgiaRed, PaletteKind::Ice, PaletteKind::Grey, PaletteKind::Plasma, PaletteKind::Cividis, PaletteKind::Twilight, PaletteKind::Ocean, PaletteKind::Phosphor, PaletteKind::Ember],
                i <= 13,
                forall|j: int| 0 <= j < i ==> !text::eq_ignore_ascii_case(name@, #[trigger] all@[j].spec_name()),
            decreases 13 - i,
        {
            let v = all[i];
            if text::same_ignoring_ascii_case(name, v.name()) {
                proof {
                    let c = choose|u: PaletteKind| text::eq_ignore_ascii_case(name@, #[trigger] u.spec_name());
                    text::lemma_eq_ignore_ascii_case_shared(name@, v.spec_name(), c.spec_name());
                    PaletteKind::lemma_names_distinct();
                }
                return Some(v);
            }
            i = i + 1;
        }
        proof {
            assert forall|v: PaletteKind| !text::eq_ignore_ascii_case(name@, #[trigger] v.spec_name()) by {
                match v {
                    PaletteKind::Magma => assert(all@[0] == v),
                    PaletteKind::Inferno => assert(all@[1] == v),
                    PaletteKind::Viridis => assert(all@[2] == v),
                    PaletteKind::Turbo => assert(all@[3] == v),
                    PaletteKind::NostalgiaRed => assert(all@[4] == v),
                    PaletteKind::Ice => assert(all@[5] == v),
                    PaletteKind::Grey => assert(all@[6] == v),
                    PaletteKind::Plasma => assert(all@[7] == v),
                    PaletteKind::Cividis => assert(all@[8] == v),
                    PaletteKind::Twilight => assert(all@[9] == v),
                    PaletteKind::Ocean => assert(all@[10] == v),
                    PaletteKind::Phosphor => assert(all@[11] == v),
                    PaletteKind::Ember => assert(all@[12] == v),
                }
            }
        }
        None
    }

    /// No two values share a name, even ignoring case.
    pub proof fn lemma_names_distinct()
        ensures
            forall|a: PaletteKind, b: PaletteKind|
                text::eq_ignore_ascii_case(#[trigger] a.spec_name(), #[trigger] b.spec_name()) ==> a == b,
    {
        reveal_strlit("Cividis");
        reveal_strlit("Ember");
        reveal_strlit("Grey");
        reveal_strlit("Ice");
        reveal_strlit("Inferno");
        reveal_strlit("Magma");
        reveal_strlit("NostalgiaRed");
        reveal_strlit("Ocean");
        reveal_strlit("Phosphor");
        reveal_strlit("Plasma");
        reveal_strlit("Turbo");
        reveal_strlit("Twilight");
        reveal_strlit("Viridis");
        assert forall|a: PaletteKind, b: PaletteKind|
            text::eq_ignore_ascii_case(#[trigger] a.spec_name(), #[trigger] b.spec_name()) implies a == b by {
            if a != b {
                let (x, y) = (a.spec_name(), b.spec_name());
                if x.len() == y.len() {
                    assert(text::ascii_lower(x[0]) != text::ascii_lower(y[0]));
                }
            }
        }
    }

    /// A value's own name, in any ASCII case, reads back as that value.
    pub proof fn lemma_name_round_trip(v: PaletteKind, written: Seq<char>)
        requires
            text::eq_ignore_ascii_case(written, v.spec_name()),
        ensures
            PaletteKind::spec_from_name(written) == Some(v),
    {
        let c = choose|u: PaletteKind| text::eq_ignore_ascii_case(written, #[trigger] u.spec_name());
        text::lemma_eq_ignore_ascii_case_shared(written, v.spec_name(), c.spec_name());
        PaletteKind::lemma_names_distinct();
    }
}

impl PaletteKind {
    /// The name shown in menus.
    pub open spec fn spec_display_name(self) -> Seq<char> {
        match self {
            PaletteKind::NostalgiaRed => "Nostalgia Red"@,
            PaletteKind::Phosphor => "Phosphor Green"@,
            other => other.spec_name(),
        }
    }

    /// One line on what the ramp is for, as the menu and help explain it.
    pub open spec fn spec_about(self) -> Seq<char> {
        match self {
            PaletteKind::Magma => "Perceptually even, black through purple to cream"@,
            PaletteKind::Inferno => "Perceptually even, and hotter than Magma at the top"@,
            PaletteKind::Viridis => "Perceptually even, blue through green to yellow"@,
            PaletteKind::Turbo => "The rainbow, made even. Loud, and easy to read levels off"@,
            PaletteKind::NostalgiaRed => "Cool Edit's ramp: saturates early, by design"@,
            PaletteKind::Ice => "Black through blue to white"@,
            PaletteKind::Grey => "Black to white, and nothing else"@,
            PaletteKind::Plasma => "Perceptually even, blue through pink to yellow"@,
            PaletteKind::Cividis => "Perceptually even, and readable with any colour-vision deficiency"@,
            PaletteKind::Twilight => "Dark at both ends, so the middle of the range stands out"@,
            PaletteKind::Ocean => "Black through teal to a pale sky"@,
            PaletteKind::Phosphor => "The green of an old analyser screen"@,
            PaletteKind::Ember => "A fire seen in the dark: deep red through orange to white"@,
        }
    }

    /// The name shown in menus.
    pub fn display_name(self) -> (r: &'static str)
        ensures
            r@ == self.spec_display_name(),
    {
        match self {
            PaletteKind::NostalgiaRed => "Nostalgia Red",
            PaletteKind::Phosphor => "Phosphor Green",
            other => other.name(),
        }
    }

    /// One line on what the ramp is for, as the menu and help explain it.
    pub fn about(self) -> (r: &'static str)
        ensures
            r@ == self.spec_about(),
    {
        match self {
            PaletteKind::Magma => "Perceptually even, black through purple to cream",
            PaletteKind::Inferno => "Perceptually even, and hotter than Magma at the top",
            PaletteKind::Viridis => "Perceptually even, blue through green to yellow",
            PaletteKind::Turbo => "The rainbow, made even. Loud, and easy to read levels off",
            PaletteKind::NostalgiaRed => "Cool Edit's ramp: saturates early, by design",
            PaletteKind::Ice => "Black through blue to white",
            PaletteKind::Grey => "Black to white, and nothing else",
            PaletteKind::Plasma => "Perceptually even, blue through pink to yellow",
            PaletteKind::Cividis => "Perceptually even, and readable with any colour-vision deficiency",
            PaletteKind::Twilight => "Dark at both ends, so the middle of the range stands out",
            PaletteKind::Ocean => "Black through teal to a pale sky",
            PaletteKind::Phosphor => "The green of an old analyser screen",
            PaletteKind::Ember => "A fire seen in the dark: deep red through orange to white",
        }
    }
}

/// An opaque sRGB colour.
#[derive(Clone, Copy, Debug, Default, PartialEq, Eq, Hash, Structural)]
pub struct Rgb {
    pub r: u8,
    pub g: u8,
    pub b: u8,
}

/// `0xFFRRGGBB`: the colour packed with full alpha, as Nostalgia+ stored it.
pub open spec fn packed_argb(c: Rgb) -> u32 {
    (0xFF00_0000 + c.r as int * 0x1_0000 + c.g as int * 0x100 + c.b as int) as u32
}

impl Rgb {
    pub fn new(r: u8, g: u8, b: u8) -> (c: Rgb)
        ensures
            c == (Rgb { r, g, b }),
    {
        Rgb { r, g, b }
    }

    /// Packed as `0xFFRRGGBB`, as Nostalgia+ stored it.
    pub fn to_argb(self) -> (v: u32)
        ensures
            v == packed_argb(self),
    {
        let (r, g, b) = (self.r, self.g, self.b);
        let v: u32 = 0xFF00_0000u32 | (r as u32) << 16u32 | (g as u32) << 8u32 | b as u32;
        assert(v == (0xFF00_0000 + r as int * 0x1_0000 + g as int * 0x100 + b as int) as u32) by (bit_vector)
            requires
                v == 0xFF00_0000u32 | (r as u32) << 16u32 | (g as u32) << 8u32 | b as u32;
        v
    }

    /// The colour as four bytes, red first, fully opaque.
    pub fn to_rgba8(self) -> (v: [u8; 4])
        ensures
            v@ == seq![self.r, self.g, self.b, 255u8],
    {
        [self.r, self.g, self.b, 255]
    }
}

/// A 256-entry colour ramp: entry 0 is silence, entry 255 the ceiling.
pub type Lut = [Rgb; 256];

/// The colour a palette gives silence: the panel's background.
pub fn background(lut: &Lut) -> (c: Rgb)
    ensures
        c == lut@[0],
{
    lut[0]
}

} // verus!
