//! Packed 32-bit ARGB pixel values: channel access, construction from
//! channel bytes, and conversion to byte order for an output sink.

use vstd::prelude::*;

verus! {

/// One pixel in packed ARGB form: alpha in the top byte, then red,
/// green, blue.
#[derive(Clone, Copy, Debug)]
pub struct Color {
    /// The packed ARGB value.
    pub data: u32,
}

/// Packs four channel bytes into one ARGB word.
pub open spec fn pack_argb(a: u32, r: u32, g: u32, b: u32) -> u32
    recommends
        a < 256,
        r < 256,
        g < 256,
        b < 256,
{
    (a * 0x100_0000 + r * 0x1_0000 + g * 0x100 + b) as u32
}

impl Color {
    /// Alpha channel of a packed value.
    pub open spec fn spec_a(self) -> u32 {
        self.data / 0x100_0000
    }

    /// Red channel of a packed value.
    pub open spec fn spec_r(self) -> u32 {
        (self.data / 0x1_0000) % 0x100
    }

    /// Green channel of a packed value.
    pub open spec fn spec_g(self) -> u32 {
        (self.data / 0x100) % 0x100
    }

    /// Blue channel of a packed value.
    pub open spec fn spec_b(self) -> u32 {
        self.data % 0x100
    }

    /// Builds a fully opaque colour from red, green and blue.
    pub fn rgb(r: u8, g: u8, b: u8) -> (c: Color)
        ensures
            c.data == pack_argb(255, r as u32, g as u32, b as u32),
            c.spec_a() == 255,
            c.spec_r() == r as u32,
            c.spec_g() == g as u32,
            c.spec_b() == b as u32,
    {
        let c = Color {
            data: 0xFF00_0000 + (r as u32) * 0x1_0000 + (g as u32) * 0x100 + (b as u32),
        };
        proof {
            lemma_pack_channels(255, r as u32, g as u32, b as u32);
        }
        c
    }

    /// Builds a colour from red, green, blue and alpha.
    pub fn rgba(r: u8, g: u8, b: u8, a: u8) -> (c: Color)
        ensures
            c.data == pack_argb(a as u32, r as u32, g as u32, b as u32),
            c.spec_a() == a as u32,
            c.spec_r() == r as u32,
            c.spec_g() == g as u32,
            c.spec_b() == b as u32,
    {
        let c = Color {
            data: (a as u32) * 0x100_0000 + (r as u32) * 0x1_0000 + (g as u32) * 0x100
                + (b as u32),
        };
        proof {
            lemma_pack_channels(a as u32, r as u32, g as u32, b as u32);
        }
        c
    }

    /// Red channel.
    pub fn r(&self) -> (r: u8)
        ensures
            r as u32 == self.spec_r(),
    {
        ((self.data / 0x1_0000) % 0x100) as u8
    }

    /// Green channel.
    pub fn g(&self) -> (r: u8)
        ensures
            r as u32 == self.spec_g(),
    {
        ((self.data / 0x100) % 0x100) as u8
    }

    /// Blue channel.
    pub fn b(&self) -> (r: u8)
        ensures
            r as u32 == self.spec_b(),
    {
        (self.data % 0x100) as u8
    }

    /// Alpha channel.
    pub fn a(&self) -> (r: u8)
        ensures
            r as u32 == self.spec_a(),
    {
        (self.data / 0x100_0000) as u8
    }

    /// The four channels as bytes in RGBA order.
    pub fn to_rgba_bytes(&self) -> (r: [u8; 4])
        ensures
            r[0] as u32 == self.spec_r(),
            r[1] as u32 == self.spec_g(),
            r[2] as u32 == self.spec_b(),
            r[3] as u32 == self.spec_a(),
    {
        [self.r(), self.g(), self.b(), self.a()]
    }

    /// The four channels as bytes in BGRA order, the layout the
    /// physical framebuffer expects.
    pub fn to_bgra_bytes(&self) -> (r: [u8; 4])
        ensures
            r[0] as u32 == self.spec_b(),
            r[1] as u32 == self.spec_g(),
            r[2] as u32 == self.spec_r(),
            r[3] as u32 == self.spec_a(),
    {
        [self.b(), self.g(), self.r(), self.a()]
    }
}

/// Packing four channel bytes and reading each channel back gives the
/// bytes that went in.
pub proof fn lemma_pack_channels(a: u32, r: u32, g: u32, b: u32)
    requires
        a < 256,
        r < 256,
        g < 256,
        b < 256,
    ensures
        (Color { data: pack_argb(a, r, g, b) }).spec_a() == a,
        (Color { data: pack_argb(a, r, g, b) }).spec_r() == r,
        (Color { data: pack_argb(a, r, g, b) }).spec_g() == g,
        (Color { data: pack_argb(a, r, g, b) }).spec_b() == b,
{
    let v = a * 0x100_0000 + r * 0x1_0000 + g * 0x100 + b;
    assert(v / 0x100_0000 == a) by (nonlinear_arith)
        requires
            a < 256 && r < 256 && g < 256 && b < 256 && v == a * 0x100_0000 + r * 0x1_0000 + g
                * 0x100 + b,
    ;
    assert((v / 0x1_0000) % 0x100 == r) by (nonlinear_arith)
        requires
            a < 256 && r < 256 && g < 256 && b < 256 && v == a * 0x100_0000 + r * 0x1_0000 + g
                * 0x100 + b,
    ;
    assert((v / 0x100) % 0x100 == g) by (nonlinear_arith)
        requires
            a < 256 && r < 256 && g < 256 && b < 256 && v == a * 0x100_0000 + r * 0x1_0000 + g
                * 0x100 + b,
    ;
    assert(v % 0x100 == b) by (nonlinear_arith)
        requires
            a < 256 && r < 256 && g < 256 && b < 256 && v == a * 0x100_0000 + r * 0x1_0000 + g
                * 0x100 + b,
    ;
}

/// Two colours count as equal when their red, green and blue channels
/// agree; alpha is ignored, as only the visible channels matter when
/// comparing composited output.
impl PartialEq for Color {
    fn eq(&self, other: &Self) -> (r: bool) {
        let eq_r = (self.data / 0x1_0000) % 0x100 == (other.data / 0x1_0000) % 0x100;
        let eq_g = (self.data / 0x100) % 0x100 == (other.data / 0x100) % 0x100;
        let eq_b = self.data % 0x100 == other.data % 0x100;
        eq_r && eq_g && eq_b
    }
}

impl vstd::std_specs::cmp::PartialEqSpecImpl for Color {
    open spec fn obeys_eq_spec() -> bool {
        true
    }

    open spec fn eq_spec(&self, other: &Self) -> bool {
        self.spec_r() == other.spec_r() && self.spec_g() == other.spec_g() && self.spec_b()
            == other.spec_b()
    }
}

} // verus!
