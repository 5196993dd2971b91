use vstd::prelude::*;

verus! {

/// The sixteen colors of the text mode palette, in palette order.
#[derive(Clone, Copy, Debug, PartialEq, Eq, Structural)]
pub enum Color {
    Black,
    Blue,
    Green,
    Cyan,
    Red,
    Magenta,
    Brown,
    LightGray,
    DarkGray,
    LightBlue,
    LightGreen,
    LightCyan,
    LightRed,
    Pink,
    Yellow,
    White,
}

impl Color {
    /// The 4-bit palette index of the color.
    pub open spec fn index(self) -> u8 {
        match self {
            Color::Black => 0,
            Color::Blue => 1,
            Color::Green => 2,
            Color::Cyan => 3,
            Color::Red => 4,
            Color::Magenta => 5,
            Color::Brown => 6,
            Color::LightGray => 7,
            Color::DarkGray => 8,
            Color::LightBlue => 9,
            Color::LightGreen => 10,
            Color::LightCyan => 11,
            Color::LightRed => 12,
            Color::Pink => 13,
            Color::Yellow => 14,
            Color::White => 15,
        }
    }

    /// The palette index of the color.
    pub fn value(self) -> (r: u8)
        ensures
            r == self.index(),
            r < 16,
    {
        match self {
            Color::Black => 0,
            Color::Blue => 1,
            Color::Green => 2,
            Color::Cyan => 3,
            Color::Red => 4,
            Color::Magenta => 5,
            Color::Brown => 6,
            Color::LightGray => 7,
            Color::DarkGray => 8,
            Color::LightBlue => 9,
            Color::LightGreen => 10,
            Color::LightCyan => 11,
            Color::LightRed => 12,
            Color::Pink => 13,
            Color::Yellow => 14,
            Color::White => 15,
        }
    }
}

/// No two colors share a palette index.
pub proof fn lemma_index_injective(a: Color, b: Color)
    ensures
        a.index() == b.index() <==> a == b,
{
}

/// A foreground and a background color packed into one attribute byte:
/// the foreground in bits 0-3, the background in bits 4-7.
#[derive(Clone, Copy, Debug, PartialEq, Eq, Structural)]
pub struct ColorCode(pub u8);

/// The attribute byte for a foreground and background pair.
pub open spec fn code_of(foreground: Color, background: Color) -> u8 {
    ((background.index() << 4u8) | foreground.index()) as u8
}

impl ColorCode {
    /// Packs a foreground and a background color into one attribute byte.
    pub fn new(foreground: Color, background: Color) -> (r: ColorCode)
        ensures
            r.0 == code_of(foreground, background),
            r.0 == 16 * background.index() + foreground.index(),
    {
        let fg = foreground.value();
        let bg = background.value();
        let code: u8 = (bg << 4u8) | fg;
        assert(((bg << 4u8) | fg) == 16 * bg + fg) by (bit_vector)
            requires
                fg < 16,
                bg < 16,
        ;
        ColorCode(code)
    }

    /// The palette index of the foreground color.
    pub open spec fn foreground(self) -> u8 {
        self.0 % 16
    }

    /// The palette index of the background color.
    pub open spec fn background(self) -> u8 {
        self.0 / 16
    }
}

/// Every one of the sixteen by sixteen pairs packs to the background shifted
/// up four bits, or-ed with the foreground, and both can be read back out.
pub proof fn lemma_code_layout(foreground: Color, background: Color)
    ensures
        code_of(foreground, background) == 16 * background.index() + foreground.index(),
        ColorCode(code_of(foreground, background)).foreground() == foreground.index(),
        ColorCode(code_of(foreground, background)).background() == background.index(),
{
    let fg = foreground.index();
    let bg = background.index();
    assert(fg < 16 && bg < 16);
    assert(((bg << 4u8) | fg) == 16 * bg + fg) by (bit_vector)
        requires
            fg < 16,
            bg < 16,
    ;
}

} // verus!
