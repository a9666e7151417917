//! The refined text-mode attribute API: the same attribute byte as the
//! writer's, with named constructors for the default and the error style.

use vstd::prelude::*;

pub use crate::vga::Color;

verus! {

/// A VGA text mode attribute byte: background color in the high nibble,
/// foreground in the low one.
#[derive(Clone, Copy, Debug, PartialEq, Eq, Structural)]
pub struct Attribute(pub u8);

impl Attribute {
    /// The attribute byte for a foreground on a background.
    pub open spec fn spec_new(foreground: Color, background: Color) -> Attribute {
        Attribute(background.spec_code() << 4 | foreground.spec_code())
    }

    /// The attribute byte for a foreground on a background.
    pub fn new(foreground: Color, background: Color) -> (a: Attribute)
        ensures
            a == Attribute::spec_new(foreground, background),
    {
        Attribute(background.code() << 4 | foreground.code())
    }

    /// Light gray on black, the style ordinary text is written in.
    pub fn default() -> (a: Attribute)
        ensures
            a == Attribute::spec_new(Color::LightGray, Color::Black),
    {
        Attribute::new(Color::LightGray, Color::Black)
    }

    /// White on black, the style errors are marked in.
    pub fn error() -> (a: Attribute)
        ensures
            a == Attribute::spec_new(Color::White, Color::Black),
    {
        Attribute::new(Color::White, Color::Black)
    }

    /// The background color, read back from the high nibble.
    pub fn background(self) -> (c: Color)
        ensures
            c == Color::spec_from_code(self.0 >> 4),
    {
        match self {
            Attribute(n) => Color::from_code(n >> 4),
        }
    }

    /// The foreground color: the palette color of the whole byte, exactly
    /// as the writer's attribute reads it.
    pub fn foreground(self) -> (c: Color)
        ensures
            c == Color::spec_from_code(self.0),
    {
        match self {
            Attribute(n) => Color::from_code(n),
        }
    }
}

/// One cell of the text buffer: a code page 437 glyph and its attribute.
#[derive(Clone, Copy, Debug, PartialEq, Eq, Structural)]
pub struct Char {
    /// The glyph code.
    pub code: u8,
    /// The cell's attribute byte.
    pub attr: Attribute,
}

impl Char {
    /// A cell with the given glyph and attribute.
    pub fn new(code: u8, attr: Attribute) -> (c: Char)
        ensures
            c == (Char { code, attr }),
    {
        Char { code, attr }
    }
}

} // verus!
