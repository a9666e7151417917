//! The early text-buffer interface: the bare attribute type and the call
//! that retargets the writer's attribute.

use vstd::prelude::*;

use crate::vga::{Color, ScreenAttribute, Writer, WriterView};

verus! {

/// A VGA text mode attribute byte, as the first writer carried it.
#[derive(Clone, Copy, Debug, PartialEq, Eq, Structural)]
pub struct TextAttribute(pub u8);

impl TextAttribute {
    /// The attribute byte for a foreground on a background.
    pub fn new(foreground: Color, background: Color) -> (a: TextAttribute)
        ensures
            a.0 == (background.spec_code() << 4 | foreground.spec_code()),
    {
        TextAttribute(background.code() << 4 | foreground.code())
    }
}

/// Sets the attribute the writer uses from here on.
pub fn set_text_attr(w: &mut Writer, attr: TextAttribute)
    ensures
        final(w)@ == (WriterView { attr: ScreenAttribute(attr.0), ..old(w)@ }),
{
    w.set_attribute(ScreenAttribute(attr.0));
}

} // verus!
