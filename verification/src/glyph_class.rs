//! Which font draws a glyph.

use vstd::prelude::*;

verus! {

/// The font chosen for a glyph, by the font's path, and whether the glyph is
/// drawn from the emoji font.
#[derive(Debug)]
pub struct GlyphClass {
    pub font_path: String,
    pub is_emoji: bool,
}

impl GlyphClass {
    /// An equal copy.
    pub fn copy_of(&self) -> (r: Self)
        ensures
            r == *self,
    {
        GlyphClass { font_path: self.font_path.clone(), is_emoji: self.is_emoji }
    }
}

} // verus!
