//! Fonts loaded from font files, and the choice of the font that draws a
//! glyph: the main font, else the first fallback font that has the glyph,
//! else the emoji font.

use vstd::prelude::*;

use ab_glyph::{Font, FontVec, InvalidFont};

use crate::glyph_class::GlyphClass;

verus! {

#[verifier::external_type_specification]
#[verifier::external_body]
pub struct ExFontVec(FontVec);

#[verifier::external_type_specification]
#[verifier::external_body]
pub struct ExInvalidFont(InvalidFont);

/// Whether `ab_glyph` accepts `data` as a font (face 0 of the file).
pub uninterp spec fn font_data_is_valid(data: Seq<u8>) -> bool;

/// Index of the glyph that the font in `data` maps `c` to; 0 when the font
/// has no glyph for `c`.
pub uninterp spec fn font_glyph_index(data: Seq<u8>, c: char) -> u16;

/// `FontVec::try_from_vec`: parses the font file in `data` (face 0) and, on
/// success, keeps the parsed font with the bytes it was parsed from and the
/// file's path. Claimed: success exactly when `font_data_is_valid(data)`, a
/// function of the bytes alone. This is the only place a `GlyphFont` is
/// built, so its view is always the bytes its font was parsed from.
#[verifier::external_body]
fn parse_glyph_font(data: Vec<u8>, path: String) -> (r: Result<GlyphFont, InvalidFont>)
    ensures
        r is Ok <==> font_data_is_valid(data@),
        r matches Ok(f) ==> f@ == data@ && f.path_spec() == path,
{
    let bytes: Ghost<Seq<u8>> = Ghost(data@);
    match FontVec::try_from_vec(data) {
        Ok(font) => Ok(GlyphFont { font, data: bytes, path }),
        Err(e) => Err(e),
    }
}

/// `Font::glyph_id` of the font: the glyph index for `c` in the font's
/// character map, 0 when there is none. Claimed: the result is
/// `font_glyph_index(font@, c)`, a function of the font bytes and the
/// character alone; `font@` is the bytes the font was parsed from, as
/// `parse_glyph_font`, the only place a `GlyphFont` is built, states.
#[verifier::external_body]
fn glyph_id_of(font: &GlyphFont, c: char) -> (r: u16)
    ensures
        r == font_glyph_index(font@, c),
{
    font.font.glyph_id(c).0
}

/// `String::from(char)`: a string of one character.
#[verifier::external_body]
fn string_from_char(c: char) -> (r: String)
    ensures
        r@ == seq![c],
{
    String::from(c)
}

/// Why a font could not be loaded.
#[derive(Debug, Clone, Copy, PartialEq, Eq, Structural)]
pub enum FontError {
    InvalidFont,
}

/// A parsed font file and the path it was loaded from.
pub struct GlyphFont {
    font: FontVec,
    data: Ghost<Seq<u8>>,
    path: String,
}

impl View for GlyphFont {
    type V = Seq<u8>;

    /// The bytes of the font file.
    closed spec fn view(&self) -> Seq<u8> {
        self.data@
    }
}

impl GlyphFont {
    /// The path the font was loaded from.
    pub closed spec fn path_spec(&self) -> String {
        self.path
    }
}

/// The font has a glyph for `c`.
pub open spec fn has_glyph(font: GlyphFont, c: char) -> bool {
    font_glyph_index(font@, c) != 0
}

impl GlyphFont {
    /// Parses the font file `bytes` loaded from `path`.
    pub fn from_bytes(bytes: Vec<u8>, path: String) -> (r: Result<GlyphFont, FontError>)
        ensures
            r is Ok <==> font_data_is_valid(bytes@),
            r matches Ok(f) ==> f@ == bytes@ && f.path_spec() == path,
            r matches Err(e) ==> e == FontError::InvalidFont,
    {
        match parse_glyph_font(bytes, path) {
            Ok(f) => Ok(f),
            Err(_) => Err(FontError::InvalidFont),
        }
    }

    /// The path the font was loaded from.
    pub fn path(&self) -> (r: String)
        ensures
            r == self.path_spec(),
    {
        self.path.clone()
    }

    /// Glyph index of the first character of `glyph_str`.
    pub fn glyph_id(&self, glyph_str: &String) -> (r: u16)
        requires
            glyph_str@.len() > 0,
        ensures
            r == font_glyph_index(self@, glyph_str@[0]),
    {
        let c = glyph_str.as_str().get_char(0);
        glyph_id_of(self, c)
    }

    /// Glyph index of `glyph_char`.
    pub fn glyph_id_char(&self, glyph_char: char) -> (r: u16)
        ensures
            r == font_glyph_index(self@, glyph_char),
    {
        glyph_id_of(self, glyph_char)
    }

    /// The font has a glyph for the check mark emoji.
    pub fn is_emoji(&self) -> (r: bool)
        ensures
            r == has_glyph(*self, '\u{2705}'),
    {
        glyph_id_of(self, '\u{2705}') != 0
    }
}

/// Loads font files with the `otf` and `ttf` extensions.
#[derive(Debug, Clone, Copy, PartialEq, Eq, Structural)]
pub struct FontLoader;

impl FontLoader {
    /// File extensions handled by the loader.
    pub fn extensions(&self) -> (r: Vec<&'static str>)
        ensures
            r@.len() == 2,
            r@[0]@ == "otf"@,
            r@[1]@ == "ttf"@,
    {
        let mut v: Vec<&'static str> = Vec::new();
        v.push("otf");
        v.push("ttf");
        v
    }

    /// Turns the bytes read from the font file at `path` into a font.
    pub fn load(&self, bytes: Vec<u8>, path: String) -> (r: Result<GlyphFont, FontError>)
        ensures
            r is Ok <==> font_data_is_valid(bytes@),
            r matches Ok(f) ==> f@ == bytes@ && f.path_spec() == path,
            r matches Err(e) ==> e == FontError::InvalidFont,
    {
        GlyphFont::from_bytes(bytes, path)
    }
}

/// The fonts used to draw text: a main font, an emoji font and fallbacks.
pub struct ABGlyphFonts {
    pub main: GlyphFont,
    pub emoji: GlyphFont,
    pub fallback: Vec<GlyphFont>,
}

/// Index of the first of the first `n` fonts that has a glyph for `c`.
pub open spec fn first_with_glyph(fonts: Seq<GlyphFont>, c: char, n: int) -> Option<int>
    decreases n,
{
    if n <= 0 {
        None
    } else {
        match first_with_glyph(fonts, c, n - 1) {
            Some(i) => Some(i),
            None => if has_glyph(fonts[n - 1], c) { Some(n - 1) } else { None },
        }
    }
}

/// The fallback font used for `c`: none when the main font has the glyph,
/// else the first fallback font that has it.
pub open spec fn fallback_choice(fonts: ABGlyphFonts, c: char) -> Option<int> {
    if has_glyph(fonts.main, c) {
        None
    } else {
        first_with_glyph(fonts.fallback@, c, fonts.fallback@.len() as int)
    }
}

/// `c` is drawn from the emoji font: neither the main font nor a fallback has
/// it, and the emoji font does.
pub open spec fn drawn_as_emoji(fonts: ABGlyphFonts, c: char) -> bool {
    !has_glyph(fonts.main, c) && fallback_choice(fonts, c) is None && has_glyph(fonts.emoji, c)
}

/// The font that draws `c`.
pub open spec fn chosen_font(fonts: ABGlyphFonts, c: char) -> GlyphFont {
    if drawn_as_emoji(fonts, c) {
        fonts.emoji
    } else {
        match fallback_choice(fonts, c) {
            Some(i) => fonts.fallback@[i],
            None => fonts.main,
        }
    }
}

/// The class of a glyph whose first character is `c`.
pub open spec fn class_of(fonts: ABGlyphFonts, c: char, class: GlyphClass) -> bool {
    &&& class.font_path == chosen_font(fonts, c).path_spec()
    &&& class.is_emoji == drawn_as_emoji(fonts, c)
}

proof fn lemma_first_with_glyph_bounds(fonts: Seq<GlyphFont>, c: char, n: int)
    ensures
        first_with_glyph(fonts, c, n) matches Some(i) ==> 0 <= i < n && has_glyph(fonts[i], c),
        first_with_glyph(fonts, c, n) is None ==> forall|j: int| 0 <= j < n ==> !has_glyph(#[trigger] fonts[j], c),
    decreases n,
{
    if n > 0 {
        lemma_first_with_glyph_bounds(fonts, c, n - 1);
    }
}

/// A glyph together with the fonts that may draw it, and the font chosen.
pub struct GlyphWithFonts<'a> {
    pub glyph_str: &'a String,
    pub fonts: &'a ABGlyphFonts,
    pub initialized: bool,
    pub is_emoji: bool,
    pub fallback_index: Option<usize>,
}

impl<'a> GlyphWithFonts<'a> {
    /// Chooses the font for the first character of `glyph_str`: the main
    /// font, else the first fallback font with the glyph, else the emoji font.
    pub fn new(glyph_str: &'a String, fonts: &'a ABGlyphFonts) -> (r: GlyphWithFonts<'a>)
        requires
            glyph_str@.len() > 0,
        ensures
            r.glyph_str == glyph_str,
            r.fonts == fonts,
            r.initialized,
            r.fallback_index == match fallback_choice(*fonts, glyph_str@[0]) {
                Some(i) => Some(i as usize),
                None => None::<usize>,
            },
            r.is_emoji == drawn_as_emoji(*fonts, glyph_str@[0]),
    {
        let mut cwf = GlyphWithFonts { glyph_str, fonts, initialized: false, is_emoji: false, fallback_index: None };
        cwf.initialize();
        cwf
    }

    /// The main font has the glyph.
    fn is_main_font(&self) -> (r: bool)
        requires
            self.glyph_str@.len() > 0,
        ensures
            r == has_glyph(self.fonts.main, self.glyph_str@[0]),
    {
        self.fonts.main.glyph_id(self.glyph_str) != 0
    }

    /// The emoji font has the glyph.
    fn has_emoji_glyph(&self) -> (r: bool)
        requires
            self.glyph_str@.len() > 0,
        ensures
            r == has_glyph(self.fonts.emoji, self.glyph_str@[0]),
    {
        self.fonts.emoji.glyph_id(self.glyph_str) != 0
    }

    /// The fallback font for the glyph, when the main font lacks it.
    fn find_fallback_index(&self) -> (r: Option<usize>)
        requires
            self.glyph_str@.len() > 0,
        ensures
            r == match fallback_choice(*self.fonts, self.glyph_str@[0]) {
                Some(i) => Some(i as usize),
                None => None::<usize>,
            },
    {
        let ghost c = self.glyph_str@[0];
        let glyph_id = self.fonts.main.glyph_id(self.glyph_str);
        let mut fallback_index: Option<usize> = None;
        if glyph_id == 0 {
            let n = self.fonts.fallback.len();
            let mut index: usize = 0;
            while index < n
                invariant_except_break
                    n == self.fonts.fallback@.len(),
                    index <= n,
                    self.glyph_str@.len() > 0,
                    c == self.glyph_str@[0],
                    fallback_index is None ==> first_with_glyph(self.fonts.fallback@, c, index as int) is None,
                    fallback_index is None,
                ensures
                    fallback_index == match first_with_glyph(self.fonts.fallback@, c, n as int) {
                        Some(i) => Some(i as usize),
                        None => None::<usize>,
                    },
                decreases n - index,
            {
                let id = self.fonts.fallback[index].glyph_id(self.glyph_str);
                if id != 0 {
                    fallback_index = Some(index);
                    proof {
                        lemma_first_with_glyph_prefix(self.fonts.fallback@, c, index as int + 1, n as int);
                    }
                    break;
                }
                index = index + 1;
            }
        }
        fallback_index
    }

    /// Records the choice of font: main, else fallback, else emoji.
    pub fn initialize(&mut self)
        requires
            old(self).glyph_str@.len() > 0,
            !old(self).is_emoji,
            old(self).fallback_index is None,
        ensures
            final(self).glyph_str == old(self).glyph_str,
            final(self).fonts == old(self).fonts,
            final(self).initialized,
            final(self).fallback_index == match fallback_choice(*old(self).fonts, old(self).glyph_str@[0]) {
                Some(i) => Some(i as usize),
                None => None::<usize>,
            },
            final(self).is_emoji == drawn_as_emoji(*old(self).fonts, old(self).glyph_str@[0]),
    {
        let main = self.is_main_font();
        if !main {
            self.fallback_index = self.find_fallback_index();
            if self.fallback_index.is_none() {
                self.is_emoji = self.has_emoji_glyph();
            }
        }
        self.initialized = true;
    }

    /// The font that draws the glyph.
    pub fn current_font(&self) -> (r: &'a GlyphFont)
        requires
            self.initialized,
            self.glyph_str@.len() > 0,
            self.fallback_index == match fallback_choice(*self.fonts, self.glyph_str@[0]) {
                Some(i) => Some(i as usize),
                None => None::<usize>,
            },
            self.is_emoji == drawn_as_emoji(*self.fonts, self.glyph_str@[0]),
        ensures
            *r == chosen_font(*self.fonts, self.glyph_str@[0]),
    {
        let ghost c = self.glyph_str@[0];
        let fallback_len = self.fonts.fallback.len();
        proof {
            lemma_first_with_glyph_bounds(self.fonts.fallback@, c, self.fonts.fallback@.len() as int);
            if let Some(j) = fallback_choice(*self.fonts, c) {
                assert(0 <= j < self.fonts.fallback@.len());
                assert(self.fallback_index == Some(j as usize));
            }
        }
        if self.is_emoji {
            &self.fonts.emoji
        } else if self.fallback_index.is_some() {
            let i = self.fallback_index.unwrap();
            proof {
                match fallback_choice(*self.fonts, c) {
                    Some(j) => {
                        assert(self.fallback_index == Some(j as usize));
                        assert(i as int == j);
                    },
                    None => {
                        assert(self.fallback_index is None);
                    },
                }
            }
            &self.fonts.fallback[i]
        } else {
            &self.fonts.main
        }
    }
}

proof fn lemma_first_with_glyph_prefix(fonts: Seq<GlyphFont>, c: char, k: int, n: int)
    requires
        0 < k <= n,
        first_with_glyph(fonts, c, k - 1) is None,
        has_glyph(fonts[k - 1], c),
    ensures
        first_with_glyph(fonts, c, n) == Some(k - 1),
    decreases n - k,
{
    if n > k {
        lemma_first_with_glyph_prefix(fonts, c, k, n - 1);
    }
}

impl ABGlyphFonts {
    /// The class of the glyph `glyph_str` (by its first character).
    pub fn classify(&self, glyph_str: &String) -> (r: GlyphClass)
        requires
            glyph_str@.len() > 0,
        ensures
            class_of(*self, glyph_str@[0], r),
    {
        let g = GlyphWithFonts::new(glyph_str, self);
        let font = g.current_font();
        GlyphClass { font_path: font.path(), is_emoji: g.is_emoji }
    }

    /// Every character of `string` is drawn from the emoji font.
    pub fn is_emoji(&self, string: &String) -> (r: bool)
        ensures
            r == forall|i: int| 0 <= i < string@.len() ==> drawn_as_emoji(*self, #[trigger] string@[i]),
    {
        let n = string.as_str().unicode_len();
        let mut result = true;
        let mut i: usize = 0;
        while i < n
            invariant
                n == string@.len(),
                i <= n,
                result == forall|j: int| 0 <= j < i ==> drawn_as_emoji(*self, #[trigger] string@[j]),
            decreases n - i,
        {
            let current_char = string.as_str().get_char(i);
            let string_from_char = string_from_char(current_char);
            let symbol = GlyphWithFonts::new(&string_from_char, self);
            result = result && symbol.is_emoji;
            proof {
                assert(string_from_char@[0] == string@[i as int]);
                if !drawn_as_emoji(*self, string@[i as int]) {
                    assert(!(forall|j: int| 0 <= j < i + 1 ==> drawn_as_emoji(*self, #[trigger] string@[j])));
                }
            }
            i = i + 1;
        }
        result
    }
}

/// The font assets being loaded, by asset id: the main font, the emoji font
/// and the fallbacks, and how many have loaded so far.
pub struct FontAssetHandles {
    pub main: u64,
    pub emoji: u64,
    pub fallback: Vec<u64>,
    pub loaded_cnt: usize,
}

impl FontAssetHandles {
    /// The number of font assets: main, emoji and every fallback.
    pub fn handles_total(&self) -> (r: usize)
        requires
            self.fallback@.len() + 2 <= usize::MAX,
        ensures
            r == self.fallback@.len() + 2,
    {
        self.fallback.len() + 2
    }

    /// Whether every font asset has loaded.
    pub fn loaded(&self) -> (r: bool)
        requires
            self.fallback@.len() + 2 <= usize::MAX,
        ensures
            r == (self.loaded_cnt == self.fallback@.len() + 2),
    {
        self.loaded_cnt == self.handles_total()
    }
}

} // verus!
