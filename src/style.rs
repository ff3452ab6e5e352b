//! Style annotations carried by a line, and the accumulators used when the
//! annotations covering one character are merged.
use vstd::prelude::*;

verus! {

/// An RGBA color.
#[derive(Clone, Copy, Debug, PartialEq, Eq, Structural)]
pub struct Color32 {
    pub r: u8,
    pub g: u8,
    pub b: u8,
    pub a: u8,
}

/// The palette a renderer resolves styles against.
#[derive(Clone, Copy, Debug, PartialEq, Eq, Structural)]
pub struct Colors {
    pub color: Color32,
    pub background: Color32,
    pub highlight: Color32,
    pub highlight_background: Color32,
    pub link: Color32,
}

/// A font size declaration: a scale in percent, either relative to the
/// enclosing size or definitive.
#[derive(Clone, Copy, Debug, PartialEq, Eq, Structural)]
pub struct FontSize {
    pub scale: u16,
    pub relative: bool,
}

/// Line pattern of a border.
#[derive(Clone, Copy, Debug, PartialEq, Eq, Structural)]
pub enum BorderLines {
    Solid,
    Dashed,
    Dotted,
    Double,
}

/// Kind of a text decoration line.
#[derive(Clone, Copy, Debug, PartialEq, Eq, Structural)]
pub enum DecorationLine {
    Underline,
    Overline,
    LineThrough,
}

/// A text decoration (underline and the like), with an optional color.
#[derive(Clone, Copy, Debug, PartialEq, Eq, Structural)]
pub struct TextDecoration {
    pub line: DecorationLine,
    pub color: Option<Color32>,
}

/// An embedded image: where it is found and how the document refers to it.
#[derive(Clone, Debug)]
pub struct ImageStyle {
    pub path: String,
    pub href: String,
}

/// One style annotation over a character range.
#[derive(Clone, Debug)]
pub enum TextStyle {
    FontSize(FontSize),
    FontWeight(u16),
    FontFamily(u16),
    Color(Color32),
    BackgroundColor(Color32),
    Link(String),
    Image(ImageStyle),
    Border(BorderLines, Option<Color32>),
    Decoration(TextDecoration),
    Title(String),
}

/// The largest scale, in percent, that merging font sizes produces.
pub const MAX_FONT_SCALE: u32 = 100000;

/// Accumulated font scale, in percent. Declarations are merged from the
/// innermost outwards: relative ones multiply, the first definitive one
/// fixes the result and later ones are ignored.
#[derive(Clone, Copy, Debug, PartialEq, Eq, Structural)]
pub struct FontScale {
    pub scale: u32,
    pub fixed: bool,
}

/// `a * b / 100`, capped at `MAX_FONT_SCALE`.
pub open spec fn scaled(a: u32, b: u16) -> u32 {
    let p = a as int * b as int / 100;
    if p > MAX_FONT_SCALE {
        MAX_FONT_SCALE
    } else {
        p as u32
    }
}

impl FontScale {
    pub open spec fn spec_update(self, scale: u16, relative: bool) -> FontScale {
        if self.fixed {
            self
        } else {
            FontScale { scale: scaled(self.scale, scale), fixed: !relative }
        }
    }

    /// The scale of text that no declaration covers.
    pub fn new() -> (r: FontScale)
        ensures
            r == (FontScale { scale: 100, fixed: false }),
    {
        FontScale { scale: 100, fixed: false }
    }

    pub fn update(&mut self, scale: u16, relative: bool)
        ensures
            *final(self) == old(self).spec_update(scale, relative),
    {
        if !self.fixed {
            assert(self.scale as u64 * scale as u64 <= 0xffff_ffff * 0xffff) by (nonlinear_arith)
                requires
                    self.scale <= 0xffff_ffff,
                    scale <= 0xffff,
            ;
            let p: u64 = self.scale as u64 * scale as u64 / 100;
            self.scale = if p > MAX_FONT_SCALE as u64 {
                MAX_FONT_SCALE
            } else {
                p as u32
            };
            self.fixed = !relative;
        }
    }
}

/// Accumulated font weight: the first declaration seen wins.
#[derive(Clone, Copy, Debug, PartialEq, Eq, Structural)]
pub struct FontWeight {
    pub weight: u16,
    pub fixed: bool,
}

impl FontWeight {
    pub open spec fn spec_update(self, weight: u16) -> FontWeight {
        if self.fixed {
            self
        } else {
            FontWeight { weight, fixed: true }
        }
    }

    /// The weight of text that no declaration covers.
    pub fn new() -> (r: FontWeight)
        ensures
            r == (FontWeight { weight: 400, fixed: false }),
    {
        FontWeight { weight: 400, fixed: false }
    }

    pub fn update(&mut self, weight: u16)
        ensures
            *final(self) == old(self).spec_update(weight),
    {
        if !self.fixed {
            self.weight = weight;
            self.fixed = true;
        }
    }
}

} // verus!
