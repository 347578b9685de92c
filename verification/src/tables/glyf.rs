//! The `glyf` table: glyph outlines, simple and composite.

use vstd::prelude::*;

verus! {

/// All the glyphs of a font, by glyph id.
#[derive(Debug, Clone)]
pub struct GlyfTable {
    pub glyphs: Vec<Glyph>,
}

/// One glyph: the contour count and bounding box from its header, and its outline.
#[derive(Debug, Clone)]
pub struct Glyph {
    pub number_of_contours: i16,
    pub x_min: i16,
    pub y_min: i16,
    pub x_max: i16,
    pub y_max: i16,
    pub data: GlyphData,
}

/// The outline of a glyph.
#[derive(Debug, Clone)]
pub enum GlyphData {
    Simple(SimpleGlyph),
    Composite(CompositeGlyph),
    Empty,
}

/// An outline given by its own points: for each contour the index of its last point, the
/// hinting instructions, and for each point a flag byte and absolute coordinates.
#[derive(Debug, Clone)]
pub struct SimpleGlyph {
    pub end_pts_of_contours: Vec<u16>,
    pub instruction_length: u16,
    pub instructions: Vec<u8>,
    pub flags: Vec<u8>,
    pub x_coordinates: Vec<i16>,
    pub y_coordinates: Vec<i16>,
}

/// An outline put together from other glyphs.
#[derive(Debug, Clone)]
pub struct CompositeGlyph {
    pub components: Vec<GlyphComponent>,
}

/// One part of a composite glyph: the glyph it refers to, by id, and how that glyph is placed.
#[derive(Debug, Clone, Copy)]
pub struct GlyphComponent {
    pub flags: u16,
    pub glyph_index: u16,
    pub arg1: i16,
    pub arg2: i16,
    pub transform: Transform,
}

/// An affine map of the plane, `(x, y) -> (xx*x + xy*y + dx, yx*x + yy*y + dy)`. All six
/// numbers are fixed-point with 14 fractional bits: the number one is 16384.
#[derive(Debug, Clone, Copy, PartialEq, Eq, Structural)]
pub struct Transform {
    pub xx: i32,
    pub xy: i32,
    pub yx: i32,
    pub yy: i32,
    pub dx: i32,
    pub dy: i32,
}

/// The number one in fixed-point with 14 fractional bits.
pub const UNIT: i32 = 16384;

/// The map that leaves every point where it is.
pub open spec fn identity() -> Transform {
    Transform { xx: 16384, xy: 0, yx: 0, yy: 16384, dx: 0, dy: 0 }
}

impl Default for Transform {
    fn default() -> (t: Self)
        ensures
            t == identity(),
    {
        Transform { xx: UNIT, xy: 0, yx: 0, yy: UNIT, dx: 0, dy: 0 }
    }
}

impl Glyph {
    pub fn is_simple(&self) -> (b: bool)
        ensures
            b == (self.data is Simple),
    {
        match self.data {
            GlyphData::Simple(_) => true,
            _ => false,
        }
    }

    pub fn is_composite(&self) -> (b: bool)
        ensures
            b == (self.data is Composite),
    {
        match self.data {
            GlyphData::Composite(_) => true,
            _ => false,
        }
    }

    pub fn is_empty(&self) -> (b: bool)
        ensures
            b == (self.data is Empty),
    {
        match self.data {
            GlyphData::Empty => true,
            _ => false,
        }
    }
}

} // verus!
