//! Points, boxes and affine maps in font units, and glyphs moved by affine maps.

use crate::tables::glyf::{Glyph, GlyphData, Transform};
use vstd::prelude::*;

verus! {

/// A point of the plane, in font units.
#[derive(Debug, Clone, Copy, PartialEq, Eq, Structural)]
pub struct Point {
    pub x: i32,
    pub y: i32,
}

/// A rectangle with sides along the axes, in font units.
#[derive(Debug, Clone, Copy, PartialEq, Eq, Structural)]
pub struct BoundingBox {
    pub x_min: i32,
    pub y_min: i32,
    pub x_max: i32,
    pub y_max: i32,
}

/// A fixed-point number with 14 fractional bits, rounded to the nearest whole number; a
/// number half way between two goes away from zero.
pub open spec fn rounded(v: int) -> int {
    if v >= 0 {
        (v + 8192) / 16384
    } else {
        -((-v + 8192) / 16384)
    }
}

/// `v` brought into the range from `lo` to `hi`.
pub open spec fn clamped(v: int, lo: int, hi: int) -> int {
    if v < lo {
        lo
    } else if v > hi {
        hi
    } else {
        v
    }
}

/// `v` brought into the signed 16-bit range.
pub open spec fn clamped16(v: int) -> int {
    clamped(v, -32768, 32767)
}

/// `v` brought into the signed 32-bit range.
pub open spec fn clamped32(v: int) -> int {
    clamped(v, -0x8000_0000, 0x7fff_ffff)
}

impl Transform {
    /// The x coordinate of the image of `(x, y)`, rounded to a whole number.
    pub open spec fn image_x(self, x: int, y: int) -> int {
        rounded(self.xx * x + self.xy * y + self.dx)
    }

    /// The y coordinate of the image of `(x, y)`, rounded to a whole number.
    pub open spec fn image_y(self, x: int, y: int) -> int {
        rounded(self.yx * x + self.yy * y + self.dy)
    }

    /// The map that first applies `second` and then `self`, each entry rounded to fixed-point
    /// and brought into the 32-bit range.
    pub open spec fn after(self, second: Transform) -> Transform {
        Transform {
            xx: clamped32(rounded(self.xx * second.xx + self.xy * second.yx)) as i32,
            xy: clamped32(rounded(self.xx * second.xy + self.xy * second.yy)) as i32,
            yx: clamped32(rounded(self.yx * second.xx + self.yy * second.yx)) as i32,
            yy: clamped32(rounded(self.yx * second.xy + self.yy * second.yy)) as i32,
            dx: clamped32(rounded(self.xx * second.dx + self.xy * second.dy) + self.dx) as i32,
            dy: clamped32(rounded(self.yx * second.dx + self.yy * second.dy) + self.dy) as i32,
        }
    }

    /// The map that scales by `scale_x` and `scale_y`, fixed-point numbers.
    pub open spec fn scaling(scale_x: i32, scale_y: i32) -> Transform {
        Transform { xx: scale_x, xy: 0, yx: 0, yy: scale_y, dx: 0, dy: 0 }
    }

    /// The map that turns by the angle whose cosine and sine are the fixed-point numbers
    /// `cos` and `sin`.
    pub open spec fn rotation(cos: i32, sin: i32) -> Transform {
        Transform { xx: cos, xy: if sin == i32::MIN {
            i32::MAX
        } else {
            (-sin) as i32
        }, yx: sin, yy: cos, dx: 0, dy: 0 }
    }

    /// The map that moves by `(dx, dy)`, fixed-point numbers.
    pub open spec fn translation(dx: i32, dy: i32) -> Transform {
        Transform { xx: 16384, xy: 0, yx: 0, yy: 16384, dx, dy }
    }

    /// The map that first applies `second` and then `first`.
    pub fn combine_transforms(first: &Transform, second: &Transform) -> (t: Transform)
        ensures
            t == first.after(*second),
    {
        Transform {
            xx: to_i32(round_units(product(first.xx, second.xx) + product(first.xy, second.yx))),
            xy: to_i32(round_units(product(first.xx, second.xy) + product(first.xy, second.yy))),
            yx: to_i32(round_units(product(first.yx, second.xx) + product(first.yy, second.yx))),
            yy: to_i32(round_units(product(first.yx, second.xy) + product(first.yy, second.yy))),
            dx: to_i32(
                round_units(product(first.xx, second.dx) + product(first.xy, second.dy))
                    + first.dx as i128,
            ),
            dy: to_i32(
                round_units(product(first.yx, second.dx) + product(first.yy, second.dy))
                    + first.dy as i128,
            ),
        }
    }

    /// The rounded image of the point `(x, y)`.
    pub fn apply(&self, x: i32, y: i32) -> (image: (i128, i128))
        ensures
            image.0 == self.image_x(x as int, y as int),
            image.1 == self.image_y(x as int, y as int),
    {
        let ix = round_units(product(self.xx, x) + product(self.xy, y) + self.dx as i128);
        let iy = round_units(product(self.yx, x) + product(self.yy, y) + self.dy as i128);
        (ix, iy)
    }
}

/// The product of two 32-bit numbers.
pub fn product(a: i32, b: i32) -> (p: i128)
    ensures
        p == a * b,
        -0x4000_0000_0000_0000 <= p <= 0x4000_0000_0000_0000,
{
    assert(-0x4000_0000_0000_0000 <= a * b <= 0x4000_0000_0000_0000) by (nonlinear_arith)
        requires
            -0x8000_0000 <= a <= 0x7fff_ffff,
            -0x8000_0000 <= b <= 0x7fff_ffff,
    ;
    a as i128 * b as i128
}

/// A fixed-point number rounded to the nearest whole number, half away from zero.
pub(crate) fn round_units(v: i128) -> (r: i128)
    requires
        -0x4000_0000_0000_0000_0000 <= v <= 0x4000_0000_0000_0000_0000,
    ensures
        r == rounded(v as int),
{
    if v >= 0 {
        (v + 8192) / 16384
    } else {
        -((-v + 8192) / 16384)
    }
}

/// `v` brought into the signed 32-bit range.
pub fn to_i32(v: i128) -> (r: i32)
    ensures
        r == clamped32(v as int),
{
    if v < -0x8000_0000 {
        -0x8000_0000
    } else if v > 0x7fff_ffff {
        0x7fff_ffff
    } else {
        v as i32
    }
}

/// `v` brought into the signed 16-bit range.
pub fn to_i16(v: i128) -> (r: i16)
    ensures
        r == clamped16(v as int),
{
    if v < -32768 {
        -32768
    } else if v > 32767 {
        32767
    } else {
        v as i16
    }
}

impl Point {
    pub fn new(x: i32, y: i32) -> (p: Self)
        ensures
            p.x == x,
            p.y == y,
    {
        Self { x, y }
    }

    /// The image of the point under an affine map, rounded to whole units and brought into
    /// the 32-bit range.
    pub fn transform(&self, transform: &Transform) -> (p: Point)
        ensures
            p.x == clamped32(transform.image_x(self.x as int, self.y as int)),
            p.y == clamped32(transform.image_y(self.x as int, self.y as int)),
    {
        let (x, y) = transform.apply(self.x, self.y);
        Point { x: to_i32(x), y: to_i32(y) }
    }
}

impl BoundingBox {
    pub fn new(x_min: i32, y_min: i32, x_max: i32, y_max: i32) -> (b: Self)
        ensures
            b.x_min == x_min,
            b.y_min == y_min,
            b.x_max == x_max,
            b.y_max == y_max,
    {
        Self { x_min, y_min, x_max, y_max }
    }

    /// The box that a glyph header declares.
    pub fn from_glyph(x_min: i16, y_min: i16, x_max: i16, y_max: i16) -> (b: Self)
        ensures
            b.x_min == x_min,
            b.y_min == y_min,
            b.x_max == x_max,
            b.y_max == y_max,
    {
        Self { x_min: x_min as i32, y_min: y_min as i32, x_max: x_max as i32, y_max: y_max as i32 }
    }

    /// The extent along the x axis.
    pub fn width(&self) -> (w: i64)
        ensures
            w == self.x_max - self.x_min,
    {
        self.x_max as i64 - self.x_min as i64
    }

    /// The extent along the y axis.
    pub fn height(&self) -> (h: i64)
        ensures
            h == self.y_max - self.y_min,
    {
        self.y_max as i64 - self.y_min as i64
    }

    /// The smallest box that holds both boxes.
    pub fn merge(&self, other: &BoundingBox) -> (b: BoundingBox)
        ensures
            b.x_min == if self.x_min <= other.x_min {
                self.x_min
            } else {
                other.x_min
            },
            b.y_min == if self.y_min <= other.y_min {
                self.y_min
            } else {
                other.y_min
            },
            b.x_max == if self.x_max >= other.x_max {
                self.x_max
            } else {
                other.x_max
            },
            b.y_max == if self.y_max >= other.y_max {
                self.y_max
            } else {
                other.y_max
            },
    {
        BoundingBox {
            x_min: if self.x_min <= other.x_min {
                self.x_min
            } else {
                other.x_min
            },
            y_min: if self.y_min <= other.y_min {
                self.y_min
            } else {
                other.y_min
            },
            x_max: if self.x_max >= other.x_max {
                self.x_max
            } else {
                other.x_max
            },
            y_max: if self.y_max >= other.y_max {
                self.y_max
            } else {
                other.y_max
            },
        }
    }
}

/// The least of the first `n` values, `n` at least one.
pub open spec fn least_of(vs: Seq<i16>, n: int) -> int
    decreases n,
{
    if n <= 1 {
        vs[0] as int
    } else if vs[n - 1] < least_of(vs, n - 1) {
        vs[n - 1] as int
    } else {
        least_of(vs, n - 1)
    }
}

/// The greatest of the first `n` values, `n` at least one.
pub open spec fn greatest_of(vs: Seq<i16>, n: int) -> int
    decreases n,
{
    if n <= 1 {
        vs[0] as int
    } else if vs[n - 1] > greatest_of(vs, n - 1) {
        vs[n - 1] as int
    } else {
        greatest_of(vs, n - 1)
    }
}

/// The least and the greatest of the first `n` values.
pub fn extent(vs: &Vec<i16>, n: usize) -> (r: (i16, i16))
    requires
        1 <= n <= vs@.len(),
    ensures
        r.0 == least_of(vs@, n as int),
        r.1 == greatest_of(vs@, n as int),
{
    let mut lo: i16 = vs[0];
    let mut hi: i16 = vs[0];
    let mut i: usize = 1;
    while i < n
        invariant
            1 <= i <= n <= vs@.len(),
            lo == least_of(vs@, i as int),
            hi == greatest_of(vs@, i as int),
        decreases n - i,
    {
        if vs[i] < lo {
            lo = vs[i];
        }
        if vs[i] > hi {
            hi = vs[i];
        }
        i = i + 1;
    }
    (lo, hi)
}

/// The number of points that have both coordinates.
pub open spec fn paired(xs: Seq<i16>, ys: Seq<i16>) -> int {
    if xs.len() <= ys.len() {
        xs.len() as int
    } else {
        ys.len() as int
    }
}

impl Glyph {
    /// The box stored in the glyph's header.
    pub open spec fn stored_box(self) -> BoundingBox {
        BoundingBox {
            x_min: self.x_min as i32,
            y_min: self.y_min as i32,
            x_max: self.x_max as i32,
            y_max: self.y_max as i32,
        }
    }

    /// The bounding box of the glyph: none for an empty glyph, the box around the points for
    /// a glyph with points of its own, and the stored box for a glyph without points and for
    /// a composite glyph.
    pub open spec fn bounding_box(self) -> Option<BoundingBox> {
        match self.data {
            GlyphData::Empty => None,
            GlyphData::Composite(_) => Some(self.stored_box()),
            GlyphData::Simple(simple) => {
                let n = paired(simple.x_coordinates@, simple.y_coordinates@);
                if n == 0 {
                    Some(self.stored_box())
                } else {
                    Some(
                        BoundingBox {
                            x_min: least_of(simple.x_coordinates@, n) as i32,
                            y_min: least_of(simple.y_coordinates@, n) as i32,
                            x_max: greatest_of(simple.x_coordinates@, n) as i32,
                            y_max: greatest_of(simple.y_coordinates@, n) as i32,
                        },
                    )
                }
            },
        }
    }

    /// The bounding box of the glyph.
    pub fn calculate_bounding_box(&self) -> (r: Option<BoundingBox>)
        ensures
            r == self.bounding_box(),
    {
        match &self.data {
            GlyphData::Empty => None,
            GlyphData::Composite(_) => Some(
                BoundingBox::from_glyph(self.x_min, self.y_min, self.x_max, self.y_max),
            ),
            GlyphData::Simple(simple) => {
                let n = if simple.x_coordinates.len() <= simple.y_coordinates.len() {
                    simple.x_coordinates.len()
                } else {
                    simple.y_coordinates.len()
                };
                if n == 0 {
                    return Some(
                        BoundingBox::from_glyph(self.x_min, self.y_min, self.x_max, self.y_max),
                    );
                }
                let (x_min, x_max) = extent(&simple.x_coordinates, n);
                let (y_min, y_max) = extent(&simple.y_coordinates, n);
                Some(BoundingBox::from_glyph(x_min, y_min, x_max, y_max))
            },
        }
    }
}

} // verus!
