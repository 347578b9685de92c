//! Moving, thinning and flattening glyph outlines.

use crate::error::TtfError;
use crate::tables::geometry::{clamped16, extent, paired, to_i16};
use crate::tables::glyf::{
    CompositeGlyph, Glyph, GlyphComponent, GlyphData, SimpleGlyph, Transform, UNIT,
};
use vstd::prelude::*;

verus! {

/// A copy of a vector of plain values.
pub fn copy_vec<T: Copy>(v: &Vec<T>) -> (out: Vec<T>)
    ensures
        out@ == v@,
{
    let mut out: Vec<T> = Vec::with_capacity(v.len());
    let mut i: usize = 0;
    while i < v.len()
        invariant
            i <= v.len(),
            out@ == v@.subrange(0, i as int),
        decreases v.len() - i,
    {
        out.push(v[i]);
        i = i + 1;
        assert(out@ =~= v@.subrange(0, i as int));
    }
    assert(v@.subrange(0, i as int) =~= v@);
    out
}

impl SimpleGlyph {
    /// The two outlines hold the same values.
    pub open spec fn same_as(self, other: SimpleGlyph) -> bool {
        &&& self.end_pts_of_contours@ == other.end_pts_of_contours@
        &&& self.instruction_length == other.instruction_length
        &&& self.instructions@ == other.instructions@
        &&& self.flags@ == other.flags@
        &&& self.x_coordinates@ == other.x_coordinates@
        &&& self.y_coordinates@ == other.y_coordinates@
    }

    /// A copy of the outline.
    pub fn duplicate(&self) -> (out: SimpleGlyph)
        ensures
            out.same_as(*self),
    {
        SimpleGlyph {
            end_pts_of_contours: copy_vec(&self.end_pts_of_contours),
            instruction_length: self.instruction_length,
            instructions: copy_vec(&self.instructions),
            flags: copy_vec(&self.flags),
            x_coordinates: copy_vec(&self.x_coordinates),
            y_coordinates: copy_vec(&self.y_coordinates),
        }
    }
}

impl GlyphData {
    /// The two outlines are of the same kind and hold the same values.
    pub open spec fn same_as(self, other: GlyphData) -> bool {
        match (self, other) {
            (GlyphData::Simple(a), GlyphData::Simple(b)) => a.same_as(b),
            (GlyphData::Composite(a), GlyphData::Composite(b)) => a.components@ == b.components@,
            (GlyphData::Empty, GlyphData::Empty) => true,
            _ => false,
        }
    }
}

impl Glyph {
    /// The two glyphs have the same header.
    pub open spec fn same_header(self, other: Glyph) -> bool {
        &&& self.number_of_contours == other.number_of_contours
        &&& self.x_min == other.x_min
        &&& self.y_min == other.y_min
        &&& self.x_max == other.x_max
        &&& self.y_max == other.y_max
    }

    /// The two glyphs hold the same values.
    pub open spec fn same_as(self, other: Glyph) -> bool {
        self.same_header(other) && self.data.same_as(other.data)
    }

    /// A copy of the glyph.
    pub fn duplicate(&self) -> (out: Glyph)
        ensures
            out.same_as(*self),
    {
        let data = match &self.data {
            GlyphData::Simple(simple) => GlyphData::Simple(simple.duplicate()),
            GlyphData::Composite(composite) => GlyphData::Composite(
                CompositeGlyph { components: copy_vec(&composite.components) },
            ),
            GlyphData::Empty => GlyphData::Empty,
        };
        Glyph {
            number_of_contours: self.number_of_contours,
            x_min: self.x_min,
            y_min: self.y_min,
            x_max: self.x_max,
            y_max: self.y_max,
            data,
        }
    }
}

/// The x coordinates of points moved by `t`: each point that has both coordinates goes to
/// its image, rounded and brought into the 16-bit range; a coordinate without a partner
/// stays.
pub open spec fn moved_xs(xs: Seq<i16>, ys: Seq<i16>, t: Transform) -> Seq<i16> {
    Seq::new(
        xs.len(),
        |i: int|
            if i < paired(xs, ys) {
                clamped16(t.image_x(xs[i] as int, ys[i] as int)) as i16
            } else {
                xs[i]
            },
    )
}

/// The y coordinates of points moved by `t`.
pub open spec fn moved_ys(xs: Seq<i16>, ys: Seq<i16>, t: Transform) -> Seq<i16> {
    Seq::new(
        ys.len(),
        |i: int|
            if i < paired(xs, ys) {
                clamped16(t.image_y(xs[i] as int, ys[i] as int)) as i16
            } else {
                ys[i]
            },
    )
}

/// The components with `t` applied after the map of each.
pub open spec fn moved_components(cs: Seq<GlyphComponent>, t: Transform) -> Seq<GlyphComponent> {
    Seq::new(
        cs.len(),
        |k: int|
            GlyphComponent {
                flags: cs[k].flags,
                glyph_index: cs[k].glyph_index,
                arg1: cs[k].arg1,
                arg2: cs[k].arg2,
                transform: cs[k].transform.after(t),
            },
    )
}

/// Moves points by `t`.
fn move_points(xs: &Vec<i16>, ys: &Vec<i16>, t: &Transform) -> (r: (Vec<i16>, Vec<i16>))
    ensures
        r.0@ == moved_xs(xs@, ys@, *t),
        r.1@ == moved_ys(xs@, ys@, *t),
{
    let n = if xs.len() <= ys.len() {
        xs.len()
    } else {
        ys.len()
    };
    let mut new_xs: Vec<i16> = Vec::with_capacity(xs.len());
    let mut new_ys: Vec<i16> = Vec::with_capacity(ys.len());
    let mut i: usize = 0;
    while i < n
        invariant
            i <= n,
            n == paired(xs@, ys@),
            new_xs@ == moved_xs(xs@, ys@, *t).subrange(0, i as int),
            new_ys@ == moved_ys(xs@, ys@, *t).subrange(0, i as int),
        decreases n - i,
    {
        let (x, y) = t.apply(xs[i] as i32, ys[i] as i32);
        new_xs.push(to_i16(x));
        new_ys.push(to_i16(y));
        i = i + 1;
        assert(new_xs@ =~= moved_xs(xs@, ys@, *t).subrange(0, i as int));
        assert(new_ys@ =~= moved_ys(xs@, ys@, *t).subrange(0, i as int));
    }
    let mut j: usize = n;
    while j < xs.len()
        invariant
            n <= j <= xs.len(),
            n == paired(xs@, ys@),
            new_xs@ == moved_xs(xs@, ys@, *t).subrange(0, j as int),
        decreases xs.len() - j,
    {
        new_xs.push(xs[j]);
        j = j + 1;
        assert(new_xs@ =~= moved_xs(xs@, ys@, *t).subrange(0, j as int));
    }
    let mut k: usize = n;
    while k < ys.len()
        invariant
            n <= k <= ys.len(),
            n == paired(xs@, ys@),
            new_ys@ == moved_ys(xs@, ys@, *t).subrange(0, k as int),
        decreases ys.len() - k,
    {
        new_ys.push(ys[k]);
        k = k + 1;
        assert(new_ys@ =~= moved_ys(xs@, ys@, *t).subrange(0, k as int));
    }
    assert(new_xs@ =~= moved_xs(xs@, ys@, *t));
    assert(new_ys@ =~= moved_ys(xs@, ys@, *t));
    (new_xs, new_ys)
}

impl Glyph {
    /// The glyph `after` is this glyph moved by `t`. The points of a glyph with an outline
    /// of its own go to their images and the bounding box is drawn around them anew; the
    /// components of a composite glyph get `t` applied after their own maps and the box
    /// stays; an empty glyph stays.
    pub open spec fn moved_to(self, after: Glyph, t: Transform) -> bool {
        &&& after.number_of_contours == self.number_of_contours
        &&& match self.data {
            GlyphData::Empty => after.same_as(self),
            GlyphData::Composite(composite) => {
                &&& after.same_header(self)
                &&& after.data matches GlyphData::Composite(moved)
                &&& moved.components@ == moved_components(composite.components@, t)
            },
            GlyphData::Simple(simple) => {
                &&& after.data matches GlyphData::Simple(moved)
                &&& moved.end_pts_of_contours@ == simple.end_pts_of_contours@
                &&& moved.instruction_length == simple.instruction_length
                &&& moved.instructions@ == simple.instructions@
                &&& moved.flags@ == simple.flags@
                &&& moved.x_coordinates@ == moved_xs(simple.x_coordinates@, simple.y_coordinates@, t)
                &&& moved.y_coordinates@ == moved_ys(simple.x_coordinates@, simple.y_coordinates@, t)
                &&& if paired(simple.x_coordinates@, simple.y_coordinates@) == 0 {
                    after.same_header(self)
                } else {
                    after.bounding_box() == Some(after.stored_box())
                }
            },
        }
    }

    /// Moves the glyph by an affine map.
    pub fn transform(&mut self, transform: &Transform) -> (r: Result<(), TtfError>)
        ensures
            r is Ok,
            old(self).moved_to(*final(self), *transform),
    {
        let data = match &self.data {
            GlyphData::Simple(simple) => {
                let (xs, ys) = move_points(&simple.x_coordinates, &simple.y_coordinates, transform);
                GlyphData::Simple(
                    SimpleGlyph {
                        end_pts_of_contours: copy_vec(&simple.end_pts_of_contours),
                        instruction_length: simple.instruction_length,
                        instructions: copy_vec(&simple.instructions),
                        flags: copy_vec(&simple.flags),
                        x_coordinates: xs,
                        y_coordinates: ys,
                    },
                )
            },
            GlyphData::Composite(composite) => {
                let mut components: Vec<GlyphComponent> = Vec::with_capacity(
                    composite.components.len(),
                );
                let mut k: usize = 0;
                while k < composite.components.len()
                    invariant
                        k <= composite.components.len(),
                        components@ == moved_components(composite.components@, *transform).subrange(
                            0,
                            k as int,
                        ),
                    decreases composite.components.len() - k,
                {
                    let c = composite.components[k];
                    components.push(
                        GlyphComponent {
                            flags: c.flags,
                            glyph_index: c.glyph_index,
                            arg1: c.arg1,
                            arg2: c.arg2,
                            transform: Transform::combine_transforms(&c.transform, transform),
                        },
                    );
                    k = k + 1;
                    assert(components@ =~= moved_components(
                        composite.components@,
                        *transform,
                    ).subrange(0, k as int));
                }
                assert(components@ =~= moved_components(composite.components@, *transform));
                GlyphData::Composite(CompositeGlyph { components })
            },
            GlyphData::Empty => GlyphData::Empty,
        };
        let extents = match &data {
            GlyphData::Simple(moved) => {
                let n = if moved.x_coordinates.len() <= moved.y_coordinates.len() {
                    moved.x_coordinates.len()
                } else {
                    moved.y_coordinates.len()
                };
                if n == 0 {
                    None
                } else {
                    Some((extent(&moved.x_coordinates, n), extent(&moved.y_coordinates, n)))
                }
            },
            _ => None,
        };
        self.data = data;
        match extents {
            Some(((x_min, x_max), (y_min, y_max))) => {
                self.x_min = x_min;
                self.y_min = y_min;
                self.x_max = x_max;
                self.y_max = y_max;
            },
            None => {},
        }
        Ok(())
    }

    /// Scales the glyph by the fixed-point factors `scale_x` and `scale_y`.
    pub fn scale(&mut self, scale_x: i32, scale_y: i32) -> (r: Result<(), TtfError>)
        ensures
            r is Ok,
            old(self).moved_to(*final(self), Transform::scaling(scale_x, scale_y)),
    {
        let transform = Transform { xx: scale_x, xy: 0, yx: 0, yy: scale_y, dx: 0, dy: 0 };
        self.transform(&transform)
    }

    /// Turns the glyph about the origin by the angle whose cosine and sine are the fixed-point
    /// numbers `cos` and `sin`.
    pub fn rotate(&mut self, cos: i32, sin: i32) -> (r: Result<(), TtfError>)
        ensures
            r is Ok,
            old(self).moved_to(*final(self), Transform::rotation(cos, sin)),
    {
        let minus_sin: i32 = if sin == i32::MIN {
            i32::MAX
        } else {
            -sin
        };
        let transform = Transform { xx: cos, xy: minus_sin, yx: sin, yy: cos, dx: 0, dy: 0 };
        self.transform(&transform)
    }

    /// Moves the glyph by `(dx, dy)`, fixed-point numbers.
    pub fn translate(&mut self, dx: i32, dy: i32) -> (r: Result<(), TtfError>)
        ensures
            r is Ok,
            old(self).moved_to(*final(self), Transform::translation(dx, dy)),
    {
        let transform = Transform { xx: UNIT, xy: 0, yx: 0, yy: UNIT, dx, dy };
        self.transform(&transform)
    }
}

} // verus!
