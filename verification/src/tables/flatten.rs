//! Flattening a composite glyph into one outline.

use crate::error::TtfError;
use crate::tables::geometry::{clamped16, extent, greatest_of, least_of, paired, to_i16};
use crate::tables::glyf::{GlyfTable, Glyph, GlyphComponent, GlyphData, SimpleGlyph, Transform};
use vstd::prelude::*;

verus! {

/// How deep components may refer to composite glyphs: a composite glyph that is met below
/// this depth adds nothing.
pub const MAX_COMPONENT_DEPTH: usize = 16;

/// The x coordinates that an outline brings into a flattened glyph under the map `t`: the
/// images of its points, rounded and brought into the 16-bit range.
pub open spec fn images_x(xs: Seq<i16>, ys: Seq<i16>, t: Transform) -> Seq<i16> {
    Seq::new(paired(xs, ys) as nat, |i: int| clamped16(t.image_x(xs[i] as int, ys[i] as int)) as i16)
}

/// The y coordinates that an outline brings into a flattened glyph under the map `t`.
pub open spec fn images_y(xs: Seq<i16>, ys: Seq<i16>, t: Transform) -> Seq<i16> {
    Seq::new(paired(xs, ys) as nat, |i: int| clamped16(t.image_y(xs[i] as int, ys[i] as int)) as i16)
}

/// The flags that an outline brings into a flattened glyph: one for each point, and zero for
/// a point without a flag.
pub open spec fn flags_of(simple: SimpleGlyph) -> Seq<u8> {
    Seq::new(
        paired(simple.x_coordinates@, simple.y_coordinates@) as nat,
        |i: int|
            if i < simple.flags@.len() {
                simple.flags@[i]
            } else {
                0u8
            },
    )
}

/// The contour ends of an outline, each raised by `base`.
pub open spec fn raised_ends(ends: Seq<int>, base: int) -> Seq<int> {
    Seq::new(ends.len(), |j: int| ends[j] + base)
}

/// An outline on its way into a flattened glyph: the points with their flags, and the index
/// of the last point of each contour.
pub struct Outline {
    pub xs: Seq<i16>,
    pub ys: Seq<i16>,
    pub flags: Seq<u8>,
    pub ends: Seq<int>,
}

impl Outline {
    /// The outline without points.
    pub open spec fn none() -> Outline {
        Outline { xs: Seq::empty(), ys: Seq::empty(), flags: Seq::empty(), ends: Seq::empty() }
    }

    /// The outline of a glyph that has one of its own: its points as far as they have both
    /// coordinates, and its contour ends.
    pub open spec fn of(simple: SimpleGlyph) -> Outline {
        let n = paired(simple.x_coordinates@, simple.y_coordinates@);
        Outline {
            xs: simple.x_coordinates@.subrange(0, n),
            ys: simple.y_coordinates@.subrange(0, n),
            flags: flags_of(simple),
            ends: Seq::new(
                simple.end_pts_of_contours@.len(),
                |j: int| simple.end_pts_of_contours@[j] as int,
            ),
        }
    }

    /// The outline with every point moved by the map `t`.
    pub open spec fn moved(self, t: Transform) -> Outline {
        Outline {
            xs: images_x(self.xs, self.ys, t),
            ys: images_y(self.xs, self.ys, t),
            flags: self.flags,
            ends: self.ends,
        }
    }

    /// This outline with the outline `next` behind it: the contour ends of `next` are raised
    /// by the number of points before them.
    pub open spec fn followed_by(self, next: Outline) -> Outline {
        Outline {
            xs: self.xs + next.xs,
            ys: self.ys + next.ys,
            flags: self.flags + next.flags,
            ends: self.ends + raised_ends(next.ends, self.xs.len() as int),
        }
    }

    /// Every point has both coordinates and a flag, and no contour end lies further beyond
    /// the points than a 16-bit number reaches.
    pub open spec fn sound(self) -> bool {
        &&& self.xs.len() == self.ys.len()
        &&& self.xs.len() == self.flags.len()
        &&& forall|j: int|
            0 <= j < self.ends.len() ==> 0 <= #[trigger] self.ends[j] <= 0xFFFF + self.xs.len()
    }

    /// The outline can be stored: every contour end fits in 16 bits and the number of
    /// contours in 15.
    pub open spec fn fits(self) -> bool {
        self.ends.len() <= 0x7FFF && forall|j: int|
            0 <= j < self.ends.len() ==> #[trigger] self.ends[j] <= 0xFFFF
    }

    /// The glyph `flat` holds this outline: its points, flags and contours, without
    /// instructions, in a box drawn around the points.
    pub open spec fn stored_in(self, flat: Glyph) -> bool {
        &&& flat.data matches GlyphData::Simple(simple)
        &&& simple.x_coordinates@ == self.xs
        &&& simple.y_coordinates@ == self.ys
        &&& simple.flags@ == self.flags
        &&& simple.end_pts_of_contours@.len() == self.ends.len()
        &&& forall|j: int|
            0 <= j < self.ends.len() ==> #[trigger] simple.end_pts_of_contours@[j] == self.ends[j]
        &&& simple.instruction_length == 0
        &&& simple.instructions@.len() == 0
        &&& flat.number_of_contours == self.ends.len()
        &&& flat.x_min == least_of(self.xs, self.xs.len() as int)
        &&& flat.x_max == greatest_of(self.xs, self.xs.len() as int)
        &&& flat.y_min == least_of(self.ys, self.ys.len() as int)
        &&& flat.y_max == greatest_of(self.ys, self.ys.len() as int)
    }
}

impl GlyfTable {
    /// The outline of the glyph `id`, resolved while the glyphs of `path` are being
    /// resolved, with `depth` levels of composite glyphs left. A glyph with an outline of
    /// its own has that outline. A composite glyph has the outlines of its components, each
    /// moved by the component's map, one behind the other; but it has no points where it is
    /// one of the glyphs of `path`, so that a glyph that refers to itself adds nothing, and
    /// none where no level is left. An empty glyph and an id outside the table have no
    /// points.
    pub open spec fn outline_of(self, id: usize, path: Seq<usize>, depth: nat) -> Outline
        decreases depth, 0nat,
    {
        if id >= self.glyphs@.len() {
            Outline::none()
        } else {
            match self.glyphs@[id as int].data {
                GlyphData::Simple(simple) => Outline::of(simple),
                GlyphData::Composite(composite) => if depth == 0 || path.contains(id) {
                    Outline::none()
                } else {
                    self.joined(
                        composite.components@,
                        composite.components@.len(),
                        path.push(id),
                        (depth - 1) as nat,
                    )
                },
                GlyphData::Empty => Outline::none(),
            }
        }
    }

    /// The outlines of the first `k` of the components `cs`, each resolved and moved by the
    /// component's map, one behind the other.
    pub open spec fn joined(self, cs: Seq<GlyphComponent>, k: nat, path: Seq<usize>, depth: nat) -> Outline
        decreases depth, k + 1,
    {
        if k == 0 {
            Outline::none()
        } else {
            self.joined(cs, (k - 1) as nat, path, depth).followed_by(
                self.outline_of(cs[k - 1].glyph_index as usize, path, depth).moved(
                    cs[k - 1].transform,
                ),
            )
        }
    }

    /// The glyph with this id as one outline. A glyph with an outline of its own, and an
    /// empty glyph, is returned as it is. A composite glyph is flattened: each component
    /// adds the outline of the glyph that it refers to, moved by the component's map, and a
    /// component that refers to a composite glyph adds that glyph flattened in its turn. A
    /// glyph that is met again while it is being flattened adds nothing, and so does a
    /// composite glyph that lies more than 16 levels deep, a component that refers to no
    /// glyph, and an empty glyph. There is no glyph for an id outside the table, and none
    /// for a composite glyph without points.
    ///
    /// Fails with `InvalidSize` where the flattened outline has a contour end above 0xFFFF
    /// or more than 0x7FFF contours.
    pub fn resolve_composite(&self, glyph_index: usize) -> (r: Result<Option<Glyph>, TtfError>)
        ensures
            glyph_index >= self.glyphs@.len() ==> r matches Ok(None),
            glyph_index < self.glyphs@.len() ==> match self.glyphs@[glyph_index as int].data {
                GlyphData::Composite(_) => {
                    let outline = self.outline_of(
                        glyph_index,
                        Seq::empty(),
                        MAX_COMPONENT_DEPTH as nat,
                    );
                    if outline.xs.len() == 0 {
                        r matches Ok(None)
                    } else if outline.fits() {
                        r matches Ok(Some(flat)) && outline.stored_in(flat)
                    } else {
                        r is Err && r->Err_0 is InvalidSize
                    }
                },
                _ => r matches Ok(Some(same)) && same.same_as(self.glyphs@[glyph_index as int]),
            },
    {
        if glyph_index >= self.glyphs.len() {
            return Ok(None);
        }
        let glyph = &self.glyphs[glyph_index];
        match &glyph.data {
            GlyphData::Composite(_) => {},
            _ => { return Ok(Some(glyph.duplicate())); },
        }
        let path: Vec<usize> = Vec::new();
        assert(path@ =~= Seq::empty());
        let flat = self.outline_at(glyph_index, &path, MAX_COMPONENT_DEPTH);
        if flat.xs.len() == 0 {
            return Ok(None);
        }
        let ghost outline = flat.shown();
        let ends = match stored_ends(&flat.ends) {
            Some(ends) => ends,
            None => {
                proof {
                    if outline.fits() {
                        assert forall|j: int| 0 <= j < flat.ends@.len() implies #[trigger] flat.ends@[j]
                            <= 0xFFFF by {
                            assert(outline.ends[j] <= 0xFFFF);
                        }
                    }
                }
                return Err(TtfError::InvalidSize { expected: 0xFFFF, actual: flat.xs.len() as u64 });
            },
        };
        proof {
            assert forall|j: int| 0 <= j < outline.ends.len() implies #[trigger] outline.ends[j]
                <= 0xFFFF && ends@[j] == outline.ends[j] by {
                assert(flat.ends@[j] <= 0xFFFF);
                assert(ends@[j] == flat.ends@[j]);
            }
        }
        let (x_min, x_max) = extent(&flat.xs, flat.xs.len());
        let (y_min, y_max) = extent(&flat.ys, flat.ys.len());
        Ok(
            Some(
                Glyph {
                    number_of_contours: ends.len() as i16,
                    x_min,
                    y_min,
                    x_max,
                    y_max,
                    data: GlyphData::Simple(
                        SimpleGlyph {
                            end_pts_of_contours: ends,
                            instruction_length: 0,
                            instructions: Vec::new(),
                            flags: flat.flags,
                            x_coordinates: flat.xs,
                            y_coordinates: flat.ys,
                        },
                    ),
                },
            ),
        )
    }

    /// The outline of the glyph `id`, as [`GlyfTable::outline_of`] gives it.
    fn outline_at(&self, id: usize, path: &Vec<usize>, depth: usize) -> (flat: Flat)
        ensures
            flat.shown() == self.outline_of(id, path@, depth as nat),
            flat.shown().sound(),
        decreases depth,
    {
        if id >= self.glyphs.len() {
            return Flat::empty();
        }
        match &self.glyphs[id].data {
            GlyphData::Simple(simple) => leaf(simple),
            GlyphData::Composite(composite) => {
                if depth == 0 || on_path(path, id) {
                    return Flat::empty();
                }
                let mut below: Vec<usize> = Vec::new();
                let mut i: usize = 0;
                while i < path.len()
                    invariant
                        i <= path.len(),
                        below@ == path@.subrange(0, i as int),
                    decreases path.len() - i,
                {
                    below.push(path[i]);
                    i = i + 1;
                    assert(below@ =~= path@.subrange(0, i as int));
                }
                below.push(id);
                assert(below@ =~= path@.push(id));
                let ghost cs = composite.components@;
                let n = composite.components.len();
                let mut flat = Flat::empty();
                let mut k: usize = 0;
                while k < n
                    invariant
                        k <= n,
                        n == cs.len(),
                        cs == composite.components@,
                        depth > 0,
                        below@ == path@.push(id),
                        flat.shown() == self.joined(cs, k as nat, below@, (depth - 1) as nat),
                        flat.shown().sound(),
                    decreases n - k,
                {
                    let component = composite.components[k];
                    let part = self.outline_at(component.glyph_index as usize, &below, depth - 1);
                    absorb(&mut flat, &part, &component.transform);
                    k = k + 1;
                }
                flat
            },
            GlyphData::Empty => Flat::empty(),
        }
    }
}

/// An outline that is being put together.
struct Flat {
    xs: Vec<i16>,
    ys: Vec<i16>,
    flags: Vec<u8>,
    ends: Vec<u128>,
}

impl Flat {
    /// The outline that the vectors hold.
    closed spec fn shown(self) -> Outline {
        Outline {
            xs: self.xs@,
            ys: self.ys@,
            flags: self.flags@,
            ends: Seq::new(self.ends@.len(), |j: int| self.ends@[j] as int),
        }
    }

    fn empty() -> (flat: Flat)
        ensures
            flat.shown() == Outline::none(),
            flat.shown().sound(),
    {
        let flat = Flat { xs: Vec::new(), ys: Vec::new(), flags: Vec::new(), ends: Vec::new() };
        assert(flat.shown().ends =~= Seq::empty());
        flat
    }
}

/// Whether the glyph `id` is one of those that are being resolved.
fn on_path(path: &Vec<usize>, id: usize) -> (b: bool)
    ensures
        b == path@.contains(id),
{
    let mut i: usize = 0;
    while i < path.len()
        invariant
            i <= path.len(),
            forall|j: int| 0 <= j < i ==> path@[j] != id,
        decreases path.len() - i,
    {
        if path[i] == id {
            return true;
        }
        i = i + 1;
    }
    false
}

/// The outline of a glyph that has one of its own.
fn leaf(simple: &SimpleGlyph) -> (flat: Flat)
    ensures
        flat.shown() == Outline::of(*simple),
        flat.shown().sound(),
{
    let n = if simple.x_coordinates.len() <= simple.y_coordinates.len() {
        simple.x_coordinates.len()
    } else {
        simple.y_coordinates.len()
    };
    let ghost want = Outline::of(*simple);
    let mut xs: Vec<i16> = Vec::with_capacity(n);
    let mut ys: Vec<i16> = Vec::with_capacity(n);
    let mut flags: Vec<u8> = Vec::with_capacity(n);
    let mut i: usize = 0;
    while i < n
        invariant
            i <= n,
            n == paired(simple.x_coordinates@, simple.y_coordinates@),
            want == Outline::of(*simple),
            xs@ == want.xs.subrange(0, i as int),
            ys@ == want.ys.subrange(0, i as int),
            flags@ == want.flags.subrange(0, i as int),
        decreases n - i,
    {
        xs.push(simple.x_coordinates[i]);
        ys.push(simple.y_coordinates[i]);
        let flag: u8 = if i < simple.flags.len() {
            simple.flags[i]
        } else {
            0
        };
        flags.push(flag);
        i = i + 1;
        assert(xs@ =~= want.xs.subrange(0, i as int));
        assert(ys@ =~= want.ys.subrange(0, i as int));
        assert(flags@ =~= want.flags.subrange(0, i as int));
    }
    assert(xs@ =~= want.xs);
    assert(ys@ =~= want.ys);
    assert(flags@ =~= want.flags);
    let mut ends: Vec<u128> = Vec::with_capacity(simple.end_pts_of_contours.len());
    let mut j: usize = 0;
    while j < simple.end_pts_of_contours.len()
        invariant
            j <= simple.end_pts_of_contours.len(),
            ends@.len() == j,
            forall|a: int| 0 <= a < j ==> ends@[a] == simple.end_pts_of_contours@[a],
        decreases simple.end_pts_of_contours.len() - j,
    {
        ends.push(simple.end_pts_of_contours[j] as u128);
        j = j + 1;
    }
    let flat = Flat { xs, ys, flags, ends };
    assert(flat.shown().ends =~= want.ends);
    flat
}

/// Puts the outline `part`, moved by the map `t`, behind the outline `acc`.
fn absorb(acc: &mut Flat, part: &Flat, t: &Transform)
    requires
        old(acc).shown().sound(),
        part.shown().sound(),
    ensures
        final(acc).shown() == old(acc).shown().followed_by(part.shown().moved(*t)),
        final(acc).shown().sound(),
{
    let ghost before = acc.shown();
    let ghost moved = part.shown().moved(*t);
    let ghost want = before.followed_by(moved);
    let base = acc.xs.len();
    let n = part.xs.len();
    let mut i: usize = 0;
    assert(acc.xs@ =~= before.xs + moved.xs.subrange(0, 0));
    assert(acc.ys@ =~= before.ys + moved.ys.subrange(0, 0));
    assert(acc.flags@ =~= before.flags + moved.flags.subrange(0, 0));
    while i < n
        invariant
            i <= n,
            n == part.xs@.len(),
            n == part.ys@.len(),
            n == part.flags@.len(),
            moved == part.shown().moved(*t),
            moved.xs.len() == n,
            moved.ys.len() == n,
            acc.ends@ == old(acc).ends@,
            acc.xs@ == before.xs + moved.xs.subrange(0, i as int),
            acc.ys@ == before.ys + moved.ys.subrange(0, i as int),
            acc.flags@ == before.flags + moved.flags.subrange(0, i as int),
        decreases n - i,
    {
        let (x, y) = t.apply(part.xs[i] as i32, part.ys[i] as i32);
        acc.xs.push(to_i16(x));
        acc.ys.push(to_i16(y));
        acc.flags.push(part.flags[i]);
        i = i + 1;
        assert(acc.xs@ =~= before.xs + moved.xs.subrange(0, i as int));
        assert(acc.ys@ =~= before.ys + moved.ys.subrange(0, i as int));
        assert(acc.flags@ =~= before.flags + moved.flags.subrange(0, i as int));
    }
    assert(moved.xs.subrange(0, n as int) =~= moved.xs);
    assert(moved.ys.subrange(0, n as int) =~= moved.ys);
    assert(moved.flags.subrange(0, n as int) =~= moved.flags);
    let ghost raised = raised_ends(moved.ends, base as int);
    let mut j: usize = 0;
    while j < part.ends.len()
        invariant
            j <= part.ends.len(),
            n == part.xs@.len(),
            base == before.xs.len(),
            before == old(acc).shown(),
            part.shown().sound(),
            moved.ends == part.shown().ends,
            raised == raised_ends(moved.ends, base as int),
            acc.xs@ == before.xs + moved.xs,
            acc.ys@ == before.ys + moved.ys,
            acc.flags@ == before.flags + moved.flags,
            acc.ends@.len() == old(acc).ends@.len() + j,
            forall|a: int| 0 <= a < old(acc).ends@.len() ==> acc.ends@[a] == old(acc).ends@[a],
            forall|a: int| 0 <= a < j ==> acc.ends@[old(acc).ends@.len() + a] == raised[a],
        decreases part.ends.len() - j,
    {
        assert(part.shown().ends[j as int] == part.ends@[j as int]);
        assert(part.shown().ends[j as int] <= 0xFFFF + part.shown().xs.len());
        assert(part.shown().xs.len() == n);
        acc.ends.push(part.ends[j] + base as u128);
        j = j + 1;
    }
    assert(acc.shown().ends =~= want.ends);
    assert(acc.shown() == want);
    assert(acc.shown().sound()) by {
        assert forall|a: int| 0 <= a < want.ends.len() implies 0 <= #[trigger] want.ends[a]
            <= 0xFFFF + want.xs.len() by {
            if a < before.ends.len() {
                assert(0 <= before.ends[a] <= 0xFFFF + before.xs.len());
            } else {
                let b = a - before.ends.len();
                assert(0 <= part.shown().ends[b] <= 0xFFFF + part.shown().xs.len());
            }
        }
    }
}

/// The contour ends as a glyph stores them, where every one of them fits in 16 bits and
/// their number in 15.
fn stored_ends(ends: &Vec<u128>) -> (r: Option<Vec<u16>>)
    ensures
        r is Some <==> ends@.len() <= 0x7FFF && forall|j: int|
            0 <= j < ends@.len() ==> #[trigger] ends@[j] <= 0xFFFF,
        r matches Some(stored) ==> stored@.len() == ends@.len() && forall|j: int|
            0 <= j < ends@.len() ==> #[trigger] stored@[j] == ends@[j],
{
    if ends.len() > 0x7FFF {
        return None;
    }
    let mut stored: Vec<u16> = Vec::with_capacity(ends.len());
    let mut j: usize = 0;
    while j < ends.len()
        invariant
            j <= ends.len(),
            stored@.len() == j,
            forall|a: int| 0 <= a < j ==> #[trigger] ends@[a] <= 0xFFFF,
            forall|a: int| 0 <= a < j ==> #[trigger] stored@[a] == ends@[a],
        decreases ends.len() - j,
    {
        if ends[j] > 0xFFFF {
            return None;
        }
        stored.push(ends[j] as u16);
        j = j + 1;
    }
    Some(stored)
}

} // verus!
