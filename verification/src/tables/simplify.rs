//! Thinning an outline: points that add nothing to their contour are dropped.

use crate::error::TtfError;
use crate::tables::geometry::product;
use crate::tables::glyf::{Glyph, GlyphData, SimpleGlyph};
use crate::tables::outline_ops::copy_vec;
use vstd::prelude::*;

verus! {

/// Twice the area of the triangle of the points `i - 1`, `i` and `i + 1`.
pub open spec fn doubled_area(xs: Seq<i16>, ys: Seq<i16>, i: int) -> int {
    let cross = (xs[i] - xs[i - 1]) * (ys[i + 1] - ys[i - 1]) - (ys[i] - ys[i - 1]) * (xs[i + 1]
        - xs[i - 1]);
    if cross < 0 {
        -cross
    } else {
        cross
    }
}

/// Point `i` adds nothing: the triangle that it makes with its two neighbours has less than
/// the tolerance, a fixed-point number with 14 fractional bits, as twice its area.
pub open spec fn adds_nothing(xs: Seq<i16>, ys: Seq<i16>, i: int, tolerance: int) -> bool {
    doubled_area(xs, ys, i) * 16384 < tolerance
}

/// The index of the first point of contour `k`.
pub open spec fn contour_start(ends: Seq<u16>, k: int) -> int {
    if k <= 0 {
        0
    } else {
        ends[k - 1] + 1
    }
}

/// Point `i` lies strictly between the first and the last point of one of the first `k`
/// contours.
pub open spec fn inside_contour(ends: Seq<u16>, i: int, k: int) -> bool
    decreases k,
{
    if k <= 0 {
        false
    } else {
        inside_contour(ends, i, k - 1) || contour_start(ends, k - 1) < i < ends[k - 1]
    }
}

impl SimpleGlyph {
    /// The number of points that have a flag and both coordinates.
    pub open spec fn whole_points(self) -> int {
        let a = self.x_coordinates@.len() as int;
        let b = self.y_coordinates@.len() as int;
        let c = self.flags@.len() as int;
        if a <= b && a <= c {
            a
        } else if b <= c {
            b
        } else {
            c
        }
    }

    /// Thinning with this tolerance drops point `i`: it lies inside a contour, it and its
    /// successor are whole points, and it adds nothing.
    pub open spec fn drops(self, i: int, tolerance: int) -> bool {
        &&& 0 < i && i + 1 < self.whole_points()
        &&& inside_contour(self.end_pts_of_contours@, i, self.end_pts_of_contours@.len() as int)
        &&& adds_nothing(self.x_coordinates@, self.y_coordinates@, i, tolerance)
    }
}

/// The first `k` of the values without those whose index is marked.
pub open spec fn unmarked<T>(vs: Seq<T>, marks: Seq<bool>, k: int) -> Seq<T>
    decreases k,
{
    if k <= 0 {
        Seq::empty()
    } else if k - 1 < marks.len() && marks[k - 1] {
        unmarked(vs, marks, k - 1)
    } else {
        unmarked(vs, marks, k - 1).push(vs[k - 1])
    }
}

/// The number of marked indices below `k`.
pub open spec fn marked_below(marks: Seq<bool>, k: int) -> int
    decreases k,
{
    if k <= 0 {
        0
    } else if k - 1 < marks.len() && marks[k - 1] {
        marked_below(marks, k - 1) + 1
    } else {
        marked_below(marks, k - 1)
    }
}

/// There are at most `k` marked indices below `k`.
proof fn lemma_marked_below(marks: Seq<bool>, k: int)
    requires
        0 <= k,
    ensures
        0 <= marked_below(marks, k) <= k,
    decreases k,
{
    if k > 0 {
        lemma_marked_below(marks, k - 1);
    }
}

/// The values without those whose index is marked.
fn without_marked<T: Copy>(vs: &Vec<T>, marks: &Vec<bool>) -> (out: Vec<T>)
    ensures
        out@ == unmarked(vs@, marks@, vs@.len() as int),
{
    let mut out: Vec<T> = Vec::new();
    let mut i: usize = 0;
    while i < vs.len()
        invariant
            i <= vs.len(),
            out@ == unmarked(vs@, marks@, i as int),
        decreases vs.len() - i,
    {
        if !(i < marks.len() && marks[i]) {
            out.push(vs[i]);
        }
        i = i + 1;
    }
    out
}

/// Whether point `i` adds nothing.
fn point_adds_nothing(xs: &Vec<i16>, ys: &Vec<i16>, i: usize, tolerance: i32) -> (b: bool)
    requires
        0 < i,
        i + 1 < xs.len(),
        i + 1 < ys.len(),
    ensures
        b == adds_nothing(xs@, ys@, i as int, tolerance as int),
{
    let x1 = xs[i - 1] as i32;
    let y1 = ys[i - 1] as i32;
    let x2 = xs[i] as i32;
    let y2 = ys[i] as i32;
    let x3 = xs[i + 1] as i32;
    let y3 = ys[i + 1] as i32;
    let cross: i128 = product(x2 - x1, y3 - y1) - product(y2 - y1, x3 - x1);
    let area: i128 = if cross < 0 {
        -cross
    } else {
        cross
    };
    area * 16384 < tolerance as i128
}

impl Glyph {
    /// The glyph `after` is this glyph thinned with the given tolerance. A glyph with an
    /// outline of three points or more loses the points that thinning drops, with their
    /// flags, and each contour end moves down by the number of points dropped before it;
    /// any other glyph stays as it is. The header stays in either case.
    pub open spec fn thinned_to(self, after: Glyph, tolerance: int) -> bool {
        &&& after.same_header(self)
        &&& match self.data {
            GlyphData::Simple(simple) => if simple.x_coordinates@.len() < 3 {
                after.data.same_as(self.data)
            } else {
                let marks = Seq::new(
                    simple.x_coordinates@.len(),
                    |i: int| simple.drops(i, tolerance),
                );
                &&& after.data matches GlyphData::Simple(thin)
                &&& thin.instruction_length == simple.instruction_length
                &&& thin.instructions@ == simple.instructions@
                &&& thin.x_coordinates@ == unmarked(
                    simple.x_coordinates@,
                    marks,
                    simple.x_coordinates@.len() as int,
                )
                &&& thin.y_coordinates@ == unmarked(
                    simple.y_coordinates@,
                    marks,
                    simple.y_coordinates@.len() as int,
                )
                &&& thin.flags@ == unmarked(simple.flags@, marks, simple.flags@.len() as int)
                &&& thin.end_pts_of_contours@.len() == simple.end_pts_of_contours@.len()
                &&& forall|j: int|
                    0 <= j < simple.end_pts_of_contours@.len() ==> #[trigger] thin.end_pts_of_contours@[j]
                        == simple.end_pts_of_contours@[j] - marked_below(
                        marks,
                        simple.end_pts_of_contours@[j] as int,
                    )
            },
            _ => after.data.same_as(self.data),
        }
    }

    /// Thins the outline: drops the points that lie inside a contour and make a triangle of
    /// less than the tolerance as twice its area with their two neighbours. The tolerance is
    /// a fixed-point number with 14 fractional bits.
    #[verifier::loop_isolation(false)]
    pub fn simplify(&mut self, tolerance: i32) -> (r: Result<(), TtfError>)
        ensures
            r is Ok,
            old(self).thinned_to(*final(self), tolerance as int),
    {
        let thin = match &self.data {
            GlyphData::Simple(simple) => {
                if simple.x_coordinates.len() < 3 {
                    return Ok(());
                }
                let marks = mark_points(simple, tolerance);
                let ends = &simple.end_pts_of_contours;
                let mut new_ends: Vec<u16> = Vec::with_capacity(ends.len());
                let mut j: usize = 0;
                while j < ends.len()
                    invariant
                        j <= ends.len(),
                        new_ends@.len() == j,
                        forall|k: int|
                            0 <= k < j ==> #[trigger] new_ends@[k] == ends@[k] - marked_below(
                                marks@,
                                ends@[k] as int,
                            ),
                    decreases ends.len() - j,
                {
                    let count = count_marked(&marks, ends[j] as usize);
                    new_ends.push((ends[j] as usize - count) as u16);
                    j = j + 1;
                }
                SimpleGlyph {
                    end_pts_of_contours: new_ends,
                    instruction_length: simple.instruction_length,
                    instructions: copy_vec(&simple.instructions),
                    flags: without_marked(&simple.flags, &marks),
                    x_coordinates: without_marked(&simple.x_coordinates, &marks),
                    y_coordinates: without_marked(&simple.y_coordinates, &marks),
                }
            },
            _ => { return Ok(()); },
        };
        self.data = GlyphData::Simple(thin);
        Ok(())
    }
}

/// The number of marked indices below `k`.
fn count_marked(marks: &Vec<bool>, k: usize) -> (count: usize)
    ensures
        count == marked_below(marks@, k as int),
        count <= k,
{
    let mut count: usize = 0;
    let mut i: usize = 0;
    while i < k
        invariant
            i <= k,
            count == marked_below(marks@, i as int),
            count <= i,
        decreases k - i,
    {
        if i < marks.len() && marks[i] {
            count = count + 1;
        }
        i = i + 1;
    }
    count
}

/// For each point, whether thinning with this tolerance drops it.
#[verifier::loop_isolation(false)]
fn mark_points(simple: &SimpleGlyph, tolerance: i32) -> (marks: Vec<bool>)
    ensures
        marks@ == Seq::new(
            simple.x_coordinates@.len(),
            |i: int| simple.drops(i, tolerance as int),
        ),
{
    let xs = &simple.x_coordinates;
    let ys = &simple.y_coordinates;
    let ends = &simple.end_pts_of_contours;
    let mut n: usize = xs.len();
    if ys.len() < n {
        n = ys.len();
    }
    if simple.flags.len() < n {
        n = simple.flags.len();
    }
    let mut marks: Vec<bool> = Vec::with_capacity(xs.len());
    let mut i: usize = 0;
    while i < xs.len()
        invariant
            i <= xs.len(),
            marks@.len() == i,
            forall|j: int| 0 <= j < i ==> !marks@[j],
        decreases xs.len() - i,
    {
        marks.push(false);
        i = i + 1;
    }
    let mut start: usize = 0;
    let mut k: usize = 0;
    while k < ends.len()
        invariant
            k <= ends.len(),
            n == simple.whole_points(),
            start == contour_start(ends@, k as int),
            marks@.len() == xs@.len(),
            forall|j: int|
                0 <= j < marks@.len() ==> marks@[j] == (0 < j && j + 1 < n && inside_contour(
                    ends@,
                    j,
                    k as int,
                ) && adds_nothing(xs@, ys@, j, tolerance as int)),
        decreases ends.len() - k,
    {
        let end = ends[k] as usize;
        let ghost before = marks@;
        let mut i: usize = start + 1;
        while i < end && i + 1 < n
            invariant
                start + 1 <= i,
                marks@.len() == xs@.len(),
                forall|j: int|
                    0 <= j < marks@.len() && j < i ==> marks@[j] == (0 < j && j + 1 < n
                        && inside_contour(ends@, j, k + 1) && adds_nothing(
                        xs@,
                        ys@,
                        j,
                        tolerance as int,
                    )),
                forall|j: int| i <= j < marks@.len() ==> marks@[j] == before[j],
            decreases n - i,
        {
            let ghost here = marks@;
            let drop = point_adds_nothing(xs, ys, i, tolerance);
            if drop {
                marks.set(i, true);
            }
            proof {
                assert(inside_contour(ends@, i as int, k + 1));
                assert(here[i as int] == before[i as int]);
                assert forall|j: int| 0 <= j < marks@.len() && j < i + 1 implies marks@[j] == (0 < j
                    && j + 1 < n && inside_contour(ends@, j, k + 1) && adds_nothing(
                    xs@,
                    ys@,
                    j,
                    tolerance as int,
                )) by {
                    if j < i {
                        assert(marks@[j] == here[j]);
                    }
                }
            }
            i = i + 1;
        }
        proof {
            assert forall|j: int| 0 <= j < marks@.len() implies marks@[j] == (0 < j && j + 1 < n
                && inside_contour(ends@, j, k + 1) && adds_nothing(
                xs@,
                ys@,
                j,
                tolerance as int,
            )) by {
                if j >= i {
                    assert(marks@[j] == before[j]);
                    assert(!(start < j < end && j + 1 < n));
                }
            }
        }
        start = end + 1;
        k = k + 1;
    }
    assert(marks@ =~= Seq::new(
        simple.x_coordinates@.len(),
        |i: int| simple.drops(i, tolerance as int),
    ));
    marks
}

} // verus!
