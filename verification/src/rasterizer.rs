//! Drawing the outline of a glyph into a bitmap.

use crate::error::{parse_error, TtfError};
use crate::font::Font;
use crate::stream::copy_range;
use crate::tables::glyf::{GlyfTable, Glyph, GlyphData, SimpleGlyph};
use crate::tables::head::HeadTable;
use crate::tables::hmtx::HmtxTable;
use crate::tables::loca::LocaTable;
use crate::tables::{TAG_GLYF, TAG_HEAD, TAG_MAXP};
use crate::wire::be_u16;
use vstd::prelude::*;

verus! {

/// Draws glyph outlines at a pixel size and keeps what it has drawn.
pub struct Rasterizer {
    font: Font,
    cache: Vec<RasterizedGlyph>,
}

/// The outline of one glyph as a bitmap of `width` times `height` bytes, row by row; a byte
/// is 255 where a line passes and 0 elsewhere.
#[derive(Debug, Clone)]
pub struct RasterizedGlyph {
    pub glyph_id: u32,
    pub bitmap: Vec<u8>,
    pub width: usize,
    pub height: usize,
    pub advance_width: u16,
    pub left_side_bearing: i16,
}

/// Every byte of the bitmap is 0 or 255.
pub open spec fn two_tone(bitmap: Seq<u8>) -> bool {
    forall|i: int| 0 <= i < bitmap.len() ==> #[trigger] bitmap[i] == 0 || bitmap[i] == 255
}

/// `after` is `before` with some bytes set to 255.
pub open spec fn inked(before: Seq<u8>, after: Seq<u8>) -> bool {
    &&& after.len() == before.len()
    &&& forall|i: int| 0 <= i < before.len() ==> #[trigger] after[i] == before[i] || after[i] == 255
}

/// What a drawing holds: the glyph, the bitmap row by row, its width and height, and the
/// glyph's metrics.
pub struct Drawing {
    pub glyph_id: u32,
    pub bitmap: Seq<u8>,
    pub width: int,
    pub height: int,
    pub advance_width: u16,
    pub left_side_bearing: i16,
}

impl View for RasterizedGlyph {
    type V = Drawing;

    open spec fn view(&self) -> Drawing {
        Drawing {
            glyph_id: self.glyph_id,
            bitmap: self.bitmap@,
            width: self.width as int,
            height: self.height as int,
            advance_width: self.advance_width,
            left_side_bearing: self.left_side_bearing,
        }
    }
}

/// The first drawing from `from` on that is of the glyph `id`.
pub open spec fn first_kept(drawings: Seq<Drawing>, id: u32, from: int) -> Option<Drawing>
    decreases drawings.len() - from,
{
    if from < 0 || from >= drawings.len() {
        None
    } else if drawings[from].glyph_id == id {
        Some(drawings[from])
    } else {
        first_kept(drawings, id, from + 1)
    }
}

impl RasterizedGlyph {
    /// The bitmap has the size that width and height ask for and only bytes 0 and 255.
    pub open spec fn well_formed(self) -> bool {
        self.bitmap@.len() == self.width * self.height && two_tone(self.bitmap@)
    }
}

/// The bitmap `b` of `width` times `height` bytes with the pixel at `(x, y)` set, where
/// that pixel lies inside the bitmap; else `b` as it is.
pub open spec fn with_pixel(b: Seq<u8>, width: int, height: int, x: int, y: int) -> Seq<u8> {
    if 0 <= x < width && 0 <= y < height && y * width + x < b.len() {
        b.update(y * width + x, 255u8)
    } else {
        b
    }
}

/// A line on its way: the distances `dx` and `dy` between its ends, the directions `sx`
/// and `sy` in which it runs, and whether it is flat, that is longer along x than along y.
pub struct Course {
    pub dx: int,
    pub dy: int,
    pub sx: int,
    pub sy: int,
    pub flat: bool,
}

impl Course {
    /// The distance along the axis on which the line is longer.
    pub open spec fn long(self) -> int {
        if self.flat {
            self.dx
        } else {
            self.dy
        }
    }

    /// The distance along the other axis.
    pub open spec fn short(self) -> int {
        if self.flat {
            self.dy
        } else {
            self.dx
        }
    }

    /// The course from `(x, y)` to `(ex, ey)`.
    pub open spec fn between(x: int, y: int, ex: int, ey: int) -> Course {
        let dx = if ex >= x {
            ex - x
        } else {
            x - ex
        };
        let dy = if ey >= y {
            ey - y
        } else {
            y - ey
        };
        Course {
            dx,
            dy,
            sx: if x < ex {
                1
            } else {
                -1
            },
            sy: if y < ey {
                1
            } else {
                -1
            },
            flat: dx > dy,
        }
    }
}

/// The bitmap `b` after `steps` steps of a line on the course `c` that stands at `(x, y)`
/// with the error term `err`. A step sets the pixel it stands on and moves one pixel along
/// the longer axis; where the error term is above zero it moves one pixel along the other
/// axis as well and takes twice the longer distance off the term; and where the term is
/// then below zero it adds twice the shorter distance.
pub open spec fn walked(
    b: Seq<u8>,
    width: int,
    height: int,
    c: Course,
    x: int,
    y: int,
    err: int,
    steps: int,
) -> Seq<u8>
    decreases steps,
{
    if steps <= 0 {
        b
    } else {
        let turn = err > 0;
        let turned = if turn {
            err - 2 * c.long()
        } else {
            err
        };
        let next = if turned < 0 {
            turned + 2 * c.short()
        } else {
            turned
        };
        let nx = if c.flat || turn {
            x + c.sx
        } else {
            x
        };
        let ny = if !c.flat || turn {
            y + c.sy
        } else {
            y
        };
        walked(with_pixel(b, width, height, x, y), width, height, c, nx, ny, next, steps - 1)
    }
}

/// The bitmap `b` with a line drawn from `(x0, y0)` to `(x1, y1)`: both ends are brought
/// into the bitmap, the line walks from the first to the second, one step for each pixel
/// of its longer distance, and the pixel of the second end is set last. A bitmap without
/// width or height stays as it is.
pub open spec fn line_drawn(
    b: Seq<u8>,
    width: int,
    height: int,
    x0: int,
    y0: int,
    x1: int,
    y1: int,
) -> Seq<u8> {
    if width <= 0 || height <= 0 {
        b
    } else {
        let x = clamped_to(x0, width);
        let y = clamped_to(y0, height);
        let ex = clamped_to(x1, width);
        let ey = clamped_to(y1, height);
        let c = Course::between(x, y, ex, ey);
        with_pixel(
            walked(b, width, height, c, x, y, c.long() - 2 * c.short(), c.long()),
            width,
            height,
            ex,
            ey,
        )
    }
}

/// A walk only ever sets pixels.
pub proof fn lemma_walked_inked(
    b: Seq<u8>,
    width: int,
    height: int,
    c: Course,
    x: int,
    y: int,
    err: int,
    steps: int,
)
    ensures
        inked(b, walked(b, width, height, c, x, y, err, steps)),
    decreases steps,
{
    if steps > 0 {
        let turn = err > 0;
        let turned = if turn {
            err - 2 * c.long()
        } else {
            err
        };
        let next = if turned < 0 {
            turned + 2 * c.short()
        } else {
            turned
        };
        let nx = if c.flat || turn {
            x + c.sx
        } else {
            x
        };
        let ny = if !c.flat || turn {
            y + c.sy
        } else {
            y
        };
        let first = with_pixel(b, width, height, x, y);
        lemma_walked_inked(first, width, height, c, nx, ny, next, steps - 1);
        let last = walked(first, width, height, c, nx, ny, next, steps - 1);
        assert forall|i: int| 0 <= i < b.len() implies #[trigger] last[i] == b[i] || last[i]
            == 255 by {
            assert(last[i] == first[i] || last[i] == 255);
        }
    }
}

/// The largest whole number not above `n / d`.
pub open spec fn floor_div(n: int, d: int) -> int {
    n / d
}

/// The smallest whole number not below `n / d`.
pub open spec fn ceil_div(n: int, d: int) -> int {
    -((-n) / d)
}

/// The largest whole number not above `n / d`, for a positive `d`.
fn floor_of(n: i64, d: i64) -> (q: i64)
    requires
        d > 0,
        -0x4000_0000_0000_0000 <= n <= 0x4000_0000_0000_0000,
    ensures
        q == floor_div(n as int, d as int),
        n >= 0 ==> 0 <= q <= n,
        n < 0 ==> n <= q <= -1,
{
    let q = n / d;
    let r = n % d;
    assert(n == d * (n as int / d as int) + (n as int % d as int)) by (nonlinear_arith)
        requires
            d > 0,
    ;
    if r < 0 {
        assert(q as int * d + r == n) by (nonlinear_arith)
            requires
                q == (if n >= 0 { n as int / d as int } else { -((-n) / d as int) }),
                r == (if n >= 0 { n as int % d as int } else { -((-n) % d as int) }),
                d > 0,
        ;
        assert(q - 1 == n as int / d as int) by (nonlinear_arith)
            requires
                q as int * d + r == n,
                -d < r < 0,
                d > 0,
        ;
        assert(n <= q - 1 <= -1) by (nonlinear_arith)
            requires
                q as int * d + r == n,
                -d < r < 0,
                d > 0,
                n < 0 || r >= 0,
        ;
        q - 1
    } else {
        assert(q as int * d + r == n) by (nonlinear_arith)
            requires
                q == (if n >= 0 { n as int / d as int } else { -((-n) / d as int) }),
                r == (if n >= 0 { n as int % d as int } else { -((-n) % d as int) }),
                d > 0,
        ;
        assert(q == n as int / d as int) by (nonlinear_arith)
            requires
                q as int * d + r == n,
                0 <= r < d,
                d > 0,
        ;
        assert((n >= 0 ==> 0 <= q <= n) && (n < 0 ==> n <= q <= -1)) by (nonlinear_arith)
            requires
                q as int * d + r == n,
                0 <= r < d,
                d > 0,
        ;
        q
    }
}

/// `v` brought into the range from 0 to `limit - 1`.
fn clamp_to(v: i32, limit: usize) -> (c: usize)
    requires
        limit > 0,
    ensures
        c == clamped_to(v as int, limit as int),
        c < limit,
        c <= 0x7fff_ffff,
{
    if v < 0 {
        0
    } else if v as usize >= limit {
        limit - 1
    } else {
        v as usize
    }
}

/// Where a drawing lies: the pixel size and the units per em that scale the outline, the
/// pixel column and row of its left and lower edge, and its width and height in pixels.
pub struct Frame {
    pub size: int,
    pub units: int,
    pub left: int,
    pub low: int,
    pub width: int,
    pub height: int,
}

impl Frame {
    /// The frame of a bounding box at `size` pixels per em, for `units_per_em` units per em:
    /// the box scaled and widened to whole pixels, at least one pixel wide and high.
    pub open spec fn of(bounds: Glyph, size: u32, units_per_em: u16) -> Frame {
        Frame {
            size: size as int,
            units: units_per_em as int,
            left: floor_div(bounds.x_min * size, units_per_em as int),
            low: floor_div(bounds.y_min * size, units_per_em as int),
            width: pixel_span(bounds.x_min as int, bounds.x_max as int, size, units_per_em),
            height: pixel_span(bounds.y_min as int, bounds.y_max as int, size, units_per_em),
        }
    }

    /// The pixel column of an x coordinate.
    pub open spec fn column(self, x: int) -> int {
        pixel_of(x, self.size, self.units, self.left)
    }

    /// The pixel row of a y coordinate.
    pub open spec fn row(self, y: int) -> int {
        pixel_of(y, self.size, self.units, self.low)
    }

    /// A bitmap of the frame's size with no pixel set.
    pub open spec fn blank(self) -> Seq<u8> {
        Seq::new((self.width * self.height) as nat, |i: int| 0u8)
    }
}

/// The number of points of an outline that have both coordinates.
pub open spec fn points_of(glyph: SimpleGlyph) -> int {
    if glyph.x_coordinates@.len() <= glyph.y_coordinates@.len() {
        glyph.x_coordinates@.len() as int
    } else {
        glyph.y_coordinates@.len() as int
    }
}

/// The bitmap `b` with the line from point `p` to point `q` of the outline drawn.
pub open spec fn edge_drawn(b: Seq<u8>, glyph: SimpleGlyph, f: Frame, p: int, q: int) -> Seq<u8> {
    line_drawn(
        b,
        f.width,
        f.height,
        f.column(glyph.x_coordinates@[p] as int),
        f.row(glyph.y_coordinates@[p] as int),
        f.column(glyph.x_coordinates@[q] as int),
        f.row(glyph.y_coordinates@[q] as int),
    )
}

/// The bitmap `b` with the lines drawn that start at the points from `point` up to `end`,
/// the last point of a contour: each line runs to the next point, and the line from `end`
/// runs to the first point of the outline.
pub open spec fn contour_drawn(
    b: Seq<u8>,
    glyph: SimpleGlyph,
    f: Frame,
    end: int,
    point: int,
) -> Seq<u8>
    decreases points_of(glyph) - point,
{
    if point < 0 || point > end || point >= points_of(glyph) {
        b
    } else {
        let next = if point < end {
            point + 1
        } else {
            0
        };
        let drawn = if next < points_of(glyph) {
            edge_drawn(b, glyph, f, point, next)
        } else {
            b
        };
        contour_drawn(drawn, glyph, f, end, point + 1)
    }
}

/// The point at which drawing goes on after a contour that ends at `end` was drawn from
/// `point` on: behind `end`, or behind the last point; and `point` itself where the
/// contour ends before it.
pub open spec fn point_after(glyph: SimpleGlyph, end: int, point: int) -> int {
    if point <= end && point < points_of(glyph) {
        if end + 1 < points_of(glyph) {
            end + 1
        } else {
            points_of(glyph)
        }
    } else {
        point
    }
}

/// The point at which drawing goes on after the first `k` contours.
pub open spec fn point_upto(glyph: SimpleGlyph, k: int) -> int
    decreases k,
{
    if k <= 0 {
        0
    } else {
        point_after(glyph, glyph.end_pts_of_contours@[k - 1] as int, point_upto(glyph, k - 1))
    }
}

/// The bitmap `b` with the first `k` contours of the outline drawn.
pub open spec fn contours_drawn(b: Seq<u8>, glyph: SimpleGlyph, f: Frame, k: int) -> Seq<u8>
    decreases k,
{
    if k <= 0 {
        b
    } else {
        contour_drawn(
            contours_drawn(b, glyph, f, k - 1),
            glyph,
            f,
            glyph.end_pts_of_contours@[k - 1] as int,
            point_upto(glyph, k - 1),
        )
    }
}

/// The drawing of an outline in a frame: every contour drawn into a blank bitmap.
pub open spec fn outline_drawn(glyph: SimpleGlyph, f: Frame) -> Seq<u8> {
    contours_drawn(f.blank(), glyph, f, glyph.end_pts_of_contours@.len() as int)
}

/// An outline without contours or without points, of which nothing is drawn.
pub open spec fn pointless(glyph: SimpleGlyph) -> bool {
    glyph.end_pts_of_contours@.len() == 0 || glyph.x_coordinates@.len() == 0
}

impl Font {
    /// The outline of `glyph` can be drawn at `size` pixels per em: the font's units per em
    /// are not zero, and the bitmap has no more bytes than can be addressed. A glyph without
    /// an outline of its own can always be drawn.
    pub open spec fn outline_fits(self, glyph: Glyph, size: u32) -> bool {
        let units = be_u16(self.access(TAG_HEAD@)->bytes, 18) as u16;
        glyph.data matches GlyphData::Simple(simple) ==> units > 0 && (pointless(simple)
            || Frame::of(glyph, size, units).width * Frame::of(glyph, size, units).height
            <= usize::MAX)
    }

    /// `d` is the drawing of the glyph `glyph_id` at `size` pixels per em, where `t` with
    /// `loca` are the font's glyphs and `hmtx` its metrics: a glyph with an outline of its
    /// own is drawn in the frame of its bounding box, any other glyph has an empty bitmap,
    /// and the metrics are those of the low 16 bits of the id.
    pub open spec fn draws(
        self,
        d: Drawing,
        glyph_id: u32,
        size: u32,
        t: GlyfTable,
        loca: LocaTable,
        hmtx: HmtxTable,
    ) -> bool {
        let units = be_u16(self.access(TAG_HEAD@)->bytes, 18) as u16;
        let glyph = t.glyphs@[glyph_id as int];
        &&& self.glyphs_by(t, loca)
        &&& self.reads_hmtx(hmtx)
        &&& self.access(TAG_HEAD@) is Present
        &&& HeadTable::parses(self.access(TAG_HEAD@)->bytes)
        &&& glyph_id < t.glyphs@.len()
        &&& self.outline_fits(glyph, size)
        &&& d.glyph_id == glyph_id
        &&& d.advance_width == hmtx.advance_width(glyph_id as int % 0x1_0000)
        &&& d.left_side_bearing == hmtx.lsb(glyph_id as int % 0x1_0000)
        &&& match glyph.data {
            GlyphData::Simple(simple) => if pointless(simple) {
                d.bitmap.len() == 0 && d.width == 0 && d.height == 0
            } else {
                d.width == Frame::of(glyph, size, units).width && d.height == Frame::of(
                    glyph,
                    size,
                    units,
                ).height && d.bitmap == outline_drawn(simple, Frame::of(glyph, size, units))
            },
            _ => d.bitmap.len() == 0 && d.width == 0 && d.height == 0,
        }
    }

    /// The glyph `glyph_id` can be drawn at `size` pixels per em: the font's glyphs, metrics
    /// and header can be read, the glyph is one of the font's, and its outline can be drawn,
    /// whatever tables the glyphs decode to.
    pub open spec fn drawable(self, glyph_id: u32, size: u32) -> bool {
        &&& self.has_glyphs()
        &&& exists|hmtx: HmtxTable| self.reads_hmtx(hmtx)
        &&& exists|head: HeadTable| self.reads_head(head)
        &&& glyph_id < be_u16(self.access(TAG_MAXP@)->bytes, 4)
        &&& forall|t: GlyfTable, loca: LocaTable| #[trigger]
            self.glyphs_by(t, loca) ==> self.outline_fits(t.glyphs@[glyph_id as int], size)
    }
}

impl Rasterizer {
    #[verifier::type_invariant]
    spec fn sound(self) -> bool {
        forall|i: int| 0 <= i < self.cache@.len() ==> (#[trigger] self.cache@[i]).well_formed()
    }

    /// The font that is drawn.
    pub closed spec fn source(self) -> Font {
        self.font
    }

    /// The number of glyphs that are kept.
    pub closed spec fn cached(self) -> nat {
        self.cache@.len()
    }

    /// The drawings that are kept, in the order in which they were made.
    pub closed spec fn drawings(self) -> Seq<Drawing> {
        Seq::new(self.cache@.len(), |i: int| self.cache@[i]@)
    }

    /// The drawing that is kept for the glyph `id`: the first that was made of it.
    pub open spec fn kept(self, id: u32) -> Option<Drawing> {
        first_kept(self.drawings(), id, 0)
    }

    pub fn new(font: Font) -> (r: Self)
        ensures
            r.source() == font,
            r.cached() == 0,
            r.drawings().len() == 0,
    {
        Self { font, cache: Vec::new() }
    }

    /// Sets the pixel at `(x, y)`, where it lies inside the bitmap.
    fn set_pixel(bitmap: &mut Vec<u8>, width: usize, height: usize, x: i64, y: i64)
        ensures
            final(bitmap)@ == with_pixel(
                old(bitmap)@,
                width as int,
                height as int,
                x as int,
                y as int,
            ),
            inked(old(bitmap)@, final(bitmap)@),
            0 <= x < width && 0 <= y < height && y * width + x < old(bitmap)@.len() ==> final(bitmap)@[y
                * width + x] == 255,
    {
        if x >= 0 && y >= 0 && (x as u64) < width as u64 && (y as u64) < height as u64 {
            assert(y * width <= 0xFFFF_FFFF_FFFF_FFFF * 0xFFFF_FFFF_FFFF_FFFF) by (nonlinear_arith)
                requires
                    0 <= y <= 0xFFFF_FFFF_FFFF_FFFF,
                    0 <= width <= 0xFFFF_FFFF_FFFF_FFFF,
            ;
            let row: u128 = y as u128 * width as u128;
            let at: u128 = row + x as u128;
            if at < bitmap.len() as u128 {
                assert(at == y * width + x);
                bitmap.set(at as usize, 255);
            }
        }
    }

    /// Walks a flat line from `(x0, y0)` until it stands at `end_x`, and sets the pixels it
    /// passes.
    fn walk_flat(
        bitmap: &mut Vec<u8>,
        width: usize,
        height: usize,
        x0: i64,
        y0: i64,
        end_x: i64,
        dx: i64,
        dy: i64,
        sx: i64,
        sy: i64,
    )
        requires
            0 <= x0 <= 0x7fff_ffff,
            0 <= y0 <= 0x7fff_ffff,
            0 <= end_x <= 0x7fff_ffff,
            0 <= dy < dx,
            sx == 1 ==> dx == end_x - x0,
            sx != 1 ==> sx == -1 && dx == x0 - end_x,
            sy == 1 || sy == -1,
        ensures
            final(bitmap)@ == walked(
                old(bitmap)@,
                width as int,
                height as int,
                (Course { dx: dx as int, dy: dy as int, sx: sx as int, sy: sy as int, flat: true }),
                x0 as int,
                y0 as int,
                dx - 2 * dy,
                dx as int,
            ),
    {
        let ghost c = Course {
            dx: dx as int,
            dy: dy as int,
            sx: sx as int,
            sy: sy as int,
            flat: true,
        };
        let ghost path = walked(
            bitmap@,
            width as int,
            height as int,
            c,
            x0 as int,
            y0 as int,
            dx - 2 * dy,
            dx as int,
        );
        let mut x: i64 = x0;
        let mut y: i64 = y0;
        let mut err: i64 = dx - 2 * dy;
        let mut steps: i64 = dx;
        while x != end_x
            invariant
                path == walked(
                    bitmap@,
                    width as int,
                    height as int,
                    c,
                    x as int,
                    y as int,
                    err as int,
                    steps as int,
                ),
                c == (Course { dx: dx as int, dy: dy as int, sx: sx as int, sy: sy as int, flat: true }),
                0 <= dy < dx <= 0x7fff_ffff,
                sy == 1 || sy == -1,
                sx == 1 || sx == -1,
                0 <= steps <= dx,
                steps == if sx == 1 {
                    end_x - x
                } else {
                    x - end_x
                },
                0 <= y0 <= 0x7fff_ffff,
                y0 - (dx - steps) <= y <= y0 + (dx - steps),
                -2 * (dx + dy) <= err <= 2 * (dx + dy),
            decreases steps,
        {
            Self::set_pixel(bitmap, width, height, x, y);
            if err > 0 {
                y = y + sy;
                err = err - 2 * dx;
            }
            if err < 0 {
                err = err + 2 * dy;
            }
            x = x + sx;
            steps = steps - 1;
        }
    }

    /// Walks a line that is not flat from `(x0, y0)` until it stands at `end_y`, and sets
    /// the pixels it passes.
    fn walk_steep(
        bitmap: &mut Vec<u8>,
        width: usize,
        height: usize,
        x0: i64,
        y0: i64,
        end_y: i64,
        dx: i64,
        dy: i64,
        sx: i64,
        sy: i64,
    )
        requires
            0 <= x0 <= 0x7fff_ffff,
            0 <= y0 <= 0x7fff_ffff,
            0 <= end_y <= 0x7fff_ffff,
            0 <= dx <= dy,
            sy == 1 ==> dy == end_y - y0,
            sy != 1 ==> sy == -1 && dy == y0 - end_y,
            sx == 1 || sx == -1,
        ensures
            final(bitmap)@ == walked(
                old(bitmap)@,
                width as int,
                height as int,
                (Course { dx: dx as int, dy: dy as int, sx: sx as int, sy: sy as int, flat: false }),
                x0 as int,
                y0 as int,
                dy - 2 * dx,
                dy as int,
            ),
    {
        let ghost c = Course {
            dx: dx as int,
            dy: dy as int,
            sx: sx as int,
            sy: sy as int,
            flat: false,
        };
        let ghost path = walked(
            bitmap@,
            width as int,
            height as int,
            c,
            x0 as int,
            y0 as int,
            dy - 2 * dx,
            dy as int,
        );
        let mut x: i64 = x0;
        let mut y: i64 = y0;
        let mut err: i64 = dy - 2 * dx;
        let mut steps: i64 = dy;
        while y != end_y
            invariant
                path == walked(
                    bitmap@,
                    width as int,
                    height as int,
                    c,
                    x as int,
                    y as int,
                    err as int,
                    steps as int,
                ),
                c == (Course { dx: dx as int, dy: dy as int, sx: sx as int, sy: sy as int, flat: false }),
                0 <= dx <= dy <= 0x7fff_ffff,
                sy == 1 || sy == -1,
                sx == 1 || sx == -1,
                0 <= steps <= dy,
                steps == if sy == 1 {
                    end_y - y
                } else {
                    y - end_y
                },
                0 <= x0 <= 0x7fff_ffff,
                x0 - (dy - steps) <= x <= x0 + (dy - steps),
                -2 * (dx + dy) <= err <= 2 * (dx + dy),
            decreases steps,
        {
            Self::set_pixel(bitmap, width, height, x, y);
            if err > 0 {
                x = x + sx;
                err = err - 2 * dy;
            }
            if err < 0 {
                err = err + 2 * dx;
            }
            y = y + sy;
            steps = steps - 1;
        }
    }

    /// Draws a line from `(x0, y0)` to `(x1, y1)` into a bitmap of `width` times `height`
    /// bytes: both ends are first brought into the bitmap; then the pixels that an error-driven
    /// stepping rule visits on the way from the first end to the second are set to 255, as far
    /// as they lie inside the bitmap, and last the pixel of the second end. Nothing is drawn
    /// into a bitmap without width or height.
    pub fn draw_line(
        bitmap: &mut Vec<u8>,
        width: usize,
        height: usize,
        x0: i32,
        y0: i32,
        x1: i32,
        y1: i32,
    )
        ensures
            final(bitmap)@ == line_drawn(
                old(bitmap)@,
                width as int,
                height as int,
                x0 as int,
                y0 as int,
                x1 as int,
                y1 as int,
            ),
            inked(old(bitmap)@, final(bitmap)@),
            width > 0 && height > 0 ==> {
                let ex = clamped_to(x1 as int, width as int);
                let ey = clamped_to(y1 as int, height as int);
                ey * width + ex < old(bitmap)@.len() ==> final(bitmap)@[ey * width + ex] == 255
            },
    {
        if width == 0 || height == 0 {
            return ;
        }
        let mut x: i64 = clamp_to(x0, width) as i64;
        let mut y: i64 = clamp_to(y0, height) as i64;
        let end_x: i64 = clamp_to(x1, width) as i64;
        let end_y: i64 = clamp_to(y1, height) as i64;
        let dx: i64 = if end_x >= x {
            end_x - x
        } else {
            x - end_x
        };
        let dy: i64 = if end_y >= y {
            end_y - y
        } else {
            y - end_y
        };
        let sx: i64 = if x < end_x {
            1
        } else {
            -1
        };
        let sy: i64 = if y < end_y {
            1
        } else {
            -1
        };
        let ghost c = Course::between(x as int, y as int, end_x as int, end_y as int);
        if dx > dy {
            Self::walk_flat(bitmap, width, height, x, y, end_x, dx, dy, sx, sy);
        } else {
            Self::walk_steep(bitmap, width, height, x, y, end_y, dx, dy, sx, sy);
        }
        proof {
            lemma_walked_inked(
                old(bitmap)@,
                width as int,
                height as int,
                c,
                x as int,
                y as int,
                c.long() - 2 * c.short(),
                c.long(),
            );
        }
        Self::set_pixel(bitmap, width, height, end_x, end_y);
    }

    /// Draws the lines that start at the points from `point` up to `end`, the last point of
    /// a contour, and says at which point drawing goes on.
    fn draw_contour(
        bitmap: &mut Vec<u8>,
        glyph: &SimpleGlyph,
        size: u32,
        units_per_em: u16,
        left: i64,
        low: i64,
        width: usize,
        height: usize,
        end: usize,
        point: usize,
    ) -> (after: usize)
        requires
            units_per_em > 0,
            -0x1_0000_0000_0000 <= left <= 0x1_0000_0000_0000,
            -0x1_0000_0000_0000 <= low <= 0x1_0000_0000_0000,
            point <= points_of(*glyph),
        ensures
            after == point_after(*glyph, end as int, point as int),
            after <= points_of(*glyph),
            inked(old(bitmap)@, final(bitmap)@),
            final(bitmap)@ == contour_drawn(
                old(bitmap)@,
                *glyph,
                (Frame {
                    size: size as int,
                    units: units_per_em as int,
                    left: left as int,
                    low: low as int,
                    width: width as int,
                    height: height as int,
                }),
                end as int,
                point as int,
            ),
    {
        let ghost f = Frame {
            size: size as int,
            units: units_per_em as int,
            left: left as int,
            low: low as int,
            width: width as int,
            height: height as int,
        };
        let ghost whole = contour_drawn(bitmap@, *glyph, f, end as int, point as int);
        let d = units_per_em as i64;
        let n = if glyph.x_coordinates.len() <= glyph.y_coordinates.len() {
            glyph.x_coordinates.len()
        } else {
            glyph.y_coordinates.len()
        };
        let mut at: usize = point;
        while at <= end && at < n
            invariant
                n == points_of(*glyph),
                at <= n,
                d == units_per_em,
                0 < d <= 0xFFFF,
                -0x1_0000_0000_0000 <= left <= 0x1_0000_0000_0000,
                -0x1_0000_0000_0000 <= low <= 0x1_0000_0000_0000,
                f == (Frame {
                    size: size as int,
                    units: units_per_em as int,
                    left: left as int,
                    low: low as int,
                    width: width as int,
                    height: height as int,
                }),
                whole == contour_drawn(bitmap@, *glyph, f, end as int, at as int),
                point_after(*glyph, end as int, at as int) == point_after(
                    *glyph,
                    end as int,
                    point as int,
                ),
                inked(old(bitmap)@, bitmap@),
            decreases n - at,
        {
            let next: usize = if at < end {
                at + 1
            } else {
                0
            };
            if next < n {
                let px1 = to_pixel(glyph.x_coordinates[at], size, d, left);
                let py1 = to_pixel(glyph.y_coordinates[at], size, d, low);
                let px2 = to_pixel(glyph.x_coordinates[next], size, d, left);
                let py2 = to_pixel(glyph.y_coordinates[next], size, d, low);
                let ghost before = bitmap@;
                Self::draw_line(bitmap, width, height, px1, py1, px2, py2);
                assert(bitmap@ == edge_drawn(before, *glyph, f, at as int, next as int));
                assert(inked(old(bitmap)@, bitmap@)) by {
                    assert forall|i: int| 0 <= i < before.len() implies #[trigger] bitmap@[i]
                        == old(bitmap)@[i] || bitmap@[i] == 255 by {
                        assert(before[i] == old(bitmap)@[i] || before[i] == 255);
                    }
                }
            }
            at = at + 1;
        }
        at
    }

    /// Draws the outline of a simple glyph at `size` pixels per em, for a font of
    /// `units_per_em` units per em. The bitmap spans the glyph's bounding box `bounds`, scaled
    /// and widened to whole pixels, and is at least one pixel wide and high; a line is drawn
    /// from each point to the next, and from the last point of each contour to the first
    /// point of the glyph. A glyph without contours or points gives an empty bitmap.
    ///
    /// Fails with `InvalidSize` where the bitmap would have more bytes than can be addressed.
    #[verifier::loop_isolation(false)]
    pub fn rasterize_simple(glyph: &SimpleGlyph, size: u32, units_per_em: u16, bounds: &Glyph) -> (r:
        Result<(Vec<u8>, usize, usize), TtfError>)
        requires
            units_per_em > 0,
        ensures
            r is Ok <==> pointless(*glyph) || Frame::of(*bounds, size, units_per_em).width * Frame::of(
                *bounds,
                size,
                units_per_em,
            ).height <= usize::MAX,
            r is Ok && !pointless(*glyph) ==> r->Ok_0.0@ == outline_drawn(
                *glyph,
                Frame::of(*bounds, size, units_per_em),
            ),
            r is Ok ==> ({
                let bitmap = r->Ok_0.0@;
                let width = r->Ok_0.1;
                let height = r->Ok_0.2;
                &&& bitmap.len() == width * height
                &&& two_tone(bitmap)
                &&& if glyph.end_pts_of_contours@.len() == 0 || glyph.x_coordinates@.len() == 0 {
                    width == 0 && height == 0
                } else {
                width == pixel_span(bounds.x_min as int, bounds.x_max as int, size, units_per_em)
                    && height == pixel_span(
                    bounds.y_min as int,
                    bounds.y_max as int,
                    size,
                    units_per_em,
                )
                }
            }),
            r matches Err(e) ==> e is InvalidSize,
    {
        if glyph.end_pts_of_contours.len() == 0 || glyph.x_coordinates.len() == 0 {
            let empty: Vec<u8> = Vec::new();
            let none: usize = 0;
            assert(empty@.len() == none * none);
            return Ok((empty, none, none));
        }
        let d = units_per_em as i64;
        let s = size as i64;
        let x_min = floor_of(scaled(bounds.x_min, size), d);
        let y_min = floor_of(scaled(bounds.y_min, size), d);
        let x_max = -floor_of(-scaled(bounds.x_max, size), d);
        let y_max = -floor_of(-scaled(bounds.y_max, size), d);
        let width: u64 = if x_max - x_min > 1 {
            (x_max - x_min) as u64
        } else {
            1
        };
        let height: u64 = if y_max - y_min > 1 {
            (y_max - y_min) as u64
        } else {
            1
        };
        assert(width * height <= 0x1_0000_0000_0000 * 0x1_0000_0000_0000) by (nonlinear_arith)
            requires
                0 <= width <= 0x1_0000_0000_0000,
                0 <= height <= 0x1_0000_0000_0000,
        ;
        let area: u128 = width as u128 * height as u128;
        if area > usize::MAX as u128 {
            return Err(TtfError::InvalidSize { expected: usize::MAX as u64, actual: width });
        }
        assert(width <= width * height && height <= width * height) by (nonlinear_arith)
            requires
                width >= 1,
                height >= 1,
        ;
        let width = width as usize;
        let height = height as usize;
        let total = area as usize;
        let mut bitmap: Vec<u8> = Vec::new();
        let mut filled: usize = 0;
        while filled < total
            invariant
                filled <= total,
                bitmap@.len() == filled,
                forall|i: int| 0 <= i < filled ==> bitmap@[i] == 0,
                two_tone(bitmap@),
            decreases total - filled,
        {
            bitmap.push(0);
            filled = filled + 1;
        }
        let ghost f = Frame::of(*bounds, size, units_per_em);
        let ghost blank = bitmap@;
        assert(blank =~= f.blank());
        let mut point: usize = 0;
        let mut k: usize = 0;
        while k < glyph.end_pts_of_contours.len()
            invariant
                k <= glyph.end_pts_of_contours.len(),
                point == point_upto(*glyph, k as int),
                point <= points_of(*glyph),
                bitmap@ == contours_drawn(blank, *glyph, f, k as int),
                inked(blank, bitmap@),
            decreases glyph.end_pts_of_contours.len() - k,
        {
            let end = glyph.end_pts_of_contours[k] as usize;
            let ghost before = bitmap@;
            point = Self::draw_contour(
                &mut bitmap,
                glyph,
                size,
                units_per_em,
                x_min,
                y_min,
                width,
                height,
                end,
                point,
            );
            assert(inked(blank, bitmap@)) by {
                assert forall|i: int| 0 <= i < blank.len() implies #[trigger] bitmap@[i]
                    == blank[i] || bitmap@[i] == 255 by {
                    assert(before[i] == blank[i] || before[i] == 255);
                }
            }
            k = k + 1;
        }
        assert(two_tone(bitmap@)) by {
            assert forall|i: int| 0 <= i < bitmap@.len() implies #[trigger] bitmap@[i] == 0
                || bitmap@[i] == 255 by {
                assert(blank[i] == 0 || blank[i] == 255);
            }
        }
        Ok((bitmap, width, height))
    }

    /// The drawing that is kept for the glyph, if there is one.
    fn find_kept(&self, glyph_id: u32) -> (r: Option<RasterizedGlyph>)
        ensures
            match self.kept(glyph_id) {
                Some(d) => r is Some && r->Some_0@ == d && r->Some_0.glyph_id == glyph_id
                    && r->Some_0.well_formed(),
                None => r is None,
            },
    {
        proof {
            use_type_invariant(self);
        }
        let ghost shown = self.drawings();
        let mut i: usize = 0;
        while i < self.cache.len()
            invariant
                i <= self.cache.len(),
                shown == self.drawings(),
                forall|j: int|
                    0 <= j < self.cache@.len() ==> (#[trigger] self.cache@[j]).well_formed(),
                first_kept(shown, glyph_id, 0) == first_kept(shown, glyph_id, i as int),
            decreases self.cache.len() - i,
        {
            if self.cache[i].glyph_id == glyph_id {
                let found = copy_glyph(&self.cache[i]);
                assert(found@ == shown[i as int]);
                assert(self.cache@[i as int].well_formed());
                return Some(found);
            }
            assert(shown[i as int].glyph_id != glyph_id);
            i = i + 1;
        }
        None
    }

    /// Keeps a copy of a drawing behind those that are kept already.
    fn keep(&mut self, drawn: &RasterizedGlyph)
        requires
            drawn.well_formed(),
        ensures
            final(self).source() == old(self).source(),
            final(self).drawings() == old(self).drawings().push(drawn@),
    {
        proof {
            use_type_invariant(&*self);
        }
        let ghost shown = self.drawings();
        let mut kept: Vec<RasterizedGlyph> = Vec::new();
        let mut k: usize = 0;
        while k < self.cache.len()
            invariant
                k <= self.cache.len(),
                *self == *old(self),
                forall|j: int|
                    0 <= j < self.cache@.len() ==> (#[trigger] self.cache@[j]).well_formed(),
                kept@.len() == k,
                forall|j: int| 0 <= j < k ==> (#[trigger] kept@[j]).well_formed(),
                forall|j: int| 0 <= j < k ==> (#[trigger] kept@[j])@ == self.cache@[j]@,
            decreases self.cache.len() - k,
        {
            kept.push(copy_glyph(&self.cache[k]));
            k = k + 1;
        }
        kept.push(copy_glyph(drawn));
        self.cache = kept;
        assert(self.drawings() =~= shown.push(drawn@));
    }

    /// Draws the glyph with this id of `font` at `size` pixels per em.
    fn draw_fresh(font: &Font, glyph_id: u32, size: u32) -> (r: Result<RasterizedGlyph, TtfError>)
        ensures
            r matches Ok(g) ==> g.glyph_id == glyph_id && g.well_formed(),
            r is Ok ==> exists|t: GlyfTable, loca: LocaTable, hmtx: HmtxTable| #[trigger]
                font.draws(r->Ok_0@, glyph_id, size, t, loca, hmtx),
            font.drawable(glyph_id, size) ==> r is Ok,
            font.access(TAG_GLYF@) is Missing ==> r is Err && r->Err_0.is_missing("glyf"@),
            font.has_glyphs() && (exists|hmtx: HmtxTable| font.reads_hmtx(hmtx)) && (exists|
                head: HeadTable,
            |
                font.reads_head(head)) && glyph_id >= be_u16(font.access(TAG_MAXP@)->bytes, 4) ==> (
            r matches Err(TtfError::InvalidGlyphIndex(g)) && g == glyph_id % 0x1_0000),
    {
        let glyf = font.glyf_table()?;
        let hmtx = font.hmtx_table()?;
        let head = font.head_table()?;
        let ghost loca = choose|loca: LocaTable| #[trigger] font.glyphs_by(glyf, loca);
        proof {
            assert(font.glyphs_by(glyf, loca));
            assert(font.reads_hmtx(hmtx));
            assert(font.reads_head(head));
            assert(glyf.glyphs@.len() == be_u16(font.access(TAG_MAXP@)->bytes, 4));
            assert(head.units_per_em == be_u16(font.access(TAG_HEAD@)->bytes, 18));
        }
        let glyph = match glyf.get_glyph(glyph_id as usize) {
            Some(glyph) => glyph,
            None => { return Err(TtfError::InvalidGlyphIndex((glyph_id % 0x1_0000) as u16)); },
        };
        let low = (glyph_id % 0x1_0000) as u16;
        let advance_width = hmtx.get_advance_width(low);
        let left_side_bearing = hmtx.get_lsb(low);
        let drawn = match &glyph.data {
            GlyphData::Simple(simple) => {
                if head.units_per_em == 0 {
                    return Err(parse_error("Units per em is zero"));
                }
                let (bitmap, width, height) = Self::rasterize_simple(
                    simple,
                    size,
                    head.units_per_em,
                    glyph,
                )?;
                RasterizedGlyph { glyph_id, bitmap, width, height, advance_width, left_side_bearing }
            },
            _ => {
                let none: usize = 0;
                let bitmap: Vec<u8> = Vec::new();
                assert(bitmap@.len() == none * none);
                RasterizedGlyph {
                    glyph_id,
                    bitmap,
                    width: none,
                    height: none,
                    advance_width,
                    left_side_bearing,
                }
            },
        };
        let r = Ok(drawn);
        proof {
            assert(font.draws(r->Ok_0@, glyph_id, size, glyf, loca, hmtx));
        }
        r
    }

    /// Draws the glyph with this id at `size` pixels per em, or hands out the drawing that
    /// is kept for the id, whatever size that was drawn at. A glyph with an outline of its
    /// own is drawn as [`Rasterizer::rasterize_simple`] does; any other glyph has an empty
    /// bitmap. The metrics are those of `hmtx` for the low 16 bits of the id. A new drawing
    /// is kept behind those that are kept already.
    ///
    /// Fails as [`Font::glyf_table`], [`Font::hmtx_table`] and [`Font::head_table`] do; with
    /// `InvalidGlyphIndex` for an id outside the `glyf` table; with a parse error for a font
    /// of zero units per em; and with `InvalidSize` where the bitmap would be too large. A
    /// failure keeps nothing. Succeeds where a drawing is kept for the id, and where the
    /// glyph is [drawable](Font::drawable).
    pub fn rasterize_glyph(&mut self, glyph_id: u32, size: u32) -> (r: Result<RasterizedGlyph, TtfError>)
        ensures
            final(self).source() == old(self).source(),
            r matches Ok(g) ==> g.glyph_id == glyph_id && g.well_formed(),
            r is Err ==> final(self).drawings() == old(self).drawings(),
            match old(self).kept(glyph_id) {
                Some(d) => r is Ok && r->Ok_0@ == d && final(self).drawings() == old(
                    self,
                ).drawings(),
                None => {
                    &&& r is Ok ==> final(self).drawings() == old(self).drawings().push(r->Ok_0@)
                    &&& r is Ok ==> exists|t: GlyfTable, loca: LocaTable, hmtx: HmtxTable| #[trigger]
                        old(self).source().draws(r->Ok_0@, glyph_id, size, t, loca, hmtx)
                    &&& old(self).source().drawable(glyph_id, size) ==> r is Ok
                    &&& old(self).source().access(TAG_GLYF@) is Missing ==> r is Err
                        && r->Err_0.is_missing("glyf"@)
                    &&& old(self).source().has_glyphs() && (exists|hmtx: HmtxTable|
                        old(self).source().reads_hmtx(hmtx)) && (exists|head: HeadTable|
                        old(self).source().reads_head(head)) && glyph_id >= be_u16(
                        old(self).source().access(TAG_MAXP@)->bytes,
                        4,
                    ) ==> (r matches Err(TtfError::InvalidGlyphIndex(g)) && g == glyph_id
                        % 0x1_0000)
                },
            },
    {
        match self.find_kept(glyph_id) {
            Some(found) => { return Ok(found); },
            None => {},
        }
        let drawn = Self::draw_fresh(&self.font, glyph_id, size)?;
        self.keep(&drawn);
        Ok(drawn)
    }

    /// Forgets every glyph that is kept.
    pub fn clear_cache(&mut self)
        ensures
            final(self).source() == old(self).source(),
            final(self).cached() == 0,
            final(self).drawings().len() == 0,
    {
        self.cache = Vec::new();
    }
}

/// The number of pixels that the span from `lo` to `hi` font units takes at `size` pixels per
/// em: the span between the scaled ends, widened to whole pixels, and at least one.
pub open spec fn pixel_span(lo: int, hi: int, size: u32, units_per_em: u16) -> int {
    let span = ceil_div(hi * size, units_per_em as int) - floor_div(lo * size, units_per_em as int);
    if span > 1 {
        span
    } else {
        1
    }
}

/// The pixel of a coordinate: the coordinate scaled by `size / d` and rounded to the nearest
/// whole number, counted from the pixel `low` and brought into the 32-bit range.
pub open spec fn pixel_of(coordinate: int, size: int, d: int, low: int) -> int {
    let p = floor_div(2 * (coordinate * size) + d, 2 * d) - low;
    if p < -0x8000_0000 {
        -0x8000_0000
    } else if p > 0x7fff_ffff {
        0x7fff_ffff
    } else {
        p
    }
}

/// The pixel of a coordinate, as [`pixel_of`] gives it.
fn to_pixel(coordinate: i16, size: u32, d: i64, low: i64) -> (p: i32)
    requires
        0 < d <= 0xFFFF,
        -0x1_0000_0000_0000 <= low <= 0x1_0000_0000_0000,
    ensures
        p == pixel_of(coordinate as int, size as int, d as int, low as int),
{
    let twice: i64 = 2 * scaled(coordinate, size) + d;
    let nearest: i64 = floor_of(twice, 2 * d);
    let p: i64 = nearest - low;
    if p < -0x8000_0000 {
        -0x8000_0000
    } else if p > 0x7fff_ffff {
        0x7fff_ffff
    } else {
        p as i32
    }
}

/// A coordinate times a size.
fn scaled(coordinate: i16, size: u32) -> (p: i64)
    ensures
        p == coordinate * size,
        -0x8000_0000_0000 <= p <= 0x8000_0000_0000,
{
    assert(-0x8000_0000_0000 <= coordinate * size <= 0x8000_0000_0000) by (nonlinear_arith)
        requires
            -0x8000 <= coordinate <= 0x7fff,
            0 <= size <= 0xFFFF_FFFF,
    ;
    coordinate as i64 * size as i64
}

/// A copy of a drawing.
fn copy_glyph(g: &RasterizedGlyph) -> (out: RasterizedGlyph)
    ensures
        out.glyph_id == g.glyph_id,
        out.bitmap@ == g.bitmap@,
        out.width == g.width,
        out.height == g.height,
        out.advance_width == g.advance_width,
        out.left_side_bearing == g.left_side_bearing,
{
    let bitmap = copy_range(&g.bitmap, 0, g.bitmap.len());
    assert(bitmap@ =~= g.bitmap@);
    RasterizedGlyph {
        glyph_id: g.glyph_id,
        bitmap,
        width: g.width,
        height: g.height,
        advance_width: g.advance_width,
        left_side_bearing: g.left_side_bearing,
    }
}

impl Font {
    /// A rasterizer for a copy of this font.
    pub fn rasterizer(&self) -> (r: Rasterizer)
        ensures
            r.source().same_as(*self),
            r.cached() == 0,
            r.drawings().len() == 0,
    {
        Rasterizer::new(self.duplicate())
    }
}

/// `v` brought into the range from 0 to `limit - 1`.
pub open spec fn clamped_to(v: int, limit: int) -> int {
    if v < 0 {
        0
    } else if v >= limit {
        limit - 1
    } else {
        v
    }
}

} // verus!
