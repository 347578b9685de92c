//! Decoding the whole `glyf` table with the help of the glyph offsets.

use crate::error::{truncated, TtfError};
use crate::stream::FontReader;
use crate::tables::glyf::{CompositeGlyph, GlyfTable, Glyph, GlyphData, SimpleGlyph};
use crate::tables::glyf_composite::{component_start, composite_count};
use crate::tables::glyf_simple::{outline_outcome, OutlineOutcome};
use crate::tables::loca::LocaTable;
use crate::wire::be_i16;
use vstd::prelude::*;

verus! {

/// What becomes of decoding the glyph at `s[g..]`: the ten bytes of its header, and then an
/// outline of its own for a positive contour count, components for a negative one, and
/// nothing for zero.
pub open spec fn glyph_outcome(s: Seq<u8>, g: int) -> OutlineOutcome {
    if g < 0 || g + 10 > s.len() {
        OutlineOutcome::Truncated
    } else if be_i16(s, g) > 0 {
        outline_outcome(s, g + 10, be_i16(s, g))
    } else if be_i16(s, g) < 0 {
        match composite_count(s, g + 10) {
            Some(n) => OutlineOutcome::Fits { end: component_start(s, g + 10, n) },
            None => OutlineOutcome::Truncated,
        }
    } else {
        OutlineOutcome::Fits { end: g + 10 }
    }
}

impl Glyph {
    /// The glyph is what the bytes at `s[g..]` encode. A contour count of zero makes an
    /// empty glyph, whatever follows the header.
    pub open spec fn decodes(self, s: Seq<u8>, g: int) -> bool {
        &&& self.number_of_contours == be_i16(s, g)
        &&& self.x_min == be_i16(s, g + 2)
        &&& self.y_min == be_i16(s, g + 4)
        &&& self.x_max == be_i16(s, g + 6)
        &&& self.y_max == be_i16(s, g + 8)
        &&& match self.data {
            GlyphData::Simple(simple) => self.number_of_contours > 0 && simple.decodes(
                s,
                g + 10,
                self.number_of_contours as int,
            ),
            GlyphData::Composite(composite) => self.number_of_contours < 0 && composite.decodes(
                s,
                g + 10,
            ),
            GlyphData::Empty => self.number_of_contours == 0,
        }
    }

    /// The glyph without a header: no contours, a bounding box of zeros, no outline.
    pub open spec fn is_blank(self) -> bool {
        &&& self.number_of_contours == 0
        &&& self.x_min == 0
        &&& self.y_min == 0
        &&& self.x_max == 0
        &&& self.y_max == 0
        &&& self.data is Empty
    }

    /// Decodes the glyph that starts at the cursor and moves past it.
    ///
    /// Fails with an end-of-data error where the bytes run out, and with a parse error where
    /// a run of flags gives more flags than the outline has points. A failure leaves the
    /// cursor where it was.
    pub fn read(reader: &mut FontReader) -> (r: Result<Glyph, TtfError>)
        ensures
            final(reader)@.data == old(reader)@.data,
            match glyph_outcome(old(reader)@.data, old(reader)@.pos) {
                OutlineOutcome::Fits { end } => r is Ok && r->Ok_0.decodes(
                    old(reader)@.data,
                    old(reader)@.pos,
                ) && final(reader)@ == old(reader)@.at(end),
                OutlineOutcome::Truncated => r is Err && r->Err_0.is_truncated() && final(reader)@
                    == old(reader)@,
                OutlineOutcome::Malformed => r is Err && r->Err_0.is_parse_error() && final(reader)@
                    == old(reader)@,
            },
    {
        let start = reader.position();
        if reader.remaining() < 10 {
            return Err(truncated());
        }
        let number_of_contours = reader.peek_i16(0);
        let x_min = reader.peek_i16(2);
        let y_min = reader.peek_i16(4);
        let x_max = reader.peek_i16(6);
        let y_max = reader.peek_i16(8);
        reader.advance_by(10);
        let data = if number_of_contours > 0 {
            match SimpleGlyph::read(reader, number_of_contours as usize) {
                Ok(simple) => GlyphData::Simple(simple),
                Err(e) => {
                    reader.rewind_to(start);
                    return Err(e);
                },
            }
        } else if number_of_contours < 0 {
            match CompositeGlyph::read(reader) {
                Ok(composite) => GlyphData::Composite(composite),
                Err(e) => {
                    reader.rewind_to(start);
                    return Err(e);
                },
            }
        } else {
            GlyphData::Empty
        };
        Ok(Glyph { number_of_contours, x_min, y_min, x_max, y_max, data })
    }
}

/// Glyph `i` of the table at `s[p..]` can be had: the offsets know where it starts and ends,
/// and it takes no bytes or can be decoded where it starts.
pub open spec fn glyph_fits(s: Seq<u8>, p: int, loca: LocaTable, i: int) -> bool {
    &&& i + 1 < loca.entries()
    &&& loca.offset(i) == loca.offset(i + 1) || (p + loca.offset(i) <= s.len() && glyph_outcome(
        s,
        p + loca.offset(i),
    ) is Fits)
}

/// The first glyph of the table at `s[p..]` that cannot be had is glyph `i`.
pub open spec fn first_bad_glyph(s: Seq<u8>, p: int, loca: LocaTable, i: int) -> bool {
    &&& 0 <= i
    &&& !glyph_fits(s, p, loca, i)
    &&& forall|k: int| 0 <= k < i ==> glyph_fits(s, p, loca, k)
}

impl GlyfTable {
    /// The table holds the `n` glyphs that the offsets find in the bytes at `s[p..]`: a glyph
    /// that takes no bytes is blank, any other is decoded where it starts.
    pub open spec fn decodes(self, s: Seq<u8>, p: int, loca: LocaTable, n: int) -> bool {
        &&& self.glyphs@.len() == n
        &&& forall|i: int|
            0 <= i < n ==> if loca.offset(i) == loca.offset(i + 1) {
                (#[trigger] self.glyphs@[i]).is_blank()
            } else {
                self.glyphs@[i].decodes(s, p + loca.offset(i))
            }
    }

    /// Decodes the `num_glyphs` glyphs of the table that starts at the cursor. Glyph `i` lies
    /// between the offsets `i` and `i + 1`, counted from the start of the table; where the
    /// two are equal the glyph is blank and no byte is read for it. The cursor stays where
    /// it is.
    ///
    /// A glyph is empty exactly if it takes no bytes or its header declares no contours.
    ///
    /// Fails with `InvalidGlyphIndex` where the offsets are too few, with an end-of-data
    /// error where a glyph is cut short or starts past the end, and with a parse error where
    /// an outline contradicts itself; of several bad glyphs the first decides.
    #[verifier::loop_isolation(false)]
    pub fn from_reader(reader: &mut FontReader, length: u32, loca: &LocaTable, num_glyphs: u16) -> (r:
        Result<GlyfTable, TtfError>)
        ensures
            final(reader)@ == old(reader)@,
            r is Ok <==> forall|i: int|
                0 <= i < num_glyphs ==> glyph_fits(old(reader)@.data, old(reader)@.pos, *loca, i),
            r matches Ok(t) ==> {
                let s = old(reader)@.data;
                let p = old(reader)@.pos;
                &&& t.decodes(s, p, *loca, num_glyphs as int)
                &&& forall|i: int|
                    0 <= i < num_glyphs ==> ((#[trigger] t.glyphs@[i]).data is Empty <==> (
                    loca.offset(i) == loca.offset(i + 1) || be_i16(s, p + loca.offset(i)) == 0))
            },
            r matches Err(e) ==> exists|i: int| #[trigger]
                first_bad_glyph(old(reader)@.data, old(reader)@.pos, *loca, i) && i < num_glyphs
                    && {
                    let s = old(reader)@.data;
                    let g = old(reader)@.pos + loca.offset(i);
                    if i + 1 >= loca.entries() {
                        e matches TtfError::InvalidGlyphIndex(index) && index == loca.entries()
                    } else if g <= s.len() && glyph_outcome(s, g) is Malformed {
                        e.is_parse_error()
                    } else {
                        e.is_truncated()
                    }
                },
    {
        let ghost s = reader@.data;
        let ghost p = reader@.pos;
        let start = reader.position();
        let room = reader.remaining();
        let entries = loca.len();
        let mut glyphs: Vec<Glyph> = Vec::with_capacity(num_glyphs as usize);
        let mut i: usize = 0;
        while i < num_glyphs as usize
            invariant
                i <= num_glyphs,
                reader@ == old(reader)@,
                glyphs@.len() == i,
                forall|k: int| 0 <= k < i ==> glyph_fits(s, p, *loca, k),
                forall|k: int|
                    0 <= k < i ==> if loca.offset(k) == loca.offset(k + 1) {
                        (#[trigger] glyphs@[k]).is_blank()
                    } else {
                        glyphs@[k].decodes(s, p + loca.offset(k))
                    },
            decreases num_glyphs - i,
        {
            if i + 1 >= entries {
                assert(first_bad_glyph(s, p, *loca, i as int));
                return Err(TtfError::InvalidGlyphIndex(entries as u16));
            }
            let offset = match loca.get_offset(i) {
                Ok(v) => v,
                Err(e) => { return Err(e); },
            };
            let next_offset = match loca.get_offset(i + 1) {
                Ok(v) => v,
                Err(e) => { return Err(e); },
            };
            if offset == next_offset {
                glyphs.push(
                    Glyph {
                        number_of_contours: 0,
                        x_min: 0,
                        y_min: 0,
                        x_max: 0,
                        y_max: 0,
                        data: GlyphData::Empty,
                    },
                );
            } else {
                if offset as u64 > room as u64 {
                    assert(first_bad_glyph(s, p, *loca, i as int));
                    return Err(truncated());
                }
                reader.advance_by(offset as usize);
                match Glyph::read(reader) {
                    Ok(glyph) => {
                        glyphs.push(glyph);
                    },
                    Err(e) => {
                        reader.rewind_to(start);
                        assert(first_bad_glyph(s, p, *loca, i as int));
                        return Err(e);
                    },
                }
                reader.rewind_to(start);
            }
            i = i + 1;
        }
        Ok(GlyfTable { glyphs })
    }

    /// The glyph with this id, to be changed in place.
    pub fn get_glyph_mut(&mut self, index: usize) -> (r: Option<&mut Glyph>)
        ensures
            index >= old(self).glyphs@.len() ==> r is None && final(self).glyphs@ == old(
                self,
            ).glyphs@,
            index < old(self).glyphs@.len() ==> r is Some && *r->Some_0 == old(self).glyphs@[index as int]
                && final(self).glyphs@ == old(self).glyphs@.update(
                index as int,
                *final(r->Some_0),
            ),
    {
        if index < self.glyphs.len() {
            Some(&mut self.glyphs[index])
        } else {
            None
        }
    }

    /// The glyph with this id.
    pub fn get_glyph(&self, index: usize) -> (r: Option<&Glyph>)
        ensures
            index < self.glyphs@.len() ==> r == Some(&self.glyphs@[index as int]),
            index >= self.glyphs@.len() ==> r is None,
    {
        if index < self.glyphs.len() {
            Some(&self.glyphs[index])
        } else {
            None
        }
    }
}

} // verus!
