//! The `hmtx` table: advance width and left side bearing of each glyph.

use crate::error::{truncated, TtfError};
use crate::stream::{FontReader, FontWriter};
use crate::tables::{TtfTableWrite, TAG_HMTX};
use crate::wire::{be_i16, be_u16, i16s_bytes, u16_bytes, unsigned};
use vstd::prelude::*;

verus! {

/// The horizontal metrics. The first glyphs have an entry of their own in `h_metrics`; the
/// glyphs after them share the last advance width and have a left side bearing each.
#[derive(Debug, Clone)]
pub struct HmtxTable {
    pub h_metrics: Vec<LongHorMetric>,
    pub left_side_bearings: Vec<i16>,
}

/// One glyph's advance width and left side bearing.
#[derive(Debug, Clone, Copy)]
pub struct LongHorMetric {
    pub advance_width: u16,
    pub lsb: i16,
}

/// The number of bare left side bearings in a table for `num_glyphs` glyphs of which
/// `num_h_metrics` have a full entry.
pub open spec fn bearings_count(num_glyphs: int, num_h_metrics: int) -> int {
    if num_glyphs > num_h_metrics {
        num_glyphs - num_h_metrics
    } else {
        0
    }
}

/// The encoding of the first `n` full entries.
pub open spec fn metrics_bytes(ms: Seq<LongHorMetric>, n: int) -> Seq<u8>
    decreases n,
{
    if n <= 0 {
        Seq::empty()
    } else {
        metrics_bytes(ms, n - 1) + u16_bytes(ms[n - 1].advance_width as int) + u16_bytes(
            unsigned(ms[n - 1].lsb as int, 0x8000),
        )
    }
}

impl HmtxTable {
    /// The advance width of a glyph: its own where it has a full entry, else the last one.
    pub open spec fn advance_width(self, glyph: int) -> int {
        if glyph < self.h_metrics@.len() {
            self.h_metrics@[glyph].advance_width as int
        } else if self.h_metrics@.len() > 0 {
            self.h_metrics@[self.h_metrics@.len() - 1].advance_width as int
        } else {
            0
        }
    }

    /// The left side bearing of a glyph: from its full entry, else from the bare bearings,
    /// else zero.
    pub open spec fn lsb(self, glyph: int) -> int {
        if glyph < self.h_metrics@.len() {
            self.h_metrics@[glyph].lsb as int
        } else if glyph - self.h_metrics@.len() < self.left_side_bearings@.len() {
            self.left_side_bearings@[glyph - self.h_metrics@.len()] as int
        } else {
            0
        }
    }

    /// The bytes a table of that shape takes.
    pub open spec fn size(num_glyphs: int, num_h_metrics: int) -> int {
        4 * num_h_metrics + 2 * bearings_count(num_glyphs, num_h_metrics)
    }

    /// The table is what the bytes at `s[p..]` encode.
    pub open spec fn decodes(self, s: Seq<u8>, p: int, num_glyphs: int, num_h_metrics: int) -> bool {
        &&& self.h_metrics@.len() == num_h_metrics
        &&& forall|i: int|
            0 <= i < num_h_metrics ==> (#[trigger] self.h_metrics@[i]).advance_width == be_u16(
                s,
                p + 4 * i,
            ) && self.h_metrics@[i].lsb == be_i16(s, p + 4 * i + 2)
        &&& self.left_side_bearings@.len() == bearings_count(num_glyphs, num_h_metrics)
        &&& forall|j: int|
            0 <= j < self.left_side_bearings@.len() ==> #[trigger] self.left_side_bearings@[j]
                == be_i16(s, p + 4 * num_h_metrics + 2 * j)
    }

    /// The bytes that encode the table.
    pub open spec fn encoding(self) -> Seq<u8> {
        metrics_bytes(self.h_metrics@, self.h_metrics@.len() as int) + i16s_bytes(
            self.left_side_bearings@,
            self.left_side_bearings@.len() as int,
        )
    }

    /// Reads `num_h_metrics` full entries and then one left side bearing for each further
    /// glyph. Fails with an end-of-data error, leaving the cursor where it was, where the
    /// bytes run out.
    #[verifier::loop_isolation(false)]
    pub fn from_reader(
        reader: &mut FontReader,
        length: u32,
        num_glyphs: u16,
        num_h_metrics: u16,
    ) -> (r: Result<HmtxTable, TtfError>)
        ensures
            final(reader)@.data == old(reader)@.data,
            r is Ok <==> old(reader)@.has(Self::size(num_glyphs as int, num_h_metrics as int)),
            r matches Ok(t) ==> t.decodes(
                old(reader)@.data,
                old(reader)@.pos,
                num_glyphs as int,
                num_h_metrics as int,
            ) && final(reader)@ == old(reader)@.advance(
                Self::size(num_glyphs as int, num_h_metrics as int),
            ),
            r matches Err(e) ==> final(reader)@ == old(reader)@ && e.is_truncated(),
    {
        let nh: usize = num_h_metrics as usize;
        let nl: usize = if num_glyphs > num_h_metrics {
            (num_glyphs - num_h_metrics) as usize
        } else {
            0
        };
        let total: usize = 4 * nh + 2 * nl;
        if reader.remaining() < total {
            return Err(truncated());
        }
        let ghost s = reader@.data;
        let ghost p = reader@.pos;
        let mut h_metrics: Vec<LongHorMetric> = Vec::with_capacity(nh);
        let mut i: usize = 0;
        while i < nh
            invariant
                i <= nh,
                reader@ == old(reader)@,
                h_metrics@.len() == i,
                forall|k: int|
                    0 <= k < i ==> (#[trigger] h_metrics@[k]).advance_width == be_u16(s, p + 4 * k)
                        && h_metrics@[k].lsb == be_i16(s, p + 4 * k + 2),
            decreases nh - i,
        {
            h_metrics.push(
                LongHorMetric {
                    advance_width: reader.peek_u16(4 * i),
                    lsb: reader.peek_i16(4 * i + 2),
                },
            );
            i = i + 1;
        }
        let mut left_side_bearings: Vec<i16> = Vec::with_capacity(nl);
        let mut j: usize = 0;
        while j < nl
            invariant
                j <= nl,
                reader@ == old(reader)@,
                left_side_bearings@.len() == j,
                forall|k: int|
                    0 <= k < j ==> #[trigger] left_side_bearings@[k] == be_i16(
                        s,
                        p + 4 * nh + 2 * k,
                    ),
            decreases nl - j,
        {
            left_side_bearings.push(reader.peek_i16(4 * nh + 2 * j));
            j = j + 1;
        }
        reader.advance_by(total);
        Ok(HmtxTable { h_metrics, left_side_bearings })
    }

    /// The advance width of a glyph: its own where it has a full entry, else that of the
    /// last full entry, and zero in a table without entries.
    pub fn get_advance_width(&self, glyph_index: u16) -> (w: u16)
        ensures
            w == self.advance_width(glyph_index as int),
    {
        let n = self.h_metrics.len();
        if (glyph_index as usize) < n {
            self.h_metrics[glyph_index as usize].advance_width
        } else if n > 0 {
            self.h_metrics[n - 1].advance_width
        } else {
            0
        }
    }

    /// The left side bearing of a glyph: from its full entry, else from the bare bearings
    /// that follow the full entries, and zero for a glyph past both.
    pub fn get_lsb(&self, glyph_index: u16) -> (b: i16)
        ensures
            b == self.lsb(glyph_index as int),
    {
        let n = self.h_metrics.len();
        let g = glyph_index as usize;
        if g < n {
            self.h_metrics[g].lsb
        } else if g - n < self.left_side_bearings.len() {
            self.left_side_bearings[g - n]
        } else {
            0
        }
    }

    /// The advance widths of the full entries, in order.
    pub fn advance_widths(&self) -> (ws: Vec<u16>)
        ensures
            ws@.len() == self.h_metrics@.len(),
            forall|i: int| 0 <= i < ws@.len() ==> ws@[i] == self.h_metrics@[i].advance_width,
    {
        let mut ws: Vec<u16> = Vec::with_capacity(self.h_metrics.len());
        let mut i: usize = 0;
        while i < self.h_metrics.len()
            invariant
                i <= self.h_metrics.len(),
                ws@.len() == i,
                forall|k: int| 0 <= k < i ==> ws@[k] == self.h_metrics@[k].advance_width,
            decreases self.h_metrics.len() - i,
        {
            ws.push(self.h_metrics[i].advance_width);
            i = i + 1;
        }
        ws
    }
}

impl TtfTableWrite for HmtxTable {
    fn table_tag() -> (tag: [u8; 4])
        ensures
            tag == TAG_HMTX,
    {
        TAG_HMTX
    }

    /// Appends the full entries and then the bare left side bearings.
    #[verifier::loop_isolation(false)]
    fn write(&self, writer: &mut FontWriter) -> (r: Result<(), TtfError>)
        ensures
            r is Ok,
            final(writer)@ == old(writer)@ + self.encoding(),
    {
        let mut i: usize = 0;
        assert(writer@ =~= old(writer)@ + metrics_bytes(self.h_metrics@, 0));
        while i < self.h_metrics.len()
            invariant
                i <= self.h_metrics.len(),
                writer@ == old(writer)@ + metrics_bytes(self.h_metrics@, i as int),
            decreases self.h_metrics.len() - i,
        {
            writer.write_u16(self.h_metrics[i].advance_width);
            writer.write_i16(self.h_metrics[i].lsb);
            i = i + 1;
            assert(writer@ =~= old(writer)@ + metrics_bytes(self.h_metrics@, i as int));
        }
        let ghost head = writer@;
        let mut j: usize = 0;
        assert(writer@ =~= head + i16s_bytes(self.left_side_bearings@, 0));
        while j < self.left_side_bearings.len()
            invariant
                j <= self.left_side_bearings.len(),
                writer@ == head + i16s_bytes(self.left_side_bearings@, j as int),
            decreases self.left_side_bearings.len() - j,
        {
            writer.write_i16(self.left_side_bearings[j]);
            j = j + 1;
            assert(writer@ =~= head + i16s_bytes(self.left_side_bearings@, j as int));
        }
        assert(writer@ =~= old(writer)@ + self.encoding());
        Ok(())
    }
}

} // verus!
