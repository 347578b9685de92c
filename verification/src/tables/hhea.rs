//! The `hhea` table: horizontal layout metrics of the whole font.

use crate::error::{truncated, TtfError};
use crate::fixed::Fixed;
use crate::stream::{FontReader, FontWriter};
use crate::tables::head::consumed;
use crate::tables::{TtfTable, TtfTableWrite, TAG_HHEA};
use crate::wire::{be_i16, be_i32, be_u16, u16_bytes, u32_bytes, unsigned};
use vstd::prelude::*;

verus! {

/// The `hhea` table.
#[derive(Debug, Clone, Copy)]
pub struct HheaTable {
    pub table_version: Fixed,
    pub ascent: i16,
    pub descent: i16,
    pub line_gap: i16,
    pub advance_width_max: u16,
    pub min_left_side_bearing: i16,
    pub min_right_side_bearing: i16,
    pub x_max_extent: i16,
    pub caret_slope_rise: i16,
    pub caret_slope_run: i16,
    pub caret_offset: i16,
    pub reserved0: i16,
    pub reserved1: i16,
    pub reserved2: i16,
    pub reserved3: i16,
    pub reserved4: i16,
    pub metric_data_format: i16,
    pub number_of_h_metrics: u16,
}

impl HheaTable {
    /// The distance from one baseline to the next: ascent minus descent plus line gap.
    pub fn get_line_height(&self) -> (h: i32)
        ensures
            h == self.ascent - self.descent + self.line_gap,
    {
        self.ascent as i32 - self.descent as i32 + self.line_gap as i32
    }

    /// The ascent, under its other name.
    pub fn ascender(&self) -> (a: i16)
        ensures
            a == self.ascent,
    {
        self.ascent
    }

    /// The descent, under its other name.
    pub fn descender(&self) -> (d: i16)
        ensures
            d == self.descent,
    {
        self.descent
    }

    /// The table is what the 38 bytes at `s[p..]` encode.
    pub open spec fn decodes(self, s: Seq<u8>, p: int) -> bool {
        &&& self.table_version.raw == be_i32(s, p)
        &&& self.ascent == be_i16(s, p + 4)
        &&& self.descent == be_i16(s, p + 6)
        &&& self.line_gap == be_i16(s, p + 8)
        &&& self.advance_width_max == be_u16(s, p + 10)
        &&& self.min_left_side_bearing == be_i16(s, p + 12)
        &&& self.min_right_side_bearing == be_i16(s, p + 14)
        &&& self.x_max_extent == be_i16(s, p + 16)
        &&& self.caret_slope_rise == be_i16(s, p + 18)
        &&& self.caret_slope_run == be_i16(s, p + 20)
        &&& self.caret_offset == be_i16(s, p + 22)
        &&& self.reserved0 == be_i16(s, p + 24)
        &&& self.reserved1 == be_i16(s, p + 26)
        &&& self.reserved2 == be_i16(s, p + 28)
        &&& self.reserved3 == be_i16(s, p + 30)
        &&& self.reserved4 == be_i16(s, p + 32)
        &&& self.metric_data_format == be_i16(s, p + 34)
        &&& self.number_of_h_metrics == be_u16(s, p + 36)
    }

    /// The bytes that encode the table.
    pub open spec fn encoding(self) -> Seq<u8> {
        u32_bytes(unsigned(self.table_version.raw as int, 0x8000_0000))
            + u16_bytes(unsigned(self.ascent as int, 0x8000))
            + u16_bytes(unsigned(self.descent as int, 0x8000))
            + u16_bytes(unsigned(self.line_gap as int, 0x8000))
            + u16_bytes(self.advance_width_max as int)
            + u16_bytes(unsigned(self.min_left_side_bearing as int, 0x8000))
            + u16_bytes(unsigned(self.min_right_side_bearing as int, 0x8000))
            + u16_bytes(unsigned(self.x_max_extent as int, 0x8000))
            + u16_bytes(unsigned(self.caret_slope_rise as int, 0x8000))
            + u16_bytes(unsigned(self.caret_slope_run as int, 0x8000))
            + u16_bytes(unsigned(self.caret_offset as int, 0x8000))
            + u16_bytes(unsigned(self.reserved0 as int, 0x8000))
            + u16_bytes(unsigned(self.reserved1 as int, 0x8000))
            + u16_bytes(unsigned(self.reserved2 as int, 0x8000))
            + u16_bytes(unsigned(self.reserved3 as int, 0x8000))
            + u16_bytes(unsigned(self.reserved4 as int, 0x8000))
            + u16_bytes(unsigned(self.metric_data_format as int, 0x8000))
            + u16_bytes(self.number_of_h_metrics as int)
    }
}

impl TtfTable for HheaTable {
    /// Decodes the table and moves past it, and past the rest of a longer declared length.
    /// Fails with an end-of-data error, leaving the cursor where it was, where the bytes run
    /// out.
    fn from_reader(reader: &mut FontReader, length: u32) -> (r: Result<Self, TtfError>)
        ensures
            final(reader)@.data == old(reader)@.data,
            r is Ok <==> old(reader)@.has(consumed(38, length as int)),
            r matches Ok(t) ==> t.decodes(old(reader)@.data, old(reader)@.pos) && final(reader)@
                == old(reader)@.advance(consumed(38, length as int)),
            r matches Err(e) ==> final(reader)@ == old(reader)@ && e.is_truncated(),
    {
        let total: usize = if length as usize > 38 {
            length as usize
        } else {
            38
        };
        if reader.remaining() < total {
            return Err(truncated());
        }
        let table_version = reader.peek_fixed(0);
        let ascent = reader.peek_i16(4);
        let descent = reader.peek_i16(6);
        let line_gap = reader.peek_i16(8);
        let advance_width_max = reader.peek_u16(10);
        let min_left_side_bearing = reader.peek_i16(12);
        let min_right_side_bearing = reader.peek_i16(14);
        let x_max_extent = reader.peek_i16(16);
        let caret_slope_rise = reader.peek_i16(18);
        let caret_slope_run = reader.peek_i16(20);
        let caret_offset = reader.peek_i16(22);
        let reserved0 = reader.peek_i16(24);
        let reserved1 = reader.peek_i16(26);
        let reserved2 = reader.peek_i16(28);
        let reserved3 = reader.peek_i16(30);
        let reserved4 = reader.peek_i16(32);
        let metric_data_format = reader.peek_i16(34);
        let number_of_h_metrics = reader.peek_u16(36);
        reader.advance_by(total);
        Ok(
            HheaTable {
                table_version,
                ascent,
                descent,
                line_gap,
                advance_width_max,
                min_left_side_bearing,
                min_right_side_bearing,
                x_max_extent,
                caret_slope_rise,
                caret_slope_run,
                caret_offset,
                reserved0,
                reserved1,
                reserved2,
                reserved3,
                reserved4,
                metric_data_format,
                number_of_h_metrics,
            },
        )
    }
}

impl TtfTableWrite for HheaTable {
    fn table_tag() -> (tag: [u8; 4])
        ensures
            tag == TAG_HHEA,
    {
        TAG_HHEA
    }

    /// Appends the 38 bytes that encode the table.
    fn write(&self, writer: &mut FontWriter) -> (r: Result<(), TtfError>)
        ensures
            r is Ok,
            final(writer)@ == old(writer)@ + self.encoding(),
    {
        writer.write_fixed(self.table_version);
        writer.write_i16(self.ascent);
        writer.write_i16(self.descent);
        writer.write_i16(self.line_gap);
        writer.write_u16(self.advance_width_max);
        writer.write_i16(self.min_left_side_bearing);
        writer.write_i16(self.min_right_side_bearing);
        writer.write_i16(self.x_max_extent);
        writer.write_i16(self.caret_slope_rise);
        writer.write_i16(self.caret_slope_run);
        writer.write_i16(self.caret_offset);
        writer.write_i16(self.reserved0);
        writer.write_i16(self.reserved1);
        writer.write_i16(self.reserved2);
        writer.write_i16(self.reserved3);
        writer.write_i16(self.reserved4);
        writer.write_i16(self.metric_data_format);
        writer.write_u16(self.number_of_h_metrics);
        assert(writer@ =~= old(writer)@ + self.encoding());
        Ok(())
    }
}

} // verus!
