//! The `post` table: what a PostScript printer needs to know; only the fixed header is decoded.

use crate::error::{truncated, TtfError};
use crate::fixed::Fixed;
use crate::stream::FontReader;
use crate::tables::head::consumed;
use crate::tables::TtfTable;
use crate::wire::{be_i16, be_i32, be_u32};
use vstd::prelude::*;

verus! {

/// The `post` table.
#[derive(Debug, Clone, Copy)]
pub struct PostTable {
    pub format: Fixed,
    pub italic_angle: Fixed,
    pub underline_position: i16,
    pub underline_thickness: i16,
    pub is_fixed_pitch: u32,
    pub min_mem_type42: u32,
    pub max_mem_type42: u32,
    pub min_mem_type1: u32,
    pub max_mem_type1: u32,
}

impl PostTable {
    /// The raw bits of format 1.0.
    pub const VERSION_1_0: i32 = 0x1_0000;

    /// The raw bits of format 2.0.
    pub const VERSION_2_0: i32 = 0x2_0000;

    /// The raw bits of format 3.0.
    pub const VERSION_3_0: i32 = 0x3_0000;

    /// The raw bits of format 4.0.
    pub const VERSION_4_0: i32 = 0x4_0000;

    /// The table is what the 32 bytes at `s[p..]` encode.
    pub open spec fn decodes(self, s: Seq<u8>, p: int) -> bool {
        &&& self.format.raw == be_i32(s, p)
        &&& self.italic_angle.raw == be_i32(s, p + 4)
        &&& self.underline_position == be_i16(s, p + 8)
        &&& self.underline_thickness == be_i16(s, p + 10)
        &&& self.is_fixed_pitch == be_u32(s, p + 12)
        &&& self.min_mem_type42 == be_u32(s, p + 16)
        &&& self.max_mem_type42 == be_u32(s, p + 20)
        &&& self.min_mem_type1 == be_u32(s, p + 24)
        &&& self.max_mem_type1 == be_u32(s, p + 28)
    }
}

impl TtfTable for PostTable {
    /// Decodes the table and moves past it, and past the rest of a longer declared length.
    /// Fails with an end-of-data error, leaving the cursor where it was, where the bytes run
    /// out.
    fn from_reader(reader: &mut FontReader, length: u32) -> (r: Result<Self, TtfError>)
        ensures
            final(reader)@.data == old(reader)@.data,
            r is Ok <==> old(reader)@.has(consumed(32, length as int)),
            r matches Ok(t) ==> t.decodes(old(reader)@.data, old(reader)@.pos) && final(reader)@
                == old(reader)@.advance(consumed(32, length as int)),
            r matches Err(e) ==> final(reader)@ == old(reader)@ && e.is_truncated(),
    {
        let total: usize = if length as usize > 32 {
            length as usize
        } else {
            32
        };
        if reader.remaining() < total {
            return Err(truncated());
        }
        let format = reader.peek_fixed(0);
        let italic_angle = reader.peek_fixed(4);
        let underline_position = reader.peek_i16(8);
        let underline_thickness = reader.peek_i16(10);
        let is_fixed_pitch = reader.peek_u32(12);
        let min_mem_type42 = reader.peek_u32(16);
        let max_mem_type42 = reader.peek_u32(20);
        let min_mem_type1 = reader.peek_u32(24);
        let max_mem_type1 = reader.peek_u32(28);
        reader.advance_by(total);
        Ok(
            PostTable {
                format,
                italic_angle,
                underline_position,
                underline_thickness,
                is_fixed_pitch,
                min_mem_type42,
                max_mem_type42,
                min_mem_type1,
                max_mem_type1,
            },
        )
    }
}

} // verus!
