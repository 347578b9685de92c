//! The `BASE` table: baseline data; only the header is decoded.

use crate::error::{truncated, TtfError};
use crate::stream::FontReader;
use crate::tables::TtfTable;
use crate::wire::be_u32;
use vstd::prelude::*;

verus! {

/// The header of the baseline table.
#[derive(Debug, Clone, Copy)]
pub struct BaseTable {
    pub version: u32,
    pub horiz_axis_offset: u32,
    pub vert_axis_offset: u32,
}

impl BaseTable {
    /// The table is what the 12 bytes at `s[p..]` encode.
    pub open spec fn decodes(self, s: Seq<u8>, p: int) -> bool {
        &&& self.version == be_u32(s, p)
        &&& self.horiz_axis_offset == be_u32(s, p + 4)
        &&& self.vert_axis_offset == be_u32(s, p + 8)
    }
}

impl TtfTable for BaseTable {
    /// Decodes the header of the table and moves past it. Fails with an end-of-data error,
    /// leaving the cursor where it was, where fewer than 12 bytes remain.
    fn from_reader(reader: &mut FontReader, length: u32) -> (r: Result<Self, TtfError>)
        ensures
            final(reader)@.data == old(reader)@.data,
            r is Ok <==> old(reader)@.has(12),
            r matches Ok(t) ==> t.decodes(old(reader)@.data, old(reader)@.pos) && final(reader)@
                == old(reader)@.advance(12),
            r matches Err(e) ==> final(reader)@ == old(reader)@ && e.is_truncated(),
    {
        if reader.remaining() < 12 {
            return Err(truncated());
        }
        let version = reader.peek_u32(0);
        let horiz_axis_offset = reader.peek_u32(4);
        let vert_axis_offset = reader.peek_u32(8);
        reader.advance_by(12);
        Ok(
            BaseTable {
                version,
                horiz_axis_offset,
                vert_axis_offset,
            },
        )
    }
}

} // verus!
