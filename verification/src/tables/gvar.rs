//! The `gvar` table: variations of the glyph outlines; only the header is decoded.

use crate::error::{truncated, TtfError};
use crate::stream::FontReader;
use crate::tables::TtfTable;
use crate::wire::{be_u16, be_u32};
use vstd::prelude::*;

verus! {

/// The variations of one glyph.
#[derive(Debug, Clone)]
pub struct GlyphVariationData {
    pub glyph_id: u16,
    pub variations: Vec<Variation>,
}

/// One variation: the tuple it belongs to and its packed data.
#[derive(Debug, Clone)]
pub struct Variation {
    pub tuple_index: u16,
    pub variation_data: Vec<u8>,
}

/// The header of the glyph variations table; the variation data is not decoded and the list stays empty.
#[derive(Debug, Clone)]
pub struct GvarTable {
    pub version: u32,
    pub axes_array_offset: u16,
    pub shared_tuples_count: u16,
    pub shared_tuples_offset: u32,
    pub glyph_variation_data: Vec<GlyphVariationData>,
}

impl GvarTable {
    /// The table is what the 12 bytes at `s[p..]` encode.
    pub open spec fn decodes(self, s: Seq<u8>, p: int) -> bool {
        &&& self.version == be_u32(s, p)
        &&& self.axes_array_offset == be_u16(s, p + 4)
        &&& self.shared_tuples_count == be_u16(s, p + 6)
        &&& self.shared_tuples_offset == be_u32(s, p + 8)
        &&& self.glyph_variation_data@.len() == 0
    }
}

impl TtfTable for GvarTable {
    /// Decodes the header of the table and moves past it. Fails with an end-of-data error,
    /// leaving the cursor where it was, where fewer than 12 bytes remain.
    fn from_reader(reader: &mut FontReader, length: u32) -> (r: Result<Self, TtfError>)
        ensures
            final(reader)@.data == old(reader)@.data,
            r is Ok <==> old(reader)@.has(12),
            r matches Ok(t) ==> t.decodes(old(reader)@.data, old(reader)@.pos) && final(reader)@
                == old(reader)@.advance(12),
            r matches Err(e) ==> final(reader)@ == old(reader)@ && e.is_truncated(),
    {
        if reader.remaining() < 12 {
            return Err(truncated());
        }
        let version = reader.peek_u32(0);
        let axes_array_offset = reader.peek_u16(4);
        let shared_tuples_count = reader.peek_u16(6);
        let shared_tuples_offset = reader.peek_u32(8);
        reader.advance_by(12);
        Ok(
            GvarTable {
                version,
                axes_array_offset,
                shared_tuples_count,
                shared_tuples_offset,
                glyph_variation_data: Vec::new(),
            },
        )
    }
}

} // verus!
