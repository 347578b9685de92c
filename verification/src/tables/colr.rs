//! The `COLR` table: colour layers of glyphs; only the header is decoded.

use crate::error::{truncated, TtfError};
use crate::stream::FontReader;
use crate::tables::TtfTable;
use crate::wire::{be_u16, be_u32};
use vstd::prelude::*;

verus! {

/// A glyph that is drawn in layers.
#[derive(Debug, Clone, Copy)]
pub struct BaseGlyphRecord {
    pub glyph_id: u16,
    pub first_layer_index: u16,
    pub num_layers: u16,
}

/// One layer: a glyph and the palette entry it is drawn in.
#[derive(Debug, Clone, Copy)]
pub struct LayerRecord {
    pub glyph_id: u16,
    pub palette_entry_index: u16,
}

/// A box that clips a glyph: xMin, yMin, xMax, yMax.
#[derive(Debug, Clone, Copy)]
pub struct ClipBox {
    pub format: u8,
    pub clip_box: [i32; 4],
}

/// The header of the colour table; the records are not decoded and the lists stay empty.
#[derive(Debug, Clone)]
pub struct ColrTable {
    pub version: u16,
    pub num_base_glyph_records: u32,
    pub num_layer_records: u32,
    pub num_clip_boxes: u32,
    pub base_glyph_records: Vec<BaseGlyphRecord>,
    pub layer_records: Vec<LayerRecord>,
    pub clip_boxes: Vec<ClipBox>,
}

impl ColrTable {
    /// The table is what the 14 bytes at `s[p..]` encode.
    pub open spec fn decodes(self, s: Seq<u8>, p: int) -> bool {
        &&& self.version == be_u16(s, p)
        &&& self.num_base_glyph_records == be_u32(s, p + 2)
        &&& self.num_layer_records == be_u32(s, p + 6)
        &&& self.num_clip_boxes == be_u32(s, p + 10)
        &&& self.base_glyph_records@.len() == 0
        &&& self.layer_records@.len() == 0
        &&& self.clip_boxes@.len() == 0
    }
}

impl TtfTable for ColrTable {
    /// Decodes the header of the table and moves past it. Fails with an end-of-data error,
    /// leaving the cursor where it was, where fewer than 14 bytes remain.
    fn from_reader(reader: &mut FontReader, length: u32) -> (r: Result<Self, TtfError>)
        ensures
            final(reader)@.data == old(reader)@.data,
            r is Ok <==> old(reader)@.has(14),
            r matches Ok(t) ==> t.decodes(old(reader)@.data, old(reader)@.pos) && final(reader)@
                == old(reader)@.advance(14),
            r matches Err(e) ==> final(reader)@ == old(reader)@ && e.is_truncated(),
    {
        if reader.remaining() < 14 {
            return Err(truncated());
        }
        let version = reader.peek_u16(0);
        let num_base_glyph_records = reader.peek_u32(2);
        let num_layer_records = reader.peek_u32(6);
        let num_clip_boxes = reader.peek_u32(10);
        reader.advance_by(14);
        Ok(
            ColrTable {
                version,
                num_base_glyph_records,
                num_layer_records,
                num_clip_boxes,
                base_glyph_records: Vec::new(),
                layer_records: Vec::new(),
                clip_boxes: Vec::new(),
            },
        )
    }
}

} // verus!
