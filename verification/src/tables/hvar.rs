//! The `HVAR` and `VVAR` tables: variations of the metrics; only the headers are decoded.

use crate::error::{truncated, TtfError};
use crate::stream::FontReader;
use crate::tables::TtfTable;
use crate::wire::be_u32;
use vstd::prelude::*;

verus! {

/// The header of the horizontal metrics variations table.
#[derive(Debug, Clone, Copy)]
pub struct HvarTable {
    pub version: u32,
    pub variation_region_list_offset: u32,
    pub item_variation_store_offset: u32,
}

impl HvarTable {
    /// The table is what the 12 bytes at `s[p..]` encode.
    pub open spec fn decodes(self, s: Seq<u8>, p: int) -> bool {
        &&& self.version == be_u32(s, p)
        &&& self.variation_region_list_offset == be_u32(s, p + 4)
        &&& self.item_variation_store_offset == be_u32(s, p + 8)
    }
}

impl TtfTable for HvarTable {
    /// Decodes the header of the table and moves past it. Fails with an end-of-data error,
    /// leaving the cursor where it was, where fewer than 12 bytes remain.
    fn from_reader(reader: &mut FontReader, length: u32) -> (r: Result<Self, TtfError>)
        ensures
            final(reader)@.data == old(reader)@.data,
            r is Ok <==> old(reader)@.has(12),
            r matches Ok(t) ==> t.decodes(old(reader)@.data, old(reader)@.pos) && final(reader)@
                == old(reader)@.advance(12),
            r matches Err(e) ==> final(reader)@ == old(reader)@ && e.is_truncated(),
    {
        if reader.remaining() < 12 {
            return Err(truncated());
        }
        let version = reader.peek_u32(0);
        let variation_region_list_offset = reader.peek_u32(4);
        let item_variation_store_offset = reader.peek_u32(8);
        reader.advance_by(12);
        Ok(
            HvarTable {
                version,
                variation_region_list_offset,
                item_variation_store_offset,
            },
        )
    }
}

/// The header of the vertical metrics variations table.
#[derive(Debug, Clone, Copy)]
pub struct VvarTable {
    pub version: u32,
    pub variation_region_list_offset: u32,
    pub item_variation_store_offset: u32,
}

impl VvarTable {
    /// The table is what the 12 bytes at `s[p..]` encode.
    pub open spec fn decodes(self, s: Seq<u8>, p: int) -> bool {
        &&& self.version == be_u32(s, p)
        &&& self.variation_region_list_offset == be_u32(s, p + 4)
        &&& self.item_variation_store_offset == be_u32(s, p + 8)
    }
}

impl TtfTable for VvarTable {
    /// Decodes the header of the table and moves past it. Fails with an end-of-data error,
    /// leaving the cursor where it was, where fewer than 12 bytes remain.
    fn from_reader(reader: &mut FontReader, length: u32) -> (r: Result<Self, TtfError>)
        ensures
            final(reader)@.data == old(reader)@.data,
            r is Ok <==> old(reader)@.has(12),
            r matches Ok(t) ==> t.decodes(old(reader)@.data, old(reader)@.pos) && final(reader)@
                == old(reader)@.advance(12),
            r matches Err(e) ==> final(reader)@ == old(reader)@ && e.is_truncated(),
    {
        if reader.remaining() < 12 {
            return Err(truncated());
        }
        let version = reader.peek_u32(0);
        let variation_region_list_offset = reader.peek_u32(4);
        let item_variation_store_offset = reader.peek_u32(8);
        reader.advance_by(12);
        Ok(
            VvarTable {
                version,
                variation_region_list_offset,
                item_variation_store_offset,
            },
        )
    }
}

} // verus!
