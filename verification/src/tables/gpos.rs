//! The `GPOS` and `JSTF` tables: glyph positioning and justification. Only the headers and
//! the lists of offsets are decoded.

use crate::error::{truncated, TtfError};
use crate::stream::FontReader;
use crate::tables::TtfTable;
use crate::wire::{be_u16, be_u32};
use vstd::prelude::*;

verus! {

/// The header of the glyph positioning table. The offset to the feature variations exists
/// from version 0x00010000 on.
#[derive(Debug, Clone, Copy)]
pub struct GposTable {
    pub version: u32,
    pub script_list_offset: u32,
    pub feature_list_offset: u32,
    pub lookup_list_offset: u32,
    pub feature_variations_offset: Option<u32>,
}

/// The justification table: the offsets of the lookups for substitution and for positioning.
#[derive(Debug, Clone)]
pub struct JstfTable {
    pub version: u32,
    pub gsub_lookup_count: u16,
    pub gsub_lookup_offsets: Vec<u32>,
    pub gpos_lookup_count: u16,
    pub gpos_lookup_offsets: Vec<u32>,
}

impl GposTable {
    /// The bytes that a header of this version takes.
    pub open spec fn size(version: int) -> int {
        if version >= 0x0001_0000 {
            20
        } else {
            16
        }
    }

    /// The header is what the bytes at `s[p..]` encode.
    pub open spec fn decodes(self, s: Seq<u8>, p: int) -> bool {
        &&& self.version == be_u32(s, p)
        &&& self.script_list_offset == be_u32(s, p + 4)
        &&& self.feature_list_offset == be_u32(s, p + 8)
        &&& self.lookup_list_offset == be_u32(s, p + 12)
        &&& self.feature_variations_offset == if self.version >= 0x0001_0000 {
            Some(be_u32(s, p + 16) as u32)
        } else {
            None
        }
    }
}

impl TtfTable for GposTable {
    /// Decodes the header and moves past it. Fails with an end-of-data error, leaving the
    /// cursor where it was, where the bytes run out.
    fn from_reader(reader: &mut FontReader, length: u32) -> (r: Result<Self, TtfError>)
        ensures
            final(reader)@.data == old(reader)@.data,
            r is Ok <==> old(reader)@.has(16) && old(reader)@.has(
                Self::size(be_u32(old(reader)@.data, old(reader)@.pos)),
            ),
            r matches Ok(t) ==> t.decodes(old(reader)@.data, old(reader)@.pos) && final(reader)@
                == old(reader)@.advance(Self::size(t.version as int)),
            r matches Err(e) ==> final(reader)@ == old(reader)@ && e.is_truncated(),
    {
        if reader.remaining() < 16 {
            return Err(truncated());
        }
        let version = reader.peek_u32(0);
        let script_list_offset = reader.peek_u32(4);
        let feature_list_offset = reader.peek_u32(8);
        let lookup_list_offset = reader.peek_u32(12);
        if version >= 0x0001_0000 {
            if reader.remaining() < 20 {
                return Err(truncated());
            }
            let feature_variations_offset = Some(reader.peek_u32(16));
            reader.advance_by(20);
            Ok(
                GposTable {
                    version,
                    script_list_offset,
                    feature_list_offset,
                    lookup_list_offset,
                    feature_variations_offset,
                },
            )
        } else {
            reader.advance_by(16);
            Ok(
                GposTable {
                    version,
                    script_list_offset,
                    feature_list_offset,
                    lookup_list_offset,
                    feature_variations_offset: None,
                },
            )
        }
    }
}

impl JstfTable {
    /// Where the second list of the table at `s[p..]` starts: behind the version, the first
    /// count with its two bytes of filling, and the first list.
    pub open spec fn second_list(s: Seq<u8>, p: int) -> int {
        p + 8 + 4 * be_u16(s, p + 4)
    }

    /// The bytes that the table at `s[p..]` takes.
    pub open spec fn size(s: Seq<u8>, p: int) -> int {
        Self::second_list(s, p) + 4 + 4 * be_u16(s, Self::second_list(s, p)) - p
    }

    /// The table is what the bytes at `s[p..]` encode.
    pub open spec fn decodes(self, s: Seq<u8>, p: int) -> bool {
        let q = Self::second_list(s, p);
        &&& self.version == be_u32(s, p)
        &&& self.gsub_lookup_count == be_u16(s, p + 4)
        &&& self.gsub_lookup_offsets@.len() == self.gsub_lookup_count
        &&& forall|i: int|
            0 <= i < self.gsub_lookup_count ==> #[trigger] self.gsub_lookup_offsets@[i] == be_u32(
                s,
                p + 8 + 4 * i,
            )
        &&& self.gpos_lookup_count == be_u16(s, q)
        &&& self.gpos_lookup_offsets@.len() == self.gpos_lookup_count
        &&& forall|i: int|
            0 <= i < self.gpos_lookup_count ==> #[trigger] self.gpos_lookup_offsets@[i] == be_u32(
                s,
                q + 4 + 4 * i,
            )
    }
}

impl TtfTable for JstfTable {
    /// Decodes the table and moves past it. Fails with an end-of-data error, leaving the
    /// cursor where it was, where the bytes run out.
    fn from_reader(reader: &mut FontReader, length: u32) -> (r: Result<Self, TtfError>)
        ensures
            final(reader)@.data == old(reader)@.data,
            r is Ok <==> {
                let s = old(reader)@.data;
                let p = old(reader)@.pos;
                p + 8 <= s.len() && Self::second_list(s, p) + 4 <= s.len() && p + Self::size(s, p)
                    <= s.len()
            },
            r matches Ok(t) ==> t.decodes(old(reader)@.data, old(reader)@.pos) && final(reader)@
                == old(reader)@.advance(Self::size(old(reader)@.data, old(reader)@.pos)),
            r matches Err(e) ==> final(reader)@ == old(reader)@ && e.is_truncated(),
    {
        let room = reader.remaining();
        if room < 8 {
            return Err(truncated());
        }
        let version = reader.peek_u32(0);
        let gsub_lookup_count = reader.peek_u16(4);
        let second: usize = 8 + 4 * (gsub_lookup_count as usize);
        if room < second + 4 {
            return Err(truncated());
        }
        let gpos_lookup_count = reader.peek_u16(second);
        let total: usize = second + 4 + 4 * (gpos_lookup_count as usize);
        if room < total {
            return Err(truncated());
        }
        let gsub_lookup_offsets = reader.peek_u32_array(8, gsub_lookup_count as usize);
        let gpos_lookup_offsets = reader.peek_u32_array(second + 4, gpos_lookup_count as usize);
        reader.advance_by(total);
        Ok(
            JstfTable {
                version,
                gsub_lookup_count,
                gsub_lookup_offsets,
                gpos_lookup_count,
                gpos_lookup_offsets,
            },
        )
    }
}

} // verus!
