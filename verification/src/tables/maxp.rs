//! The `maxp` table: the number of glyphs and the memory a rasterizer needs.

use crate::error::{truncated, TtfError};
use crate::fixed::Fixed;
use crate::stream::FontReader;
use crate::tables::TtfTable;
use crate::wire::{be_i32, be_u16};
use vstd::prelude::*;

verus! {

/// The maximum profile. A table of version 0.5 holds the glyph count alone; any other holds
/// all the fields.
#[derive(Debug, Clone, Copy)]
pub struct MaxpTable {
    pub version: Fixed,
    pub num_glyphs: u16,
    pub max_points: Option<u16>,
    pub max_contours: Option<u16>,
    pub max_composite_points: Option<u16>,
    pub max_composite_contours: Option<u16>,
    pub max_zones: Option<u16>,
    pub max_twilight_points: Option<u16>,
    pub max_storage: Option<u16>,
    pub max_function_defs: Option<u16>,
    pub max_instruction_defs: Option<u16>,
    pub max_stack_elements: Option<u16>,
    pub max_size_of_instructions: Option<u16>,
    pub max_component_elements: Option<u16>,
    pub max_component_depth: Option<u16>,
}

impl MaxpTable {
    /// The raw bits of version 0.5.
    pub const VERSION_0_5: i32 = 0x8000;

    /// The raw bits of version 1.0.
    pub const VERSION_1_0: i32 = 0x1_0000;

    pub fn is_version_0_5(&self) -> (b: bool)
        ensures
            b == (self.version.raw == 0x8000),
    {
        self.version.raw == 0x8000
    }

    pub fn is_version_1_0(&self) -> (b: bool)
        ensures
            b == (self.version.raw == 0x1_0000),
    {
        self.version.raw == 0x1_0000
    }

    /// The number of bytes a table with this version takes.
    pub open spec fn size(version_raw: int) -> int {
        if version_raw == 0x8000 {
            6
        } else {
            32
        }
    }

    /// The table is what the bytes at `s[p..]` encode.
    pub open spec fn decodes(self, s: Seq<u8>, p: int) -> bool {
        &&& self.version.raw == be_i32(s, p)
        &&& self.num_glyphs == be_u16(s, p + 4)
        &&& if self.version.raw == 0x8000 {
            &&& self.max_points is None
            &&& self.max_contours is None
            &&& self.max_composite_points is None
            &&& self.max_composite_contours is None
            &&& self.max_zones is None
            &&& self.max_twilight_points is None
            &&& self.max_storage is None
            &&& self.max_function_defs is None
            &&& self.max_instruction_defs is None
            &&& self.max_stack_elements is None
            &&& self.max_size_of_instructions is None
            &&& self.max_component_elements is None
            &&& self.max_component_depth is None
        } else {
            &&& self.max_points == Some(be_u16(s, p + 6) as u16)
            &&& self.max_contours == Some(be_u16(s, p + 8) as u16)
            &&& self.max_composite_points == Some(be_u16(s, p + 10) as u16)
            &&& self.max_composite_contours == Some(be_u16(s, p + 12) as u16)
            &&& self.max_zones == Some(be_u16(s, p + 14) as u16)
            &&& self.max_twilight_points == Some(be_u16(s, p + 16) as u16)
            &&& self.max_storage == Some(be_u16(s, p + 18) as u16)
            &&& self.max_function_defs == Some(be_u16(s, p + 20) as u16)
            &&& self.max_instruction_defs == Some(be_u16(s, p + 22) as u16)
            &&& self.max_stack_elements == Some(be_u16(s, p + 24) as u16)
            &&& self.max_size_of_instructions == Some(be_u16(s, p + 26) as u16)
            &&& self.max_component_elements == Some(be_u16(s, p + 28) as u16)
            &&& self.max_component_depth == Some(be_u16(s, p + 30) as u16)
        }
    }
}

impl TtfTable for MaxpTable {
    /// Decodes the table and moves past it. Fails with an end-of-data error, leaving the
    /// cursor where it was, where the bytes run out. The declared length plays no part.
    fn from_reader(reader: &mut FontReader, length: u32) -> (r: Result<Self, TtfError>)
        ensures
            final(reader)@.data == old(reader)@.data,
            r is Ok <==> old(reader)@.has(6) && old(reader)@.has(
                Self::size(be_i32(old(reader)@.data, old(reader)@.pos)),
            ),
            r matches Ok(t) ==> t.decodes(old(reader)@.data, old(reader)@.pos) && final(reader)@
                == old(reader)@.advance(Self::size(t.version.raw as int)),
            r matches Err(e) ==> final(reader)@ == old(reader)@ && e.is_truncated(),
    {
        if reader.remaining() < 6 {
            return Err(truncated());
        }
        let version = reader.peek_fixed(0);
        let num_glyphs = reader.peek_u16(4);
        if version.raw == 0x8000 {
            reader.advance_by(6);
            return Ok(
                MaxpTable {
                    version,
                    num_glyphs,
                    max_points: None,
                    max_contours: None,
                    max_composite_points: None,
                    max_composite_contours: None,
                    max_zones: None,
                    max_twilight_points: None,
                    max_storage: None,
                    max_function_defs: None,
                    max_instruction_defs: None,
                    max_stack_elements: None,
                    max_size_of_instructions: None,
                    max_component_elements: None,
                    max_component_depth: None,
                },
            );
        }
        if reader.remaining() < 32 {
            return Err(truncated());
        }
        let max_points = Some(reader.peek_u16(6));
        let max_contours = Some(reader.peek_u16(8));
        let max_composite_points = Some(reader.peek_u16(10));
        let max_composite_contours = Some(reader.peek_u16(12));
        let max_zones = Some(reader.peek_u16(14));
        let max_twilight_points = Some(reader.peek_u16(16));
        let max_storage = Some(reader.peek_u16(18));
        let max_function_defs = Some(reader.peek_u16(20));
        let max_instruction_defs = Some(reader.peek_u16(22));
        let max_stack_elements = Some(reader.peek_u16(24));
        let max_size_of_instructions = Some(reader.peek_u16(26));
        let max_component_elements = Some(reader.peek_u16(28));
        let max_component_depth = Some(reader.peek_u16(30));
        reader.advance_by(32);
        Ok(
            MaxpTable {
                version,
                num_glyphs,
                max_points,
                max_contours,
                max_composite_points,
                max_composite_contours,
                max_zones,
                max_twilight_points,
                max_storage,
                max_function_defs,
                max_instruction_defs,
                max_stack_elements,
                max_size_of_instructions,
                max_component_elements,
                max_component_depth,
            },
        )
    }
}

} // verus!
