//! The `head` table: global facts about the font.

use crate::error::{lift, truncated, TtfError};
use crate::fixed::Fixed;
use crate::stream::{FontReader, FontWriter};
use crate::tables::{TtfTable, TtfTableWrite, TAG_HEAD};
use crate::wire::{be_i16, be_i32, be_u16, be_u32, be_u64, u16_bytes, u32_bytes, u64_bytes, unsigned};
use vstd::prelude::*;

verus! {

/// The font header.
#[derive(Debug, Clone, Copy)]
pub struct HeadTable {
    pub table_version: Fixed,
    pub font_revision: Fixed,
    pub checksum_adjustment: u32,
    pub magic_number: u32,
    pub flags: u16,
    pub units_per_em: u16,
    pub created: u64,
    pub modified: u64,
    pub x_min: i16,
    pub y_min: i16,
    pub x_max: i16,
    pub y_max: i16,
    pub mac_style: u16,
    pub lowest_rec_ppem: u16,
    pub font_direction_hint: i16,
    pub index_to_loc_format: i16,
    pub glyph_data_format: i16,
}

/// The value every `head` table carries at offset 12.
pub const HEAD_MAGIC_NUMBER: u32 = 0x5F0F3CF5;

/// The size of a `head` table.
pub const HEAD_SIZE: usize = 54;

/// The number of bytes a table parser consumes: the fixed part, or the declared length where
/// that is longer.
pub open spec fn consumed(fixed: int, length: int) -> int {
    if length > fixed {
        length
    } else {
        fixed
    }
}

impl HeadTable {
    pub const MAGIC_NUMBER: u32 = 0x5F0F3CF5;

    /// Glyph offsets are stored halved, in 16 bits each.
    pub fn is_short_loca_format(&self) -> (b: bool)
        ensures
            b == (self.index_to_loc_format == 0),
    {
        self.index_to_loc_format == 0
    }

    /// Glyph offsets are stored as they are, in 32 bits each.
    pub fn is_long_loca_format(&self) -> (b: bool)
        ensures
            b == (self.index_to_loc_format == 1),
    {
        self.index_to_loc_format == 1
    }

    /// The table is what the 54 bytes at `s[p..]` encode.
    pub open spec fn decodes(self, s: Seq<u8>, p: int) -> bool {
        &&& self.table_version.raw == be_i32(s, p)
        &&& self.font_revision.raw == be_i32(s, p + 4)
        &&& self.checksum_adjustment == be_u32(s, p + 8)
        &&& self.magic_number == be_u32(s, p + 12)
        &&& self.flags == be_u16(s, p + 16)
        &&& self.units_per_em == be_u16(s, p + 18)
        &&& self.created == be_u64(s, p + 20)
        &&& self.modified == be_u64(s, p + 28)
        &&& self.x_min == be_i16(s, p + 36)
        &&& self.y_min == be_i16(s, p + 38)
        &&& self.x_max == be_i16(s, p + 40)
        &&& self.y_max == be_i16(s, p + 42)
        &&& self.mac_style == be_u16(s, p + 44)
        &&& self.lowest_rec_ppem == be_u16(s, p + 46)
        &&& self.font_direction_hint == be_i16(s, p + 48)
        &&& self.index_to_loc_format == be_i16(s, p + 50)
        &&& self.glyph_data_format == be_i16(s, p + 52)
    }

    /// The bytes that encode the table.
    pub open spec fn encoding(self) -> Seq<u8> {
        u32_bytes(unsigned(self.table_version.raw as int, 0x8000_0000)) + u32_bytes(
            unsigned(self.font_revision.raw as int, 0x8000_0000),
        ) + u32_bytes(self.checksum_adjustment as int) + u32_bytes(self.magic_number as int)
            + u16_bytes(self.flags as int) + u16_bytes(self.units_per_em as int) + u64_bytes(
            self.created as int,
        ) + u64_bytes(self.modified as int) + u16_bytes(unsigned(self.x_min as int, 0x8000))
            + u16_bytes(unsigned(self.y_min as int, 0x8000)) + u16_bytes(
            unsigned(self.x_max as int, 0x8000),
        ) + u16_bytes(unsigned(self.y_max as int, 0x8000)) + u16_bytes(self.mac_style as int)
            + u16_bytes(self.lowest_rec_ppem as int) + u16_bytes(
            unsigned(self.font_direction_hint as int, 0x8000),
        ) + u16_bytes(unsigned(self.index_to_loc_format as int, 0x8000)) + u16_bytes(
            unsigned(self.glyph_data_format as int, 0x8000),
        )
    }
}

/// The error is the one for a `head` table whose magic number is `found` and not the one
/// that it has to be.
pub open spec fn bad_magic(e: TtfError, found: int) -> bool {
    e matches TtfError::InvalidSignature { expected, actual } && expected == HEAD_MAGIC_NUMBER
        && actual == found
}

impl TtfTable for HeadTable {
    /// Decodes a `head` table and moves past it, and past the rest of a longer declared
    /// length. Fails, leaving the cursor where it was, with an end-of-data error where the
    /// bytes run out and with `InvalidSignature` where the magic number is wrong.
    fn from_reader(reader: &mut FontReader, length: u32) -> (r: Result<Self, TtfError>)
        ensures
            final(reader)@.data == old(reader)@.data,
            r is Ok <==> old(reader)@.has(consumed(54, length as int)) && be_u32(
                old(reader)@.data,
                old(reader)@.pos + 12,
            ) == HEAD_MAGIC_NUMBER,
            r matches Ok(t) ==> t.decodes(old(reader)@.data, old(reader)@.pos) && final(reader)@
                == old(reader)@.advance(consumed(54, length as int)),
            r matches Err(e) ==> final(reader)@ == old(reader)@ && if !old(reader)@.has(54) {
                e.is_truncated()
            } else if be_u32(old(reader)@.data, old(reader)@.pos + 12) != HEAD_MAGIC_NUMBER {
                bad_magic(e, be_u32(old(reader)@.data, old(reader)@.pos + 12))
            } else {
                e.is_truncated()
            },
    {
        let start = reader.position();
        if reader.remaining() < 54 {
            return Err(truncated());
        }
        let table_version = lift(reader.read_fixed())?;
        let font_revision = lift(reader.read_fixed())?;
        let checksum_adjustment = lift(reader.read_u32())?;
        let magic_number = lift(reader.read_u32())?;
        if magic_number != HEAD_MAGIC_NUMBER {
            reader.rewind_to(start);
            return Err(
                TtfError::InvalidSignature { expected: HEAD_MAGIC_NUMBER, actual: magic_number },
            );
        }
        let flags = lift(reader.read_u16())?;
        let units_per_em = lift(reader.read_u16())?;
        let created = lift(reader.read_long_datetime())?;
        let modified = lift(reader.read_long_datetime())?;
        let x_min = lift(reader.read_i16())?;
        let y_min = lift(reader.read_i16())?;
        let x_max = lift(reader.read_i16())?;
        let y_max = lift(reader.read_i16())?;
        let mac_style = lift(reader.read_u16())?;
        let lowest_rec_ppem = lift(reader.read_u16())?;
        let font_direction_hint = lift(reader.read_i16())?;
        let index_to_loc_format = lift(reader.read_i16())?;
        let glyph_data_format = lift(reader.read_i16())?;
        if length as usize > 54 {
            match reader.skip(length as usize - 54) {
                Ok(_) => {},
                Err(e) => {
                    reader.rewind_to(start);
                    return Err(TtfError::Io(e));
                },
            }
        }
        Ok(
            HeadTable {
                table_version,
                font_revision,
                checksum_adjustment,
                magic_number,
                flags,
                units_per_em,
                created,
                modified,
                x_min,
                y_min,
                x_max,
                y_max,
                mac_style,
                lowest_rec_ppem,
                font_direction_hint,
                index_to_loc_format,
                glyph_data_format,
            },
        )
    }
}

impl TtfTableWrite for HeadTable {
    fn table_tag() -> (tag: [u8; 4])
        ensures
            tag == TAG_HEAD,
    {
        TAG_HEAD
    }

    /// Appends the 54 bytes that encode the table.
    fn write(&self, writer: &mut FontWriter) -> (r: Result<(), TtfError>)
        ensures
            r is Ok,
            final(writer)@ == old(writer)@ + self.encoding(),
    {
        writer.write_fixed(self.table_version);
        writer.write_fixed(self.font_revision);
        writer.write_u32(self.checksum_adjustment);
        writer.write_u32(self.magic_number);
        writer.write_u16(self.flags);
        writer.write_u16(self.units_per_em);
        writer.write_long_datetime(self.created);
        writer.write_long_datetime(self.modified);
        writer.write_i16(self.x_min);
        writer.write_i16(self.y_min);
        writer.write_i16(self.x_max);
        writer.write_i16(self.y_max);
        writer.write_u16(self.mac_style);
        writer.write_u16(self.lowest_rec_ppem);
        writer.write_i16(self.font_direction_hint);
        writer.write_i16(self.index_to_loc_format);
        writer.write_i16(self.glyph_data_format);
        assert(writer@ =~= old(writer)@ + self.encoding());
        Ok(())
    }
}

} // verus!
