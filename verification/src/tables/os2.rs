//! The `OS/2` table: weight, width, style bits and the metrics Windows uses.

use crate::error::{truncated, TtfError};
use crate::stream::{FontReader, FontWriter};
use crate::tables::head::consumed;
use crate::tables::{TtfTable, TtfTableWrite, TAG_OS2};
use crate::wire::{be_i16, be_u16, be_u32, u16_bytes, u32_bytes, unsigned};
use vstd::prelude::*;

verus! {

/// The `OS/2` table. The last five fields exist from version 1 on and are zero before.
#[derive(Debug, Clone, Copy)]
pub struct Os2Table {
    pub version: u16,
    pub x_avg_char_width: i16,
    pub us_weight_class: u16,
    pub us_width_class: u16,
    pub fs_type: u16,
    pub y_subscript_x_size: i16,
    pub y_subscript_y_size: i16,
    pub y_subscript_x_offset: i16,
    pub y_subscript_y_offset: i16,
    pub y_superscript_x_size: i16,
    pub y_superscript_y_size: i16,
    pub y_superscript_x_offset: i16,
    pub y_superscript_y_offset: i16,
    pub y_strikeout_size: i16,
    pub y_strikeout_position: i16,
    pub s_family_class: i16,
    pub panose: [u8; 10],
    pub ul_unicode_range1: u32,
    pub ul_unicode_range2: u32,
    pub ul_unicode_range3: u32,
    pub ul_unicode_range4: u32,
    pub ach_vend_id: [u8; 4],
    pub fs_selection: u16,
    pub us_first_char_index: u16,
    pub us_last_char_index: u16,
    pub s_typo_ascender: i16,
    pub s_typo_descender: i16,
    pub s_typo_line_gap: i16,
    pub us_win_ascent: u16,
    pub us_win_descent: u16,
    pub ul_code_page_range1: u32,
    pub ul_code_page_range2: u32,
    pub sx_height: i16,
    pub s_cap_height: i16,
    pub us_default_char: u16,
    pub us_break_char: u16,
    pub us_max_context: u16,
}

impl Os2Table {
    pub const VERSION_0: u16 = 0;

    pub const VERSION_1: u16 = 1;

    pub const VERSION_2: u16 = 2;

    pub const VERSION_3: u16 = 3;

    pub const VERSION_4: u16 = 4;

    pub const VERSION_5: u16 = 5;

    /// The bold bit of the selection flags is set, or the weight class is 700 or more.
    pub fn is_bold(&self) -> (b: bool)
        ensures
            b == (self.fs_selection & 0x20 != 0 || self.us_weight_class >= 700),
    {
        self.fs_selection & 0x20 != 0 || self.us_weight_class >= 700
    }

    /// The italic bit of the selection flags is set.
    pub fn is_italic(&self) -> (b: bool)
        ensures
            b == (self.fs_selection & 0x01 != 0),
    {
        self.fs_selection & 0x01 != 0
    }

    /// The name of the weight class: one name for each hundred from 100 to 999.
    pub open spec fn weight_name(weight: u16) -> Seq<char> {
        if 100 <= weight <= 199 {
            "Thin"@
        } else if 200 <= weight <= 299 {
            "Extra Light"@
        } else if 300 <= weight <= 399 {
            "Light"@
        } else if 400 <= weight <= 499 {
            "Normal"@
        } else if 500 <= weight <= 599 {
            "Medium"@
        } else if 600 <= weight <= 699 {
            "Semi Bold"@
        } else if 700 <= weight <= 799 {
            "Bold"@
        } else if 800 <= weight <= 899 {
            "Extra Bold"@
        } else if 900 <= weight <= 999 {
            "Black"@
        } else {
            "Unknown"@
        }
    }

    /// The name of the font's weight class.
    pub fn get_weight_string(&self) -> (name: &'static str)
        ensures
            name@ == Self::weight_name(self.us_weight_class),
    {
        let w = self.us_weight_class;
        if w < 100 {
            "Unknown"
        } else if w <= 199 {
            "Thin"
        } else if w <= 299 {
            "Extra Light"
        } else if w <= 399 {
            "Light"
        } else if w <= 499 {
            "Normal"
        } else if w <= 599 {
            "Medium"
        } else if w <= 699 {
            "Semi Bold"
        } else if w <= 799 {
            "Bold"
        } else if w <= 899 {
            "Extra Bold"
        } else if w <= 999 {
            "Black"
        } else {
            "Unknown"
        }
    }

    /// The number of bytes the fields of a table of this version take.
    pub open spec fn fixed_size(version: int) -> int {
        if version >= 1 {
            96
        } else {
            86
        }
    }

    /// The table is what the bytes at `s[p..]` encode.
    pub open spec fn decodes(self, s: Seq<u8>, p: int) -> bool {
        &&& self.version == be_u16(s, p)
        &&& self.x_avg_char_width == be_i16(s, p + 2)
        &&& self.us_weight_class == be_u16(s, p + 4)
        &&& self.us_width_class == be_u16(s, p + 6)
        &&& self.fs_type == be_u16(s, p + 8)
        &&& self.y_subscript_x_size == be_i16(s, p + 10)
        &&& self.y_subscript_y_size == be_i16(s, p + 12)
        &&& self.y_subscript_x_offset == be_i16(s, p + 14)
        &&& self.y_subscript_y_offset == be_i16(s, p + 16)
        &&& self.y_superscript_x_size == be_i16(s, p + 18)
        &&& self.y_superscript_y_size == be_i16(s, p + 20)
        &&& self.y_superscript_x_offset == be_i16(s, p + 22)
        &&& self.y_superscript_y_offset == be_i16(s, p + 24)
        &&& self.y_strikeout_size == be_i16(s, p + 26)
        &&& self.y_strikeout_position == be_i16(s, p + 28)
        &&& self.s_family_class == be_i16(s, p + 30)
        &&& self.panose@ == s.subrange(p + 32, p + 42)
        &&& self.ul_unicode_range1 == be_u32(s, p + 42)
        &&& self.ul_unicode_range2 == be_u32(s, p + 46)
        &&& self.ul_unicode_range3 == be_u32(s, p + 50)
        &&& self.ul_unicode_range4 == be_u32(s, p + 54)
        &&& self.ach_vend_id@ == s.subrange(p + 58, p + 62)
        &&& self.fs_selection == be_u16(s, p + 62)
        &&& self.us_first_char_index == be_u16(s, p + 64)
        &&& self.us_last_char_index == be_u16(s, p + 66)
        &&& self.s_typo_ascender == be_i16(s, p + 68)
        &&& self.s_typo_descender == be_i16(s, p + 70)
        &&& self.s_typo_line_gap == be_i16(s, p + 72)
        &&& self.us_win_ascent == be_u16(s, p + 74)
        &&& self.us_win_descent == be_u16(s, p + 76)
        &&& self.ul_code_page_range1 == be_u32(s, p + 78)
        &&& self.ul_code_page_range2 == be_u32(s, p + 82)
        &&& if self.version >= 1 {
            &&& self.sx_height == be_i16(s, p + 86)
            &&& self.s_cap_height == be_i16(s, p + 88)
            &&& self.us_default_char == be_u16(s, p + 90)
            &&& self.us_break_char == be_u16(s, p + 92)
            &&& self.us_max_context == be_u16(s, p + 94)
        } else {
            &&& self.sx_height == 0
            &&& self.s_cap_height == 0
            &&& self.us_default_char == 0
            &&& self.us_break_char == 0
            &&& self.us_max_context == 0
        }
    }

    /// The encoding of the fields up to the family class.
    pub open spec fn encoding_sizes(self) -> Seq<u8> {
        u16_bytes(self.version as int)
            + u16_bytes(unsigned(self.x_avg_char_width as int, 0x8000))
            + u16_bytes(self.us_weight_class as int)
            + u16_bytes(self.us_width_class as int)
            + u16_bytes(self.fs_type as int)
            + u16_bytes(unsigned(self.y_subscript_x_size as int, 0x8000))
            + u16_bytes(unsigned(self.y_subscript_y_size as int, 0x8000))
            + u16_bytes(unsigned(self.y_subscript_x_offset as int, 0x8000))
            + u16_bytes(unsigned(self.y_subscript_y_offset as int, 0x8000))
            + u16_bytes(unsigned(self.y_superscript_x_size as int, 0x8000))
            + u16_bytes(unsigned(self.y_superscript_y_size as int, 0x8000))
            + u16_bytes(unsigned(self.y_superscript_x_offset as int, 0x8000))
            + u16_bytes(unsigned(self.y_superscript_y_offset as int, 0x8000))
            + u16_bytes(unsigned(self.y_strikeout_size as int, 0x8000))
            + u16_bytes(unsigned(self.y_strikeout_position as int, 0x8000))
            + u16_bytes(unsigned(self.s_family_class as int, 0x8000))
    }

    /// The encoding of the classification and the Unicode ranges.
    pub open spec fn encoding_ranges(self) -> Seq<u8> {
        self.panose@
            + u32_bytes(self.ul_unicode_range1 as int)
            + u32_bytes(self.ul_unicode_range2 as int)
            + u32_bytes(self.ul_unicode_range3 as int)
            + u32_bytes(self.ul_unicode_range4 as int)
            + self.ach_vend_id@
    }

    /// The encoding of the selection flags, the character range and the line metrics.
    pub open spec fn encoding_metrics(self) -> Seq<u8> {
        u16_bytes(self.fs_selection as int)
            + u16_bytes(self.us_first_char_index as int)
            + u16_bytes(self.us_last_char_index as int)
            + u16_bytes(unsigned(self.s_typo_ascender as int, 0x8000))
            + u16_bytes(unsigned(self.s_typo_descender as int, 0x8000))
            + u16_bytes(unsigned(self.s_typo_line_gap as int, 0x8000))
            + u16_bytes(self.us_win_ascent as int)
            + u16_bytes(self.us_win_descent as int)
            + u32_bytes(self.ul_code_page_range1 as int)
            + u32_bytes(self.ul_code_page_range2 as int)
    }

    /// The encoding of the fields that exist from version 1 on.
    pub open spec fn encoding_heights(self) -> Seq<u8> {
        u16_bytes(unsigned(self.sx_height as int, 0x8000))
            + u16_bytes(unsigned(self.s_cap_height as int, 0x8000))
            + u16_bytes(self.us_default_char as int)
            + u16_bytes(self.us_break_char as int)
            + u16_bytes(self.us_max_context as int)
    }

    /// The bytes that encode the table: 96 from version 1 on, 86 before.
    pub open spec fn encoding(self) -> Seq<u8> {
        let head = self.encoding_sizes() + self.encoding_ranges() + self.encoding_metrics();
        if self.version >= 1 {
            head + self.encoding_heights()
        } else {
            head
        }
    }

    fn write_sizes(&self, writer: &mut FontWriter)
        ensures
            final(writer)@ == old(writer)@ + self.encoding_sizes(),
    {
        writer.write_u16(self.version);
        writer.write_i16(self.x_avg_char_width);
        writer.write_u16(self.us_weight_class);
        writer.write_u16(self.us_width_class);
        writer.write_u16(self.fs_type);
        writer.write_i16(self.y_subscript_x_size);
        writer.write_i16(self.y_subscript_y_size);
        writer.write_i16(self.y_subscript_x_offset);
        writer.write_i16(self.y_subscript_y_offset);
        writer.write_i16(self.y_superscript_x_size);
        writer.write_i16(self.y_superscript_y_size);
        writer.write_i16(self.y_superscript_x_offset);
        writer.write_i16(self.y_superscript_y_offset);
        writer.write_i16(self.y_strikeout_size);
        writer.write_i16(self.y_strikeout_position);
        writer.write_i16(self.s_family_class);
        assert(writer@ =~= old(writer)@ + self.encoding_sizes());
    }

    fn write_ranges(&self, writer: &mut FontWriter)
        ensures
            final(writer)@ == old(writer)@ + self.encoding_ranges(),
    {
        writer.write_bytes(self.panose.as_slice());
        writer.write_u32(self.ul_unicode_range1);
        writer.write_u32(self.ul_unicode_range2);
        writer.write_u32(self.ul_unicode_range3);
        writer.write_u32(self.ul_unicode_range4);
        writer.write_bytes(self.ach_vend_id.as_slice());
        assert(writer@ =~= old(writer)@ + self.encoding_ranges());
    }

    fn write_metrics(&self, writer: &mut FontWriter)
        ensures
            final(writer)@ == old(writer)@ + self.encoding_metrics(),
    {
        writer.write_u16(self.fs_selection);
        writer.write_u16(self.us_first_char_index);
        writer.write_u16(self.us_last_char_index);
        writer.write_i16(self.s_typo_ascender);
        writer.write_i16(self.s_typo_descender);
        writer.write_i16(self.s_typo_line_gap);
        writer.write_u16(self.us_win_ascent);
        writer.write_u16(self.us_win_descent);
        writer.write_u32(self.ul_code_page_range1);
        writer.write_u32(self.ul_code_page_range2);
        assert(writer@ =~= old(writer)@ + self.encoding_metrics());
    }

    fn write_heights(&self, writer: &mut FontWriter)
        ensures
            final(writer)@ == old(writer)@ + self.encoding_heights(),
    {
        writer.write_i16(self.sx_height);
        writer.write_i16(self.s_cap_height);
        writer.write_u16(self.us_default_char);
        writer.write_u16(self.us_break_char);
        writer.write_u16(self.us_max_context);
        assert(writer@ =~= old(writer)@ + self.encoding_heights());
    }
}

impl TtfTable for Os2Table {
    /// Decodes the table and moves past it, and past the rest of a longer declared length.
    /// Fails with an end-of-data error, leaving the cursor where it was, where the bytes run
    /// out.
    fn from_reader(reader: &mut FontReader, length: u32) -> (r: Result<Self, TtfError>)
        ensures
            final(reader)@.data == old(reader)@.data,
            r is Ok <==> old(reader)@.has(86) && old(reader)@.has(
                consumed(
                    Self::fixed_size(be_u16(old(reader)@.data, old(reader)@.pos)),
                    length as int,
                ),
            ),
            r matches Ok(t) ==> t.decodes(old(reader)@.data, old(reader)@.pos) && final(reader)@
                == old(reader)@.advance(
                consumed(Self::fixed_size(t.version as int), length as int),
            ),
            r matches Err(e) ==> final(reader)@ == old(reader)@ && e.is_truncated(),
    {
        if reader.remaining() < 86 {
            return Err(truncated());
        }
        let version = reader.peek_u16(0);
        let x_avg_char_width = reader.peek_i16(2);
        let us_weight_class = reader.peek_u16(4);
        let us_width_class = reader.peek_u16(6);
        let fs_type = reader.peek_u16(8);
        let y_subscript_x_size = reader.peek_i16(10);
        let y_subscript_y_size = reader.peek_i16(12);
        let y_subscript_x_offset = reader.peek_i16(14);
        let y_subscript_y_offset = reader.peek_i16(16);
        let y_superscript_x_size = reader.peek_i16(18);
        let y_superscript_y_size = reader.peek_i16(20);
        let y_superscript_x_offset = reader.peek_i16(22);
        let y_superscript_y_offset = reader.peek_i16(24);
        let y_strikeout_size = reader.peek_i16(26);
        let y_strikeout_position = reader.peek_i16(28);
        let s_family_class = reader.peek_i16(30);
        let panose = [reader.peek_u8(32), reader.peek_u8(33), reader.peek_u8(34), reader.peek_u8(35), reader.peek_u8(36), reader.peek_u8(37), reader.peek_u8(38), reader.peek_u8(39), reader.peek_u8(40), reader.peek_u8(41)];
        assert(panose@ =~= reader@.data.subrange(reader@.pos + 32, reader@.pos + 42));
        let ul_unicode_range1 = reader.peek_u32(42);
        let ul_unicode_range2 = reader.peek_u32(46);
        let ul_unicode_range3 = reader.peek_u32(50);
        let ul_unicode_range4 = reader.peek_u32(54);
        let ach_vend_id = [reader.peek_u8(58), reader.peek_u8(59), reader.peek_u8(60), reader.peek_u8(61)];
        assert(ach_vend_id@ =~= reader@.data.subrange(reader@.pos + 58, reader@.pos + 62));
        let fs_selection = reader.peek_u16(62);
        let us_first_char_index = reader.peek_u16(64);
        let us_last_char_index = reader.peek_u16(66);
        let s_typo_ascender = reader.peek_i16(68);
        let s_typo_descender = reader.peek_i16(70);
        let s_typo_line_gap = reader.peek_i16(72);
        let us_win_ascent = reader.peek_u16(74);
        let us_win_descent = reader.peek_u16(76);
        let ul_code_page_range1 = reader.peek_u32(78);
        let ul_code_page_range2 = reader.peek_u32(82);
        let fixed: usize = if version >= 1 {
            96
        } else {
            86
        };
        let total: usize = if length as usize > fixed {
            length as usize
        } else {
            fixed
        };
        if reader.remaining() < total {
            return Err(truncated());
        }
        let (sx_height, s_cap_height, us_default_char, us_break_char, us_max_context) = if version
            >= 1 {
            (
                reader.peek_i16(86),
                reader.peek_i16(88),
                reader.peek_u16(90),
                reader.peek_u16(92),
                reader.peek_u16(94),
            )
        } else {
            (0, 0, 0, 0, 0)
        };
        reader.advance_by(total);
        Ok(
            Os2Table {
                version,
                x_avg_char_width,
                us_weight_class,
                us_width_class,
                fs_type,
                y_subscript_x_size,
                y_subscript_y_size,
                y_subscript_x_offset,
                y_subscript_y_offset,
                y_superscript_x_size,
                y_superscript_y_size,
                y_superscript_x_offset,
                y_superscript_y_offset,
                y_strikeout_size,
                y_strikeout_position,
                s_family_class,
                panose,
                ul_unicode_range1,
                ul_unicode_range2,
                ul_unicode_range3,
                ul_unicode_range4,
                ach_vend_id,
                fs_selection,
                us_first_char_index,
                us_last_char_index,
                s_typo_ascender,
                s_typo_descender,
                s_typo_line_gap,
                us_win_ascent,
                us_win_descent,
                ul_code_page_range1,
                ul_code_page_range2,
                sx_height,
                s_cap_height,
                us_default_char,
                us_break_char,
                us_max_context,
            },
        )
    }
}

impl TtfTableWrite for Os2Table {
    fn table_tag() -> (tag: [u8; 4])
        ensures
            tag == TAG_OS2,
    {
        TAG_OS2
    }

    /// Appends the bytes that encode the table.
    fn write(&self, writer: &mut FontWriter) -> (r: Result<(), TtfError>)
        ensures
            r is Ok,
            final(writer)@ == old(writer)@ + self.encoding(),
    {
        self.write_sizes(writer);
        self.write_ranges(writer);
        self.write_metrics(writer);
        if self.version >= 1 {
            self.write_heights(writer);
        }
        assert(writer@ =~= old(writer)@ + self.encoding());
        Ok(())
    }
}

} // verus!
