//! Writing a table and reading it back: the table that is read is the table that was
//! written.

use crate::tables::head::HeadTable;
use crate::tables::hhea::HheaTable;
use crate::tables::hmtx::{bearings_count, metrics_bytes, HmtxTable, LongHorMetric};
use crate::tables::name::{
    placed, placed_bytes, storage_upto, string_for, NameRecord, NameString, NameTable,
};
use crate::tables::os2::Os2Table;
use crate::wire::{
    be_i16, be_i32, be_u16, be_u32, be_u64, i16s_bytes, lemma_i16s_bytes, lemma_round_trip_i16,
    lemma_round_trip_i32, lemma_round_trip_u16, lemma_round_trip_u32, lemma_round_trip_u64,
    u16_bytes, u32_bytes, u64_bytes, unsigned,
};
use vstd::prelude::*;

verus! {

/// The bytes `e` start with the bytes `p`.
#[verifier::opaque]
pub open spec fn starts_with(e: Seq<u8>, p: Seq<u8>) -> bool {
    p.len() <= e.len() && forall|i: int| 0 <= i < p.len() ==> e[i] == p[i]
}

/// Bytes start with themselves.
proof fn lemma_whole(e: Seq<u8>)
    ensures
        starts_with(e, e),
{
    reveal(starts_with);
}

/// Where the bytes `e` start with `p` and the encoding of `v` behind it, they start with
/// `p`, and a read behind `p` yields `v`.
proof fn lemma_last_u16(e: Seq<u8>, p: Seq<u8>, v: u16)
    requires
        starts_with(e, p + u16_bytes(v as int)),
    ensures
        starts_with(e, p),
        (p + u16_bytes(v as int)).len() == p.len() + 2,
        be_u16(e, p.len() as int) == v,
{
    reveal(starts_with);
    let whole = p + u16_bytes(v as int);
    assert(u16_bytes(v as int).len() == 2);
    assert forall|i: int| 0 <= i < 2 implies e[p.len() + i] == #[trigger] u16_bytes(v as int)[i] by {
        assert(whole[p.len() + i] == u16_bytes(v as int)[i]);
    }
    assert(e.subrange(p.len() as int, p.len() as int + 2) =~= u16_bytes(v as int));
    lemma_round_trip_u16(e, p.len() as int, v);
}

/// Where the bytes `e` start with `p` and the encoding of `v` behind it, they start with
/// `p`, and a read behind `p` yields `v`.
proof fn lemma_last_i16(e: Seq<u8>, p: Seq<u8>, v: i16)
    requires
        starts_with(e, p + u16_bytes(unsigned(v as int, 0x8000))),
    ensures
        starts_with(e, p),
        (p + u16_bytes(unsigned(v as int, 0x8000))).len() == p.len() + 2,
        be_i16(e, p.len() as int) == v,
{
    reveal(starts_with);
    let whole = p + u16_bytes(unsigned(v as int, 0x8000));
    assert(u16_bytes(unsigned(v as int, 0x8000)).len() == 2);
    assert forall|i: int| 0 <= i < 2 implies e[p.len() + i] == #[trigger] u16_bytes(unsigned(v as int, 0x8000))[i] by {
        assert(whole[p.len() + i] == u16_bytes(unsigned(v as int, 0x8000))[i]);
    }
    assert(e.subrange(p.len() as int, p.len() as int + 2) =~= u16_bytes(unsigned(v as int, 0x8000)));
    lemma_round_trip_i16(e, p.len() as int, v);
}

/// Where the bytes `e` start with `p` and the encoding of `v` behind it, they start with
/// `p`, and a read behind `p` yields `v`.
proof fn lemma_last_u32(e: Seq<u8>, p: Seq<u8>, v: u32)
    requires
        starts_with(e, p + u32_bytes(v as int)),
    ensures
        starts_with(e, p),
        (p + u32_bytes(v as int)).len() == p.len() + 4,
        be_u32(e, p.len() as int) == v,
{
    reveal(starts_with);
    let whole = p + u32_bytes(v as int);
    assert(u32_bytes(v as int).len() == 4);
    assert forall|i: int| 0 <= i < 4 implies e[p.len() + i] == #[trigger] u32_bytes(v as int)[i] by {
        assert(whole[p.len() + i] == u32_bytes(v as int)[i]);
    }
    assert(e.subrange(p.len() as int, p.len() as int + 4) =~= u32_bytes(v as int));
    lemma_round_trip_u32(e, p.len() as int, v);
}

/// Where the bytes `e` start with `p` and the encoding of `v` behind it, they start with
/// `p`, and a read behind `p` yields `v`.
proof fn lemma_last_i32(e: Seq<u8>, p: Seq<u8>, v: i32)
    requires
        starts_with(e, p + u32_bytes(unsigned(v as int, 0x8000_0000))),
    ensures
        starts_with(e, p),
        (p + u32_bytes(unsigned(v as int, 0x8000_0000))).len() == p.len() + 4,
        be_i32(e, p.len() as int) == v,
{
    reveal(starts_with);
    let whole = p + u32_bytes(unsigned(v as int, 0x8000_0000));
    assert(u32_bytes(unsigned(v as int, 0x8000_0000)).len() == 4);
    assert forall|i: int| 0 <= i < 4 implies e[p.len() + i] == #[trigger] u32_bytes(unsigned(v as int, 0x8000_0000))[i] by {
        assert(whole[p.len() + i] == u32_bytes(unsigned(v as int, 0x8000_0000))[i]);
    }
    assert(e.subrange(p.len() as int, p.len() as int + 4) =~= u32_bytes(unsigned(v as int, 0x8000_0000)));
    lemma_round_trip_i32(e, p.len() as int, v);
}

/// Where the bytes `e` start with `p` and the encoding of `v` behind it, they start with
/// `p`, and a read behind `p` yields `v`.
proof fn lemma_last_u64(e: Seq<u8>, p: Seq<u8>, v: u64)
    requires
        starts_with(e, p + u64_bytes(v as int)),
    ensures
        starts_with(e, p),
        (p + u64_bytes(v as int)).len() == p.len() + 8,
        be_u64(e, p.len() as int) == v,
{
    reveal(starts_with);
    let whole = p + u64_bytes(v as int);
    assert(u64_bytes(v as int).len() == 8);
    assert forall|i: int| 0 <= i < 8 implies e[p.len() + i] == #[trigger] u64_bytes(v as int)[i] by {
        assert(whole[p.len() + i] == u64_bytes(v as int)[i]);
    }
    assert(e.subrange(p.len() as int, p.len() as int + 8) =~= u64_bytes(v as int));
    lemma_round_trip_u64(e, p.len() as int, v);
}

/// What reads find in the 54 bytes that encode a `head` table.
pub proof fn lemma_head_fields(t: HeadTable)
    ensures
        t.encoding().len() == 54,
        be_i32(t.encoding(), 0) == t.table_version.raw,
        be_i32(t.encoding(), 4) == t.font_revision.raw,
        be_u32(t.encoding(), 8) == t.checksum_adjustment,
        be_u32(t.encoding(), 12) == t.magic_number,
        be_u16(t.encoding(), 16) == t.flags,
        be_u16(t.encoding(), 18) == t.units_per_em,
        be_u64(t.encoding(), 20) == t.created,
        be_u64(t.encoding(), 28) == t.modified,
        be_i16(t.encoding(), 36) == t.x_min,
        be_i16(t.encoding(), 38) == t.y_min,
        be_i16(t.encoding(), 40) == t.x_max,
        be_i16(t.encoding(), 42) == t.y_max,
        be_u16(t.encoding(), 44) == t.mac_style,
        be_u16(t.encoding(), 46) == t.lowest_rec_ppem,
        be_i16(t.encoding(), 48) == t.font_direction_hint,
        be_i16(t.encoding(), 50) == t.index_to_loc_format,
        be_i16(t.encoding(), 52) == t.glyph_data_format,
{
    let e = t.encoding();
    let q0 = Seq::<u8>::empty();
    let q1 = u32_bytes(unsigned(t.table_version.raw as int, 0x8000_0000));
    assert(q0 + u32_bytes(unsigned(t.table_version.raw as int, 0x8000_0000)) =~= q1);
    let q2 = q1 + u32_bytes(unsigned(t.font_revision.raw as int, 0x8000_0000));
    let q3 = q2 + u32_bytes(t.checksum_adjustment as int);
    let q4 = q3 + u32_bytes(t.magic_number as int);
    let q5 = q4 + u16_bytes(t.flags as int);
    let q6 = q5 + u16_bytes(t.units_per_em as int);
    let q7 = q6 + u64_bytes(t.created as int);
    let q8 = q7 + u64_bytes(t.modified as int);
    let q9 = q8 + u16_bytes(unsigned(t.x_min as int, 0x8000));
    let q10 = q9 + u16_bytes(unsigned(t.y_min as int, 0x8000));
    let q11 = q10 + u16_bytes(unsigned(t.x_max as int, 0x8000));
    let q12 = q11 + u16_bytes(unsigned(t.y_max as int, 0x8000));
    let q13 = q12 + u16_bytes(t.mac_style as int);
    let q14 = q13 + u16_bytes(t.lowest_rec_ppem as int);
    let q15 = q14 + u16_bytes(unsigned(t.font_direction_hint as int, 0x8000));
    let q16 = q15 + u16_bytes(unsigned(t.index_to_loc_format as int, 0x8000));
    let q17 = q16 + u16_bytes(unsigned(t.glyph_data_format as int, 0x8000));
    assert(e == q17);
    lemma_whole(e);
    lemma_last_i16(e, q16, t.glyph_data_format);
    lemma_last_i16(e, q15, t.index_to_loc_format);
    lemma_last_i16(e, q14, t.font_direction_hint);
    lemma_last_u16(e, q13, t.lowest_rec_ppem);
    lemma_last_u16(e, q12, t.mac_style);
    lemma_last_i16(e, q11, t.y_max);
    lemma_last_i16(e, q10, t.x_max);
    lemma_last_i16(e, q9, t.y_min);
    lemma_last_i16(e, q8, t.x_min);
    lemma_last_u64(e, q7, t.modified);
    lemma_last_u64(e, q6, t.created);
    lemma_last_u16(e, q5, t.units_per_em);
    lemma_last_u16(e, q4, t.flags);
    lemma_last_u32(e, q3, t.magic_number);
    lemma_last_u32(e, q2, t.checksum_adjustment);
    lemma_last_i32(e, q1, t.font_revision.raw);
    lemma_last_i32(e, q0, t.table_version.raw);
}

/// A `head` table that is decoded from the bytes of another is that other.
pub proof fn lemma_head_round_trip(t: HeadTable, read: HeadTable)
    requires
        read.decodes(t.encoding(), 0),
    ensures
        read == t,
{
    lemma_head_fields(t);
}

/// What reads find in the 38 bytes that encode an `hhea` table.
pub proof fn lemma_hhea_fields(t: HheaTable)
    ensures
        t.encoding().len() == 38,
        be_i32(t.encoding(), 0) == t.table_version.raw,
        be_i16(t.encoding(), 4) == t.ascent,
        be_i16(t.encoding(), 6) == t.descent,
        be_i16(t.encoding(), 8) == t.line_gap,
        be_u16(t.encoding(), 10) == t.advance_width_max,
        be_i16(t.encoding(), 12) == t.min_left_side_bearing,
        be_i16(t.encoding(), 14) == t.min_right_side_bearing,
        be_i16(t.encoding(), 16) == t.x_max_extent,
        be_i16(t.encoding(), 18) == t.caret_slope_rise,
        be_i16(t.encoding(), 20) == t.caret_slope_run,
        be_i16(t.encoding(), 22) == t.caret_offset,
        be_i16(t.encoding(), 24) == t.reserved0,
        be_i16(t.encoding(), 26) == t.reserved1,
        be_i16(t.encoding(), 28) == t.reserved2,
        be_i16(t.encoding(), 30) == t.reserved3,
        be_i16(t.encoding(), 32) == t.reserved4,
        be_i16(t.encoding(), 34) == t.metric_data_format,
        be_u16(t.encoding(), 36) == t.number_of_h_metrics,
{
    let e = t.encoding();
    let q0 = Seq::<u8>::empty();
    let q1 = u32_bytes(unsigned(t.table_version.raw as int, 0x8000_0000));
    assert(q0 + u32_bytes(unsigned(t.table_version.raw as int, 0x8000_0000)) =~= q1);
    let q2 = q1 + u16_bytes(unsigned(t.ascent as int, 0x8000));
    let q3 = q2 + u16_bytes(unsigned(t.descent as int, 0x8000));
    let q4 = q3 + u16_bytes(unsigned(t.line_gap as int, 0x8000));
    let q5 = q4 + u16_bytes(t.advance_width_max as int);
    let q6 = q5 + u16_bytes(unsigned(t.min_left_side_bearing as int, 0x8000));
    let q7 = q6 + u16_bytes(unsigned(t.min_right_side_bearing as int, 0x8000));
    let q8 = q7 + u16_bytes(unsigned(t.x_max_extent as int, 0x8000));
    let q9 = q8 + u16_bytes(unsigned(t.caret_slope_rise as int, 0x8000));
    let q10 = q9 + u16_bytes(unsigned(t.caret_slope_run as int, 0x8000));
    let q11 = q10 + u16_bytes(unsigned(t.caret_offset as int, 0x8000));
    let q12 = q11 + u16_bytes(unsigned(t.reserved0 as int, 0x8000));
    let q13 = q12 + u16_bytes(unsigned(t.reserved1 as int, 0x8000));
    let q14 = q13 + u16_bytes(unsigned(t.reserved2 as int, 0x8000));
    let q15 = q14 + u16_bytes(unsigned(t.reserved3 as int, 0x8000));
    let q16 = q15 + u16_bytes(unsigned(t.reserved4 as int, 0x8000));
    let q17 = q16 + u16_bytes(unsigned(t.metric_data_format as int, 0x8000));
    let q18 = q17 + u16_bytes(t.number_of_h_metrics as int);
    assert(e == q18);
    lemma_whole(e);
    lemma_last_u16(e, q17, t.number_of_h_metrics);
    lemma_last_i16(e, q16, t.metric_data_format);
    lemma_last_i16(e, q15, t.reserved4);
    lemma_last_i16(e, q14, t.reserved3);
    lemma_last_i16(e, q13, t.reserved2);
    lemma_last_i16(e, q12, t.reserved1);
    lemma_last_i16(e, q11, t.reserved0);
    lemma_last_i16(e, q10, t.caret_offset);
    lemma_last_i16(e, q9, t.caret_slope_run);
    lemma_last_i16(e, q8, t.caret_slope_rise);
    lemma_last_i16(e, q7, t.x_max_extent);
    lemma_last_i16(e, q6, t.min_right_side_bearing);
    lemma_last_i16(e, q5, t.min_left_side_bearing);
    lemma_last_u16(e, q4, t.advance_width_max);
    lemma_last_i16(e, q3, t.line_gap);
    lemma_last_i16(e, q2, t.descent);
    lemma_last_i16(e, q1, t.ascent);
    lemma_last_i32(e, q0, t.table_version.raw);
}

/// An `hhea` table that is decoded from the bytes of another is that other.
pub proof fn lemma_hhea_round_trip(t: HheaTable, read: HheaTable)
    requires
        read.decodes(t.encoding(), 0),
    ensures
        read == t,
{
    lemma_hhea_fields(t);
}

/// Seen as one run of bytes, three parts are the same however they are joined.
proof fn lemma_assoc(a: Seq<u8>, b: Seq<u8>, c: Seq<u8>)
    ensures
        a + (b + c) == (a + b) + c,
{
    assert(a + (b + c) =~= (a + b) + c);
}

/// Where the bytes `e` start with `p` and the bytes `x` behind it, they start with `p`, and
/// the bytes behind `p` are `x`.
proof fn lemma_last_bytes(e: Seq<u8>, p: Seq<u8>, x: Seq<u8>)
    requires
        starts_with(e, p + x),
    ensures
        starts_with(e, p),
        (p + x).len() == p.len() + x.len(),
        e.subrange(p.len() as int, (p.len() + x.len()) as int) == x,
{
    reveal(starts_with);
    let whole = p + x;
    assert forall|i: int| 0 <= i < x.len() implies e[p.len() + i] == #[trigger] x[i] by {
        assert(whole[p.len() + i] == x[i]);
    }
    assert(e.subrange(p.len() as int, (p.len() + x.len()) as int) =~= x);
}

/// What reads find where the bytes `e` start with `p` and, behind it, the first sixteen fields of an
/// `OS/2` table.
proof fn lemma_os2_sizes(e: Seq<u8>, p: Seq<u8>, t: Os2Table)
    requires
        starts_with(e, p + t.encoding_sizes()),
    ensures
        starts_with(e, p),
        t.encoding_sizes().len() == 32,
        be_u16(e, p.len() as int + 0) == t.version,
        be_i16(e, p.len() as int + 2) == t.x_avg_char_width,
        be_u16(e, p.len() as int + 4) == t.us_weight_class,
        be_u16(e, p.len() as int + 6) == t.us_width_class,
        be_u16(e, p.len() as int + 8) == t.fs_type,
        be_i16(e, p.len() as int + 10) == t.y_subscript_x_size,
        be_i16(e, p.len() as int + 12) == t.y_subscript_y_size,
        be_i16(e, p.len() as int + 14) == t.y_subscript_x_offset,
        be_i16(e, p.len() as int + 16) == t.y_subscript_y_offset,
        be_i16(e, p.len() as int + 18) == t.y_superscript_x_size,
        be_i16(e, p.len() as int + 20) == t.y_superscript_y_size,
        be_i16(e, p.len() as int + 22) == t.y_superscript_x_offset,
        be_i16(e, p.len() as int + 24) == t.y_superscript_y_offset,
        be_i16(e, p.len() as int + 26) == t.y_strikeout_size,
        be_i16(e, p.len() as int + 28) == t.y_strikeout_position,
        be_i16(e, p.len() as int + 30) == t.s_family_class,
{
    let s1 = u16_bytes(t.version as int);
    let q1 = p + u16_bytes(t.version as int);
    let s2 = s1 + u16_bytes(unsigned(t.x_avg_char_width as int, 0x8000));
    let q2 = q1 + u16_bytes(unsigned(t.x_avg_char_width as int, 0x8000));
    lemma_assoc(p, s1, u16_bytes(unsigned(t.x_avg_char_width as int, 0x8000)));
    let s3 = s2 + u16_bytes(t.us_weight_class as int);
    let q3 = q2 + u16_bytes(t.us_weight_class as int);
    lemma_assoc(p, s2, u16_bytes(t.us_weight_class as int));
    let s4 = s3 + u16_bytes(t.us_width_class as int);
    let q4 = q3 + u16_bytes(t.us_width_class as int);
    lemma_assoc(p, s3, u16_bytes(t.us_width_class as int));
    let s5 = s4 + u16_bytes(t.fs_type as int);
    let q5 = q4 + u16_bytes(t.fs_type as int);
    lemma_assoc(p, s4, u16_bytes(t.fs_type as int));
    let s6 = s5 + u16_bytes(unsigned(t.y_subscript_x_size as int, 0x8000));
    let q6 = q5 + u16_bytes(unsigned(t.y_subscript_x_size as int, 0x8000));
    lemma_assoc(p, s5, u16_bytes(unsigned(t.y_subscript_x_size as int, 0x8000)));
    let s7 = s6 + u16_bytes(unsigned(t.y_subscript_y_size as int, 0x8000));
    let q7 = q6 + u16_bytes(unsigned(t.y_subscript_y_size as int, 0x8000));
    lemma_assoc(p, s6, u16_bytes(unsigned(t.y_subscript_y_size as int, 0x8000)));
    let s8 = s7 + u16_bytes(unsigned(t.y_subscript_x_offset as int, 0x8000));
    let q8 = q7 + u16_bytes(unsigned(t.y_subscript_x_offset as int, 0x8000));
    lemma_assoc(p, s7, u16_bytes(unsigned(t.y_subscript_x_offset as int, 0x8000)));
    let s9 = s8 + u16_bytes(unsigned(t.y_subscript_y_offset as int, 0x8000));
    let q9 = q8 + u16_bytes(unsigned(t.y_subscript_y_offset as int, 0x8000));
    lemma_assoc(p, s8, u16_bytes(unsigned(t.y_subscript_y_offset as int, 0x8000)));
    let s10 = s9 + u16_bytes(unsigned(t.y_superscript_x_size as int, 0x8000));
    let q10 = q9 + u16_bytes(unsigned(t.y_superscript_x_size as int, 0x8000));
    lemma_assoc(p, s9, u16_bytes(unsigned(t.y_superscript_x_size as int, 0x8000)));
    let s11 = s10 + u16_bytes(unsigned(t.y_superscript_y_size as int, 0x8000));
    let q11 = q10 + u16_bytes(unsigned(t.y_superscript_y_size as int, 0x8000));
    lemma_assoc(p, s10, u16_bytes(unsigned(t.y_superscript_y_size as int, 0x8000)));
    let s12 = s11 + u16_bytes(unsigned(t.y_superscript_x_offset as int, 0x8000));
    let q12 = q11 + u16_bytes(unsigned(t.y_superscript_x_offset as int, 0x8000));
    lemma_assoc(p, s11, u16_bytes(unsigned(t.y_superscript_x_offset as int, 0x8000)));
    let s13 = s12 + u16_bytes(unsigned(t.y_superscript_y_offset as int, 0x8000));
    let q13 = q12 + u16_bytes(unsigned(t.y_superscript_y_offset as int, 0x8000));
    lemma_assoc(p, s12, u16_bytes(unsigned(t.y_superscript_y_offset as int, 0x8000)));
    let s14 = s13 + u16_bytes(unsigned(t.y_strikeout_size as int, 0x8000));
    let q14 = q13 + u16_bytes(unsigned(t.y_strikeout_size as int, 0x8000));
    lemma_assoc(p, s13, u16_bytes(unsigned(t.y_strikeout_size as int, 0x8000)));
    let s15 = s14 + u16_bytes(unsigned(t.y_strikeout_position as int, 0x8000));
    let q15 = q14 + u16_bytes(unsigned(t.y_strikeout_position as int, 0x8000));
    lemma_assoc(p, s14, u16_bytes(unsigned(t.y_strikeout_position as int, 0x8000)));
    let s16 = s15 + u16_bytes(unsigned(t.s_family_class as int, 0x8000));
    let q16 = q15 + u16_bytes(unsigned(t.s_family_class as int, 0x8000));
    lemma_assoc(p, s15, u16_bytes(unsigned(t.s_family_class as int, 0x8000)));
    assert(s16 == t.encoding_sizes());
    assert(q16 == p + t.encoding_sizes());
    lemma_last_i16(e, q15, t.s_family_class);
    lemma_last_i16(e, q14, t.y_strikeout_position);
    lemma_last_i16(e, q13, t.y_strikeout_size);
    lemma_last_i16(e, q12, t.y_superscript_y_offset);
    lemma_last_i16(e, q11, t.y_superscript_x_offset);
    lemma_last_i16(e, q10, t.y_superscript_y_size);
    lemma_last_i16(e, q9, t.y_superscript_x_size);
    lemma_last_i16(e, q8, t.y_subscript_y_offset);
    lemma_last_i16(e, q7, t.y_subscript_x_offset);
    lemma_last_i16(e, q6, t.y_subscript_y_size);
    lemma_last_i16(e, q5, t.y_subscript_x_size);
    lemma_last_u16(e, q4, t.fs_type);
    lemma_last_u16(e, q3, t.us_width_class);
    lemma_last_u16(e, q2, t.us_weight_class);
    lemma_last_i16(e, q1, t.x_avg_char_width);
    lemma_last_u16(e, p, t.version);
}

/// What reads find where the bytes `e` start with `p` and, behind it, the classification and the Unicode ranges of an
/// `OS/2` table.
proof fn lemma_os2_ranges(e: Seq<u8>, p: Seq<u8>, t: Os2Table)
    requires
        starts_with(e, p + t.encoding_ranges()),
    ensures
        starts_with(e, p),
        t.encoding_ranges().len() == 30,
        e.subrange(p.len() as int + 0, p.len() as int + 10) == t.panose@,
        be_u32(e, p.len() as int + 10) == t.ul_unicode_range1,
        be_u32(e, p.len() as int + 14) == t.ul_unicode_range2,
        be_u32(e, p.len() as int + 18) == t.ul_unicode_range3,
        be_u32(e, p.len() as int + 22) == t.ul_unicode_range4,
        e.subrange(p.len() as int + 26, p.len() as int + 30) == t.ach_vend_id@,
{
    let s1 = t.panose@;
    let q1 = p + t.panose@;
    let s2 = s1 + u32_bytes(t.ul_unicode_range1 as int);
    let q2 = q1 + u32_bytes(t.ul_unicode_range1 as int);
    lemma_assoc(p, s1, u32_bytes(t.ul_unicode_range1 as int));
    let s3 = s2 + u32_bytes(t.ul_unicode_range2 as int);
    let q3 = q2 + u32_bytes(t.ul_unicode_range2 as int);
    lemma_assoc(p, s2, u32_bytes(t.ul_unicode_range2 as int));
    let s4 = s3 + u32_bytes(t.ul_unicode_range3 as int);
    let q4 = q3 + u32_bytes(t.ul_unicode_range3 as int);
    lemma_assoc(p, s3, u32_bytes(t.ul_unicode_range3 as int));
    let s5 = s4 + u32_bytes(t.ul_unicode_range4 as int);
    let q5 = q4 + u32_bytes(t.ul_unicode_range4 as int);
    lemma_assoc(p, s4, u32_bytes(t.ul_unicode_range4 as int));
    let s6 = s5 + t.ach_vend_id@;
    let q6 = q5 + t.ach_vend_id@;
    lemma_assoc(p, s5, t.ach_vend_id@);
    assert(s6 == t.encoding_ranges());
    assert(q6 == p + t.encoding_ranges());
    lemma_last_bytes(e, q5, t.ach_vend_id@);
    lemma_last_u32(e, q4, t.ul_unicode_range4);
    lemma_last_u32(e, q3, t.ul_unicode_range3);
    lemma_last_u32(e, q2, t.ul_unicode_range2);
    lemma_last_u32(e, q1, t.ul_unicode_range1);
    lemma_last_bytes(e, p, t.panose@);
    assert(t.panose@.len() == 10);
    assert(t.ach_vend_id@.len() == 4);
}

/// What reads find where the bytes `e` start with `p` and, behind it, the selection flags, the character range and the line metrics of an
/// `OS/2` table.
proof fn lemma_os2_metrics(e: Seq<u8>, p: Seq<u8>, t: Os2Table)
    requires
        starts_with(e, p + t.encoding_metrics()),
    ensures
        starts_with(e, p),
        t.encoding_metrics().len() == 24,
        be_u16(e, p.len() as int + 0) == t.fs_selection,
        be_u16(e, p.len() as int + 2) == t.us_first_char_index,
        be_u16(e, p.len() as int + 4) == t.us_last_char_index,
        be_i16(e, p.len() as int + 6) == t.s_typo_ascender,
        be_i16(e, p.len() as int + 8) == t.s_typo_descender,
        be_i16(e, p.len() as int + 10) == t.s_typo_line_gap,
        be_u16(e, p.len() as int + 12) == t.us_win_ascent,
        be_u16(e, p.len() as int + 14) == t.us_win_descent,
        be_u32(e, p.len() as int + 16) == t.ul_code_page_range1,
        be_u32(e, p.len() as int + 20) == t.ul_code_page_range2,
{
    let s1 = u16_bytes(t.fs_selection as int);
    let q1 = p + u16_bytes(t.fs_selection as int);
    let s2 = s1 + u16_bytes(t.us_first_char_index as int);
    let q2 = q1 + u16_bytes(t.us_first_char_index as int);
    lemma_assoc(p, s1, u16_bytes(t.us_first_char_index as int));
    let s3 = s2 + u16_bytes(t.us_last_char_index as int);
    let q3 = q2 + u16_bytes(t.us_last_char_index as int);
    lemma_assoc(p, s2, u16_bytes(t.us_last_char_index as int));
    let s4 = s3 + u16_bytes(unsigned(t.s_typo_ascender as int, 0x8000));
    let q4 = q3 + u16_bytes(unsigned(t.s_typo_ascender as int, 0x8000));
    lemma_assoc(p, s3, u16_bytes(unsigned(t.s_typo_ascender as int, 0x8000)));
    let s5 = s4 + u16_bytes(unsigned(t.s_typo_descender as int, 0x8000));
    let q5 = q4 + u16_bytes(unsigned(t.s_typo_descender as int, 0x8000));
    lemma_assoc(p, s4, u16_bytes(unsigned(t.s_typo_descender as int, 0x8000)));
    let s6 = s5 + u16_bytes(unsigned(t.s_typo_line_gap as int, 0x8000));
    let q6 = q5 + u16_bytes(unsigned(t.s_typo_line_gap as int, 0x8000));
    lemma_assoc(p, s5, u16_bytes(unsigned(t.s_typo_line_gap as int, 0x8000)));
    let s7 = s6 + u16_bytes(t.us_win_ascent as int);
    let q7 = q6 + u16_bytes(t.us_win_ascent as int);
    lemma_assoc(p, s6, u16_bytes(t.us_win_ascent as int));
    let s8 = s7 + u16_bytes(t.us_win_descent as int);
    let q8 = q7 + u16_bytes(t.us_win_descent as int);
    lemma_assoc(p, s7, u16_bytes(t.us_win_descent as int));
    let s9 = s8 + u32_bytes(t.ul_code_page_range1 as int);
    let q9 = q8 + u32_bytes(t.ul_code_page_range1 as int);
    lemma_assoc(p, s8, u32_bytes(t.ul_code_page_range1 as int));
    let s10 = s9 + u32_bytes(t.ul_code_page_range2 as int);
    let q10 = q9 + u32_bytes(t.ul_code_page_range2 as int);
    lemma_assoc(p, s9, u32_bytes(t.ul_code_page_range2 as int));
    assert(s10 == t.encoding_metrics());
    assert(q10 == p + t.encoding_metrics());
    lemma_last_u32(e, q9, t.ul_code_page_range2);
    lemma_last_u32(e, q8, t.ul_code_page_range1);
    lemma_last_u16(e, q7, t.us_win_descent);
    lemma_last_u16(e, q6, t.us_win_ascent);
    lemma_last_i16(e, q5, t.s_typo_line_gap);
    lemma_last_i16(e, q4, t.s_typo_descender);
    lemma_last_i16(e, q3, t.s_typo_ascender);
    lemma_last_u16(e, q2, t.us_last_char_index);
    lemma_last_u16(e, q1, t.us_first_char_index);
    lemma_last_u16(e, p, t.fs_selection);
}

/// What reads find where the bytes `e` start with `p` and, behind it, the five fields that exist from version 1 on of an
/// `OS/2` table.
proof fn lemma_os2_heights(e: Seq<u8>, p: Seq<u8>, t: Os2Table)
    requires
        starts_with(e, p + t.encoding_heights()),
    ensures
        starts_with(e, p),
        t.encoding_heights().len() == 10,
        be_i16(e, p.len() as int + 0) == t.sx_height,
        be_i16(e, p.len() as int + 2) == t.s_cap_height,
        be_u16(e, p.len() as int + 4) == t.us_default_char,
        be_u16(e, p.len() as int + 6) == t.us_break_char,
        be_u16(e, p.len() as int + 8) == t.us_max_context,
{
    let s1 = u16_bytes(unsigned(t.sx_height as int, 0x8000));
    let q1 = p + u16_bytes(unsigned(t.sx_height as int, 0x8000));
    let s2 = s1 + u16_bytes(unsigned(t.s_cap_height as int, 0x8000));
    let q2 = q1 + u16_bytes(unsigned(t.s_cap_height as int, 0x8000));
    lemma_assoc(p, s1, u16_bytes(unsigned(t.s_cap_height as int, 0x8000)));
    let s3 = s2 + u16_bytes(t.us_default_char as int);
    let q3 = q2 + u16_bytes(t.us_default_char as int);
    lemma_assoc(p, s2, u16_bytes(t.us_default_char as int));
    let s4 = s3 + u16_bytes(t.us_break_char as int);
    let q4 = q3 + u16_bytes(t.us_break_char as int);
    lemma_assoc(p, s3, u16_bytes(t.us_break_char as int));
    let s5 = s4 + u16_bytes(t.us_max_context as int);
    let q5 = q4 + u16_bytes(t.us_max_context as int);
    lemma_assoc(p, s4, u16_bytes(t.us_max_context as int));
    assert(s5 == t.encoding_heights());
    assert(q5 == p + t.encoding_heights());
    lemma_last_u16(e, q4, t.us_max_context);
    lemma_last_u16(e, q3, t.us_break_char);
    lemma_last_u16(e, q2, t.us_default_char);
    lemma_last_i16(e, q1, t.s_cap_height);
    lemma_last_i16(e, p, t.sx_height);
}

/// What reads find in the bytes that encode an `OS/2` table: 86 bytes, and 96 from version
/// 1 on.
pub proof fn lemma_os2_fields(t: Os2Table)
    ensures
        t.encoding().len() == if t.version >= 1 {
            96int
        } else {
            86int
        },
        be_u16(t.encoding(), 0) == t.version,
        be_i16(t.encoding(), 2) == t.x_avg_char_width,
        be_u16(t.encoding(), 4) == t.us_weight_class,
        be_u16(t.encoding(), 6) == t.us_width_class,
        be_u16(t.encoding(), 8) == t.fs_type,
        be_i16(t.encoding(), 10) == t.y_subscript_x_size,
        be_i16(t.encoding(), 12) == t.y_subscript_y_size,
        be_i16(t.encoding(), 14) == t.y_subscript_x_offset,
        be_i16(t.encoding(), 16) == t.y_subscript_y_offset,
        be_i16(t.encoding(), 18) == t.y_superscript_x_size,
        be_i16(t.encoding(), 20) == t.y_superscript_y_size,
        be_i16(t.encoding(), 22) == t.y_superscript_x_offset,
        be_i16(t.encoding(), 24) == t.y_superscript_y_offset,
        be_i16(t.encoding(), 26) == t.y_strikeout_size,
        be_i16(t.encoding(), 28) == t.y_strikeout_position,
        be_i16(t.encoding(), 30) == t.s_family_class,
        t.encoding().subrange(32, 42) == t.panose@,
        be_u32(t.encoding(), 42) == t.ul_unicode_range1,
        be_u32(t.encoding(), 46) == t.ul_unicode_range2,
        be_u32(t.encoding(), 50) == t.ul_unicode_range3,
        be_u32(t.encoding(), 54) == t.ul_unicode_range4,
        t.encoding().subrange(58, 62) == t.ach_vend_id@,
        be_u16(t.encoding(), 62) == t.fs_selection,
        be_u16(t.encoding(), 64) == t.us_first_char_index,
        be_u16(t.encoding(), 66) == t.us_last_char_index,
        be_i16(t.encoding(), 68) == t.s_typo_ascender,
        be_i16(t.encoding(), 70) == t.s_typo_descender,
        be_i16(t.encoding(), 72) == t.s_typo_line_gap,
        be_u16(t.encoding(), 74) == t.us_win_ascent,
        be_u16(t.encoding(), 76) == t.us_win_descent,
        be_u32(t.encoding(), 78) == t.ul_code_page_range1,
        be_u32(t.encoding(), 82) == t.ul_code_page_range2,
        t.version >= 1 ==> {
            &&& be_i16(t.encoding(), 86) == t.sx_height
            &&& be_i16(t.encoding(), 88) == t.s_cap_height
            &&& be_u16(t.encoding(), 90) == t.us_default_char
            &&& be_u16(t.encoding(), 92) == t.us_break_char
            &&& be_u16(t.encoding(), 94) == t.us_max_context
        },
{
    let e = t.encoding();
    let none = Seq::<u8>::empty();
    let a = t.encoding_sizes();
    let b = a + t.encoding_ranges();
    let c = b + t.encoding_metrics();
    lemma_whole(e);
    if t.version >= 1 {
        assert(e == c + t.encoding_heights());
        lemma_os2_heights(e, c, t);
    } else {
        assert(e == c);
    }
    lemma_os2_metrics(e, b, t);
    lemma_os2_ranges(e, a, t);
    assert(none + a =~= a);
    lemma_os2_sizes(e, none, t);
    assert(a.len() == 32);
    assert(b.len() == 62);
    assert(c.len() == 86);
}

/// An `OS/2` table that is decoded from the bytes of another has the fields of that other;
/// the five fields that exist from version 1 on are zero where the other is older.
pub proof fn lemma_os2_round_trip(t: Os2Table, read: Os2Table)
    requires
        read.decodes(t.encoding(), 0),
    ensures
        read.version == t.version,
        read.x_avg_char_width == t.x_avg_char_width,
        read.us_weight_class == t.us_weight_class,
        read.us_width_class == t.us_width_class,
        read.fs_type == t.fs_type,
        read.y_subscript_x_size == t.y_subscript_x_size,
        read.y_subscript_y_size == t.y_subscript_y_size,
        read.y_subscript_x_offset == t.y_subscript_x_offset,
        read.y_subscript_y_offset == t.y_subscript_y_offset,
        read.y_superscript_x_size == t.y_superscript_x_size,
        read.y_superscript_y_size == t.y_superscript_y_size,
        read.y_superscript_x_offset == t.y_superscript_x_offset,
        read.y_superscript_y_offset == t.y_superscript_y_offset,
        read.y_strikeout_size == t.y_strikeout_size,
        read.y_strikeout_position == t.y_strikeout_position,
        read.s_family_class == t.s_family_class,
        read.panose@ == t.panose@,
        read.ul_unicode_range1 == t.ul_unicode_range1,
        read.ul_unicode_range2 == t.ul_unicode_range2,
        read.ul_unicode_range3 == t.ul_unicode_range3,
        read.ul_unicode_range4 == t.ul_unicode_range4,
        read.ach_vend_id@ == t.ach_vend_id@,
        read.fs_selection == t.fs_selection,
        read.us_first_char_index == t.us_first_char_index,
        read.us_last_char_index == t.us_last_char_index,
        read.s_typo_ascender == t.s_typo_ascender,
        read.s_typo_descender == t.s_typo_descender,
        read.s_typo_line_gap == t.s_typo_line_gap,
        read.us_win_ascent == t.us_win_ascent,
        read.us_win_descent == t.us_win_descent,
        read.ul_code_page_range1 == t.ul_code_page_range1,
        read.ul_code_page_range2 == t.ul_code_page_range2,
        t.version >= 1 ==> read.sx_height == t.sx_height && read.s_cap_height == t.s_cap_height && read.us_default_char == t.us_default_char && read.us_break_char == t.us_break_char && read.us_max_context == t.us_max_context,
        t.version < 1 ==> read.sx_height == 0 && read.s_cap_height == 0 && read.us_default_char == 0 && read.us_break_char == 0 && read.us_max_context == 0,
{
    lemma_os2_fields(t);
}

/// The encoding of `n` full entries takes four bytes each, and reads at four times an
/// index yield the entry at that index.
pub proof fn lemma_metrics_bytes(ms: Seq<LongHorMetric>, n: int)
    requires
        0 <= n <= ms.len(),
    ensures
        metrics_bytes(ms, n).len() == 4 * n,
        forall|i: int|
            0 <= i < n ==> be_u16(metrics_bytes(ms, n), 4 * i) == (#[trigger] ms[i]).advance_width
                && be_i16(metrics_bytes(ms, n), 4 * i + 2) == ms[i].lsb,
    decreases n,
{
    if n > 0 {
        lemma_metrics_bytes(ms, n - 1);
        let before = metrics_bytes(ms, n - 1);
        let all = metrics_bytes(ms, n);
        let width = u16_bytes(ms[n - 1].advance_width as int);
        let bearing = u16_bytes(unsigned(ms[n - 1].lsb as int, 0x8000));
        assert(all == before + width + bearing);
        assert forall|i: int| 0 <= i < n implies be_u16(all, 4 * i) == (#[trigger] ms[i]).advance_width
            && be_i16(all, 4 * i + 2) == ms[i].lsb by {
            if i < n - 1 {
                assert(all[4 * i] == before[4 * i] && all[4 * i + 1] == before[4 * i + 1]);
                assert(all[4 * i + 2] == before[4 * i + 2] && all[4 * i + 3] == before[4 * i + 3]);
            } else {
                assert(all.subrange(4 * i, 4 * i + 2) =~= width);
                assert(all.subrange(4 * i + 2, 4 * i + 4) =~= bearing);
                lemma_round_trip_u16(all, 4 * i, ms[i].advance_width);
                lemma_round_trip_i16(all, 4 * i + 2, ms[i].lsb);
            }
        }
    }
}

/// An `hmtx` table that is decoded from the bytes of another, with the counts of that
/// other, has its entries and its bearings.
pub proof fn lemma_hmtx_round_trip(t: HmtxTable, read: HmtxTable, num_glyphs: int, num_h_metrics: int)
    requires
        t.h_metrics@.len() == num_h_metrics,
        t.left_side_bearings@.len() == bearings_count(num_glyphs, num_h_metrics),
        read.decodes(t.encoding(), 0, num_glyphs, num_h_metrics),
    ensures
        t.encoding().len() == HmtxTable::size(num_glyphs, num_h_metrics),
        read.h_metrics@ == t.h_metrics@,
        read.left_side_bearings@ == t.left_side_bearings@,
{
    let ms = t.h_metrics@;
    let bs = t.left_side_bearings@;
    let first = metrics_bytes(ms, ms.len() as int);
    let second = i16s_bytes(bs, bs.len() as int);
    let e = t.encoding();
    lemma_metrics_bytes(ms, ms.len() as int);
    lemma_i16s_bytes(bs, bs.len() as int);
    assert(e == first + second);
    assert forall|i: int| 0 <= i < ms.len() implies read.h_metrics@[i] == ms[i] by {
        assert(e[4 * i] == first[4 * i] && e[4 * i + 1] == first[4 * i + 1]);
        assert(e[4 * i + 2] == first[4 * i + 2] && e[4 * i + 3] == first[4 * i + 3]);
        assert(be_u16(first, 4 * i) == ms[i].advance_width);
    }
    assert forall|j: int| 0 <= j < bs.len() implies read.left_side_bearings@[j] == bs[j] by {
        assert(e[4 * num_h_metrics + 2 * j] == second[2 * j]);
        assert(e[4 * num_h_metrics + 2 * j + 1] == second[2 * j + 1]);
        assert(be_i16(second, 2 * j) == bs[j]);
    }
    assert(read.h_metrics@ =~= ms);
    assert(read.left_side_bearings@ =~= bs);
}

/// What reads find in the twelve bytes that encode a name record.
pub proof fn lemma_name_record_fields(r: NameRecord)
    ensures
        r.encoding().len() == 12,
        be_u16(r.encoding(), 0) == r.platform_id,
        be_u16(r.encoding(), 2) == r.encoding_id,
        be_u16(r.encoding(), 4) == r.language_id,
        be_u16(r.encoding(), 6) == r.name_id,
        be_u16(r.encoding(), 8) == r.length,
        be_u16(r.encoding(), 10) == r.offset,
{
    let e = r.encoding();
    let q0 = Seq::<u8>::empty();
    let q1 = u16_bytes(r.platform_id as int);
    assert(q0 + u16_bytes(r.platform_id as int) =~= q1);
    let q2 = q1 + u16_bytes(r.encoding_id as int);
    let q3 = q2 + u16_bytes(r.language_id as int);
    let q4 = q3 + u16_bytes(r.name_id as int);
    let q5 = q4 + u16_bytes(r.length as int);
    let q6 = q5 + u16_bytes(r.offset as int);
    assert(e == q6);
    lemma_whole(e);
    lemma_last_u16(e, q5, r.offset);
    lemma_last_u16(e, q4, r.length);
    lemma_last_u16(e, q3, r.name_id);
    lemma_last_u16(e, q2, r.language_id);
    lemma_last_u16(e, q1, r.encoding_id);
    lemma_last_u16(e, q0, r.platform_id);
}

/// The records of a name table as they are written take twelve bytes each, and record `i`
/// lies at twelve times `i`.
pub proof fn lemma_placed_bytes(records: Seq<NameRecord>, strings: Seq<NameString>, n: int, i: int)
    requires
        0 <= i < n,
    ensures
        placed_bytes(records, strings, n).len() == 12 * n,
        placed_bytes(records, strings, n).subrange(12 * i, 12 * i + 12) == placed(
            records,
            strings,
            i,
        ).encoding(),
    decreases n,
{
    lemma_placed_len(records, strings, n);
    lemma_placed_len(records, strings, n - 1);
    let before = placed_bytes(records, strings, n - 1);
    let last = placed(records, strings, n - 1).encoding();
    let all = placed_bytes(records, strings, n);
    lemma_name_record_fields(placed(records, strings, n - 1));
    assert(all == before + last);
    if i < n - 1 {
        lemma_placed_bytes(records, strings, n - 1, i);
        assert(all.subrange(12 * i, 12 * i + 12) =~= before.subrange(12 * i, 12 * i + 12));
    } else {
        assert(all.subrange(12 * i, 12 * i + 12) =~= last);
    }
}

/// The records of a name table as they are written take twelve bytes each.
pub proof fn lemma_placed_len(records: Seq<NameRecord>, strings: Seq<NameString>, n: int)
    ensures
        placed_bytes(records, strings, n).len() == if n <= 0 {
            0
        } else {
            12 * n
        },
    decreases n,
{
    if n > 0 {
        lemma_placed_len(records, strings, n - 1);
        lemma_name_record_fields(placed(records, strings, n - 1));
    }
}

/// The string of record `i` lies in the strings of the first `n` records behind the
/// strings of the records before it.
pub proof fn lemma_string_place(
    records: Seq<NameRecord>,
    strings: Seq<NameString>,
    n: int,
    i: int,
    data: Seq<u8>,
)
    requires
        0 <= i < n,
        string_for(strings, records[i].key(), 0) == Some(data),
    ensures
        storage_upto(records, strings, i).len() + data.len() <= storage_upto(
            records,
            strings,
            n,
        ).len(),
        storage_upto(records, strings, n).subrange(
            storage_upto(records, strings, i).len() as int,
            (storage_upto(records, strings, i).len() + data.len()) as int,
        ) == data,
    decreases n,
{
    let at = storage_upto(records, strings, i).len() as int;
    let all = storage_upto(records, strings, n);
    let before = storage_upto(records, strings, n - 1);
    if i < n - 1 {
        lemma_string_place(records, strings, n - 1, i, data);
        assert(all.subrange(at, at + data.len()) =~= before.subrange(at, at + data.len()));
    } else {
        assert(all == before + data);
        assert(all.subrange(at, at + data.len()) =~= data);
    }
}

/// What reads find in the bytes that encode a name table of at most 0xFFFF bytes: the
/// format, the number of records, the place of the strings, and each record as it is
/// written, with the length of its string and the string's place; and each string lies at
/// its place.
pub proof fn lemma_name_fields(t: NameTable)
    requires
        t.encoded_size() <= 0xFFFF,
    ensures
        t.encoding().len() == t.encoded_size(),
        be_u16(t.encoding(), 0) == t.format,
        be_u16(t.encoding(), 2) == t.name_records@.len(),
        be_u16(t.encoding(), 4) == 6 + 12 * t.name_records@.len(),
        forall|i: int|
            0 <= i < t.name_records@.len() ==> (#[trigger] placed(
                t.name_records@,
                t.string_data@,
                i,
            )).decodes(t.encoding(), 6 + 12 * i),
{
    let records = t.name_records@;
    let strings = t.string_data@;
    let n = records.len() as int;
    let e = t.encoding();
    let q0 = Seq::<u8>::empty();
    let q1 = u16_bytes(t.format as int);
    let q2 = q1 + u16_bytes(n);
    let q3 = q2 + u16_bytes(6 + 12 * n);
    let body = placed_bytes(records, strings, n);
    let q4 = q3 + body;
    let store = storage_upto(records, strings, n);
    assert(q0 + u16_bytes(t.format as int) =~= q1);
    assert(e == q4 + store);
    lemma_placed_len(records, strings, n);
    lemma_whole(e);
    lemma_last_bytes(e, q4, store);
    lemma_last_bytes(e, q3, body);
    lemma_last_u16(e, q2, (6 + 12 * n) as u16);
    lemma_last_u16(e, q1, n as u16);
    lemma_last_u16(e, q0, t.format);
    assert forall|i: int| 0 <= i < n implies (#[trigger] placed(records, strings, i)).decodes(
        e,
        6 + 12 * i,
    ) by {
        let r = placed(records, strings, i);
        lemma_placed_bytes(records, strings, n, i);
        lemma_name_record_fields(r);
        let x = r.encoding();
        assert(e.subrange(6 + 12 * i, 6 + 12 * i + 12) =~= body.subrange(12 * i, 12 * i + 12));
        assert forall|k: int| 0 <= k < 12 implies e[6 + 12 * i + k] == x[k] by {
            assert(e.subrange(6 + 12 * i, 6 + 12 * i + 12)[k] == x[k]);
        }
    }
}

/// A name table that is decoded from the bytes of another, of at most 0xFFFF bytes, has
/// the format of that other and its records as they are written.
pub proof fn lemma_name_round_trip(t: NameTable, read: NameTable)
    requires
        t.encoded_size() <= 0xFFFF,
        read.decodes(t.encoding(), 0),
    ensures
        read.format == t.format,
        read.count == t.name_records@.len(),
        read.string_offset == 6 + 12 * t.name_records@.len(),
        read.name_records@.len() == t.name_records@.len(),
        forall|i: int|
            0 <= i < t.name_records@.len() ==> #[trigger] read.name_records@[i] == placed(
                t.name_records@,
                t.string_data@,
                i,
            ),
{
    lemma_name_fields(t);
    assert forall|i: int| 0 <= i < t.name_records@.len() implies #[trigger] read.name_records@[i]
        == placed(t.name_records@, t.string_data@, i) by {
        let r = placed(t.name_records@, t.string_data@, i);
        assert(r.decodes(t.encoding(), 6 + 12 * i));
        assert(read.name_records@[i].decodes(t.encoding(), 0 + 6 + 12 * i));
    }
}

} // verus!
