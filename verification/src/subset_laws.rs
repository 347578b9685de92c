//! What holds of the tables that a subset writes: read back, the character map maps as it
//! was built, and the glyph offsets are in order.

use crate::font::Font;
use crate::rebuild::{stays, Replacement};
use crate::subset::FontSubset;
use crate::subset_cmap::{
    groups, pairs_upto, single_cmap_encoding, subset_glyph, subset_pairs, MAX_SEGMENTS,
};
use crate::subset_tables::{lemma_outlines_grow, outlines_upto};
use crate::tables::cmap::{first_encoding, preferred_record, CmapSubtable, CmapTable, Format4};
use crate::tables::cmap_parse::{
    format4_glyph_count, format4_size, subtable_fits, subtable_outcome, subtable_start,
    SubtableOutcome,
};
use crate::tables::loca::LocaTable;
use crate::tables::{TAG_CMAP, TAG_GLYF, TAG_HEAD};
use crate::wire::{
    be_i16, be_u16, be_u32, i16s_bytes, lemma_be_u16_in_part, lemma_i16s_bytes,
    lemma_round_trip_u16, lemma_round_trip_u32, lemma_u16s_bytes, u16_bytes, u16s_bytes, u32_bytes,
};
use vstd::prelude::*;

verus! {

/// The fixed part of a character map with one subtable: the header, the one encoding record,
/// and the seven header fields of the subtable.
pub open spec fn single_cmap_head(f: Format4) -> Seq<u8> {
    u16_bytes(0) + u16_bytes(1) + u16_bytes(3) + u16_bytes(1) + u32_bytes(12) + u16_bytes(
        f.format as int,
    ) + u16_bytes(f.length as int) + u16_bytes(f.language as int) + u16_bytes(
        f.seg_count_x2 as int,
    ) + u16_bytes(f.search_range as int) + u16_bytes(f.entry_selector as int) + u16_bytes(
        f.range_shift as int,
    )
}

/// The bytes `e` hold a character map with the one subtable `f` of `n` segments: the header
/// and the record in twelve bytes, the seven fields of the subtable, and its four arrays, with
/// two bytes of filling behind the first.
pub open spec fn holds_single_cmap(e: Seq<u8>, f: Format4, n: int) -> bool {
    &&& e.len() == 28 + 8 * n
    &&& be_u16(e, 0) == 0
    &&& be_u16(e, 2) == 1
    &&& be_u16(e, 4) == 3
    &&& be_u16(e, 6) == 1
    &&& be_u32(e, 8) == 12
    &&& be_u16(e, 12) == 4
    &&& be_u16(e, 14) == f.length
    &&& be_u16(e, 16) == f.language
    &&& be_u16(e, 18) == f.seg_count_x2
    &&& be_u16(e, 20) == f.search_range
    &&& be_u16(e, 22) == f.entry_selector
    &&& be_u16(e, 24) == f.range_shift
    &&& forall|i: int| 0 <= i < n ==> be_u16(e, 26 + 2 * i) == #[trigger] f.end_codes@[i]
    &&& forall|i: int| 0 <= i < n ==> be_u16(e, 28 + 2 * n + 2 * i) == #[trigger] f.start_codes@[i]
    &&& forall|i: int| 0 <= i < n ==> be_i16(e, 28 + 4 * n + 2 * i) == #[trigger] f.id_deltas@[i]
    &&& forall|i: int|
        0 <= i < n ==> be_u16(e, 28 + 6 * n + 2 * i) == #[trigger] f.id_range_offsets@[i]
}

/// The parts of the encoding of a character map with one subtable of `n` segments: the fixed
/// part and the four arrays.
pub open spec fn parts_of(f: Format4, n: int) -> (Seq<u8>, Seq<u8>, Seq<u8>, Seq<u8>, Seq<u8>) {
    (
        single_cmap_head(f),
        u16s_bytes(f.end_codes@, n),
        u16s_bytes(f.start_codes@, n),
        i16s_bytes(f.id_deltas@, n),
        u16s_bytes(f.id_range_offsets@, n),
    )
}

/// The encoding of a character map with one plain subtable is its parts, one after the
/// other, with two zero bytes behind the end codes.
proof fn lemma_single_cmap_parts(f: Format4, n: int)
    requires
        f.plain(n),
        1 <= n <= MAX_SEGMENTS,
    ensures
        ({
            let (head, ends, starts, deltas, offsets) = parts_of(f, n);
            &&& single_cmap_encoding(f) == head + ends + u16_bytes(0) + starts + deltas + offsets
            &&& head.len() == 26
            &&& ends.len() == 2 * n
            &&& starts.len() == 2 * n
            &&& deltas.len() == 2 * n
            &&& offsets.len() == 2 * n
        }),
{
    let e = single_cmap_encoding(f);
    let (head, ends, starts, deltas, offsets) = parts_of(f, n);
    let glyphs = u16s_bytes(f.glyph_id_array@, 0);
    lemma_u16s_bytes(f.end_codes@, n);
    lemma_u16s_bytes(f.start_codes@, n);
    lemma_i16s_bytes(f.id_deltas@, n);
    lemma_u16s_bytes(f.id_range_offsets@, n);
    assert(glyphs.len() == 0);
    assert(head.len() == 26);
    assert(e =~= head + ends + u16_bytes(0) + starts + deltas + offsets);
}

/// What a 16-bit read finds in the fixed part of a character map with one subtable.
proof fn lemma_single_cmap_fixed(f: Format4)
    ensures
        ({
            let head = single_cmap_head(f);
            &&& head.len() == 26
            &&& be_u16(head, 0) == 0
            &&& be_u16(head, 2) == 1
            &&& be_u16(head, 4) == 3
            &&& be_u16(head, 6) == 1
            &&& be_u32(head, 8) == 12
            &&& be_u16(head, 12) == f.format
            &&& be_u16(head, 14) == f.length
            &&& be_u16(head, 16) == f.language
            &&& be_u16(head, 18) == f.seg_count_x2
            &&& be_u16(head, 20) == f.search_range
            &&& be_u16(head, 22) == f.entry_selector
            &&& be_u16(head, 24) == f.range_shift
        }),
{
    let head = single_cmap_head(f);
    assert(head.subrange(0, 2) =~= u16_bytes(0));
    assert(head.subrange(2, 4) =~= u16_bytes(1));
    assert(head.subrange(4, 6) =~= u16_bytes(3));
    assert(head.subrange(6, 8) =~= u16_bytes(1));
    assert(head.subrange(8, 12) =~= u32_bytes(12));
    assert(head.subrange(12, 14) =~= u16_bytes(f.format as int));
    assert(head.subrange(14, 16) =~= u16_bytes(f.length as int));
    assert(head.subrange(16, 18) =~= u16_bytes(f.language as int));
    assert(head.subrange(18, 20) =~= u16_bytes(f.seg_count_x2 as int));
    assert(head.subrange(20, 22) =~= u16_bytes(f.search_range as int));
    assert(head.subrange(22, 24) =~= u16_bytes(f.entry_selector as int));
    assert(head.subrange(24, 26) =~= u16_bytes(f.range_shift as int));
    lemma_round_trip_u16(head, 0, 0);
    lemma_round_trip_u16(head, 2, 1);
    lemma_round_trip_u16(head, 4, 3);
    lemma_round_trip_u16(head, 6, 1);
    lemma_round_trip_u32(head, 8, 12);
    lemma_round_trip_u16(head, 12, f.format);
    lemma_round_trip_u16(head, 14, f.length);
    lemma_round_trip_u16(head, 16, f.language);
    lemma_round_trip_u16(head, 18, f.seg_count_x2);
    lemma_round_trip_u16(head, 20, f.search_range);
    lemma_round_trip_u16(head, 22, f.entry_selector);
    lemma_round_trip_u16(head, 24, f.range_shift);
}

/// Bytes that are six parts, one after the other, hold a character map with the one subtable
/// `f`, where the parts are those of `f`.
proof fn lemma_parts_hold(e: Seq<u8>, f: Format4, n: int)
    requires
        f.plain(n),
        1 <= n <= MAX_SEGMENTS,
        ({
            let (head, ends, starts, deltas, offsets) = parts_of(f, n);
            &&& e == head + ends + u16_bytes(0) + starts + deltas + offsets
            &&& head.len() == 26
            &&& ends.len() == 2 * n
            &&& starts.len() == 2 * n
            &&& deltas.len() == 2 * n
            &&& offsets.len() == 2 * n
        }),
    ensures
        holds_single_cmap(e, f, n),
{
    let (head, ends, starts, deltas, offsets) = parts_of(f, n);
    let pad = u16_bytes(0);
    lemma_single_cmap_fixed(f);
    lemma_u16s_bytes(f.end_codes@, n);
    lemma_u16s_bytes(f.start_codes@, n);
    lemma_i16s_bytes(f.id_deltas@, n);
    lemma_u16s_bytes(f.id_range_offsets@, n);
    assert forall|k: int| 0 <= k < 26 implies e[k] == head[k] by {}
    assert forall|i: int| 0 <= i < n implies be_u16(e, 26 + 2 * i) == #[trigger] f.end_codes@[i] by {
        assert(e =~= head + ends + (pad + starts + deltas + offsets));
        lemma_be_u16_in_part(head, ends, pad + starts + deltas + offsets, 2 * i);
    }
    assert forall|i: int| 0 <= i < n implies be_u16(e, 28 + 2 * n + 2 * i)
        == #[trigger] f.start_codes@[i] by {
        assert(e =~= (head + ends + pad) + starts + (deltas + offsets));
        lemma_be_u16_in_part(head + ends + pad, starts, deltas + offsets, 2 * i);
    }
    assert forall|i: int| 0 <= i < n implies be_i16(e, 28 + 4 * n + 2 * i)
        == #[trigger] f.id_deltas@[i] by {
        assert(e =~= (head + ends + pad + starts) + deltas + offsets);
        lemma_be_u16_in_part(head + ends + pad + starts, deltas, offsets, 2 * i);
    }
    assert forall|i: int| 0 <= i < n implies be_u16(e, 28 + 6 * n + 2 * i)
        == #[trigger] f.id_range_offsets@[i] by {
        assert(e =~= (head + ends + pad + starts + deltas) + offsets + Seq::<u8>::empty());
        lemma_be_u16_in_part(
            head + ends + pad + starts + deltas,
            offsets,
            Seq::<u8>::empty(),
            2 * i,
        );
    }
}

/// The encoding of a character map with one plain subtable holds that map.
pub proof fn lemma_single_cmap_layout(f: Format4, n: int)
    requires
        f.plain(n),
        1 <= n <= MAX_SEGMENTS,
    ensures
        holds_single_cmap(single_cmap_encoding(f), f, n),
{
    lemma_single_cmap_parts(f, n);
    lemma_parts_hold(single_cmap_encoding(f), f, n);
}

/// Two subtables with the same segment count and the same arrays find the same segment.
proof fn lemma_same_segment(a: Format4, b: Format4, c: int, from: int)
    requires
        a.seg_count_x2 == b.seg_count_x2,
        a.end_codes@ == b.end_codes@,
        a.start_codes@ == b.start_codes@,
        a.id_deltas@ == b.id_deltas@,
        a.id_range_offsets@ == b.id_range_offsets@,
    ensures
        a.segment_of(c, from) == b.segment_of(c, from),
    decreases a.segments() - from,
{
    if 0 <= from < a.segments() && !a.contains(from, c) {
        lemma_same_segment(a, b, c, from + 1);
    }
}

/// Bytes that hold a character map with one plain subtable can be read back.
proof fn lemma_parses(e: Seq<u8>, f: Format4, n: int)
    requires
        f.plain(n),
        1 <= n <= MAX_SEGMENTS,
        holds_single_cmap(e, f, n),
    ensures
        CmapTable::parses(e, 0),
{
    assert(format4_glyph_count(f.length as int, n) == 0);
    assert(be_u16(e, 18) / 2 == n);
    assert(format4_size(e, 12) == 16 + 8 * n);
    assert(subtable_start(e, 0, 0) == 12);
    assert(subtable_outcome(e, 12) == SubtableOutcome::Fits { size: 16 + 8 * n });
    assert(subtable_fits(e, 0, 0));
}

/// The encoding of a character map with one plain subtable can be read back.
pub proof fn lemma_single_cmap_parses(f: Format4, n: int)
    requires
        f.plain(n),
        1 <= n <= MAX_SEGMENTS,
    ensures
        CmapTable::parses(single_cmap_encoding(f), 0),
{
    lemma_single_cmap_layout(f, n);
    lemma_parses(single_cmap_encoding(f), f, n);
}

/// A subtable that is read back from bytes that hold a character map with the one plain
/// subtable `f` has the segments of `f`.
proof fn lemma_read_back_subtable(e: Seq<u8>, f: Format4, n: int, g: Format4)
    requires
        f.plain(n),
        1 <= n <= MAX_SEGMENTS,
        holds_single_cmap(e, f, n),
        g.decodes(e, 12),
    ensures
        g.seg_count_x2 == f.seg_count_x2,
        g.end_codes@ == f.end_codes@,
        g.start_codes@ == f.start_codes@,
        g.id_deltas@ == f.id_deltas@,
        g.id_range_offsets@ == f.id_range_offsets@,
        g.glyph_id_array@ == f.glyph_id_array@,
{
    assert(g.seg_count_x2 == f.seg_count_x2);
    assert(g.seg_count_x2 as int / 2 == n);
    assert(g.length == f.length);
    assert(format4_glyph_count(g.length as int, n) == 0);
    assert(g.end_codes@ =~= f.end_codes@) by {
        assert forall|i: int| 0 <= i < n implies g.end_codes@[i] == f.end_codes@[i] by {
            assert(g.end_codes@[i] == be_u16(e, 12 + 14 + 2 * i));
        }
    }
    assert(g.start_codes@ =~= f.start_codes@) by {
        assert forall|i: int| 0 <= i < n implies g.start_codes@[i] == f.start_codes@[i] by {
            assert(g.start_codes@[i] == be_u16(e, 12 + 16 + 2 * n + 2 * i));
        }
    }
    assert(g.id_deltas@ =~= f.id_deltas@) by {
        assert forall|i: int| 0 <= i < n implies g.id_deltas@[i] == f.id_deltas@[i] by {
            assert(g.id_deltas@[i] == be_i16(e, 12 + 16 + 4 * n + 2 * i));
        }
    }
    assert(g.id_range_offsets@ =~= f.id_range_offsets@) by {
        assert forall|i: int| 0 <= i < n implies g.id_range_offsets@[i]
            == f.id_range_offsets@[i] by {
            assert(g.id_range_offsets@[i] == be_u16(e, 12 + 16 + 6 * n + 2 * i));
        }
    }
    assert(g.glyph_id_array@ =~= f.glyph_id_array@);
}

/// A table that is read back from bytes that hold a character map with one plain subtable
/// uses its first subtable, which is of format 4 and was read at offset 12.
proof fn lemma_read_back_table(e: Seq<u8>, f: Format4, n: int, t: CmapTable)
    requires
        f.plain(n),
        1 <= n <= MAX_SEGMENTS,
        holds_single_cmap(e, f, n),
        t.decodes(e, 0),
    ensures
        t.best_index() == Some(0int),
        t.subtables@[0] is Format4,
        t.subtables@[0]->Format4_0.decodes(e, 12),
{
    assert(t.encoding_records@.len() == 1);
    assert(t.subtables@.len() == 1);
    let record = t.encoding_records@[0];
    assert(record.decodes(e, 4));
    assert(record.platform_id == 3 && record.encoding_id == 1 && record.offset == 12);
    assert(first_encoding(t.encoding_records@, 3, 1, 0) == Some(0int));
    assert(preferred_record(t.encoding_records@) == Some(0int));
    let sub = t.subtables@[0];
    assert(sub.decodes(e, 0 + record.offset));
    assert(be_u16(e, 12) == 4);
}

/// A character map that is read back from the encoding of a map with one plain subtable
/// maps every code as that subtable does.
pub proof fn lemma_single_cmap_round_trip(f: Format4, n: int, t: CmapTable, c: int)
    requires
        f.plain(n),
        1 <= n <= MAX_SEGMENTS,
        t.decodes(single_cmap_encoding(f), 0),
        0 <= c,
    ensures
        t.glyph(c) == CmapSubtable::Format4(f).glyph(c),
{
    let e = single_cmap_encoding(f);
    lemma_single_cmap_layout(f, n);
    lemma_read_back_table(e, f, n, t);
    let g = t.subtables@[0]->Format4_0;
    lemma_read_back_subtable(e, f, n, g);
    lemma_same_segment(g, f, c, 0);
}

/// A character map that is read back from the encoding of a map with one plain subtable has
/// one encoding record, for Windows Unicode BMP, and one subtable, of format 4, with the
/// segments of the subtable that was written.
pub proof fn lemma_single_cmap_shape(f: Format4, n: int, t: CmapTable)
    requires
        f.plain(n),
        1 <= n <= MAX_SEGMENTS,
        t.decodes(single_cmap_encoding(f), 0),
    ensures
        t.encoding_records@.len() == 1,
        t.encoding_records@[0].platform_id == 3,
        t.encoding_records@[0].encoding_id == 1,
        t.subtables@.len() == 1,
        t.subtables@[0] is Format4,
        t.subtables@[0]->Format4_0.start_codes@ == f.start_codes@,
        t.subtables@[0]->Format4_0.end_codes@ == f.end_codes@,
        t.subtables@[0]->Format4_0.id_deltas@ == f.id_deltas@,
        t.subtables@[0]->Format4_0.id_range_offsets@ == f.id_range_offsets@,
        t.subtables@[0]->Format4_0.glyph_id_array@ == f.glyph_id_array@,
{
    let e = single_cmap_encoding(f);
    lemma_single_cmap_layout(f, n);
    lemma_read_back_table(e, f, n, t);
    lemma_read_back_subtable(e, f, n, t.subtables@[0]->Format4_0);
    lemma_read_back_record(e, f, n, t);
}

/// A table that is read back from bytes that hold a character map with one plain subtable
/// has one encoding record, for Windows Unicode BMP, and one subtable.
proof fn lemma_read_back_record(e: Seq<u8>, f: Format4, n: int, t: CmapTable)
    requires
        f.plain(n),
        1 <= n <= MAX_SEGMENTS,
        holds_single_cmap(e, f, n),
        t.decodes(e, 0),
    ensures
        t.encoding_records@.len() == 1,
        t.subtables@.len() == 1,
        t.encoding_records@[0].platform_id == 3,
        t.encoding_records@[0].encoding_id == 1,
{
    assert(t.encoding_records@.len() == 1);
    assert(t.subtables@.len() == 1);
    let record = t.encoding_records@[0];
    assert(record.decodes(e, 4));
}

/// A new glyph id is a place among the retained glyphs.
pub proof fn lemma_subset_glyph_in_range(
    subtables: Seq<CmapSubtable>,
    retained: Seq<u32>,
    c: int,
    n: int,
)
    ensures
        subset_glyph(subtables, retained, c, n) matches Some(g) ==> 0 <= g < retained.len(),
    decreases n,
{
    if n > 0 {
        lemma_subset_glyph_in_range(subtables, retained, c, n - 1);
        match subtables[n - 1].glyph(c) {
            Some(old) => {
                if retained.contains(old) {
                    assert(0 <= retained.index_of(old) < retained.len());
                }
            },
            None => {},
        }
    }
}

/// Pairs are grouped into no segments or more.
proof fn lemma_groups_at_least_zero(m: Seq<(u32, u32)>, k: int)
    ensures
        groups(m, k) >= 0,
    decreases k,
{
    if k > 0 {
        lemma_groups_at_least_zero(m, k - 1);
    }
}

/// The character map `t`, read from the bytes `b` that a subset wrote for the character map
/// `old`, gives the code `c` the new id that the code has in the subset, which is below the
/// number of retained glyphs, and nothing where the code has no glyph in the subset.
pub open spec fn maps_into_subset(
    s: FontSubset,
    b: Seq<u8>,
    old: CmapTable,
    t: CmapTable,
    c: int,
) -> bool {
    s.mapping_from(b, old) && match subset_glyph(
        old.subtables@,
        s.retained(),
        c,
        old.subtables@.len() as int,
    ) {
        Some(g) => t.glyph(c) == Some(g as u32) && g < s.retained().len(),
        None => t.glyph(c) is None,
    }
}

/// The character map `t`, read from the bytes `b` that a subset wrote for the character map
/// `old`, has one encoding record, for Windows Unicode BMP, and one subtable, of format 4,
/// whose segments are those of the subset's pairs, in order, with the closing segment last.
pub open spec fn shaped_for_subset(s: FontSubset, b: Seq<u8>, old: CmapTable, t: CmapTable) -> bool {
    &&& s.mapping_from(b, old)
    &&& t.encoding_records@.len() == 1
    &&& t.encoding_records@[0].platform_id == 3
    &&& t.encoding_records@[0].encoding_id == 1
    &&& t.subtables@.len() == 1
    &&& t.subtables@[0] is Format4
    &&& t.subtables@[0]->Format4_0.in_order()
    &&& t.subtables@[0]->Format4_0.groups_of(subset_pairs(old, s.retained(), 0xFFFF))
}

/// The character map of a subset maps into the subset: a code below 0xFFFF that the old map
/// takes to a retained glyph is taken, by any reading of the new map, to the new id of that
/// glyph, and the new id is below the number of glyphs of the subset; and any other code
/// below 0xFFFF is taken to nothing.
pub proof fn lemma_subset_maps_codes(s: FontSubset, f: Font, t: CmapTable, c: int)
    requires
        s.is_subset(f),
        stays(s.kept_tables(), TAG_CMAP@),
        f.table_bytes(TAG_CMAP@) matches Some(b) && t.decodes(b, 0),
        0 <= c < 0xFFFF,
    ensures
        exists|old: CmapTable| #[trigger]
            maps_into_subset(s, f.table_bytes(TAG_CMAP@)->Some_0, old, t, c),
{
    let b = f.table_bytes(TAG_CMAP@)->Some_0;
    lemma_subset_cmap_bytes(s, f);
    let old = choose|old: CmapTable| #[trigger] s.mapping_from(b, old);
    lemma_written_map(s, b, old, t, c);
    assert(maps_into_subset(s, b, old, t, c));
}

/// The pairs that a subset collected, and the subtable that holds them, for bytes that are a
/// rewritten character map.
pub open spec fn written_with(
    s: FontSubset,
    b: Seq<u8>,
    old: CmapTable,
    pairs: Seq<(u32, u32)>,
    format4: Format4,
) -> bool {
    &&& pairs_upto(pairs, old, s.retained(), 0xFFFF)
    &&& pairs == subset_pairs(old, s.retained(), 0xFFFF)
    &&& format4.written_for(pairs)
    &&& format4.holds(pairs)
    &&& format4.plain(groups(pairs, pairs.len() as int) + 1)
    &&& b == single_cmap_encoding(format4)
}

/// The character map of a subset was written from the subset's pairs.
proof fn lemma_was_written(s: FontSubset, b: Seq<u8>, old: CmapTable)
    requires
        s.mapping_from(b, old),
    ensures
        exists|pairs: Seq<(u32, u32)>, format4: Format4| #[trigger]
            written_with(s, b, old, pairs, format4),
{
    let found = choose|pairs: Seq<(u32, u32)>, format4: Format4|
        {
            &&& #[trigger] pairs_upto(pairs, old, s.retained(), 0xFFFF)
            &&& #[trigger] format4.holds(pairs)
            &&& pairs == subset_pairs(old, s.retained(), 0xFFFF)
            &&& format4.written_for(pairs)
            &&& format4.plain(groups(pairs, pairs.len() as int) + 1)
            &&& b == single_cmap_encoding(format4)
        };
    assert(written_with(s, b, old, found.0, found.1));
}

/// The `cmap` table of a subset font that keeps it is the character map of the subset.
proof fn lemma_subset_cmap_bytes(s: FontSubset, f: Font)
    requires
        s.is_subset(f),
        stays(s.kept_tables(), TAG_CMAP@),
        f.table_bytes(TAG_CMAP@) is Some,
    ensures
        s.maps_subset(f.table_bytes(TAG_CMAP@)->Some_0),
{
    let list = choose|list: Seq<Replacement>|
        {
            &&& #[trigger] s.rewrites(list)
            &&& stays(s.kept_tables(), crate::tables::TAG_GLYF@) ==> f.table_bytes(
                crate::tables::TAG_GLYF@,
            ) == Some(list[0].data@)
            &&& stays(s.kept_tables(), crate::tables::TAG_LOCA@) ==> f.table_bytes(
                crate::tables::TAG_LOCA@,
            ) == Some(list[1].data@)
            &&& stays(s.kept_tables(), crate::tables::TAG_HMTX@) ==> f.table_bytes(
                crate::tables::TAG_HMTX@,
            ) == Some(list[2].data@)
            &&& stays(s.kept_tables(), crate::tables::TAG_HHEA@) ==> f.table_bytes(
                crate::tables::TAG_HHEA@,
            ) == Some(list[3].data@)
            &&& stays(s.kept_tables(), crate::tables::TAG_MAXP@) ==> f.table_bytes(
                crate::tables::TAG_MAXP@,
            ) == Some(list[4].data@)
            &&& stays(s.kept_tables(), TAG_CMAP@) ==> f.table_bytes(TAG_CMAP@) == Some(
                list[5].data@,
            )
        };
    assert(f.table_bytes(TAG_CMAP@)->Some_0 == list[5].data@);
}

/// The subtable that holds the collected pairs gives a code the glyph that the code has in
/// the subset.
proof fn lemma_pair_maps(
    pairs: Seq<(u32, u32)>,
    format4: Format4,
    old: CmapTable,
    keep: Seq<u32>,
    c: int,
)
    requires
        pairs_upto(pairs, old, keep, 0xFFFF),
        format4.holds(pairs),
        0 <= c < 0xFFFF,
        keep.len() <= 0xFFFF,
        subset_glyph(old.subtables@, keep, c, old.subtables@.len() as int) is Some,
    ensures
        format4.glyph(c) == Some(
            subset_glyph(old.subtables@, keep, c, old.subtables@.len() as int)->Some_0 as u16,
        ),
{
    let g = subset_glyph(old.subtables@, keep, c, old.subtables@.len() as int)->Some_0;
    lemma_subset_glyph_in_range(old.subtables@, keep, c, old.subtables@.len() as int);
    let i = choose|i: int| 0 <= i < pairs.len() && (#[trigger] pairs[i]).0 == c;
    assert(pairs[i].0 == c);
    assert(pairs[i].1 == g);
    assert(format4.glyph(pairs[i].0 as int) == Some(pairs[i].1 as u16));
}

/// The step of [`lemma_subset_maps_codes`] for one old character map.
proof fn lemma_written_map(s: FontSubset, b: Seq<u8>, old: CmapTable, t: CmapTable, c: int)
    requires
        s.mapping_from(b, old),
        s.retained().len() <= 0xFFFF,
        t.decodes(b, 0),
        0 <= c < 0xFFFF,
    ensures
        maps_into_subset(s, b, old, t, c),
{
    let keep = s.retained();
    let wanted = subset_glyph(old.subtables@, keep, c, old.subtables@.len() as int);
    lemma_subset_glyph_in_range(old.subtables@, keep, c, old.subtables@.len() as int);
    lemma_was_written(s, b, old);
    let found = choose|pairs: Seq<(u32, u32)>, format4: Format4| #[trigger]
        written_with(s, b, old, pairs, format4);
    let pairs = found.0;
    let format4 = found.1;
    let n = groups(pairs, pairs.len() as int) + 1;
    lemma_groups_at_least_zero(pairs, pairs.len() as int);
    lemma_single_cmap_round_trip(format4, n, t, c);
    if wanted is Some {
        lemma_pair_maps(pairs, format4, old, keep, c);
    } else {
        assert forall|i: int| 0 <= i < pairs.len() implies pairs[i].0 != c by {
            assert(subset_glyph(
                old.subtables@,
                keep,
                (#[trigger] pairs[i]).0 as int,
                old.subtables@.len() as int,
            ) is Some);
        }
        assert(format4.glyph(c) is None);
    }
}

/// The character map of a subset has the shape that subsetting gives it: read back, it has
/// one encoding record, for Windows Unicode BMP, and one subtable of format 4, whose
/// segments are those that the subset's pairs are grouped into, in ascending order and
/// apart, with the closing segment for the code 0xFFFF last.
pub proof fn lemma_subset_cmap_shape(s: FontSubset, f: Font, t: CmapTable)
    requires
        s.is_subset(f),
        stays(s.kept_tables(), TAG_CMAP@),
        f.table_bytes(TAG_CMAP@) matches Some(b) && t.decodes(b, 0),
    ensures
        exists|old: CmapTable| #[trigger]
            shaped_for_subset(s, f.table_bytes(TAG_CMAP@)->Some_0, old, t),
{
    let b = f.table_bytes(TAG_CMAP@)->Some_0;
    lemma_subset_cmap_bytes(s, f);
    let old = choose|old: CmapTable| #[trigger] s.mapping_from(b, old);
    lemma_written_shape(s, b, old, t);
}

/// The step of [`lemma_subset_cmap_shape`] for one old character map.
proof fn lemma_written_shape(s: FontSubset, b: Seq<u8>, old: CmapTable, t: CmapTable)
    requires
        s.mapping_from(b, old),
        t.decodes(b, 0),
    ensures
        shaped_for_subset(s, b, old, t),
{
    lemma_was_written(s, b, old);
    let found = choose|pairs: Seq<(u32, u32)>, format4: Format4| #[trigger]
        written_with(s, b, old, pairs, format4);
    lemma_groups_at_least_zero(found.0, found.0.len() as int);
    lemma_same_shape(found.1, found.0, t);
}

/// A character map that is read back from the encoding of the subtable that was written for
/// the pairs `m` has the shape that subsetting gives it.
proof fn lemma_same_shape(f: Format4, m: Seq<(u32, u32)>, t: CmapTable)
    requires
        f.written_for(m),
        0 <= groups(m, m.len() as int),
        t.decodes(single_cmap_encoding(f), 0),
    ensures
        t.encoding_records@.len() == 1,
        t.encoding_records@[0].platform_id == 3,
        t.encoding_records@[0].encoding_id == 1,
        t.subtables@.len() == 1,
        t.subtables@[0] is Format4,
        t.subtables@[0]->Format4_0.in_order(),
        t.subtables@[0]->Format4_0.groups_of(m),
{
    lemma_single_cmap_shape(f, groups(m, m.len() as int) + 1, t);
}

/// The `loca` table of a subset is in order: decoded, its offsets never fall, and the last
/// of them is the length of the new `glyf` table.
pub proof fn lemma_subset_offsets_ascend(
    s: FontSubset,
    glyf: Seq<u8>,
    b: Seq<u8>,
    loca: LocaTable,
    read: LocaTable,
)
    requires
        s.outlines_from(glyf, b, loca),
        read.decodes(
            b,
            0,
            s.retained().len() as int + 1,
            be_i16(s.source().access(TAG_HEAD@)->bytes, 50) == 1,
        ),
    ensures
        read.entries() == s.retained().len() + 1,
        read.ascending(),
        read.offset(s.retained().len() as int) == glyf.len(),
{
    let keep = s.retained();
    let n = keep.len() as int;
    let old = s.source().access(TAG_GLYF@)->bytes;
    assert forall|k: int| 0 <= k <= n implies #[trigger] read.offset(k) == outlines_upto(
        old,
        loca,
        keep,
        k,
    ).len() by {
        assert(outlines_upto(old, loca, keep, k).len() >= 0);
    }
    assert forall|i: int| 0 <= i && i + 1 < read.entries() implies #[trigger] read.offset(i)
        <= read.offset(i + 1) by {
        lemma_outlines_grow(old, loca, keep, i, i + 1);
        assert(read.offset(i) == outlines_upto(old, loca, keep, i).len());
        assert(read.offset(i + 1) == outlines_upto(old, loca, keep, i + 1).len());
    }
}

} // verus!
