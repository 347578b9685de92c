//! What holds of a file that was laid out afresh: read back, its directory finds each table
//! where the table was written.

use crate::font::{first_with_tag, lemma_first_with_tag, lemma_first_with_tag_by_tags, Font};
use crate::font::{SFNT_OPENTYPE, SFNT_TRUETYPE};
use crate::layout::{
    directory_upto, file_bytes, laid_out, layout_fits, lemma_directory_len, lemma_laid_out_span,
    SfntHeader,
};
use crate::tables::TableRecord;
use crate::wire::{
    be_u16, be_u32, lemma_round_trip_u16, lemma_round_trip_u32, u16_bytes, u32_bytes,
};
use vstd::prelude::*;

verus! {

/// What reads find in the twelve bytes of a header.
proof fn lemma_header_fields(h: SfntHeader)
    ensures
        h.encoding().len() == 12,
        be_u32(h.encoding(), 0) == h.sfnt_version,
        be_u16(h.encoding(), 4) == h.num_tables,
        be_u16(h.encoding(), 6) == h.search_range,
        be_u16(h.encoding(), 8) == h.entry_selector,
        be_u16(h.encoding(), 10) == h.range_shift,
{
    let e = h.encoding();
    assert(e.subrange(0, 4) =~= u32_bytes(h.sfnt_version as int));
    assert(e.subrange(4, 6) =~= u16_bytes(h.num_tables as int));
    assert(e.subrange(6, 8) =~= u16_bytes(h.search_range as int));
    assert(e.subrange(8, 10) =~= u16_bytes(h.entry_selector as int));
    assert(e.subrange(10, 12) =~= u16_bytes(h.range_shift as int));
    lemma_round_trip_u32(e, 0, h.sfnt_version);
    lemma_round_trip_u16(e, 4, h.num_tables);
    lemma_round_trip_u16(e, 6, h.search_range);
    lemma_round_trip_u16(e, 8, h.entry_selector);
    lemma_round_trip_u16(e, 10, h.range_shift);
}

/// What reads find in the sixteen bytes of a directory entry.
proof fn lemma_record_fields(rec: TableRecord)
    ensures
        rec.encoding().len() == 16,
        rec.encoding().subrange(0, 4) == rec.table_tag@,
        be_u32(rec.encoding(), 4) == rec.checksum,
        be_u32(rec.encoding(), 8) == rec.offset,
        be_u32(rec.encoding(), 12) == rec.length,
{
    let e = rec.encoding();
    assert(rec.table_tag@.len() == 4);
    assert(e.subrange(0, 4) =~= rec.table_tag@);
    assert(e.subrange(4, 8) =~= u32_bytes(rec.checksum as int));
    assert(e.subrange(8, 12) =~= u32_bytes(rec.offset as int));
    assert(e.subrange(12, 16) =~= u32_bytes(rec.length as int));
    lemma_round_trip_u32(e, 4, rec.checksum);
    lemma_round_trip_u32(e, 8, rec.offset);
    lemma_round_trip_u32(e, 12, rec.length);
}

/// Entry `i` of a directory of `n` entries lies in its bytes at sixteen times `i`.
proof fn lemma_directory_entry(
    records: Seq<TableRecord>,
    parts: Seq<Option<Seq<u8>>>,
    n: int,
    i: int,
)
    requires
        0 <= i < n,
    ensures
        directory_upto(records, parts, n).len() == 16 * n,
        directory_upto(records, parts, n).subrange(16 * i, 16 * i + 16) == laid_out(
            records,
            parts,
            i,
        ).encoding(),
    decreases n,
{
    lemma_directory_len(records, parts, n);
    lemma_directory_len(records, parts, n - 1);
    let all = directory_upto(records, parts, n);
    let before = directory_upto(records, parts, n - 1);
    let last = laid_out(records, parts, n - 1).encoding();
    lemma_record_fields(laid_out(records, parts, n - 1));
    if i < n - 1 {
        lemma_directory_entry(records, parts, n - 1, i);
        assert(all.subrange(16 * i, 16 * i + 16) =~= before.subrange(16 * i, 16 * i + 16));
    } else {
        assert(all.subrange(16 * i, 16 * i + 16) =~= last);
    }
}

/// A record that is read from the place of entry `i` in a file that was laid out afresh is
/// that entry.
proof fn lemma_entry_read_back(
    header: SfntHeader,
    records: Seq<TableRecord>,
    parts: Seq<Option<Seq<u8>>>,
    i: int,
    read: TableRecord,
)
    requires
        0 <= i < records.len(),
        read.decodes(file_bytes(header, records, parts), 12 + 16 * i),
    ensures
        read.table_tag@ == records[i].table_tag@,
        read.checksum == laid_out(records, parts, i).checksum,
        read.offset == laid_out(records, parts, i).offset,
        read.length == laid_out(records, parts, i).length,
{
    let n = records.len() as int;
    let file = file_bytes(header, records, parts);
    let directory = directory_upto(records, parts, n);
    let entry = laid_out(records, parts, i);
    let e = entry.encoding();
    lemma_header_fields(header);
    lemma_directory_entry(records, parts, n, i);
    lemma_record_fields(entry);
    let p = 12 + 16 * i;
    assert(file.subrange(p, p + 16) =~= e) by {
        assert forall|k: int| 0 <= k < 16 implies file[p + k] == e[k] by {
            assert(file[p + k] == directory[16 * i + k]);
            assert(directory.subrange(16 * i, 16 * i + 16)[k] == e[k]);
        }
    }
    assert forall|k: int| 0 <= k < 16 implies file[p + k] == e[k] by {
        assert(file.subrange(p, p + 16)[k] == e[k]);
    }
    assert(file.subrange(p, p + 4) =~= e.subrange(0, 4));
}

/// A file that was laid out afresh under a header with a version that is read, and with the
/// number of its entries as the number of tables, starts with a header and a whole directory.
pub proof fn lemma_laid_out_parses(
    header: SfntHeader,
    records: Seq<TableRecord>,
    parts: Seq<Option<Seq<u8>>>,
)
    requires
        header.sfnt_version == SFNT_TRUETYPE || header.sfnt_version == SFNT_OPENTYPE,
        header.num_tables == records.len(),
    ensures
        Font::parses(file_bytes(header, records, parts)),
{
    let n = records.len() as int;
    let file = file_bytes(header, records, parts);
    lemma_header_fields(header);
    lemma_directory_len(records, parts, n);
    let e = header.encoding();
    assert forall|k: int| 0 <= k < 12 implies file[k] == e[k] by {}
}

/// A font that is read back from a file that was laid out afresh finds under each tag the
/// bytes that were written for the first entry with that tag.
pub proof fn lemma_laid_out_round_trip(
    header: SfntHeader,
    records: Seq<TableRecord>,
    parts: Seq<Option<Seq<u8>>>,
    read: Font,
    tag: Seq<u8>,
)
    requires
        records.len() == parts.len(),
        layout_fits(records, parts),
        header.num_tables == records.len(),
        read.decodes(file_bytes(header, records, parts)),
    ensures
        read.record_index(tag) == first_with_tag(records, tag, 0),
        first_with_tag(records, tag, 0) is Some && parts[first_with_tag(records, tag, 0)->Some_0]
            is Some ==> read.table_bytes(tag) == parts[first_with_tag(records, tag, 0)->Some_0],
{
    let n = records.len() as int;
    let file = file_bytes(header, records, parts);
    lemma_header_fields(header);
    let e = header.encoding();
    assert forall|k: int| 0 <= k < 12 implies file[k] == e[k] by {}
    assert(read.table_records@.len() == n);
    assert forall|i: int| 0 <= i < n implies (#[trigger] read.table_records@[i]).table_tag@
        == records[i].table_tag@ by {
        lemma_entry_read_back(header, records, parts, i, read.table_records@[i]);
    }
    lemma_first_with_tag_by_tags(read.table_records@, records, tag, 0);
    lemma_first_with_tag(records, tag, 0);
    if first_with_tag(records, tag, 0) is Some && parts[first_with_tag(records, tag, 0)->Some_0]
        is Some {
        let i = first_with_tag(records, tag, 0)->Some_0;
        lemma_entry_read_back(header, records, parts, i, read.table_records@[i]);
        lemma_laid_out_span(header, records, parts, i);
    }
}

/// The file that [`Font::to_bytes`] writes is consistent with itself: read back, it is a
/// font that finds under each tag the bytes that this font finds there.
pub proof fn lemma_rebuilt_round_trip(font: Font, read: Font, tag: Seq<u8>)
    requires
        layout_fits(font.table_records@, font.spans()),
        font.num_tables == font.table_records@.len(),
        read.decodes(font.rebuilt()),
        font.table_bytes(tag) is Some,
    ensures
        read.table_bytes(tag) == font.table_bytes(tag),
{
    lemma_first_with_tag(font.table_records@, tag, 0);
    lemma_laid_out_round_trip(font.header(), font.table_records@, font.spans(), read, tag);
}

} // verus!
