//! What holds of a font after changes were committed: read back, a table that was staged
//! is the table that the change made.

use crate::access::Access;
use crate::font::Font;
use crate::modifier::{revised, FontModifier};
use crate::rebuild::{new_table, stays};
use crate::tables::codec_laws::{
    lemma_head_round_trip, lemma_hhea_round_trip, lemma_hmtx_round_trip, lemma_name_fields,
    lemma_name_round_trip, lemma_os2_round_trip, lemma_placed_len, lemma_string_place,
};
use crate::tables::head::HeadTable;
use crate::tables::hhea::HheaTable;
use crate::tables::hmtx::HmtxTable;
use crate::tables::name::{
    placed, placed_bytes, storage_upto, string_for, utf16_be, NameKey, NameTable,
};
use crate::tables::os2::Os2Table;
use crate::tables::{TAG_HEAD, TAG_HHEA, TAG_HMTX, TAG_MAXP, TAG_NAME, TAG_OS2};
use crate::wire::{be_u16, u16_bytes};
use vstd::prelude::*;

verus! {

/// A table that was staged is, after the commit, what the new font has under its tag,
/// where the old font had a table with that tag at all.
pub proof fn lemma_committed_table(m: FontModifier, f: Font, tag: Seq<u8>, data: Seq<u8>)
    requires
        m.source().rebuilt_as(f, m.staged(), Seq::empty()),
        m.pending(tag) == Some(data),
        m.source().record_index(tag) is Some,
    ensures
        f.table_bytes(tag) == Some(data),
        f.access(tag) == (Access::Present { bytes: data }),
{
    assert(stays(Seq::<[u8; 4]>::empty(), tag));
    assert(new_table(m.source(), m.staged(), tag) == Some(data));
}

/// A table that no change touched is, after the commit, what it was, where it lay inside
/// the old file.
pub proof fn lemma_committed_rest(m: FontModifier, f: Font, tag: Seq<u8>)
    requires
        m.source().rebuilt_as(f, m.staged(), Seq::empty()),
        m.pending(tag) is None,
        m.source().table_bytes(tag) is Some,
    ensures
        f.table_bytes(tag) == m.source().table_bytes(tag),
{
    assert(stays(Seq::<[u8; 4]>::empty(), tag));
    assert(new_table(m.source(), m.staged(), tag) == m.source().table_bytes(tag));
}

/// The `head` table that the new font reads is the one that was staged.
pub proof fn lemma_committed_head(m: FontModifier, f: Font, table: HeadTable, got: HeadTable)
    requires
        m.source().rebuilt_as(f, m.staged(), Seq::empty()),
        m.pending(TAG_HEAD@) == Some(table.encoding()),
        m.source().record_index(TAG_HEAD@) is Some,
        f.reads_head(got),
    ensures
        got == table,
{
    lemma_committed_table(m, f, TAG_HEAD@, table.encoding());
    lemma_head_round_trip(table, got);
}

/// The `hhea` table that the new font reads is the one that was staged.
pub proof fn lemma_committed_hhea(m: FontModifier, f: Font, table: HheaTable, got: HheaTable)
    requires
        m.source().rebuilt_as(f, m.staged(), Seq::empty()),
        m.pending(TAG_HHEA@) == Some(table.encoding()),
        m.source().record_index(TAG_HHEA@) is Some,
        f.reads_hhea(got),
    ensures
        got == table,
{
    lemma_committed_table(m, f, TAG_HHEA@, table.encoding());
    lemma_hhea_round_trip(table, got);
}

/// After the font revision was set and the change committed, the new font reads the
/// `head` table of the old font with the new revision and nothing else changed.
pub proof fn lemma_revision_read_back(
    before: FontModifier,
    after: FontModifier,
    read: HeadTable,
    major: u16,
    minor: u16,
    f: Font,
    got: HeadTable,
)
    requires
        after.heads(before, read, revised(read, major, minor)),
        after.source().rebuilt_as(f, after.staged(), Seq::empty()),
        f.reads_head(got),
    ensures
        got == revised(read, major, minor),
{
    lemma_committed_head(after, f, revised(read, major, minor), got);
}

/// After the metrics were set and the change committed, the new font reads the `head` and
/// `hhea` tables of the old font with the units per em and the three line metrics that
/// were set, and nothing else changed.
pub proof fn lemma_metrics_read_back(
    before: FontModifier,
    after: FontModifier,
    head: HeadTable,
    hhea: HheaTable,
    units_per_em: u16,
    ascender: i16,
    descender: i16,
    line_gap: i16,
    f: Font,
    got_head: HeadTable,
    got_hhea: HheaTable,
)
    requires
        after.measures(before, head, hhea, units_per_em, ascender, descender, line_gap),
        after.source().rebuilt_as(f, after.staged(), Seq::empty()),
        f.reads_head(got_head),
        f.reads_hhea(got_hhea),
    ensures
        got_head == (HeadTable { units_per_em, ..head }),
        got_hhea == (HheaTable { ascent: ascender, descent: descender, line_gap, ..hhea }),
{
    lemma_committed_head(after, f, (HeadTable { units_per_em, ..head }), got_head);
    lemma_committed_hhea(
        after,
        f,
        (HheaTable { ascent: ascender, descent: descender, line_gap, ..hhea }),
        got_hhea,
    );
}

/// After the embedding permissions were set and the change committed, the new font reads
/// an `OS/2` table with these permissions.
pub proof fn lemma_embedding_read_back(
    before: FontModifier,
    after: FontModifier,
    read: Os2Table,
    embedding_type: u16,
    f: Font,
    got: Os2Table,
)
    requires
        before.source().reads_os2(read),
        after.stages(
            before,
            TAG_OS2@,
            (Os2Table { fs_type: embedding_type, ..read }).encoding(),
        ),
        after.source().rebuilt_as(f, after.staged(), Seq::empty()),
        f.reads_os2(got),
    ensures
        got.fs_type == embedding_type,
        got.version == read.version,
        got.us_weight_class == read.us_weight_class,
{
    let table = Os2Table { fs_type: embedding_type, ..read };
    lemma_committed_table(after, f, TAG_OS2@, table.encoding());
    lemma_os2_round_trip(table, got);
}

/// After the advance width of a glyph was set and the change committed, the new font reads
/// an `hmtx` table with that advance width for the glyph, and with every other entry and
/// every bearing as it was; this where no change to `hhea` or `maxp` is staged.
pub proof fn lemma_advance_read_back(
    before: FontModifier,
    after: FontModifier,
    read: HmtxTable,
    table: HmtxTable,
    glyph: int,
    advance: u16,
    f: Font,
    got: HmtxTable,
)
    requires
        after.advances(before, read, table, glyph, advance),
        after.pending(TAG_HHEA@) is None,
        after.pending(TAG_MAXP@) is None,
        after.source().rebuilt_as(f, after.staged(), Seq::empty()),
        f.reads_hmtx(got),
    ensures
        got.h_metrics@ == table.h_metrics@,
        got.left_side_bearings@ == read.left_side_bearings@,
        got.h_metrics@[glyph].advance_width == advance,
        got.h_metrics@[glyph].lsb == read.h_metrics@[glyph].lsb,
        forall|i: int|
            0 <= i < read.h_metrics@.len() && i != glyph ==> got.h_metrics@[i] == read.h_metrics@[i],
{
    let src = after.source();
    lemma_committed_table(after, f, TAG_HMTX@, table.encoding());
    lemma_committed_rest(after, f, TAG_HHEA@);
    lemma_committed_rest(after, f, TAG_MAXP@);
    assert(f.access(TAG_HHEA@) == src.access(TAG_HHEA@));
    assert(f.access(TAG_MAXP@) == src.access(TAG_MAXP@));
    lemma_hmtx_round_trip(
        table,
        got,
        be_u16(src.access(TAG_MAXP@)->bytes, 4),
        be_u16(src.access(TAG_HHEA@)->bytes, 36),
    );
}

/// After a name was set and the change committed, the new font reads a name table whose
/// last record is filed under the key of the name and has the length of the name, encoded
/// as UTF-16 big-endian; and the bytes of the table at the record's offset are that
/// encoding.
pub proof fn lemma_name_read_back(
    before: FontModifier,
    after: FontModifier,
    read: NameTable,
    table: NameTable,
    text: Seq<char>,
    key: NameKey,
    f: Font,
    got: NameTable,
)
    requires
        after.names(before, read, table, text, key),
        after.source().rebuilt_as(f, after.staged(), Seq::empty()),
        f.reads_name(got),
    ensures
        got.format == read.format,
        got.name_records@.len() == table.name_records@.len(),
        got.name_records@.len() > 0,
        got.name_records@.last().key() == key,
        got.name_records@.last().length == utf16_be(text, text.len() as int).len(),
        f.access(TAG_NAME@)->bytes.subrange(
            got.name_records@.last().offset as int,
            got.name_records@.last().offset + got.name_records@.last().length,
        ) == utf16_be(text, text.len() as int),
{
    let records = table.name_records@;
    let strings = table.string_data@;
    let n = records.len() as int;
    let data = utf16_be(text, text.len() as int);
    lemma_committed_table(after, f, TAG_NAME@, table.encoding());
    lemma_name_round_trip(table, got);
    lemma_name_fields(table);
    assert(records[n - 1].key() == key);
    assert(string_for(strings, records[n - 1].key(), 0) == Some(data));
    lemma_string_place(records, strings, n, n - 1, data);
    let last = placed(records, strings, n - 1);
    assert(got.name_records@.last() == last);
    let store = storage_upto(records, strings, n);
    let at = storage_upto(records, strings, n - 1).len() as int;
    let e = table.encoding();
    lemma_placed_len(records, strings, n);
    assert(e == u16_bytes(table.format as int) + u16_bytes(n) + u16_bytes(6 + 12 * n)
        + placed_bytes(records, strings, n) + store);
    assert(e.subrange(6 + 12 * n + at, 6 + 12 * n + at + data.len()) =~= store.subrange(
        at,
        at + data.len(),
    ));
}

} // verus!
