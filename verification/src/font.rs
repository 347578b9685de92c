//! The SFNT container: the table directory, table lookup and the rebuilt file.

use crate::error::{truncated, TtfError};
use crate::layout::{
    file_bytes, laid_out_all, lay_out, layout_fits, lemma_laid_out_span, parts_view, SfntHeader,
};
use crate::stream::{copy_range, FontReader};
use crate::tables::{lossy_text, same_tag, TableRecord};
use crate::wire::{be_u16, be_u32};
use vstd::prelude::*;

verus! {

/// A parsed font: the header fields, the table directory and the whole file's bytes.
/// Tables are decoded from the bytes on each access.
#[derive(Debug, Clone)]
pub struct Font {
    /// 0x00010000 for TrueType outlines, 'OTTO' for CFF outlines.
    pub sfnt_version: u32,
    /// The number of tables the header declares.
    pub num_tables: u16,
    /// Binary-search hint of the header, kept as read.
    pub search_range: u16,
    /// Binary-search hint of the header, kept as read.
    pub entry_selector: u16,
    /// Binary-search hint of the header, kept as read.
    pub range_shift: u16,
    /// The table directory, in file order.
    pub table_records: Vec<TableRecord>,
    /// The bytes of the whole file.
    pub data: Vec<u8>,
}

/// The version tag of a font with TrueType outlines.
pub const SFNT_TRUETYPE: u32 = 0x00010000;

/// The version tag of a font with CFF outlines: the bytes 'OTTO'.
pub const SFNT_OPENTYPE: u32 = 0x4F54544F;

/// The index of the first record at or after `from` whose tag is `tag`.
pub open spec fn first_with_tag(records: Seq<TableRecord>, tag: Seq<u8>, from: int) -> Option<int>
    decreases records.len() - from,
{
    if from < 0 || from >= records.len() {
        None
    } else if records[from].table_tag@ == tag {
        Some(from)
    } else {
        first_with_tag(records, tag, from + 1)
    }
}

/// What [`first_with_tag`] finds: the least index from `from` on with that tag, or none.
pub proof fn lemma_first_with_tag(records: Seq<TableRecord>, tag: Seq<u8>, from: int)
    requires
        0 <= from,
    ensures
        match first_with_tag(records, tag, from) {
            Some(i) => from <= i < records.len() && records[i].table_tag@ == tag && forall|j: int|
                from <= j < i ==> records[j].table_tag@ != tag,
            None => forall|j: int| from <= j < records.len() ==> records[j].table_tag@ != tag,
        },
    decreases records.len() - from,
{
    if from < records.len() && records[from].table_tag@ != tag {
        lemma_first_with_tag(records, tag, from + 1);
    }
}

/// Which record a tag finds depends on the tags alone.
pub proof fn lemma_first_with_tag_by_tags(
    a: Seq<TableRecord>,
    b: Seq<TableRecord>,
    tag: Seq<u8>,
    from: int,
)
    requires
        a.len() == b.len(),
        forall|i: int| 0 <= i < a.len() ==> a[i].table_tag@ == b[i].table_tag@,
    ensures
        first_with_tag(a, tag, from) == first_with_tag(b, tag, from),
    decreases a.len() - from,
{
    if 0 <= from < a.len() && a[from].table_tag@ != tag {
        lemma_first_with_tag_by_tags(a, b, tag, from + 1);
    }
}

/// The largest `e` with `2^e <= n`, and zero for `n < 2`.
pub open spec fn log2_floor(n: nat) -> nat
    decreases n,
{
    if n < 2 {
        0
    } else {
        1 + log2_floor(n / 2)
    }
}

/// Two to the power `e`.
pub open spec fn pow2(e: nat) -> nat
    decreases e,
{
    if e == 0 {
        1
    } else {
        2 * pow2((e - 1) as nat)
    }
}

/// A number between `2^e` and `2^(e+1)` has `e` as the floor of its binary logarithm.
pub proof fn lemma_log2_floor(n: nat, e: nat)
    requires
        pow2(e) <= n < 2 * pow2(e),
    ensures
        log2_floor(n) == e,
    decreases e,
{
    if e > 0 {
        lemma_log2_floor(n / 2, (e - 1) as nat);
    }
}

impl Font {
    /// The bytes start with a header this library accepts and hold the whole directory.
    pub open spec fn parses(s: Seq<u8>) -> bool {
        &&& s.len() >= 12
        &&& (be_u32(s, 0) == SFNT_TRUETYPE || be_u32(s, 0) == SFNT_OPENTYPE)
        &&& s.len() >= 12 + 16 * be_u16(s, 4)
    }

    /// The font is what the header and directory at the start of `s` say, over the bytes `s`.
    pub open spec fn decodes(self, s: Seq<u8>) -> bool {
        &&& self.sfnt_version == be_u32(s, 0)
        &&& self.num_tables == be_u16(s, 4)
        &&& self.search_range == be_u16(s, 6)
        &&& self.entry_selector == be_u16(s, 8)
        &&& self.range_shift == be_u16(s, 10)
        &&& self.table_records@.len() == self.num_tables
        &&& forall|i: int|
            0 <= i < self.table_records@.len() ==> (#[trigger] self.table_records@[i]).decodes(
                s,
                12 + 16 * i,
            )
        &&& self.data@ == s
    }

    /// The index of the first directory entry with this tag.
    pub open spec fn record_index(self, tag: Seq<u8>) -> Option<int> {
        first_with_tag(self.table_records@, tag, 0)
    }

    /// The bytes of the first table with this tag, if there is one and it lies inside the file.
    pub open spec fn table_bytes(self, tag: Seq<u8>) -> Option<Seq<u8>> {
        match self.record_index(tag) {
            Some(i) => self.table_records@[i].bytes_in(self.data@),
            None => None,
        }
    }

    /// Parses the header and the table directory. Table bodies are not looked at.
    ///
    /// Fails with an end-of-data error where the header or the directory is cut short, and
    /// with `InvalidSignature` where the version is neither 0x00010000 nor 'OTTO'.
    #[verifier::loop_isolation(false)]
    pub fn from_data(data: Vec<u8>) -> (r: Result<Font, TtfError>)
        ensures
            r is Ok <==> Self::parses(data@),
            r matches Ok(font) ==> font.decodes(data@),
            r matches Err(e) ==> if data@.len() < 4 {
                e.is_truncated()
            } else if be_u32(data@, 0) != SFNT_TRUETYPE && be_u32(data@, 0) != SFNT_OPENTYPE {
                e matches TtfError::InvalidSignature { expected, actual } && expected
                    == SFNT_TRUETYPE && actual == be_u32(data@, 0)
            } else {
                e.is_truncated()
            },
    {
        let ghost s = data@;
        let mut reader = FontReader::new(data);
        let sfnt_version = match reader.read_u32() {
            Ok(v) => v,
            Err(e) => { return Err(TtfError::Io(e)); },
        };
        if sfnt_version != SFNT_TRUETYPE && sfnt_version != SFNT_OPENTYPE {
            return Err(TtfError::InvalidSignature { expected: SFNT_TRUETYPE, actual: sfnt_version });
        }
        if reader.remaining() < 8 {
            return Err(truncated());
        }
        let num_tables = match reader.read_u16() {
            Ok(v) => v,
            Err(e) => { return Err(TtfError::Io(e)); },
        };
        let search_range = match reader.read_u16() {
            Ok(v) => v,
            Err(e) => { return Err(TtfError::Io(e)); },
        };
        let entry_selector = match reader.read_u16() {
            Ok(v) => v,
            Err(e) => { return Err(TtfError::Io(e)); },
        };
        let range_shift = match reader.read_u16() {
            Ok(v) => v,
            Err(e) => { return Err(TtfError::Io(e)); },
        };
        let mut table_records: Vec<TableRecord> = Vec::new();
        let mut i: u16 = 0;
        while i < num_tables
            invariant
                i <= num_tables,
                reader@.data == s,
                reader@.pos == 12 + 16 * i,
                reader@.pos <= s.len(),
                table_records@.len() == i,
                forall|k: int|
                    0 <= k < i ==> (#[trigger] table_records@[k]).decodes(s, 12 + 16 * k),
            decreases num_tables - i,
        {
            let record = TableRecord::from_reader(&mut reader)?;
            table_records.push(record);
            i = i + 1;
        }
        let data = reader.into_inner();
        Ok(
            Font {
                sfnt_version,
                num_tables,
                search_range,
                entry_selector,
                range_shift,
                table_records,
                data,
            },
        )
    }

    /// The index of the first directory entry with this tag.
    pub fn find_table(&self, tag: &[u8; 4]) -> (r: Option<usize>)
        ensures
            match r {
                Some(i) => self.record_index(tag@) == Some(i as int) && i < self.table_records@.len(),
                None => self.record_index(tag@) is None,
            },
    {
        let mut i: usize = 0;
        while i < self.table_records.len()
            invariant
                i <= self.table_records.len(),
                first_with_tag(self.table_records@, tag@, 0) == first_with_tag(
                    self.table_records@,
                    tag@,
                    i as int,
                ),
            decreases self.table_records.len() - i,
        {
            if same_tag(&self.table_records[i].table_tag, tag) {
                return Some(i);
            }
            i = i + 1;
        }
        None
    }

    /// The first directory entry with this tag.
    pub fn get_table_record(&self, tag: &[u8; 4]) -> (r: Option<&TableRecord>)
        ensures
            match self.record_index(tag@) {
                Some(i) => r == Some(&self.table_records@[i]),
                None => r is None,
            },
    {
        match self.find_table(tag) {
            Some(i) => Some(&self.table_records[i]),
            None => None,
        }
    }

    /// A copy of the bytes of the first table with this tag. A table that reaches past the end
    /// of the file counts as absent.
    pub fn get_table_data(&self, tag: &[u8; 4]) -> (r: Option<Vec<u8>>)
        ensures
            match self.table_bytes(tag@) {
                Some(bytes) => r is Some && r->Some_0@ == bytes,
                None => r is None,
            },
    {
        let record = match self.get_table_record(tag) {
            Some(record) => record,
            None => { return None; },
        };
        let end: u64 = record.offset as u64 + record.length as u64;
        if end > self.data.len() as u64 {
            return None;
        }
        Some(copy_range(&self.data, record.offset as usize, end as usize))
    }

    /// The header fields as one value.
    pub open spec fn header(self) -> SfntHeader {
        SfntHeader {
            sfnt_version: self.sfnt_version,
            num_tables: self.num_tables,
            search_range: self.search_range,
            entry_selector: self.entry_selector,
            range_shift: self.range_shift,
        }
    }

    /// For each directory entry, the bytes it points at, if they lie inside the file.
    pub open spec fn spans(self) -> Seq<Option<Seq<u8>>> {
        Seq::new(
            self.table_records@.len(),
            |i: int| self.table_records@[i].bytes_in(self.data@),
        )
    }

    /// The two fonts have the same header, the same directory and the same bytes.
    pub open spec fn same_as(self, other: Font) -> bool {
        &&& self.header() == other.header()
        &&& self.table_records@ == other.table_records@
        &&& self.data@ == other.data@
    }

    /// The file that [`Font::to_bytes`] writes: the header as it stands, a directory with
    /// fresh offsets and checksums, and every table that lies inside the old file, each
    /// padded to four bytes.
    pub open spec fn rebuilt(self) -> Seq<u8> {
        file_bytes(self.header(), self.table_records@, self.spans())
    }

    fn header_value(&self) -> (h: SfntHeader)
        ensures
            h == self.header(),
    {
        SfntHeader {
            sfnt_version: self.sfnt_version,
            num_tables: self.num_tables,
            search_range: self.search_range,
            entry_selector: self.entry_selector,
            range_shift: self.range_shift,
        }
    }

    /// Copies of the bytes each directory entry points at.
    pub(crate) fn collect_spans(&self) -> (parts: Vec<Option<Vec<u8>>>)
        ensures
            parts@.len() == self.table_records@.len(),
            parts_view(parts@) == self.spans(),
    {
        let mut parts: Vec<Option<Vec<u8>>> = Vec::new();
        let mut i: usize = 0;
        while i < self.table_records.len()
            invariant
                i <= self.table_records.len(),
                parts@.len() == i,
                forall|j: int|
                    0 <= j < i ==> (#[trigger] parts_view(parts@)[j]) == self.table_records@[j].bytes_in(
                        self.data@,
                    ),
            decreases self.table_records.len() - i,
        {
            let record = self.table_records[i];
            let end: u64 = record.offset as u64 + record.length as u64;
            let ghost before = parts@;
            if end > self.data.len() as u64 {
                parts.push(None);
            } else {
                parts.push(Some(copy_range(&self.data, record.offset as usize, end as usize)));
            }
            assert forall|j: int| 0 <= j < i + 1 implies (#[trigger] parts_view(parts@)[j])
                == self.table_records@[j].bytes_in(self.data@) by {
                if j < i {
                    assert(parts@[j] == before[j]);
                    assert(parts_view(before)[j] == self.table_records@[j].bytes_in(self.data@));
                }
            }
            i = i + 1;
        }
        assert(parts_view(parts@) =~= self.spans());
        parts
    }

    /// A copy of the font.
    pub fn duplicate(&self) -> (f: Font)
        ensures
            f.same_as(*self),
    {
        let mut table_records: Vec<TableRecord> = Vec::with_capacity(self.table_records.len());
        let mut i: usize = 0;
        while i < self.table_records.len()
            invariant
                i <= self.table_records.len(),
                table_records@ == self.table_records@.subrange(0, i as int),
            decreases self.table_records.len() - i,
        {
            table_records.push(self.table_records[i]);
            i = i + 1;
            assert(table_records@ =~= self.table_records@.subrange(0, i as int));
        }
        assert(table_records@ =~= self.table_records@);
        let data = copy_range(&self.data, 0, self.data.len());
        assert(data@ =~= self.data@);
        Font {
            sfnt_version: self.sfnt_version,
            num_tables: self.num_tables,
            search_range: self.search_range,
            entry_selector: self.entry_selector,
            range_shift: self.range_shift,
            table_records,
            data,
        }
    }

    /// The tags of the directory, as text, in file order.
    pub fn list_tables(&self) -> (names: Vec<String>)
        ensures
            names@.len() == self.table_records@.len(),
            forall|i: int|
                0 <= i < names@.len() ==> (#[trigger] names@[i])@ == lossy_text(
                    self.table_records@[i].table_tag@,
                ),
    {
        let mut names: Vec<String> = Vec::new();
        let mut i: usize = 0;
        while i < self.table_records.len()
            invariant
                i <= self.table_records.len(),
                names@.len() == i,
                forall|j: int|
                    0 <= j < i ==> (#[trigger] names@[j])@ == lossy_text(
                        self.table_records@[j].table_tag@,
                    ),
            decreases self.table_records.len() - i,
        {
            names.push(self.table_records[i].tag_to_string());
            i = i + 1;
        }
        names
    }

    /// Writes the font out afresh: the header fields as they stand, then a directory, then
    /// every table's bytes back to back, each padded to a multiple of four. Each directory
    /// entry gets the offset at which its table was written and the checksum of its bytes; an
    /// entry whose table lies outside the old file keeps its length and gets zero for both.
    ///
    /// Fails with `InvalidSize` where the new file would outgrow 32-bit offsets.
    pub fn to_bytes(&self) -> (r: Result<Vec<u8>, TtfError>)
        ensures
            layout_fits(self.table_records@, self.spans()) ==> r is Ok && r->Ok_0@
                == self.rebuilt(),
            !layout_fits(self.table_records@, self.spans()) ==> r is Err && r->Err_0 is InvalidSize,
    {
        let parts = self.collect_spans();
        match lay_out(self.header_value(), &self.table_records, &parts) {
            Ok((_, bytes)) => Ok(bytes),
            Err(e) => Err(e),
        }
    }

    /// The binary-search hints for a directory of `num_tables` entries: the search range
    /// (sixteen times the largest power of two not above the count), the entry selector
    /// (that power's exponent) and the range shift (sixteen times what is left over).
    pub fn calculate_search_range(num_tables: u16) -> (r: (u16, u16, u16))
        requires
            num_tables < 4096,
        ensures
            r.1 == log2_floor(num_tables as nat),
            r.0 == 16 * pow2(r.1 as nat),
            r.2 == if num_tables == 0 {
                0
            } else {
                16 * (num_tables - pow2(r.1 as nat))
            },
    {
        let mut max_power: u16 = 1;
        let mut entry_selector: u16 = 0;
        while max_power * 2 <= num_tables
            invariant
                num_tables < 4096,
                max_power == pow2(entry_selector as nat),
                max_power <= num_tables || max_power == 1,
                entry_selector < max_power,
            decreases num_tables - max_power,
        {
            max_power = max_power * 2;
            entry_selector = entry_selector + 1;
        }
        proof {
            if num_tables > 0 {
                lemma_log2_floor(num_tables as nat, entry_selector as nat);
            }
        }
        let search_range = max_power * 16;
        let range_shift = if num_tables > max_power {
            (num_tables - max_power) * 16
        } else {
            0
        };
        (search_range, entry_selector, range_shift)
    }

    /// A font in which the first table filed under `tag` holds `data`, laid out afresh: all
    /// tables are written back to back behind a new directory with fresh offsets, lengths
    /// and checksums, so that a table may grow or shrink. Every other table that lay inside
    /// the old file keeps its bytes. A font without such a table is returned as it is.
    ///
    /// Fails with `InvalidSize` where the new file would outgrow 32-bit offsets.
    pub fn with_table_data(&self, tag: &[u8; 4], data: Vec<u8>) -> (r: Result<Font, TtfError>)
        ensures
            match self.record_index(tag@) {
                None => r is Ok && r->Ok_0.same_as(*self),
                Some(idx) => {
                    let parts = self.spans().update(idx, Some(data@));
                    if layout_fits(self.table_records@, parts) {
                        &&& r is Ok
                        &&& r->Ok_0.header() == self.header()
                        &&& r->Ok_0.table_records@ == laid_out_all(self.table_records@, parts)
                        &&& r->Ok_0.data@ == file_bytes(self.header(), self.table_records@, parts)
                        &&& r->Ok_0.table_bytes(tag@) == Some(data@)
                        &&& forall|other: Seq<u8>|
                            other != tag@ && (#[trigger] self.table_bytes(other)) is Some
                                ==> r->Ok_0.table_bytes(other) == self.table_bytes(other)
                    } else {
                        r is Err && r->Err_0 is InvalidSize
                    }
                },
            },
    {
        let idx = match self.find_table(tag) {
            Some(idx) => idx,
            None => { return Ok(self.duplicate()); },
        };
        let mut parts = self.collect_spans();
        let ghost new_bytes = data@;
        parts.set(idx, Some(data));
        let ghost pv = self.spans().update(idx as int, Some(new_bytes));
        assert(parts_view(parts@) =~= pv);
        let header = self.header_value();
        let (table_records, file) = lay_out(header, &self.table_records, &parts)?;
        let font = Font {
            sfnt_version: self.sfnt_version,
            num_tables: self.num_tables,
            search_range: self.search_range,
            entry_selector: self.entry_selector,
            range_shift: self.range_shift,
            table_records,
            data: file,
        };
        proof {
            let old_records = self.table_records@;
            assert forall|t: Seq<u8>|
                font.record_index(t) == self.record_index(t) by {
                lemma_first_with_tag_by_tags(font.table_records@, old_records, t, 0);
            }
            lemma_laid_out_span(header, old_records, pv, idx as int);
            lemma_first_with_tag(old_records, tag@, 0);
            assert forall|other: Seq<u8>|
                other != tag@ && (#[trigger] self.table_bytes(other)) is Some implies font.table_bytes(
                other,
            ) == self.table_bytes(other) by {
                lemma_first_with_tag(old_records, other, 0);
                let j = self.record_index(other)->Some_0;
                assert(pv[j] == self.spans()[j]);
                lemma_laid_out_span(header, old_records, pv, j);
            }
        }
        Ok(font)
    }
}

} // verus!
