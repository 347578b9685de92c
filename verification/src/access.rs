//! Decoding a font's tables on demand, and the facts that are read off them.

use crate::error::{missing_table, parse_error, TtfError};
use crate::font::Font;
use crate::stream::{copy_range, FontReader};
use crate::tables::cmap::CmapTable;
use crate::tables::glyf::GlyfTable;
use crate::tables::glyf_table::glyph_fits;
use crate::tables::head::{bad_magic, HeadTable, HEAD_MAGIC_NUMBER};
use crate::tables::hhea::HheaTable;
use crate::tables::hmtx::HmtxTable;
use crate::tables::loca::LocaTable;
use crate::tables::maxp::MaxpTable;
use crate::tables::name::{first_named, NameRecord, NameTable};
use crate::tables::os2::Os2Table;
use crate::tables::post::PostTable;
use crate::tables::{
    TtfTable, TAG_CMAP, TAG_GLYF, TAG_HEAD, TAG_HHEA, TAG_HMTX, TAG_LOCA, TAG_MAXP, TAG_NAME,
    TAG_OS2, TAG_POST,
};
use crate::wire::{be_i16, be_i32, be_u16, be_u32};
use vstd::prelude::*;

verus! {

/// What a font has to offer under a tag.
pub enum Access {
    /// No directory entry has the tag.
    Missing,
    /// The first entry with the tag points outside the file.
    OutOfBounds { offset: u32 },
    /// The bytes of the first table with the tag.
    Present { bytes: Seq<u8> },
}

/// The error says what stands in the way of the table called `name`: that it is missing, or
/// that its entry points outside the file.
pub open spec fn access_error(e: TtfError, a: Access, name: Seq<char>) -> bool {
    match a {
        Access::Missing => e.is_missing(name),
        Access::OutOfBounds { offset } => e matches TtfError::InvalidOffset(o) && o == offset,
        Access::Present { bytes } => false,
    }
}

impl HeadTable {
    /// The bytes hold a whole `head` table with the right magic number.
    pub open spec fn parses(bytes: Seq<u8>) -> bool {
        bytes.len() >= 54 && be_u32(bytes, 12) == HEAD_MAGIC_NUMBER
    }
}

impl MaxpTable {
    /// The bytes hold a whole `maxp` table.
    pub open spec fn parses(bytes: Seq<u8>) -> bool {
        bytes.len() >= 6 && bytes.len() >= Self::size(be_i32(bytes, 0))
    }
}

impl Os2Table {
    /// The bytes hold a whole `OS/2` table.
    pub open spec fn parses(bytes: Seq<u8>) -> bool {
        bytes.len() >= 86 && bytes.len() >= Self::fixed_size(be_u16(bytes, 0))
    }
}

impl NameTable {
    /// The bytes hold the header and all the records of a `name` table.
    pub open spec fn parses(bytes: Seq<u8>) -> bool {
        bytes.len() >= 6 && bytes.len() >= 6 + 12 * be_u16(bytes, 2)
    }
}

/// What `format!("{:?}", record)` of std makes of a name record with these six fields.
pub uninterp spec fn record_debug_text(
    platform_id: u16,
    encoding_id: u16,
    language_id: u16,
    name_id: u16,
    length: u16,
    offset: u16,
) -> Seq<char>;

/// `format!` of std with the `{:?}` pattern: the record's fields as the derived `Debug`
/// prints them.
#[verifier::external_body]
fn debug_text(record: &NameRecord) -> (text: String)
    ensures
        text@ == record_debug_text(
            record.platform_id,
            record.encoding_id,
            record.language_id,
            record.name_id,
            record.length,
            record.offset,
        ),
{
    format!("{:?}", record)
}

/// The text that stands for name record `i` of a table, and `Unknown` where there is none.
pub open spec fn record_text(records: Seq<NameRecord>, i: Option<int>) -> Seq<char> {
    match i {
        Some(i) => record_debug_text(
            records[i].platform_id,
            records[i].encoding_id,
            records[i].language_id,
            records[i].name_id,
            records[i].length,
            records[i].offset,
        ),
        None => "Unknown"@,
    }
}

impl Font {
    /// The font's `name` table decodes to `t`.
    pub open spec fn reads_name(self, t: NameTable) -> bool {
        self.access(TAG_NAME@) matches Access::Present { bytes } && NameTable::parses(bytes)
            && t.decodes(bytes, 0)
    }

    /// The font's `head` table decodes to `t`.
    pub open spec fn reads_head(self, t: HeadTable) -> bool {
        self.access(TAG_HEAD@) matches Access::Present { bytes } && HeadTable::parses(bytes)
            && t.decodes(bytes, 0)
    }

    /// The font's `hhea` table decodes to `t`.
    pub open spec fn reads_hhea(self, t: HheaTable) -> bool {
        self.access(TAG_HHEA@) matches Access::Present { bytes } && bytes.len() >= 38 && t.decodes(
            bytes,
            0,
        )
    }

    /// The font's `OS/2` table decodes to `t`.
    pub open spec fn reads_os2(self, t: Os2Table) -> bool {
        self.access(TAG_OS2@) matches Access::Present { bytes } && Os2Table::parses(bytes)
            && t.decodes(bytes, 0)
    }

    /// The font's `hmtx` table decodes to `t`, with the counts that `maxp` and `hhea` give.
    pub open spec fn reads_hmtx(self, t: HmtxTable) -> bool {
        &&& self.access(TAG_HMTX@) is Present
        &&& self.access(TAG_HHEA@) is Present
        &&& self.access(TAG_MAXP@) is Present
        &&& self.access(TAG_HHEA@)->bytes.len() >= 38
        &&& MaxpTable::parses(self.access(TAG_MAXP@)->bytes)
        &&& self.access(TAG_HMTX@)->bytes.len() >= HmtxTable::size(
            be_u16(self.access(TAG_MAXP@)->bytes, 4),
            be_u16(self.access(TAG_HHEA@)->bytes, 36),
        )
        &&& t.decodes(
            self.access(TAG_HMTX@)->bytes,
            0,
            be_u16(self.access(TAG_MAXP@)->bytes, 4),
            be_u16(self.access(TAG_HHEA@)->bytes, 36),
        )
    }

    /// The font's `loca` table decodes to `t`, with the glyph count of `maxp` and the offset
    /// format of `head`.
    pub open spec fn reads_loca(self, t: LocaTable) -> bool {
        &&& self.access(TAG_LOCA@) is Present
        &&& self.access(TAG_HEAD@) is Present
        &&& self.access(TAG_MAXP@) is Present
        &&& HeadTable::parses(self.access(TAG_HEAD@)->bytes)
        &&& MaxpTable::parses(self.access(TAG_MAXP@)->bytes)
        &&& self.access(TAG_LOCA@)->bytes.len() >= LocaTable::size(
            be_u16(self.access(TAG_MAXP@)->bytes, 4) + 1,
            be_i16(self.access(TAG_HEAD@)->bytes, 50) == 1,
        )
        &&& t.decodes(
            self.access(TAG_LOCA@)->bytes,
            0,
            be_u16(self.access(TAG_MAXP@)->bytes, 4) + 1,
            be_i16(self.access(TAG_HEAD@)->bytes, 50) == 1,
        )
    }

    /// The font's `cmap` table decodes to `t`.
    pub open spec fn reads_cmap(self, t: CmapTable) -> bool {
        self.access(TAG_CMAP@) matches Access::Present { bytes } && CmapTable::parses(bytes, 0)
            && t.decodes(bytes, 0)
    }

    /// The font's glyphs can all be had: the `glyf` table and what it takes to read the
    /// offsets are there, and every glyph fits, whatever table the offsets decode to.
    pub open spec fn has_glyphs(self) -> bool {
        &&& self.access(TAG_GLYF@) is Present
        &&& exists|loca: LocaTable| self.reads_loca(loca)
        &&& forall|loca: LocaTable, i: int|
            self.reads_loca(loca) && 0 <= i < be_u16(self.access(TAG_MAXP@)->bytes, 4)
                ==> #[trigger] glyph_fits(self.access(TAG_GLYF@)->bytes, 0, loca, i)
    }
}

impl Font {
    /// What the font has to offer under a tag.
    pub open spec fn access(self, tag: Seq<u8>) -> Access {
        match self.record_index(tag) {
            None => Access::Missing,
            Some(i) => match self.table_records@[i].bytes_in(self.data@) {
                Some(bytes) => Access::Present { bytes },
                None => Access::OutOfBounds { offset: self.table_records@[i].offset },
            },
        }
    }

    /// The glyphs `t` are what the font's `glyf` table holds, found with the offsets `loca`,
    /// which are what the font's `loca` table holds.
    pub open spec fn glyphs_by(self, t: GlyfTable, loca: LocaTable) -> bool {
        let bytes = self.access(TAG_GLYF@)->bytes;
        let loca_bytes = self.access(TAG_LOCA@)->bytes;
        let head = self.access(TAG_HEAD@)->bytes;
        let maxp = self.access(TAG_MAXP@)->bytes;
        &&& loca.decodes(loca_bytes, 0, be_u16(maxp, 4) + 1, be_i16(head, 50) == 1)
        &&& t.decodes(bytes, 0, loca, be_u16(maxp, 4) as int)
        &&& forall|i: int| 0 <= i < be_u16(maxp, 4) ==> glyph_fits(bytes, 0, loca, i)
    }

    /// A cursor at the start of a copy of the table filed under `tag`, and the table's length.
    fn open_table(&self, tag: &[u8; 4], name: &str) -> (r: Result<(FontReader, u32), TtfError>)
        ensures
            match self.access(tag@) {
                Access::Present { bytes } => r is Ok && r->Ok_0.0@.data == bytes && r->Ok_0.0@.pos
                    == 0 && r->Ok_0.1 == bytes.len(),
                other => r is Err && access_error(r->Err_0, other, name@),
            },
    {
        let record = match self.get_table_record(tag) {
            Some(record) => record,
            None => { return Err(missing_table(name)); },
        };
        let end: u64 = record.offset as u64 + record.length as u64;
        if end > self.data.len() as u64 {
            return Err(TtfError::InvalidOffset(record.offset as u64));
        }
        let bytes = copy_range(&self.data, record.offset as usize, end as usize);
        Ok((FontReader::new(bytes), record.length))
    }

    /// The `head` table, decoded from the font's bytes.
    ///
    /// Fails with `MissingTable` where the font has none, `InvalidOffset` where its entry
    /// points outside the file, an end-of-data error where it is shorter than 54 bytes, and
    /// `InvalidSignature` where its magic number is wrong.
    pub fn head_table(&self) -> (r: Result<HeadTable, TtfError>)
        ensures
            match self.access(TAG_HEAD@) {
                Access::Present { bytes } => {
                    &&& r is Ok <==> HeadTable::parses(bytes)
                    &&& r matches Ok(t) ==> t.decodes(bytes, 0)
                    &&& r matches Err(e) ==> if bytes.len() < 54 {
                        e.is_truncated()
                    } else {
                        bad_magic(e, be_u32(bytes, 12))
                    }
                },
                other => r is Err && access_error(r->Err_0, other, "head"@),
            },
    {
        let (mut reader, length) = self.open_table(&TAG_HEAD, "head")?;
        HeadTable::from_reader(&mut reader, length)
    }

    /// The `maxp` table, decoded from the font's bytes.
    ///
    /// Fails with `MissingTable` where the font has none, `InvalidOffset` where its entry
    /// points outside the file, and an end-of-data error where it is cut short.
    pub fn maxp_table(&self) -> (r: Result<MaxpTable, TtfError>)
        ensures
            match self.access(TAG_MAXP@) {
                Access::Present { bytes } => {
                    &&& r is Ok <==> MaxpTable::parses(bytes)
                    &&& r matches Ok(t) ==> t.decodes(bytes, 0)
                    &&& r matches Err(e) ==> e.is_truncated()
                },
                other => r is Err && access_error(r->Err_0, other, "maxp"@),
            },
    {
        let (mut reader, length) = self.open_table(&TAG_MAXP, "maxp")?;
        MaxpTable::from_reader(&mut reader, length)
    }

    /// The `hhea` table, decoded from the font's bytes.
    ///
    /// Fails with `MissingTable` where the font has none, `InvalidOffset` where its entry
    /// points outside the file, and an end-of-data error where it is shorter than 38 bytes.
    pub fn hhea_table(&self) -> (r: Result<HheaTable, TtfError>)
        ensures
            match self.access(TAG_HHEA@) {
                Access::Present { bytes } => {
                    &&& r is Ok <==> bytes.len() >= 38
                    &&& r matches Ok(t) ==> t.decodes(bytes, 0)
                    &&& r matches Err(e) ==> e.is_truncated()
                },
                other => r is Err && access_error(r->Err_0, other, "hhea"@),
            },
    {
        let (mut reader, length) = self.open_table(&TAG_HHEA, "hhea")?;
        HheaTable::from_reader(&mut reader, length)
    }

    /// The `post` table, decoded from the font's bytes.
    ///
    /// Fails with `MissingTable` where the font has none, `InvalidOffset` where its entry
    /// points outside the file, and an end-of-data error where it is shorter than 32 bytes.
    pub fn post_table(&self) -> (r: Result<PostTable, TtfError>)
        ensures
            match self.access(TAG_POST@) {
                Access::Present { bytes } => {
                    &&& r is Ok <==> bytes.len() >= 32
                    &&& r matches Ok(t) ==> t.decodes(bytes, 0)
                    &&& r matches Err(e) ==> e.is_truncated()
                },
                other => r is Err && access_error(r->Err_0, other, "post"@),
            },
    {
        let (mut reader, length) = self.open_table(&TAG_POST, "post")?;
        PostTable::from_reader(&mut reader, length)
    }

    /// The `OS/2` table, decoded from the font's bytes.
    ///
    /// Fails with `MissingTable` where the font has none, `InvalidOffset` where its entry
    /// points outside the file, and an end-of-data error where it is cut short.
    pub fn os2_table(&self) -> (r: Result<Os2Table, TtfError>)
        ensures
            match self.access(TAG_OS2@) {
                Access::Present { bytes } => {
                    &&& r is Ok <==> Os2Table::parses(bytes)
                    &&& r matches Ok(t) ==> t.decodes(bytes, 0)
                    &&& r matches Err(e) ==> e.is_truncated()
                },
                other => r is Err && access_error(r->Err_0, other, "OS/2"@),
            },
    {
        let (mut reader, length) = self.open_table(&TAG_OS2, "OS/2")?;
        Os2Table::from_reader(&mut reader, length)
    }

    /// The `name` table, decoded from the font's bytes.
    ///
    /// Fails with `MissingTable` where the font has none, `InvalidOffset` where its entry
    /// points outside the file, and an end-of-data error where its records are cut short.
    pub fn name_table(&self) -> (r: Result<NameTable, TtfError>)
        ensures
            match self.access(TAG_NAME@) {
                Access::Present { bytes } => {
                    &&& r is Ok <==> NameTable::parses(bytes)
                    &&& r matches Ok(t) ==> t.decodes(bytes, 0)
                    &&& r matches Err(e) ==> e.is_truncated()
                },
                other => r is Err && access_error(r->Err_0, other, "name"@),
            },
    {
        let (mut reader, length) = self.open_table(&TAG_NAME, "name")?;
        NameTable::from_reader(&mut reader, length)
    }

    /// The `cmap` table, decoded from the font's bytes.
    ///
    /// Fails with `MissingTable` where the font has none, `InvalidOffset` where its entry
    /// points outside the file, and as [`CmapTable::from_reader`] does where the table itself
    /// is at fault.
    pub fn cmap_table(&self) -> (r: Result<CmapTable, TtfError>)
        ensures
            match self.access(TAG_CMAP@) {
                Access::Present { bytes } => {
                    &&& r is Ok <==> CmapTable::parses(bytes, 0)
                    &&& r matches Ok(t) ==> t.decodes(bytes, 0)
                    &&& r matches Err(e) ==> e.is_truncated() || e is UnsupportedVersion
                },
                other => r is Err && access_error(r->Err_0, other, "cmap"@),
            },
    {
        let (mut reader, length) = self.open_table(&TAG_CMAP, "cmap")?;
        CmapTable::from_reader(&mut reader, length)
    }

    /// The `hmtx` table, decoded with the glyph count of `maxp` and the number of full
    /// entries of `hhea`.
    ///
    /// Fails where the font has no `hmtx` entry, then as [`Font::hhea_table`] and
    /// [`Font::maxp_table`] fail, then with `InvalidOffset` where the `hmtx` entry points
    /// outside the file, and with an end-of-data error where the table is cut short.
    pub fn hmtx_table(&self) -> (r: Result<HmtxTable, TtfError>)
        ensures
            self.access(TAG_HMTX@) is Missing ==> r is Err && r->Err_0.is_missing("hmtx"@),
            !(self.access(TAG_HMTX@) is Missing) && !(self.access(TAG_HHEA@) is Present) ==> r
                is Err && access_error(r->Err_0, self.access(TAG_HHEA@), "hhea"@),
            !(self.access(TAG_HMTX@) is Missing) && self.access(TAG_HHEA@) is Present
                && self.access(TAG_HHEA@)->bytes.len() >= 38 && !(self.access(TAG_MAXP@)
                is Present) ==> r is Err && access_error(
                r->Err_0,
                self.access(TAG_MAXP@),
                "maxp"@,
            ),
            self.access(TAG_HMTX@) is OutOfBounds && self.access(TAG_HHEA@) is Present
                && self.access(TAG_HHEA@)->bytes.len() >= 38 && self.access(TAG_MAXP@) is Present
                && MaxpTable::parses(self.access(TAG_MAXP@)->bytes) ==> r is Err && access_error(
                r->Err_0,
                self.access(TAG_HMTX@),
                "hmtx"@,
            ),
            r is Ok ==> self.access(TAG_HMTX@) is Present && self.access(TAG_HHEA@) is Present
                && self.access(TAG_MAXP@) is Present && self.access(TAG_HHEA@)->bytes.len() >= 38
                && MaxpTable::parses(self.access(TAG_MAXP@)->bytes),
            self.access(TAG_HMTX@) is Present && self.access(TAG_HHEA@) is Present && self.access(
                TAG_MAXP@,
            ) is Present && self.access(TAG_HHEA@)->bytes.len() >= 38 && MaxpTable::parses(
                self.access(TAG_MAXP@)->bytes,
            ) ==> {
                let bytes = self.access(TAG_HMTX@)->bytes;
                let hhea = self.access(TAG_HHEA@)->bytes;
                let maxp = self.access(TAG_MAXP@)->bytes;
                let num_glyphs = be_u16(maxp, 4);
                let num_h_metrics = be_u16(hhea, 36);
                &&& r is Ok <==> bytes.len() >= HmtxTable::size(num_glyphs, num_h_metrics)
                &&& r matches Ok(t) ==> t.decodes(bytes, 0, num_glyphs, num_h_metrics)
                &&& r matches Err(e) ==> e.is_truncated()
            },
    {
        if self.get_table_record(&TAG_HMTX).is_none() {
            return Err(missing_table("hmtx"));
        }
        let hhea = self.hhea_table()?;
        let maxp = self.maxp_table()?;
        let (mut reader, length) = self.open_table(&TAG_HMTX, "hmtx")?;
        HmtxTable::from_reader(&mut reader, length, maxp.num_glyphs, hhea.number_of_h_metrics)
    }

    /// The `loca` table, decoded with the glyph count of `maxp` and the offset format of
    /// `head`: one entry for each glyph and one more.
    ///
    /// Fails where the font has no `loca` entry, then as [`Font::head_table`] and
    /// [`Font::maxp_table`] fail, then with `InvalidOffset` where the `loca` entry points
    /// outside the file, and with an end-of-data error where the table is cut short.
    pub fn loca_table(&self) -> (r: Result<LocaTable, TtfError>)
        ensures
            self.access(TAG_LOCA@) is Missing ==> r is Err && r->Err_0.is_missing("loca"@),
            !(self.access(TAG_LOCA@) is Missing) && !(self.access(TAG_HEAD@) is Present) ==> r
                is Err && access_error(r->Err_0, self.access(TAG_HEAD@), "head"@),
            !(self.access(TAG_LOCA@) is Missing) && self.access(TAG_HEAD@) is Present
                && HeadTable::parses(self.access(TAG_HEAD@)->bytes) && !(self.access(TAG_MAXP@)
                is Present) ==> r is Err && access_error(
                r->Err_0,
                self.access(TAG_MAXP@),
                "maxp"@,
            ),
            self.access(TAG_LOCA@) is OutOfBounds && self.access(TAG_HEAD@) is Present
                && HeadTable::parses(self.access(TAG_HEAD@)->bytes) && self.access(TAG_MAXP@)
                is Present && MaxpTable::parses(self.access(TAG_MAXP@)->bytes) ==> r is Err
                && access_error(r->Err_0, self.access(TAG_LOCA@), "loca"@),
            r is Ok ==> self.access(TAG_LOCA@) is Present && self.access(TAG_HEAD@) is Present
                && self.access(TAG_MAXP@) is Present && HeadTable::parses(
                self.access(TAG_HEAD@)->bytes,
            ) && MaxpTable::parses(self.access(TAG_MAXP@)->bytes),
            self.access(TAG_LOCA@) is Present && self.access(TAG_HEAD@) is Present && self.access(
                TAG_MAXP@,
            ) is Present && HeadTable::parses(self.access(TAG_HEAD@)->bytes) && MaxpTable::parses(
                self.access(TAG_MAXP@)->bytes,
            ) ==> {
                let bytes = self.access(TAG_LOCA@)->bytes;
                let head = self.access(TAG_HEAD@)->bytes;
                let maxp = self.access(TAG_MAXP@)->bytes;
                let entries = be_u16(maxp, 4) + 1;
                let is_long = be_i16(head, 50) == 1;
                &&& r is Ok <==> bytes.len() >= LocaTable::size(entries, is_long)
                &&& r matches Ok(t) ==> t.decodes(bytes, 0, entries, is_long)
                &&& r matches Err(e) ==> e.is_truncated()
            },
    {
        if self.get_table_record(&TAG_LOCA).is_none() {
            return Err(missing_table("loca"));
        }
        let head = self.head_table()?;
        let maxp = self.maxp_table()?;
        let (mut reader, length) = self.open_table(&TAG_LOCA, "loca")?;
        LocaTable::from_reader(
            &mut reader,
            length,
            maxp.num_glyphs as usize,
            head.is_long_loca_format(),
        )
    }

    /// The `glyf` table, decoded with the offsets of `loca` and the glyph count of `maxp`.
    ///
    /// Fails where the font has no `glyf` entry, then as [`Font::loca_table`] and
    /// [`Font::maxp_table`] fail, then with `InvalidOffset` where the `glyf` entry points
    /// outside the file, and as [`GlyfTable::from_reader`] does where a glyph is at fault.
    pub fn glyf_table(&self) -> (r: Result<GlyfTable, TtfError>)
        ensures
            self.access(TAG_GLYF@) is Missing ==> r is Err && r->Err_0.is_missing("glyf"@),
            !(self.access(TAG_GLYF@) is Missing) && self.access(TAG_LOCA@) is Missing ==> r
                is Err && r->Err_0.is_missing("loca"@),
            !(self.access(TAG_GLYF@) is Missing) && !(self.access(TAG_LOCA@) is Missing) && !(
            self.access(TAG_HEAD@) is Present) ==> r is Err && access_error(
                r->Err_0,
                self.access(TAG_HEAD@),
                "head"@,
            ),
            !(self.access(TAG_GLYF@) is Missing) && !(self.access(TAG_LOCA@) is Missing)
                && self.access(TAG_HEAD@) is Present && HeadTable::parses(
                self.access(TAG_HEAD@)->bytes,
            ) && !(self.access(TAG_MAXP@) is Present) ==> r is Err && access_error(
                r->Err_0,
                self.access(TAG_MAXP@),
                "maxp"@,
            ),
            self.access(TAG_GLYF@) is OutOfBounds && (exists|loca: LocaTable|
                self.reads_loca(loca)) ==> r is Err && access_error(
                r->Err_0,
                self.access(TAG_GLYF@),
                "glyf"@,
            ),
            r matches Ok(t) ==> self.access(TAG_GLYF@) is Present && self.access(TAG_LOCA@)
                is Present && self.access(TAG_HEAD@) is Present && self.access(TAG_MAXP@)
                is Present && exists|loca: LocaTable| #[trigger]
                self.glyphs_by(t, loca),
            self.has_glyphs() ==> r is Ok,
    {
        if self.get_table_record(&TAG_GLYF).is_none() {
            return Err(missing_table("glyf"));
        }
        let loca = self.loca_table()?;
        let maxp = self.maxp_table()?;
        let (mut reader, length) = self.open_table(&TAG_GLYF, "glyf")?;
        let r = GlyfTable::from_reader(&mut reader, length, &loca, maxp.num_glyphs);
        proof {
            assert(self.reads_loca(loca));
            if r is Ok {
                assert(self.glyphs_by(r->Ok_0, loca));
            }
        }
        r
    }

    /// The glyph of a character: what the font's character map gives it.
    ///
    /// Fails as [`Font::cmap_table`] does, and with a parse error where the map has no glyph
    /// for the character.
    pub fn char_to_glyph(&self, c: char) -> (r: Result<u32, TtfError>)
        ensures
            !(self.access(TAG_CMAP@) matches Access::Present { bytes } && CmapTable::parses(
                bytes,
                0,
            )) ==> r is Err,
            self.access(TAG_CMAP@) matches Access::Present { bytes } && CmapTable::parses(bytes, 0)
                ==> exists|t: CmapTable| #[trigger]
                t.decodes(self.access(TAG_CMAP@)->bytes, 0) && match t.glyph(c as u32 as int) {
                    Some(g) => r == Ok::<u32, TtfError>(g),
                    None => r is Err && r->Err_0.is_parse_error(),
                },
            !(self.access(TAG_CMAP@) is Present) ==> r is Err && access_error(
                r->Err_0,
                self.access(TAG_CMAP@),
                "cmap"@,
            ),
    {
        let cmap = self.cmap_table()?;
        match cmap.map_char(c) {
            Some(g) => Ok(g),
            None => Err(parse_error("No glyph found for character")),
        }
    }

    /// A text that stands for the family name: the first name record with name id 1, as
    /// `Debug` prints it, or `Unknown` where there is none. Fails as [`Font::name_table`]
    /// does.
    pub fn font_name(&self) -> (r: Result<String, TtfError>)
        ensures
            r is Ok <==> (self.access(TAG_NAME@) matches Access::Present { bytes }
                && NameTable::parses(bytes)),
            r matches Ok(text) ==> exists|t: NameTable| #[trigger]
                t.decodes(self.access(TAG_NAME@)->bytes, 0) && text@ == record_text(
                    t.name_records@,
                    first_named(t.name_records@, 1, 0),
                ),
            !(self.access(TAG_NAME@) is Present) ==> r is Err && access_error(
                r->Err_0,
                self.access(TAG_NAME@),
                "name"@,
            ),
    {
        let name = self.name_table()?;
        match name.get_font_name() {
            Some(record) => Ok(debug_text(record)),
            None => Ok("Unknown".to_owned()),
        }
    }

    /// A text that stands for the full name: the first name record with name id 4, as
    /// `Debug` prints it, or `Unknown` where there is none. Fails as [`Font::name_table`]
    /// does.
    pub fn family_name(&self) -> (r: Result<String, TtfError>)
        ensures
            r is Ok <==> (self.access(TAG_NAME@) matches Access::Present { bytes }
                && NameTable::parses(bytes)),
            r matches Ok(text) ==> exists|t: NameTable| #[trigger]
                t.decodes(self.access(TAG_NAME@)->bytes, 0) && text@ == record_text(
                    t.name_records@,
                    first_named(t.name_records@, 4, 0),
                ),
            !(self.access(TAG_NAME@) is Present) ==> r is Err && access_error(
                r->Err_0,
                self.access(TAG_NAME@),
                "name"@,
            ),
    {
        let name = self.name_table()?;
        match name.get_full_name() {
            Some(record) => Ok(debug_text(record)),
            None => Ok("Unknown".to_owned()),
        }
    }

    /// Whether the font is bold: the bold bit of the selection flags of `OS/2` is set, or its
    /// weight class is 700 or more. Fails as [`Font::os2_table`] does.
    pub fn is_bold(&self) -> (r: Result<bool, TtfError>)
        ensures
            r is Ok <==> (self.access(TAG_OS2@) matches Access::Present { bytes }
                && Os2Table::parses(bytes)),
            r matches Ok(b) ==> {
                let bytes = self.access(TAG_OS2@)->bytes;
                b == ((be_u16(bytes, 62) as u16) & 0x20 != 0 || be_u16(bytes, 4) >= 700)
            },
            !(self.access(TAG_OS2@) is Present) ==> r is Err && access_error(
                r->Err_0,
                self.access(TAG_OS2@),
                "OS/2"@,
            ),
    {
        let os2 = self.os2_table()?;
        Ok(os2.is_bold())
    }

    /// Whether the font is italic: the italic bit of the selection flags of `OS/2` is set.
    /// Fails as [`Font::os2_table`] does.
    pub fn is_italic(&self) -> (r: Result<bool, TtfError>)
        ensures
            r is Ok <==> (self.access(TAG_OS2@) matches Access::Present { bytes }
                && Os2Table::parses(bytes)),
            r matches Ok(b) ==> b == ((be_u16(self.access(TAG_OS2@)->bytes, 62) as u16) & 0x01
                != 0),
            !(self.access(TAG_OS2@) is Present) ==> r is Err && access_error(
                r->Err_0,
                self.access(TAG_OS2@),
                "OS/2"@,
            ),
    {
        let os2 = self.os2_table()?;
        Ok(os2.is_italic())
    }

    /// The number of glyphs, from `maxp`. Fails as [`Font::maxp_table`] does.
    pub fn num_glyphs(&self) -> (r: Result<u16, TtfError>)
        ensures
            r is Ok <==> (self.access(TAG_MAXP@) matches Access::Present { bytes }
                && MaxpTable::parses(bytes)),
            r matches Ok(n) ==> n == be_u16(self.access(TAG_MAXP@)->bytes, 4),
            !(self.access(TAG_MAXP@) is Present) ==> r is Err && access_error(
                r->Err_0,
                self.access(TAG_MAXP@),
                "maxp"@,
            ),
    {
        let maxp = self.maxp_table()?;
        Ok(maxp.num_glyphs)
    }

    /// The units per em, from `head`. Fails as [`Font::head_table`] does.
    pub fn units_per_em(&self) -> (r: Result<u16, TtfError>)
        ensures
            r is Ok <==> (self.access(TAG_HEAD@) matches Access::Present { bytes }
                && HeadTable::parses(bytes)),
            r matches Ok(n) ==> n == be_u16(self.access(TAG_HEAD@)->bytes, 18),
            !(self.access(TAG_HEAD@) is Present) ==> r is Err && access_error(
                r->Err_0,
                self.access(TAG_HEAD@),
                "head"@,
            ),
    {
        let head = self.head_table()?;
        Ok(head.units_per_em)
    }
}

} // verus!
