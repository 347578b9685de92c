//! Changing the names, the version, the metrics and the permissions of a font.

use crate::access::access_error;
use crate::error::TtfError;
use crate::fixed::Fixed;
use crate::font::Font;
use crate::rebuild::{replacement_for, Replacement};
use crate::stream::FontWriter;
use crate::tables::head::HeadTable;
use crate::tables::hhea::HheaTable;
use crate::tables::hmtx::{HmtxTable, LongHorMetric};
use crate::tables::name::{lemma_renamed_size, NameKey, NameTable};
use crate::tables::os2::Os2Table;
use crate::tables::{TtfTableWrite, TAG_HEAD, TAG_HHEA, TAG_HMTX, TAG_NAME, TAG_OS2};
use crate::text::{decimal, decimal_text};
use vstd::prelude::*;
use vstd::string::StringExecFns;

verus! {

/// Collects changes to a font. Each change rewrites one table from the font as it was read
/// and keeps the new bytes; [`FontModifier::commit`] puts the new tables into the font.
pub struct FontModifier {
    font: Font,
    modified_tables: Vec<Replacement>,
}

/// The `head` table `read` with the font revision `major + minor / 100`.
pub open spec fn revised(read: HeadTable, major: u16, minor: u16) -> HeadTable {
    HeadTable {
        font_revision: Fixed { raw: Fixed::hundredths_raw(major as int, minor as int) as i32 },
        ..read
    }
}

/// The text of a version string: `Version`, a space, and the two numbers with a dot between.
pub open spec fn version_text(major: u16, minor: u16) -> Seq<char> {
    "Version "@ + decimal_text(major as nat) + "."@ + decimal_text(minor as nat)
}

/// The key of a name for Windows and Unicode, platform 3 and encoding 1.
pub open spec fn windows_key(language_id: u16, name_id: u16) -> NameKey {
    NameKey { platform_id: 3, encoding_id: 1, language_id, name_id }
}

impl FontModifier {
    /// Whether setting the name `text` under `key` succeeds, said of a font whose name table
    /// can be read: it does so exactly if the table with the new name, written out, takes
    /// at most 0xFFFF bytes.
    pub open spec fn name_outcome(self, ok: bool, text: Seq<char>, key: NameKey) -> bool {
        forall|read: NameTable, table: NameTable|
            self.source().reads_name(read) && #[trigger] table.renamed(read, text, key) ==> (ok
                <==> table.encoded_size() <= 0xFFFF)
    }

    /// This modifier is `before` with a new `name` table staged: `table`, which is the
    /// font's table `read` with `text` filed under `key`.
    pub open spec fn names(
        self,
        before: FontModifier,
        read: NameTable,
        table: NameTable,
        text: Seq<char>,
        key: NameKey,
    ) -> bool {
        &&& before.source().reads_name(read)
        &&& table.renamed(read, text, key)
        &&& table.encoded_size() <= 0xFFFF
        &&& self.stages(before, TAG_NAME@, table.encoding())
    }

    /// This modifier is `before` with a new `head` table staged: `table`, where the font's
    /// own decodes to `read`.
    pub open spec fn heads(self, before: FontModifier, read: HeadTable, table: HeadTable) -> bool {
        before.source().reads_head(read) && self.stages(before, TAG_HEAD@, table.encoding())
    }

    /// This modifier is `before` with a new `name` table, `table`, and a new `head` table
    /// staged: the font's own, `read` and `head`, with the version string and the font
    /// revision of `major` and `minor`.
    pub open spec fn versions(
        self,
        before: FontModifier,
        read: NameTable,
        table: NameTable,
        head: HeadTable,
        major: u16,
        minor: u16,
    ) -> bool {
        &&& self.source() == before.source()
        &&& before.source().reads_name(read)
        &&& before.source().reads_head(head)
        &&& table.renamed(read, version_text(major, minor), windows_key(0x0409, 5))
        &&& table.encoded_size() <= 0xFFFF
        &&& self.pending(TAG_NAME@) == Some(table.encoding())
        &&& self.pending(TAG_HEAD@) == Some(revised(head, major, minor).encoding())
        &&& forall|other: Seq<u8>|
            other != TAG_NAME@ && other != TAG_HEAD@ ==> self.pending(other) == before.pending(
                other,
            )
    }

    /// This modifier is `before` with the version `major.minor` staged.
    pub open spec fn versioned(self, before: FontModifier, major: u16, minor: u16) -> bool {
        exists|read: NameTable, table: NameTable, head: HeadTable| #[trigger]
            self.versions(before, read, table, head, major, minor)
    }

    /// This modifier is `before` with a new `head` and a new `hhea` table staged: the font's
    /// own, `head` and `hhea`, with the units per em and the three line metrics set.
    pub open spec fn measures(
        self,
        before: FontModifier,
        head: HeadTable,
        hhea: HheaTable,
        units_per_em: u16,
        ascender: i16,
        descender: i16,
        line_gap: i16,
    ) -> bool {
        &&& self.source() == before.source()
        &&& before.source().reads_head(head)
        &&& before.source().reads_hhea(hhea)
        &&& self.pending(TAG_HEAD@) == Some((HeadTable { units_per_em, ..head }).encoding())
        &&& self.pending(TAG_HHEA@) == Some(
            (HheaTable { ascent: ascender, descent: descender, line_gap, ..hhea }).encoding(),
        )
        &&& forall|other: Seq<u8>|
            other != TAG_HEAD@ && other != TAG_HHEA@ ==> self.pending(other) == before.pending(
                other,
            )
    }

    /// This modifier is `before` with a new `hmtx` table staged: the font's own, `read`,
    /// with the advance width of the glyph `glyph` set to `advance`.
    pub open spec fn advances(
        self,
        before: FontModifier,
        read: HmtxTable,
        table: HmtxTable,
        glyph: int,
        advance: u16,
    ) -> bool {
        &&& before.source().reads_hmtx(read)
        &&& 0 <= glyph < read.h_metrics@.len()
        &&& table.h_metrics@ == read.h_metrics@.update(
            glyph,
            LongHorMetric { advance_width: advance, lsb: read.h_metrics@[glyph].lsb },
        )
        &&& table.left_side_bearings@ == read.left_side_bearings@
        &&& self.stages(before, TAG_HMTX@, table.encoding())
    }

    /// The font that is changed.
    pub closed spec fn source(self) -> Font {
        self.font
    }

    /// The new tables so far; of several for one tag the first counts.
    pub closed spec fn staged(self) -> Seq<Replacement> {
        self.modified_tables@
    }

    /// The new bytes of the table `tag`, where it was changed.
    pub open spec fn pending(self, tag: Seq<u8>) -> Option<Seq<u8>> {
        replacement_for(self.staged(), tag, 0)
    }

    /// This modifier is `before` with new bytes for the table `tag` and nothing else changed.
    pub open spec fn stages(self, before: FontModifier, tag: Seq<u8>, data: Seq<u8>) -> bool {
        &&& self.source() == before.source()
        &&& self.pending(tag) == Some(data)
        &&& forall|other: Seq<u8>| other != tag ==> self.pending(other) == before.pending(other)
    }

    pub fn new(font: Font) -> (m: Self)
        ensures
            m.source() == font,
            m.staged().len() == 0,
    {
        Self { font, modified_tables: Vec::new() }
    }

    /// Keeps `data` as the new bytes of the table `tag`.
    fn stage(&mut self, tag: [u8; 4], data: Vec<u8>)
        ensures
            final(self).stages(*old(self), tag@, data@),
    {
        let ghost before = self.modified_tables@;
        let mut list: Vec<Replacement> = Vec::new();
        list.push(Replacement { tag, data });
        let mut i: usize = 0;
        while i < self.modified_tables.len()
            invariant
                i <= self.modified_tables.len(),
                self.modified_tables@ == before,
                list@.len() == i + 1,
                list@[0].tag == tag,
                list@[0].data@ == data@,
                forall|k: int|
                    0 <= k < i ==> (#[trigger] list@[k + 1]).tag == before[k].tag && list@[k
                        + 1].data@ == before[k].data@,
            decreases self.modified_tables.len() - i,
        {
            let entry = &self.modified_tables[i];
            let mut copy: Vec<u8> = Vec::with_capacity(entry.data.len());
            let mut j: usize = 0;
            while j < entry.data.len()
                invariant
                    j <= entry.data.len(),
                    copy@ == entry.data@.subrange(0, j as int),
                decreases entry.data.len() - j,
            {
                copy.push(entry.data[j]);
                j = j + 1;
                assert(copy@ =~= entry.data@.subrange(0, j as int));
            }
            assert(entry.data@.subrange(0, j as int) =~= entry.data@);
            list.push(Replacement { tag: entry.tag, data: copy });
            i = i + 1;
        }
        proof {
            assert forall|other: Seq<u8>| other != tag@ implies replacement_for(list@, other, 0)
                == replacement_for(before, other, 0) by {
                lemma_shifted(list@, before, other, 0);
            }
        }
        self.modified_tables = list;
    }

    fn stage_name(&mut self, table: &NameTable) -> (r: Result<(), TtfError>)
        ensures
            table.encoded_size() <= 0xFFFF ==> r is Ok && final(self).stages(
                *old(self),
                TAG_NAME@,
                table.encoding(),
            ),
            table.encoded_size() > 0xFFFF ==> r is Err && r->Err_0 is InvalidSize && *final(self)
                == *old(self),
    {
        let mut writer = FontWriter::new();
        table.write(&mut writer)?;
        let data = writer.into_inner();
        assert(data@ =~= table.encoding());
        self.stage(TAG_NAME, data);
        Ok(())
    }

    /// Sets one name of the Windows Unicode platform (3, 1) in the given language.
    fn set_text(&mut self, text: &str, language_id: u16, name_id: u16) -> (r: Result<(), TtfError>)
        ensures
            final(self).source() == old(self).source(),
            r is Err ==> *final(self) == *old(self),
            r is Ok ==> exists|read: NameTable, table: NameTable| #[trigger]
                final(self).names(*old(self), read, table, text@, windows_key(language_id, name_id)),
            (forall|read: NameTable| !old(self).source().reads_name(read)) ==> r is Err,
            !(old(self).source().access(TAG_NAME@) is Present) ==> r is Err && access_error(
                r->Err_0,
                old(self).source().access(TAG_NAME@),
                "name"@,
            ),
            old(self).name_outcome(r is Ok, text@, windows_key(language_id, name_id)),
            (exists|read: NameTable| old(self).source().reads_name(read)) && old(
                self,
            ).name_outcome(true, text@, windows_key(language_id, name_id)) ==> r is Ok,
            r is Err && (exists|read: NameTable| old(self).source().reads_name(read)) ==> r->Err_0
                is InvalidSize,
    {
        let mut table = self.font.name_table()?;
        let ghost read = table;
        table.set_name(text, 3, 1, language_id, name_id);
        let r = self.stage_name(&table);
        proof {
            let key = windows_key(language_id, name_id);
            let bytes = self.font.access(TAG_NAME@)->bytes;
            assert forall|other_read: NameTable, other: NameTable|
                old(self).source().reads_name(other_read) && #[trigger] other.renamed(
                    other_read,
                    text@,
                    key,
                ) implies (r is Ok <==> other.encoded_size() <= 0xFFFF) by {
                lemma_renamed_size(bytes, read, table, other_read, other, text@, key);
            }
            if r is Ok {
                assert(self.names(
                    *old(self),
                    read,
                    table,
                    text@,
                    windows_key(language_id, name_id),
                ));
            }
        }
        r
    }

    /// Sets the font family name: name id 1 for Windows, Unicode, US English.
    ///
    /// Fails as [`Font::name_table`] does, and with `InvalidSize` where the new table would
    /// outgrow its 16-bit offsets; then nothing is changed.
    pub fn set_font_name(&mut self, name: &str) -> (r: Result<(), TtfError>)
        ensures
            final(self).source() == old(self).source(),
            r is Err ==> *final(self) == *old(self),
            r is Ok ==> exists|read: NameTable, table: NameTable| #[trigger]
                final(self).names(*old(self), read, table, name@, windows_key(0x0409, 1)),
            (forall|read: NameTable| !old(self).source().reads_name(read)) ==> r is Err,
            !(old(self).source().access(TAG_NAME@) is Present) ==> r is Err && access_error(
                r->Err_0,
                old(self).source().access(TAG_NAME@),
                "name"@,
            ),
            old(self).name_outcome(r is Ok, name@, windows_key(0x0409, 1)),
            r is Err && (exists|read: NameTable| old(self).source().reads_name(read)) ==> r->Err_0
                is InvalidSize,
    {
        self.set_text(name, 0x0409, 1)
    }

    /// Sets the full font name: name id 4 for Windows, Unicode, US English.
    pub fn set_full_font_name(&mut self, name: &str) -> (r: Result<(), TtfError>)
        ensures
            final(self).source() == old(self).source(),
            r is Err ==> *final(self) == *old(self),
            r is Ok ==> exists|read: NameTable, table: NameTable| #[trigger]
                final(self).names(*old(self), read, table, name@, windows_key(0x0409, 4)),
            (forall|read: NameTable| !old(self).source().reads_name(read)) ==> r is Err,
            !(old(self).source().access(TAG_NAME@) is Present) ==> r is Err && access_error(
                r->Err_0,
                old(self).source().access(TAG_NAME@),
                "name"@,
            ),
            old(self).name_outcome(r is Ok, name@, windows_key(0x0409, 4)),
            r is Err && (exists|read: NameTable| old(self).source().reads_name(read)) ==> r->Err_0
                is InvalidSize,
    {
        self.set_text(name, 0x0409, 4)
    }

    /// Sets the copyright notice: name id 0 for Windows, Unicode, US English.
    pub fn set_copyright(&mut self, copyright: &str) -> (r: Result<(), TtfError>)
        ensures
            final(self).source() == old(self).source(),
            r is Err ==> *final(self) == *old(self),
            r is Ok ==> exists|read: NameTable, table: NameTable| #[trigger]
                final(self).names(*old(self), read, table, copyright@, windows_key(0x0409, 0)),
            (forall|read: NameTable| !old(self).source().reads_name(read)) ==> r is Err,
            !(old(self).source().access(TAG_NAME@) is Present) ==> r is Err && access_error(
                r->Err_0,
                old(self).source().access(TAG_NAME@),
                "name"@,
            ),
            old(self).name_outcome(r is Ok, copyright@, windows_key(0x0409, 0)),
            r is Err && (exists|read: NameTable| old(self).source().reads_name(read)) ==> r->Err_0
                is InvalidSize,
    {
        self.set_text(copyright, 0x0409, 0)
    }

    /// Sets the trademark: name id 7 for Windows, Unicode, US English.
    pub fn set_trademark(&mut self, trademark: &str) -> (r: Result<(), TtfError>)
        ensures
            final(self).source() == old(self).source(),
            r is Err ==> *final(self) == *old(self),
            r is Ok ==> exists|read: NameTable, table: NameTable| #[trigger]
                final(self).names(*old(self), read, table, trademark@, windows_key(0x0409, 7)),
            (forall|read: NameTable| !old(self).source().reads_name(read)) ==> r is Err,
            !(old(self).source().access(TAG_NAME@) is Present) ==> r is Err && access_error(
                r->Err_0,
                old(self).source().access(TAG_NAME@),
                "name"@,
            ),
            old(self).name_outcome(r is Ok, trademark@, windows_key(0x0409, 7)),
            r is Err && (exists|read: NameTable| old(self).source().reads_name(read)) ==> r->Err_0
                is InvalidSize,
    {
        self.set_text(trademark, 0x0409, 7)
    }

    /// Sets the font family name, name id 1, for Windows, Unicode and the given language.
    pub fn set_localized_font_name(&mut self, name: &str, language_id: u16) -> (r: Result<
        (),
        TtfError,
    >)
        ensures
            final(self).source() == old(self).source(),
            r is Err ==> *final(self) == *old(self),
            r is Ok ==> exists|read: NameTable, table: NameTable| #[trigger]
                final(self).names(*old(self), read, table, name@, windows_key(language_id, 1)),
            (forall|read: NameTable| !old(self).source().reads_name(read)) ==> r is Err,
            !(old(self).source().access(TAG_NAME@) is Present) ==> r is Err && access_error(
                r->Err_0,
                old(self).source().access(TAG_NAME@),
                "name"@,
            ),
            old(self).name_outcome(r is Ok, name@, windows_key(language_id, 1)),
            r is Err && (exists|read: NameTable| old(self).source().reads_name(read)) ==> r->Err_0
                is InvalidSize,
    {
        self.set_text(name, language_id, 1)
    }

    /// The `head` table of the font with one change, staged.
    fn stage_head(&mut self, table: &HeadTable)
        ensures
            final(self).stages(*old(self), TAG_HEAD@, table.encoding()),
    {
        let mut writer = FontWriter::new();
        let _ = table.write(&mut writer);
        let data = writer.into_inner();
        assert(data@ =~= table.encoding());
        self.stage(TAG_HEAD, data);
    }

    /// Sets the font revision in the `head` table to `major + minor / 100`, as a 16.16
    /// fixed-point number rounded down.
    ///
    /// Fails as [`Font::head_table`] does; then nothing is changed.
    pub fn set_font_revision(&mut self, major: u16, minor: u16) -> (r: Result<(), TtfError>)
        ensures
            final(self).source() == old(self).source(),
            r is Err ==> *final(self) == *old(self),
            r is Ok <==> exists|read: HeadTable| old(self).source().reads_head(read),
            !(old(self).source().access(TAG_HEAD@) is Present) ==> r is Err && access_error(
                r->Err_0,
                old(self).source().access(TAG_HEAD@),
                "head"@,
            ),
            r is Ok ==> exists|read: HeadTable| #[trigger]
                final(self).heads(*old(self), read, revised(read, major, minor)),
    {
        let read = self.font.head_table()?;
        let mut head = read;
        head.font_revision = Fixed::from_hundredths(major, minor);
        self.stage_head(&head);
        proof {
            assert(head == revised(read, major, minor));
            assert(self.heads(*old(self), read, revised(read, major, minor)));
        }
        Ok(())
    }

    /// Sets the version: the version string, name id 5, becomes `Version major.minor`, and
    /// the font revision in the `head` table becomes `major + minor / 100`.
    ///
    /// Fails as [`Font::name_table`] and [`Font::head_table`] do, and with `InvalidSize`
    /// where the new name table would outgrow its 16-bit offsets; succeeds on every other
    /// font. Where only the `head` table stands in the way, the new name table stays.
    pub fn set_version(&mut self, major: u16, minor: u16) -> (r: Result<(), TtfError>)
        ensures
            final(self).source() == old(self).source(),
            r is Ok ==> final(self).versioned(*old(self), major, minor),
            r is Err ==> *final(self) == *old(self) || exists|read: NameTable, table: NameTable|
             #[trigger]
                final(self).names(
                    *old(self),
                    read,
                    table,
                    version_text(major, minor),
                    windows_key(0x0409, 5),
                ),
            (forall|read: NameTable| !old(self).source().reads_name(read)) ==> r is Err,
            !(old(self).source().access(TAG_NAME@) is Present) ==> r is Err && access_error(
                r->Err_0,
                old(self).source().access(TAG_NAME@),
                "name"@,
            ),
            (forall|read: HeadTable| !old(self).source().reads_head(read)) ==> r is Err,
            (exists|head: HeadTable| old(self).source().reads_head(head)) ==> old(
                self,
            ).name_outcome(r is Ok, version_text(major, minor), windows_key(0x0409, 5)),
            r is Err && (exists|read: NameTable| old(self).source().reads_name(read)) && (exists|
                head: HeadTable,
            |
                old(self).source().reads_head(head)) ==> r->Err_0 is InvalidSize,
            (exists|read: NameTable| old(self).source().reads_name(read)) && old(
                self,
            ).name_outcome(true, version_text(major, minor), windows_key(0x0409, 5)) && !(old(
                self,
            ).source().access(TAG_HEAD@) is Present) ==> r is Err && access_error(
                r->Err_0,
                old(self).source().access(TAG_HEAD@),
                "head"@,
            ),
    {
        let mut text = String::from_str("Version ");
        let major_text = decimal(major as u64);
        text.append(major_text.as_str());
        text.append(".");
        let minor_text = decimal(minor as u64);
        text.append(minor_text.as_str());
        assert(text@ == version_text(major, minor));
        self.set_text(text.as_str(), 0x0409, 5)?;
        let ghost middle = *self;
        let r = self.set_font_revision(major, minor);
        proof {
            lemma_tags_differ();
            let (read, table) = choose|read: NameTable, table: NameTable| #[trigger]
                middle.names(
                    *old(self),
                    read,
                    table,
                    version_text(major, minor),
                    windows_key(0x0409, 5),
                );
            if r is Ok {
                let head = choose|head: HeadTable| #[trigger]
                    self.heads(middle, head, revised(head, major, minor));
                assert(self.versions(*old(self), read, table, head, major, minor));
            }
        }
        r
    }

    /// Sets the embedding permissions, the `fsType` field of the `OS/2` table.
    ///
    /// Fails as [`Font::os2_table`] does; then nothing is changed.
    pub fn set_embedding_type(&mut self, embedding_type: u16) -> (r: Result<(), TtfError>)
        ensures
            final(self).source() == old(self).source(),
            r is Err ==> *final(self) == *old(self),
            r is Ok <==> exists|read: Os2Table| old(self).source().reads_os2(read),
            !(old(self).source().access(TAG_OS2@) is Present) ==> r is Err && access_error(
                r->Err_0,
                old(self).source().access(TAG_OS2@),
                "OS/2"@,
            ),
            r is Ok ==> exists|read: Os2Table| #[trigger]
                old(self).source().reads_os2(read) && final(self).stages(
                    *old(self),
                    TAG_OS2@,
                    (Os2Table { fs_type: embedding_type, ..read }).encoding(),
                ),
    {
        let read = self.font.os2_table()?;
        let mut os2 = read;
        os2.fs_type = embedding_type;
        let mut writer = FontWriter::new();
        let _ = os2.write(&mut writer);
        let data = writer.into_inner();
        assert(data@ =~= os2.encoding());
        self.stage(TAG_OS2, data);
        proof {
            assert(os2 == (Os2Table { fs_type: embedding_type, ..read }));
            assert(old(self).source().reads_os2(read));
        }
        Ok(())
    }

    /// Sets the units per em in the `head` table and the ascent, descent and line gap in the
    /// `hhea` table.
    ///
    /// Fails as [`Font::head_table`] and [`Font::hhea_table`] do. Where only the `hhea`
    /// table stands in the way, the new `head` table stays.
    pub fn set_font_metrics(
        &mut self,
        units_per_em: u16,
        ascender: i16,
        descender: i16,
        line_gap: i16,
    ) -> (r: Result<(), TtfError>)
        ensures
            final(self).source() == old(self).source(),
            r is Ok <==> (exists|head: HeadTable| old(self).source().reads_head(head)) && (
            exists|hhea: HheaTable| old(self).source().reads_hhea(hhea)),
            !(old(self).source().access(TAG_HEAD@) is Present) ==> r is Err && access_error(
                r->Err_0,
                old(self).source().access(TAG_HEAD@),
                "head"@,
            ),
            (exists|head: HeadTable| old(self).source().reads_head(head)) && !(
            old(self).source().access(TAG_HHEA@) is Present) ==> r is Err && access_error(
                r->Err_0,
                old(self).source().access(TAG_HHEA@),
                "hhea"@,
            ),
            r is Ok ==> exists|head: HeadTable, hhea: HheaTable| #[trigger]
                final(self).measures(
                    *old(self),
                    head,
                    hhea,
                    units_per_em,
                    ascender,
                    descender,
                    line_gap,
                ),
            r is Err ==> *final(self) == *old(self) || exists|head: HeadTable| #[trigger]
                final(self).heads(*old(self), head, (HeadTable { units_per_em, ..head })),
    {
        let read = self.font.head_table()?;
        let mut head = read;
        head.units_per_em = units_per_em;
        self.stage_head(&head);
        proof {
            assert(head == (HeadTable { units_per_em, ..read }));
            assert(self.heads(*old(self), read, (HeadTable { units_per_em, ..read })));
        }
        let read_hhea = self.font.hhea_table()?;
        let mut hhea = read_hhea;
        hhea.ascent = ascender;
        hhea.descent = descender;
        hhea.line_gap = line_gap;
        let mut writer = FontWriter::new();
        let _ = hhea.write(&mut writer);
        let data = writer.into_inner();
        assert(data@ =~= hhea.encoding());
        self.stage(TAG_HHEA, data);
        proof {
            lemma_tags_differ();
            assert(hhea == (HheaTable {
                ascent: ascender,
                descent: descender,
                line_gap,
                ..read_hhea
            }));
            assert(self.measures(
                *old(self),
                read,
                read_hhea,
                units_per_em,
                ascender,
                descender,
                line_gap,
            ));
        }
        Ok(())
    }

    /// Sets the advance width of one glyph in the `hmtx` table. A glyph without a full entry
    /// of its own is left alone, and then no table is staged.
    ///
    /// Fails as [`Font::hmtx_table`] does; then nothing is changed.
    pub fn set_glyph_advance(&mut self, glyph_index: usize, advance_width: u16) -> (r: Result<
        (),
        TtfError,
    >)
        ensures
            final(self).source() == old(self).source(),
            r is Err ==> *final(self) == *old(self),
            r is Ok <==> exists|read: HmtxTable| old(self).source().reads_hmtx(read),
            old(self).source().access(TAG_HMTX@) is Missing ==> r is Err && r->Err_0.is_missing(
                "hmtx"@,
            ),
            r is Ok ==> exists|read: HmtxTable| #[trigger]
                old(self).source().reads_hmtx(read) && if glyph_index < read.h_metrics@.len() {
                    exists|table: HmtxTable| #[trigger]
                        final(self).advances(
                            *old(self),
                            read,
                            table,
                            glyph_index as int,
                            advance_width,
                        )
                } else {
                    *final(self) == *old(self)
                },
    {
        let hmtx = self.font.hmtx_table()?;
        let ghost read = hmtx;
        assert(self.font.reads_hmtx(read));
        if glyph_index < hmtx.h_metrics.len() {
            let mut table = hmtx;
            let lsb = table.h_metrics[glyph_index].lsb;
            table.h_metrics.set(glyph_index, LongHorMetric { advance_width, lsb });
            let mut writer = FontWriter::new();
            let _ = table.write(&mut writer);
            let data = writer.into_inner();
            assert(data@ =~= table.encoding());
            self.stage(TAG_HMTX, data);
            proof {
                assert(self.advances(*old(self), read, table, glyph_index as int, advance_width));
            }
        }
        Ok(())
    }

    /// The font with the new tables in place, laid out afresh: every table that was changed
    /// holds its new bytes, and every other table that lay inside the file holds the bytes
    /// it had.
    ///
    /// Fails with `InvalidSize` where the new file would outgrow 32-bit offsets.
    pub fn commit(self) -> (r: Result<Font, TtfError>)
        ensures
            r is Ok <==> self.source().rebuilds(self.staged(), Seq::empty()),
            r matches Ok(f) ==> self.source().rebuilt_as(f, self.staged(), Seq::empty()),
            r matches Err(e) ==> e is InvalidSize,
    {
        let keep: Vec<[u8; 4]> = Vec::new();
        assert(keep@ =~= Seq::empty());
        self.font.rebuild_with(&self.modified_tables, &keep)
    }
}

/// A list that is another with one entry put before it finds what the other finds, for
/// every tag but that of the new entry.
proof fn lemma_shifted(list: Seq<Replacement>, before: Seq<Replacement>, tag: Seq<u8>, from: int)
    requires
        0 <= from,
        list.len() == before.len() + 1,
        forall|k: int|
            0 <= k < before.len() ==> (#[trigger] list[k + 1]).tag == before[k].tag && list[k
                + 1].data@ == before[k].data@,
        from == 0 ==> list[0].tag@ != tag,
    ensures
        from == 0 ==> replacement_for(list, tag, 0) == replacement_for(before, tag, 0),
        from > 0 ==> replacement_for(list, tag, from) == replacement_for(before, tag, from - 1),
    decreases list.len() - from,
{
    if from < list.len() {
        lemma_shifted(list, before, tag, from + 1);
        if from > 0 {
            assert(list[(from - 1) + 1].tag == before[from - 1].tag);
        }
    }
}

/// The tags of the tables that a modifier rewrites differ from each other.
proof fn lemma_tags_differ()
    ensures
        TAG_NAME@ != TAG_HEAD@,
        TAG_HEAD@ != TAG_HHEA@,
        TAG_HEAD@ != TAG_OS2@,
        TAG_HHEA@ != TAG_HMTX@,
{
    assert(TAG_NAME@[0] == 0x6e && TAG_HEAD@[0] == 0x68 && TAG_OS2@[0] == 0x4f);
    assert(TAG_HEAD@[1] == 0x65 && TAG_HHEA@[1] == 0x68 && TAG_HMTX@[1] == 0x6d);
}

impl Font {
    /// A modifier for this font.
    pub fn modify(self) -> (m: FontModifier)
        ensures
            m.source() == self,
            m.staged().len() == 0,
    {
        FontModifier::new(self)
    }
}

} // verus!
