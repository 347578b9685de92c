//! The `name` table: the font's names and notices, by platform, encoding, language and kind.

use crate::error::{truncated, TtfError};
use crate::stream::{FontReader, FontWriter};
use crate::tables::{TtfTable, TtfTableWrite, TAG_NAME};
use crate::wire::{be_u16, u16_bytes};
use vstd::prelude::*;
use vstd::string::StrSliceExecFns;

verus! {

/// One entry of the name table: which string it is and where its bytes lie.
#[derive(Debug, Clone, Copy)]
pub struct NameRecord {
    pub platform_id: u16,
    pub encoding_id: u16,
    pub language_id: u16,
    pub name_id: u16,
    pub length: u16,
    pub offset: u16,
}

/// The bytes of one string, filed under the four ids of the record it belongs to.
#[derive(Debug, Clone)]
pub struct NameString {
    pub platform_id: u16,
    pub encoding_id: u16,
    pub language_id: u16,
    pub name_id: u16,
    pub data: Vec<u8>,
}

/// The naming table. `string_data` holds the strings that were set since the table was read;
/// of several strings under one key the first counts.
#[derive(Debug, Clone)]
pub struct NameTable {
    pub format: u16,
    pub count: u16,
    pub string_offset: u16,
    pub name_records: Vec<NameRecord>,
    pub string_data: Vec<NameString>,
}

/// The four ids under which a string is filed.
pub struct NameKey {
    pub platform_id: u16,
    pub encoding_id: u16,
    pub language_id: u16,
    pub name_id: u16,
}

impl NameRecord {
    pub const COPYRIGHT_NOTICE: u16 = 0;

    pub const FONT_FAMILY_NAME: u16 = 1;

    pub const FONT_SUBFAMILY_NAME: u16 = 2;

    pub const UNIQUE_FONT_ID: u16 = 3;

    pub const FULL_FONT_NAME: u16 = 4;

    pub const VERSION_STRING: u16 = 5;

    pub const POSTSCRIPT_NAME: u16 = 6;

    pub const TRADEMARK: u16 = 7;

    pub const MANUFACTURER_NAME: u16 = 8;

    pub const DESIGNER: u16 = 9;

    pub const DESCRIPTION: u16 = 10;

    pub const VENDOR_URL: u16 = 11;

    pub const DESIGNER_URL: u16 = 12;

    pub const LICENSE_DESCRIPTION: u16 = 13;

    pub const LICENSE_URL: u16 = 14;

    pub const TYPOGRAPHIC_FAMILY_NAME: u16 = 16;

    pub const TYPOGRAPHIC_SUBFAMILY_NAME: u16 = 17;

    pub const COMPATIBLE_FULL_NAME: u16 = 18;

    pub const SAMPLE_TEXT: u16 = 19;

    pub const POSTSCRIPT_CID: u16 = 20;

    pub const WWS_FAMILY_NAME: u16 = 21;

    pub const WWS_SUBFAMILY_NAME: u16 = 22;

    pub const LIGHT_BACKGROUND_PALETTE: u16 = 23;

    pub const DARK_BACKGROUND_PALETTE: u16 = 24;

    /// The ids under which the record's string is filed.
    pub open spec fn key(self) -> NameKey {
        NameKey {
            platform_id: self.platform_id,
            encoding_id: self.encoding_id,
            language_id: self.language_id,
            name_id: self.name_id,
        }
    }

    /// The record is what the twelve bytes at `s[p..]` encode.
    pub open spec fn decodes(self, s: Seq<u8>, p: int) -> bool {
        &&& self.platform_id == be_u16(s, p)
        &&& self.encoding_id == be_u16(s, p + 2)
        &&& self.language_id == be_u16(s, p + 4)
        &&& self.name_id == be_u16(s, p + 6)
        &&& self.length == be_u16(s, p + 8)
        &&& self.offset == be_u16(s, p + 10)
    }

    /// The twelve bytes that encode the record.
    pub open spec fn encoding(self) -> Seq<u8> {
        u16_bytes(self.platform_id as int) + u16_bytes(self.encoding_id as int) + u16_bytes(
            self.language_id as int,
        ) + u16_bytes(self.name_id as int) + u16_bytes(self.length as int) + u16_bytes(
            self.offset as int,
        )
    }
}

impl NameString {
    /// The ids under which the string is filed.
    pub open spec fn key(self) -> NameKey {
        NameKey {
            platform_id: self.platform_id,
            encoding_id: self.encoding_id,
            language_id: self.language_id,
            name_id: self.name_id,
        }
    }
}

/// The index of the first record from `from` on whose name id is `name_id`.
pub open spec fn first_named(records: Seq<NameRecord>, name_id: u16, from: int) -> Option<int>
    decreases records.len() - from,
{
    if from < 0 || from >= records.len() {
        None
    } else if records[from].name_id == name_id {
        Some(from)
    } else {
        first_named(records, name_id, from + 1)
    }
}

/// The bytes of the first string from `from` on that is filed under `key`.
pub open spec fn string_for(strings: Seq<NameString>, key: NameKey, from: int) -> Option<Seq<u8>>
    decreases strings.len() - from,
{
    if from < 0 || from >= strings.len() {
        None
    } else if strings[from].key() == key {
        Some(strings[from].data@)
    } else {
        string_for(strings, key, from + 1)
    }
}

/// The first `n` records without those filed under `key`.
pub open spec fn without_key(records: Seq<NameRecord>, key: NameKey, n: int) -> Seq<NameRecord>
    decreases n,
{
    if n <= 0 {
        Seq::empty()
    } else if records[n - 1].key() == key {
        without_key(records, key, n - 1)
    } else {
        without_key(records, key, n - 1).push(records[n - 1])
    }
}

/// The UTF-16 code units of one character: itself below 0x10000, a surrogate pair above.
pub open spec fn utf16_units(c: char) -> Seq<u16> {
    let v = c as u32 as int;
    if v < 0x1_0000 {
        seq![v as u16]
    } else {
        seq![(0xD800 + (v - 0x1_0000) / 0x400) as u16, (0xDC00 + (v - 0x1_0000) % 0x400) as u16]
    }
}

/// The big-endian bytes of the UTF-16 code units of one character.
pub open spec fn utf16_be_char(c: char) -> Seq<u8> {
    let units = utf16_units(c);
    if units.len() == 1 {
        u16_bytes(units[0] as int)
    } else {
        u16_bytes(units[0] as int) + u16_bytes(units[1] as int)
    }
}

/// The UTF-16 big-endian encoding of the first `n` characters of `text`.
pub open spec fn utf16_be(text: Seq<char>, n: int) -> Seq<u8>
    decreases n,
{
    if n <= 0 {
        Seq::empty()
    } else {
        utf16_be(text, n - 1) + utf16_be_char(text[n - 1])
    }
}

/// Encodes `text` as UTF-16, big-endian.
pub fn encode_utf16_be(text: &str) -> (bytes: Vec<u8>)
    ensures
        bytes@ == utf16_be(text@, text@.len() as int),
{
    let n = text.unicode_len();
    let mut writer = FontWriter::new();
    let mut i: usize = 0;
    while i < n
        invariant
            i <= n,
            n == text@.len(),
            writer@ == utf16_be(text@, i as int),
        decreases n - i,
    {
        let c = text.get_char(i);
        let v: u32 = c as u32;
        if v < 0x1_0000 {
            writer.write_u16(v as u16);
        } else {
            let rest: u32 = v - 0x1_0000;
            writer.write_u16((0xD800 + rest / 0x400) as u16);
            writer.write_u16((0xDC00 + rest % 0x400) as u16);
        }
        i = i + 1;
        assert(writer@ =~= utf16_be(text@, i as int));
    }
    writer.into_inner()
}

/// The strings of the first `n` records, back to back; a record without a string adds nothing.
pub open spec fn storage_upto(records: Seq<NameRecord>, strings: Seq<NameString>, n: int) -> Seq<u8>
    decreases n,
{
    if n <= 0 {
        Seq::empty()
    } else {
        match string_for(strings, records[n - 1].key(), 0) {
            Some(data) => storage_upto(records, strings, n - 1) + data,
            None => storage_upto(records, strings, n - 1),
        }
    }
}

/// Record `i` as it is written: with the place and length of its string where it has one,
/// and as it stands where it has none.
pub open spec fn placed(
    records: Seq<NameRecord>,
    strings: Seq<NameString>,
    i: int,
) -> NameRecord {
    match string_for(strings, records[i].key(), 0) {
        Some(data) => NameRecord {
            platform_id: records[i].platform_id,
            encoding_id: records[i].encoding_id,
            language_id: records[i].language_id,
            name_id: records[i].name_id,
            length: data.len() as u16,
            offset: (6 + 12 * records.len() + storage_upto(records, strings, i).len()) as u16,
        },
        None => records[i],
    }
}

/// The encodings of the first `n` records as they are written.
pub open spec fn placed_bytes(records: Seq<NameRecord>, strings: Seq<NameString>, n: int) -> Seq<u8>
    decreases n,
{
    if n <= 0 {
        Seq::empty()
    } else {
        placed_bytes(records, strings, n - 1) + placed(records, strings, n - 1).encoding()
    }
}

impl NameTable {
    /// The table is what the header and records at `s[p..]` encode; no string has been set.
    pub open spec fn decodes(self, s: Seq<u8>, p: int) -> bool {
        &&& self.format == be_u16(s, p)
        &&& self.count == be_u16(s, p + 2)
        &&& self.string_offset == be_u16(s, p + 4)
        &&& self.name_records@.len() == self.count
        &&& forall|i: int|
            0 <= i < self.name_records@.len() ==> (#[trigger] self.name_records@[i]).decodes(
                s,
                p + 6 + 12 * i,
            )
        &&& self.string_data@.len() == 0
    }

    /// The size of the table when written: header, records and strings.
    pub open spec fn encoded_size(self) -> int {
        6 + 12 * (self.name_records@.len() as int) + storage_upto(
            self.name_records@,
            self.string_data@,
            self.name_records@.len() as int,
        ).len() as int
    }

    /// The bytes that encode the table: the header, the records with the place of each
    /// string, and the strings in the order of their records.
    pub open spec fn encoding(self) -> Seq<u8> {
        let n = self.name_records@.len() as int;
        u16_bytes(self.format as int) + u16_bytes(n) + u16_bytes(6 + 12 * n) + placed_bytes(
            self.name_records@,
            self.string_data@,
            n,
        ) + storage_upto(self.name_records@, self.string_data@, n)
    }

    fn find_named(&self, name_id: u16) -> (r: Option<usize>)
        ensures
            match r {
                Some(i) => first_named(self.name_records@, name_id, 0) == Some(i as int) && i
                    < self.name_records@.len(),
                None => first_named(self.name_records@, name_id, 0) is None,
            },
    {
        let mut i: usize = 0;
        while i < self.name_records.len()
            invariant
                i <= self.name_records.len(),
                first_named(self.name_records@, name_id, 0) == first_named(
                    self.name_records@,
                    name_id,
                    i as int,
                ),
            decreases self.name_records.len() - i,
        {
            if self.name_records[i].name_id == name_id {
                return Some(i);
            }
            i = i + 1;
        }
        None
    }

    /// The index of the first string filed under the four ids.
    #[verifier::loop_isolation(false)]
    fn find_string(&self, platform_id: u16, encoding_id: u16, language_id: u16, name_id: u16) -> (r:
        Option<usize>)
        ensures
            ({
                let key = NameKey { platform_id, encoding_id, language_id, name_id };
                match r {
                    Some(j) => {
                        &&& j < self.string_data@.len()
                        &&& self.string_data@[j as int].key() == key
                        &&& forall|k: int| 0 <= k < j ==> self.string_data@[k].key() != key
                    },
                    None => forall|k: int|
                        0 <= k < self.string_data@.len() ==> self.string_data@[k].key() != key,
                }
            }),
    {
        let ghost key = NameKey { platform_id, encoding_id, language_id, name_id };
        let mut j: usize = 0;
        while j < self.string_data.len()
            invariant
                j <= self.string_data.len(),
                forall|k: int| 0 <= k < j ==> self.string_data@[k].key() != key,
            decreases self.string_data.len() - j,
        {
            let s = &self.string_data[j];
            if s.platform_id == platform_id && s.encoding_id == encoding_id && s.language_id
                == language_id && s.name_id == name_id {
                return Some(j);
            }
            j = j + 1;
        }
        None
    }

    /// The first record with this name id, together with an empty text: the strings of a
    /// table that was read are not decoded.
    pub fn get_name(&self, name_id: u16) -> (r: Option<(&NameRecord, String)>)
        ensures
            match first_named(self.name_records@, name_id, 0) {
                Some(i) => r is Some && *r->Some_0.0 == self.name_records@[i] && r->Some_0.1@.len()
                    == 0,
                None => r is None,
            },
    {
        match self.find_named(name_id) {
            Some(i) => Some((&self.name_records[i], String::new())),
            None => None,
        }
    }

    /// The first record of the font family name.
    pub fn get_font_name(&self) -> (r: Option<&NameRecord>)
        ensures
            match first_named(self.name_records@, 1, 0) {
                Some(i) => r == Some(&self.name_records@[i]),
                None => r is None,
            },
    {
        match self.find_named(NameRecord::FONT_FAMILY_NAME) {
            Some(i) => Some(&self.name_records[i]),
            None => None,
        }
    }

    /// The first record of the full font name.
    pub fn get_full_name(&self) -> (r: Option<&NameRecord>)
        ensures
            match first_named(self.name_records@, 4, 0) {
                Some(i) => r == Some(&self.name_records@[i]),
                None => r is None,
            },
    {
        match self.find_named(NameRecord::FULL_FONT_NAME) {
            Some(i) => Some(&self.name_records[i]),
            None => None,
        }
    }

    /// The first record of the PostScript name.
    pub fn get_postscript_name(&self) -> (r: Option<&NameRecord>)
        ensures
            match first_named(self.name_records@, 6, 0) {
                Some(i) => r == Some(&self.name_records@[i]),
                None => r is None,
            },
    {
        match self.find_named(NameRecord::POSTSCRIPT_NAME) {
            Some(i) => Some(&self.name_records[i]),
            None => None,
        }
    }

    /// This table is `before` with `name` filed under `key`: the string, encoded as UTF-16
    /// big-endian, replaces the one that counted so far, the records under the key give way
    /// to one new record at the end, and the count follows.
    pub open spec fn renamed(self, before: NameTable, name: Seq<char>, key: NameKey) -> bool {
        let text = utf16_be(name, name.len() as int);
        let kept = without_key(before.name_records@, key, before.name_records@.len() as int);
        &&& self.format == before.format
        &&& self.string_offset == before.string_offset
        &&& self.name_records@ == kept.push(
            NameRecord {
                platform_id: key.platform_id,
                encoding_id: key.encoding_id,
                language_id: key.language_id,
                name_id: key.name_id,
                length: (text.len() % 0x1_0000) as u16,
                offset: 0,
            },
        )
        &&& self.count == self.name_records@.len() % 0x1_0000
        &&& string_for(self.string_data@, key, 0) == Some(text)
        &&& forall|other: NameKey|
            other != key ==> #[trigger] string_for(self.string_data@, other, 0) == string_for(
                before.string_data@,
                other,
                0,
            )
    }

    /// Files `name`, encoded as UTF-16 big-endian, under the four ids: the string replaces the
    /// one that counted so far, the records under that key give way to one new record at the
    /// end, and the count follows. The record's length and the count are kept modulo 2^16.
    #[verifier::loop_isolation(false)]
    pub fn set_name(
        &mut self,
        name: &str,
        platform_id: u16,
        encoding_id: u16,
        language_id: u16,
        name_id: u16,
    )
        ensures
            final(self).renamed(
                *old(self),
                name@,
                (NameKey { platform_id, encoding_id, language_id, name_id }),
            ),
    {
        let ghost key = NameKey { platform_id, encoding_id, language_id, name_id };
        let name_data = encode_utf16_be(name);
        let length: u16 = (name_data.len() % 0x1_0000) as u16;
        let ghost text = name_data@;
        let ghost old_strings = self.string_data@;

        // File the string: in place of the first one under the key, or at the end.
        let place = self.find_string(platform_id, encoding_id, language_id, name_id);
        let j: usize = match place {
            Some(j) => j,
            None => self.string_data.len(),
        };
        let found = place.is_some();
        let entry = NameString { platform_id, encoding_id, language_id, name_id, data: name_data };
        if found {
            self.string_data.set(j, entry);
        } else {
            self.string_data.push(entry);
        }
        proof {
            let new_strings = self.string_data@;
            assert forall|other: NameKey| true implies #[trigger] string_for(new_strings, other, 0)
                == if other == key {
                Some(text)
            } else {
                string_for(old_strings, other, 0)
            } by {
                lemma_string_for_after_set(old_strings, new_strings, key, text, j as int, other, 0);
            }
        }

        // Drop the records under the key and add the new one.
        let mut kept: Vec<NameRecord> = Vec::new();
        let mut i: usize = 0;
        while i < self.name_records.len()
            invariant
                i <= self.name_records.len(),
                self.name_records@ == old(self).name_records@,
                kept@ == without_key(old(self).name_records@, key, i as int),
            decreases self.name_records.len() - i,
        {
            let r = self.name_records[i];
            if !(r.platform_id == platform_id && r.encoding_id == encoding_id && r.language_id
                == language_id && r.name_id == name_id) {
                kept.push(r);
            }
            i = i + 1;
        }
        kept.push(NameRecord { platform_id, encoding_id, language_id, name_id, length, offset: 0 });
        self.count = (kept.len() % 0x1_0000) as u16;
        self.name_records = kept;
    }
}

/// What a lookup finds after the string at `at` was replaced, or one was added at the end
/// because none was filed under `key`.
proof fn lemma_string_for_after_set(
    old_strings: Seq<NameString>,
    new_strings: Seq<NameString>,
    key: NameKey,
    text: Seq<u8>,
    at: int,
    other: NameKey,
    from: int,
)
    requires
        0 <= from,
        0 <= at <= old_strings.len(),
        forall|k: int| 0 <= k < at ==> old_strings[k].key() != key,
        at < old_strings.len() ==> old_strings[at].key() == key && new_strings.len()
            == old_strings.len(),
        at == old_strings.len() ==> new_strings.len() == old_strings.len() + 1,
        new_strings[at].key() == key,
        new_strings[at].data@ == text,
        forall|k: int| 0 <= k < old_strings.len() && k != at ==> new_strings[k] == old_strings[k],
    ensures
        from <= at ==> string_for(new_strings, other, from) == if other == key {
            Some(text)
        } else {
            string_for(old_strings, other, from)
        },
        from > at ==> string_for(new_strings, other, from) == string_for(old_strings, other, from),
    decreases new_strings.len() - from,
{
    if from < new_strings.len() {
        lemma_string_for_after_set(old_strings, new_strings, key, text, at, other, from + 1);
    }
}

impl TtfTable for NameTable {
    /// Reads the header and the records; the strings themselves are left alone. Fails with
    /// an end-of-data error, leaving the cursor where it was, where the bytes run out.
    #[verifier::loop_isolation(false)]
    fn from_reader(reader: &mut FontReader, length: u32) -> (r: Result<Self, TtfError>)
        ensures
            final(reader)@.data == old(reader)@.data,
            r is Ok <==> old(reader)@.has(6) && old(reader)@.has(
                6 + 12 * be_u16(old(reader)@.data, old(reader)@.pos + 2),
            ),
            r matches Ok(t) ==> t.decodes(old(reader)@.data, old(reader)@.pos) && final(reader)@
                == old(reader)@.advance(6 + 12 * t.count),
            r matches Err(e) ==> final(reader)@ == old(reader)@ && e.is_truncated(),
    {
        if reader.remaining() < 6 {
            return Err(truncated());
        }
        let format = reader.peek_u16(0);
        let count = reader.peek_u16(2);
        let string_offset = reader.peek_u16(4);
        let total: usize = 6 + 12 * (count as usize);
        if reader.remaining() < total {
            return Err(truncated());
        }
        let ghost s = reader@.data;
        let ghost p = reader@.pos;
        let mut name_records: Vec<NameRecord> = Vec::with_capacity(count as usize);
        let mut i: usize = 0;
        while i < count as usize
            invariant
                i <= count,
                reader@ == old(reader)@,
                name_records@.len() == i,
                forall|k: int|
                    0 <= k < i ==> (#[trigger] name_records@[k]).decodes(s, p + 6 + 12 * k),
            decreases count - i,
        {
            let at: usize = 6 + 12 * i;
            name_records.push(
                NameRecord {
                    platform_id: reader.peek_u16(at),
                    encoding_id: reader.peek_u16(at + 2),
                    language_id: reader.peek_u16(at + 4),
                    name_id: reader.peek_u16(at + 6),
                    length: reader.peek_u16(at + 8),
                    offset: reader.peek_u16(at + 10),
                },
            );
            i = i + 1;
        }
        reader.advance_by(total);
        Ok(NameTable { format, count, string_offset, name_records, string_data: Vec::new() })
    }
}

/// Strings that lookups find alike take the same room.
proof fn lemma_storage_same(
    records: Seq<NameRecord>,
    first: Seq<NameString>,
    second: Seq<NameString>,
    n: int,
)
    requires
        forall|k: NameKey| #[trigger] string_for(first, k, 0) == string_for(second, k, 0),
    ensures
        storage_upto(records, first, n) == storage_upto(records, second, n),
    decreases n,
{
    if n > 0 {
        lemma_storage_same(records, first, second, n - 1);
        assert(string_for(first, records[n - 1].key(), 0) == string_for(
            second,
            records[n - 1].key(),
            0,
        ));
    }
}

/// Two tables that are read from the same bytes and get the same name under the same key
/// take the same room when written.
pub proof fn lemma_renamed_size(
    bytes: Seq<u8>,
    read: NameTable,
    table: NameTable,
    other_read: NameTable,
    other_table: NameTable,
    name: Seq<char>,
    key: NameKey,
)
    requires
        read.decodes(bytes, 0),
        other_read.decodes(bytes, 0),
        table.renamed(read, name, key),
        other_table.renamed(other_read, name, key),
    ensures
        table.name_records@ == other_table.name_records@,
        table.encoded_size() == other_table.encoded_size(),
{
    assert(read.name_records@ =~= other_read.name_records@) by {
        assert forall|i: int| 0 <= i < read.name_records@.len() implies read.name_records@[i]
            == other_read.name_records@[i] by {
            assert(read.name_records@[i].decodes(bytes, 0 + 6 + 12 * i));
            assert(other_read.name_records@[i].decodes(bytes, 0 + 6 + 12 * i));
        }
    }
    assert forall|k: NameKey| #[trigger]
        string_for(table.string_data@, k, 0) == string_for(other_table.string_data@, k, 0) by {
        if k != key {
            assert(string_for(table.string_data@, k, 0) == string_for(read.string_data@, k, 0));
            assert(string_for(other_table.string_data@, k, 0) == string_for(
                other_read.string_data@,
                k,
                0,
            ));
        }
    }
    lemma_storage_same(
        table.name_records@,
        table.string_data@,
        other_table.string_data@,
        table.name_records@.len() as int,
    );
}

/// The strings of fewer records take no more room than those of more.
proof fn lemma_storage_grows(records: Seq<NameRecord>, strings: Seq<NameString>, i: int, n: int)
    requires
        0 <= i <= n,
    ensures
        storage_upto(records, strings, i).len() <= storage_upto(records, strings, n).len(),
    decreases n - i,
{
    if i < n {
        lemma_storage_grows(records, strings, i, n - 1);
    }
}

/// A lookup finds the first string under the key.
proof fn lemma_string_for_first(strings: Seq<NameString>, key: NameKey, at: int, from: int)
    requires
        0 <= from <= at <= strings.len(),
        forall|k: int| 0 <= k < at ==> strings[k].key() != key,
        at < strings.len() ==> strings[at].key() == key,
    ensures
        string_for(strings, key, from) == if at < strings.len() {
            Some(strings[at].data@)
        } else {
            None
        },
    decreases at - from,
{
    if from < at {
        lemma_string_for_first(strings, key, at, from + 1);
    }
}

impl NameRecord {
    /// Appends the twelve bytes that encode the record.
    pub fn write(&self, writer: &mut FontWriter)
        ensures
            final(writer)@ == old(writer)@ + self.encoding(),
    {
        writer.write_u16(self.platform_id);
        writer.write_u16(self.encoding_id);
        writer.write_u16(self.language_id);
        writer.write_u16(self.name_id);
        writer.write_u16(self.length);
        writer.write_u16(self.offset);
        assert(writer@ =~= old(writer)@ + self.encoding());
    }
}

impl TtfTableWrite for NameTable {
    fn table_tag() -> (tag: [u8; 4])
        ensures
            tag == TAG_NAME,
    {
        TAG_NAME
    }

    /// Appends the table: the header, the records and then the strings. A record whose key
    /// has a string gets that string's length and its place, counted from the start of the
    /// table; a record without one is written as it stands. Fails with `InvalidSize`, writing
    /// nothing, where the table would outgrow the 16-bit offsets it is addressed with.
    #[verifier::loop_isolation(false)]
    fn write(&self, writer: &mut FontWriter) -> (r: Result<(), TtfError>)
        ensures
            self.encoded_size() <= 0xFFFF ==> r is Ok && final(writer)@ == old(writer)@
                + self.encoding(),
            self.encoded_size() > 0xFFFF ==> r is Err && r->Err_0 is InvalidSize && final(writer)@
                == old(writer)@,
    {
        let n = self.name_records.len();
        let ghost records = self.name_records@;
        let ghost strings = self.string_data@;
        if n > 5460 {
            return Err(TtfError::InvalidSize { expected: 0xFFFF, actual: n as u64 });
        }
        let header_size: usize = 6 + 12 * n;
        let mut placed_records: Vec<NameRecord> = Vec::with_capacity(n);
        let mut storage = FontWriter::new();
        let mut i: usize = 0;
        while i < n
            invariant
                i <= n,
                storage@ == storage_upto(records, strings, i as int),
                header_size + storage@.len() <= 0xFFFF,
                placed_records@.len() == i,
                forall|k: int| 0 <= k < i ==> placed_records@[k] == placed(records, strings, k),
            decreases n - i,
        {
            let record = self.name_records[i];
            let found = self.find_string(
                record.platform_id,
                record.encoding_id,
                record.language_id,
                record.name_id,
            );
            proof {
                let at = match found {
                    Some(j) => j as int,
                    None => strings.len() as int,
                };
                lemma_string_for_first(strings, record.key(), at, 0);
            }
            match found {
                Some(j) => {
                    let data = &self.string_data[j].data;
                    if data.len() > 0xFFFF || header_size + storage.position() + data.len()
                        > 0xFFFF {
                        proof {
                            lemma_storage_grows(records, strings, i + 1, n as int);
                        }
                        return Err(
                            TtfError::InvalidSize { expected: 0xFFFF, actual: data.len() as u64 },
                        );
                    }
                    placed_records.push(
                        NameRecord {
                            platform_id: record.platform_id,
                            encoding_id: record.encoding_id,
                            language_id: record.language_id,
                            name_id: record.name_id,
                            length: data.len() as u16,
                            offset: (header_size + storage.position()) as u16,
                        },
                    );
                    storage.write_bytes(data.as_slice());
                },
                None => {
                    placed_records.push(record);
                },
            }
            i = i + 1;
        }
        writer.write_u16(self.format);
        writer.write_u16(n as u16);
        writer.write_u16(header_size as u16);
        let ghost head = writer@;
        assert(head =~= old(writer)@ + (u16_bytes(self.format as int) + u16_bytes(n as int)
            + u16_bytes(6 + 12 * n)));
        let mut k: usize = 0;
        assert(writer@ =~= head + placed_bytes(records, strings, 0));
        while k < n
            invariant
                k <= n,
                writer@ == head + placed_bytes(records, strings, k as int),
            decreases n - k,
        {
            placed_records[k].write(writer);
            k = k + 1;
            assert(writer@ =~= head + placed_bytes(records, strings, k as int));
        }
        let strings_bytes = storage.into_inner();
        writer.write_bytes(strings_bytes.as_slice());
        assert(writer@ =~= old(writer)@ + self.encoding());
        Ok(())
    }
}

} // verus!
