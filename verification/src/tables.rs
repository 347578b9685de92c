//! The table directory entry and the traits that table codecs implement.

pub mod base;
pub mod bitmaps;
pub mod cmap;
pub mod cmap_parse;
pub mod codec_laws;
pub mod colr;
pub mod cpal;
pub mod flatten;
pub mod geometry;
pub mod glyf;
pub mod glyf_composite;
pub mod glyf_simple;
pub mod glyf_table;
pub mod gpos;
pub mod gvar;
pub mod head;
pub mod hhea;
pub mod hmtx;
pub mod hvar;
pub mod kern;
pub mod loca;
pub mod maxp;
pub mod name;
pub mod outline_ops;
pub mod os2;
pub mod post;
pub mod programs;
pub mod simplify;
pub mod variations;

use crate::error::{lift, truncated, TtfError};
use crate::stream::{FontReader, FontWriter};
use crate::wire::{be_u32, u32_bytes};
use vstd::prelude::*;
use vstd::utf8::{decode_utf8, valid_utf8};

verus! {

/// One entry of the table directory: where a table lies in the file and what it sums to.
#[derive(Debug, Clone, Copy)]
pub struct TableRecord {
    pub table_tag: [u8; 4],
    pub checksum: u32,
    pub offset: u32,
    pub length: u32,
}

/// The tag `head`.
pub const TAG_HEAD: [u8; 4] = [0x68, 0x65, 0x61, 0x64];

/// The tag `maxp`.
pub const TAG_MAXP: [u8; 4] = [0x6d, 0x61, 0x78, 0x70];

/// The tag `cmap`.
pub const TAG_CMAP: [u8; 4] = [0x63, 0x6d, 0x61, 0x70];

/// The tag `name`.
pub const TAG_NAME: [u8; 4] = [0x6e, 0x61, 0x6d, 0x65];

/// The tag `hhea`.
pub const TAG_HHEA: [u8; 4] = [0x68, 0x68, 0x65, 0x61];

/// The tag `hmtx`.
pub const TAG_HMTX: [u8; 4] = [0x68, 0x6d, 0x74, 0x78];

/// The tag `glyf`.
pub const TAG_GLYF: [u8; 4] = [0x67, 0x6c, 0x79, 0x66];

/// The tag `loca`.
pub const TAG_LOCA: [u8; 4] = [0x6c, 0x6f, 0x63, 0x61];

/// The tag `post`.
pub const TAG_POST: [u8; 4] = [0x70, 0x6f, 0x73, 0x74];

/// The tag `OS/2`.
pub const TAG_OS2: [u8; 4] = [0x4f, 0x53, 0x2f, 0x32];

/// The text that `String::from_utf8_lossy` of std makes of `bytes`.
pub uninterp spec fn lossy_text(bytes: Seq<u8>) -> Seq<char>;

/// `String::from_utf8_lossy` of std: the text that `bytes` encode, with each invalid sequence
/// replaced by U+FFFD; for valid UTF-8 that is the decoded text itself.
#[verifier::external_body]
pub(crate) fn text_of_utf8_lossy(bytes: &[u8]) -> (text: String)
    ensures
        text@ == lossy_text(bytes@),
        valid_utf8(bytes@) ==> text@ == decode_utf8(bytes@),
{
    String::from_utf8_lossy(bytes).into_owned()
}

/// Whether two tags are the same four bytes.
pub fn same_tag(a: &[u8; 4], b: &[u8; 4]) -> (eq: bool)
    ensures
        eq == (a@ == b@),
{
    let eq = a[0] == b[0] && a[1] == b[1] && a[2] == b[2] && a[3] == b[3];
    assert(eq == (a@ =~= b@));
    eq
}

impl TableRecord {
    /// The record is what the sixteen bytes at `s[p..]` encode.
    pub open spec fn decodes(self, s: Seq<u8>, p: int) -> bool {
        &&& self.table_tag@ == s.subrange(p, p + 4)
        &&& self.checksum == be_u32(s, p + 4)
        &&& self.offset == be_u32(s, p + 8)
        &&& self.length == be_u32(s, p + 12)
    }

    /// The sixteen bytes that encode the record.
    pub open spec fn encoding(self) -> Seq<u8> {
        self.table_tag@ + u32_bytes(self.checksum as int) + u32_bytes(self.offset as int)
            + u32_bytes(self.length as int)
    }

    /// The table lies wholly inside a buffer of `len` bytes.
    pub open spec fn fits(self, len: nat) -> bool {
        self.offset + self.length <= len
    }

    /// The bytes of the table inside `data`, if it lies wholly inside.
    pub open spec fn bytes_in(self, data: Seq<u8>) -> Option<Seq<u8>> {
        if self.fits(data.len()) {
            Some(data.subrange(self.offset as int, self.offset + self.length))
        } else {
            None
        }
    }

    /// The tag as text; bytes that are not UTF-8 show as U+FFFD.
    pub fn tag_to_string(&self) -> (text: String)
        ensures
            text@ == lossy_text(self.table_tag@),
            valid_utf8(self.table_tag@) ==> text@ == decode_utf8(self.table_tag@),
    {
        text_of_utf8_lossy(self.table_tag.as_slice())
    }

    /// Reads one directory entry. With fewer than sixteen bytes left nothing is consumed.
    pub fn from_reader(reader: &mut FontReader) -> (r: Result<TableRecord, TtfError>)
        ensures
            old(reader)@.has(16) ==> r is Ok && r->Ok_0.decodes(
                old(reader)@.data,
                old(reader)@.pos,
            ) && final(reader)@ == old(reader)@.advance(16),
            !old(reader)@.has(16) ==> r is Err && r->Err_0.is_truncated() && final(reader)@ == old(reader)@,
    {
        if reader.remaining() < 16 {
            return Err(truncated());
        }
        let table_tag = lift(reader.read_tag())?;
        let checksum = lift(reader.read_u32())?;
        let offset = lift(reader.read_u32())?;
        let length = lift(reader.read_u32())?;
        Ok(TableRecord { table_tag, checksum, offset, length })
    }

    /// Appends the sixteen bytes that encode the record.
    pub fn write(&self, writer: &mut FontWriter)
        ensures
            final(writer)@ == old(writer)@ + self.encoding(),
    {
        writer.write_tag(&self.table_tag);
        writer.write_u32(self.checksum);
        writer.write_u32(self.offset);
        writer.write_u32(self.length);
        assert(writer@ =~= old(writer)@ + self.encoding());
    }

    pub fn new(tag: [u8; 4], offset: u32, length: u32) -> (rec: TableRecord)
        ensures
            rec.table_tag == tag,
            rec.checksum == 0,
            rec.offset == offset,
            rec.length == length,
    {
        TableRecord { table_tag: tag, checksum: 0, offset, length }
    }
}

/// A table that can be decoded from the bytes at a cursor.
pub trait TtfTable: Sized {
    /// Decodes the table that starts at the cursor and is `length` bytes long.
    fn from_reader(reader: &mut FontReader, length: u32) -> Result<Self, TtfError>;
}

/// A table that can be encoded.
pub trait TtfTableWrite: Sized {
    /// Appends the table's bytes.
    fn write(&self, writer: &mut FontWriter) -> Result<(), TtfError>;

    /// The tag under which the table is filed in the directory.
    fn table_tag() -> [u8; 4];
}

} // verus!
