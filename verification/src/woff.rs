//! The WOFF wrappers around a font file: writing them, without compression, and telling
//! them apart when read.

use crate::error::{parse_error, truncated, TtfError};
use crate::font::Font;
use crate::layout::{bodies_upto, layout_fits, parts_view};
use crate::stream::FontWriter;
use crate::tables::TableRecord;
use crate::wire::{be_u16, be_u32, u16_bytes, u32_bytes};
use vstd::prelude::*;

verus! {

/// The signature of a WOFF file: the bytes 'wOFF'.
pub const WOFF_MAGIC: u32 = 0x774F4646;

/// The signature of a WOFF2 file: the bytes 'wOF2'.
pub const WOFF2_MAGIC: u32 = 0x774F4632;

/// The header of a WOFF file.
#[derive(Debug, Clone, Copy)]
pub struct WoffHeader {
    pub signature: u32,
    pub flavor: u32,
    pub length: u32,
    pub num_tables: u16,
    pub reserved: u16,
    pub total_sfnt_size: u32,
    pub major_version: u16,
    pub minor_version: u16,
    pub meta_offset: u32,
    pub meta_length: u32,
    pub private_offset: u32,
    pub private_length: u32,
}

/// One entry of the table directory of a WOFF file.
#[derive(Debug, Clone, Copy)]
pub struct WoffTableEntry {
    pub tag: [u8; 4],
    pub offset: u32,
    pub comp_length: u32,
    pub orig_length: u32,
    pub orig_checksum: u32,
}

impl WoffHeader {
    /// The 40 bytes that encode the header.
    pub open spec fn encoding(self) -> Seq<u8> {
        u32_bytes(self.signature as int) + u32_bytes(self.flavor as int) + u32_bytes(
            self.length as int,
        ) + u16_bytes(self.num_tables as int) + u16_bytes(self.reserved as int) + u32_bytes(
            self.total_sfnt_size as int,
        ) + u16_bytes(self.major_version as int) + u16_bytes(self.minor_version as int) + u32_bytes(
            self.meta_offset as int,
        ) + u32_bytes(self.meta_length as int) + u32_bytes(self.private_offset as int) + u32_bytes(
            self.private_length as int,
        )
    }

    /// Appends the 40 bytes that encode the header.
    pub fn write(&self, writer: &mut FontWriter)
        ensures
            final(writer)@ == old(writer)@ + self.encoding(),
    {
        writer.write_u32(self.signature);
        writer.write_u32(self.flavor);
        writer.write_u32(self.length);
        writer.write_u16(self.num_tables);
        writer.write_u16(self.reserved);
        writer.write_u32(self.total_sfnt_size);
        writer.write_u16(self.major_version);
        writer.write_u16(self.minor_version);
        writer.write_u32(self.meta_offset);
        writer.write_u32(self.meta_length);
        writer.write_u32(self.private_offset);
        writer.write_u32(self.private_length);
        assert(writer@ =~= old(writer)@ + self.encoding());
    }
}

impl WoffTableEntry {
    /// The 20 bytes that encode the entry.
    pub open spec fn encoding(self) -> Seq<u8> {
        self.tag@ + u32_bytes(self.offset as int) + u32_bytes(self.comp_length as int) + u32_bytes(
            self.orig_length as int,
        ) + u32_bytes(self.orig_checksum as int)
    }

    /// Appends the 20 bytes that encode the entry.
    pub fn write(&self, writer: &mut FontWriter)
        ensures
            final(writer)@ == old(writer)@ + self.encoding(),
    {
        writer.write_tag(&self.tag);
        writer.write_u32(self.offset);
        writer.write_u32(self.comp_length);
        writer.write_u32(self.orig_length);
        writer.write_u32(self.orig_checksum);
        assert(writer@ =~= old(writer)@ + self.encoding());
    }
}

/// A length brought up to a multiple of four.
pub open spec fn padded_length(n: int) -> int {
    if n % 4 == 0 {
        n
    } else {
        n + 4 - n % 4
    }
}

/// The offset that the WOFF directory gives table `i`: 44 bytes for the header and 20 for
/// each directory entry, and then the declared lengths of the tables before it, each brought
/// up to a multiple of four.
pub open spec fn woff_offset(records: Seq<TableRecord>, i: int) -> int
    decreases i,
{
    if i <= 0 {
        44 + 20 * (records.len() as int)
    } else {
        woff_offset(records, i - 1) + padded_length(records[i - 1].length as int)
    }
}

/// Entry `i` of the WOFF directory: the table as the font's directory describes it, stored
/// without compression.
pub open spec fn woff_entry(records: Seq<TableRecord>, i: int) -> WoffTableEntry {
    WoffTableEntry {
        tag: records[i].table_tag,
        offset: woff_offset(records, i) as u32,
        comp_length: records[i].length,
        orig_length: records[i].length,
        orig_checksum: records[i].checksum,
    }
}

/// The encodings of the first `n` entries of the WOFF directory.
pub open spec fn woff_directory(records: Seq<TableRecord>, n: int) -> Seq<u8>
    decreases n,
{
    if n <= 0 {
        Seq::empty()
    } else {
        woff_directory(records, n - 1) + woff_entry(records, n - 1).encoding()
    }
}

/// The offsets of the tables behind the first `i` grow.
proof fn lemma_woff_offset_grows(records: Seq<TableRecord>, i: int, k: int)
    requires
        0 <= i <= k,
    ensures
        woff_offset(records, i) <= woff_offset(records, k),
    decreases k - i,
{
    if i < k {
        lemma_woff_offset_grows(records, i, k - 1);
    }
}

/// The offsets of the WOFF2 directory grow.
proof fn lemma_woff2_offset_grows(records: Seq<TableRecord>, i: int, k: int)
    requires
        0 <= i <= k,
    ensures
        woff2_offset(records, i) <= woff2_offset(records, k),
    decreases k - i,
{
    if i < k {
        lemma_woff2_offset_grows(records, i, k - 1);
    }
}

impl Font {
    /// The header of the WOFF file of this font, whose rebuilt file has `total` bytes.
    pub open spec fn woff_header(self, total: u32) -> WoffHeader {
        WoffHeader {
            signature: WOFF_MAGIC,
            flavor: self.sfnt_version,
            length: 0,
            num_tables: self.num_tables,
            reserved: 0,
            total_sfnt_size: total,
            major_version: 1,
            minor_version: 0,
            meta_offset: 0,
            meta_length: 0,
            private_offset: 0,
            private_length: 0,
        }
    }

    /// The font as a WOFF file with uncompressed tables: the header, a directory entry for
    /// each table of the font, and the bytes of every table that lies inside the file, each
    /// padded to a multiple of four.
    ///
    /// Fails as [`Font::to_bytes`] does, and with `InvalidSize` where an offset of the
    /// directory does not fit in 32 bits.
    pub fn to_woff(&self) -> (r: Result<Vec<u8>, TtfError>)
        ensures
            r is Ok <==> layout_fits(self.table_records@, self.spans()) && self.rebuilt().len()
                <= u32::MAX && woff_offset(self.table_records@, self.table_records@.len() as int)
                <= u32::MAX,
            r matches Ok(bytes) ==> {
                let n = self.table_records@.len() as int;
                &&& self.rebuilt().len() <= u32::MAX
                &&& woff_offset(self.table_records@, n) <= u32::MAX
                &&& bytes@ == self.woff_header(self.rebuilt().len() as u32).encoding()
                    + woff_directory(self.table_records@, n) + bodies_upto(self.spans(), n)
            },
            r matches Err(e) ==> e is InvalidSize,
    {
        let rebuilt = self.to_bytes()?;
        if rebuilt.len() > 0xFFFF_FFFF {
            return Err(TtfError::InvalidSize { expected: 0xFFFF_FFFF, actual: rebuilt.len() as u64 });
        }
        let total = rebuilt.len() as u32;
        let header = WoffHeader {
            signature: WOFF_MAGIC,
            flavor: self.sfnt_version,
            length: 0,
            num_tables: self.num_tables,
            reserved: 0,
            total_sfnt_size: total,
            major_version: 1,
            minor_version: 0,
            meta_offset: 0,
            meta_length: 0,
            private_offset: 0,
            private_length: 0,
        };
        let mut writer = FontWriter::new();
        header.write(&mut writer);
        write_woff_directory(&self.table_records, &mut writer)?;
        let parts = self.collect_spans();
        write_bodies(&parts, &mut writer);
        Ok(writer.into_inner())
    }

    /// The font wrapped as a WOFF2 file would be, but without the compression that makes
    /// one: the header, a directory entry for each table of the font, and the bytes of every
    /// table that lies inside the file.
    ///
    /// Fails with `InvalidSize` where an offset of the directory does not fit in 32 bits.
    pub fn to_woff2(&self) -> (r: Result<Vec<u8>, TtfError>)
        ensures
            r is Ok <==> woff2_offset(self.table_records@, self.table_records@.len() as int)
                <= u32::MAX,
            r matches Ok(bytes) ==> {
                let n = self.table_records@.len() as int;
                &&& woff2_offset(self.table_records@, n) <= u32::MAX
                &&& bytes@ == woff2_header(self.sfnt_version, self.num_tables) + woff2_directory(
                    self.table_records@,
                    n,
                ) + plain_bodies_upto(self.spans(), n)
            },
            r matches Err(e) ==> e is InvalidSize,
    {
        let mut writer = FontWriter::new();
        writer.write_u32(WOFF2_MAGIC);
        writer.write_u32(self.sfnt_version);
        writer.write_u32(0);
        writer.write_u16(self.num_tables);
        writer.write_u16(0);
        writer.write_u32(0);
        writer.write_u32(0);
        writer.write_u16(1);
        writer.write_u16(0);
        writer.write_u32(0);
        writer.write_u32(0);
        writer.write_u32(0);
        writer.write_u32(0);
        writer.write_u32(0);
        assert(writer@ =~= woff2_header(self.sfnt_version, self.num_tables));
        write_woff2_directory(&self.table_records, &mut writer)?;
        let parts = self.collect_spans();
        write_plain_bodies(&parts, &mut writer);
        Ok(writer.into_inner())
    }

    /// Tells whether bytes are a WOFF file and refuses them either way: unwrapping is not
    /// provided. Fails with an end-of-data error where the header or the directory is cut
    /// short, with `InvalidSignature` where the signature is not 'wOFF', and with a parse
    /// error for what is a WOFF file as far as that goes.
    pub fn from_woff_bytes(data: &[u8]) -> (r: Result<Font, TtfError>)
        ensures
            r is Err,
            r matches Err(e) ==> if data@.len() < 4 {
                e.is_truncated()
            } else if be_u32(data@, 0) != WOFF_MAGIC {
                e matches TtfError::InvalidSignature { expected, actual } && expected == WOFF_MAGIC
                    && actual == be_u32(data@, 0)
            } else if data@.len() < 24 || data@.len() < 24 + 20 * be_u16(data@, 12) {
                e.is_truncated()
            } else {
                e.is_parse_error()
            },
    {
        if data.len() < 4 {
            return Err(truncated());
        }
        let signature = u32_of(data, 0);
        if signature != WOFF_MAGIC {
            return Err(TtfError::InvalidSignature { expected: WOFF_MAGIC, actual: signature });
        }
        if data.len() < 24 {
            return Err(truncated());
        }
        let num_tables: usize = (data[12] as usize) * 0x100 + data[13] as usize;
        if data.len() - 24 < 20 * num_tables {
            return Err(truncated());
        }
        Err(parse_error("WOFF decompression not yet fully implemented"))
    }

    /// Tells whether bytes are a WOFF2 file and refuses them either way: unwrapping is not
    /// provided. Fails with an end-of-data error for fewer than four bytes, with
    /// `InvalidSignature` where the signature is not 'wOF2', and with a parse error for what
    /// starts as a WOFF2 file.
    pub fn from_woff2_bytes(data: &[u8]) -> (r: Result<Font, TtfError>)
        ensures
            r is Err,
            r matches Err(e) ==> if data@.len() < 4 {
                e.is_truncated()
            } else if be_u32(data@, 0) != WOFF2_MAGIC {
                e matches TtfError::InvalidSignature { expected, actual } && expected == WOFF2_MAGIC
                    && actual == be_u32(data@, 0)
            } else {
                e.is_parse_error()
            },
    {
        if data.len() < 4 {
            return Err(truncated());
        }
        let signature = u32_of(data, 0);
        if signature != WOFF2_MAGIC {
            return Err(TtfError::InvalidSignature { expected: WOFF2_MAGIC, actual: signature });
        }
        Err(parse_error("WOFF2 decompression not yet implemented"))
    }
}

/// The 48 bytes of the header of the uncompressed WOFF2 wrapper: the signature, the flavor,
/// the number of tables, version 1.0, and zero for every length and offset.
pub open spec fn woff2_header(flavor: u32, num_tables: u16) -> Seq<u8> {
    u32_bytes(WOFF2_MAGIC as int) + u32_bytes(flavor as int) + u32_bytes(0) + u16_bytes(
        num_tables as int,
    ) + u16_bytes(0) + u32_bytes(0) + u32_bytes(0) + u16_bytes(1) + u16_bytes(0) + u32_bytes(0)
        + u32_bytes(0) + u32_bytes(0) + u32_bytes(0) + u32_bytes(0)
}

/// The offset that the WOFF2 directory gives table `i`: behind the header and twenty bytes
/// for each entry, and behind the declared lengths of the tables before it.
pub open spec fn woff2_offset(records: Seq<TableRecord>, i: int) -> int
    decreases i,
{
    if i <= 0 {
        48 + 20 * (records.len() as int)
    } else {
        woff2_offset(records, i - 1) + records[i - 1].length
    }
}

/// The encoding of entry `i` of the WOFF2 directory: the tag, the offset, two zeros for the
/// transform, the length, and a zero.
pub open spec fn woff2_entry(records: Seq<TableRecord>, i: int) -> Seq<u8> {
    records[i].table_tag@ + u32_bytes(woff2_offset(records, i)) + u32_bytes(0) + u32_bytes(0)
        + u32_bytes(records[i].length as int) + u32_bytes(0)
}

/// The encodings of the first `n` entries of the WOFF2 directory.
pub open spec fn woff2_directory(records: Seq<TableRecord>, n: int) -> Seq<u8>
    decreases n,
{
    if n <= 0 {
        Seq::empty()
    } else {
        woff2_directory(records, n - 1) + woff2_entry(records, n - 1)
    }
}

/// The bytes of the first `n` parts that are there, back to back.
pub open spec fn plain_bodies_upto(parts: Seq<Option<Seq<u8>>>, n: int) -> Seq<u8>
    decreases n,
{
    if n <= 0 {
        Seq::empty()
    } else {
        match parts[n - 1] {
            Some(b) => plain_bodies_upto(parts, n - 1) + b,
            None => plain_bodies_upto(parts, n - 1),
        }
    }
}

/// Appends the WOFF2 directory of the records.
#[verifier::loop_isolation(false)]
fn write_woff2_directory(records: &Vec<TableRecord>, writer: &mut FontWriter) -> (r: Result<
    (),
    TtfError,
>)
    ensures
        r is Ok <==> woff2_offset(records@, records@.len() as int) <= u32::MAX,
        r is Ok ==> final(writer)@ == old(writer)@ + woff2_directory(
            records@,
            records@.len() as int,
        ),
        r matches Err(e) ==> e is InvalidSize,
{
    let n = records.len();
    if n > 214_748_362 {
        proof {
            lemma_woff2_offset_grows(records@, 0, n as int);
        }
        return Err(TtfError::InvalidSize { expected: 0xFFFF_FFFF, actual: n as u64 });
    }
    let mut offset: u64 = 48 + 20 * (n as u64);
    let mut i: usize = 0;
    assert(writer@ =~= old(writer)@ + woff2_directory(records@, 0));
    while i < n
        invariant
            i <= n,
            offset == woff2_offset(records@, i as int),
            offset <= u32::MAX,
            writer@ == old(writer)@ + woff2_directory(records@, i as int),
        decreases n - i,
    {
        let record = records[i];
        let ghost before = writer@;
        writer.write_tag(&record.table_tag);
        writer.write_u32(offset as u32);
        writer.write_u32(0);
        writer.write_u32(0);
        writer.write_u32(record.length);
        writer.write_u32(0);
        assert(writer@ =~= before + woff2_entry(records@, i as int));
        if offset + record.length as u64 > 0xFFFF_FFFF {
            proof {
                lemma_woff2_offset_grows(records@, i as int + 1, n as int);
            }
            return Err(
                TtfError::InvalidSize {
                    expected: 0xFFFF_FFFF,
                    actual: offset + record.length as u64,
                },
            );
        }
        offset = offset + record.length as u64;
        i = i + 1;
    }
    Ok(())
}

/// Appends the bytes of each part that is there.
#[verifier::loop_isolation(false)]
fn write_plain_bodies(parts: &Vec<Option<Vec<u8>>>, writer: &mut FontWriter)
    ensures
        final(writer)@ == old(writer)@ + plain_bodies_upto(
            parts_view(parts@),
            parts@.len() as int,
        ),
{
    let ghost pv = parts_view(parts@);
    let mut k: usize = 0;
    assert(writer@ =~= old(writer)@ + plain_bodies_upto(pv, 0));
    while k < parts.len()
        invariant
            k <= parts.len(),
            writer@ == old(writer)@ + plain_bodies_upto(pv, k as int),
        decreases parts.len() - k,
    {
        assert(pv[k as int] == match parts@[k as int] {
            Some(v) => Some(v@),
            None => None,
        });
        match &parts[k] {
            Some(body) => {
                writer.write_bytes(body.as_slice());
            },
            None => {},
        }
        k = k + 1;
        assert(writer@ =~= old(writer)@ + plain_bodies_upto(pv, k as int));
    }
}

/// Appends the WOFF directory of the records. Fails with `InvalidSize`, having written part
/// of it, where an offset does not fit in 32 bits.
#[verifier::loop_isolation(false)]
fn write_woff_directory(records: &Vec<TableRecord>, writer: &mut FontWriter) -> (r: Result<
    (),
    TtfError,
>)
    ensures
        r is Ok <==> woff_offset(records@, records@.len() as int) <= u32::MAX,
        r is Ok ==> final(writer)@ == old(writer)@ + woff_directory(
            records@,
            records@.len() as int,
        ),
        r matches Err(e) ==> e is InvalidSize,
{
    let n = records.len();
    if n > 214_748_362 {
        proof {
            lemma_woff_offset_grows(records@, 0, n as int);
        }
        return Err(TtfError::InvalidSize { expected: 0xFFFF_FFFF, actual: n as u64 });
    }
    let mut offset: u64 = 44 + 20 * (n as u64);
    let mut i: usize = 0;
    assert(writer@ =~= old(writer)@ + woff_directory(records@, 0));
    while i < n
        invariant
            i <= n,
            offset == woff_offset(records@, i as int),
            offset <= u32::MAX,
            writer@ == old(writer)@ + woff_directory(records@, i as int),
        decreases n - i,
    {
        let record = records[i];
        let entry = WoffTableEntry {
            tag: record.table_tag,
            offset: offset as u32,
            comp_length: record.length,
            orig_length: record.length,
            orig_checksum: record.checksum,
        };
        entry.write(writer);
        let rest = record.length % 4;
        let padded: u64 = if rest == 0 {
            record.length as u64
        } else {
            record.length as u64 + 4 - rest as u64
        };
        if offset + padded > 0xFFFF_FFFF {
            proof {
                lemma_woff_offset_grows(records@, i as int + 1, n as int);
            }
            return Err(TtfError::InvalidSize { expected: 0xFFFF_FFFF, actual: offset + padded });
        }
        offset = offset + padded;
        i = i + 1;
        assert(writer@ =~= old(writer)@ + woff_directory(records@, i as int));
    }
    Ok(())
}

/// Appends the bytes of each part that is there, each padded to a multiple of four.
#[verifier::loop_isolation(false)]
fn write_bodies(parts: &Vec<Option<Vec<u8>>>, writer: &mut FontWriter)
    ensures
        final(writer)@ == old(writer)@ + bodies_upto(parts_view(parts@), parts@.len() as int),
{
    let ghost pv = parts_view(parts@);
    let mut bodies = FontWriter::new();
    let mut k: usize = 0;
    while k < parts.len()
        invariant
            k <= parts.len(),
            bodies@ == bodies_upto(pv, k as int),
            bodies@.len() % 4 == 0,
        decreases parts.len() - k,
    {
        assert(pv[k as int] == match parts@[k as int] {
            Some(v) => Some(v@),
            None => None,
        });
        match &parts[k] {
            Some(body) => {
                bodies.write_bytes(body.as_slice());
                bodies.write_padding(4);
                assert(bodies@ =~= bodies_upto(pv, k as int) + crate::layout::padded(body@));
            },
            None => {
                assert(bodies@ =~= bodies_upto(pv, k as int) + crate::layout::body_of(pv[k as int]));
            },
        }
        k = k + 1;
    }
    let all = bodies.into_inner();
    writer.write_bytes(all.as_slice());
}

/// The big-endian 32-bit value at `data[at..at + 4]`.
fn u32_of(data: &[u8], at: usize) -> (v: u32)
    requires
        at + 4 <= data@.len(),
    ensures
        v == be_u32(data@, at as int),
{
    let hi: u32 = data[at] as u32 * 0x100 + data[at + 1] as u32;
    let lo: u32 = data[at + 2] as u32 * 0x100 + data[at + 3] as u32;
    hi * 0x1_0000 + lo
}

} // verus!
