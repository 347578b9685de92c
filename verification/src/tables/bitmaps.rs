//! The tables of embedded pictures: `CBDT`, `CBLC`, `sbix` and `SVG`. Only the headers and
//! the lists that follow them are decoded.

use crate::error::{truncated, TtfError};
use crate::stream::FontReader;
use crate::tables::TtfTable;
use crate::wire::{be_u16, be_u32};
use vstd::prelude::*;

verus! {

/// The header of the colour bitmap data table; the sizes are not decoded and the list stays
/// empty.
#[derive(Debug, Clone)]
pub struct CbdTTable {
    pub version: u32,
    pub num_glyphs: u32,
    pub bitmap_sizes: Vec<BitmapSize>,
}

/// One size at which bitmaps are given.
#[derive(Debug, Clone, Copy)]
pub struct BitmapSize {
    pub index: u32,
    pub ppem_x: u16,
    pub ppem_y: u16,
    pub bit_depth: u8,
    pub flags: u8,
}

/// The colour bitmap location table: one 32-bit entry for each size.
#[derive(Debug, Clone)]
pub struct CblcTable {
    pub version: u32,
    pub num_sizes: u32,
    pub bitmap_tables: Vec<u32>,
}

/// The standard bitmap graphics table: its strikes, without their pictures.
#[derive(Debug, Clone)]
pub struct SbixTable {
    pub version: u16,
    pub flags: u16,
    pub strikes: Vec<Strike>,
}

/// The pictures for one size; the list of pictures stays empty.
#[derive(Debug, Clone)]
pub struct Strike {
    pub ppem: u16,
    pub resolution: u16,
    pub bitmaps: Vec<Bitmap>,
}

/// One picture of a glyph.
#[derive(Debug, Clone)]
pub struct Bitmap {
    pub glyph_id: u16,
    pub bitmap_type: u32,
    pub offset: u32,
    pub data: Vec<u8>,
}

/// The SVG table; the documents are not decoded and the list stays empty.
#[derive(Debug, Clone)]
pub struct SvgTable {
    pub version: u16,
    pub svg_documents: Vec<SvgDocument>,
}

/// One SVG document and the glyphs it draws.
#[derive(Debug, Clone)]
pub struct SvgDocument {
    pub start_glyph_id: u16,
    pub end_glyph_id: u16,
    pub svg_data: Vec<u8>,
}

impl TtfTable for CbdTTable {
    /// Decodes the eight bytes of the header and moves past them. Fails with an end-of-data
    /// error, leaving the cursor where it was, where fewer remain.
    fn from_reader(reader: &mut FontReader, length: u32) -> (r: Result<Self, TtfError>)
        ensures
            final(reader)@.data == old(reader)@.data,
            r is Ok <==> old(reader)@.has(8),
            r matches Ok(t) ==> t.version == be_u32(old(reader)@.data, old(reader)@.pos)
                && t.num_glyphs == be_u32(old(reader)@.data, old(reader)@.pos + 4)
                && t.bitmap_sizes@.len() == 0 && final(reader)@ == old(reader)@.advance(8),
            r matches Err(e) ==> final(reader)@ == old(reader)@ && e.is_truncated(),
    {
        if reader.remaining() < 8 {
            return Err(truncated());
        }
        let version = reader.peek_u32(0);
        let num_glyphs = reader.peek_u32(4);
        reader.advance_by(8);
        Ok(CbdTTable { version, num_glyphs, bitmap_sizes: Vec::new() })
    }
}

impl TtfTable for CblcTable {
    /// Decodes the header and one entry for each size, and moves past them. Fails with an
    /// end-of-data error, leaving the cursor where it was, where the bytes run out.
    fn from_reader(reader: &mut FontReader, length: u32) -> (r: Result<Self, TtfError>)
        ensures
            final(reader)@.data == old(reader)@.data,
            r is Ok <==> old(reader)@.has(8) && old(reader)@.has(
                8 + 4 * be_u32(old(reader)@.data, old(reader)@.pos + 4),
            ),
            r matches Ok(t) ==> {
                let s = old(reader)@.data;
                let p = old(reader)@.pos;
                &&& t.version == be_u32(s, p)
                &&& t.num_sizes == be_u32(s, p + 4)
                &&& t.bitmap_tables@.len() == t.num_sizes
                &&& forall|i: int|
                    0 <= i < t.num_sizes ==> #[trigger] t.bitmap_tables@[i] == be_u32(
                        s,
                        p + 8 + 4 * i,
                    )
                &&& final(reader)@ == old(reader)@.advance(8 + 4 * t.num_sizes)
            },
            r matches Err(e) ==> final(reader)@ == old(reader)@ && e.is_truncated(),
    {
        let room = reader.remaining();
        if room < 8 {
            return Err(truncated());
        }
        let version = reader.peek_u32(0);
        let num_sizes = reader.peek_u32(4);
        if (((room - 8) / 4) as u64) < (num_sizes as u64) {
            return Err(truncated());
        }
        let count = num_sizes as usize;
        let bitmap_tables = reader.peek_u32_array(8, count);
        reader.advance_by(8 + 4 * count);
        Ok(CblcTable { version, num_sizes, bitmap_tables })
    }
}

impl TtfTable for SbixTable {
    /// Decodes the header and the size and resolution of each strike, and moves past them.
    /// Fails with an end-of-data error, leaving the cursor where it was, where the bytes run
    /// out.
    #[verifier::loop_isolation(false)]
    fn from_reader(reader: &mut FontReader, length: u32) -> (r: Result<Self, TtfError>)
        ensures
            final(reader)@.data == old(reader)@.data,
            r is Ok <==> old(reader)@.has(8) && old(reader)@.has(
                8 + 4 * be_u32(old(reader)@.data, old(reader)@.pos + 4),
            ),
            r matches Ok(t) ==> {
                let s = old(reader)@.data;
                let p = old(reader)@.pos;
                &&& t.version == be_u16(s, p)
                &&& t.flags == be_u16(s, p + 2)
                &&& t.strikes@.len() == be_u32(s, p + 4)
                &&& forall|i: int|
                    0 <= i < t.strikes@.len() ==> (#[trigger] t.strikes@[i]).ppem == be_u16(
                        s,
                        p + 8 + 4 * i,
                    ) && t.strikes@[i].resolution == be_u16(s, p + 10 + 4 * i)
                        && t.strikes@[i].bitmaps@.len() == 0
                &&& final(reader)@ == old(reader)@.advance(8 + 4 * (t.strikes@.len() as int))
            },
            r matches Err(e) ==> final(reader)@ == old(reader)@ && e.is_truncated(),
    {
        let ghost s = reader@.data;
        let ghost p = reader@.pos;
        let room = reader.remaining();
        if room < 8 {
            return Err(truncated());
        }
        let version = reader.peek_u16(0);
        let flags = reader.peek_u16(2);
        let num_strikes = reader.peek_u32(4);
        if (((room - 8) / 4) as u64) < (num_strikes as u64) {
            return Err(truncated());
        }
        let count = num_strikes as usize;
        let mut strikes: Vec<Strike> = Vec::new();
        let mut i: usize = 0;
        while i < count
            invariant
                i <= count,
                reader@ == old(reader)@,
                strikes@.len() == i,
                forall|k: int|
                    0 <= k < i ==> (#[trigger] strikes@[k]).ppem == be_u16(s, p + 8 + 4 * k)
                        && strikes@[k].resolution == be_u16(s, p + 10 + 4 * k)
                        && strikes@[k].bitmaps@.len() == 0,
            decreases count - i,
        {
            strikes.push(
                Strike {
                    ppem: reader.peek_u16(8 + 4 * i),
                    resolution: reader.peek_u16(10 + 4 * i),
                    bitmaps: Vec::new(),
                },
            );
            i = i + 1;
        }
        reader.advance_by(8 + 4 * count);
        Ok(SbixTable { version, flags, strikes })
    }
}

impl TtfTable for SvgTable {
    /// Decodes the version and moves past it, the number of documents and one 32-bit offset
    /// for each document. Fails with an end-of-data error, leaving the cursor where it was,
    /// where the bytes run out.
    fn from_reader(reader: &mut FontReader, length: u32) -> (r: Result<Self, TtfError>)
        ensures
            final(reader)@.data == old(reader)@.data,
            r is Ok <==> old(reader)@.has(6) && old(reader)@.has(
                6 + 4 * be_u32(old(reader)@.data, old(reader)@.pos + 2),
            ),
            r matches Ok(t) ==> {
                let s = old(reader)@.data;
                let p = old(reader)@.pos;
                &&& t.version == be_u16(s, p)
                &&& t.svg_documents@.len() == 0
                &&& final(reader)@ == old(reader)@.advance(6 + 4 * be_u32(s, p + 2))
            },
            r matches Err(e) ==> final(reader)@ == old(reader)@ && e.is_truncated(),
    {
        let room = reader.remaining();
        if room < 6 {
            return Err(truncated());
        }
        let version = reader.peek_u16(0);
        let count = reader.peek_u32(2);
        if (((room - 6) / 4) as u64) < (count as u64) {
            return Err(truncated());
        }
        reader.advance_by(6 + 4 * (count as usize));
        Ok(SvgTable { version, svg_documents: Vec::new() })
    }
}

} // verus!
