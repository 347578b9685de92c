//! The tables that hold hinting programs and their values: `cvt`, `fpgm` and `prep`. The
//! programs are kept as bytes and not run.

use crate::error::{truncated, TtfError};
use crate::stream::FontReader;
use crate::tables::TtfTable;
use crate::wire::be_i16;
use vstd::prelude::*;

verus! {

/// The control values: as many 16-bit numbers as fit in the table's length.
#[derive(Debug, Clone)]
pub struct CvtTable {
    pub values: Vec<i16>,
}

/// The font program.
#[derive(Debug, Clone)]
pub struct FpgmTable {
    pub instructions: Vec<u8>,
}

/// The control value program.
#[derive(Debug, Clone)]
pub struct PrepTable {
    pub instructions: Vec<u8>,
}

impl TtfTable for CvtTable {
    /// Reads `length / 2` values and moves past them. Fails with an end-of-data error,
    /// leaving the cursor where it was, where the bytes run out.
    fn from_reader(reader: &mut FontReader, length: u32) -> (r: Result<Self, TtfError>)
        ensures
            final(reader)@.data == old(reader)@.data,
            r is Ok <==> old(reader)@.has(2 * (length as int / 2)),
            r matches Ok(t) ==> {
                &&& t.values@.len() == length as int / 2
                &&& forall|i: int|
                    0 <= i < t.values@.len() ==> #[trigger] t.values@[i] == be_i16(
                        old(reader)@.data,
                        old(reader)@.pos + 2 * i,
                    )
                &&& final(reader)@ == old(reader)@.advance(2 * (length as int / 2))
            },
            r matches Err(e) ==> final(reader)@ == old(reader)@ && e.is_truncated(),
    {
        let count: usize = (length / 2) as usize;
        if reader.remaining() / 2 < count {
            return Err(truncated());
        }
        let values = reader.peek_i16_array(0, count);
        reader.advance_by(2 * count);
        Ok(CvtTable { values })
    }
}

impl TtfTable for FpgmTable {
    /// Reads `length` bytes. Fails with an end-of-data error, leaving the cursor where it
    /// was, where fewer remain.
    fn from_reader(reader: &mut FontReader, length: u32) -> (r: Result<Self, TtfError>)
        ensures
            final(reader)@.data == old(reader)@.data,
            r is Ok <==> old(reader)@.has(length as int),
            r matches Ok(t) ==> t.instructions@ == old(reader)@.data.subrange(
                old(reader)@.pos,
                old(reader)@.pos + length,
            ) && final(reader)@ == old(reader)@.advance(length as int),
            r matches Err(e) ==> final(reader)@ == old(reader)@ && e.is_truncated(),
    {
        if reader.remaining() < length as usize {
            return Err(truncated());
        }
        let instructions = reader.peek_bytes(0, length as usize);
        reader.advance_by(length as usize);
        Ok(FpgmTable { instructions })
    }
}

impl TtfTable for PrepTable {
    /// Reads `length` bytes. Fails with an end-of-data error, leaving the cursor where it
    /// was, where fewer remain.
    fn from_reader(reader: &mut FontReader, length: u32) -> (r: Result<Self, TtfError>)
        ensures
            final(reader)@.data == old(reader)@.data,
            r is Ok <==> old(reader)@.has(length as int),
            r matches Ok(t) ==> t.instructions@ == old(reader)@.data.subrange(
                old(reader)@.pos,
                old(reader)@.pos + length,
            ) && final(reader)@ == old(reader)@.advance(length as int),
            r matches Err(e) ==> final(reader)@ == old(reader)@ && e.is_truncated(),
    {
        if reader.remaining() < length as usize {
            return Err(truncated());
        }
        let instructions = reader.peek_bytes(0, length as usize);
        reader.advance_by(length as usize);
        Ok(PrepTable { instructions })
    }
}

} // verus!
