//! The `CPAL` table: colour palettes.

use crate::error::{truncated, TtfError};
use crate::stream::FontReader;
use crate::tables::TtfTable;
use crate::wire::{be_u16, be_u32};
use vstd::prelude::*;

verus! {

/// The colour palettes: each palette has one colour for each palette entry.
#[derive(Debug, Clone)]
pub struct CpalTable {
    pub version: u16,
    pub num_palette_entries: u16,
    pub num_palettes: u16,
    pub num_color_records: u32,
    pub palettes: Vec<Palette>,
}

/// One palette.
#[derive(Debug, Clone)]
pub struct Palette {
    pub colors: Vec<ColorRecord>,
}

/// One colour, stored as blue, green, red and alpha.
#[derive(Debug, Clone, Copy)]
pub struct ColorRecord {
    pub blue: u8,
    pub green: u8,
    pub red: u8,
    pub alpha: u8,
}

impl ColorRecord {
    /// The colour is what the four bytes at `s[q..]` encode.
    pub open spec fn decodes(self, s: Seq<u8>, q: int) -> bool {
        self.blue == s[q] && self.green == s[q + 1] && self.red == s[q + 2] && self.alpha == s[q
            + 3]
    }
}

/// Where colour `j` of palette `i` lies in the table at `s[p..]` with `entries` colours to a
/// palette.
pub open spec fn color_place(p: int, entries: int, i: int, j: int) -> int {
    p + 10 + 4 * (i * entries + j)
}

impl CpalTable {
    /// The bytes that the table at `s[p..]` takes: the header and four bytes for each colour
    /// of each palette.
    pub open spec fn size(s: Seq<u8>, p: int) -> int {
        10 + 4 * (be_u16(s, p + 4) * be_u16(s, p + 2))
    }

    /// The table is what the bytes at `s[p..]` encode.
    pub open spec fn decodes(self, s: Seq<u8>, p: int) -> bool {
        &&& self.version == be_u16(s, p)
        &&& self.num_palette_entries == be_u16(s, p + 2)
        &&& self.num_palettes == be_u16(s, p + 4)
        &&& self.num_color_records == be_u32(s, p + 6)
        &&& self.palettes@.len() == self.num_palettes
        &&& forall|i: int|
            0 <= i < self.palettes@.len() ==> (#[trigger] self.palettes@[i]).colors@.len()
                == self.num_palette_entries
        &&& forall|i: int, j: int|
            0 <= i < self.palettes@.len() && 0 <= j < self.num_palette_entries ==> (
            #[trigger] self.palettes@[i].colors@[j]).decodes(
                s,
                color_place(p, self.num_palette_entries as int, i, j),
            )
    }
}

impl TtfTable for CpalTable {
    /// Decodes the header and the colours of every palette, and moves past them. Fails with
    /// an end-of-data error, leaving the cursor where it was, where the bytes run out.
    #[verifier::loop_isolation(false)]
    fn from_reader(reader: &mut FontReader, length: u32) -> (r: Result<Self, TtfError>)
        ensures
            final(reader)@.data == old(reader)@.data,
            r is Ok <==> old(reader)@.has(10) && old(reader)@.has(
                Self::size(old(reader)@.data, old(reader)@.pos),
            ),
            r matches Ok(t) ==> t.decodes(old(reader)@.data, old(reader)@.pos) && final(reader)@
                == old(reader)@.advance(Self::size(old(reader)@.data, old(reader)@.pos)),
            r matches Err(e) ==> final(reader)@ == old(reader)@ && e.is_truncated(),
    {
        let ghost s = reader@.data;
        let ghost p = reader@.pos;
        let room = reader.remaining();
        if room < 10 {
            return Err(truncated());
        }
        let version = reader.peek_u16(0);
        let num_palette_entries = reader.peek_u16(2);
        let num_palettes = reader.peek_u16(4);
        let num_color_records = reader.peek_u32(6);
        let entries = num_palette_entries as usize;
        let count = num_palettes as usize;
        assert(count * entries <= 0xFFFF * 0xFFFF) by (nonlinear_arith)
            requires
                0 <= count <= 0xFFFF,
                0 <= entries <= 0xFFFF,
        ;
        let colors: u64 = count as u64 * entries as u64;
        let total: u64 = 10 + 4 * colors;
        if (room as u64) < total {
            return Err(truncated());
        }
        let mut palettes: Vec<Palette> = Vec::new();
        let mut at: usize = 10;
        let mut i: usize = 0;
        while i < count
            invariant
                i <= count,
                reader@ == old(reader)@,
                at == 10 + 4 * (i * entries),
                palettes@.len() == i,
                forall|k: int|
                    0 <= k < i ==> (#[trigger] palettes@[k]).colors@.len() == entries,
                forall|k: int, j: int|
                    0 <= k < i && 0 <= j < entries ==> (#[trigger] palettes@[k].colors@[j]).decodes(
                        s,
                        color_place(p, entries as int, k, j),
                    ),
            decreases count - i,
        {
            assert((i + 1) * entries == i * entries + entries && (i + 1) * entries <= count
                * entries) by (nonlinear_arith)
                requires
                    0 <= i < count,
                    0 <= entries,
            ;
            let mut colors: Vec<ColorRecord> = Vec::new();
            let mut j: usize = 0;
            while j < entries
                invariant
                    j <= entries,
                    reader@ == old(reader)@,
                    at == 10 + 4 * (i * entries + j),
                    colors@.len() == j,
                    forall|l: int|
                        0 <= l < j ==> (#[trigger] colors@[l]).decodes(
                            s,
                            color_place(p, entries as int, i as int, l),
                        ),
                decreases entries - j,
            {
                colors.push(
                    ColorRecord {
                        blue: reader.peek_u8(at),
                        green: reader.peek_u8(at + 1),
                        red: reader.peek_u8(at + 2),
                        alpha: reader.peek_u8(at + 3),
                    },
                );
                at = at + 4;
                j = j + 1;
            }
            palettes.push(Palette { colors });
            i = i + 1;
        }
        reader.advance_by(total as usize);
        Ok(CpalTable { version, num_palette_entries, num_palettes, num_color_records, palettes })
    }
}

} // verus!
