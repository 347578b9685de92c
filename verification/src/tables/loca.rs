//! The `loca` table: where each glyph's outline starts in the `glyf` table.

use crate::error::{truncated, TtfError};
use crate::stream::FontReader;
use crate::wire::{be_u16, be_u32};
use vstd::prelude::*;

verus! {

/// The glyph offsets. The short form stores each offset halved, in 16 bits; the long form
/// stores it as it is, in 32 bits. A table for `n` glyphs has `n + 1` entries, the last one
/// marking the end of the last glyph.
#[derive(Debug, Clone)]
pub enum LocaTable {
    Short(Vec<u16>),
    Long(Vec<u32>),
}

impl LocaTable {
    /// The number of entries.
    pub open spec fn entries(self) -> nat {
        match self {
            LocaTable::Short(v) => v@.len(),
            LocaTable::Long(v) => v@.len(),
        }
    }

    /// The byte offset that entry `i` stands for.
    pub open spec fn offset(self, i: int) -> int {
        match self {
            LocaTable::Short(v) => v@[i] as int * 2,
            LocaTable::Long(v) => v@[i] as int,
        }
    }

    /// No entry is smaller than the one before it.
    pub open spec fn ascending(self) -> bool {
        forall|i: int|
            0 <= i && i + 1 < self.entries() ==> #[trigger] self.offset(i) <= self.offset(i + 1)
    }

    /// The bytes that `n` entries of a table take.
    pub open spec fn size(n: int, is_long: bool) -> int {
        if is_long {
            4 * n
        } else {
            2 * n
        }
    }

    /// The table is what the bytes at `s[p..]` encode, `n` entries in the given form.
    pub open spec fn decodes(self, s: Seq<u8>, p: int, n: int, is_long: bool) -> bool {
        match self {
            LocaTable::Short(v) => !is_long && v@.len() == n && forall|i: int|
                0 <= i < n ==> #[trigger] v@[i] == be_u16(s, p + 2 * i),
            LocaTable::Long(v) => is_long && v@.len() == n && forall|i: int|
                0 <= i < n ==> #[trigger] v@[i] == be_u32(s, p + 4 * i),
        }
    }

    /// Reads the `num_glyphs + 1` entries of a table for `num_glyphs` glyphs. Fails with an
    /// end-of-data error, leaving the cursor where it was, where the bytes run out.
    #[verifier::loop_isolation(false)]
    pub fn from_reader(reader: &mut FontReader, length: u32, num_glyphs: usize, is_long: bool) -> (r:
        Result<LocaTable, TtfError>)
        ensures
            final(reader)@.data == old(reader)@.data,
            r is Ok <==> old(reader)@.has(Self::size(num_glyphs + 1, is_long)),
            r matches Ok(t) ==> t.decodes(
                old(reader)@.data,
                old(reader)@.pos,
                num_glyphs + 1,
                is_long,
            ) && final(reader)@ == old(reader)@.advance(Self::size(num_glyphs + 1, is_long)),
            r matches Err(e) ==> final(reader)@ == old(reader)@ && e.is_truncated(),
    {
        let width: usize = if is_long {
            4
        } else {
            2
        };
        let room = reader.remaining() / width;
        if num_glyphs >= room {
            return Err(truncated());
        }
        let n: usize = num_glyphs + 1;
        let ghost s = reader@.data;
        let ghost p = reader@.pos;
        let mut i: usize = 0;
        if is_long {
            let mut offsets: Vec<u32> = Vec::with_capacity(n);
            while i < n
                invariant
                    i <= n,
                    reader@ == old(reader)@,
                    offsets@.len() == i,
                    forall|k: int| 0 <= k < i ==> #[trigger] offsets@[k] == be_u32(s, p + 4 * k),
                decreases n - i,
            {
                offsets.push(reader.peek_u32(4 * i));
                i = i + 1;
            }
            reader.advance_by(4 * n);
            Ok(LocaTable::Long(offsets))
        } else {
            let mut offsets: Vec<u16> = Vec::with_capacity(n);
            while i < n
                invariant
                    i <= n,
                    reader@ == old(reader)@,
                    offsets@.len() == i,
                    forall|k: int| 0 <= k < i ==> #[trigger] offsets@[k] == be_u16(s, p + 2 * k),
                decreases n - i,
            {
                offsets.push(reader.peek_u16(2 * i));
                i = i + 1;
            }
            reader.advance_by(2 * n);
            Ok(LocaTable::Short(offsets))
        }
    }

    /// The number of entries.
    pub fn len(&self) -> (n: usize)
        ensures
            n == self.entries(),
    {
        match self {
            LocaTable::Short(v) => v.len(),
            LocaTable::Long(v) => v.len(),
        }
    }

    /// The byte offset of entry `index`: twice the stored value in the short form, the stored
    /// value in the long form. An index past the last entry is refused as `InvalidGlyphIndex`
    /// with the low 16 bits of the index.
    pub fn get_offset(&self, index: usize) -> (r: Result<u32, TtfError>)
        ensures
            index < self.entries() ==> r == Ok::<u32, TtfError>(self.offset(index as int) as u32),
            index >= self.entries() ==> (r matches Err(TtfError::InvalidGlyphIndex(g)) && g
                == index % 0x1_0000),
    {
        match self {
            LocaTable::Short(offsets) => {
                if index < offsets.len() {
                    Ok(offsets[index] as u32 * 2)
                } else {
                    Err(TtfError::InvalidGlyphIndex((index % 0x1_0000) as u16))
                }
            },
            LocaTable::Long(offsets) => {
                if index < offsets.len() {
                    Ok(offsets[index])
                } else {
                    Err(TtfError::InvalidGlyphIndex((index % 0x1_0000) as u16))
                }
            },
        }
    }

    /// Whether no entry is smaller than the one before it.
    pub fn is_ascending(&self) -> (b: bool)
        ensures
            b == self.ascending(),
    {
        let n = self.len();
        if n < 2 {
            return true;
        }
        let mut i: usize = 0;
        while i + 1 < n
            invariant
                n == self.entries(),
                i + 1 <= n,
                forall|k: int| 0 <= k < i ==> #[trigger] self.offset(k) <= self.offset(k + 1),
            decreases n - i,
        {
            let here = match self.get_offset(i) {
                Ok(v) => v,
                Err(_) => 0,
            };
            let next = match self.get_offset(i + 1) {
                Ok(v) => v,
                Err(_) => 0,
            };
            if here > next {
                return false;
            }
            i = i + 1;
        }
        true
    }
}

/// In a table whose entries ascend, an earlier entry is never above a later one: every glyph
/// has a span of zero or more bytes, and so has every run of glyphs.
pub proof fn lemma_offsets_ascend(t: LocaTable, i: int, j: int)
    requires
        t.ascending(),
        0 <= i <= j < t.entries(),
    ensures
        t.offset(i) <= t.offset(j),
    decreases j - i,
{
    if i < j {
        lemma_offsets_ascend(t, i, j - 1);
        assert(t.offset(j - 1) <= t.offset(j - 1 + 1));
    }
}

} // verus!
