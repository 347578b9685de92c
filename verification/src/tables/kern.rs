//! The `kern` table: adjustments to the space between pairs of glyphs.

use crate::error::{truncated, TtfError};
use crate::stream::FontReader;
use crate::tables::TtfTable;
use crate::wire::{be_i16, be_u16};
use vstd::prelude::*;

verus! {

/// The kerning table: the subtables of format 0, in file order.
#[derive(Debug, Clone)]
pub struct KernTable {
    pub version: u16,
    pub subtables: Vec<KernSubtable>,
}

/// A kerning subtable in a format that is decoded.
#[derive(Debug, Clone)]
pub enum KernSubtable {
    Format0(KernFormat0),
}

/// A list of glyph pairs with the adjustment for each.
#[derive(Debug, Clone)]
pub struct KernFormat0 {
    pub version: u16,
    pub length: u16,
    pub coverage: u16,
    pub pairs: Vec<KernPair>,
}

/// The space between the glyphs `left` and `right` changes by `value`.
#[derive(Debug, Clone, Copy)]
pub struct KernPair {
    pub left: u16,
    pub right: u16,
    pub value: i16,
}

impl KernFormat0 {
    /// The bit 0x80 of the coverage is clear.
    pub fn is_horizontal(&self) -> (b: bool)
        ensures
            b == (self.coverage & 0x80 == 0),
    {
        self.coverage & 0x80 == 0
    }

    /// The bit 0x40 of the coverage is clear.
    pub fn is_minimum(&self) -> (b: bool)
        ensures
            b == (self.coverage & 0x40 == 0),
    {
        self.coverage & 0x40 == 0
    }

    /// The bit 0x20 of the coverage is set.
    pub fn is_cross_stream(&self) -> (b: bool)
        ensures
            b == (self.coverage & 0x20 != 0),
    {
        self.coverage & 0x20 != 0
    }

    /// The subtable is what the bytes at `s[q..]` encode: version, length and coverage, the
    /// number of pairs, three search hints, and the pairs.
    pub open spec fn decodes(self, s: Seq<u8>, q: int) -> bool {
        &&& self.version == be_u16(s, q)
        &&& self.length == be_u16(s, q + 2)
        &&& self.coverage == be_u16(s, q + 4)
        &&& self.pairs@.len() == be_u16(s, q + 6)
        &&& forall|i: int|
            0 <= i < self.pairs@.len() ==> (#[trigger] self.pairs@[i]).left == be_u16(
                s,
                q + 14 + 6 * i,
            ) && self.pairs@[i].right == be_u16(s, q + 16 + 6 * i) && self.pairs@[i].value
                == be_i16(s, q + 18 + 6 * i)
    }
}

/// A subtable with this coverage is of format 0: the low byte of the coverage is zero.
pub open spec fn is_format0(coverage: u16) -> bool {
    coverage & 0xFF == 0
}

/// The bytes that the subtable at `s[q..]` takes: header and pairs for format 0, and for any
/// other format the six bytes of the header and what is left of the declared length after
/// eight bytes.
pub open spec fn kern_subtable_size(s: Seq<u8>, q: int) -> int {
    if is_format0(be_u16(s, q + 4) as u16) {
        14 + 6 * be_u16(s, q + 6)
    } else if be_u16(s, q + 2) > 8 {
        6 + be_u16(s, q + 2) - 8
    } else {
        6
    }
}

/// Where subtable `k` of the table at `s[p..]` starts.
pub open spec fn kern_start(s: Seq<u8>, p: int, k: int) -> int
    decreases k,
{
    if k <= 0 {
        p + 4
    } else {
        kern_start(s, p, k - 1) + kern_subtable_size(s, kern_start(s, p, k - 1))
    }
}

/// The number of subtables of format 0 among the first `k`.
pub open spec fn kern_kept(s: Seq<u8>, p: int, k: int) -> int
    decreases k,
{
    if k <= 0 {
        0
    } else if is_format0(be_u16(s, kern_start(s, p, k - 1) + 4) as u16) {
        kern_kept(s, p, k - 1) + 1
    } else {
        kern_kept(s, p, k - 1)
    }
}

/// The first `k` subtables of the table at `s[p..]` lie inside the data.
pub open spec fn kern_fits(s: Seq<u8>, p: int, k: int) -> bool
    decreases k,
{
    if k <= 0 {
        p + 4 <= s.len()
    } else {
        let q = kern_start(s, p, k - 1);
        &&& kern_fits(s, p, k - 1)
        &&& q + 6 <= s.len()
        &&& is_format0(be_u16(s, q + 4) as u16) ==> q + 14 <= s.len()
        &&& q + kern_subtable_size(s, q) <= s.len()
    }
}

/// The subtables of format 0 among the first `k` of the table at `s[p..]` are decoded, in
/// their order, in `subtables`.
pub open spec fn kern_holds(subtables: Seq<KernSubtable>, s: Seq<u8>, p: int, k: int) -> bool
    decreases k,
{
    if k <= 0 {
        true
    } else {
        let q = kern_start(s, p, k - 1);
        &&& kern_holds(subtables, s, p, k - 1)
        &&& is_format0(be_u16(s, q + 4) as u16) ==> (subtables[kern_kept(s, p, k - 1)] matches KernSubtable::Format0(
            f,
        ) && f.decodes(s, q))
    }
}

/// Whether the first `k` subtables are decoded in a list depends on the entries before
/// their count alone.
proof fn lemma_kern_holds_more(
    before: Seq<KernSubtable>,
    after: Seq<KernSubtable>,
    s: Seq<u8>,
    p: int,
    k: int,
)
    requires
        kern_holds(before, s, p, k),
        forall|i: int| 0 <= i < kern_kept(s, p, k) ==> after[i] == before[i],
    ensures
        kern_holds(after, s, p, k),
    decreases k,
{
    if k > 0 {
        lemma_kern_kept_grows(s, p, k);
        lemma_kern_kept_grows(s, p, k - 1);
        lemma_kern_holds_more(before, after, s, p, k - 1);
    }
}

/// The count of format 0 subtables does not fall, and starts at zero.
proof fn lemma_kern_kept_grows(s: Seq<u8>, p: int, k: int)
    ensures
        0 <= kern_kept(s, p, k),
        k > 0 ==> kern_kept(s, p, k - 1) <= kern_kept(s, p, k),
    decreases k,
{
    if k > 0 {
        lemma_kern_kept_grows(s, p, k - 1);
    }
}

impl TtfTable for KernTable {
    /// Decodes the table that starts at the cursor and moves past it. Subtables of format 0
    /// are decoded; the others are passed over.
    ///
    /// Fails with an end-of-data error, leaving the cursor where it was, where the bytes run
    /// out.
    #[verifier::loop_isolation(false)]
    fn from_reader(reader: &mut FontReader, length: u32) -> (r: Result<Self, TtfError>)
        ensures
            final(reader)@.data == old(reader)@.data,
            r is Ok <==> old(reader)@.has(4) && kern_fits(
                old(reader)@.data,
                old(reader)@.pos,
                be_u16(old(reader)@.data, old(reader)@.pos + 2) as int,
            ),
            r matches Ok(t) ==> {
                let s = old(reader)@.data;
                let p = old(reader)@.pos;
                let n = be_u16(s, p + 2) as int;
                &&& t.version == be_u16(s, p)
                &&& t.subtables@.len() == kern_kept(s, p, n)
                &&& kern_holds(t.subtables@, s, p, n)
                &&& final(reader)@ == old(reader)@.at(kern_start(s, p, n))
            },
            r matches Err(e) ==> e.is_truncated() && final(reader)@ == old(reader)@,
    {
        let ghost s = reader@.data;
        let ghost p = reader@.pos;
        let room = reader.remaining();
        if room < 4 {
            return Err(truncated());
        }
        let version = reader.peek_u16(0);
        let num_tables = reader.peek_u16(2);
        let mut subtables: Vec<KernSubtable> = Vec::new();
        let mut at: usize = 4;
        let mut k: u16 = 0;
        while k < num_tables
            invariant
                k <= num_tables,
                reader@ == old(reader)@,
                at <= room,
                p + at == kern_start(s, p, k as int),
                kern_fits(s, p, k as int),
                subtables@.len() == kern_kept(s, p, k as int),
                kern_holds(subtables@, s, p, k as int),
            decreases num_tables - k,
        {
            if room - at < 6 {
                proof {
                    if kern_fits(s, p, num_tables as int) {
                            lemma_kern_fits_prefix(s, p, k as int + 1, num_tables as int);
                        }
                }
                return Err(truncated());
            }
            let sub_version = reader.peek_u16(at);
            let sub_length = reader.peek_u16(at + 2);
            let coverage = reader.peek_u16(at + 4);
            if coverage & 0xFF == 0 {
                if room - at < 14 {
                    proof {
                        if kern_fits(s, p, num_tables as int) {
                            lemma_kern_fits_prefix(s, p, k as int + 1, num_tables as int);
                        }
                    }
                    return Err(truncated());
                }
                let count = reader.peek_u16(at + 6) as usize;
                let size: usize = 14 + 6 * count;
                if room - at < size {
                    proof {
                        if kern_fits(s, p, num_tables as int) {
                            lemma_kern_fits_prefix(s, p, k as int + 1, num_tables as int);
                        }
                    }
                    return Err(truncated());
                }
                let mut pairs: Vec<KernPair> = Vec::with_capacity(count);
                let mut i: usize = 0;
                while i < count
                    invariant
                        i <= count,
                        reader@ == old(reader)@,
                        pairs@.len() == i,
                        forall|j: int|
                            0 <= j < i ==> (#[trigger] pairs@[j]).left == be_u16(
                                s,
                                p + at + 14 + 6 * j,
                            ) && pairs@[j].right == be_u16(s, p + at + 16 + 6 * j)
                                && pairs@[j].value == be_i16(s, p + at + 18 + 6 * j),
                    decreases count - i,
                {
                    pairs.push(
                        KernPair {
                            left: reader.peek_u16(at + 14 + 6 * i),
                            right: reader.peek_u16(at + 16 + 6 * i),
                            value: reader.peek_i16(at + 18 + 6 * i),
                        },
                    );
                    i = i + 1;
                }
                let ghost before = subtables@;
                let found = KernFormat0 { version: sub_version, length: sub_length, coverage, pairs };
                assert(found.decodes(s, p + at));
                subtables.push(KernSubtable::Format0(found));
                proof {
                    lemma_kern_holds_more(before, subtables@, s, p, k as int);
                }
                at = at + size;
            } else {
                let size: usize = if sub_length > 8 {
                    6 + (sub_length as usize - 8)
                } else {
                    6
                };
                if room - at < size {
                    proof {
                        if kern_fits(s, p, num_tables as int) {
                            lemma_kern_fits_prefix(s, p, k as int + 1, num_tables as int);
                        }
                    }
                    return Err(truncated());
                }
                at = at + size;
            }
            k = k + 1;
        }
        reader.advance_by(at);
        Ok(KernTable { version, subtables })
    }
}

/// Where more subtables fit, fewer fit.
proof fn lemma_kern_fits_prefix(s: Seq<u8>, p: int, i: int, k: int)
    requires
        0 <= i <= k,
        kern_fits(s, p, k),
    ensures
        kern_fits(s, p, i),
    decreases k - i,
{
    if i < k {
        lemma_kern_fits_prefix(s, p, i, k - 1);
    }
}

} // verus!
