//! Decoding the `cmap` table from its bytes.

use crate::error::{truncated, TtfError};
use crate::stream::FontReader;
use crate::tables::cmap::{
    CmapSubtable, CmapTable, EncodingRecord, Format0, Format12, Format4, Format6,
    SequentialMapGroup,
};
use crate::tables::TtfTable;
use crate::wire::{be_i16, be_u16, be_u32};
use vstd::prelude::*;

verus! {

/// The error is the one for a subtable in the format `format`, which is not decoded.
pub open spec fn unsupported(e: TtfError, format: int) -> bool {
    e matches TtfError::UnsupportedVersion(f) && f == format
}

/// What becomes of the attempt to decode a subtable at some place.
pub enum SubtableOutcome {
    /// The subtable is in a known format and lies inside the data; it takes `size` bytes.
    Fits { size: int },
    /// The data ends before the subtable does.
    Truncated,
    /// The subtable is in a format that is not decoded.
    Unsupported { format: int },
}

/// The number of entries in the glyph id array of a format 4 subtable of `length` bytes with
/// `segments` segments: what is left of the length after the fixed part and the four segment
/// arrays, in 16-bit units.
pub open spec fn format4_glyph_count(length: int, segments: int) -> int {
    if length > 16 + 8 * segments {
        (length - 16 - 8 * segments) / 2
    } else {
        0
    }
}

/// The bytes a format 4 subtable at `s[q..]` takes, going by its header.
pub open spec fn format4_size(s: Seq<u8>, q: int) -> int {
    let segments = be_u16(s, q + 6) / 2;
    16 + 8 * segments + 2 * format4_glyph_count(be_u16(s, q + 2), segments)
}

/// What becomes of decoding the subtable at `s[q..]`.
pub open spec fn subtable_outcome(s: Seq<u8>, q: int) -> SubtableOutcome {
    if q + 2 > s.len() {
        SubtableOutcome::Truncated
    } else {
        let format = be_u16(s, q);
        let size = if format == 0 {
            262
        } else if format == 4 {
            if q + 14 <= s.len() {
                format4_size(s, q)
            } else {
                14
            }
        } else if format == 6 {
            if q + 10 <= s.len() {
                10 + 2 * be_u16(s, q + 8)
            } else {
                10
            }
        } else {
            if q + 16 <= s.len() {
                16 + 12 * be_u32(s, q + 12)
            } else {
                16
            }
        };
        if format != 0 && format != 4 && format != 6 && format != 12 {
            SubtableOutcome::Unsupported { format }
        } else if q + size <= s.len() {
            SubtableOutcome::Fits { size }
        } else {
            SubtableOutcome::Truncated
        }
    }
}

impl Format0 {
    /// The subtable is what the 262 bytes at `s[q..]` encode.
    pub open spec fn decodes(self, s: Seq<u8>, q: int) -> bool {
        &&& self.format == 0
        &&& self.length == be_u16(s, q + 2)
        &&& self.language == be_u16(s, q + 4)
        &&& self.glyph_id_array@ == s.subrange(q + 6, q + 262)
    }
}

impl Format4 {
    /// The subtable is what the bytes at `s[q..]` encode: the header, then the end codes, two
    /// bytes of padding, the start codes, the deltas, the range offsets and the glyph ids.
    pub open spec fn decodes(self, s: Seq<u8>, q: int) -> bool {
        let n = self.seg_count_x2 as int / 2;
        &&& self.format == 4
        &&& self.length == be_u16(s, q + 2)
        &&& self.language == be_u16(s, q + 4)
        &&& self.seg_count_x2 == be_u16(s, q + 6)
        &&& self.search_range == be_u16(s, q + 8)
        &&& self.entry_selector == be_u16(s, q + 10)
        &&& self.range_shift == be_u16(s, q + 12)
        &&& self.end_codes@.len() == n
        &&& self.start_codes@.len() == n
        &&& self.id_deltas@.len() == n
        &&& self.id_range_offsets@.len() == n
        &&& self.glyph_id_array@.len() == format4_glyph_count(self.length as int, n)
        &&& forall|i: int| 0 <= i < n ==> #[trigger] self.end_codes@[i] == be_u16(s, q + 14 + 2 * i)
        &&& forall|i: int|
            0 <= i < n ==> #[trigger] self.start_codes@[i] == be_u16(s, q + 16 + 2 * n + 2 * i)
        &&& forall|i: int|
            0 <= i < n ==> #[trigger] self.id_deltas@[i] == be_i16(s, q + 16 + 4 * n + 2 * i)
        &&& forall|i: int|
            0 <= i < n ==> #[trigger] self.id_range_offsets@[i] == be_u16(
                s,
                q + 16 + 6 * n + 2 * i,
            )
        &&& forall|i: int|
            0 <= i < self.glyph_id_array@.len() ==> #[trigger] self.glyph_id_array@[i] == be_u16(
                s,
                q + 16 + 8 * n + 2 * i,
            )
    }
}

impl Format6 {
    /// The subtable is what the bytes at `s[q..]` encode.
    pub open spec fn decodes(self, s: Seq<u8>, q: int) -> bool {
        &&& self.format == 6
        &&& self.length == be_u16(s, q + 2)
        &&& self.language == be_u16(s, q + 4)
        &&& self.first_code == be_u16(s, q + 6)
        &&& self.entry_count == be_u16(s, q + 8)
        &&& self.glyph_id_array@.len() == self.entry_count
        &&& forall|i: int|
            0 <= i < self.entry_count ==> #[trigger] self.glyph_id_array@[i] == be_u16(
                s,
                q + 10 + 2 * i,
            )
    }
}

impl SequentialMapGroup {
    /// The group is what the twelve bytes at `s[q..]` encode.
    pub open spec fn decodes(self, s: Seq<u8>, q: int) -> bool {
        &&& self.start_char_code == be_u32(s, q)
        &&& self.end_char_code == be_u32(s, q + 4)
        &&& self.start_glyph_code == be_u32(s, q + 8)
    }
}

impl Format12 {
    /// The subtable is what the bytes at `s[q..]` encode: format and two reserved bytes, the
    /// length, the language, the number of groups and the groups.
    pub open spec fn decodes(self, s: Seq<u8>, q: int) -> bool {
        &&& self.format == 12
        &&& self.length == be_u32(s, q + 4)
        &&& self.language == be_u32(s, q + 8)
        &&& self.groups@.len() == be_u32(s, q + 12)
        &&& forall|i: int|
            0 <= i < self.groups@.len() ==> (#[trigger] self.groups@[i]).decodes(s, q + 16 + 12 * i)
    }
}

impl CmapSubtable {
    /// The subtable is what the bytes at `s[q..]` encode. No bytes decode to format 13.
    pub open spec fn decodes(self, s: Seq<u8>, q: int) -> bool {
        match self {
            CmapSubtable::Format0(f) => be_u16(s, q) == 0 && f.decodes(s, q),
            CmapSubtable::Format4(f) => be_u16(s, q) == 4 && f.decodes(s, q),
            CmapSubtable::Format6(f) => be_u16(s, q) == 6 && f.decodes(s, q),
            CmapSubtable::Format12(f) => be_u16(s, q) == 12 && f.decodes(s, q),
            CmapSubtable::Format13(_) => false,
        }
    }

    /// Decodes the subtable that starts at the cursor and moves past it. Formats 0, 4, 6 and
    /// 12 are decoded; any other is refused as `UnsupportedVersion` with the format's number.
    /// Where the bytes run out the failure is an end-of-data error. A failure leaves the
    /// cursor where it was.
    #[verifier::loop_isolation(false)]
    pub fn from_reader(reader: &mut FontReader) -> (r: Result<CmapSubtable, TtfError>)
        ensures
            final(reader)@.data == old(reader)@.data,
            match subtable_outcome(old(reader)@.data, old(reader)@.pos) {
                SubtableOutcome::Fits { size } => r is Ok && r->Ok_0.decodes(
                    old(reader)@.data,
                    old(reader)@.pos,
                ) && final(reader)@ == old(reader)@.advance(size),
                SubtableOutcome::Truncated => r is Err && r->Err_0.is_truncated() && final(reader)@
                    == old(reader)@,
                SubtableOutcome::Unsupported { format } => r matches Err(e) && unsupported(
                    e,
                    format as int,
                ) && final(reader)@ == old(reader)@,
            },
    {
        let room = reader.remaining();
        if room < 2 {
            return Err(truncated());
        }
        let format = reader.peek_u16(0);
        let ghost s = reader@.data;
        let ghost q = reader@.pos;
        if format == 0 {
            if room < 262 {
                return Err(truncated());
            }
            let length = reader.peek_u16(2);
            let language = reader.peek_u16(4);
            let glyph_id_array = reader.peek_bytes(6, 256);
            reader.advance_by(262);
            Ok(CmapSubtable::Format0(Format0 { format, length, language, glyph_id_array }))
        } else if format == 4 {
            if room < 14 {
                return Err(truncated());
            }
            let length = reader.peek_u16(2);
            let language = reader.peek_u16(4);
            let seg_count_x2 = reader.peek_u16(6);
            let search_range = reader.peek_u16(8);
            let entry_selector = reader.peek_u16(10);
            let range_shift = reader.peek_u16(12);
            let n: usize = (seg_count_x2 / 2) as usize;
            let fixed: usize = 16 + 8 * n;
            let glyphs: usize = if length as usize > fixed {
                (length as usize - fixed) / 2
            } else {
                0
            };
            let size: usize = fixed + 2 * glyphs;
            if room < size {
                return Err(truncated());
            }
            let end_codes = reader.peek_u16_array(14, n);
            let start_codes = reader.peek_u16_array(16 + 2 * n, n);
            let id_deltas = reader.peek_i16_array(16 + 4 * n, n);
            let id_range_offsets = reader.peek_u16_array(16 + 6 * n, n);
            let glyph_id_array = reader.peek_u16_array(16 + 8 * n, glyphs);
            reader.advance_by(size);
            Ok(
                CmapSubtable::Format4(
                    Format4 {
                        format,
                        length,
                        language,
                        seg_count_x2,
                        search_range,
                        entry_selector,
                        range_shift,
                        end_codes,
                        start_codes,
                        id_deltas,
                        id_range_offsets,
                        glyph_id_array,
                    },
                ),
            )
        } else if format == 6 {
            if room < 10 {
                return Err(truncated());
            }
            let length = reader.peek_u16(2);
            let language = reader.peek_u16(4);
            let first_code = reader.peek_u16(6);
            let entry_count = reader.peek_u16(8);
            let size: usize = 10 + 2 * (entry_count as usize);
            if room < size {
                return Err(truncated());
            }
            let glyph_id_array = reader.peek_u16_array(10, entry_count as usize);
            reader.advance_by(size);
            Ok(
                CmapSubtable::Format6(
                    Format6 { format, length, language, first_code, entry_count, glyph_id_array },
                ),
            )
        } else if format == 12 {
            if room < 16 {
                return Err(truncated());
            }
            let length = reader.peek_u32(4);
            let language = reader.peek_u32(8);
            let count = reader.peek_u32(12);
            let size: u64 = 16 + 12 * (count as u64);
            if (room as u64) < size {
                return Err(truncated());
            }
            let n: usize = count as usize;
            let mut groups: Vec<SequentialMapGroup> = Vec::new();
            let mut i: usize = 0;
            while i < n
                invariant
                    i <= n,
                    reader@ == old(reader)@,
                    groups@.len() == i,
                    forall|k: int|
                        0 <= k < i ==> (#[trigger] groups@[k]).decodes(s, q + 16 + 12 * k),
                decreases n - i,
            {
                let at: usize = 16 + 12 * i;
                groups.push(
                    SequentialMapGroup {
                        start_char_code: reader.peek_u32(at),
                        end_char_code: reader.peek_u32(at + 4),
                        start_glyph_code: reader.peek_u32(at + 8),
                    },
                );
                i = i + 1;
            }
            reader.advance_by(size as usize);
            Ok(CmapSubtable::Format12(Format12 { format: 12, length, language, groups }))
        } else {
            Err(TtfError::UnsupportedVersion(format as u32))
        }
    }
}

/// The place of subtable `i` of the table at `s[p..]`: its record's offset, counted from the
/// start of the table.
pub open spec fn subtable_start(s: Seq<u8>, p: int, i: int) -> int {
    p + be_u32(s, p + 4 + 8 * i + 4)
}

/// Subtable `i` of the table at `s[p..]` can be decoded: its place lies inside the data and
/// the subtable there fits.
pub open spec fn subtable_fits(s: Seq<u8>, p: int, i: int) -> bool {
    subtable_start(s, p, i) <= s.len() && subtable_outcome(s, subtable_start(s, p, i)) is Fits
}

/// The first subtable of the table at `s[p..]` that cannot be decoded is subtable `i`.
pub open spec fn first_failure(s: Seq<u8>, p: int, i: int) -> bool {
    &&& 0 <= i < be_u16(s, p + 2)
    &&& !subtable_fits(s, p, i)
    &&& forall|k: int| 0 <= k < i ==> subtable_fits(s, p, k)
}

impl EncodingRecord {
    /// The record is what the eight bytes at `s[p..]` encode.
    pub open spec fn decodes(self, s: Seq<u8>, p: int) -> bool {
        &&& self.platform_id == be_u16(s, p)
        &&& self.encoding_id == be_u16(s, p + 2)
        &&& self.offset == be_u32(s, p + 4)
    }
}

impl CmapTable {
    /// The bytes at `s[p..]` hold a whole table: the header, the records, and a subtable that
    /// can be decoded at each record's offset.
    pub open spec fn parses(s: Seq<u8>, p: int) -> bool {
        &&& p + 4 <= s.len()
        &&& p + 4 + 8 * be_u16(s, p + 2) <= s.len()
        &&& forall|i: int| 0 <= i < be_u16(s, p + 2) ==> subtable_fits(s, p, i)
    }

    /// The table is what the bytes at `s[p..]` encode: the version, the records, and for each
    /// record the subtable at its offset, counted from `p`.
    pub open spec fn decodes(self, s: Seq<u8>, p: int) -> bool {
        &&& self.version == be_u16(s, p)
        &&& self.encoding_records@.len() == be_u16(s, p + 2)
        &&& self.subtables@.len() == be_u16(s, p + 2)
        &&& forall|i: int|
            0 <= i < self.encoding_records@.len() ==> (#[trigger] self.encoding_records@[i]).decodes(
                s,
                p + 4 + 8 * i,
            )
        &&& forall|i: int|
            0 <= i < self.subtables@.len() ==> (#[trigger] self.subtables@[i]).decodes(
                s,
                p + self.encoding_records@[i].offset,
            )
    }
}

impl TtfTable for CmapTable {
    /// Decodes the table that starts at the cursor: the header, the encoding records, and
    /// then for each record the subtable at its offset from the start of the table, whatever
    /// order the subtables lie in. The cursor ends behind the records.
    ///
    /// Fails with an end-of-data error where the header, the records or a subtable are cut
    /// short or an offset points past the end, and with `UnsupportedVersion` where a subtable
    /// is in a format that is not decoded; of several bad subtables the first in record order
    /// decides. A failure leaves the cursor where it was.
    #[verifier::loop_isolation(false)]
    fn from_reader(reader: &mut FontReader, length: u32) -> (r: Result<Self, TtfError>)
        ensures
            final(reader)@.data == old(reader)@.data,
            r is Ok <==> Self::parses(old(reader)@.data, old(reader)@.pos),
            r matches Ok(t) ==> t.decodes(old(reader)@.data, old(reader)@.pos) && final(reader)@
                == old(reader)@.advance(4 + 8 * (t.encoding_records@.len() as int)),
            r matches Err(e) ==> {
                let s = old(reader)@.data;
                let p = old(reader)@.pos;
                &&& final(reader)@ == old(reader)@
                &&& if p + 4 > s.len() || p + 4 + 8 * be_u16(s, p + 2) > s.len() {
                    e.is_truncated()
                } else {
                    exists|i: int| #[trigger]
                        first_failure(s, p, i) && {
                            let q = subtable_start(s, p, i);
                            if q <= s.len() && subtable_outcome(s, q) is Unsupported {
                                unsupported(e, be_u16(s, q))
                            } else {
                                e.is_truncated()
                            }
                        }
                }
            },
    {
        let ghost s = reader@.data;
        let ghost p = reader@.pos;
        let start = reader.position();
        let room = reader.remaining();
        if room < 4 {
            return Err(truncated());
        }
        let version = reader.peek_u16(0);
        let num_tables = reader.peek_u16(2);
        let n: usize = num_tables as usize;
        if room < 4 + 8 * n {
            return Err(truncated());
        }
        let mut encoding_records: Vec<EncodingRecord> = Vec::with_capacity(n);
        let mut i: usize = 0;
        while i < n
            invariant
                i <= n,
                reader@ == old(reader)@,
                encoding_records@.len() == i,
                forall|k: int|
                    0 <= k < i ==> (#[trigger] encoding_records@[k]).decodes(s, p + 4 + 8 * k),
            decreases n - i,
        {
            let at: usize = 4 + 8 * i;
            encoding_records.push(
                EncodingRecord {
                    platform_id: reader.peek_u16(at),
                    encoding_id: reader.peek_u16(at + 2),
                    offset: reader.peek_u32(at + 4),
                },
            );
            i = i + 1;
        }
        let mut subtables: Vec<CmapSubtable> = Vec::with_capacity(n);
        let mut j: usize = 0;
        while j < n
            invariant
                j <= n,
                reader@ == old(reader)@,
                subtables@.len() == j,
                forall|k: int| 0 <= k < j ==> subtable_fits(s, p, k),
                forall|k: int|
                    0 <= k < j ==> (#[trigger] subtables@[k]).decodes(
                        s,
                        p + encoding_records@[k].offset,
                    ),
            decreases n - j,
        {
            let offset = encoding_records[j].offset;
            assert(encoding_records@[j as int].decodes(s, p + 4 + 8 * j));
            if offset as u64 > room as u64 {
                assert(first_failure(s, p, j as int));
                return Err(truncated());
            }
            reader.advance_by(offset as usize);
            match CmapSubtable::from_reader(reader) {
                Ok(subtable) => {
                    subtables.push(subtable);
                },
                Err(e) => {
                    reader.rewind_to(start);
                    assert(first_failure(s, p, j as int));
                    return Err(e);
                },
            }
            reader.rewind_to(start);
            j = j + 1;
        }
        reader.advance_by(4 + 8 * n);
        Ok(CmapTable { version, encoding_records, subtables })
    }
}

} // verus!
