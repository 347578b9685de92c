//! The `cmap` table: from character codes to glyph ids.

use vstd::prelude::*;

verus! {

/// The character map: one subtable for each encoding record, in the same order.
#[derive(Debug, Clone)]
pub struct CmapTable {
    pub version: u16,
    pub encoding_records: Vec<EncodingRecord>,
    pub subtables: Vec<CmapSubtable>,
}

/// Names a platform and an encoding and says where their subtable starts.
#[derive(Debug, Clone, Copy)]
pub struct EncodingRecord {
    pub platform_id: u16,
    pub encoding_id: u16,
    pub offset: u32,
}

/// A subtable, in one of the formats this library knows.
#[derive(Debug, Clone)]
pub enum CmapSubtable {
    Format0(Format0),
    Format4(Format4),
    Format6(Format6),
    Format12(Format12),
    Format13(Format13),
}

/// Byte encoding: one glyph id for each of the codes 0 to 255.
#[derive(Debug, Clone)]
pub struct Format0 {
    pub format: u16,
    pub length: u16,
    pub language: u16,
    pub glyph_id_array: Vec<u8>,
}

/// Segments of 16-bit codes, each mapped by a delta or through the glyph id array.
#[derive(Debug, Clone)]
pub struct Format4 {
    pub format: u16,
    pub length: u16,
    pub language: u16,
    pub seg_count_x2: u16,
    pub search_range: u16,
    pub entry_selector: u16,
    pub range_shift: u16,
    pub end_codes: Vec<u16>,
    pub start_codes: Vec<u16>,
    pub id_deltas: Vec<i16>,
    pub id_range_offsets: Vec<u16>,
    pub glyph_id_array: Vec<u16>,
}

/// One run of 16-bit codes, from `first_code` on, with a glyph id each.
#[derive(Debug, Clone)]
pub struct Format6 {
    pub format: u16,
    pub length: u16,
    pub language: u16,
    pub first_code: u16,
    pub entry_count: u16,
    pub glyph_id_array: Vec<u16>,
}

/// Groups of 32-bit codes, each mapped to consecutive glyph ids.
#[derive(Debug, Clone)]
pub struct Format12 {
    pub format: u32,
    pub length: u32,
    pub language: u32,
    pub groups: Vec<SequentialMapGroup>,
}

/// Codes `start_char_code..=end_char_code` map to the glyphs from `start_glyph_code` on.
#[derive(Debug, Clone, Copy)]
pub struct SequentialMapGroup {
    pub start_char_code: u32,
    pub end_char_code: u32,
    pub start_glyph_code: u32,
}

/// Groups of 32-bit codes, each mapped to one glyph id.
#[derive(Debug, Clone)]
pub struct Format13 {
    pub format: u32,
    pub length: u32,
    pub language: u32,
    pub groups: Vec<ConstantMapGroup>,
}

/// Codes `start_char_code..=end_char_code` all map to `glyph_code`.
#[derive(Debug, Clone, Copy)]
pub struct ConstantMapGroup {
    pub start_char_code: u32,
    pub end_char_code: u32,
    pub glyph_code: u32,
}

/// The glyph a sequential group gives a code, modulo 2^32.
pub open spec fn group_glyph(group: SequentialMapGroup, code: int) -> int {
    (group.start_glyph_code + (code - group.start_char_code)) % 0x1_0000_0000
}

/// The smaller of two numbers.
pub open spec fn min2(a: int, b: int) -> int {
    if a <= b {
        a
    } else {
        b
    }
}

impl Format0 {
    /// The glyph of a code: the code's entry in the array.
    pub open spec fn glyph(self, code: int) -> Option<u16> {
        if 0 <= code < self.glyph_id_array@.len() {
            Some(self.glyph_id_array@[code] as u16)
        } else {
            None
        }
    }

    /// The glyph of a byte code. A table whose array is cut short has nothing for the codes
    /// past its end.
    pub fn get_glyph(&self, char_code: u8) -> (r: Option<u16>)
        ensures
            r == self.glyph(char_code as int),
    {
        if (char_code as usize) < self.glyph_id_array.len() {
            Some(self.glyph_id_array[char_code as usize] as u16)
        } else {
            None
        }
    }
}

impl Format4 {
    /// The number of segments that can be looked at: the declared count, as far as all four
    /// arrays reach.
    pub open spec fn segments(self) -> int {
        min2(
            min2(self.seg_count_x2 as int / 2, self.end_codes@.len() as int),
            min2(
                min2(self.start_codes@.len() as int, self.id_deltas@.len() as int),
                self.id_range_offsets@.len() as int,
            ),
        )
    }

    /// Segment `i` contains the code.
    pub open spec fn contains(self, i: int, code: int) -> bool {
        self.start_codes@[i] <= code <= self.end_codes@[i]
    }

    /// The first segment from `from` on that contains the code.
    pub open spec fn segment_of(self, code: int, from: int) -> Option<int>
        decreases self.segments() - from,
    {
        if from < 0 || from >= self.segments() {
            None
        } else if self.contains(from, code) {
            Some(from)
        } else {
            self.segment_of(code, from + 1)
        }
    }

    /// The glyph that segment `i` gives the code: the code plus the segment's delta, modulo
    /// 65536, where the range offset is zero; else the entry of the glyph id array at half
    /// the range offset plus the code's distance from the segment's start, where a missing
    /// entry or a zero means unmapped.
    pub open spec fn glyph_in(self, i: int, code: int) -> Option<u16> {
        if self.id_range_offsets@[i] == 0 {
            Some(((code + self.id_deltas@[i]) % 0x1_0000) as u16)
        } else {
            let at = self.id_range_offsets@[i] as int / 2 + (code - self.start_codes@[i]);
            if at >= self.glyph_id_array@.len() || self.glyph_id_array@[at] == 0 {
                None
            } else {
                Some(self.glyph_id_array@[at])
            }
        }
    }

    /// The glyph of a code: what the first segment that contains it gives, and nothing where
    /// no segment contains it.
    pub open spec fn glyph(self, code: int) -> Option<u16> {
        match self.segment_of(code, 0) {
            Some(i) => self.glyph_in(i, code),
            None => None,
        }
    }

    /// The number of segments the subtable declares.
    pub fn seg_count(&self) -> (n: u16)
        ensures
            n == self.seg_count_x2 / 2,
    {
        self.seg_count_x2 / 2
    }

    fn usable_segments(&self) -> (n: usize)
        ensures
            n == self.segments(),
    {
        let mut n: usize = (self.seg_count_x2 / 2) as usize;
        if self.end_codes.len() < n {
            n = self.end_codes.len();
        }
        if self.start_codes.len() < n {
            n = self.start_codes.len();
        }
        if self.id_deltas.len() < n {
            n = self.id_deltas.len();
        }
        if self.id_range_offsets.len() < n {
            n = self.id_range_offsets.len();
        }
        n
    }

    /// The glyph of a 16-bit code.
    pub fn get_glyph(&self, char_code: u16) -> (r: Option<u16>)
        ensures
            r == self.glyph(char_code as int),
    {
        let n = self.usable_segments();
        let mut i: usize = 0;
        while i < n
            invariant
                i <= n,
                n == self.segments(),
                self.segment_of(char_code as int, 0) == self.segment_of(char_code as int, i as int),
            decreases n - i,
        {
            if self.start_codes[i] <= char_code && char_code <= self.end_codes[i] {
                if self.id_range_offsets[i] == 0 {
                    let sum: i32 = char_code as i32 + self.id_deltas[i] as i32;
                    let wrapped: i32 = if sum < 0 {
                        sum + 0x1_0000
                    } else if sum >= 0x1_0000 {
                        sum - 0x1_0000
                    } else {
                        sum
                    };
                    return Some(wrapped as u16);
                }
                let at: usize = (self.id_range_offsets[i] / 2) as usize + (char_code
                    - self.start_codes[i]) as usize;
                if at >= self.glyph_id_array.len() {
                    return None;
                }
                let glyph_id = self.glyph_id_array[at];
                if glyph_id == 0 {
                    return None;
                }
                return Some(glyph_id);
            }
            i = i + 1;
        }
        None
    }
}

/// A code that no segment contains has no glyph.
pub proof fn lemma_outside_all_segments(f: Format4, code: int, from: int)
    requires
        0 <= from,
        forall|i: int| from <= i < f.segments() ==> !f.contains(i, code),
    ensures
        f.segment_of(code, from) is None,
        from == 0 ==> f.glyph(code) is None,
    decreases f.segments() - from,
{
    if from < f.segments() {
        lemma_outside_all_segments(f, code, from + 1);
    }
}

/// In a subtable whose first segment is `[start, end]` with a range offset of zero, each code
/// of that segment maps to the code plus the segment's delta, modulo 65536.
pub proof fn lemma_first_segment_by_delta(f: Format4, code: int)
    requires
        f.segments() >= 1,
        f.id_range_offsets@[0] == 0,
        f.start_codes@[0] <= code <= f.end_codes@[0],
    ensures
        f.glyph(code) == Some(((code + f.id_deltas@[0]) % 0x1_0000) as u16),
{
}

impl Format6 {
    /// The glyph of a code: the entry at the code's distance from the first code.
    pub open spec fn glyph(self, code: int) -> Option<u16> {
        if code >= self.first_code && code - self.first_code < self.glyph_id_array@.len() {
            Some(self.glyph_id_array@[code - self.first_code])
        } else {
            None
        }
    }

    /// The glyph of a 16-bit code.
    pub fn get_glyph(&self, char_code: u16) -> (r: Option<u16>)
        ensures
            r == self.glyph(char_code as int),
    {
        if char_code >= self.first_code {
            let index = (char_code - self.first_code) as usize;
            if index < self.glyph_id_array.len() {
                return Some(self.glyph_id_array[index]);
            }
        }
        None
    }
}

impl Format12 {
    /// The first group from `from` on that contains the code.
    pub open spec fn group_of(self, code: int, from: int) -> Option<int>
        decreases self.groups@.len() - from,
    {
        if from < 0 || from >= self.groups@.len() {
            None
        } else if self.groups@[from].start_char_code <= code <= self.groups@[from].end_char_code {
            Some(from)
        } else {
            self.group_of(code, from + 1)
        }
    }

    /// The glyph of a code: the start glyph of the first group that contains it plus the
    /// code's distance from the group's start, modulo 2^32.
    pub open spec fn glyph(self, code: int) -> Option<u32> {
        match self.group_of(code, 0) {
            Some(i) => Some(group_glyph(self.groups@[i], code) as u32),
            None => None,
        }
    }

    /// The glyph of a 32-bit code.
    pub fn get_glyph(&self, char_code: u32) -> (r: Option<u32>)
        ensures
            r == self.glyph(char_code as int),
    {
        let mut i: usize = 0;
        while i < self.groups.len()
            invariant
                i <= self.groups.len(),
                self.group_of(char_code as int, 0) == self.group_of(char_code as int, i as int),
            decreases self.groups.len() - i,
        {
            let group = self.groups[i];
            if group.start_char_code <= char_code && char_code <= group.end_char_code {
                let sum: u64 = group.start_glyph_code as u64 + (char_code
                    - group.start_char_code) as u64;
                return Some((sum % 0x1_0000_0000) as u32);
            }
            i = i + 1;
        }
        None
    }
}

impl Format13 {
    /// The first group from `from` on that contains the code.
    pub open spec fn group_of(self, code: int, from: int) -> Option<int>
        decreases self.groups@.len() - from,
    {
        if from < 0 || from >= self.groups@.len() {
            None
        } else if self.groups@[from].start_char_code <= code <= self.groups@[from].end_char_code {
            Some(from)
        } else {
            self.group_of(code, from + 1)
        }
    }

    /// The glyph of a code: the one glyph of the first group that contains it.
    pub open spec fn glyph(self, code: int) -> Option<u32> {
        match self.group_of(code, 0) {
            Some(i) => Some(self.groups@[i].glyph_code),
            None => None,
        }
    }

    /// The glyph of a 32-bit code.
    pub fn get_glyph(&self, char_code: u32) -> (r: Option<u32>)
        ensures
            r == self.glyph(char_code as int),
    {
        let mut i: usize = 0;
        while i < self.groups.len()
            invariant
                i <= self.groups.len(),
                self.group_of(char_code as int, 0) == self.group_of(char_code as int, i as int),
            decreases self.groups.len() - i,
        {
            let group = self.groups[i];
            if group.start_char_code <= char_code && char_code <= group.end_char_code {
                return Some(group.glyph_code);
            }
            i = i + 1;
        }
        None
    }
}

impl CmapSubtable {
    /// The glyph this subtable gives a code. Format 0 has nothing above 0xFF, formats 4 and 6
    /// nothing above 0xFFFF.
    pub open spec fn glyph(self, code: int) -> Option<u32> {
        match self {
            CmapSubtable::Format0(f) => if code <= 0xFF {
                match f.glyph(code) {
                    Some(g) => Some(g as u32),
                    None => None,
                }
            } else {
                None
            },
            CmapSubtable::Format4(f) => if code <= 0xFFFF {
                match f.glyph(code) {
                    Some(g) => Some(g as u32),
                    None => None,
                }
            } else {
                None
            },
            CmapSubtable::Format6(f) => if code <= 0xFFFF {
                match f.glyph(code) {
                    Some(g) => Some(g as u32),
                    None => None,
                }
            } else {
                None
            },
            CmapSubtable::Format12(f) => f.glyph(code),
            CmapSubtable::Format13(f) => f.glyph(code),
        }
    }

    /// The glyph this subtable gives a code.
    pub fn get_glyph(&self, code: u32) -> (r: Option<u32>)
        ensures
            r == self.glyph(code as int),
    {
        match self {
            CmapSubtable::Format0(f) => {
                if code <= 0xFF {
                    match f.get_glyph(code as u8) {
                        Some(g) => Some(g as u32),
                        None => None,
                    }
                } else {
                    None
                }
            },
            CmapSubtable::Format4(f) => {
                if code <= 0xFFFF {
                    match f.get_glyph(code as u16) {
                        Some(g) => Some(g as u32),
                        None => None,
                    }
                } else {
                    None
                }
            },
            CmapSubtable::Format6(f) => {
                if code <= 0xFFFF {
                    match f.get_glyph(code as u16) {
                        Some(g) => Some(g as u32),
                        None => None,
                    }
                } else {
                    None
                }
            },
            CmapSubtable::Format12(f) => f.get_glyph(code),
            CmapSubtable::Format13(f) => f.get_glyph(code),
        }
    }
}

/// The index of the first record from `from` on for this platform and encoding.
pub open spec fn first_encoding(
    records: Seq<EncodingRecord>,
    platform_id: u16,
    encoding_id: u16,
    from: int,
) -> Option<int>
    decreases records.len() - from,
{
    if from < 0 || from >= records.len() {
        None
    } else if records[from].platform_id == platform_id && records[from].encoding_id
        == encoding_id {
        Some(from)
    } else {
        first_encoding(records, platform_id, encoding_id, from + 1)
    }
}

/// The record that decides which subtable is used. The encodings are tried in this order:
/// Windows Unicode BMP (3, 1), Unicode 2.0 (0, 4), Unicode 1.1 (0, 3), Windows Symbol (3, 0),
/// Macintosh Roman (1, 0); of each, the first record counts.
pub open spec fn preferred_record(records: Seq<EncodingRecord>) -> Option<int> {
    if first_encoding(records, 3, 1, 0) is Some {
        first_encoding(records, 3, 1, 0)
    } else if first_encoding(records, 0, 4, 0) is Some {
        first_encoding(records, 0, 4, 0)
    } else if first_encoding(records, 0, 3, 0) is Some {
        first_encoding(records, 0, 3, 0)
    } else if first_encoding(records, 3, 0, 0) is Some {
        first_encoding(records, 3, 0, 0)
    } else {
        first_encoding(records, 1, 0, 0)
    }
}

impl CmapTable {
    /// The index of the subtable that lookups use: that of the preferred record, where there
    /// is one and it has a subtable; the first subtable, where no record is preferred.
    pub open spec fn best_index(self) -> Option<int> {
        match preferred_record(self.encoding_records@) {
            Some(i) => if i < self.subtables@.len() {
                Some(i)
            } else {
                None
            },
            None => if self.subtables@.len() > 0 {
                Some(0)
            } else {
                None
            },
        }
    }

    /// The glyph of a code: what the best subtable gives it.
    pub open spec fn glyph(self, code: int) -> Option<u32> {
        match self.best_index() {
            Some(i) => self.subtables@[i].glyph(code),
            None => None,
        }
    }

    fn find_encoding(&self, platform_id: u16, encoding_id: u16) -> (r: Option<usize>)
        ensures
            match r {
                Some(i) => first_encoding(self.encoding_records@, platform_id, encoding_id, 0)
                    == Some(i as int),
                None => first_encoding(self.encoding_records@, platform_id, encoding_id, 0) is None,
            },
    {
        let mut i: usize = 0;
        while i < self.encoding_records.len()
            invariant
                i <= self.encoding_records.len(),
                first_encoding(self.encoding_records@, platform_id, encoding_id, 0)
                    == first_encoding(self.encoding_records@, platform_id, encoding_id, i as int),
            decreases self.encoding_records.len() - i,
        {
            if self.encoding_records[i].platform_id == platform_id
                && self.encoding_records[i].encoding_id == encoding_id {
                return Some(i);
            }
            i = i + 1;
        }
        None
    }

    fn find_preferred(&self) -> (r: Option<usize>)
        ensures
            match r {
                Some(i) => preferred_record(self.encoding_records@) == Some(i as int),
                None => preferred_record(self.encoding_records@) is None,
            },
    {
        let found = self.find_encoding(3, 1);
        if found.is_some() {
            return found;
        }
        let found = self.find_encoding(0, 4);
        if found.is_some() {
            return found;
        }
        let found = self.find_encoding(0, 3);
        if found.is_some() {
            return found;
        }
        let found = self.find_encoding(3, 0);
        if found.is_some() {
            return found;
        }
        self.find_encoding(1, 0)
    }

    /// The subtable that lookups use.
    pub fn get_best_subtable(&self) -> (r: Option<&CmapSubtable>)
        ensures
            match self.best_index() {
                Some(i) => r == Some(&self.subtables@[i]),
                None => r is None,
            },
    {
        match self.find_preferred() {
            Some(i) => {
                if i < self.subtables.len() {
                    Some(&self.subtables[i])
                } else {
                    None
                }
            },
            None => {
                if self.subtables.len() > 0 {
                    Some(&self.subtables[0])
                } else {
                    None
                }
            },
        }
    }

    /// The glyph of a character: what the best subtable gives its code. A code that the
    /// subtable's format cannot hold has no glyph; no other subtable is asked.
    pub fn map_char(&self, c: char) -> (r: Option<u32>)
        ensures
            r == self.glyph(c as u32 as int),
    {
        let code: u32 = c as u32;
        match self.get_best_subtable() {
            Some(subtable) => subtable.get_glyph(code),
            None => None,
        }
    }
}

} // verus!
