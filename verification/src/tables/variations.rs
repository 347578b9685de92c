//! The tables of variable fonts that describe the axes: `STAT`, `avar` and `fvar`.

use crate::error::{truncated, TtfError};
use crate::fixed::Fixed;
use crate::stream::FontReader;
use crate::tables::TtfTable;
use crate::wire::{be_i32, be_u16, be_u32};
use vstd::prelude::*;

verus! {

/// The style attributes table: the design axes. The axis values are not decoded and the list
/// stays empty.
#[derive(Debug, Clone)]
pub struct StatTable {
    pub version: u32,
    pub design_axis_count: u16,
    pub design_axes: Vec<DesignAxis>,
    pub axis_value_count: u16,
    pub axis_values: Vec<AxisValue>,
}

/// One design axis.
#[derive(Debug, Clone, Copy)]
pub struct DesignAxis {
    pub axis_tag: [u8; 4],
    pub axis_name_id: u16,
    pub axis_ordering: u16,
}

/// One value on a design axis.
#[derive(Debug, Clone, Copy)]
pub struct AxisValue {
    pub format: u16,
    pub axis_index: u16,
    pub value: Option<u16>,
    pub name_id: Option<u16>,
}

/// The axis variations table: for each axis a list of coordinates to map from and a list to
/// map to.
#[derive(Debug, Clone)]
pub struct AvarTable {
    pub version: u16,
    pub reserved: u16,
    pub axis_segment_maps: Vec<AxisSegmentMap>,
}

/// The two coordinate lists of one axis, as 16.16 fixed-point numbers.
#[derive(Debug, Clone)]
pub struct AxisSegmentMap {
    pub from_axis_count: u16,
    pub from_coordinate_array: Vec<Fixed>,
    pub to_axis_count: u16,
    pub to_coordinate_array: Vec<Fixed>,
}

/// The font variations table: the first axis, and the size and number of the instances. The
/// instances are not decoded and the list stays empty.
#[derive(Debug, Clone)]
pub struct FvarTable {
    pub version: u16,
    pub offset_to_axes: u16,
    pub count_size_pairs: u16,
    pub axes: Vec<Axis>,
    pub instance_size: u16,
    pub count_instances: u16,
    pub instances: Vec<Instance>,
}

/// One axis of variation, with its range as 16.16 fixed-point numbers.
#[derive(Debug, Clone, Copy)]
pub struct Axis {
    pub axis_tag: [u8; 4],
    pub axis_name_id: u16,
    pub min_value: Fixed,
    pub default_value: Fixed,
    pub max_value: Fixed,
    pub flags: u16,
    pub axis_name_id_short: u16,
}

/// One named instance.
#[derive(Debug, Clone)]
pub struct Instance {
    pub subfamily_name_id: u16,
    pub flags: u16,
    pub coordinates: Vec<Fixed>,
    pub post_script_name_id: Option<u16>,
}

impl DesignAxis {
    /// The axis is what the eight bytes at `s[q..]` encode.
    pub open spec fn decodes(self, s: Seq<u8>, q: int) -> bool {
        &&& self.axis_tag@ == s.subrange(q, q + 4)
        &&& self.axis_name_id == be_u16(s, q + 4)
        &&& self.axis_ordering == be_u16(s, q + 6)
    }
}

impl StatTable {
    /// The table is what the bytes at `s[p..]` encode: the version, the number of axes, the
    /// axes, and the number of axis values.
    pub open spec fn decodes(self, s: Seq<u8>, p: int) -> bool {
        &&& self.version == be_u32(s, p)
        &&& self.design_axis_count == be_u16(s, p + 4)
        &&& self.design_axes@.len() == self.design_axis_count
        &&& forall|i: int|
            0 <= i < self.design_axes@.len() ==> (#[trigger] self.design_axes@[i]).decodes(
                s,
                p + 6 + 8 * i,
            )
        &&& self.axis_value_count == be_u16(s, p + 6 + 8 * self.design_axis_count)
        &&& self.axis_values@.len() == 0
    }
}

impl TtfTable for StatTable {
    /// Decodes the table and moves past it. Fails with an end-of-data error, leaving the
    /// cursor where it was, where the bytes run out.
    #[verifier::loop_isolation(false)]
    fn from_reader(reader: &mut FontReader, length: u32) -> (r: Result<Self, TtfError>)
        ensures
            final(reader)@.data == old(reader)@.data,
            r is Ok <==> old(reader)@.has(6) && old(reader)@.has(
                8 + 8 * be_u16(old(reader)@.data, old(reader)@.pos + 4),
            ),
            r matches Ok(t) ==> t.decodes(old(reader)@.data, old(reader)@.pos) && final(reader)@
                == old(reader)@.advance(8 + 8 * t.design_axis_count),
            r matches Err(e) ==> final(reader)@ == old(reader)@ && e.is_truncated(),
    {
        let ghost s = reader@.data;
        let ghost p = reader@.pos;
        let room = reader.remaining();
        if room < 6 {
            return Err(truncated());
        }
        let version = reader.peek_u32(0);
        let design_axis_count = reader.peek_u16(4);
        let count = design_axis_count as usize;
        let total: usize = 8 + 8 * count;
        if room < total {
            return Err(truncated());
        }
        let mut design_axes: Vec<DesignAxis> = Vec::new();
        let mut i: usize = 0;
        while i < count
            invariant
                i <= count,
                reader@ == old(reader)@,
                design_axes@.len() == i,
                forall|k: int| 0 <= k < i ==> (#[trigger] design_axes@[k]).decodes(s, p + 6 + 8 * k),
            decreases count - i,
        {
            let at: usize = 6 + 8 * i;
            let axis_tag = [
                reader.peek_u8(at),
                reader.peek_u8(at + 1),
                reader.peek_u8(at + 2),
                reader.peek_u8(at + 3),
            ];
            assert(axis_tag@ =~= s.subrange(p + at, p + at + 4));
            design_axes.push(
                DesignAxis {
                    axis_tag,
                    axis_name_id: reader.peek_u16(at + 4),
                    axis_ordering: reader.peek_u16(at + 6),
                },
            );
            i = i + 1;
        }
        let axis_value_count = reader.peek_u16(6 + 8 * count);
        reader.advance_by(total);
        Ok(
            StatTable {
                version,
                design_axis_count,
                design_axes,
                axis_value_count,
                axis_values: Vec::new(),
            },
        )
    }
}

/// The `n` fixed-point numbers at `s[q..]` are the numbers `vs`.
pub open spec fn fixed_list(vs: Seq<Fixed>, s: Seq<u8>, q: int, n: int) -> bool {
    vs.len() == n && forall|i: int| 0 <= i < n ==> (#[trigger] vs[i]).raw == be_i32(s, q + 4 * i)
}

/// Where the second list of the segment map at `s[q..]` starts.
pub open spec fn map_second(s: Seq<u8>, q: int) -> int {
    q + 2 + 4 * be_u16(s, q)
}

/// The bytes that the segment map at `s[q..]` takes.
pub open spec fn map_size(s: Seq<u8>, q: int) -> int {
    map_second(s, q) + 2 + 4 * be_u16(s, map_second(s, q)) - q
}

/// Where segment map `k` of the table at `s[p..]` starts.
pub open spec fn map_start(s: Seq<u8>, p: int, k: int) -> int
    decreases k,
{
    if k <= 0 {
        p + 6
    } else {
        map_start(s, p, k - 1) + map_size(s, map_start(s, p, k - 1))
    }
}

/// The first `k` segment maps of the table at `s[p..]` lie inside the data.
pub open spec fn maps_fit(s: Seq<u8>, p: int, k: int) -> bool
    decreases k,
{
    if k <= 0 {
        p + 6 <= s.len()
    } else {
        let q = map_start(s, p, k - 1);
        &&& maps_fit(s, p, k - 1)
        &&& q + 2 <= s.len()
        &&& map_second(s, q) + 2 <= s.len()
        &&& q + map_size(s, q) <= s.len()
    }
}

/// Where more maps fit, fewer fit.
proof fn lemma_maps_fit_prefix(s: Seq<u8>, p: int, i: int, k: int)
    requires
        0 <= i <= k,
        maps_fit(s, p, k),
    ensures
        maps_fit(s, p, i),
    decreases k - i,
{
    if i < k {
        lemma_maps_fit_prefix(s, p, i, k - 1);
    }
}

impl AxisSegmentMap {
    /// The map is what the bytes at `s[q..]` encode: a count and that many numbers to map
    /// from, and a count and that many numbers to map to.
    pub open spec fn decodes(self, s: Seq<u8>, q: int) -> bool {
        &&& self.from_axis_count == be_u16(s, q)
        &&& fixed_list(self.from_coordinate_array@, s, q + 2, self.from_axis_count as int)
        &&& self.to_axis_count == be_u16(s, map_second(s, q))
        &&& fixed_list(
            self.to_coordinate_array@,
            s,
            map_second(s, q) + 2,
            self.to_axis_count as int,
        )
    }
}

/// The `n` fixed-point numbers that start `off` bytes ahead of the cursor.
fn peek_fixed_list(reader: &FontReader, off: usize, n: usize) -> (vs: Vec<Fixed>)
    requires
        reader@.has(off + 4 * n),
    ensures
        fixed_list(vs@, reader@.data, reader@.pos + off, n as int),
{
    let room = reader.remaining();
    let mut vs: Vec<Fixed> = Vec::new();
    let mut i: usize = 0;
    while i < n
        invariant
            i <= n,
            reader@.has(off + 4 * n),
            off + 4 * n <= room,
            vs@.len() == i,
            forall|k: int|
                0 <= k < i ==> (#[trigger] vs@[k]).raw == be_i32(
                    reader@.data,
                    reader@.pos + off + 4 * k,
                ),
        decreases n - i,
    {
        vs.push(reader.peek_fixed(off + 4 * i));
        i = i + 1;
    }
    vs
}

impl TtfTable for AvarTable {
    /// Decodes the table and moves past it. Fails with an end-of-data error, leaving the
    /// cursor where it was, where the bytes run out.
    #[verifier::loop_isolation(false)]
    fn from_reader(reader: &mut FontReader, length: u32) -> (r: Result<Self, TtfError>)
        ensures
            final(reader)@.data == old(reader)@.data,
            r is Ok <==> old(reader)@.has(6) && maps_fit(
                old(reader)@.data,
                old(reader)@.pos,
                be_u16(old(reader)@.data, old(reader)@.pos + 4) as int,
            ),
            r matches Ok(t) ==> {
                let s = old(reader)@.data;
                let p = old(reader)@.pos;
                &&& t.version == be_u16(s, p)
                &&& t.reserved == be_u16(s, p + 2)
                &&& t.axis_segment_maps@.len() == be_u16(s, p + 4)
                &&& forall|k: int|
                    0 <= k < t.axis_segment_maps@.len() ==> (#[trigger] t.axis_segment_maps@[k]).decodes(
                        s,
                        map_start(s, p, k),
                    )
                &&& final(reader)@ == old(reader)@.at(
                    map_start(s, p, t.axis_segment_maps@.len() as int),
                )
            },
            r matches Err(e) ==> final(reader)@ == old(reader)@ && e.is_truncated(),
    {
        let ghost s = reader@.data;
        let ghost p = reader@.pos;
        let room = reader.remaining();
        if room < 6 {
            return Err(truncated());
        }
        let version = reader.peek_u16(0);
        let reserved = reader.peek_u16(2);
        let axis_count = reader.peek_u16(4);
        let mut axis_segment_maps: Vec<AxisSegmentMap> = Vec::new();
        let mut at: usize = 6;
        let mut k: u16 = 0;
        while k < axis_count
            invariant
                k <= axis_count,
                reader@ == old(reader)@,
                at <= room,
                p + at == map_start(s, p, k as int),
                maps_fit(s, p, k as int),
                axis_segment_maps@.len() == k,
                forall|j: int|
                    0 <= j < k ==> (#[trigger] axis_segment_maps@[j]).decodes(s, map_start(s, p, j)),
            decreases axis_count - k,
        {
            proof {
                if maps_fit(s, p, axis_count as int) {
                    lemma_maps_fit_prefix(s, p, k as int + 1, axis_count as int);
                }
            }
            if room - at < 2 {
                return Err(truncated());
            }
            let from_axis_count = reader.peek_u16(at);
            if room - at - 2 < 4 * (from_axis_count as usize) + 2 {
                return Err(truncated());
            }
            let second: usize = at + 2 + 4 * (from_axis_count as usize);
            let to_axis_count = reader.peek_u16(second);
            if room - second - 2 < 4 * (to_axis_count as usize) {
                return Err(truncated());
            }
            let end: usize = second + 2 + 4 * (to_axis_count as usize);
            let from_coordinate_array = peek_fixed_list(reader, at + 2, from_axis_count as usize);
            let to_coordinate_array = peek_fixed_list(reader, second + 2, to_axis_count as usize);
            axis_segment_maps.push(
                AxisSegmentMap {
                    from_axis_count,
                    from_coordinate_array,
                    to_axis_count,
                    to_coordinate_array,
                },
            );
            at = end;
            k = k + 1;
        }
        reader.advance_by(at);
        Ok(AvarTable { version, reserved, axis_segment_maps })
    }
}

impl Axis {
    /// The axis is what the twenty-two bytes at `s[q..]` encode.
    pub open spec fn decodes(self, s: Seq<u8>, q: int) -> bool {
        &&& self.axis_tag@ == s.subrange(q, q + 4)
        &&& self.axis_name_id == be_u16(s, q + 4)
        &&& self.min_value.raw == be_i32(s, q + 6)
        &&& self.default_value.raw == be_i32(s, q + 10)
        &&& self.max_value.raw == be_i32(s, q + 14)
        &&& self.flags == be_u16(s, q + 18)
        &&& self.axis_name_id_short == be_u16(s, q + 20)
    }
}

impl FvarTable {
    /// Where the table at `s[p..]` ends: behind the header, where it declares no axis; else
    /// behind the first axis, which lies at its offset from the end of the header; and in
    /// either case behind the two numbers that follow.
    pub open spec fn end(s: Seq<u8>, p: int) -> int {
        if be_u16(s, p + 4) > 0 {
            p + 8 + be_u16(s, p + 2) + 22 + 4
        } else {
            p + 8 + 4
        }
    }

    /// The table is what the bytes at `s[p..]` encode.
    pub open spec fn decodes(self, s: Seq<u8>, p: int) -> bool {
        &&& self.version == be_u16(s, p)
        &&& self.offset_to_axes == be_u16(s, p + 2)
        &&& self.count_size_pairs == be_u16(s, p + 4)
        &&& if self.count_size_pairs > 0 {
            self.axes@.len() == 1 && self.axes@[0].decodes(s, p + 8 + self.offset_to_axes)
        } else {
            self.axes@.len() == 0
        }
        &&& self.instance_size == be_u16(s, Self::end(s, p) - 4)
        &&& self.count_instances == be_u16(s, Self::end(s, p) - 2)
        &&& self.instances@.len() == 0
    }
}

impl TtfTable for FvarTable {
    /// Decodes the header, the first axis where the table declares one, and the size and
    /// number of the instances, and moves past what it has read. Fails with an end-of-data
    /// error, leaving the cursor where it was, where the bytes run out.
    fn from_reader(reader: &mut FontReader, length: u32) -> (r: Result<Self, TtfError>)
        ensures
            final(reader)@.data == old(reader)@.data,
            r is Ok <==> old(reader)@.has(8) && Self::end(old(reader)@.data, old(reader)@.pos)
                <= old(reader)@.data.len(),
            r matches Ok(t) ==> t.decodes(old(reader)@.data, old(reader)@.pos) && final(reader)@
                == old(reader)@.at(Self::end(old(reader)@.data, old(reader)@.pos)),
            r matches Err(e) ==> final(reader)@ == old(reader)@ && e.is_truncated(),
    {
        let ghost s = reader@.data;
        let ghost p = reader@.pos;
        let room = reader.remaining();
        if room < 8 {
            return Err(truncated());
        }
        let version = reader.peek_u16(0);
        let offset_to_axes = reader.peek_u16(2);
        let count_size_pairs = reader.peek_u16(4);
        let mut axes: Vec<Axis> = Vec::new();
        let mut at: usize = 8;
        if count_size_pairs > 0 {
            at = 8 + offset_to_axes as usize;
            if room < at + 26 {
                return Err(truncated());
            }
            let axis_tag = [
                reader.peek_u8(at),
                reader.peek_u8(at + 1),
                reader.peek_u8(at + 2),
                reader.peek_u8(at + 3),
            ];
            assert(axis_tag@ =~= s.subrange(p + at, p + at + 4));
            axes.push(
                Axis {
                    axis_tag,
                    axis_name_id: reader.peek_u16(at + 4),
                    min_value: reader.peek_fixed(at + 6),
                    default_value: reader.peek_fixed(at + 10),
                    max_value: reader.peek_fixed(at + 14),
                    flags: reader.peek_u16(at + 18),
                    axis_name_id_short: reader.peek_u16(at + 20),
                },
            );
            at = at + 22;
        } else if room < 12 {
            return Err(truncated());
        }
        let instance_size = reader.peek_u16(at);
        let count_instances = reader.peek_u16(at + 2);
        reader.advance_by(at + 4);
        Ok(
            FvarTable {
                version,
                offset_to_axes,
                count_size_pairs,
                axes,
                instance_size,
                count_instances,
                instances: Vec::new(),
            },
        )
    }
}

} // verus!
