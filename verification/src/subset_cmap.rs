//! The character map of a subset font: one format 4 subtable made from the pairs that survive.

use crate::error::{parse_error, TtfError};
use crate::font::{lemma_log2_floor, log2_floor, pow2};
use crate::stream::FontWriter;
use crate::tables::cmap::{CmapSubtable, CmapTable, Format4};
use crate::wire::{i16s_bytes, u16_bytes, u16s_bytes, u32_bytes};
use vstd::prelude::*;

verus! {

/// The pairs of character code and glyph id ascend strictly by code, and every code is below
/// 0xFFFF and every glyph id at most 0xFFFF: what a format 4 subtable can hold beside its
/// closing segment.
pub open spec fn sorted_pairs(m: Seq<(u32, u32)>) -> bool {
    &&& forall|i: int, j: int| 0 <= i < j < m.len() ==> m[i].0 < m[j].0
    &&& forall|i: int| 0 <= i < m.len() ==> m[i].0 < 0xFFFF && m[i].1 <= 0xFFFF
}

/// Pair `i` goes on where pair `i - 1` ends: the next code, with the same delta modulo 65536.
pub open spec fn continues(m: Seq<(u32, u32)>, i: int) -> bool {
    m[i].0 == m[i - 1].0 + 1 && (m[i].1 - m[i].0) % 0x1_0000 == (m[i - 1].1 - m[i - 1].0)
        % 0x1_0000
}

/// The number of segments that the first `k` pairs are grouped into: a new one starts with
/// the first pair and with each pair that does not continue the one before it.
pub open spec fn groups(m: Seq<(u32, u32)>, k: int) -> int
    decreases k,
{
    if k <= 0 {
        0
    } else if k == 1 || !continues(m, k - 1) {
        groups(m, k - 1) + 1
    } else {
        groups(m, k - 1)
    }
}

/// The delta of a segment that takes code `c` to glyph `g`: the signed 16-bit number that is
/// `g - c` modulo 65536.
pub open spec fn delta_of(c: int, g: int) -> int {
    if g - c > 32767 {
        g - c - 0x1_0000
    } else if g - c < -32768 {
        g - c + 0x1_0000
    } else {
        g - c
    }
}

/// The start codes of the segments that the first `k` pairs are grouped into: the code of
/// each pair that starts a segment.
pub open spec fn segment_starts(m: Seq<(u32, u32)>, k: int) -> Seq<u16>
    decreases k,
{
    if k <= 0 {
        Seq::empty()
    } else if k == 1 || !continues(m, k - 1) {
        segment_starts(m, k - 1).push(m[k - 1].0 as u16)
    } else {
        segment_starts(m, k - 1)
    }
}

/// The end codes of the segments that the first `k` pairs are grouped into: for each
/// segment the code of the last pair that continues it.
pub open spec fn segment_ends(m: Seq<(u32, u32)>, k: int) -> Seq<u16>
    decreases k,
{
    if k <= 0 {
        Seq::empty()
    } else if k == 1 || !continues(m, k - 1) {
        segment_ends(m, k - 1).push(m[k - 1].0 as u16)
    } else {
        segment_ends(m, k - 1).drop_last().push(m[k - 1].0 as u16)
    }
}

/// The deltas of the segments that the first `k` pairs are grouped into: for each segment
/// the delta of the pair that starts it.
pub open spec fn segment_deltas(m: Seq<(u32, u32)>, k: int) -> Seq<i16>
    decreases k,
{
    if k <= 0 {
        Seq::empty()
    } else if k == 1 || !continues(m, k - 1) {
        segment_deltas(m, k - 1).push(delta_of(m[k - 1].0 as int, m[k - 1].1 as int) as i16)
    } else {
        segment_deltas(m, k - 1)
    }
}

/// The largest number of segments whose subtable still has a 16-bit length.
pub const MAX_SEGMENTS: usize = 8189;

impl Format4 {
    /// The subtable is of the plain kind that subsetting writes: `segments` segments that map
    /// by delta alone, no glyph id array, and header fields to match.
    pub open spec fn plain(self, segments: int) -> bool {
        &&& self.format == 4
        &&& self.language == 0
        &&& self.length == 16 + 8 * segments
        &&& self.seg_count_x2 == 2 * segments
        &&& self.entry_selector == log2_floor((2 * segments) as nat)
        &&& self.search_range == pow2(self.entry_selector as nat)
        &&& self.range_shift == 2 * segments - self.search_range
        &&& self.end_codes@.len() == segments
        &&& self.start_codes@.len() == segments
        &&& self.id_deltas@.len() == segments
        &&& self.id_range_offsets@.len() == segments
        &&& forall|j: int| 0 <= j < segments ==> self.id_range_offsets@[j] == 0
        &&& self.glyph_id_array@.len() == 0
    }

    /// The segments are in order and apart, and the closing segment for the code 0xFFFF is
    /// the last: no segment ends before it starts, each ends before the next starts, and the
    /// last runs from 0xFFFF to 0xFFFF with the delta 1.
    pub open spec fn in_order(self) -> bool {
        let n = self.start_codes@.len() as int;
        &&& n >= 1
        &&& self.end_codes@.len() == n
        &&& self.id_deltas@.len() == n
        &&& forall|j: int| 0 <= j < n ==> self.start_codes@[j] <= self.end_codes@[j]
        &&& forall|j: int, l: int|
            0 <= j < l < n ==> self.end_codes@[j] < self.start_codes@[l]
        &&& self.start_codes@[n - 1] == 0xFFFF
        &&& self.end_codes@[n - 1] == 0xFFFF
        &&& self.id_deltas@[n - 1] == 1
    }

    /// The segments are those that the pairs `m` are grouped into, one for each run of
    /// consecutive codes that share a delta, and the closing segment behind them.
    pub open spec fn groups_of(self, m: Seq<(u32, u32)>) -> bool {
        &&& self.start_codes@ == segment_starts(m, m.len() as int).push(0xFFFFu16)
        &&& self.end_codes@ == segment_ends(m, m.len() as int).push(0xFFFFu16)
        &&& self.id_deltas@ == segment_deltas(m, m.len() as int).push(1i16)
    }

    /// The subtable is the one that subsetting writes for the pairs `m`: of the plain kind,
    /// with the segments of `m` in order and the closing segment last, so that it holds
    /// exactly the pairs.
    pub open spec fn written_for(self, m: Seq<(u32, u32)>) -> bool {
        &&& self.plain(groups(m, m.len() as int) + 1)
        &&& self.groups_of(m)
        &&& self.in_order()
        &&& self.holds(m)
    }

    /// The subtable holds exactly the pairs `m`: each code of `m` maps to its glyph, the
    /// closing code 0xFFFF maps to glyph 0, and no other code maps to anything.
    pub open spec fn holds(self, m: Seq<(u32, u32)>) -> bool {
        &&& forall|i: int| 0 <= i < m.len() ==> self.glyph(m[i].0 as int) == Some(m[i].1 as u16)
        &&& self.glyph(0xFFFF) == Some(0u16)
        &&& forall|c: int|
            0 <= c < 0xFFFF && (forall|i: int| 0 <= i < m.len() ==> m[i].0 != c) ==> self.glyph(c)
                is None
    }
}

/// The delta that takes code `c` to glyph `g` modulo 65536.
fn delta_for(c: u32, g: u32) -> (d: i16)
    requires
        c <= 0xFFFF,
        g <= 0xFFFF,
    ensures
        d == delta_of(c as int, g as int),
        (c + d) % 0x1_0000 == g,
        d as int % 0x1_0000 == (g - c) % 0x1_0000,
{
    let diff: i32 = g as i32 - c as i32;
    if diff > 32767 {
        (diff - 0x1_0000) as i16
    } else if diff < -32768 {
        (diff + 0x1_0000) as i16
    } else {
        diff as i16
    }
}

/// Code `c` lies in segment `j`.
spec fn within(starts: Seq<u16>, ends: Seq<u16>, j: int, c: int) -> bool {
    starts[j] <= c && c <= ends[j]
}

/// Some pair before `k` has the code `c`.
spec fn has_code(m: Seq<(u32, u32)>, k: int, c: int) -> bool {
    exists|i: int| 0 <= i < k && #[trigger] m[i].0 == c
}

/// Some segment contains the code of pair `i` and takes it to the pair's glyph.
spec fn served(starts: Seq<u16>, ends: Seq<u16>, deltas: Seq<i16>, m: Seq<(u32, u32)>, i: int) -> bool {
    exists|j: int|
        0 <= j < starts.len() && #[trigger] within(starts, ends, j, m[i].0 as int) && (m[i].0
            + deltas[j]) % 0x1_0000 == m[i].1
}

/// The segments built so far, as three arrays, do what the pairs before `k` ask: they are in
/// order and apart, every pair lies in one of them with the right delta, and every code of a
/// segment is the code of a pair.
#[verifier::opaque]
spec fn covers(
    starts: Seq<u16>,
    ends: Seq<u16>,
    deltas: Seq<i16>,
    m: Seq<(u32, u32)>,
    k: int,
) -> bool {
    &&& starts.len() == ends.len() == deltas.len()
    &&& forall|j: int| 0 <= j < starts.len() ==> #[trigger] starts[j] <= ends[j] && ends[j] < 0xFFFF
    &&& forall|j: int, l: int| 0 <= j < l < starts.len() ==> #[trigger] ends[j] < #[trigger] starts[l]
    &&& forall|i: int| 0 <= i < k ==> #[trigger] served(starts, ends, deltas, m, i)
    &&& forall|j: int, c: int|
        0 <= j < starts.len() && #[trigger] within(starts, ends, j, c) ==> has_code(m, k, c)
}

impl Format4 {
    /// Segment `j` is the first segment that contains `c`, in a subtable whose segments are
    /// in order and apart.
    proof fn lemma_segment_found(self, c: int, j: int, from: int)
        requires
            0 <= from <= j < self.segments(),
            self.contains(j, c),
            forall|a: int, b: int|
                0 <= a < b < self.segments() ==> self.end_codes@[a] < self.start_codes@[b],
            forall|a: int| 0 <= a < self.segments() ==> self.start_codes@[a] <= self.end_codes@[a],
        ensures
            self.segment_of(c, from) == Some(j),
        decreases j - from,
    {
        if from < j {
            assert(!self.contains(from, c));
            self.lemma_segment_found(c, j, from + 1);
        }
    }

    /// No segment from `from` on contains `c`.
    proof fn lemma_segment_missing(self, c: int, from: int)
        requires
            0 <= from,
            forall|j: int| from <= j < self.segments() ==> !self.contains(j, c),
        ensures
            self.segment_of(c, from) is None,
        decreases self.segments() - from,
    {
        if from < self.segments() {
            self.lemma_segment_missing(c, from + 1);
        }
    }
}

/// The code plus the delta, modulo 65536.
fn wrapped_sum(c: u32, d: i16) -> (e: i32)
    requires
        c <= 0xFFFF,
    ensures
        e == (c + d) % 0x1_0000,
{
    let sum: i32 = c as i32 + d as i32;
    if sum < 0 {
        sum + 0x1_0000
    } else if sum >= 0x1_0000 {
        sum - 0x1_0000
    } else {
        sum
    }
}

/// Pair `i` continues the pair before it exactly if it has the next code and its glyph is
/// what the running delta makes of that code; and then the delta is the pair's own.
proof fn lemma_step(m: Seq<(u32, u32)>, i: int, delta: i16, expected: int)
    requires
        sorted_pairs(m),
        1 <= i < m.len(),
        delta as int % 0x1_0000 == (m[i - 1].1 - m[i - 1].0) % 0x1_0000,
        expected == (m[i].0 + delta) % 0x1_0000,
    ensures
        (m[i].0 == m[i - 1].0 + 1 && m[i].1 == expected) <==> continues(m, i),
        m[i].1 == expected ==> delta as int % 0x1_0000 == (m[i].1 - m[i].0) % 0x1_0000,
        m[i].1 == expected ==> (m[i].0 + delta) % 0x1_0000 == m[i].1,
{
    let c = m[i].0 as int;
    let g = m[i].1 as int;
    let d = delta as int;
    assert(0 <= g < 0x1_0000);
    assert(((c + d) % 0x1_0000 == g) <==> (d % 0x1_0000 == (g - c) % 0x1_0000)) by {
        let q = (c + d) / 0x1_0000;
        let r = (c + d) % 0x1_0000;
        let q2 = d / 0x1_0000;
        let r2 = d % 0x1_0000;
        let q3 = (g - c) / 0x1_0000;
        let r3 = (g - c) % 0x1_0000;
        assert(c + d == 0x1_0000 * q + r);
        assert(d == 0x1_0000 * q2 + r2);
        assert(g - c == 0x1_0000 * q3 + r3);
    }
}

/// One segment for the first pair alone covers the first pair.
proof fn lemma_single(start: u16, delta: i16, m: Seq<(u32, u32)>)
    requires
        sorted_pairs(m),
        m.len() > 0,
        m[0].0 == start,
        (m[0].0 + delta) % 0x1_0000 == m[0].1,
    ensures
        covers(
            Seq::<u16>::empty().push(start),
            Seq::<u16>::empty().push(start),
            Seq::<i16>::empty().push(delta),
            m,
            1,
        ),
{
    reveal(covers);
    let s1 = Seq::<u16>::empty().push(start);
    let e1 = Seq::<u16>::empty().push(start);
    let d1 = Seq::<i16>::empty().push(delta);
    assert(within(s1, e1, 0, m[0].0 as int));
    assert(served(s1, e1, d1, m, 0));
    assert forall|j: int, c: int| 0 <= j < s1.len() && #[trigger] within(s1, e1, j, c) implies has_code(
        m,
        1,
        c,
    ) by {
        assert(m[0].0 == c);
    }
}

/// Covering segments still cover when the last of them grows by the next code, which pair
/// `i` has with the segment's delta.
proof fn lemma_extend(
    starts: Seq<u16>,
    ends: Seq<u16>,
    deltas: Seq<i16>,
    cur_start: u16,
    old_end: u16,
    new_end: u16,
    cur_delta: i16,
    m: Seq<(u32, u32)>,
    i: int,
)
    requires
        sorted_pairs(m),
        1 <= i < m.len(),
        covers(starts.push(cur_start), ends.push(old_end), deltas.push(cur_delta), m, i),
        new_end == old_end + 1,
        m[i].0 == new_end,
        (m[i].0 + cur_delta) % 0x1_0000 == m[i].1,
    ensures
        covers(starts.push(cur_start), ends.push(new_end), deltas.push(cur_delta), m, i + 1),
{
    reveal(covers);
    let s0 = starts.push(cur_start);
    let e0 = ends.push(old_end);
    let d0 = deltas.push(cur_delta);
    let e1 = ends.push(new_end);
    let last = starts.len() as int;
    assert forall|j: int| 0 <= j < s0.len() implies #[trigger] s0[j] <= e1[j] && e1[j] < 0xFFFF by {
        assert(s0[j] <= e0[j] && e0[j] < 0xFFFF);
    }
    assert forall|j: int, l: int| 0 <= j < l < s0.len() implies #[trigger] e1[j] < #[trigger] s0[l] by {
        assert(e0[j] < s0[l]);
    }
    assert forall|k: int| 0 <= k < i + 1 implies #[trigger] served(s0, e1, d0, m, k) by {
        if k < i {
            assert(served(s0, e0, d0, m, k));
            let j = choose|j: int|
                0 <= j < s0.len() && #[trigger] within(s0, e0, j, m[k].0 as int) && (m[k].0 + d0[j])
                    % 0x1_0000 == m[k].1;
            assert(within(s0, e1, j, m[k].0 as int));
        } else {
            assert(s0[last] <= e0[last]);
            assert(within(s0, e1, last, m[k].0 as int));
        }
    }
    assert forall|j: int, cc: int| 0 <= j < s0.len() && #[trigger] within(s0, e1, j, cc) implies has_code(
        m,
        i + 1,
        cc,
    ) by {
        if j == last && cc == new_end {
            assert(m[i].0 == cc);
        } else {
            assert(within(s0, e0, j, cc));
            assert(has_code(m, i, cc));
            let k = choose|k: int| 0 <= k < i && #[trigger] m[k].0 == cc;
            assert(m[k].0 == cc);
        }
    }
}

/// Covering segments still cover when a new segment is opened for pair `i` alone.
proof fn lemma_open(
    s0: Seq<u16>,
    e0: Seq<u16>,
    d0: Seq<i16>,
    cur_start: u16,
    cur_delta: i16,
    m: Seq<(u32, u32)>,
    i: int,
)
    requires
        sorted_pairs(m),
        1 <= i < m.len(),
        covers(s0, e0, d0, m, i),
        m[i].0 == cur_start,
        (m[i].0 + cur_delta) % 0x1_0000 == m[i].1,
    ensures
        covers(s0.push(cur_start), e0.push(cur_start), d0.push(cur_delta), m, i + 1),
{
    reveal(covers);
    let s1 = s0.push(cur_start);
    let e1 = e0.push(cur_start);
    let d1 = d0.push(cur_delta);
    let fresh = s0.len() as int;
    assert forall|j: int, l: int| 0 <= j < l < s1.len() implies #[trigger] e1[j] < #[trigger] s1[l] by {
        if l == fresh {
            assert(s0[j] <= e0[j]);
            assert(within(s0, e0, j, e0[j] as int));
            assert(has_code(m, i, e0[j] as int));
            let k = choose|k: int| 0 <= k < i && #[trigger] m[k].0 == e0[j] as int;
            assert(m[k].0 < m[i].0);
        } else {
            assert(e0[j] < s0[l]);
        }
    }
    assert forall|k: int| 0 <= k < i + 1 implies #[trigger] served(s1, e1, d1, m, k) by {
        if k < i {
            assert(served(s0, e0, d0, m, k));
            let j = choose|j: int|
                0 <= j < s0.len() && #[trigger] within(s0, e0, j, m[k].0 as int) && (m[k].0 + d0[j])
                    % 0x1_0000 == m[k].1;
            assert(within(s1, e1, j, m[k].0 as int));
        } else {
            assert(within(s1, e1, fresh, m[k].0 as int));
        }
    }
    assert forall|j: int, cc: int| 0 <= j < s1.len() && #[trigger] within(s1, e1, j, cc) implies has_code(
        m,
        i + 1,
        cc,
    ) by {
        if j == fresh {
            assert(m[i].0 == cc);
        } else {
            assert(within(s0, e0, j, cc));
            assert(has_code(m, i, cc));
            let k = choose|k: int| 0 <= k < i && #[trigger] m[k].0 == cc;
            assert(m[k].0 == cc);
        }
    }
    assert forall|j: int| 0 <= j < s1.len() implies #[trigger] s1[j] <= e1[j] && e1[j] < 0xFFFF by {
        if j < fresh {
            assert(s0[j] <= e0[j] && e0[j] < 0xFFFF);
        }
    }
}

/// Groups the pairs into segments: consecutive codes that share a delta make one segment.
/// Returns the start codes, end codes and deltas of the segments, or nothing where there
/// are too many segments for a subtable with a 16-bit length.
#[verifier::loop_isolation(false)]
fn group_segments(mappings: &[(u32, u32)]) -> (r: Option<(Vec<u16>, Vec<u16>, Vec<i16>)>)
    requires
        sorted_pairs(mappings@),
    ensures
        match r {
            Some((starts, ends, deltas)) => {
                &&& starts@.len() == ends@.len() == deltas@.len()
                &&& starts@.len() == groups(mappings@, mappings@.len() as int)
                &&& starts@.len() + 1 <= MAX_SEGMENTS
                &&& starts@ == segment_starts(mappings@, mappings@.len() as int)
                &&& ends@ == segment_ends(mappings@, mappings@.len() as int)
                &&& deltas@ == segment_deltas(mappings@, mappings@.len() as int)
                &&& covers(starts@, ends@, deltas@, mappings@, mappings@.len() as int)
            },
            None => groups(mappings@, mappings@.len() as int) + 1 > MAX_SEGMENTS,
        },
{
    let ghost m = mappings@;
    let n = mappings.len();
    let mut starts: Vec<u16> = Vec::new();
    let mut ends: Vec<u16> = Vec::new();
    let mut deltas: Vec<i16> = Vec::new();
    if n == 0 {
        proof {
            reveal(covers);
        }
        return Some((starts, ends, deltas));
    }
    let mut cur_start: u16 = mappings[0].0 as u16;
    let mut cur_end: u16 = cur_start;
    let mut cur_delta: i16 = delta_for(mappings[0].0, mappings[0].1);
    let mut i: usize = 1;
    proof {
        reveal_with_fuel(groups, 2);
        reveal_with_fuel(segment_starts, 2);
        reveal_with_fuel(segment_ends, 2);
        reveal_with_fuel(segment_deltas, 2);
        assert(groups(m, 1) == 1);
        assert(starts@.push(cur_start) =~= segment_starts(m, 1));
        assert(ends@.push(cur_end) =~= segment_ends(m, 1));
        assert(deltas@.push(cur_delta) =~= segment_deltas(m, 1));
        lemma_single(cur_start, cur_delta, m);
    }
    while i < n
        invariant
            1 <= i <= n,
            starts@.push(cur_start) == segment_starts(m, i as int),
            ends@.push(cur_end) == segment_ends(m, i as int),
            deltas@.push(cur_delta) == segment_deltas(m, i as int),
            starts@.len() == ends@.len() == deltas@.len(),
            starts@.len() + 1 == groups(m, i as int),
            starts@.len() + 2 <= MAX_SEGMENTS,
            cur_end == m[i - 1].0,
            cur_delta as int % 0x1_0000 == (m[i - 1].1 - m[i - 1].0) % 0x1_0000,
            covers(starts@.push(cur_start), ends@.push(cur_end), deltas@.push(cur_delta), m, i as int),
        decreases n - i,
    {
        let c = mappings[i].0;
        let g = mappings[i].1;
        let ghost s0 = starts@.push(cur_start);
        let ghost e0 = ends@.push(cur_end);
        let ghost d0 = deltas@.push(cur_delta);
        let ghost last = starts@.len() as int;
        let expected: i32 = wrapped_sum(c, cur_delta);
        proof {
            lemma_step(m, i as int, cur_delta, expected as int);
        }
        if c == cur_end as u32 + 1 && g as i32 == expected {
            cur_end = c as u16;
            proof {
                assert(continues(m, i as int));
                assert(ends@.push(cur_end) =~= e0.drop_last().push(c as u16));
                lemma_extend(starts@, ends@, deltas@, cur_start, e0.last(), cur_end, cur_delta, m, i as int);
            }
        } else {
            if starts.len() + 3 > MAX_SEGMENTS {
                proof {
                    lemma_groups_grow(m, i as int + 1, n as int);
                }
                return None;
            }
            starts.push(cur_start);
            ends.push(cur_end);
            deltas.push(cur_delta);
            cur_start = c as u16;
            cur_end = c as u16;
            cur_delta = delta_for(c, g);
            proof {
                assert(!continues(m, i as int));
                lemma_open(s0, e0, d0, cur_start, cur_delta, m, i as int);
            }
        }
        i = i + 1;
    }
    starts.push(cur_start);
    ends.push(cur_end);
    deltas.push(cur_delta);
    Some((starts, ends, deltas))
}

/// A subtable whose segments are the covering segments of `m` followed by the closing
/// segment holds exactly the pairs `m`.
proof fn lemma_covering_holds(f: Format4, m: Seq<(u32, u32)>)
    requires
        f.segments() >= 1,
        f.segments() == f.start_codes@.len() == f.end_codes@.len() == f.id_deltas@.len(),
        f.id_range_offsets@.len() == f.segments(),
        forall|j: int| 0 <= j < f.segments() ==> f.id_range_offsets@[j] == 0,
        covers(
            f.start_codes@.drop_last(),
            f.end_codes@.drop_last(),
            f.id_deltas@.drop_last(),
            m,
            m.len() as int,
        ),
        f.start_codes@.last() == 0xFFFF,
        f.end_codes@.last() == 0xFFFF,
        f.id_deltas@.last() == 1,
        forall|i: int| 0 <= i < m.len() ==> m[i].1 <= 0xFFFF,
    ensures
        f.holds(m),
        f.in_order(),
{
    reveal(covers);
    let body_starts = f.start_codes@.drop_last();
    let body_ends = f.end_codes@.drop_last();
    let body_deltas = f.id_deltas@.drop_last();
    let last = f.segments() - 1;
    assert forall|a: int, b: int| 0 <= a < b < f.segments() implies f.end_codes@[a]
        < f.start_codes@[b] by {
        if b < last {
            assert(body_ends[a] < body_starts[b]);
        } else {
            assert(body_starts[a] <= body_ends[a] && body_ends[a] < 0xFFFF);
        }
    }
    assert forall|a: int| 0 <= a < f.segments() implies f.start_codes@[a] <= f.end_codes@[a] by {
        if a < last {
            assert(body_starts[a] <= body_ends[a] && body_ends[a] < 0xFFFF);
        }
    }
    assert forall|i: int| 0 <= i < m.len() implies f.glyph(m[i].0 as int) == Some(
        m[i].1 as u16,
    ) by {
        assert(served(body_starts, body_ends, body_deltas, m, i));
        let j = choose|j: int|
            0 <= j < body_starts.len() && #[trigger] within(body_starts, body_ends, j, m[i].0 as int)
                && (m[i].0 + body_deltas[j]) % 0x1_0000 == m[i].1;
        assert(f.contains(j, m[i].0 as int));
        f.lemma_segment_found(m[i].0 as int, j, 0);
    }
    assert(f.glyph(0xFFFF) == Some(0u16)) by {
        assert(f.contains(last, 0xFFFF));
        f.lemma_segment_found(0xFFFF, last, 0);
    }
    assert forall|c: int|
        0 <= c < 0xFFFF && (forall|i: int| 0 <= i < m.len() ==> m[i].0 != c) implies f.glyph(c)
        is None by {
        assert forall|j: int| 0 <= j < f.segments() implies !f.contains(j, c) by {
            if j < last && f.contains(j, c) {
                assert(within(body_starts, body_ends, j, c));
                assert(has_code(m, m.len() as int, c));
                let i = choose|i: int| 0 <= i < m.len() && #[trigger] m[i].0 == c;
                assert(false);
            }
        }
        f.lemma_segment_missing(c, 0);
    }
}

/// Builds the format 4 subtable that holds the given pairs: consecutive codes that share a
/// delta are grouped into one segment, the segments stand in the order of their codes, and
/// a closing segment for the code 0xFFFF ends the list. Fails with a parse error for no
/// pairs at all, and with `InvalidSize` where there are more segments than a subtable with a
/// 16-bit length can hold.
pub fn build_format4_subset(mappings: &[(u32, u32)]) -> (r: Result<Format4, TtfError>)
    requires
        sorted_pairs(mappings@),
    ensures
        mappings@.len() == 0 ==> r is Err && r->Err_0.is_parse_error(),
        mappings@.len() > 0 && groups(mappings@, mappings@.len() as int) + 1 > MAX_SEGMENTS ==> r
            is Err && r->Err_0 is InvalidSize,
        mappings@.len() > 0 && groups(mappings@, mappings@.len() as int) + 1 <= MAX_SEGMENTS ==> r
            is Ok && r->Ok_0.written_for(mappings@),
{
    if mappings.len() == 0 {
        return Err(parse_error("No mappings for subset"));
    }
    format4_for(mappings)
}

/// The format 4 subtable that holds the given pairs, which may be none at all: then the
/// closing segment is its only one. Fails with `InvalidSize` where there are more segments
/// than a subtable with a 16-bit length can hold.
#[verifier::loop_isolation(false)]
pub fn format4_for(mappings: &[(u32, u32)]) -> (r: Result<Format4, TtfError>)
    requires
        sorted_pairs(mappings@),
    ensures
        r is Ok <==> groups(mappings@, mappings@.len() as int) + 1 <= MAX_SEGMENTS,
        r matches Ok(f) ==> f.written_for(mappings@),
        r matches Err(e) ==> e is InvalidSize,
{
    let (mut starts, mut ends, mut deltas) = match group_segments(mappings) {
        Some(found) => found,
        None => {
            return Err(
                TtfError::InvalidSize { expected: 8189, actual: mappings.len() as u64 },
            );
        },
    };
    let ghost body_starts = starts@;
    let ghost body_ends = ends@;
    let ghost body_deltas = deltas@;
    starts.push(0xFFFF);
    ends.push(0xFFFF);
    deltas.push(1);
    let segments: usize = starts.len();
    let seg_count_x2: u16 = (2 * segments) as u16;
    let mut search_range: u16 = 1;
    let mut entry_selector: u16 = 0;
    while search_range as u32 * 2 <= seg_count_x2 as u32
        invariant
            search_range == pow2(entry_selector as nat),
            1 <= search_range <= seg_count_x2,
            entry_selector < search_range,
        decreases seg_count_x2 - search_range,
    {
        search_range = search_range * 2;
        entry_selector = entry_selector + 1;
    }
    proof {
        lemma_log2_floor(seg_count_x2 as nat, entry_selector as nat);
    }
    let range_shift: u16 = seg_count_x2 - search_range;
    let mut id_range_offsets: Vec<u16> = Vec::with_capacity(segments);
    let mut k: usize = 0;
    while k < segments
        invariant
            k <= segments,
            id_range_offsets@.len() == k,
            forall|j: int| 0 <= j < k ==> id_range_offsets@[j] == 0,
        decreases segments - k,
    {
        id_range_offsets.push(0);
        k = k + 1;
    }
    let format4 = Format4 {
        format: 4,
        length: (16 + 8 * segments) as u16,
        language: 0,
        seg_count_x2,
        search_range,
        entry_selector,
        range_shift,
        end_codes: ends,
        start_codes: starts,
        id_deltas: deltas,
        id_range_offsets,
        glyph_id_array: Vec::new(),
    };
    proof {
        assert(format4.start_codes@.drop_last() =~= body_starts);
        assert(format4.end_codes@.drop_last() =~= body_ends);
        assert(format4.id_deltas@.drop_last() =~= body_deltas);
        lemma_covering_holds(format4, mappings@);
        assert(format4.groups_of(mappings@));
    }
    Ok(format4)
}

/// More pairs are grouped into no fewer segments.
proof fn lemma_groups_grow(m: Seq<(u32, u32)>, i: int, k: int)
    requires
        0 <= i <= k,
    ensures
        groups(m, i) <= groups(m, k),
    decreases k - i,
{
    if i < k {
        lemma_groups_grow(m, i, k - 1);
    }
}

impl Format4 {
    /// The bytes that encode the subtable: the header, the end codes, two bytes of padding,
    /// the start codes, the deltas, the range offsets and the glyph ids.
    pub open spec fn encoding(self) -> Seq<u8> {
        u16_bytes(self.format as int) + u16_bytes(self.length as int) + u16_bytes(
            self.language as int,
        ) + u16_bytes(self.seg_count_x2 as int) + u16_bytes(self.search_range as int) + u16_bytes(
            self.entry_selector as int,
        ) + u16_bytes(self.range_shift as int) + u16s_bytes(
            self.end_codes@,
            self.end_codes@.len() as int,
        ) + u16_bytes(0) + u16s_bytes(self.start_codes@, self.start_codes@.len() as int)
            + i16s_bytes(self.id_deltas@, self.id_deltas@.len() as int) + u16s_bytes(
            self.id_range_offsets@,
            self.id_range_offsets@.len() as int,
        ) + u16s_bytes(self.glyph_id_array@, self.glyph_id_array@.len() as int)
    }
}

/// The bytes of a character map with one subtable, for Windows Unicode BMP: version 0, one
/// encoding record (3, 1) that points behind itself, and the subtable.
pub open spec fn single_cmap_encoding(format4: Format4) -> Seq<u8> {
    u16_bytes(0) + u16_bytes(1) + u16_bytes(3) + u16_bytes(1) + u32_bytes(12) + format4.encoding()
}

/// Encodes a character map whose one subtable is `format4`, filed under Windows Unicode BMP.
pub fn write_cmap_subset(format4: &Format4) -> (bytes: Vec<u8>)
    ensures
        bytes@ == single_cmap_encoding(*format4),
{
    let mut writer = FontWriter::new();
    writer.write_u16(0);
    writer.write_u16(1);
    writer.write_u16(3);
    writer.write_u16(1);
    writer.write_u32(12);
    let ghost head = writer@;
    assert(head =~= u16_bytes(0) + u16_bytes(1) + u16_bytes(3) + u16_bytes(1) + u32_bytes(12));
    writer.write_u16(format4.format);
    writer.write_u16(format4.length);
    writer.write_u16(format4.language);
    writer.write_u16(format4.seg_count_x2);
    writer.write_u16(format4.search_range);
    writer.write_u16(format4.entry_selector);
    writer.write_u16(format4.range_shift);
    writer.write_u16s(format4.end_codes.as_slice());
    writer.write_u16(0);
    writer.write_u16s(format4.start_codes.as_slice());
    writer.write_i16s(format4.id_deltas.as_slice());
    writer.write_u16s(format4.id_range_offsets.as_slice());
    writer.write_u16s(format4.glyph_id_array.as_slice());
    assert(writer@ =~= head + format4.encoding());
    writer.into_inner()
}

/// Whether the values ascend strictly: each is larger than the one before it.
pub open spec fn strictly_ascending(ids: Seq<u32>) -> bool {
    forall|i: int, j: int| 0 <= i < j < ids.len() ==> ids[i] < ids[j]
}

/// The new id of the glyph with the old id `old`: its place among the retained ids.
pub open spec fn new_id(retained: Seq<u32>, old: u32) -> Option<int> {
    if retained.contains(old) {
        Some(retained.index_of(old))
    } else {
        None
    }
}

/// The place of `id` among the ascending ids, found by halving.
pub fn find_id(retained: &[u32], id: u32) -> (r: Option<usize>)
    requires
        strictly_ascending(retained@),
    ensures
        match r {
            Some(i) => i < retained@.len() && retained@[i as int] == id && new_id(retained@, id)
                == Some(i as int),
            None => !retained@.contains(id) && new_id(retained@, id) is None,
        },
{
    let mut lo: usize = 0;
    let mut hi: usize = retained.len();
    while lo < hi
        invariant
            lo <= hi <= retained.len(),
            strictly_ascending(retained@),
            forall|k: int| 0 <= k < lo ==> retained@[k] < id,
            forall|k: int| hi <= k < retained@.len() ==> retained@[k] > id,
        decreases hi - lo,
    {
        let mid = lo + (hi - lo) / 2;
        let v = retained[mid];
        if v == id {
            proof {
                let found = retained@.index_of(id);
                assert(retained@.contains(id));
                if found < mid {
                    assert(retained@[found] < retained@[mid as int]);
                } else if found > mid {
                    assert(retained@[mid as int] < retained@[found]);
                }
            }
            return Some(mid);
        } else if v < id {
            lo = mid + 1;
        } else {
            hi = mid;
        }
    }
    None
}

/// The new glyph id that one subtable gives a code: the new id of the glyph it maps the code
/// to, where that glyph is retained.
pub open spec fn candidate(sub: CmapSubtable, retained: Seq<u32>, c: int) -> Option<int> {
    match sub.glyph(c) {
        Some(g) => new_id(retained, g),
        None => None,
    }
}

/// The smaller of two choices, where nothing is larger than anything.
pub open spec fn least(a: Option<int>, b: Option<int>) -> Option<int> {
    match (a, b) {
        (Some(x), Some(y)) => if x <= y {
            Some(x)
        } else {
            Some(y)
        },
        (Some(x), None) => Some(x),
        (None, other) => other,
    }
}

/// The new glyph id of a code in the subset: the least that any of the first `n` subtables
/// gives it.
pub open spec fn subset_glyph(
    subtables: Seq<CmapSubtable>,
    retained: Seq<u32>,
    c: int,
    n: int,
) -> Option<int>
    decreases n,
{
    if n <= 0 {
        None
    } else {
        least(
            subset_glyph(subtables, retained, c, n - 1),
            candidate(subtables[n - 1], retained, c),
        )
    }
}

/// The pairs are the codes below `limit` that have a glyph in the subset, each with that
/// glyph.
pub open spec fn pairs_upto(
    pairs: Seq<(u32, u32)>,
    cmap: CmapTable,
    retained: Seq<u32>,
    limit: int,
) -> bool {
    &&& forall|i: int, j: int| 0 <= i < j < pairs.len() ==> pairs[i].0 < pairs[j].0
    &&& forall|i: int|
        0 <= i < pairs.len() ==> (#[trigger] pairs[i]).0 < limit && subset_glyph(
            cmap.subtables@,
            retained,
            pairs[i].0 as int,
            cmap.subtables@.len() as int,
        ) == Some(pairs[i].1 as int)
    &&& forall|c: int|
        0 <= c < limit && subset_glyph(
            cmap.subtables@,
            retained,
            c,
            cmap.subtables@.len() as int,
        ) is Some ==> exists|i: int| 0 <= i < pairs.len() && (#[trigger] pairs[i]).0 == c
}

/// The new glyph id of one code in the subset.
fn glyph_in_subset(cmap: &CmapTable, retained: &[u32], code: u32) -> (r: Option<u32>)
    requires
        strictly_ascending(retained@),
        retained@.len() <= 0x1_0000,
    ensures
        match r {
            Some(g) => subset_glyph(
                cmap.subtables@,
                retained@,
                code as int,
                cmap.subtables@.len() as int,
            ) == Some(g as int) && g < retained@.len(),
            None => subset_glyph(
                cmap.subtables@,
                retained@,
                code as int,
                cmap.subtables@.len() as int,
            ) is None,
        },
{
    let mut best: Option<u32> = None;
    let mut k: usize = 0;
    while k < cmap.subtables.len()
        invariant
            k <= cmap.subtables.len(),
            strictly_ascending(retained@),
            retained@.len() <= 0x1_0000,
            match best {
                Some(g) => subset_glyph(cmap.subtables@, retained@, code as int, k as int) == Some(
                    g as int,
                ) && g < retained@.len(),
                None => subset_glyph(cmap.subtables@, retained@, code as int, k as int) is None,
            },
        decreases cmap.subtables.len() - k,
    {
        let found = match cmap.subtables[k].get_glyph(code) {
            Some(g) => find_id(retained, g),
            None => None,
        };
        match found {
            Some(i) => {
                let fresh = i as u32;
                best = match best {
                    Some(g) => if g <= fresh {
                        Some(g)
                    } else {
                        Some(fresh)
                    },
                    None => Some(fresh),
                };
            },
            None => {},
        }
        proof {
            assert(candidate(cmap.subtables@[k as int], retained@, code as int) == match found {
                Some(i) => Some(i as int),
                None => None,
            });
        }
        k = k + 1;
    }
    best
}

/// The codes below `limit` that have a glyph in the subset, each with that glyph, in the
/// order of the codes.
pub open spec fn subset_pairs(cmap: CmapTable, retained: Seq<u32>, limit: int) -> Seq<(u32, u32)>
    decreases limit,
{
    if limit <= 0 {
        Seq::empty()
    } else {
        match subset_glyph(cmap.subtables@, retained, limit - 1, cmap.subtables@.len() as int) {
            Some(g) => subset_pairs(cmap, retained, limit - 1).push(((limit - 1) as u32, g as u32)),
            None => subset_pairs(cmap, retained, limit - 1),
        }
    }
}

/// Collects, for every code below 0xFFFF, the new glyph id that the code has in the subset:
/// the least new id among the retained glyphs that the subtables map the code to. The pairs
/// come out in ascending order of their codes.
#[verifier::loop_isolation(false)]
pub fn collect_mappings(cmap: &CmapTable, retained: &[u32]) -> (pairs: Vec<(u32, u32)>)
    requires
        strictly_ascending(retained@),
        retained@.len() <= 0x1_0000,
    ensures
        pairs@ == subset_pairs(*cmap, retained@, 0xFFFF),
        pairs_upto(pairs@, *cmap, retained@, 0xFFFF),
        sorted_pairs(pairs@),
{
    let mut pairs: Vec<(u32, u32)> = Vec::new();
    let mut code: u32 = 0;
    while code < 0xFFFF
        invariant
            code <= 0xFFFF,
            pairs@ == subset_pairs(*cmap, retained@, code as int),
            pairs_upto(pairs@, *cmap, retained@, code as int),
            forall|i: int| 0 <= i < pairs@.len() ==> (#[trigger] pairs@[i]).1 <= 0xFFFF,
        decreases 0xFFFF - code,
    {
        let ghost before = pairs@;
        match glyph_in_subset(cmap, retained, code) {
            Some(g) => {
                pairs.push((code, g));
                proof {
                    assert forall|c: int|
                        0 <= c < code + 1 && subset_glyph(
                            cmap.subtables@,
                            retained@,
                            c,
                            cmap.subtables@.len() as int,
                        ) is Some implies exists|i: int|
                        0 <= i < pairs@.len() && (#[trigger] pairs@[i]).0 == c by {
                        if c < code {
                            let i = choose|i: int|
                                0 <= i < before.len() && (#[trigger] before[i]).0 == c;
                            assert(pairs@[i].0 == c);
                        } else {
                            assert(pairs@[before.len() as int].0 == c);
                        }
                    }
                }
            },
            None => {},
        }
        code = code + 1;
    }
    pairs
}

/// The codes that have a glyph in the subset make no more segments than a subtable can
/// hold, however they are listed.
pub open spec fn mapping_fits(cmap: CmapTable, retained: Seq<u32>) -> bool {
    forall|pairs: Seq<(u32, u32)>| #[trigger]
        pairs_upto(pairs, cmap, retained, 0xFFFF) ==> groups(pairs, pairs.len() as int) + 1
            <= MAX_SEGMENTS
}

/// The character map of the subset: the bytes of a map with one format 4 subtable, filed
/// under Windows Unicode BMP, that holds the pairs of [`collect_mappings`] in segments and
/// the closing segment behind them; where no code has a glyph in the subset the closing
/// segment is the only one. Fails with `InvalidSize` where the pairs make too many
/// segments.
pub fn subset_cmap_table(cmap: &CmapTable, retained: &[u32]) -> (r: Result<Vec<u8>, TtfError>)
    requires
        strictly_ascending(retained@),
        retained@.len() <= 0x1_0000,
    ensures
        r is Ok <==> groups(
            subset_pairs(*cmap, retained@, 0xFFFF),
            subset_pairs(*cmap, retained@, 0xFFFF).len() as int,
        ) + 1 <= MAX_SEGMENTS,
        r matches Ok(bytes) ==> exists|format4: Format4| #[trigger]
            format4.written_for(subset_pairs(*cmap, retained@, 0xFFFF)) && bytes@
                == single_cmap_encoding(format4),
        pairs_upto(subset_pairs(*cmap, retained@, 0xFFFF), *cmap, retained@, 0xFFFF),
        r matches Err(e) ==> e is InvalidSize,
        mapping_fits(*cmap, retained@) ==> r is Ok,
{
    let pairs = collect_mappings(cmap, retained);
    let format4 = format4_for(pairs.as_slice())?;
    let bytes = write_cmap_subset(&format4);
    Ok(bytes)
}

} // verus!
