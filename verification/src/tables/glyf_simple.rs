//! Decoding the outline of a simple glyph.

use crate::error::{parse_error, truncated, TtfError};
use crate::stream::FontReader;
use crate::tables::glyf::SimpleGlyph;
use crate::wire::{be_i16, be_u16, signed};
use vstd::prelude::*;

verus! {

/// What becomes of decoding run-length encoded flags.
pub enum FlagsOutcome {
    /// The flags, and the place behind their encoding.
    Done { flags: Seq<u8>, end: int },
    /// The data ends before the flags do.
    Truncated,
    /// A run gives more flags than there are points.
    Overrun,
}

/// `count` copies of `flag`.
pub open spec fn repeated(flag: u8, count: int) -> Seq<u8> {
    Seq::new(count as nat, |i: int| flag)
}

/// The outcome `o` with `prefix` put before its flags.
pub open spec fn after(prefix: Seq<u8>, o: FlagsOutcome) -> FlagsOutcome {
    match o {
        FlagsOutcome::Done { flags, end } => FlagsOutcome::Done { flags: prefix + flags, end },
        other => other,
    }
}

/// Decodes exactly `want` flags from `s[pos..]`. Each flag byte stands for itself; where its
/// bit 0x08 is set, the next byte says how many more copies of it follow.
pub open spec fn flags_run(s: Seq<u8>, pos: int, want: int) -> FlagsOutcome
    decreases want,
{
    if want <= 0 {
        FlagsOutcome::Done { flags: Seq::empty(), end: pos }
    } else if pos < 0 || pos >= s.len() {
        FlagsOutcome::Truncated
    } else if s[pos] & 0x08 != 0 {
        if pos + 1 >= s.len() {
            FlagsOutcome::Truncated
        } else if 1 + s[pos + 1] > want {
            FlagsOutcome::Overrun
        } else {
            after(repeated(s[pos], 1 + s[pos + 1]), flags_run(s, pos + 2, want - 1 - s[pos + 1]))
        }
    } else {
        after(repeated(s[pos], 1), flags_run(s, pos + 1, want - 1))
    }
}

/// The bytes that the coordinate of a point with this flag takes: one where `short` is set,
/// none where it is clear and `same` is set, two where both are clear.
pub open spec fn delta_width(flag: u8, short: u8, same: u8) -> int {
    if flag & short != 0 {
        1
    } else if flag & same != 0 {
        0
    } else {
        2
    }
}

/// The place behind the first `k` coordinates of an array that starts at `start`.
pub open spec fn coords_end(flags: Seq<u8>, start: int, k: int, short: u8, same: u8) -> int
    decreases k,
{
    if k <= 0 {
        start
    } else {
        coords_end(flags, start, k - 1, short, same) + delta_width(flags[k - 1], short, same)
    }
}

/// The step from one point to the next, read at `s[at..]` under the point's flag: a signed
/// byte, taken as it is where `same` is set and negated where it is clear; or nothing, for a
/// step of zero; or a signed 16-bit value.
pub open spec fn delta_at(s: Seq<u8>, at: int, flag: u8, short: u8, same: u8) -> int {
    if flag & short != 0 {
        if flag & same != 0 {
            signed(s[at] as int, 0x80)
        } else {
            -signed(s[at] as int, 0x80)
        }
    } else if flag & same != 0 {
        0
    } else {
        be_i16(s, at)
    }
}

/// A sum brought back into the signed 16-bit range by wrapping.
pub open spec fn wrap16(v: int) -> int {
    if v > 32767 {
        v - 0x1_0000
    } else if v < -32768 {
        v + 0x1_0000
    } else {
        v
    }
}

/// The absolute coordinate after `k` steps from zero, each sum wrapped to 16 bits.
pub open spec fn coord_after(
    s: Seq<u8>,
    flags: Seq<u8>,
    start: int,
    k: int,
    short: u8,
    same: u8,
) -> int
    decreases k,
{
    if k <= 0 {
        0
    } else {
        wrap16(
            coord_after(s, flags, start, k - 1, short, same) + delta_at(
                s,
                coords_end(flags, start, k - 1, short, same),
                flags[k - 1],
                short,
                same,
            ),
        )
    }
}

/// The number of points of an outline whose contour end points are the `n` values at
/// `s[p..]`: one more than the last end point.
pub open spec fn point_count(s: Seq<u8>, p: int, n: int) -> int {
    if n <= 0 {
        0
    } else {
        be_u16(s, p + 2 * (n - 1)) + 1
    }
}

/// Where the flags of an outline with `n` contours at `s[p..]` start: behind the end points,
/// the instruction length and the instructions.
pub open spec fn flags_start(s: Seq<u8>, p: int, n: int) -> int {
    p + 2 * n + 2 + be_u16(s, p + 2 * n)
}

/// What becomes of decoding a simple outline.
pub enum OutlineOutcome {
    /// The outline lies inside the data and ends at `end`.
    Fits { end: int },
    /// The data ends before the outline does.
    Truncated,
    /// The outline contradicts itself.
    Malformed,
}

/// What becomes of decoding the outline with `n` contours at `s[p..]`.
pub open spec fn outline_outcome(s: Seq<u8>, p: int, n: int) -> OutlineOutcome {
    if p + 2 * n + 2 > s.len() || flags_start(s, p, n) > s.len() {
        OutlineOutcome::Truncated
    } else {
        match flags_run(s, flags_start(s, p, n), point_count(s, p, n)) {
            FlagsOutcome::Truncated => OutlineOutcome::Truncated,
            FlagsOutcome::Overrun => OutlineOutcome::Malformed,
            FlagsOutcome::Done { flags, end } => {
                let x_end = coords_end(flags, end, flags.len() as int, 0x02, 0x10);
                let y_end = coords_end(flags, x_end, flags.len() as int, 0x04, 0x20);
                if y_end > s.len() {
                    OutlineOutcome::Truncated
                } else {
                    OutlineOutcome::Fits { end: y_end }
                }
            },
        }
    }
}

impl SimpleGlyph {
    /// The outline is what the bytes at `s[p..]` encode for a glyph of `n` contours: the
    /// contour end points, the instructions, the flags with their runs expanded, and the
    /// coordinates as running sums of the steps.
    pub open spec fn decodes(self, s: Seq<u8>, p: int, n: int) -> bool {
        let points = point_count(s, p, n);
        &&& self.end_pts_of_contours@.len() == n
        &&& forall|i: int|
            0 <= i < n ==> #[trigger] self.end_pts_of_contours@[i] == be_u16(s, p + 2 * i)
        &&& self.instruction_length == be_u16(s, p + 2 * n)
        &&& self.instructions@ == s.subrange(p + 2 * n + 2, flags_start(s, p, n))
        &&& flags_run(s, flags_start(s, p, n), points) matches FlagsOutcome::Done { flags, end }
        &&& self.flags@ == flags
        &&& self.x_coordinates@.len() == points
        &&& self.y_coordinates@.len() == points
        &&& forall|k: int|
            0 <= k < points ==> #[trigger] self.x_coordinates@[k] == coord_after(
                s,
                flags,
                end,
                k + 1,
                0x02,
                0x10,
            )
        &&& forall|k: int|
            0 <= k < points ==> #[trigger] self.y_coordinates@[k] == coord_after(
                s,
                flags,
                coords_end(flags, end, points, 0x02, 0x10),
                k + 1,
                0x04,
                0x20,
            )
    }
}

/// Putting one prefix and then another before an outcome is putting both before it.
proof fn lemma_after_after(a: Seq<u8>, b: Seq<u8>, o: FlagsOutcome)
    ensures
        after(a, after(b, o)) == after(a + b, o),
{
    if let FlagsOutcome::Done { flags, end } = o {
        assert(a + (b + flags) =~= (a + b) + flags);
    }
}

/// Flags that decode are exactly as many as were asked for.
pub proof fn lemma_flags_run_len(s: Seq<u8>, pos: int, want: int)
    requires
        want >= 0,
    ensures
        flags_run(s, pos, want) matches FlagsOutcome::Done { flags, end } ==> flags.len() == want
            && pos <= end,
    decreases want,
{
    if want > 0 && 0 <= pos < s.len() {
        if s[pos] & 0x08 != 0 {
            if pos + 1 < s.len() && 1 + s[pos + 1] <= want {
                lemma_flags_run_len(s, pos + 2, want - 1 - s[pos + 1]);
            }
        } else {
            lemma_flags_run_len(s, pos + 1, want - 1);
        }
    }
}

/// The coordinates of fewer points end no later than those of more.
pub proof fn lemma_coords_end_grows(flags: Seq<u8>, start: int, i: int, k: int, short: u8, same: u8)
    requires
        0 <= i <= k,
    ensures
        coords_end(flags, start, i, short, same) <= coords_end(flags, start, k, short, same),
        coords_end(flags, start, k, short, same) <= start + 2 * k,
        start <= coords_end(flags, start, i, short, same),
    decreases k,
{
    if k > 0 {
        if i < k {
            lemma_coords_end_grows(flags, start, i, k - 1, short, same);
        } else {
            lemma_coords_end_grows(flags, start, i - 1, k - 1, short, same);
        }
    }
}

/// Decodes the run-length encoded flags of `want` points, starting `off` bytes ahead of the
/// cursor. Returns the flags and the offset behind their encoding.
#[verifier::loop_isolation(false)]
fn read_flags(reader: &FontReader, off: usize, want: usize) -> (r: Result<(Vec<u8>, usize), TtfError>)
    requires
        reader@.has(off as int),
    ensures
        match flags_run(reader@.data, reader@.pos + off, want as int) {
            FlagsOutcome::Done { flags, end } => r is Ok && r->Ok_0.0@ == flags && reader@.pos
                + r->Ok_0.1 == end && end <= reader@.data.len(),
            FlagsOutcome::Truncated => r is Err && r->Err_0.is_truncated(),
            FlagsOutcome::Overrun => r is Err && r->Err_0.is_parse_error(),
        },
{
    let ghost s = reader@.data;
    let ghost p = reader@.pos;
    let room = reader.remaining();
    let mut flags: Vec<u8> = Vec::new();
    let mut at: usize = off;
    proof {
        lemma_after_after(Seq::empty(), Seq::empty(), flags_run(s, p + off, want as int));
        assert(Seq::<u8>::empty() + Seq::<u8>::empty() =~= Seq::<u8>::empty());
        assert(after(Seq::empty(), flags_run(s, p + off, want as int)) == flags_run(
            s,
            p + off,
            want as int,
        )) by {
            if let FlagsOutcome::Done { flags, end } = flags_run(s, p + off, want as int) {
                assert(Seq::<u8>::empty() + flags =~= flags);
            }
        }
    }
    while flags.len() < want
        invariant
            flags@.len() <= want,
            at <= room,
            flags_run(s, p + off, want as int) == after(
                flags@,
                flags_run(s, p + at, want - flags@.len()),
            ),
        decreases want - flags.len(),
    {
        let ghost before = flags@;
        let ghost rest = want - flags@.len();
        if at >= room {
            return Err(truncated());
        }
        let flag = reader.peek_u8(at);
        if flag & 0x08 != 0 {
            if at + 1 >= room {
                return Err(truncated());
            }
            let repeat = reader.peek_u8(at + 1) as usize;
            if 1 + repeat > want - flags.len() {
                return Err(parse_error("Flag run exceeds the point count"));
            }
            let mut j: usize = 0;
            while j < 1 + repeat
                invariant
                    j <= 1 + repeat,
                    flags@ == before + repeated(flag, j as int),
                decreases 1 + repeat - j,
            {
                flags.push(flag);
                j = j + 1;
                assert(flags@ =~= before + repeated(flag, j as int));
            }
            proof {
                lemma_after_after(
                    before,
                    repeated(flag, 1 + repeat),
                    flags_run(s, p + at + 2, rest - 1 - repeat),
                );
            }
            at = at + 2;
        } else {
            flags.push(flag);
            proof {
                assert(flags@ =~= before + repeated(flag, 1));
                lemma_after_after(before, repeated(flag, 1), flags_run(s, p + at + 1, rest - 1));
            }
            at = at + 1;
        }
    }
    proof {
        assert(flags@ + Seq::<u8>::empty() =~= flags@);
    }
    Ok((flags, at))
}

/// The step of one point, read `at` bytes ahead of the cursor under the point's flag.
fn read_delta(reader: &FontReader, at: usize, flag: u8, short: u8, same: u8) -> (d: i16)
    requires
        reader@.has(at + delta_width(flag, short, same)),
    ensures
        d == delta_at(reader@.data, reader@.pos + at, flag, short, same),
{
    if flag & short != 0 {
        let b = reader.peek_u8(at);
        let v: i16 = if b >= 0x80 {
            b as i16 - 0x100
        } else {
            b as i16
        };
        if flag & same != 0 {
            v
        } else {
            -v
        }
    } else if flag & same != 0 {
        0
    } else {
        reader.peek_i16(at)
    }
}

/// Decodes one coordinate array, starting `off` bytes ahead of the cursor. Returns the
/// coordinates and the offset behind the array.
#[verifier::loop_isolation(false)]
fn read_coords(reader: &FontReader, off: usize, flags: &Vec<u8>, short: u8, same: u8) -> (r: Option<
    (Vec<i16>, usize),
>)
    requires
        reader@.has(off as int),
    ensures
        ({
            let s = reader@.data;
            let start = reader@.pos + off;
            let end = coords_end(flags@, start, flags@.len() as int, short, same);
            match r {
                Some((coords, after)) => {
                    &&& end <= s.len()
                    &&& reader@.pos + after == end
                    &&& coords@.len() == flags@.len()
                    &&& forall|k: int|
                        0 <= k < coords@.len() ==> #[trigger] coords@[k] == coord_after(
                            s,
                            flags@,
                            start,
                            k + 1,
                            short,
                            same,
                        )
                },
                None => end > s.len(),
            }
        }),
{
    let ghost s = reader@.data;
    let ghost start = reader@.pos + off;
    let room = reader.remaining();
    let n = flags.len();
    let mut coords: Vec<i16> = Vec::with_capacity(n);
    let mut at: usize = off;
    let mut value: i16 = 0;
    let mut k: usize = 0;
    while k < n
        invariant
            k <= n,
            at <= room,
            reader@.pos + at == coords_end(flags@, start, k as int, short, same),
            value == coord_after(s, flags@, start, k as int, short, same),
            coords@.len() == k,
            forall|j: int|
                0 <= j < k ==> #[trigger] coords@[j] == coord_after(
                    s,
                    flags@,
                    start,
                    j + 1,
                    short,
                    same,
                ),
        decreases n - k,
    {
        let flag = flags[k];
        let width: usize = if flag & short != 0 {
            1
        } else if flag & same != 0 {
            0
        } else {
            2
        };
        if room - at < width {
            proof {
                lemma_coords_end_grows(flags@, start, k + 1, n as int, short, same);
            }
            return None;
        }
        let delta = read_delta(reader, at, flag, short, same);
        let sum: i32 = value as i32 + delta as i32;
        value = if sum > 32767 {
            (sum - 0x1_0000) as i16
        } else if sum < -32768 {
            (sum + 0x1_0000) as i16
        } else {
            sum as i16
        };
        coords.push(value);
        at = at + width;
        k = k + 1;
    }
    Some((coords, at))
}

impl SimpleGlyph {
    /// Decodes the outline of a simple glyph of `num_contours` contours, which starts at the
    /// cursor, and moves past it.
    ///
    /// Fails with an end-of-data error where the bytes run out, and with a parse error where
    /// a run of flags gives more flags than the outline has points. A failure leaves the
    /// cursor where it was.
    pub fn read(reader: &mut FontReader, num_contours: usize) -> (r: Result<SimpleGlyph, TtfError>)
        ensures
            final(reader)@.data == old(reader)@.data,
            match outline_outcome(old(reader)@.data, old(reader)@.pos, num_contours as int) {
                OutlineOutcome::Fits { end } => r is Ok && r->Ok_0.decodes(
                    old(reader)@.data,
                    old(reader)@.pos,
                    num_contours as int,
                ) && final(reader)@ == old(reader)@.at(end),
                OutlineOutcome::Truncated => r is Err && r->Err_0.is_truncated() && final(reader)@
                    == old(reader)@,
                OutlineOutcome::Malformed => r is Err && r->Err_0.is_parse_error() && final(reader)@ == old(reader)@,
            },
    {
        let ghost s = reader@.data;
        let ghost p = reader@.pos;
        let room = reader.remaining();
        let n = num_contours;
        if room / 2 < n || room - 2 * n < 2 {
            return Err(truncated());
        }
        let end_pts_of_contours = reader.peek_u16_array(0, n);
        let instruction_length = reader.peek_u16(2 * n);
        let flags_off: usize = 2 * n + 2;
        if room - flags_off < instruction_length as usize {
            return Err(truncated());
        }
        let instructions = reader.peek_bytes(flags_off, instruction_length as usize);
        let flags_off: usize = flags_off + instruction_length as usize;
        let points: usize = if n == 0 {
            0
        } else {
            end_pts_of_contours[n - 1] as usize + 1
        };
        let (flags, x_off) = read_flags(reader, flags_off, points)?;
        proof {
            lemma_flags_run_len(s, p + flags_off, points as int);
        }
        let (x_coordinates, y_off) = match read_coords(reader, x_off, &flags, 0x02, 0x10) {
            Some(found) => found,
            None => {
                proof {
                    lemma_coords_end_grows(
                        flags@,
                        coords_end(flags@, p + x_off, flags@.len() as int, 0x02, 0x10),
                        0,
                        flags@.len() as int,
                        0x04,
                        0x20,
                    );
                }
                return Err(truncated());
            },
        };
        let (y_coordinates, end_off) = match read_coords(reader, y_off, &flags, 0x04, 0x20) {
            Some(found) => found,
            None => { return Err(truncated()); },
        };
        reader.advance_by(end_off);
        Ok(
            SimpleGlyph {
                end_pts_of_contours,
                instruction_length,
                instructions,
                flags,
                x_coordinates,
                y_coordinates,
            },
        )
    }
}

} // verus!
