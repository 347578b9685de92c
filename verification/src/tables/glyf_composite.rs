//! Decoding the components of a composite glyph.

use crate::error::{truncated, TtfError};
use crate::stream::FontReader;
use crate::tables::glyf::{CompositeGlyph, GlyphComponent, Transform};
use crate::wire::{be_i16, be_u16, signed};
use vstd::prelude::*;

verus! {

/// The two arguments are 16-bit words, not bytes.
pub const ARGS_ARE_WORDS: u16 = 0x0001;

/// An explicit offset pair follows the matrix.
pub const HAS_OFFSET: u16 = 0x0008;

/// The matrix entry `yy` is stored.
pub const HAS_YY: u16 = 0x0010;

/// The matrix entry `yx` is stored; the same bit says that another component follows.
pub const HAS_YX_AND_MORE: u16 = 0x0020;

/// The matrix entry `xy` is stored.
pub const HAS_XY: u16 = 0x0040;

/// The matrix entry `xx` is stored.
pub const HAS_XX: u16 = 0x0080;

/// Two bytes where the bit is set in the flags, none where it is clear.
pub open spec fn stored(flags: u16, bit: u16) -> int {
    if flags & bit != 0 {
        2
    } else {
        0
    }
}

/// The bytes the two arguments take.
pub open spec fn args_width(flags: u16) -> int {
    if flags & 0x0001 != 0 {
        4
    } else {
        2
    }
}

/// The bytes a component with these flags takes: flags and glyph id, the two arguments, the
/// matrix entries that are stored, and the offset pair where there is one.
pub open spec fn component_size(flags: u16) -> int {
    4 + args_width(flags) + stored(flags, 0x0080) + stored(flags, 0x0040) + stored(flags, 0x0020)
        + stored(flags, 0x0010) + 2 * stored(flags, 0x0008)
}

/// A matrix entry: the 2.14 number stored at `s[at..]` where the bit is set, else `default`.
pub open spec fn matrix_entry(s: Seq<u8>, at: int, flags: u16, bit: u16, default: int) -> int {
    if flags & bit != 0 {
        be_i16(s, at)
    } else {
        default
    }
}

impl GlyphComponent {
    /// The component is what the bytes at `s[q..]` encode. The matrix entries come in the
    /// order xx, xy, yx, yy, each only where its bit is set; a missing xx or yy is one, a
    /// missing xy or yx is zero. The translation is the explicit offset pair where there is
    /// one and the two arguments otherwise, as whole units.
    pub open spec fn decodes(self, s: Seq<u8>, q: int) -> bool {
        let f = self.flags;
        let a = q + 4 + args_width(f);
        let b = a + stored(f, 0x0080);
        let c = b + stored(f, 0x0040);
        let d = c + stored(f, 0x0020);
        let e = d + stored(f, 0x0010);
        &&& self.flags == be_u16(s, q)
        &&& self.glyph_index == be_u16(s, q + 2)
        &&& self.arg1 == if f & 0x0001 != 0 {
            be_i16(s, q + 4)
        } else {
            signed(s[q + 4] as int, 0x80)
        }
        &&& self.arg2 == if f & 0x0001 != 0 {
            be_i16(s, q + 6)
        } else {
            signed(s[q + 5] as int, 0x80)
        }
        &&& self.transform.xx == matrix_entry(s, a, f, 0x0080, 16384)
        &&& self.transform.xy == matrix_entry(s, b, f, 0x0040, 0)
        &&& self.transform.yx == matrix_entry(s, c, f, 0x0020, 0)
        &&& self.transform.yy == matrix_entry(s, d, f, 0x0010, 16384)
        &&& self.transform.dx == 16384 * if f & 0x0008 != 0 {
            be_i16(s, e)
        } else {
            self.arg1 as int
        }
        &&& self.transform.dy == 16384 * if f & 0x0008 != 0 {
            be_i16(s, e + 2)
        } else {
            self.arg2 as int
        }
    }
}

/// Where component `k` of the composite at `s[q..]` starts: behind the components before it.
pub open spec fn component_start(s: Seq<u8>, q: int, k: int) -> int
    decreases k,
{
    if k <= 0 {
        q
    } else {
        let prev = component_start(s, q, k - 1);
        prev + component_size(be_u16(s, prev) as u16)
    }
}

/// The number of components of the composite at `s[q..]`: components are read until one
/// lacks the bit 0x20. None where the data ends first.
pub open spec fn composite_count(s: Seq<u8>, q: int) -> Option<int>
    decreases s.len() - q,
{
    if q < 0 || q + 4 > s.len() {
        None
    } else {
        let flags = be_u16(s, q) as u16;
        if q + component_size(flags) > s.len() {
            None
        } else if flags & 0x0020 == 0 {
            Some(1)
        } else {
            match composite_count(s, q + component_size(flags)) {
                Some(n) => Some(n + 1),
                None => None,
            }
        }
    }
}

/// A count raised by `k`.
pub open spec fn raised(count: Option<int>, k: int) -> Option<int> {
    match count {
        Some(n) => Some(n + k),
        None => None,
    }
}

/// The bytes a stored matrix entry takes.
fn width_of(flags: u16, bit: u16) -> (w: usize)
    ensures
        w == stored(flags, bit),
{
    if flags & bit != 0 {
        2
    } else {
        0
    }
}

/// The bytes a component with these flags takes.
fn size_of_component(flags: u16) -> (size: usize)
    ensures
        size == component_size(flags),
{
    let args: usize = if flags & ARGS_ARE_WORDS != 0 {
        4
    } else {
        2
    };
    4 + args + width_of(flags, HAS_XX) + width_of(flags, HAS_XY) + width_of(
        flags,
        HAS_YX_AND_MORE,
    ) + width_of(flags, HAS_YY) + 2 * width_of(flags, HAS_OFFSET)
}

/// A matrix entry: the stored 2.14 number `at` bytes ahead of the cursor where the bit is set,
/// else `default`.
fn read_entry(reader: &FontReader, at: usize, flags: u16, bit: u16, default: i32) -> (v: i32)
    requires
        reader@.has(at + stored(flags, bit)),
    ensures
        v == matrix_entry(reader@.data, reader@.pos + at, flags, bit, default as int),
{
    if flags & bit != 0 {
        reader.peek_i16(at) as i32
    } else {
        default
    }
}

/// One argument: a 16-bit word at `at + 4` or `at + 6`, or a byte at `at + 4` or `at + 5`.
fn read_arg(reader: &FontReader, at: usize, flags: u16, second: bool) -> (v: i16)
    requires
        reader@.has(at + 4 + args_width(flags)),
    ensures
        v == if flags & 0x0001 != 0 {
            be_i16(
                reader@.data,
                reader@.pos + at + 4 + if second {
                    2int
                } else {
                    0int
                },
            )
        } else {
            signed(
                reader@.data[reader@.pos + at + 4 + if second {
                    1int
                } else {
                    0int
                }] as int,
                0x80,
            )
        },
{
    let _room = reader.remaining();
    if flags & ARGS_ARE_WORDS != 0 {
        reader.peek_i16(
            at + 4 + if second {
                2
            } else {
                0
            },
        )
    } else {
        let b = reader.peek_u8(
            at + 4 + if second {
                1
            } else {
                0
            },
        );
        if b >= 0x80 {
            b as i16 - 0x100
        } else {
            b as i16
        }
    }
}

/// The translation along one axis, in fixed-point: the explicit offset `at` bytes ahead of the
/// cursor where there is one, else the argument.
fn read_shift(reader: &FontReader, at: usize, flags: u16, arg: i16) -> (v: i32)
    requires
        reader@.has(at + stored(flags, 0x0008)),
    ensures
        v == 16384 * if flags & 0x0008 != 0 {
            be_i16(reader@.data, reader@.pos + at)
        } else {
            arg as int
        },
{
    if flags & HAS_OFFSET != 0 {
        reader.peek_i16(at) as i32 * 16384
    } else {
        arg as i32 * 16384
    }
}

/// Decodes the component that starts `at` bytes ahead of the cursor.
fn read_component(reader: &FontReader, at: usize) -> (c: GlyphComponent)
    requires
        reader@.has(at + 4),
        reader@.has(at + component_size(be_u16(reader@.data, reader@.pos + at) as u16)),
    ensures
        c.decodes(reader@.data, reader@.pos + at),
{
    let _room = reader.remaining();
    let flags = reader.peek_u16(at);
    let glyph_index = reader.peek_u16(at + 2);
    let arg1 = read_arg(reader, at, flags, false);
    let arg2 = read_arg(reader, at, flags, true);
    let args: usize = if flags & ARGS_ARE_WORDS != 0 {
        4
    } else {
        2
    };
    let a: usize = at + 4 + args;
    let b: usize = a + width_of(flags, HAS_XX);
    let c: usize = b + width_of(flags, HAS_XY);
    let d: usize = c + width_of(flags, HAS_YX_AND_MORE);
    let e: usize = d + width_of(flags, HAS_YY);
    let xx = read_entry(reader, a, flags, HAS_XX, 16384);
    let xy = read_entry(reader, b, flags, HAS_XY, 0);
    let yx = read_entry(reader, c, flags, HAS_YX_AND_MORE, 0);
    let yy = read_entry(reader, d, flags, HAS_YY, 16384);
    let dx = read_shift(reader, e, flags, arg1);
    let dy = read_shift(reader, e + width_of(flags, HAS_OFFSET), flags, arg2);
    GlyphComponent { flags, glyph_index, arg1, arg2, transform: Transform { xx, xy, yx, yy, dx, dy } }
}

impl CompositeGlyph {
    /// The glyph is what the bytes at `s[q..]` encode: as many components as are chained
    /// there, each decoded where it starts.
    pub open spec fn decodes(self, s: Seq<u8>, q: int) -> bool {
        &&& composite_count(s, q) == Some(self.components@.len() as int)
        &&& forall|k: int|
            0 <= k < self.components@.len() ==> (#[trigger] self.components@[k]).decodes(
                s,
                component_start(s, q, k),
            )
    }

    /// Decodes the components of a composite glyph, which start at the cursor, and moves past
    /// them. Fails with an end-of-data error, leaving the cursor where it was, where the
    /// bytes run out.
    #[verifier::loop_isolation(false)]
    pub fn read(reader: &mut FontReader) -> (r: Result<CompositeGlyph, TtfError>)
        ensures
            final(reader)@.data == old(reader)@.data,
            match composite_count(old(reader)@.data, old(reader)@.pos) {
                Some(n) => r is Ok && r->Ok_0.decodes(old(reader)@.data, old(reader)@.pos)
                    && final(reader)@ == old(reader)@.at(
                    component_start(old(reader)@.data, old(reader)@.pos, n),
                ),
                None => r is Err && r->Err_0.is_truncated() && final(reader)@ == old(reader)@,
            },
    {
        let ghost s = reader@.data;
        let ghost q = reader@.pos;
        let room = reader.remaining();
        let mut components: Vec<GlyphComponent> = Vec::new();
        let mut at: usize = 0;
        loop
            invariant
                reader@ == old(reader)@,
                at <= room,
                q + at == component_start(s, q, components@.len() as int),
                composite_count(s, q) == raised(
                    composite_count(s, q + at),
                    components@.len() as int,
                ),
                forall|k: int|
                    0 <= k < components@.len() ==> (#[trigger] components@[k]).decodes(
                        s,
                        component_start(s, q, k),
                    ),
            decreases room - at,
        {
            if room - at < 4 {
                return Err(truncated());
            }
            let flags = reader.peek_u16(at);
            let size = size_of_component(flags);
            if room - at < size {
                return Err(truncated());
            }
            let component = read_component(reader, at);
            assert(component.decodes(s, q + at));
            components.push(component);
            at = at + size;
            if flags & HAS_YX_AND_MORE == 0 {
                reader.advance_by(at);
                return Ok(CompositeGlyph { components });
            }
        }
    }
}

} // verus!
