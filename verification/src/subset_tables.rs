//! The glyph-indexed tables of a subset font: outlines, offsets, metrics and counts.

use crate::error::TtfError;
use crate::stream::{u16_at, FontWriter};
use crate::subset_cmap::{find_id, new_id, strictly_ascending};
use crate::tables::glyf_composite::component_size;
use crate::tables::hmtx::HmtxTable;
use crate::tables::loca::LocaTable;
use crate::wire::{
    be_i16, be_u16, be_u32, lemma_round_trip_i16, lemma_round_trip_u16, lemma_round_trip_u32,
    u16_bytes, u32_bytes, unsigned,
};
use vstd::prelude::*;

verus! {

/// `s` with the two bytes at `at` replaced by the big-endian encoding of `v`.
pub open spec fn with_u16(s: Seq<u8>, at: int, v: int) -> Seq<u8> {
    s.update(at, (v / 0x100) as u8).update(at + 1, (v % 0x100) as u8)
}

/// The id that a reference to glyph `id` gets in the subset: the glyph's new id where the
/// glyph is retained, and the old id where it is not.
pub open spec fn remapped(retained: Seq<u32>, id: int) -> int {
    match new_id(retained, id as u32) {
        Some(i) => i,
        None => id,
    }
}

/// The bytes of a glyph with the glyph ids of its components, from the component at `at` on,
/// rewritten for the subset. The walk ends with the first component that lacks the bit 0x20
/// or does not lie inside the glyph.
pub open spec fn rewritten_from(span: Seq<u8>, retained: Seq<u32>, at: int) -> Seq<u8>
    decreases span.len() - at,
{
    if at < 0 || at + 4 > span.len() {
        span
    } else {
        let flags = be_u16(span, at) as u16;
        let next = with_u16(span, at + 2, remapped(retained, be_u16(span, at + 2)));
        if flags & 0x0020 == 0 || at + component_size(flags) > span.len() {
            next
        } else {
            rewritten_from(next, retained, at + component_size(flags))
        }
    }
}

/// The bytes of a glyph as they go into the subset: unchanged for a glyph with an outline
/// of its own or none, and with the component glyph ids rewritten for a composite glyph.
pub open spec fn rewritten(span: Seq<u8>, retained: Seq<u32>) -> Seq<u8> {
    if span.len() >= 10 && be_i16(span, 0) < 0 {
        rewritten_from(span, retained, 10)
    } else {
        span
    }
}

/// The bytes of the glyph with the old id `old`, where the offsets give it a span inside
/// the table.
pub open spec fn glyph_span(bytes: Seq<u8>, loca: LocaTable, old: int) -> Option<Seq<u8>> {
    if 0 <= old && old + 1 < loca.entries() && loca.offset(old) <= loca.offset(old + 1)
        <= bytes.len() {
        Some(bytes.subrange(loca.offset(old), loca.offset(old + 1)))
    } else {
        None
    }
}

/// The outlines of the first `k` retained glyphs, rewritten and back to back.
pub open spec fn outlines_upto(
    bytes: Seq<u8>,
    loca: LocaTable,
    retained: Seq<u32>,
    k: int,
) -> Seq<u8>
    decreases k,
{
    if k <= 0 {
        Seq::empty()
    } else {
        match glyph_span(bytes, loca, retained[k - 1] as int) {
            Some(span) => outlines_upto(bytes, loca, retained, k - 1) + rewritten(span, retained),
            None => outlines_upto(bytes, loca, retained, k - 1),
        }
    }
}

/// Rewriting keeps the length.
proof fn lemma_rewritten_len(span: Seq<u8>, retained: Seq<u32>, at: int)
    ensures
        rewritten_from(span, retained, at).len() == span.len(),
    decreases span.len() - at,
{
    if 0 <= at && at + 4 <= span.len() {
        let flags = be_u16(span, at) as u16;
        let next = with_u16(span, at + 2, remapped(retained, be_u16(span, at + 2)));
        if flags & 0x0020 != 0 && at + component_size(flags) <= span.len() {
            lemma_rewritten_len(next, retained, at + component_size(flags));
        }
    }
}

/// The bytes a component with these flags takes.
fn component_len(flags: u16) -> (size: usize)
    ensures
        size == component_size(flags),
{
    let mut size: usize = if flags & 0x0001 != 0 {
        8
    } else {
        6
    };
    if flags & 0x0080 != 0 {
        size = size + 2;
    }
    if flags & 0x0040 != 0 {
        size = size + 2;
    }
    if flags & 0x0020 != 0 {
        size = size + 2;
    }
    if flags & 0x0010 != 0 {
        size = size + 2;
    }
    if flags & 0x0008 != 0 {
        size = size + 4;
    }
    size
}

/// Rewrites the component glyph ids of the composite glyph `span` for the subset.
fn rewrite_components(span: Vec<u8>, retained: &[u32]) -> (out: Vec<u8>)
    requires
        strictly_ascending(retained@),
        retained@.len() <= 0x1_0000,
    ensures
        out@ == rewritten_from(span@, retained@, 10),
{
    let mut out = span;
    let mut at: usize = 10;
    loop
        invariant
            strictly_ascending(retained@),
            retained@.len() <= 0x1_0000,
            out@.len() == span@.len(),
            rewritten_from(span@, retained@, 10) == rewritten_from(out@, retained@, at as int),
        decreases out.len() - at,
    {
        if out.len() < 4 || at > out.len() - 4 {
            return out;
        }
        let flags = u16_at(&out, at);
        let id = u16_at(&out, at + 2);
        let fresh: u16 = match find_id(retained, id as u32) {
            Some(i) => i as u16,
            None => id,
        };
        let ghost before = out@;
        out.set(at + 2, (fresh / 0x100) as u8);
        out.set(at + 3, (fresh % 0x100) as u8);
        assert(out@ == with_u16(before, at + 2, remapped(retained@, be_u16(before, at + 2))));
        let size = component_len(flags);
        if flags & 0x0020 == 0 || size > out.len() - at {
            return out;
        }
        at = at + size;
    }
}

/// Writes the outlines of the retained glyphs back to back, each as it lies in the table
/// `bytes` between its two offsets, with the component glyph ids of composite glyphs
/// rewritten: a component that refers to a retained glyph gets that glyph's new id, any
/// other keeps the id it has. Returns the new table and the offset of each new glyph in it,
/// with the table's length as the last offset.
///
/// Fails with `InvalidGlyphIndex` where a retained id is not below `num_glyphs`, with
/// `InvalidLocaOffset` where the offsets give a glyph no span inside the table, and with
/// `InvalidSize` where the new table would outgrow 32-bit offsets.
#[verifier::loop_isolation(false)]
pub fn subset_glyf_table(bytes: &[u8], loca: &LocaTable, num_glyphs: usize, retained: &[u32]) -> (r:
    Result<(Vec<u8>, Vec<u32>), TtfError>)
    requires
        strictly_ascending(retained@),
        retained@.len() <= 0x1_0000,
    ensures
        r is Ok <==> (forall|k: int|
            0 <= k < retained@.len() ==> retained@[k] < num_glyphs && glyph_span(
                bytes@,
                *loca,
                #[trigger] retained@[k] as int,
            ) is Some) && outlines_upto(bytes@, *loca, retained@, retained@.len() as int).len()
            <= u32::MAX,
        r matches Ok((outlines, offsets)) ==> {
            &&& outlines@ == outlines_upto(bytes@, *loca, retained@, retained@.len() as int)
            &&& offsets@.len() == retained@.len() + 1
            &&& forall|k: int|
                0 <= k <= retained@.len() ==> #[trigger] offsets@[k] == outlines_upto(
                    bytes@,
                    *loca,
                    retained@,
                    k,
                ).len()
        },
        r matches Err(e) ==> e is InvalidGlyphIndex || e is InvalidLocaOffset || e is InvalidSize,
{
    let n = retained.len();
    let entries = loca.len();
    let mut writer = FontWriter::new();
    let mut offsets: Vec<u32> = Vec::new();
    let mut k: usize = 0;
    while k < n
        invariant
            k <= n,
            writer@ == outlines_upto(bytes@, *loca, retained@, k as int),
            writer@.len() <= u32::MAX,
            offsets@.len() == k,
            forall|j: int|
                0 <= j < k ==> retained@[j] < num_glyphs && glyph_span(
                    bytes@,
                    *loca,
                    #[trigger] retained@[j] as int,
                ) is Some,
            forall|j: int|
                0 <= j < k ==> #[trigger] offsets@[j] == outlines_upto(
                    bytes@,
                    *loca,
                    retained@,
                    j,
                ).len(),
        decreases n - k,
    {
        let old = retained[k] as usize;
        if old >= num_glyphs {
            return Err(TtfError::InvalidGlyphIndex((old % 0x1_0000) as u16));
        }
        if old >= entries || old + 1 >= entries {
            return Err(TtfError::InvalidLocaOffset(0));
        }
        let start = match loca.get_offset(old) {
            Ok(v) => v,
            Err(e) => { return Err(e); },
        };
        let end = match loca.get_offset(old + 1) {
            Ok(v) => v,
            Err(e) => { return Err(e); },
        };
        if start > end || end as u64 > bytes.len() as u64 {
            return Err(TtfError::InvalidLocaOffset(start));
        }
        let mut span: Vec<u8> = Vec::with_capacity((end - start) as usize);
        let mut i: usize = start as usize;
        while i < end as usize
            invariant
                start <= i <= end,
                end <= bytes@.len(),
                span@ == bytes@.subrange(start as int, i as int),
            decreases end - i,
        {
            span.push(bytes[i]);
            i = i + 1;
            assert(span@ =~= bytes@.subrange(start as int, i as int));
        }
        let ghost plain = span@;
        let composite = span.len() >= 10 && u16_at(&span, 0) >= 0x8000;
        if composite {
            span = rewrite_components(span, retained);
        }
        proof {
            lemma_rewritten_len(plain, retained@, 10);
            assert(span@ == rewritten(plain, retained@));
        }
        if writer.position() as u64 + span.len() as u64 > 0xFFFF_FFFF {
            proof {
                lemma_outlines_grow(bytes@, *loca, retained@, k + 1, n as int);
            }
            return Err(
                TtfError::InvalidSize { expected: 0xFFFF_FFFF, actual: writer.position() as u64 },
            );
        }
        offsets.push(writer.position() as u32);
        writer.write_bytes(span.as_slice());
        k = k + 1;
    }
    offsets.push(writer.position() as u32);
    Ok((writer.into_inner(), offsets))
}

/// The outlines of fewer glyphs take no more room than those of more.
pub proof fn lemma_outlines_grow(bytes: Seq<u8>, loca: LocaTable, retained: Seq<u32>, i: int, k: int)
    requires
        0 <= i <= k,
    ensures
        outlines_upto(bytes, loca, retained, i).len() <= outlines_upto(
            bytes,
            loca,
            retained,
            k,
        ).len(),
    decreases k - i,
{
    if i < k {
        lemma_outlines_grow(bytes, loca, retained, i, k - 1);
    }
}

/// The offsets can be stored in a `loca` table of the given form: any offsets in the long
/// form, and even offsets up to 0x1FFFE in the short form.
pub open spec fn storable(offsets: Seq<u32>, is_long: bool) -> bool {
    is_long || forall|i: int|
        0 <= i < offsets.len() ==> #[trigger] offsets[i] % 2 == 0 && offsets[i] <= 0x1_FFFE
}

/// Encodes glyph offsets as a `loca` table: four bytes each in the long form, and two bytes
/// each, holding half the offset, in the short form. Fails with `InvalidLocaOffset` where
/// the short form cannot hold an offset.
#[verifier::loop_isolation(false)]
pub fn subset_loca_table(offsets: &[u32], is_long: bool) -> (r: Result<Vec<u8>, TtfError>)
    ensures
        r is Ok <==> storable(offsets@, is_long),
        r matches Ok(bytes) ==> {
            &&& bytes@.len() == LocaTable::size(offsets@.len() as int, is_long)
            &&& forall|i: int|
                0 <= i < offsets@.len() ==> #[trigger] offsets@[i] == if is_long {
                    be_u32(bytes@, 4 * i)
                } else {
                    2 * be_u16(bytes@, 2 * i)
                }
        },
        r matches Err(e) ==> e is InvalidLocaOffset,
{
    let mut writer = FontWriter::new();
    let mut i: usize = 0;
    while i < offsets.len()
        invariant
            i <= offsets.len(),
            writer@.len() == LocaTable::size(i as int, is_long),
            is_long || forall|j: int|
                0 <= j < i ==> #[trigger] offsets@[j] % 2 == 0 && offsets@[j] <= 0x1_FFFE,
            forall|j: int|
                0 <= j < i ==> #[trigger] offsets@[j] == if is_long {
                    be_u32(writer@, 4 * j)
                } else {
                    2 * be_u16(writer@, 2 * j)
                },
        decreases offsets.len() - i,
    {
        let offset = offsets[i];
        let ghost before = writer@;
        if is_long {
            writer.write_u32(offset);
            proof {
                assert(writer@.subrange(4 * i, 4 * i + 4) =~= u32_bytes(offset as int));
                lemma_round_trip_u32(writer@, 4 * i, offset);
                assert forall|j: int| 0 <= j < i implies #[trigger] offsets@[j] == be_u32(
                    writer@,
                    4 * j,
                ) by {
                    assert(writer@[4 * j] == before[4 * j]);
                    assert(writer@[4 * j + 1] == before[4 * j + 1]);
                    assert(writer@[4 * j + 2] == before[4 * j + 2]);
                    assert(writer@[4 * j + 3] == before[4 * j + 3]);
                }
            }
        } else {
            if offset % 2 != 0 || offset > 0x1_FFFE {
                return Err(TtfError::InvalidLocaOffset(offset));
            }
            let half: u16 = (offset / 2) as u16;
            writer.write_u16(half);
            proof {
                assert(writer@.subrange(2 * i, 2 * i + 2) =~= u16_bytes(half as int));
                lemma_round_trip_u16(writer@, 2 * i, half);
                assert forall|j: int| 0 <= j < i implies #[trigger] offsets@[j] == 2 * be_u16(
                    writer@,
                    2 * j,
                ) by {
                    assert(writer@[2 * j] == before[2 * j]);
                    assert(writer@[2 * j + 1] == before[2 * j + 1]);
                }
            }
        }
        i = i + 1;
    }
    Ok(writer.into_inner())
}

/// Encodes the metrics of the retained glyphs as an `hmtx` table in which every glyph has a
/// full entry: new glyph `k` gets the advance width and the left side bearing that the old
/// table gives the glyph's old id.
#[verifier::loop_isolation(false)]
pub fn subset_hmtx_table(hmtx: &HmtxTable, retained: &[u32]) -> (bytes: Vec<u8>)
    ensures
        bytes@.len() == 4 * retained@.len(),
        forall|k: int|
            0 <= k < retained@.len() ==> be_u16(bytes@, 4 * k) == hmtx.advance_width(
                #[trigger] retained@[k] as int,
            ) && be_i16(bytes@, 4 * k + 2) == hmtx.lsb(retained@[k] as int),
{
    let mut writer = FontWriter::new();
    let full = hmtx.h_metrics.len();
    let mut k: usize = 0;
    while k < retained.len()
        invariant
            k <= retained.len(),
            writer@.len() == 4 * k,
            forall|j: int|
                0 <= j < k ==> be_u16(writer@, 4 * j) == hmtx.advance_width(
                    #[trigger] retained@[j] as int,
                ) && be_i16(writer@, 4 * j + 2) == hmtx.lsb(retained@[j] as int),
        decreases retained.len() - k,
    {
        let old = retained[k] as usize;
        let advance: u16 = if old < full {
            hmtx.h_metrics[old].advance_width
        } else if full > 0 {
            hmtx.h_metrics[full - 1].advance_width
        } else {
            0
        };
        let lsb: i16 = if old < full {
            hmtx.h_metrics[old].lsb
        } else if old - full < hmtx.left_side_bearings.len() {
            hmtx.left_side_bearings[old - full]
        } else {
            0
        };
        let ghost before = writer@;
        writer.write_u16(advance);
        writer.write_i16(lsb);
        proof {
            assert(writer@.subrange(4 * k, 4 * k + 2) =~= u16_bytes(advance as int));
            assert(writer@.subrange(4 * k + 2, 4 * k + 4) =~= u16_bytes(
                unsigned(lsb as int, 0x8000),
            ));
            lemma_round_trip_u16(writer@, 4 * k, advance);
            lemma_round_trip_i16(writer@, 4 * k + 2, lsb);
            assert forall|j: int| 0 <= j < k implies be_u16(writer@, 4 * j) == hmtx.advance_width(
                #[trigger] retained@[j] as int,
            ) && be_i16(writer@, 4 * j + 2) == hmtx.lsb(retained@[j] as int) by {
                assert(writer@[4 * j] == before[4 * j]);
                assert(writer@[4 * j + 1] == before[4 * j + 1]);
                assert(writer@[4 * j + 2] == before[4 * j + 2]);
                assert(writer@[4 * j + 3] == before[4 * j + 3]);
            }
        }
        k = k + 1;
    }
    writer.into_inner()
}

/// A copy of `bytes` with the 16-bit value at `at` set to `value`; a plain copy where the
/// two bytes at `at` do not lie inside.
pub fn patch_u16(bytes: &[u8], at: usize, value: u16) -> (out: Vec<u8>)
    ensures
        at + 2 <= bytes@.len() ==> out@ == with_u16(bytes@, at as int, value as int) && be_u16(
            out@,
            at as int,
        ) == value,
        at + 2 > bytes@.len() ==> out@ == bytes@,
{
    let mut out: Vec<u8> = Vec::with_capacity(bytes.len());
    let mut i: usize = 0;
    while i < bytes.len()
        invariant
            i <= bytes.len(),
            out@ == bytes@.subrange(0, i as int),
        decreases bytes.len() - i,
    {
        out.push(bytes[i]);
        i = i + 1;
        assert(out@ =~= bytes@.subrange(0, i as int));
    }
    assert(out@ =~= bytes@);
    if bytes.len() >= 2 && at <= bytes.len() - 2 {
        out.set(at, (value / 0x100) as u8);
        out.set(at + 1, (value % 0x100) as u8);
    }
    out
}

/// The `maxp` table with its glyph count, the 16-bit value at offset 4, set to `num_glyphs`.
pub fn update_maxp_table(maxp: &[u8], num_glyphs: u16) -> (out: Vec<u8>)
    ensures
        maxp@.len() >= 6 ==> out@ == with_u16(maxp@, 4, num_glyphs as int) && be_u16(out@, 4)
            == num_glyphs,
        maxp@.len() < 6 ==> out@ == maxp@,
{
    patch_u16(maxp, 4, num_glyphs)
}

/// The `hhea` table with its number of full metrics, the 16-bit value at offset 36, set to
/// `num_h_metrics`.
pub fn update_hhea_table(hhea: &[u8], num_h_metrics: u16) -> (out: Vec<u8>)
    ensures
        hhea@.len() >= 38 ==> out@ == with_u16(hhea@, 36, num_h_metrics as int) && be_u16(out@, 36)
            == num_h_metrics,
        hhea@.len() < 38 ==> out@ == hhea@,
{
    patch_u16(hhea, 36, num_h_metrics)
}

} // verus!
