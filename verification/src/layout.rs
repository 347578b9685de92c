//! Laying out a font file afresh: header, directory, then the table bodies back to back.

use crate::error::TtfError;
use crate::stream::{calculate_checksum, checksum, padding_for, FontWriter};
use crate::tables::TableRecord;
use crate::wire::{u16_bytes, u32_bytes, zeros};
use vstd::prelude::*;

verus! {

/// The five fields that open an SFNT file.
#[derive(Debug, Clone, Copy)]
pub struct SfntHeader {
    pub sfnt_version: u32,
    pub num_tables: u16,
    pub search_range: u16,
    pub entry_selector: u16,
    pub range_shift: u16,
}

impl SfntHeader {
    /// The twelve bytes that encode the header.
    pub open spec fn encoding(self) -> Seq<u8> {
        u32_bytes(self.sfnt_version as int) + u16_bytes(self.num_tables as int) + u16_bytes(
            self.search_range as int,
        ) + u16_bytes(self.entry_selector as int) + u16_bytes(self.range_shift as int)
    }
}

/// The table bytes of each directory entry; `None` where an entry has no bytes to give.
pub open spec fn parts_view(parts: Seq<Option<Vec<u8>>>) -> Seq<Option<Seq<u8>>> {
    Seq::new(
        parts.len(),
        |i: int|
            match parts[i] {
                Some(v) => Some(v@),
                None => None,
            },
    )
}

/// `b` followed by the zero bytes that bring it to a multiple of four.
pub open spec fn padded(b: Seq<u8>) -> Seq<u8> {
    b + zeros(padding_for(b.len(), 4))
}

/// What one entry adds to the file: its padded bytes, or nothing.
pub open spec fn body_of(part: Option<Seq<u8>>) -> Seq<u8> {
    match part {
        Some(b) => padded(b),
        None => Seq::empty(),
    }
}

/// The bodies of the first `n` entries, back to back.
pub open spec fn bodies_upto(parts: Seq<Option<Seq<u8>>>, n: int) -> Seq<u8>
    decreases n,
{
    if n <= 0 {
        Seq::empty()
    } else {
        bodies_upto(parts, n - 1) + body_of(parts[n - 1])
    }
}

/// The size of the header and a directory of `n` entries.
pub open spec fn directory_len(n: nat) -> int {
    12 + 16 * (n as int)
}

/// Entry `i` of the new directory. An entry with bytes gets their checksum, their length and
/// the offset at which they are written; one without keeps its tag and length and gets
/// zero for the rest.
pub open spec fn laid_out(
    records: Seq<TableRecord>,
    parts: Seq<Option<Seq<u8>>>,
    i: int,
) -> TableRecord {
    match parts[i] {
        Some(b) => TableRecord {
            table_tag: records[i].table_tag,
            checksum: checksum(b) as u32,
            offset: (directory_len(records.len()) + bodies_upto(parts, i).len()) as u32,
            length: b.len() as u32,
        },
        None => TableRecord {
            table_tag: records[i].table_tag,
            checksum: 0,
            offset: 0,
            length: records[i].length,
        },
    }
}

/// The whole new directory, as records.
pub open spec fn laid_out_all(
    records: Seq<TableRecord>,
    parts: Seq<Option<Seq<u8>>>,
) -> Seq<TableRecord> {
    Seq::new(records.len(), |i: int| laid_out(records, parts, i))
}

/// The encodings of the first `n` new directory entries, back to back.
pub open spec fn directory_upto(
    records: Seq<TableRecord>,
    parts: Seq<Option<Seq<u8>>>,
    n: int,
) -> Seq<u8>
    decreases n,
{
    if n <= 0 {
        Seq::empty()
    } else {
        directory_upto(records, parts, n - 1) + laid_out(records, parts, n - 1).encoding()
    }
}

/// Every offset of the new file fits in 32 bits.
pub open spec fn layout_fits(records: Seq<TableRecord>, parts: Seq<Option<Seq<u8>>>) -> bool {
    directory_len(records.len()) + bodies_upto(parts, records.len() as int).len() <= u32::MAX
}

/// The new file: header, directory, bodies.
pub open spec fn file_bytes(
    header: SfntHeader,
    records: Seq<TableRecord>,
    parts: Seq<Option<Seq<u8>>>,
) -> Seq<u8> {
    header.encoding() + directory_upto(records, parts, records.len() as int) + bodies_upto(
        parts,
        records.len() as int,
    )
}

/// The bodies up to `i` open the bodies up to `n`.
pub proof fn lemma_bodies_prefix(parts: Seq<Option<Seq<u8>>>, i: int, n: int)
    requires
        0 <= i <= n,
    ensures
        bodies_upto(parts, i).len() <= bodies_upto(parts, n).len(),
        bodies_upto(parts, n).subrange(0, bodies_upto(parts, i).len() as int) == bodies_upto(
            parts,
            i,
        ),
    decreases n - i,
{
    if i < n {
        lemma_bodies_prefix(parts, i, n - 1);
        let a = bodies_upto(parts, n - 1);
        let k = bodies_upto(parts, i).len() as int;
        assert((a + body_of(parts[n - 1])).subrange(0, k) =~= a.subrange(0, k));
    } else {
        assert(bodies_upto(parts, n).subrange(0, bodies_upto(parts, n).len() as int)
            =~= bodies_upto(parts, n));
    }
}

/// A directory of `n` entries takes sixteen bytes each.
pub proof fn lemma_directory_len(
    records: Seq<TableRecord>,
    parts: Seq<Option<Seq<u8>>>,
    n: int,
)
    requires
        0 <= n,
    ensures
        directory_upto(records, parts, n).len() == 16 * n,
    decreases n,
{
    if n > 0 {
        lemma_directory_len(records, parts, n - 1);
    }
}

/// In the new file each entry with bytes points at exactly those bytes.
pub proof fn lemma_laid_out_span(
    header: SfntHeader,
    records: Seq<TableRecord>,
    parts: Seq<Option<Seq<u8>>>,
    i: int,
)
    requires
        records.len() == parts.len(),
        layout_fits(records, parts),
        0 <= i < records.len(),
        parts[i] is Some,
    ensures
        laid_out(records, parts, i).bytes_in(file_bytes(header, records, parts)) == parts[i],
{
    let n = records.len() as int;
    let b = parts[i]->Some_0;
    let file = file_bytes(header, records, parts);
    let all = bodies_upto(parts, n);
    let before = bodies_upto(parts, i);
    lemma_directory_len(records, parts, n);
    lemma_bodies_prefix(parts, i, n);
    lemma_bodies_prefix(parts, i + 1, n);
    assert(bodies_upto(parts, i + 1) == before + padded(b));
    let base = directory_len(n as nat);
    assert(header.encoding().len() == 12);
    assert(file.len() == base + all.len());
    let rec = laid_out(records, parts, i);
    assert(rec.offset == base + before.len());
    assert(rec.length == b.len());
    let upto = bodies_upto(parts, i + 1);
    assert(upto.len() <= all.len());
    assert(file.subrange(rec.offset as int, rec.offset + rec.length) =~= b) by {
        assert forall|k: int| 0 <= k < b.len() implies file[rec.offset + k] == b[k] by {
            assert(file[base + before.len() + k] == all[before.len() + k]);
            assert(all.subrange(0, upto.len() as int)[before.len() + k] == upto[before.len() + k]);
            assert(upto[before.len() + k] == padded(b)[k]);
        }
    }
}

/// Lays a file out afresh from a header, the directory's tags and the table bytes of each
/// entry. Returns the new directory and the file's bytes, or `InvalidSize` where the file
/// would outgrow 32-bit offsets.
#[verifier::loop_isolation(false)]
pub fn lay_out(header: SfntHeader, records: &Vec<TableRecord>, parts: &Vec<Option<Vec<u8>>>) -> (r:
    Result<(Vec<TableRecord>, Vec<u8>), TtfError>)
    requires
        records.len() == parts.len(),
    ensures
        layout_fits(records@, parts_view(parts@)) ==> r is Ok && r->Ok_0.0@ == laid_out_all(
            records@,
            parts_view(parts@),
        ) && r->Ok_0.1@ == file_bytes(header, records@, parts_view(parts@)),
        !layout_fits(records@, parts_view(parts@)) ==> r is Err && r->Err_0 is InvalidSize,
{
    let ghost pv = parts_view(parts@);
    let n = records.len();
    if n > 0x0fff_ffff {
        return Err(TtfError::InvalidSize { expected: 0xffff_ffff, actual: n as u64 });
    }
    let base: u64 = 12 + 16 * (n as u64);
    let mut new_records: Vec<TableRecord> = Vec::with_capacity(n);
    let mut bodies = FontWriter::new();
    let mut i: usize = 0;
    while i < n
        invariant
            i <= n,
            bodies@ == bodies_upto(pv, i as int),
            bodies@.len() % 4 == 0,
            base + bodies@.len() <= u32::MAX,
            new_records@.len() == i,
            forall|j: int| 0 <= j < i ==> new_records@[j] == laid_out(records@, pv, j),
        decreases n - i,
    {
        assert(pv[i as int] == match parts@[i as int] {
            Some(v) => Some(v@),
            None => None,
        });
        match &parts[i] {
            Some(b) => {
                let rest: u64 = (b.len() % 4) as u64;
                let pad: u64 = if rest == 0 {
                    0
                } else {
                    4 - rest
                };
                assert(pad == padding_for(b@.len(), 4));
                if b.len() > 0xffff_ffff || base + bodies.position() as u64 + b.len() as u64 + pad
                    > 0xffff_ffff {
                    proof {
                        lemma_bodies_prefix(pv, i + 1, n as int);
                    }
                    return Err(
                        TtfError::InvalidSize {
                            expected: 0xffff_ffff,
                            actual: b.len() as u64,
                        },
                    );
                }
                let record = TableRecord {
                    table_tag: records[i].table_tag,
                    checksum: calculate_checksum(b.as_slice()),
                    offset: (base + bodies.position() as u64) as u32,
                    length: b.len() as u32,
                };
                new_records.push(record);
                bodies.write_bytes(b.as_slice());
                bodies.write_padding(4);
                assert(bodies@ =~= bodies_upto(pv, i as int) + padded(b@));
            },
            None => {
                new_records.push(
                    TableRecord {
                        table_tag: records[i].table_tag,
                        checksum: 0,
                        offset: 0,
                        length: records[i].length,
                    },
                );
                assert(bodies@ =~= bodies_upto(pv, i as int) + body_of(pv[i as int]));
            },
        }
        i = i + 1;
    }
    assert(new_records@ =~= laid_out_all(records@, pv));
    let mut writer = FontWriter::new();
    writer.write_u32(header.sfnt_version);
    writer.write_u16(header.num_tables);
    writer.write_u16(header.search_range);
    writer.write_u16(header.entry_selector);
    writer.write_u16(header.range_shift);
    assert(writer@ =~= header.encoding());
    let mut k: usize = 0;
    while k < n
        invariant
            k <= n,
            writer@ == header.encoding() + directory_upto(records@, pv, k as int),
        decreases n - k,
    {
        new_records[k].write(&mut writer);
        k = k + 1;
        assert(writer@ =~= header.encoding() + directory_upto(records@, pv, k as int));
    }
    let body_bytes = bodies.into_inner();
    writer.write_bytes(body_bytes.as_slice());
    Ok((new_records, writer.into_inner()))
}

} // verus!
