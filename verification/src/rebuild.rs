//! Laying a font out afresh with some tables replaced and some dropped.

use crate::error::TtfError;
use crate::font::{
    first_with_tag, lemma_first_with_tag, lemma_first_with_tag_by_tags, log2_floor, pow2, Font,
};
use crate::layout::{
    file_bytes, laid_out_all, lay_out, layout_fits, lemma_laid_out_span, parts_view, SfntHeader,
};
use crate::stream::copy_range;
use crate::tables::{same_tag, TableRecord};
use vstd::prelude::*;

verus! {

/// New bytes for the table filed under a tag.
#[derive(Debug, Clone)]
pub struct Replacement {
    pub tag: [u8; 4],
    pub data: Vec<u8>,
}

/// The bytes that the first replacement from `from` on gives the table `tag`.
pub open spec fn replacement_for(list: Seq<Replacement>, tag: Seq<u8>, from: int) -> Option<Seq<u8>>
    decreases list.len() - from,
{
    if from < 0 || from >= list.len() {
        None
    } else if list[from].tag@ == tag {
        Some(list[from].data@)
    } else {
        replacement_for(list, tag, from + 1)
    }
}

/// Whether a table with this tag stays: every table stays where the list of tags to keep is
/// empty, else those whose tag is on the list.
pub open spec fn stays(keep: Seq<[u8; 4]>, tag: Seq<u8>) -> bool {
    keep.len() == 0 || exists|k: int| 0 <= k < keep.len() && (#[trigger] keep[k])@ == tag
}

/// The bytes that directory entry `i` of `font` brings into the new file: the replacement
/// for its tag, where it is the first entry with that tag and there is a replacement, else
/// the bytes it points at.
pub open spec fn new_part(font: Font, list: Seq<Replacement>, i: int) -> Option<Seq<u8>> {
    let tag = font.table_records@[i].table_tag@;
    if font.record_index(tag) == Some(i) && replacement_for(list, tag, 0) is Some {
        replacement_for(list, tag, 0)
    } else {
        font.table_records@[i].bytes_in(font.data@)
    }
}

/// The bytes that the new font has under `tag`: the replacement, where there is one, else
/// what the old font has.
pub open spec fn new_table(font: Font, list: Seq<Replacement>, tag: Seq<u8>) -> Option<Seq<u8>> {
    if replacement_for(list, tag, 0) is Some {
        replacement_for(list, tag, 0)
    } else {
        font.table_bytes(tag)
    }
}

/// The directory entries among the first `n` of `font` that stay, in file order.
pub open spec fn kept_records(font: Font, keep: Seq<[u8; 4]>, n: int) -> Seq<TableRecord>
    decreases n,
{
    if n <= 0 {
        Seq::empty()
    } else if stays(keep, font.table_records@[n - 1].table_tag@) {
        kept_records(font, keep, n - 1).push(font.table_records@[n - 1])
    } else {
        kept_records(font, keep, n - 1)
    }
}

/// The bytes that the entries among the first `n` of `font` that stay bring into the new
/// file.
pub open spec fn kept_parts(
    font: Font,
    list: Seq<Replacement>,
    keep: Seq<[u8; 4]>,
    n: int,
) -> Seq<Option<Seq<u8>>>
    decreases n,
{
    if n <= 0 {
        Seq::empty()
    } else if stays(keep, font.table_records@[n - 1].table_tag@) {
        kept_parts(font, list, keep, n - 1).push(new_part(font, list, n - 1))
    } else {
        kept_parts(font, list, keep, n - 1)
    }
}

/// As many parts are kept as records.
pub proof fn lemma_kept_len(font: Font, list: Seq<Replacement>, keep: Seq<[u8; 4]>, n: int)
    ensures
        kept_parts(font, list, keep, n).len() == kept_records(font, keep, n).len(),
    decreases n,
{
    if n > 0 {
        lemma_kept_len(font, list, keep, n - 1);
    }
}

fn find_replacement(list: &Vec<Replacement>, tag: &[u8; 4]) -> (r: Option<usize>)
    ensures
        match r {
            Some(k) => k < list@.len() && replacement_for(list@, tag@, 0) == Some(
                list@[k as int].data@,
            ),
            None => replacement_for(list@, tag@, 0) is None,
        },
{
    let mut k: usize = 0;
    while k < list.len()
        invariant
            k <= list.len(),
            replacement_for(list@, tag@, 0) == replacement_for(list@, tag@, k as int),
        decreases list.len() - k,
    {
        if same_tag(&list[k].tag, tag) {
            return Some(k);
        }
        k = k + 1;
    }
    None
}

fn on_list(keep: &Vec<[u8; 4]>, tag: &[u8; 4]) -> (b: bool)
    ensures
        b == stays(keep@, tag@),
{
    if keep.len() == 0 {
        return true;
    }
    let mut k: usize = 0;
    while k < keep.len()
        invariant
            k <= keep.len(),
            forall|j: int| 0 <= j < k ==> (#[trigger] keep@[j])@ != tag@,
        decreases keep.len() - k,
    {
        if same_tag(&keep[k], tag) {
            return true;
        }
        k = k + 1;
    }
    false
}

/// A record with this tag at `at`, with none before it, is the first with the tag.
proof fn lemma_first_is(records: Seq<TableRecord>, tag: Seq<u8>, at: int, from: int)
    requires
        0 <= from <= at < records.len(),
        records[at].table_tag@ == tag,
        forall|j: int| from <= j < at ==> records[j].table_tag@ != tag,
    ensures
        first_with_tag(records, tag, from) == Some(at),
    decreases at - from,
{
    if from < at {
        lemma_first_is(records, tag, at, from + 1);
    }
}

/// The binary-search hints that go with `count` tables.
pub open spec fn search_hints(count: int) -> (int, int, int) {
    let e = log2_floor(count as nat);
    (16 * (pow2(e) as int), e as int, if count == 0 {
        0
    } else {
        16 * (count - pow2(e))
    })
}

impl Font {
    /// The new file can be written: its directory has at most 0xFFFF entries and every
    /// offset fits in 32 bits.
    pub open spec fn rebuilds(self, list: Seq<Replacement>, keep: Seq<[u8; 4]>) -> bool {
        let n = self.table_records@.len() as int;
        kept_records(self, keep, n).len() <= 0xFFFF && layout_fits(
            kept_records(self, keep, n),
            kept_parts(self, list, keep, n),
        )
    }

    /// The font `f` is this font laid out afresh with the tables of `list` replaced and the
    /// tables that `keep` does not name dropped.
    pub open spec fn rebuilt_as(self, f: Font, list: Seq<Replacement>, keep: Seq<[u8; 4]>) -> bool {
        &&& f.table_records@ == laid_out_all(
            kept_records(self, keep, self.table_records@.len() as int),
            kept_parts(self, list, keep, self.table_records@.len() as int),
        )
        &&& f.data@ == file_bytes(
            f.header(),
            kept_records(self, keep, self.table_records@.len() as int),
            kept_parts(self, list, keep, self.table_records@.len() as int),
        )
        &&& f.sfnt_version == self.sfnt_version
        &&& f.num_tables == f.table_records@.len()
        &&& f.table_records@.len() < 4096 ==> (
        f.search_range as int,
        f.entry_selector as int,
        f.range_shift as int,
    ) == search_hints(f.table_records@.len() as int)
        &&& forall|tag: Seq<u8>|
            (#[trigger] f.record_index(tag)) is Some <==> (self.record_index(tag) is Some && stays(
                keep,
                tag,
            ))
        &&& forall|tag: Seq<u8>|
            stays(keep, tag) && self.record_index(tag) is Some && (#[trigger] new_table(
                self,
                list,
                tag,
            )) is Some ==> f.table_bytes(tag) == new_table(self, list, tag)
    }

    /// This font laid out afresh, with new bytes for some tables and without the tables that
    /// `keep` does not name; an empty `keep` keeps every table. Of several directory entries
    /// with one tag the first gets the new bytes. The new file has a directory with fresh
    /// offsets, lengths and checksums and a header whose table count and search hints fit
    /// it.
    ///
    /// Fails with `InvalidSize` where the new file would outgrow 32-bit offsets or the
    /// directory the 16-bit table count.
    #[verifier::loop_isolation(false)]
    pub fn rebuild_with(&self, list: &Vec<Replacement>, keep: &Vec<[u8; 4]>) -> (r: Result<
        Font,
        TtfError,
    >)
        ensures
            r is Ok <==> self.rebuilds(list@, keep@),
            r matches Ok(f) ==> self.rebuilt_as(f, list@, keep@),
            r matches Err(e) ==> e is InvalidSize,
    {
        let n = self.table_records.len();
        let mut records: Vec<TableRecord> = Vec::new();
        let mut parts: Vec<Option<Vec<u8>>> = Vec::new();
        let ghost mut source: Seq<int> = Seq::empty();
        let mut i: usize = 0;
        while i < n
            invariant
                i <= n,
                records@ == kept_records(*self, keep@, i as int),
                parts_view(parts@) == kept_parts(*self, list@, keep@, i as int),
                records@.len() == parts@.len() == source.len(),
                forall|j: int| 0 <= j < source.len() ==> 0 <= #[trigger] source[j] < i,
                forall|j: int, l: int| 0 <= j < l < source.len() ==> source[j] < source[l],
                forall|j: int|
                    0 <= j < source.len() ==> (#[trigger] records@[j]).table_tag
                        == self.table_records@[source[j]].table_tag && stays(
                        keep@,
                        records@[j].table_tag@,
                    ),
                forall|j: int|
                    0 <= j < source.len() ==> (#[trigger] parts_view(parts@)[j]) == new_part(
                        *self,
                        list@,
                        source[j],
                    ),
                forall|k: int|
                    0 <= k < i && stays(keep@, (#[trigger] self.table_records@[k]).table_tag@)
                        ==> exists|j: int| 0 <= j < source.len() && #[trigger] source[j] == k,
            decreases n - i,
        {
            let record = self.table_records[i];
            let ghost old_source = source;
            let ghost old_parts = parts@;
            if on_list(keep, &record.table_tag) {
                let first = self.find_table(&record.table_tag);
                let fresh = find_replacement(list, &record.table_tag);
                let is_first = match first {
                    Some(at) => at == i,
                    None => false,
                };
                let part: Option<Vec<u8>> = if is_first && fresh.is_some() {
                    let data = &list[fresh.unwrap()].data;
                    Some(copy_range(data, 0, data.len()))
                } else {
                    let end: u64 = record.offset as u64 + record.length as u64;
                    if end > self.data.len() as u64 {
                        None
                    } else {
                        Some(copy_range(&self.data, record.offset as usize, end as usize))
                    }
                };
                proof {
                    if is_first && fresh is Some {
                        let data = list@[fresh->Some_0 as int].data@;
                        assert(data.subrange(0, data.len() as int) =~= data);
                    }
                    source = source.push(i as int);
                }
                records.push(record);
                parts.push(part);
                proof {
                    assert(parts_view(parts@) =~= parts_view(old_parts).push(
                        new_part(*self, list@, i as int),
                    ));
                    assert forall|j: int| 0 <= j < source.len() implies (#[trigger] parts_view(
                        parts@,
                    )[j]) == new_part(*self, list@, source[j]) by {
                        if j < old_source.len() {
                            assert(parts@[j] == old_parts[j]);
                            assert(parts_view(old_parts)[j] == new_part(*self, list@, old_source[j]));
                        }
                    }
                    assert forall|k: int|
                        0 <= k < i + 1 && stays(
                            keep@,
                            (#[trigger] self.table_records@[k]).table_tag@,
                        ) implies exists|j: int| 0 <= j < source.len() && #[trigger] source[j] == k by {
                        if k < i {
                            let j = choose|j: int|
                                0 <= j < old_source.len() && #[trigger] old_source[j] == k;
                            assert(source[j] == k);
                        } else {
                            assert(source[old_source.len() as int] == k);
                        }
                    }
                }
            }
            i = i + 1;
        }
        proof {
            lemma_kept_len(*self, list@, keep@, n as int);
        }
        let count = records.len();
        if count > 0xFFFF {
            return Err(TtfError::InvalidSize { expected: 0xFFFF, actual: count as u64 });
        }
        let (search_range, entry_selector, range_shift) = if count < 4096 {
            Font::calculate_search_range(count as u16)
        } else {
            (self.search_range, self.entry_selector, self.range_shift)
        };
        let header = SfntHeader {
            sfnt_version: self.sfnt_version,
            num_tables: count as u16,
            search_range,
            entry_selector,
            range_shift,
        };
        let ghost pv = parts_view(parts@);
        let ghost kept = records@;
        let (table_records, data) = lay_out(header, &records, &parts)?;
        let font = Font {
            sfnt_version: self.sfnt_version,
            num_tables: count as u16,
            search_range,
            entry_selector,
            range_shift,
            table_records,
            data,
        };
        proof {
            let old = self.table_records@;
            assert forall|tag: Seq<u8>|
                (#[trigger] font.record_index(tag)) is Some <==> (self.record_index(tag) is Some
                    && stays(keep@, tag)) by {
                lemma_first_with_tag_by_tags(font.table_records@, kept, tag, 0);
                lemma_first_with_tag(kept, tag, 0);
                lemma_first_with_tag(old, tag, 0);
                if self.record_index(tag) is Some && stays(keep@, tag) {
                    let i0 = self.record_index(tag)->Some_0;
                    let j0 = choose|j: int| 0 <= j < source.len() && #[trigger] source[j] == i0;
                    assert(kept[j0].table_tag@ == tag);
                }
                if font.record_index(tag) is Some {
                    let j = font.record_index(tag)->Some_0;
                    assert(kept[j].table_tag@ == tag);
                    assert(old[source[j]].table_tag@ == tag);
                }
            }
            assert forall|tag: Seq<u8>|
                stays(keep@, tag) && self.record_index(tag) is Some && (#[trigger] new_table(
                    *self,
                    list@,
                    tag,
                )) is Some implies font.table_bytes(tag) == new_table(*self, list@, tag) by {
                lemma_first_with_tag(old, tag, 0);
                let i0 = self.record_index(tag)->Some_0;
                let j0 = choose|j: int| 0 <= j < source.len() && #[trigger] source[j] == i0;
                assert(kept[j0].table_tag@ == tag);
                assert forall|j: int| 0 <= j < j0 implies kept[j].table_tag@ != tag by {
                    assert(source[j] < source[j0]);
                    assert(kept[j].table_tag == old[source[j]].table_tag);
                }
                lemma_first_is(kept, tag, j0, 0);
                lemma_first_with_tag_by_tags(font.table_records@, kept, tag, 0);
                assert(pv[j0] == new_part(*self, list@, i0));
                lemma_laid_out_span(header, kept, pv, j0);
            }
        }
        Ok(font)
    }
}

} // verus!
