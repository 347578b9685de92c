//! Cutting a font down to a chosen set of glyphs.

use crate::access::{access_error, Access};
use crate::error::{missing_table, parse_error, TtfError};
use crate::font::Font;
use crate::rebuild::{new_table, replacement_for, stays, Replacement};
use crate::subset_cmap::{
    groups, mapping_fits, pairs_upto, single_cmap_encoding, strictly_ascending, subset_cmap_table,
    subset_pairs,
};
use crate::subset_tables::{
    glyph_span, outlines_upto, storable, subset_glyf_table, subset_hmtx_table, subset_loca_table,
    update_hhea_table, update_maxp_table, with_u16,
};
use crate::tables::cmap::{CmapTable, Format4};
use crate::tables::hmtx::HmtxTable;
use crate::tables::loca::LocaTable;
use crate::tables::maxp::MaxpTable;
use crate::tables::{TAG_CMAP, TAG_GLYF, TAG_HEAD, TAG_HHEA, TAG_HMTX, TAG_LOCA, TAG_MAXP};
use crate::wire::{be_i16, be_u16, be_u32};
use vstd::prelude::*;

verus! {

/// Collects the glyphs to keep and builds the smaller font.
pub struct FontSubset {
    font: Font,
    glyph_ids: Vec<u32>,
    retain_tables: Vec<[u8; 4]>,
}

/// The tag is one of the six whose table a subset rewrites.
pub open spec fn is_rewritten(tag: Seq<u8>) -> bool {
    tag == TAG_GLYF@ || tag == TAG_LOCA@ || tag == TAG_HMTX@ || tag == TAG_HHEA@ || tag
        == TAG_MAXP@ || tag == TAG_CMAP@
}

impl FontSubset {
    #[verifier::type_invariant]
    spec fn ordered(self) -> bool {
        strictly_ascending(self.glyph_ids@)
    }

    /// The font that is cut down.
    pub closed spec fn source(self) -> Font {
        self.font
    }

    /// The glyph ids asked for so far, in ascending order, each once.
    pub closed spec fn glyphs(self) -> Seq<u32> {
        self.glyph_ids@
    }

    /// The tags of the tables to keep; every table is kept where there are none.
    pub closed spec fn kept_tables(self) -> Seq<[u8; 4]> {
        self.retain_tables@
    }

    /// The glyph id was asked for.
    pub open spec fn keeps(self, id: u32) -> bool {
        self.glyphs().contains(id)
    }

    /// The glyphs of the subset, by their old ids, in the order of their new ids: the ids
    /// asked for, ascending, with glyph 0 put first where it was not asked for.
    pub open spec fn retained(self) -> Seq<u32> {
        if self.glyphs().len() > 0 && self.glyphs()[0] == 0 {
            self.glyphs()
        } else {
            seq![0u32] + self.glyphs()
        }
    }

    /// A builder that keeps no glyph yet and will keep every table.
    pub fn new(font: Font) -> (s: Self)
        ensures
            s.source() == font,
            s.glyphs().len() == 0,
            s.kept_tables().len() == 0,
    {
        Self { font, glyph_ids: Vec::new(), retain_tables: Vec::new() }
    }

    fn insert(&mut self, id: u32)
        ensures
            forall|g: u32| final(self).keeps(g) <==> old(self).keeps(g) || g == id,
            final(self).source() == old(self).source(),
            final(self).kept_tables() == old(self).kept_tables(),
    {
        proof {
            use_type_invariant(&*self);
        }
        let ghost before = self.glyph_ids@;
        let n = self.glyph_ids.len();
        let mut out: Vec<u32> = Vec::new();
        let mut i: usize = 0;
        while i < n && self.glyph_ids[i] < id
            invariant
                i <= n,
                n == before.len(),
                self.glyph_ids@ == before,
                out@ == before.subrange(0, i as int),
                forall|k: int| 0 <= k < i ==> before[k] < id,
            decreases n - i,
        {
            out.push(self.glyph_ids[i]);
            i = i + 1;
            assert(out@ =~= before.subrange(0, i as int));
        }
        if i < n && self.glyph_ids[i] == id {
            assert(before[i as int] == id);
            return ;
        }
        let at = i;
        out.push(id);
        while i < n
            invariant
                at <= i <= n,
                n == before.len(),
                self.glyph_ids@ == before,
                out@ == before.subrange(0, at as int).push(id) + before.subrange(at as int, i as int),
            decreases n - i,
        {
            out.push(self.glyph_ids[i]);
            i = i + 1;
            assert(out@ =~= before.subrange(0, at as int).push(id) + before.subrange(
                at as int,
                i as int,
            ));
        }
        let ghost after = out@;
        assert(after.len() == n + 1);
        assert(forall|k: int| 0 <= k < at ==> after[k] == before[k]);
        assert(after[at as int] == id);
        assert(forall|k: int| at < k <= n ==> after[k] == before[k - 1]);
        assert(strictly_ascending(after)) by {
            assert forall|a: int, b: int| 0 <= a < b < after.len() implies after[a] < after[b] by {
                if b < at {
                } else if b == at {
                } else if a < at {
                    assert(before[at as int] > id);
                    assert(before[a] < id);
                    if b - 1 > at {
                        assert(before[at as int] < before[b - 1]);
                    }
                } else if a == at {
                    assert(before[at as int] > id);
                    if b - 1 > at {
                        assert(before[at as int] < before[b - 1]);
                    }
                } else {
                    assert(before[a - 1] < before[b - 1]);
                }
            }
        }
        assert forall|x: u32| after.contains(x) <==> before.contains(x) || x == id by {
            if after.contains(x) {
                let k = choose|k: int| 0 <= k < after.len() && after[k] == x;
                if k < at {
                    assert(before[k] == x);
                } else if k > at {
                    assert(before[k - 1] == x);
                }
            }
            if before.contains(x) {
                let k = choose|k: int| 0 <= k < before.len() && before[k] == x;
                if k < at {
                    assert(after[k] == x);
                } else {
                    assert(after[k + 1] == x);
                }
            }
            if x == id {
                assert(after[at as int] == x);
            }
        }
        self.glyph_ids = out;
    }

    fn insert_all(&mut self, ids: &[u32])
        ensures
            forall|g: u32| final(self).keeps(g) <==> old(self).keeps(g) || ids@.contains(g),
            final(self).source() == old(self).source(),
            final(self).kept_tables() == old(self).kept_tables(),
    {
        let mut i: usize = 0;
        while i < ids.len()
            invariant
                i <= ids.len(),
                self.source() == old(self).source(),
                self.kept_tables() == old(self).kept_tables(),
                forall|g: u32|
                    self.keeps(g) <==> old(self).keeps(g) || ids@.subrange(0, i as int).contains(g),
            decreases ids.len() - i,
        {
            let ghost before = ids@.subrange(0, i as int);
            self.insert(ids[i]);
            i = i + 1;
            proof {
                let now = ids@.subrange(0, i as int);
                assert forall|g: u32| now.contains(g) <==> before.contains(g) || g == ids@[i
                    - 1] by {
                    if now.contains(g) {
                        let k = choose|k: int| 0 <= k < now.len() && now[k] == g;
                        if k < i - 1 {
                            assert(before[k] == g);
                        }
                    }
                    if before.contains(g) {
                        let k = choose|k: int| 0 <= k < before.len() && before[k] == g;
                        assert(now[k] == g);
                    }
                    if g == ids@[i - 1] {
                        assert(now[i - 1] == g);
                    }
                }
            }
        }
        assert(ids@.subrange(0, i as int) =~= ids@);
    }

    /// Adds glyph ids to the set to keep.
    pub fn with_glyphs(&mut self, glyph_ids: &[u32]) -> (ret: &mut Self)
        ensures
            forall|g: u32| ret.keeps(g) <==> old(self).keeps(g) || glyph_ids@.contains(g),
            ret.source() == old(self).source(),
            ret.kept_tables() == old(self).kept_tables(),
            *final(self) == *final(ret),
    {
        self.insert_all(glyph_ids);
        self
    }

    /// The outcome `r` of adding the glyphs of `chars` to this set, which gave the set `after`,
    /// is what the character map `cmap`, decoded from the font, asks for: success exactly if
    /// every character has a glyph, and then a set grown by those glyphs.
    pub open spec fn resolved_by(
        self,
        after: FontSubset,
        chars: Seq<char>,
        r: Result<(), TtfError>,
        cmap: CmapTable,
    ) -> bool {
        &&& cmap.decodes(self.source().access(TAG_CMAP@)->bytes, 0)
        &&& r is Ok <==> forall|i: int|
            0 <= i < chars.len() ==> (#[trigger] cmap.glyph(chars[i] as u32 as int)) is Some
        &&& r matches Err(e) ==> e.is_parse_error()
        &&& r is Ok ==> forall|g: u32|
            after.keeps(g) <==> self.keeps(g) || exists|i: int|
                0 <= i < chars.len() && #[trigger] cmap.glyph(chars[i] as u32 as int) == Some(g)
    }

    /// Adds the glyphs of the characters to the set to keep. The glyph of a character is the
    /// one that the font's character map gives it.
    ///
    /// Fails as [`Font::cmap_table`] does, and with a parse error where a character has no
    /// glyph. On failure the set is what it was: no character is added unless all can be.
    #[verifier::loop_isolation(false)]
    pub fn with_chars(&mut self, chars: &[char]) -> (r: Result<(), TtfError>)
        ensures
            final(self).source() == old(self).source(),
            final(self).kept_tables() == old(self).kept_tables(),
            r is Err ==> final(self).glyphs() == old(self).glyphs(),
            !(old(self).source().access(TAG_CMAP@) matches Access::Present { bytes }
                && CmapTable::parses(bytes, 0)) ==> r is Err,
            !(old(self).source().access(TAG_CMAP@) is Present) ==> r is Err && access_error(
                r->Err_0,
                old(self).source().access(TAG_CMAP@),
                "cmap"@,
            ),
            old(self).source().access(TAG_CMAP@) matches Access::Present { bytes }
                && CmapTable::parses(bytes, 0) ==> exists|cmap: CmapTable| #[trigger]
                old(self).resolved_by(*final(self), chars@, r, cmap),
    {
        let cmap = self.font.cmap_table()?;
        let mut ids: Vec<u32> = Vec::with_capacity(chars.len());
        let mut i: usize = 0;
        while i < chars.len()
            invariant
                i <= chars.len(),
                *self == *old(self),
                ids@.len() == i,
                forall|k: int|
                    0 <= k < i ==> cmap.glyph(chars@[k] as u32 as int) == Some(#[trigger] ids@[k]),
            decreases chars.len() - i,
        {
            match cmap.map_char(chars[i]) {
                Some(g) => {
                    ids.push(g);
                },
                None => {
                    let r = Err(parse_error("No glyph found for character"));
                    proof {
                        assert(cmap.glyph(chars@[i as int] as u32 as int) is None);
                        assert(old(self).resolved_by(*self, chars@, r, cmap));
                    }
                    return r;
                },
            }
            i = i + 1;
        }
        self.insert_all(ids.as_slice());
        proof {
            assert forall|g: u32|
                ids@.contains(g) <==> exists|i: int|
                    0 <= i < chars@.len() && cmap.glyph(chars@[i] as u32 as int) == Some(g) by {
                if ids@.contains(g) {
                    let k = choose|k: int| 0 <= k < ids@.len() && ids@[k] == g;
                    assert(cmap.glyph(chars@[k] as u32 as int) == Some(g));
                }
                if exists|i: int|
                    0 <= i < chars@.len() && cmap.glyph(chars@[i] as u32 as int) == Some(g) {
                    let k = choose|i: int|
                        0 <= i < chars@.len() && cmap.glyph(chars@[i] as u32 as int) == Some(g);
                    assert(ids@[k] == g);
                }
            }
            assert forall|i: int| 0 <= i < chars@.len() implies (#[trigger] cmap.glyph(
                chars@[i] as u32 as int,
            )) is Some by {
                assert(cmap.glyph(chars@[i] as u32 as int) == Some(ids@[i]));
            }
            assert forall|g: u32|
                self.keeps(g) <==> old(self).keeps(g) || exists|i: int|
                    0 <= i < chars@.len() && #[trigger] cmap.glyph(chars@[i] as u32 as int) == Some(
                        g,
                    ) by {
                if ids@.contains(g) {
                    let k = choose|i: int|
                        0 <= i < chars@.len() && cmap.glyph(chars@[i] as u32 as int) == Some(g);
                    assert(cmap.glyph(chars@[k] as u32 as int) == Some(g));
                }
                if exists|i: int|
                    0 <= i < chars@.len() && #[trigger] cmap.glyph(chars@[i] as u32 as int) == Some(
                        g,
                    ) {
                    let k = choose|i: int|
                        0 <= i < chars@.len() && #[trigger] cmap.glyph(chars@[i] as u32 as int)
                            == Some(g);
                    assert(ids@[k] == g);
                }
            }
            assert(old(self).resolved_by(*self, chars@, Ok(()), cmap));
        }
        Ok(())
    }

    /// Names tables to keep. Once a table is named, only named tables go into the subset.
    pub fn retain_tables(&mut self, tables: &[[u8; 4]]) -> (ret: &mut Self)
        ensures
            ret.kept_tables() == old(self).kept_tables() + tables@,
            ret.source() == old(self).source(),
            ret.glyphs() == old(self).glyphs(),
            *final(self) == *final(ret),
    {
        proof {
            use_type_invariant(&*self);
        }
        let ghost before = self.retain_tables@;
        let mut all: Vec<[u8; 4]> = Vec::new();
        let mut k: usize = 0;
        while k < self.retain_tables.len()
            invariant
                k <= self.retain_tables.len(),
                self.retain_tables@ == before,
                all@ == before.subrange(0, k as int),
            decreases self.retain_tables.len() - k,
        {
            all.push(self.retain_tables[k]);
            k = k + 1;
            assert(all@ =~= before.subrange(0, k as int));
        }
        assert(before.subrange(0, k as int) =~= before);
        let mut i: usize = 0;
        while i < tables.len()
            invariant
                i <= tables.len(),
                all@ == before + tables@.subrange(0, i as int),
            decreases tables.len() - i,
        {
            all.push(tables[i]);
            i = i + 1;
            assert(all@ =~= before + tables@.subrange(0, i as int));
        }
        assert(tables@.subrange(0, i as int) =~= tables@);
        self.retain_tables = all;
        self
    }

    /// The old ids of the glyphs of the subset, in the order of their new ids.
    pub fn retained_ids(&self) -> (ids: Vec<u32>)
        ensures
            ids@ == self.retained(),
            strictly_ascending(ids@),
            ids@.len() >= 1,
            ids@[0] == 0,
    {
        proof {
            use_type_invariant(self);
        }
        let mut ids: Vec<u32> = Vec::new();
        if self.glyph_ids.len() == 0 || self.glyph_ids[0] != 0 {
            ids.push(0);
        }
        let ghost head = ids@;
        let mut i: usize = 0;
        while i < self.glyph_ids.len()
            invariant
                i <= self.glyph_ids.len(),
                ids@ == head + self.glyph_ids@.subrange(0, i as int),
            decreases self.glyph_ids.len() - i,
        {
            ids.push(self.glyph_ids[i]);
            i = i + 1;
            assert(ids@ =~= head + self.glyph_ids@.subrange(0, i as int));
        }
        assert(self.glyph_ids@.subrange(0, i as int) =~= self.glyph_ids@);
        assert(ids@ =~= self.retained());
        assert(strictly_ascending(ids@)) by {
            assert forall|a: int, b: int| 0 <= a < b < ids@.len() implies ids@[a] < ids@[b] by {
                if head.len() == 1 {
                    if a == 0 {
                        assert(self.glyph_ids@[0] != 0);
                        if b - 1 > 0 {
                            assert(self.glyph_ids@[0] < self.glyph_ids@[b - 1]);
                        }
                    } else {
                        assert(self.glyph_ids@[a - 1] < self.glyph_ids@[b - 1]);
                    }
                }
            }
        }
        ids
    }
}

/// The six replacements of a subset, in the order in which they are filed.
pub open spec fn six_tables(list: Seq<Replacement>) -> bool {
    &&& list.len() == 6
    &&& list[0].tag == TAG_GLYF
    &&& list[1].tag == TAG_LOCA
    &&& list[2].tag == TAG_HMTX
    &&& list[3].tag == TAG_HHEA
    &&& list[4].tag == TAG_MAXP
    &&& list[5].tag == TAG_CMAP
}

/// What a list of the six replacements gives each tag.
proof fn lemma_six_tables(list: Seq<Replacement>)
    requires
        six_tables(list),
    ensures
        replacement_for(list, TAG_GLYF@, 0) == Some(list[0].data@),
        replacement_for(list, TAG_LOCA@, 0) == Some(list[1].data@),
        replacement_for(list, TAG_HMTX@, 0) == Some(list[2].data@),
        replacement_for(list, TAG_HHEA@, 0) == Some(list[3].data@),
        replacement_for(list, TAG_MAXP@, 0) == Some(list[4].data@),
        replacement_for(list, TAG_CMAP@, 0) == Some(list[5].data@),
        forall|tag: Seq<u8>| !is_rewritten(tag) ==> replacement_for(list, tag, 0) is None,
{
    reveal_with_fuel(replacement_for, 8);
    assert(TAG_GLYF@[0] == 0x67 && TAG_LOCA@[0] == 0x6c && TAG_HMTX@[0] == 0x68 && TAG_HHEA@[0]
        == 0x68 && TAG_MAXP@[0] == 0x6d && TAG_CMAP@[0] == 0x63);
    assert(TAG_HMTX@[1] == 0x6d && TAG_HHEA@[1] == 0x68);
}

impl FontSubset {
    /// The bytes `b` are an `hmtx` table that holds, for each new glyph, the metrics that the
    /// old table `t`, decoded from the font, gives the glyph's old id.
    pub open spec fn metrics_from(self, b: Seq<u8>, t: HmtxTable) -> bool {
        let src = self.source();
        let keep = self.retained();
        &&& t.decodes(
            src.access(TAG_HMTX@)->bytes,
            0,
            be_u16(src.access(TAG_MAXP@)->bytes, 4) as int,
            be_u16(src.access(TAG_HHEA@)->bytes, 36) as int,
        )
        &&& b.len() == 4 * keep.len()
        &&& forall|k: int|
            0 <= k < keep.len() ==> be_u16(b, 4 * k) == t.advance_width(#[trigger] keep[k] as int)
                && be_i16(b, 4 * k + 2) == t.lsb(keep[k] as int)
    }

    /// The bytes `glyf` are the outlines of the retained glyphs, found with the offsets
    /// `loca`, decoded from the font; and the bytes `b` are a `loca` table that holds the
    /// place of each of them, in the form that `head` names.
    pub open spec fn outlines_from(self, glyf: Seq<u8>, b: Seq<u8>, loca: LocaTable) -> bool {
        let src = self.source();
        let keep = self.retained();
        let n = keep.len() as int;
        let old = src.access(TAG_GLYF@)->bytes;
        let is_long = be_i16(src.access(TAG_HEAD@)->bytes, 50) == 1;
        &&& loca.decodes(
            src.access(TAG_LOCA@)->bytes,
            0,
            be_u16(src.access(TAG_MAXP@)->bytes, 4) + 1,
            is_long,
        )
        &&& glyf == outlines_upto(old, loca, keep, n)
        &&& b.len() == LocaTable::size(n + 1, is_long)
        &&& forall|k: int|
            0 <= k <= n ==> (#[trigger] outlines_upto(old, loca, keep, k)).len() == if is_long {
                be_u32(b, 4 * k)
            } else {
                2 * be_u16(b, 2 * k)
            }
    }

    /// The bytes `b` are a `cmap` table that maps the codes below 0xFFFF as the old table
    /// `cmap`, decoded from the font, asks: they hold one format 4 subtable, filed under
    /// Windows Unicode BMP, with each code that has a glyph in the subset and its new glyph
    /// id, in segments that stand in order, and the closing segment behind them.
    pub open spec fn mapping_from(self, b: Seq<u8>, cmap: CmapTable) -> bool {
        let src = self.source();
        let keep = self.retained();
        let old = src.access(TAG_CMAP@)->bytes;
        &&& cmap.decodes(old, 0)
        &&& exists|pairs: Seq<(u32, u32)>, format4: Format4|
            {
                &&& #[trigger] pairs_upto(pairs, cmap, keep, 0xFFFF)
                &&& #[trigger] format4.holds(pairs)
                &&& pairs == subset_pairs(cmap, keep, 0xFFFF)
                &&& format4.written_for(pairs)
                &&& format4.plain(groups(pairs, pairs.len() as int) + 1)
                &&& b == single_cmap_encoding(format4)
            }
    }

    /// The bytes `b` are the character map of the subset.
    pub open spec fn maps_subset(self, b: Seq<u8>) -> bool {
        exists|cmap: CmapTable| #[trigger] self.mapping_from(b, cmap)
    }

    /// The bytes `b` are the metrics of the subset.
    pub open spec fn measures_subset(self, b: Seq<u8>) -> bool {
        exists|t: HmtxTable| #[trigger] self.metrics_from(b, t)
    }

    /// The bytes `glyf` and `b` are the outlines of the subset and their offsets.
    pub open spec fn outlines_subset(self, glyf: Seq<u8>, b: Seq<u8>) -> bool {
        exists|loca: LocaTable| #[trigger] self.outlines_from(glyf, b, loca)
    }

    /// The six replacements are the tables of the subset: outlines, offsets, metrics, the two
    /// counts and the character map, rewritten for the retained glyphs.
    pub open spec fn rewrites(self, list: Seq<Replacement>) -> bool {
        let src = self.source();
        let n = self.retained().len() as int;
        &&& six_tables(list)
        &&& 1 <= n <= 0xFFFF
        &&& src.access(TAG_MAXP@) is Present
        &&& MaxpTable::parses(src.access(TAG_MAXP@)->bytes)
        &&& src.access(TAG_HEAD@) is Present
        &&& src.access(TAG_HHEA@) is Present
        &&& src.access(TAG_HMTX@) is Present
        &&& src.access(TAG_LOCA@) is Present
        &&& src.access(TAG_GLYF@) is Present
        &&& src.access(TAG_CMAP@) is Present
        &&& list[4].data@ == with_u16(src.access(TAG_MAXP@)->bytes, 4, n)
        &&& list[3].data@ == with_u16(src.access(TAG_HHEA@)->bytes, 36, n)
        &&& self.measures_subset(list[2].data@)
        &&& self.outlines_subset(list[0].data@, list[1].data@)
        &&& self.maps_subset(list[5].data@)
    }

    /// The font `f` is the subset that this builder asks for: the tables named to be kept,
    /// laid out afresh, with the glyph count, the outlines, the offsets, the metrics and the
    /// character map rewritten for the retained glyphs and every other table as it was.
    pub open spec fn is_subset(self, f: Font) -> bool {
        let src = self.source();
        let n = self.retained().len() as int;
        let tags = self.kept_tables();
        &&& 1 <= n <= 0xFFFF
        &&& f.sfnt_version == src.sfnt_version
        &&& f.num_tables == f.table_records@.len()
        &&& forall|tag: Seq<u8>|
            (#[trigger] f.record_index(tag)) is Some <==> (src.record_index(tag) is Some && stays(
                tags,
                tag,
            ))
        &&& forall|tag: Seq<u8>|
            stays(tags, tag) && !is_rewritten(tag) && (#[trigger] src.table_bytes(tag)) is Some
                ==> f.table_bytes(tag) == src.table_bytes(tag)
        &&& exists|list: Seq<Replacement>|
            {
                &&& #[trigger] self.rewrites(list)
                &&& stays(tags, TAG_GLYF@) ==> f.table_bytes(TAG_GLYF@) == Some(list[0].data@)
                &&& stays(tags, TAG_LOCA@) ==> f.table_bytes(TAG_LOCA@) == Some(list[1].data@)
                &&& stays(tags, TAG_HMTX@) ==> f.table_bytes(TAG_HMTX@) == Some(list[2].data@)
                &&& stays(tags, TAG_HHEA@) ==> f.table_bytes(TAG_HHEA@) == Some(list[3].data@)
                &&& stays(tags, TAG_MAXP@) ==> f.table_bytes(TAG_MAXP@) == Some(list[4].data@)
                &&& stays(tags, TAG_CMAP@) ==> f.table_bytes(TAG_CMAP@) == Some(list[5].data@)
            }
    }

    /// The outlines of the retained glyphs can be had with the offsets `loca` and written
    /// anew: each is a glyph of the font with a span inside the `glyf` table, and the new
    /// offsets fit the form of the font's `loca` table.
    pub open spec fn outlines_fit(self, loca: LocaTable) -> bool {
        let font = self.source();
        let bytes = font.access(TAG_GLYF@)->bytes;
        let retained = self.retained();
        &&& forall|k: int|
            0 <= k < retained.len() ==> retained[k] < be_u16(font.access(TAG_MAXP@)->bytes, 4)
                && glyph_span(bytes, loca, #[trigger] retained[k] as int) is Some
        &&& outlines_upto(bytes, loca, retained, retained.len() as int).len() <= u32::MAX
        &&& be_i16(font.access(TAG_HEAD@)->bytes, 50) == 1 || forall|k: int|
            0 <= k <= retained.len() ==> (#[trigger] outlines_upto(bytes, loca, retained, k)).len()
                % 2 == 0 && outlines_upto(bytes, loca, retained, k).len() <= 0x1_FFFE
    }

    /// The six tables of the subset can be written: there are at most 0xFFFF glyphs to
    /// retain, the font's glyphs, offsets, metrics and character map can be read, the
    /// outlines can be had and their offsets stored, and the character map fits.
    pub open spec fn rewritable(self) -> bool {
        let font = self.source();
        &&& self.retained().len() <= 0xFFFF
        &&& font.has_glyphs()
        &&& forall|loca: LocaTable| #[trigger] font.reads_loca(loca) ==> self.outlines_fit(loca)
        &&& exists|hmtx: HmtxTable| font.reads_hmtx(hmtx)
        &&& exists|cmap: CmapTable| font.reads_cmap(cmap)
        &&& forall|cmap: CmapTable| #[trigger]
            font.reads_cmap(cmap) ==> mapping_fits(cmap, self.retained())
    }

    /// The subset can be built: a glyph was asked for, the six tables can be written, and
    /// the new file stays within 32-bit offsets whatever the six tables hold.
    pub open spec fn buildable(self) -> bool {
        &&& self.glyphs().len() > 0
        &&& self.rewritable()
        &&& forall|list: Seq<Replacement>| #[trigger]
            self.rewrites(list) ==> self.source().rebuilds(list, self.kept_tables())
    }

    /// The six tables of the subset, rewritten for the retained glyphs.
    ///
    /// Fails as the accessors of the tables it reads fail; with `InvalidNumGlyphs` or
    /// `InvalidGlyphIndex` where a glyph that was asked for is not in the font; with
    /// `InvalidLocaOffset` where the offsets of the font are at fault; and with `InvalidSize`
    /// where a table would outgrow its format. Succeeds where the tables are
    /// [rewritable](FontSubset::rewritable).
    pub fn rewritten_tables(&self) -> (r: Result<Vec<Replacement>, TtfError>)
        ensures
            r matches Ok(list) ==> self.rewrites(list@),
            self.rewritable() ==> r is Ok,
            self.retained().len() > 0xFFFF ==> (r matches Err(TtfError::InvalidNumGlyphs(n)) && n
                == 0xFFFF),
            self.retained().len() <= 0xFFFF && self.source().access(TAG_GLYF@) is Missing ==> r
                is Err && r->Err_0.is_missing("glyf"@),
    {
        let retained = self.retained_ids();
        if retained.len() > 0xFFFF {
            return Err(TtfError::InvalidNumGlyphs(0xFFFF));
        }
        let count = retained.len() as u16;
        let glyf = self.font.glyf_table()?;
        let loca = self.font.loca_table()?;
        let head = self.font.head_table()?;
        let glyf_bytes = match self.font.get_table_data(&TAG_GLYF) {
            Some(bytes) => bytes,
            None => { return Err(missing_table("glyf")); },
        };
        proof {
            let found = choose|found: LocaTable| #[trigger] self.font.glyphs_by(glyf, found);
            assert(self.font.glyphs_by(glyf, found));
            assert(glyf.glyphs@.len() == be_u16(self.font.access(TAG_MAXP@)->bytes, 4));
            assert(self.font.reads_loca(loca));
            assert(glyf_bytes@ == self.font.access(TAG_GLYF@)->bytes);
            if self.rewritable() {
                assert(self.outlines_fit(loca));
            }
        }
        let made = subset_glyf_table(
            glyf_bytes.as_slice(),
            &loca,
            glyf.glyphs.len(),
            retained.as_slice(),
        );
        let (outlines, offsets) = made?;
        proof {
            if self.rewritable() {
                assert(self.outlines_fit(loca));
                assert(storable(offsets@, head.index_to_loc_format == 1)) by {
                    if head.index_to_loc_format != 1 {
                        assert forall|i: int| 0 <= i < offsets@.len() implies #[trigger] offsets@[i]
                            % 2 == 0 && offsets@[i] <= 0x1_FFFE by {
                            assert(offsets@[i] == outlines_upto(
                                glyf_bytes@,
                                loca,
                                retained@,
                                i,
                            ).len());
                        }
                    }
                }
            }
        }
        let new_loca = subset_loca_table(offsets.as_slice(), head.is_long_loca_format())?;
        proof {
            let old = self.font.access(TAG_GLYF@)->bytes;
            let is_long = be_i16(self.font.access(TAG_HEAD@)->bytes, 50) == 1;
            assert(glyf_bytes@ == old);
            assert((head.index_to_loc_format == 1) == is_long);
            assert forall|k: int| 0 <= k <= retained@.len() implies (#[trigger] outlines_upto(
                old,
                loca,
                retained@,
                k,
            )).len() == if is_long {
                be_u32(new_loca@, 4 * k)
            } else {
                2 * be_u16(new_loca@, 2 * k)
            } by {
                assert(offsets@[k] == outlines_upto(old, loca, retained@, k).len());
            }
            assert(self.outlines_from(outlines@, new_loca@, loca));
            assert(self.outlines_subset(outlines@, new_loca@));
        }
        let hmtx = self.font.hmtx_table()?;
        let new_hmtx = subset_hmtx_table(&hmtx, retained.as_slice());
        proof {
            assert(self.metrics_from(new_hmtx@, hmtx));
            assert(self.measures_subset(new_hmtx@));
        }
        let hhea_bytes = match self.font.get_table_data(&TAG_HHEA) {
            Some(bytes) => bytes,
            None => { return Err(missing_table("hhea")); },
        };
        let new_hhea = update_hhea_table(hhea_bytes.as_slice(), count);
        let maxp_bytes = match self.font.get_table_data(&TAG_MAXP) {
            Some(bytes) => bytes,
            None => { return Err(missing_table("maxp")); },
        };
        let new_maxp = update_maxp_table(maxp_bytes.as_slice(), count);
        let new_cmap = self.rewritten_cmap(&retained)?;
        let mut list: Vec<Replacement> = Vec::new();
        list.push(Replacement { tag: TAG_GLYF, data: outlines });
        list.push(Replacement { tag: TAG_LOCA, data: new_loca });
        list.push(Replacement { tag: TAG_HMTX, data: new_hmtx });
        list.push(Replacement { tag: TAG_HHEA, data: new_hhea });
        list.push(Replacement { tag: TAG_MAXP, data: new_maxp });
        list.push(Replacement { tag: TAG_CMAP, data: new_cmap });
        Ok(list)
    }

    /// The character map of the subset.
    fn rewritten_cmap(&self, retained: &Vec<u32>) -> (r: Result<Vec<u8>, TtfError>)
        requires
            retained@ == self.retained(),
            strictly_ascending(retained@),
            retained@.len() <= 0xFFFF,
        ensures
            r is Ok ==> self.source().access(TAG_CMAP@) is Present,
            r matches Ok(bytes) ==> self.maps_subset(bytes@),
            (exists|cmap: CmapTable| self.source().reads_cmap(cmap)) && (forall|cmap: CmapTable|
             #[trigger]
                self.source().reads_cmap(cmap) ==> mapping_fits(cmap, self.retained())) ==> r
                is Ok,
    {
        let cmap = self.font.cmap_table()?;
        assert(self.font.reads_cmap(cmap));
        let bytes = subset_cmap_table(&cmap, retained.as_slice())?;
        proof {
            let pairs = subset_pairs(cmap, retained@, 0xFFFF);
            let format4 = choose|format4: Format4| #[trigger]
                format4.written_for(pairs) && bytes@ == single_cmap_encoding(format4);
            assert(pairs_upto(pairs, cmap, retained@, 0xFFFF));
            assert(format4.holds(pairs));
            assert(self.mapping_from(bytes@, cmap));
            assert(self.maps_subset(bytes@));
        }
        Ok(bytes)
    }

    /// Builds the subset.
    ///
    /// The glyphs asked for, and glyph 0 with them, get the new ids 0, 1, 2 and so on in the
    /// order of their old ids. The new `glyf` table holds their outlines, the new `loca`
    /// table the offsets of these, the new `hmtx` table a full entry for each with the metrics
    /// of its old id, and `hhea` and `maxp` the new counts. The new `cmap` table has one
    /// format 4 subtable with every code below 0xFFFF that the old table maps to a retained
    /// glyph. Tables that were not named to be kept are dropped, and the font is laid out
    /// afresh.
    ///
    /// Fails with a parse error where no glyph was asked for; as
    /// [`FontSubset::rewritten_tables`] fails; and with `InvalidSize` where the new file
    /// would outgrow 32-bit offsets. Succeeds where the subset is
    /// [buildable](FontSubset::buildable).
    pub fn build(&self) -> (r: Result<Font, TtfError>)
        ensures
            self.glyphs().len() == 0 ==> r is Err && r->Err_0.is_parse_error(),
            r matches Ok(f) ==> self.is_subset(f),
            self.buildable() ==> r is Ok,
            self.glyphs().len() > 0 && self.retained().len() > 0xFFFF ==> (r matches Err(
                TtfError::InvalidNumGlyphs(n),
            ) && n == 0xFFFF),
            self.glyphs().len() > 0 && self.retained().len() <= 0xFFFF && self.source().access(
                TAG_GLYF@,
            ) is Missing ==> r is Err && r->Err_0.is_missing("glyf"@),
    {
        if self.glyph_ids.len() == 0 {
            return Err(parse_error("No glyphs specified for subsetting"));
        }
        let list = self.rewritten_tables()?;
        let font = self.font.rebuild_with(&list, &self.retain_tables)?;
        proof {
            let src = self.font;
            let tags = self.retain_tables@;
            lemma_six_tables(list@);
            assert(new_table(src, list@, TAG_GLYF@) == Some(list@[0].data@));
            assert(new_table(src, list@, TAG_LOCA@) == Some(list@[1].data@));
            assert(new_table(src, list@, TAG_HMTX@) == Some(list@[2].data@));
            assert(new_table(src, list@, TAG_HHEA@) == Some(list@[3].data@));
            assert(new_table(src, list@, TAG_MAXP@) == Some(list@[4].data@));
            assert(new_table(src, list@, TAG_CMAP@) == Some(list@[5].data@));
            assert forall|tag: Seq<u8>|
                stays(tags, tag) && !is_rewritten(tag) && (#[trigger] src.table_bytes(tag))
                    is Some implies font.table_bytes(tag) == src.table_bytes(tag) by {
                assert(new_table(src, list@, tag) == src.table_bytes(tag));
            }
            assert(self.rewrites(list@));
        }
        Ok(font)
    }
}

/// The glyphs of a subset are glyph 0 and the glyphs that were asked for, each once.
pub proof fn lemma_retained_glyphs(s: FontSubset)
    requires
        strictly_ascending(s.glyphs()),
    ensures
        strictly_ascending(s.retained()),
        forall|g: u32| s.retained().contains(g) <==> g == 0 || s.keeps(g),
{
    let glyphs = s.glyphs();
    let retained = s.retained();
    if glyphs.len() > 0 && glyphs[0] == 0 {
        assert forall|g: u32| retained.contains(g) <==> g == 0 || s.keeps(g) by {
            if g == 0 {
                assert(glyphs[0] == g);
            }
        }
    } else {
        assert forall|a: int, b: int| 0 <= a < b < retained.len() implies retained[a]
            < retained[b] by {
            if a == 0 {
                assert(retained[b] == glyphs[b - 1]);
                if b - 1 > 0 {
                    assert(glyphs[0] < glyphs[b - 1]);
                }
            } else {
                assert(glyphs[a - 1] < glyphs[b - 1]);
            }
        }
        assert forall|g: u32| retained.contains(g) <==> g == 0 || s.keeps(g) by {
            if retained.contains(g) {
                let k = choose|k: int| 0 <= k < retained.len() && retained[k] == g;
                if k > 0 {
                    assert(glyphs[k - 1] == g);
                }
            }
            if g == 0 {
                assert(retained[0] == g);
            }
            if glyphs.contains(g) {
                let k = choose|k: int| 0 <= k < glyphs.len() && glyphs[k] == g;
                assert(retained[k + 1] == g);
            }
        }
    }
}

/// A subset that keeps its `maxp` table declares as many glyphs as it retains: glyph 0 and
/// the glyphs that were asked for. The table can be read, so that the glyph count of the
/// subset is that number.
pub proof fn lemma_subset_glyph_count(s: FontSubset, f: Font)
    requires
        s.is_subset(f),
        stays(s.kept_tables(), TAG_MAXP@),
    ensures
        f.access(TAG_MAXP@) is Present,
        MaxpTable::parses(f.access(TAG_MAXP@)->bytes),
        be_u16(f.access(TAG_MAXP@)->bytes, 4) == s.retained().len(),
{
    let list = choose|list: Seq<Replacement>|
        {
            &&& #[trigger] s.rewrites(list)
            &&& stays(s.kept_tables(), TAG_GLYF@) ==> f.table_bytes(TAG_GLYF@) == Some(list[0].data@)
            &&& stays(s.kept_tables(), TAG_LOCA@) ==> f.table_bytes(TAG_LOCA@) == Some(list[1].data@)
            &&& stays(s.kept_tables(), TAG_HMTX@) ==> f.table_bytes(TAG_HMTX@) == Some(list[2].data@)
            &&& stays(s.kept_tables(), TAG_HHEA@) ==> f.table_bytes(TAG_HHEA@) == Some(list[3].data@)
            &&& stays(s.kept_tables(), TAG_MAXP@) ==> f.table_bytes(TAG_MAXP@) == Some(list[4].data@)
            &&& stays(s.kept_tables(), TAG_CMAP@) ==> f.table_bytes(TAG_CMAP@) == Some(list[5].data@)
        };
    let old = s.source().access(TAG_MAXP@)->bytes;
    let n = s.retained().len() as int;
    let new = with_u16(old, 4, n);
    assert(f.table_bytes(TAG_MAXP@) == Some(new));
    assert(new.len() == old.len());
    assert(new[0] == old[0] && new[1] == old[1] && new[2] == old[2] && new[3] == old[3]);
    assert(new[4] == (n / 0x100) as u8 && new[5] == (n % 0x100) as u8);
}

impl Font {
    /// A builder for a subset of this font.
    pub fn subset(self) -> (s: FontSubset)
        ensures
            s.source() == self,
            s.glyphs().len() == 0,
            s.kept_tables().len() == 0,
    {
        FontSubset::new(self)
    }
}

} // verus!
