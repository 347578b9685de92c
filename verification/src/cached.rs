//! A font that remembers the table bytes it has handed out.

use crate::access::{access_error, Access};
use crate::error::TtfError;
use crate::font::Font;
use crate::stream::{copy_range, FontReader};
use crate::tables::cmap::CmapTable;
use crate::tables::head::HeadTable;
use crate::tables::maxp::MaxpTable;
use crate::tables::{same_tag, TtfTable, TAG_CMAP, TAG_HEAD, TAG_MAXP};
use vstd::prelude::*;

verus! {

/// The bytes of one table, kept under its tag.
#[derive(Debug, Clone)]
pub struct CachedTable {
    pub tag: [u8; 4],
    pub data: Vec<u8>,
}

/// A font together with copies of the tables that were asked for. What it hands out is
/// always what the font itself would hand out.
pub struct CachedFont {
    font: Font,
    table_cache: Vec<CachedTable>,
}

impl CachedFont {
    #[verifier::type_invariant]
    spec fn faithful(self) -> bool {
        forall|i: int|
            0 <= i < self.table_cache@.len() ==> self.font.table_bytes(
                (#[trigger] self.table_cache@[i]).tag@,
            ) == Some(self.table_cache@[i].data@)
    }

    /// The font behind the cache.
    pub closed spec fn source(self) -> Font {
        self.font
    }

    /// The number of tables that are kept.
    pub closed spec fn cached(self) -> nat {
        self.table_cache@.len()
    }

    /// A cache around `font` that keeps nothing yet.
    pub fn new(font: Font) -> (c: Self)
        ensures
            c.source() == font,
            c.cached() == 0,
    {
        Self { font, table_cache: Vec::new() }
    }

    /// A copy of the bytes of the first table with this tag, from the cache where they are
    /// kept and from the font otherwise; bytes that come from the font are kept from then on.
    /// A table that the font does not have, or that reaches past the end of the file, is
    /// absent.
    #[verifier::loop_isolation(false)]
    pub fn get_table_data_cached(&mut self, tag: &[u8; 4]) -> (r: Result<Option<Vec<u8>>, TtfError>)
        ensures
            final(self).source() == old(self).source(),
            r is Ok,
            match old(self).source().table_bytes(tag@) {
                Some(bytes) => r->Ok_0 is Some && r->Ok_0->Some_0@ == bytes,
                None => r->Ok_0 is None,
            },
    {
        proof {
            use_type_invariant(&*self);
        }
        let mut i: usize = 0;
        while i < self.table_cache.len()
            invariant
                i <= self.table_cache.len(),
                *self == *old(self),
            decreases self.table_cache.len() - i,
        {
            if same_tag(&self.table_cache[i].tag, tag) {
                let data = &self.table_cache[i].data;
                let copy = copy_range(data, 0, data.len());
                assert(copy@ =~= data@);
                return Ok(Some(copy));
            }
            i = i + 1;
        }
        let data = self.font.get_table_data(tag);
        match &data {
            Some(bytes) => {
                let ghost before = self.table_cache@;
                let mut kept: Vec<CachedTable> = Vec::new();
                let mut k: usize = 0;
                while k < self.table_cache.len()
                    invariant
                        k <= self.table_cache.len(),
                        *self == *old(self),
                        kept@.len() == k,
                        forall|j: int|
                            0 <= j < k ==> (#[trigger] kept@[j]).tag == before[j].tag && kept@[j].data@
                                == before[j].data@,
                    decreases self.table_cache.len() - k,
                {
                    let entry = &self.table_cache[k];
                    let copy = copy_range(&entry.data, 0, entry.data.len());
                    assert(copy@ =~= entry.data@);
                    kept.push(CachedTable { tag: entry.tag, data: copy });
                    k = k + 1;
                }
                let copy = copy_range(bytes, 0, bytes.len());
                assert(copy@ =~= bytes@);
                kept.push(CachedTable { tag: *tag, data: copy });
                assert forall|j: int| 0 <= j < kept@.len() implies self.font.table_bytes(
                    (#[trigger] kept@[j]).tag@,
                ) == Some(kept@[j].data@) by {
                    if j < before.len() {
                        assert(before[j].tag == kept@[j].tag);
                    }
                }
                self.table_cache = kept;
            },
            None => {},
        }
        Ok(data)
    }

    /// The `head` table, decoded from the bytes that the cache hands out. The outcome is that
    /// of [`Font::head_table`].
    pub fn head_table_cached(&mut self) -> (r: Result<HeadTable, TtfError>)
        ensures
            final(self).source() == old(self).source(),
            match old(self).source().access(TAG_HEAD@) {
                Access::Present { bytes } => {
                    &&& r is Ok <==> HeadTable::parses(bytes)
                    &&& r matches Ok(t) ==> t.decodes(bytes, 0)
                },
                other => r is Err && access_error(r->Err_0, other, "head"@),
            },
    {
        match self.get_table_data_cached(&TAG_HEAD)? {
            Some(data) => {
                if data.len() > 0xFFFF_FFFF {
                    return self.font.head_table();
                }
                let length = data.len() as u32;
                let mut reader = FontReader::new(data);
                HeadTable::from_reader(&mut reader, length)
            },
            None => self.font.head_table(),
        }
    }

    /// The `maxp` table, decoded from the bytes that the cache hands out. The outcome is that
    /// of [`Font::maxp_table`].
    pub fn maxp_table_cached(&mut self) -> (r: Result<MaxpTable, TtfError>)
        ensures
            final(self).source() == old(self).source(),
            match old(self).source().access(TAG_MAXP@) {
                Access::Present { bytes } => {
                    &&& r is Ok <==> MaxpTable::parses(bytes)
                    &&& r matches Ok(t) ==> t.decodes(bytes, 0)
                },
                other => r is Err && access_error(r->Err_0, other, "maxp"@),
            },
    {
        match self.get_table_data_cached(&TAG_MAXP)? {
            Some(data) => {
                if data.len() > 0xFFFF_FFFF {
                    return self.font.maxp_table();
                }
                let length = data.len() as u32;
                let mut reader = FontReader::new(data);
                MaxpTable::from_reader(&mut reader, length)
            },
            None => self.font.maxp_table(),
        }
    }

    /// The `cmap` table, decoded from the bytes that the cache hands out. The outcome is that
    /// of [`Font::cmap_table`].
    pub fn cmap_table_cached(&mut self) -> (r: Result<CmapTable, TtfError>)
        ensures
            final(self).source() == old(self).source(),
            match old(self).source().access(TAG_CMAP@) {
                Access::Present { bytes } => {
                    &&& r is Ok <==> CmapTable::parses(bytes, 0)
                    &&& r matches Ok(t) ==> t.decodes(bytes, 0)
                },
                other => r is Err && access_error(r->Err_0, other, "cmap"@),
            },
    {
        match self.get_table_data_cached(&TAG_CMAP)? {
            Some(data) => {
                if data.len() > 0xFFFF_FFFF {
                    return self.font.cmap_table();
                }
                let length = data.len() as u32;
                let mut reader = FontReader::new(data);
                CmapTable::from_reader(&mut reader, length)
            },
            None => self.font.cmap_table(),
        }
    }

    /// Forgets every table that is kept.
    pub fn clear_cache(&mut self)
        ensures
            final(self).source() == old(self).source(),
            final(self).cached() == 0,
    {
        self.table_cache = Vec::new();
    }

    /// A copy of the font behind the cache.
    pub fn font(&self) -> (f: Font)
        ensures
            f.same_as(self.source()),
    {
        self.font.duplicate()
    }
}

impl Font {
    /// A cache around this font.
    pub fn with_cache(self) -> (c: CachedFont)
        ensures
            c.source() == self,
            c.cached() == 0,
    {
        CachedFont::new(self)
    }
}

} // verus!
