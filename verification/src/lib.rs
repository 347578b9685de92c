//! Reading, editing and writing TrueType / OpenType (SFNT) font files.
//!
//! A [`Font`] is parsed from the bytes of a file; its tables are decoded on demand, each by
//! a codec of its own under [`tables`]. A font can be cut down to a set of glyphs
//! ([`FontSubset`]), changed in its names and metrics ([`FontModifier`]), checked
//! ([`Font::validate`]) and written out again ([`Font::to_bytes`]).

pub mod access;
pub mod cached;
pub mod error;
pub mod fixed;
pub mod font;
pub mod layout;
pub mod layout_laws;
pub mod modifier;
pub mod modifier_laws;
pub mod rasterizer;
pub mod rebuild;
pub mod stream;
pub mod subset;
pub mod subset_cmap;
pub mod subset_laws;
pub mod subset_tables;
pub mod tables;
pub mod text;
pub mod validation;
pub mod wire;
pub mod woff;

pub use cached::CachedFont;
pub use error::{IoError, IoErrorKind, TtfError};
pub use fixed::{F2Dot14, Fixed};
pub use font::Font;
pub use modifier::FontModifier;
pub use rasterizer::{RasterizedGlyph, Rasterizer};
pub use stream::{calculate_checksum, FontReader, FontWriter};
pub use subset::FontSubset;
pub use tables::cmap::{
    CmapSubtable, CmapTable, EncodingRecord, Format0, Format12, Format13, Format4, Format6,
    SequentialMapGroup,
};
pub use tables::geometry::{BoundingBox, Point};
pub use tables::glyf::{
    CompositeGlyph, GlyfTable, Glyph, GlyphComponent, GlyphData, SimpleGlyph, Transform,
};
pub use tables::head::HeadTable;
pub use tables::hhea::HheaTable;
pub use tables::hmtx::{HmtxTable, LongHorMetric};
pub use tables::loca::LocaTable;
pub use tables::maxp::MaxpTable;
pub use tables::name::{NameRecord, NameTable};
pub use tables::os2::Os2Table;
pub use tables::post::PostTable;
pub use tables::{TableRecord, TtfTable, TtfTableWrite};
pub use validation::{ValidationError, ValidationReport, ValidationWarning};
