//! Checking a font for missing tables and other faults.

use crate::access::Access;
use crate::font::{Font, SFNT_OPENTYPE, SFNT_TRUETYPE};
use crate::stream::{calculate_checksum, checksum};
use crate::tables::cmap::CmapTable;
use crate::tables::head::HeadTable;
use crate::tables::maxp::MaxpTable;
use crate::tables::{
    lossy_text, same_tag, TableRecord, TAG_CMAP, TAG_GLYF, TAG_HEAD, TAG_HHEA, TAG_HMTX, TAG_LOCA,
    TAG_MAXP, TAG_NAME, TAG_OS2, TAG_POST,
};
use crate::error::TtfError;
use crate::text::{decimal, decimal_text, hex, hex_text, joined};
use crate::wire::be_u16;
use vstd::prelude::*;
use vstd::string::StringExecFns;

verus! {

/// What a check of a font found.
#[derive(Debug, Clone)]
pub struct ValidationReport {
    pub is_valid: bool,
    pub errors: Vec<ValidationError>,
    pub warnings: Vec<ValidationWarning>,
}

/// A fault that makes the font invalid.
#[derive(Debug, Clone)]
pub struct ValidationError {
    pub error_type: ValidationErrorType,
    pub message: String,
    pub table: Option<String>,
}

/// Something unusual that does not make the font invalid.
#[derive(Debug, Clone)]
pub struct ValidationWarning {
    pub warning_type: ValidationWarningType,
    pub message: String,
    pub table: Option<String>,
}

#[derive(Debug, Clone, Copy, PartialEq, Eq, Structural)]
pub enum ValidationErrorType {
    InvalidSignature,
    InvalidChecksum,
    MissingRequiredTable,
    InvalidTableStructure,
    InvalidGlyphData,
    InvalidCmapData,
}

#[derive(Debug, Clone, Copy, PartialEq, Eq, Structural)]
pub enum ValidationWarningType {
    NonStandardTable,
    UnexpectedTableVersion,
    DeprecatedTable,
    PotentiallyProblematic,
}

/// What an error says: its type, its message and the table it is about.
pub struct ErrorView {
    pub error_type: ValidationErrorType,
    pub message: Seq<char>,
    pub table: Option<Seq<char>>,
}

/// What a warning says: its type, its message and the table it is about.
pub struct WarningView {
    pub warning_type: ValidationWarningType,
    pub message: Seq<char>,
    pub table: Option<Seq<char>>,
}

/// The characters of a text that may be absent.
pub open spec fn text_view(text: Option<String>) -> Option<Seq<char>> {
    match text {
        Some(t) => Some(t@),
        None => None,
    }
}

impl ValidationError {
    /// What the error says.
    pub open spec fn view(self) -> ErrorView {
        ErrorView {
            error_type: self.error_type,
            message: self.message@,
            table: text_view(self.table),
        }
    }
}

impl ValidationWarning {
    /// What the warning says.
    pub open spec fn view(self) -> WarningView {
        WarningView {
            warning_type: self.warning_type,
            message: self.message@,
            table: text_view(self.table),
        }
    }
}

/// What the errors say, one by one.
pub open spec fn error_views(errors: Seq<ValidationError>) -> Seq<ErrorView> {
    Seq::new(errors.len(), |i: int| errors[i].view())
}

/// What the warnings say, one by one.
pub open spec fn warning_views(warnings: Seq<ValidationWarning>) -> Seq<WarningView> {
    Seq::new(warnings.len(), |i: int| warnings[i].view())
}

/// The tags of the tables that are standard.
pub const STANDARD_TAGS: [[u8; 4]; 59] = [
    [0x63, 0x6d, 0x61, 0x70],
    [0x68, 0x65, 0x61, 0x64],
    [0x68, 0x68, 0x65, 0x61],
    [0x68, 0x6d, 0x74, 0x78],
    [0x6d, 0x61, 0x78, 0x70],
    [0x6e, 0x61, 0x6d, 0x65],
    [0x4f, 0x53, 0x2f, 0x32],
    [0x70, 0x6f, 0x73, 0x74],
    [0x67, 0x6c, 0x79, 0x66],
    [0x6c, 0x6f, 0x63, 0x61],
    [0x6b, 0x65, 0x72, 0x6e],
    [0x47, 0x50, 0x4f, 0x53],
    [0x47, 0x53, 0x55, 0x42],
    [0x42, 0x41, 0x53, 0x45],
    [0x47, 0x44, 0x45, 0x46],
    [0x4a, 0x53, 0x54, 0x46],
    [0x76, 0x68, 0x65, 0x61],
    [0x76, 0x6d, 0x74, 0x78],
    [0x56, 0x4f, 0x52, 0x47],
    [0x43, 0x56, 0x54, 0x20],
    [0x66, 0x70, 0x67, 0x6d],
    [0x70, 0x72, 0x65, 0x70],
    [0x67, 0x61, 0x73, 0x70],
    [0x45, 0x42, 0x53, 0x43],
    [0x74, 0x72, 0x61, 0x6b],
    [0x6c, 0x74, 0x73, 0x68],
    [0x50, 0x43, 0x4c, 0x54],
    [0x56, 0x44, 0x4d, 0x58],
    [0x68, 0x64, 0x6d, 0x78],
    [0x43, 0x42, 0x44, 0x54],
    [0x43, 0x42, 0x4c, 0x43],
    [0x43, 0x4f, 0x4c, 0x52],
    [0x43, 0x50, 0x41, 0x4c],
    [0x73, 0x62, 0x69, 0x78],
    [0x61, 0x63, 0x6e, 0x74],
    [0x61, 0x76, 0x61, 0x72],
    [0x62, 0x64, 0x61, 0x74],
    [0x62, 0x6c, 0x6f, 0x63],
    [0x62, 0x73, 0x6c, 0x6e],
    [0x63, 0x76, 0x61, 0x72],
    [0x66, 0x64, 0x73, 0x63],
    [0x66, 0x65, 0x61, 0x74],
    [0x66, 0x6d, 0x74, 0x78],
    [0x66, 0x76, 0x61, 0x72],
    [0x67, 0x76, 0x61, 0x72],
    [0x67, 0x63, 0x69, 0x64],
    [0x68, 0x76, 0x61, 0x72],
    [0x6a, 0x75, 0x73, 0x74],
    [0x6c, 0x63, 0x61, 0x72],
    [0x6d, 0x6f, 0x72, 0x74],
    [0x6d, 0x6f, 0x72, 0x78],
    [0x6f, 0x70, 0x62, 0x64],
    [0x70, 0x72, 0x6f, 0x70],
    [0x5a, 0x61, 0x70, 0x66],
    [0x53, 0x69, 0x6c, 0x66],
    [0x47, 0x6c, 0x61, 0x74],
    [0x47, 0x6c, 0x6f, 0x63],
    [0x46, 0x65, 0x61, 0x74],
    [0x53, 0x69, 0x6c, 0x6c],
];

/// The tag is that of a standard table.
pub open spec fn is_standard_tag(tag: Seq<u8>) -> bool {
    exists|i: int| 0 <= i < 59 && (#[trigger] STANDARD_TAGS@[i])@ == tag
}

/// How the message for a missing table starts.
pub const REQUIRED: &'static str = "Missing required table: ";

/// How the message starts for a missing table that only fonts with TrueType outlines need.
pub const REQUIRED_FOR_TRUETYPE: &'static str = "Missing required table for TrueType: ";

/// The error for a required table that the font lacks, if it lacks it.
pub open spec fn missing_error(
    font: Font,
    tag: Seq<u8>,
    start: Seq<char>,
    described: Seq<char>,
    name: Seq<char>,
) -> Seq<ErrorView> {
    if font.record_index(tag) is None {
        seq![
            ErrorView {
                error_type: ValidationErrorType::MissingRequiredTable,
                message: start + described,
                table: Some(name),
            },
        ]
    } else {
        Seq::empty()
    }
}

/// The warning for a table whose bytes sum to `sum` and not to the checksum of its entry.
pub open spec fn mismatch_warning(record: TableRecord, sum: int) -> WarningView {
    WarningView {
        warning_type: ValidationWarningType::PotentiallyProblematic,
        message: "Checksum mismatch for table "@ + lossy_text(record.table_tag@) + ": expected "@
            + hex_text(record.checksum as nat) + ", got "@ + hex_text(sum as nat),
        table: Some(lossy_text(record.table_tag@)),
    }
}

/// The warning for a table whose tag is not standard.
pub open spec fn stranger_warning(record: TableRecord) -> WarningView {
    WarningView {
        warning_type: ValidationWarningType::NonStandardTable,
        message: "Non-standard table: "@ + lossy_text(record.table_tag@),
        table: Some(lossy_text(record.table_tag@)),
    }
}

impl Font {
    /// The version is one of the two that this library reads.
    pub open spec fn known_version(self) -> bool {
        self.sfnt_version == SFNT_TRUETYPE || self.sfnt_version == SFNT_OPENTYPE
    }

    /// The font has every required table: eight tables in every font, and `glyf` and `loca`
    /// as well in a font with TrueType outlines.
    pub open spec fn has_required_tables(self) -> bool {
        &&& self.record_index(TAG_CMAP@) is Some
        &&& self.record_index(TAG_HEAD@) is Some
        &&& self.record_index(TAG_HHEA@) is Some
        &&& self.record_index(TAG_HMTX@) is Some
        &&& self.record_index(TAG_MAXP@) is Some
        &&& self.record_index(TAG_NAME@) is Some
        &&& self.record_index(TAG_OS2@) is Some
        &&& self.record_index(TAG_POST@) is Some
        &&& self.sfnt_version == SFNT_TRUETYPE ==> self.record_index(TAG_GLYF@) is Some
            && self.record_index(TAG_LOCA@) is Some
    }

    /// The `maxp` table can be read and says that the font has no glyphs.
    pub open spec fn declares_no_glyphs(self) -> bool {
        self.access(TAG_MAXP@) matches Access::Present { bytes } && MaxpTable::parses(bytes)
            && be_u16(bytes, 4) == 0
    }

    /// The `cmap` table can be read and has no subtables.
    pub open spec fn maps_nothing(self) -> bool {
        self.access(TAG_CMAP@) matches Access::Present { bytes } && CmapTable::parses(bytes, 0)
            && be_u16(bytes, 2) == 0
    }

    /// The font passes the check: a known version, all required tables, at least one glyph
    /// and at least one character map.
    pub open spec fn passes(self) -> bool {
        &&& self.known_version()
        &&& self.has_required_tables()
        &&& !self.declares_no_glyphs()
        &&& !self.maps_nothing()
    }

    /// The errors that a check of the font reports, in their order: one for a version that
    /// is not known, one for each required table that is missing, one where `maxp` declares
    /// no glyphs and one where `cmap` has no subtables.
    pub open spec fn expected_errors(self) -> Seq<ErrorView> {
        let e0 = if self.known_version() {
            Seq::<ErrorView>::empty()
        } else {
            seq![
                ErrorView {
                    error_type: ValidationErrorType::InvalidSignature,
                    message: "Invalid SFNT version: "@ + hex_text(self.sfnt_version as nat),
                    table: None,
                },
            ]
        };
        let e1 = e0 + missing_error(self, TAG_CMAP@, REQUIRED@, "cmap (character to glyph mapping)"@, "cmap"@);
        let e2 = e1 + missing_error(self, TAG_HEAD@, REQUIRED@, "head (font header)"@, "head"@);
        let e3 = e2 + missing_error(self, TAG_HHEA@, REQUIRED@, "hhea (horizontal header)"@, "hhea"@);
        let e4 = e3 + missing_error(self, TAG_HMTX@, REQUIRED@, "hmtx (horizontal metrics)"@, "hmtx"@);
        let e5 = e4 + missing_error(self, TAG_MAXP@, REQUIRED@, "maxp (maximum profile)"@, "maxp"@);
        let e6 = e5 + missing_error(self, TAG_NAME@, REQUIRED@, "name (naming table)"@, "name"@);
        let e7 = e6 + missing_error(self, TAG_OS2@, REQUIRED@, "OS/2 (OS/2 and Windows metrics)"@, "OS/2"@);
        let e8 = e7 + missing_error(self, TAG_POST@, REQUIRED@, "post (PostScript information)"@, "post"@);
        let e9 = if self.sfnt_version == SFNT_TRUETYPE {
            e8 + missing_error(
                self,
                TAG_GLYF@,
                REQUIRED_FOR_TRUETYPE@,
                "glyf (glyph data)"@,
                "glyf"@,
            ) + missing_error(
                self,
                TAG_LOCA@,
                REQUIRED_FOR_TRUETYPE@,
                "loca (index to location)"@,
                "loca"@,
            )
        } else {
            e8
        };
        let e10 = if self.declares_no_glyphs() {
            e9.push(
                ErrorView {
                    error_type: ValidationErrorType::InvalidGlyphData,
                    message: "Font has no glyphs"@,
                    table: Some("maxp"@),
                },
            )
        } else {
            e9
        };
        if self.maps_nothing() {
            e10.push(
                ErrorView {
                    error_type: ValidationErrorType::InvalidCmapData,
                    message: "Cmap table has no subtables"@,
                    table: Some("cmap"@),
                },
            )
        } else {
            e10
        }
    }

    /// The bytes of the table of the entry `i` are in the file and do not sum to the
    /// checksum of the entry. The `head` table is left out: its checksum is made otherwise.
    pub open spec fn mismatched(self, i: int) -> bool {
        let record = self.table_records@[i];
        &&& record.table_tag@ != TAG_HEAD@
        &&& self.table_bytes(record.table_tag@) matches Some(bytes) && checksum(bytes)
            != record.checksum
    }

    /// The warnings for the tables among the first `n` whose checksum is not that of their
    /// entry.
    pub open spec fn checksum_warnings(self, n: int) -> Seq<WarningView>
        decreases n,
    {
        if n <= 0 {
            Seq::empty()
        } else if self.mismatched(n - 1) {
            self.checksum_warnings(n - 1).push(
                mismatch_warning(
                    self.table_records@[n - 1],
                    checksum(self.table_bytes(self.table_records@[n - 1].table_tag@)->Some_0),
                ),
            )
        } else {
            self.checksum_warnings(n - 1)
        }
    }

    /// The warning for units per em of zero or above 16384, where the `head` table can be
    /// read.
    pub open spec fn units_warnings(self) -> Seq<WarningView> {
        if self.access(TAG_HEAD@) matches Access::Present { bytes } && HeadTable::parses(bytes) && (
        be_u16(bytes, 18) == 0 || be_u16(bytes, 18) > 16384) {
            seq![
                WarningView {
                    warning_type: ValidationWarningType::PotentiallyProblematic,
                    message: "Unusual units_per_em value: "@ + decimal_text(
                        be_u16(self.access(TAG_HEAD@)->bytes, 18) as nat,
                    ),
                    table: Some("head"@),
                },
            ]
        } else {
            Seq::empty()
        }
    }

    /// The warnings for the tables among the first `n` whose tag is not standard.
    pub open spec fn stranger_warnings(self, n: int) -> Seq<WarningView>
        decreases n,
    {
        if n <= 0 {
            Seq::empty()
        } else if !is_standard_tag(self.table_records@[n - 1].table_tag@) {
            self.stranger_warnings(n - 1).push(stranger_warning(self.table_records@[n - 1]))
        } else {
            self.stranger_warnings(n - 1)
        }
    }

    /// The warnings that a check of the font reports, in their order: those for checksums,
    /// the one for the units per em, and those for tables that are not standard.
    pub open spec fn expected_warnings(self) -> Seq<WarningView> {
        self.checksum_warnings(self.table_records@.len() as int) + self.units_warnings()
            + self.stranger_warnings(self.table_records@.len() as int)
    }

    /// The report is what a check of this font finds: the errors and the warnings that are
    /// due, and the font is valid exactly if there is no error.
    pub open spec fn reported(self, report: ValidationReport) -> bool {
        &&& report.is_valid == self.passes()
        &&& report.is_valid == (report.errors@.len() == 0)
        &&& error_views(report.errors@) == self.expected_errors()
        &&& warning_views(report.warnings@) == self.expected_warnings()
    }
}

/// Whether the tag is that of a standard table.
fn is_standard(tag: &[u8; 4]) -> (b: bool)
    ensures
        b == is_standard_tag(tag@),
{
    let mut i: usize = 0;
    while i < 59
        invariant
            i <= 59,
            forall|j: int| 0 <= j < i ==> (#[trigger] STANDARD_TAGS@[j])@ != tag@,
        decreases 59 - i,
    {
        if same_tag(&STANDARD_TAGS[i], tag) {
            return true;
        }
        i = i + 1;
    }
    false
}

impl Font {
    fn check_required(
        &self,
        errors: &mut Vec<ValidationError>,
        tag: &[u8; 4],
        start: &str,
        described: &str,
        name: &str,
    )
        ensures
            error_views(final(errors)@) == error_views(old(errors)@) + missing_error(
                *self,
                tag@,
                start@,
                described@,
                name@,
            ),
    {
        if self.get_table_record(tag).is_none() {
            errors.push(
                ValidationError {
                    error_type: ValidationErrorType::MissingRequiredTable,
                    message: joined(start, described),
                    table: Some(String::from_str(name)),
                },
            );
        }
        assert(error_views(errors@) =~= error_views(old(errors)@) + missing_error(
            *self,
            tag@,
            start@,
            described@,
            name@,
        ));
    }

    /// The warnings for tables whose bytes do not sum to the checksum of their entry.
    #[verifier::loop_isolation(false)]
    fn warn_of_checksums(&self, warnings: &mut Vec<ValidationWarning>)
        requires
            old(warnings)@.len() == 0,
        ensures
            warning_views(final(warnings)@) == self.checksum_warnings(
                self.table_records@.len() as int,
            ),
    {
        let mut i: usize = 0;
        assert(warning_views(warnings@) =~= self.checksum_warnings(0));
        while i < self.table_records.len()
            invariant
                i <= self.table_records.len(),
                warning_views(warnings@) == self.checksum_warnings(i as int),
            decreases self.table_records.len() - i,
        {
            let record = self.table_records[i];
            let ghost before = warnings@;
            if !same_tag(&record.table_tag, &TAG_HEAD) {
                match self.get_table_data(&record.table_tag) {
                    Some(data) => {
                        let sum = calculate_checksum(data.as_slice());
                        if sum != record.checksum {
                            let name = record.tag_to_string();
                            let mut message = joined("Checksum mismatch for table ", name.as_str());
                            message.append(": expected ");
                            let expected = hex(record.checksum as u64);
                            message.append(expected.as_str());
                            message.append(", got ");
                            let got = hex(sum as u64);
                            message.append(got.as_str());
                            warnings.push(
                                ValidationWarning {
                                    warning_type: ValidationWarningType::PotentiallyProblematic,
                                    message,
                                    table: Some(name),
                                },
                            );
                            assert(warning_views(warnings@) =~= warning_views(before).push(
                                mismatch_warning(record, sum as int),
                            ));
                        }
                    },
                    None => {},
                }
            }
            i = i + 1;
        }
    }

    /// The warning for unusual units per em.
    fn warn_of_units(&self, warnings: &mut Vec<ValidationWarning>)
        ensures
            warning_views(final(warnings)@) == warning_views(old(warnings)@)
                + self.units_warnings(),
    {
        match self.head_table() {
            Ok(head) => {
                if head.units_per_em == 0 || head.units_per_em > 16384 {
                    let value = decimal(head.units_per_em as u64);
                    warnings.push(
                        ValidationWarning {
                            warning_type: ValidationWarningType::PotentiallyProblematic,
                            message: joined("Unusual units_per_em value: ", value.as_str()),
                            table: Some(String::from_str("head")),
                        },
                    );
                }
            },
            Err(_) => {},
        }
        assert(warning_views(warnings@) =~= warning_views(old(warnings)@) + self.units_warnings());
    }

    /// The warnings for tables that are not standard.
    #[verifier::loop_isolation(false)]
    fn warn_of_strangers(&self, warnings: &mut Vec<ValidationWarning>)
        ensures
            warning_views(final(warnings)@) == warning_views(old(warnings)@)
                + self.stranger_warnings(self.table_records@.len() as int),
    {
        let mut k: usize = 0;
        assert(warning_views(warnings@) =~= warning_views(old(warnings)@) + self.stranger_warnings(
            0,
        ));
        while k < self.table_records.len()
            invariant
                k <= self.table_records.len(),
                warning_views(warnings@) == warning_views(old(warnings)@) + self.stranger_warnings(
                    k as int,
                ),
            decreases self.table_records.len() - k,
        {
            let record = self.table_records[k];
            let ghost before = warnings@;
            if !is_standard(&record.table_tag) {
                let name = record.tag_to_string();
                warnings.push(
                    ValidationWarning {
                        warning_type: ValidationWarningType::NonStandardTable,
                        message: joined("Non-standard table: ", name.as_str()),
                        table: Some(name),
                    },
                );
                assert(warning_views(warnings@) =~= warning_views(before).push(
                    stranger_warning(record),
                ));
                assert(warning_views(warnings@) =~= warning_views(old(warnings)@)
                    + self.stranger_warnings(k as int).push(stranger_warning(record)));
            }
            k = k + 1;
        }
    }

    /// The errors for a font without glyphs and for one without character maps.
    fn check_contents(&self, errors: &mut Vec<ValidationError>)
        ensures
            error_views(final(errors)@) == ({
                let before = error_views(old(errors)@);
                let middle = if self.declares_no_glyphs() {
                    before.push(
                        ErrorView {
                            error_type: ValidationErrorType::InvalidGlyphData,
                            message: "Font has no glyphs"@,
                            table: Some("maxp"@),
                        },
                    )
                } else {
                    before
                };
                if self.maps_nothing() {
                    middle.push(
                        ErrorView {
                            error_type: ValidationErrorType::InvalidCmapData,
                            message: "Cmap table has no subtables"@,
                            table: Some("cmap"@),
                        },
                    )
                } else {
                    middle
                }
            }),
    {
        let ghost before = error_views(errors@);
        match self.maxp_table() {
            Ok(maxp) => {
                if maxp.num_glyphs == 0 {
                    errors.push(
                        ValidationError {
                            error_type: ValidationErrorType::InvalidGlyphData,
                            message: String::from_str("Font has no glyphs"),
                            table: Some(String::from_str("maxp")),
                        },
                    );
                }
            },
            Err(_) => {},
        }
        let ghost middle = error_views(errors@);
        assert(middle =~= if self.declares_no_glyphs() {
            before.push(
                ErrorView {
                    error_type: ValidationErrorType::InvalidGlyphData,
                    message: "Font has no glyphs"@,
                    table: Some("maxp"@),
                },
            )
        } else {
            before
        });
        match self.cmap_table() {
            Ok(cmap) => {
                if cmap.subtables.len() == 0 {
                    errors.push(
                        ValidationError {
                            error_type: ValidationErrorType::InvalidCmapData,
                            message: String::from_str("Cmap table has no subtables"),
                            table: Some(String::from_str("cmap")),
                        },
                    );
                }
            },
            Err(_) => {},
        }
        assert(error_views(errors@) =~= if self.maps_nothing() {
            middle.push(
                ErrorView {
                    error_type: ValidationErrorType::InvalidCmapData,
                    message: "Cmap table has no subtables"@,
                    table: Some("cmap"@),
                },
            )
        } else {
            middle
        });
    }

    /// Checks the font and reports what is wrong with it.
    ///
    /// An error is reported for a version that is neither 0x00010000 nor 'OTTO'; for each of
    /// the tables `cmap`, `head`, `hhea`, `hmtx`, `maxp`, `name`, `OS/2` and `post` that is
    /// missing, and for `glyf` and `loca` in a font with TrueType outlines; for a `maxp`
    /// table that declares no glyphs; and for a `cmap` table without subtables. The font is
    /// valid exactly if no error is reported.
    ///
    /// A warning is given for each table but `head` whose bytes do not sum to the checksum
    /// in the directory, for units per em of zero or above 16384, and for each table with a
    /// tag that is not standard. Warnings do not make a font invalid.
    pub fn validate(&self) -> (r: Result<ValidationReport, TtfError>)
        ensures
            r matches Ok(report) && self.reported(report),
    {
        let mut errors: Vec<ValidationError> = Vec::new();
        if self.sfnt_version != SFNT_TRUETYPE && self.sfnt_version != SFNT_OPENTYPE {
            let version = hex(self.sfnt_version as u64);
            errors.push(
                ValidationError {
                    error_type: ValidationErrorType::InvalidSignature,
                    message: joined("Invalid SFNT version: ", version.as_str()),
                    table: None,
                },
            );
        }
        let ghost e0 = error_views(errors@);
        assert(e0 =~= if self.known_version() {
            Seq::<ErrorView>::empty()
        } else {
            seq![
                ErrorView {
                    error_type: ValidationErrorType::InvalidSignature,
                    message: "Invalid SFNT version: "@ + hex_text(self.sfnt_version as nat),
                    table: None,
                },
            ]
        });
        self.check_required(&mut errors, &TAG_CMAP, REQUIRED, "cmap (character to glyph mapping)", "cmap");
        self.check_required(&mut errors, &TAG_HEAD, REQUIRED, "head (font header)", "head");
        self.check_required(&mut errors, &TAG_HHEA, REQUIRED, "hhea (horizontal header)", "hhea");
        self.check_required(&mut errors, &TAG_HMTX, REQUIRED, "hmtx (horizontal metrics)", "hmtx");
        self.check_required(&mut errors, &TAG_MAXP, REQUIRED, "maxp (maximum profile)", "maxp");
        self.check_required(&mut errors, &TAG_NAME, REQUIRED, "name (naming table)", "name");
        self.check_required(&mut errors, &TAG_OS2, REQUIRED, "OS/2 (OS/2 and Windows metrics)", "OS/2");
        self.check_required(&mut errors, &TAG_POST, REQUIRED, "post (PostScript information)", "post");
        if self.sfnt_version == SFNT_TRUETYPE {
            self.check_required(
                &mut errors,
                &TAG_GLYF,
                REQUIRED_FOR_TRUETYPE,
                "glyf (glyph data)",
                "glyf",
            );
            self.check_required(
                &mut errors,
                &TAG_LOCA,
                REQUIRED_FOR_TRUETYPE,
                "loca (index to location)",
                "loca",
            );
        }
        self.check_contents(&mut errors);
        assert(error_views(errors@) == self.expected_errors());
        assert(error_views(errors@).len() == errors@.len());
        let mut warnings: Vec<ValidationWarning> = Vec::new();
        self.warn_of_checksums(&mut warnings);
        self.warn_of_units(&mut warnings);
        self.warn_of_strangers(&mut warnings);
        let is_valid = errors.len() == 0;
        Ok(ValidationReport { is_valid, errors, warnings })
    }

    /// Whether the font passes the check of [`Font::validate`].
    pub fn is_valid(&self) -> (r: Result<bool, TtfError>)
        ensures
            r == Ok::<bool, TtfError>(self.passes()),
    {
        let report = self.validate()?;
        Ok(report.is_valid)
    }
}

/// One line of a summary: a mark, the table in square brackets where one is named, a colon
/// and the message.
pub open spec fn finding_line(mark: Seq<char>, table: Option<Seq<char>>, message: Seq<char>) -> Seq<
    char,
> {
    "  "@ + mark + " "@ + match table {
        Some(t) => "["@ + t + "] "@,
        None => Seq::empty(),
    } + ": "@ + message + "\n"@
}

/// The lines for the first `n` errors.
pub open spec fn error_lines(errors: Seq<ValidationError>, n: int) -> Seq<char>
    decreases n,
{
    if n <= 0 {
        Seq::empty()
    } else {
        error_lines(errors, n - 1) + finding_line(
            "\u{2717}"@,
            text_view(errors[n - 1].table),
            errors[n - 1].message@,
        )
    }
}

/// The lines for the first `n` warnings.
pub open spec fn warning_lines(warnings: Seq<ValidationWarning>, n: int) -> Seq<char>
    decreases n,
{
    if n <= 0 {
        Seq::empty()
    } else {
        warning_lines(warnings, n - 1) + finding_line(
            "\u{26a0}"@,
            text_view(warnings[n - 1].table),
            warnings[n - 1].message@,
        )
    }
}

/// The heading of a list of `n` findings, or nothing where there is none.
pub open spec fn heading(title: Seq<char>, n: int) -> Seq<char> {
    if n > 0 {
        "\n"@ + title + " ("@ + decimal_text(n as nat) + "):\n"@
    } else {
        Seq::empty()
    }
}

fn line_of(mark: &str, table: &Option<String>, message: &str) -> (line: String)
    ensures
        line@ == finding_line(mark@, text_view(*table), message@),
{
    let mut line = joined("  ", mark);
    line.append(" ");
    match table {
        Some(t) => {
            line.append("[");
            line.append(t.as_str());
            line.append("] ");
        },
        None => {},
    }
    line.append(": ");
    line.append(message);
    line.append("\n");
    assert(line@ =~= finding_line(mark@, text_view(*table), message@));
    line
}

fn heading_of(title: &str, n: usize) -> (text: String)
    ensures
        text@ == heading(title@, n as int),
{
    if n > 0 {
        let mut text = joined("\n", title);
        text.append(" (");
        let count = decimal(n as u64);
        text.append(count.as_str());
        text.append("):\n");
        text
    } else {
        String::new()
    }
}

impl ValidationReport {
    /// The text of the summary: whether the font is valid, then the errors and the warnings,
    /// each list under a heading with its count and one finding to a line.
    pub open spec fn summary_text(self) -> Seq<char> {
        (if self.is_valid {
            "\u{2713} Font is valid\n"@
        } else {
            "\u{2717} Font is invalid\n"@
        }) + heading("Errors"@, self.errors@.len() as int) + error_lines(
            self.errors@,
            self.errors@.len() as int,
        ) + heading("Warnings"@, self.warnings@.len() as int) + warning_lines(
            self.warnings@,
            self.warnings@.len() as int,
        )
    }

    /// A short text that says whether the font is valid and lists the errors and warnings,
    /// one to a line.
    #[verifier::loop_isolation(false)]
    pub fn summary(&self) -> (text: String)
        ensures
            text@ == self.summary_text(),
    {
        let mut text = String::from_str(
            if self.is_valid {
                "\u{2713} Font is valid\n"
            } else {
                "\u{2717} Font is invalid\n"
            },
        );
        let errors_heading = heading_of("Errors", self.errors.len());
        text.append(errors_heading.as_str());
        let ghost start = text@;
        let mut i: usize = 0;
        assert(text@ =~= start + error_lines(self.errors@, 0));
        while i < self.errors.len()
            invariant
                i <= self.errors.len(),
                text@ == start + error_lines(self.errors@, i as int),
            decreases self.errors.len() - i,
        {
            let line = line_of("\u{2717}", &self.errors[i].table, self.errors[i].message.as_str());
            text.append(line.as_str());
            i = i + 1;
            assert(text@ =~= start + error_lines(self.errors@, i as int));
        }
        let warnings_heading = heading_of("Warnings", self.warnings.len());
        text.append(warnings_heading.as_str());
        let ghost middle = text@;
        let mut k: usize = 0;
        assert(text@ =~= middle + warning_lines(self.warnings@, 0));
        while k < self.warnings.len()
            invariant
                k <= self.warnings.len(),
                text@ == middle + warning_lines(self.warnings@, k as int),
            decreases self.warnings.len() - k,
        {
            let line = line_of(
                "\u{26a0}",
                &self.warnings[k].table,
                self.warnings[k].message.as_str(),
            );
            text.append(line.as_str());
            k = k + 1;
            assert(text@ =~= middle + warning_lines(self.warnings@, k as int));
        }
        text
    }
}

} // verus!
