//! Error values reported by the font library.

use vstd::prelude::*;

verus! {

/// What went wrong while moving bytes in or out.
#[derive(Debug, Clone, Copy, PartialEq, Eq, Structural)]
pub enum IoErrorKind {
    NotFound,
    PermissionDenied,
    UnexpectedEof,
    InvalidData,
    Other,
}

/// A failure to obtain bytes: the kind of failure and a short description.
#[derive(Debug)]
pub struct IoError {
    pub kind: IoErrorKind,
    pub message: String,
}

impl IoError {
    pub fn new(kind: IoErrorKind, message: &str) -> (e: IoError)
        ensures
            e.kind == kind,
            e.message@ == message@,
    {
        IoError { kind, message: message.to_owned() }
    }

    pub fn kind(&self) -> (k: IoErrorKind)
        ensures
            k == self.kind,
    {
        self.kind
    }
}

/// Everything that can fail while reading, editing or writing a font.
#[derive(Debug)]
#[allow(inconsistent_fields)]
pub enum TtfError {
    InvalidSignature { expected: u32, actual: u32 },
    InvalidChecksum(String),
    MissingTable(String),
    InvalidOffset(u64),
    InvalidSize { expected: u64, actual: u64 },
    UnsupportedVersion(u32),
    InvalidGlyphIndex(u16),
    InvalidNumGlyphs(u16),
    Io(IoError),
    ParseError(String),
    InvalidEncoding(String),
    InvalidLocaOffset(u32),
}

/// A read ran past the end of the data.
pub open spec fn is_eof<T>(r: Result<T, IoError>) -> bool {
    r matches Err(e) && e.kind == IoErrorKind::UnexpectedEof
}

impl TtfError {
    /// The error is an end-of-data failure.
    pub open spec fn is_truncated(&self) -> bool {
        self matches TtfError::Io(e) && e.kind == IoErrorKind::UnexpectedEof
    }

    /// The error names `tag` as a table the font lacks.
    pub open spec fn is_missing(&self, tag: Seq<char>) -> bool {
        self matches TtfError::MissingTable(t) && t@ == tag
    }

    /// The error is a structural violation described in free text.
    pub open spec fn is_parse_error(&self) -> bool {
        self is ParseError
    }
}

/// The error for data that ends too early.
pub fn truncated() -> (e: TtfError)
    ensures
        e.is_truncated(),
{
    TtfError::Io(IoError::new(IoErrorKind::UnexpectedEof, "Not enough bytes"))
}

/// The error for a table that the font lacks.
pub fn missing_table(name: &str) -> (e: TtfError)
    ensures
        e.is_missing(name@),
{
    TtfError::MissingTable(name.to_owned())
}

/// The error for a structural violation, described by `message`.
pub fn parse_error(message: &str) -> (e: TtfError)
    ensures
        e.is_parse_error(),
        e matches TtfError::ParseError(m) && m@ == message@,
{
    TtfError::ParseError(message.to_owned())
}

/// Turns a cursor failure into the library's error, keeping success as it is.
pub fn lift<T>(r: Result<T, IoError>) -> (out: Result<T, TtfError>)
    ensures
        match r {
            Ok(v) => out == Ok::<T, TtfError>(v),
            Err(e) => out == Err::<T, TtfError>(TtfError::Io(e)),
        },
{
    match r {
        Ok(v) => Ok(v),
        Err(e) => Err(TtfError::Io(e)),
    }
}

} // verus!
