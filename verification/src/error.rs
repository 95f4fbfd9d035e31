//! Error values for parsing and for validation, and their rendering to
//! human-readable messages.
//!
//! A line number is 1-based; a column span is a half-open range of
//! UTF-8 byte offsets within its line.

use core::ops::Range;
use vstd::prelude::*;

use crate::parse::{spec_field_name, field_name, HeaderField};
use crate::text::{push_u128, spec_udigits};
use crate::values::{coord_type_name, spec_coord_type_name};
use crate::{CoordType, DataFormat};

verus! {

/// Whether a length error is about rows or columns.
#[derive(Debug, Eq, PartialEq, Clone, Copy, Structural)]
pub enum DataDirection {
    Row,
    Column,
}

/// Whether a length error found too few or too many items.
#[derive(Debug, Eq, PartialEq, Clone, Copy, Structural)]
pub enum InvalidDataLengthKind {
    Short,
    Long,
}

/// Error on reading a single header value.
#[derive(Debug, Eq, PartialEq, Clone)]
pub struct ParseValueError {
    /// The offending literal text.
    pub value: String,
}


/// What went wrong while parsing.
#[derive(Debug, Eq, PartialEq, Clone)]
pub enum ParseErrorKind {
    /// No line starting with `begin_of_head` was found.
    MissingBeginOfHead,
    /// No line starting with `end_of_head` was found.
    MissingEndOfHead,
    /// A header line holds neither `:` nor `=`.
    MissingSeparator,
    /// A header key outside the closed vocabulary.
    UnknownHeaderKey { value: String },
    /// A required header field is absent.
    MissingHeaderKey { kind: HeaderField },
    /// A header field occurs twice.
    DuplicatedHeaderKey { kind: HeaderField },
    /// A header value fails its field's grammar.
    InvalidHeaderValue { kind: HeaderField, source: Option<ParseValueError> },
    /// A bounds field belonging to the other coordinate system is present.
    InvalidDataBounds { key: HeaderField, coord_type: CoordType },
    /// A data cell fails the value grammar.
    InvalidData { value: String },
    /// A data row or column count differs from the declared one.
    InvalidDataLength { kind: InvalidDataLengthKind, direction: DataDirection, expected: usize },
}

/// Error on parsing the ISG text format.
#[derive(Debug, Eq, PartialEq, Clone)]
pub struct ParseError {
    pub kind: ParseErrorKind,
    pub span: Option<Range<usize>>,
    pub lineno: Option<usize>,
}

impl ParseError {
    /// True for the structural errors: a missing marker line or a header
    /// line without separator.
    pub fn is_syntax(&self) -> (r: bool)
        ensures
            r == (self.kind is MissingBeginOfHead || self.kind is MissingEndOfHead
                || self.kind is MissingSeparator),
    {
        matches!(
            self.kind,
            ParseErrorKind::MissingBeginOfHead
                | ParseErrorKind::MissingEndOfHead
                | ParseErrorKind::MissingSeparator
        )
    }

    /// True for the header-section errors.
    pub fn is_header_section(&self) -> (r: bool)
        ensures
            r == (self.kind is UnknownHeaderKey || self.kind is MissingHeaderKey
                || self.kind is DuplicatedHeaderKey || self.kind is InvalidHeaderValue
                || self.kind is InvalidDataBounds),
    {
        matches!(
            self.kind,
            ParseErrorKind::UnknownHeaderKey { .. }
                | ParseErrorKind::MissingHeaderKey { .. }
                | ParseErrorKind::DuplicatedHeaderKey { .. }
                | ParseErrorKind::InvalidHeaderValue { .. }
                | ParseErrorKind::InvalidDataBounds { .. }
        )
    }

    /// True for the data-section errors.
    pub fn is_data_section(&self) -> (r: bool)
        ensures
            r == (self.kind is InvalidData || self.kind is InvalidDataLength),
    {
        matches!(
            self.kind,
            ParseErrorKind::InvalidData { .. } | ParseErrorKind::InvalidDataLength { .. }
        )
    }

    /// The column span of the offending text, where one applies.
    pub fn span(&self) -> (r: Option<&Range<usize>>)
        ensures
            r == match self.span {
                Some(ref s) => Some(s),
                None => None::<&Range<usize>>,
            },
    {
        self.span.as_ref()
    }

    /// The 1-based line number of the offending line, where one applies.
    pub fn lineno(&self) -> (r: Option<&usize>)
        ensures
            r == match self.lineno {
                Some(ref l) => Some(l),
                None => None::<&usize>,
            },
    {
        self.lineno.as_ref()
    }
}

/// The kind's part of a parse error's message.
pub open spec fn spec_kind_message(k: ParseErrorKind) -> Seq<char> {
    match k {
        ParseErrorKind::MissingBeginOfHead => "missing line starts with `begin_of_head`"@,
        ParseErrorKind::MissingEndOfHead => "missing line starts with `end_of_head`"@,
        ParseErrorKind::MissingSeparator => "missing separator"@,
        ParseErrorKind::UnknownHeaderKey { value } => "unknown header key: `"@ + value@ + "`"@,
        ParseErrorKind::MissingHeaderKey { kind } => "missing header key: `"@ + spec_field_name(
            kind,
        ) + "`"@,
        ParseErrorKind::DuplicatedHeaderKey { kind } => "duplicated header key: `"@
            + spec_field_name(kind) + "`"@,
        ParseErrorKind::InvalidHeaderValue { kind, source } => match source {
            None => "invalid header value on `"@ + spec_field_name(kind) + "`"@,
            Some(e) => "unexpected value: `"@ + e.value@ + "` on `"@ + spec_field_name(kind)
                + "`"@,
        },
        ParseErrorKind::InvalidDataBounds { key, coord_type } => "invalid header key: `"@
            + spec_field_name(key) + "`, although `coord type` is `"@ + spec_coord_type_name(
            coord_type,
        ) + "`"@,
        ParseErrorKind::InvalidData { value } => "invalid data: `"@ + value@ + "`"@,
        ParseErrorKind::InvalidDataLength { kind, direction, expected } => "too "@ + (match kind {
            InvalidDataLengthKind::Short => "short"@,
            InvalidDataLengthKind::Long => "long"@,
        }) + " data "@ + (match direction {
            DataDirection::Row => "row"@,
            DataDirection::Column => "column"@,
        }) + ", expected "@ + spec_udigits(expected as nat) + " "@ + (match direction {
            DataDirection::Row => "row"@,
            DataDirection::Column => "column"@,
        }) + "(s)"@,
    }
}

/// Whether a kind's message carries a line suffix, a line-and-column
/// suffix, or none.
pub open spec fn spec_message_suffix(e: ParseError) -> Seq<char> {
    match e.kind {
        ParseErrorKind::MissingBeginOfHead
        | ParseErrorKind::MissingEndOfHead
        | ParseErrorKind::MissingHeaderKey { .. }
        | ParseErrorKind::InvalidDataLength { direction: DataDirection::Row, .. } => Seq::empty(),
        ParseErrorKind::MissingSeparator
        | ParseErrorKind::InvalidDataBounds { .. }
        | ParseErrorKind::InvalidDataLength { direction: DataDirection::Column, .. } => match e
            .lineno {
            Some(l) => " (line: "@ + spec_udigits(l as nat) + ")"@,
            None => Seq::empty(),
        },
        ParseErrorKind::UnknownHeaderKey { .. }
        | ParseErrorKind::DuplicatedHeaderKey { .. }
        | ParseErrorKind::InvalidHeaderValue { .. }
        | ParseErrorKind::InvalidData { .. } => match (e.lineno, e.span) {
            (Some(l), Some(sp)) => " (line: "@ + spec_udigits(l as nat) + ", column: "@
                + spec_udigits(sp.start as nat) + " to "@ + spec_udigits(sp.end as nat) + ")"@,
            _ => Seq::empty(),
        },
    }
}

/// The full message of a parse error.
pub open spec fn spec_parse_error_message(e: ParseError) -> Seq<char> {
    spec_kind_message(e.kind) + spec_message_suffix(e)
}

impl ParseError {
    /// Renders the error as the human-readable message the format's
    /// diagnostics use.
    #[verifier::rlimit(100)]
    pub fn message(&self) -> (r: String)
        ensures
            r@ == spec_parse_error_message(*self),
    {
        let mut out = String::new();
        match &self.kind {
            ParseErrorKind::MissingBeginOfHead => {
                out.append("missing line starts with `begin_of_head`");
            },
            ParseErrorKind::MissingEndOfHead => {
                out.append("missing line starts with `end_of_head`");
            },
            ParseErrorKind::MissingSeparator => {
                out.append("missing separator");
            },
            ParseErrorKind::UnknownHeaderKey { value } => {
                out.append("unknown header key: `");
                out.append(value.as_str());
                out.append("`");
            },
            ParseErrorKind::MissingHeaderKey { kind } => {
                out.append("missing header key: `");
                out.append(field_name(kind));
                out.append("`");
            },
            ParseErrorKind::DuplicatedHeaderKey { kind } => {
                out.append("duplicated header key: `");
                out.append(field_name(kind));
                out.append("`");
            },
            ParseErrorKind::InvalidHeaderValue { kind, source } => {
                match source {
                    None => {
                        out.append("invalid header value on `");
                        out.append(field_name(kind));
                        out.append("`");
                    },
                    Some(e) => {
                        out.append("unexpected value: `");
                        out.append(e.value.as_str());
                        out.append("` on `");
                        out.append(field_name(kind));
                        out.append("`");
                    },
                }
            },
            ParseErrorKind::InvalidDataBounds { key, coord_type } => {
                out.append("invalid header key: `");
                out.append(field_name(key));
                out.append("`, although `coord type` is `");
                out.append(coord_type_name(coord_type));
                out.append("`");
            },
            ParseErrorKind::InvalidData { value } => {
                out.append("invalid data: `");
                out.append(value.as_str());
                out.append("`");
            },
            ParseErrorKind::InvalidDataLength { kind, direction, expected } => {
                out.append("too ");
                match kind {
                    InvalidDataLengthKind::Short => out.append("short"),
                    InvalidDataLengthKind::Long => out.append("long"),
                }
                out.append(" data ");
                match direction {
                    DataDirection::Row => out.append("row"),
                    DataDirection::Column => out.append("column"),
                }
                out.append(", expected ");
                push_u128(&mut out, *expected as u128);
                out.append(" ");
                match direction {
                    DataDirection::Row => out.append("row"),
                    DataDirection::Column => out.append("column"),
                }
                out.append("(s)");
            },
        }
        proof {
            assert(out@ =~= spec_kind_message(self.kind));
        }
        match &self.kind {
            ParseErrorKind::MissingBeginOfHead
            | ParseErrorKind::MissingEndOfHead
            | ParseErrorKind::MissingHeaderKey { .. } => {},
            ParseErrorKind::InvalidDataLength { direction: DataDirection::Row, .. } => {},
            ParseErrorKind::MissingSeparator
            | ParseErrorKind::InvalidDataBounds { .. }
            | ParseErrorKind::InvalidDataLength { direction: DataDirection::Column, .. } => {
                if let Some(l) = &self.lineno {
                    out.append(" (line: ");
                    push_u128(&mut out, *l as u128);
                    out.append(")");
                }
            },
            ParseErrorKind::UnknownHeaderKey { .. }
            | ParseErrorKind::DuplicatedHeaderKey { .. }
            | ParseErrorKind::InvalidHeaderValue { .. }
            | ParseErrorKind::InvalidData { .. } => {
                if self.lineno.is_some() && self.span.is_some() {
                    let l = *self.lineno.as_ref().unwrap();
                    let sp = self.span.as_ref().unwrap();
                    out.append(" (line: ");
                    push_u128(&mut out, l as u128);
                    out.append(", column: ");
                    push_u128(&mut out, sp.start as u128);
                    out.append(" to ");
                    push_u128(&mut out, sp.end as u128);
                    out.append(")");
                }
            },
        }
        proof {
            assert(out@ =~= spec_parse_error_message(*self));
        }
        out
    }
}

/// What a validation found inconsistent.
#[derive(Debug, Eq, PartialEq, Clone)]
pub enum ValidationErrorKind {
    /// The `data_bounds` variant does not match `data format` and
    /// `coord type`.
    DataBounds { data_format: DataFormat, coord_type: CoordType },
    /// A bounds coordinate does not match `coord units`.
    CoordUnitsOnHeader { kind: HeaderField },
    /// A sparse-data coordinate does not match `coord units`.
    CoordUnitsOnData { lineno: usize, column: usize },
    /// The data row count does not match `nrows`.
    NoRow { nrows: usize, actual: usize },
    /// A data column count does not match `ncols`.
    NoCols { ncols: usize, actual: Option<usize> },
    /// The `ISG format` literal is not the supported version.
    ISGFormat,
}

/// Error on validating an already-built document.
#[derive(Debug, Eq, PartialEq, Clone)]
pub struct ValidationError {
    pub kind: ValidationErrorKind,
}

/// The message of a validation error.
pub open spec fn spec_validation_error_message(e: ValidationError) -> Seq<char> {
    match e.kind {
        ValidationErrorKind::DataBounds { data_format, coord_type } => {
            "unexpected `data_bounds`, expected DataBounds::"@ + (match data_format {
                DataFormat::Grid => "Grid"@,
                DataFormat::Sparse => "Sparse"@,
            }) + (match coord_type {
                CoordType::Geodetic => "Geodetic"@,
                CoordType::Projected => "Projected"@,
            })
        },
        ValidationErrorKind::CoordUnitsOnHeader { kind } => "unexpected data format on `"@
            + spec_field_name(kind) + "`"@,
        ValidationErrorKind::CoordUnitsOnData { lineno, column } => {
            "unexpected data format on data (row: "@ + spec_udigits(lineno as nat) + ", column: "@
                + spec_udigits(column as nat) + ")"@
        },
        ValidationErrorKind::NoRow { nrows, actual } => "unexpected data length, nrows: "@
            + spec_udigits(nrows as nat) + " but actual: "@ + spec_udigits(actual as nat),
        ValidationErrorKind::NoCols { ncols, actual } => match actual {
            None => "unexpected data length, ncols: "@ + spec_udigits(ncols as nat),
            Some(a) => "unexpected data length, ncols: "@ + spec_udigits(ncols as nat)
                + " but actual: "@ + spec_udigits(a as nat),
        },
        ValidationErrorKind::ISGFormat => "invalid `ISG format`, expected `\"2.0\"`"@,
    }
}

impl ValidationError {
    /// Renders the error as its human-readable message.
    pub fn message(&self) -> (r: String)
        ensures
            r@ == spec_validation_error_message(*self),
    {
        let mut out = String::new();
        match &self.kind {
            ValidationErrorKind::DataBounds { data_format, coord_type } => {
                out.append("unexpected `data_bounds`, expected DataBounds::");
                match data_format {
                    DataFormat::Grid => out.append("Grid"),
                    DataFormat::Sparse => out.append("Sparse"),
                }
                match coord_type {
                    CoordType::Geodetic => out.append("Geodetic"),
                    CoordType::Projected => out.append("Projected"),
                }
            },
            ValidationErrorKind::CoordUnitsOnHeader { kind } => {
                out.append("unexpected data format on `");
                out.append(field_name(kind));
                out.append("`");
            },
            ValidationErrorKind::CoordUnitsOnData { lineno, column } => {
                out.append("unexpected data format on data (row: ");
                push_u128(&mut out, *lineno as u128);
                out.append(", column: ");
                push_u128(&mut out, *column as u128);
                out.append(")");
            },
            ValidationErrorKind::NoRow { nrows, actual } => {
                out.append("unexpected data length, nrows: ");
                push_u128(&mut out, *nrows as u128);
                out.append(" but actual: ");
                push_u128(&mut out, *actual as u128);
            },
            ValidationErrorKind::NoCols { ncols, actual } => {
                out.append("unexpected data length, ncols: ");
                push_u128(&mut out, *ncols as u128);
                if let Some(a) = actual {
                    out.append(" but actual: ");
                    push_u128(&mut out, *a as u128);
                }
            },
            ValidationErrorKind::ISGFormat => {
                out.append("invalid `ISG format`, expected `\"2.0\"`");
            },
        }
        proof {
            assert(out@ =~= spec_validation_error_message(*self));
        }
        out
    }
}

/// The mathematical image of a parse error: each variant carries the
/// positions and texts its message and accessors expose.
pub enum ErrModel {
    MissingBeginOfHead,
    MissingEndOfHead,
    MissingSeparator { span: (int, int), lineno: int },
    UnknownHeaderKey { value: Seq<char>, span: (int, int), lineno: int },
    MissingHeaderKey { kind: HeaderField },
    DuplicatedHeaderKey { kind: HeaderField, span: (int, int), lineno: int },
    InvalidHeaderValue { kind: HeaderField, value: Seq<char>, span: (int, int), lineno: int },
    InvalidDataBounds { key: HeaderField, coord_type: CoordType, lineno: int },
    InvalidData { value: Seq<char>, span: (int, int), lineno: int },
    InvalidDataLength { long: bool, row: bool, expected: int, lineno: int },
}

/// True when the error value is the image of the model: same kind, same
/// texts, same positions.
pub open spec fn err_matches(e: ParseError, m: ErrModel) -> bool {
    match m {
        ErrModel::MissingBeginOfHead => e.kind is MissingBeginOfHead && e.span is None
            && e.lineno is None,
        ErrModel::MissingEndOfHead => e.kind is MissingEndOfHead && e.span is None
            && e.lineno is None,
        ErrModel::MissingSeparator { span, lineno } => e.kind is MissingSeparator && (
        e.span matches Some(sp) && sp.start == span.0 && sp.end == span.1) && e.lineno == Some(
            lineno as usize,
        ),
        ErrModel::UnknownHeaderKey { value, span, lineno } => (
        e.kind matches ParseErrorKind::UnknownHeaderKey { value: v } && v@ == value) && (
        e.span matches Some(sp) && sp.start == span.0 && sp.end == span.1) && e.lineno == Some(
            lineno as usize,
        ),
        ErrModel::MissingHeaderKey { kind } => (
        e.kind matches ParseErrorKind::MissingHeaderKey { kind: k } && k == kind) && e.span is None
            && e.lineno is None,
        ErrModel::DuplicatedHeaderKey { kind, span, lineno } => (
        e.kind matches ParseErrorKind::DuplicatedHeaderKey { kind: k } && k == kind) && (
        e.span matches Some(sp) && sp.start == span.0 && sp.end == span.1) && e.lineno == Some(
            lineno as usize,
        ),
        ErrModel::InvalidHeaderValue { kind, value, span, lineno } => (
        e.kind matches ParseErrorKind::InvalidHeaderValue { kind: k, source: src } && k == kind && (
        src matches Some(pv) && pv.value@ == value)) && (
        e.span matches Some(sp) && sp.start == span.0 && sp.end == span.1) && e.lineno == Some(
            lineno as usize,
        ),
        ErrModel::InvalidDataBounds { key, coord_type, lineno } => (
        e.kind matches ParseErrorKind::InvalidDataBounds { key: k, coord_type: c } && k == key && c
            == coord_type) && e.span is None && e.lineno == Some(lineno as usize),
        ErrModel::InvalidData { value, span, lineno } => (
        e.kind matches ParseErrorKind::InvalidData { value: v } && v@ == value) && (
        e.span matches Some(sp) && sp.start == span.0 && sp.end == span.1) && e.lineno == Some(
            lineno as usize,
        ),
        ErrModel::InvalidDataLength { long, row, expected, lineno } => (
        e.kind matches ParseErrorKind::InvalidDataLength { kind: k, direction: d, expected: x } && (
        long <==> k is Long) && (row <==> d is Row) && x == expected) && e.span is None
            && e.lineno == Some(lineno as usize),
    }
}

impl ParseError {
    pub(crate) fn missing_boh() -> (r: Self)
        ensures
            err_matches(r, ErrModel::MissingBeginOfHead),
    {
        Self { kind: ParseErrorKind::MissingBeginOfHead, span: None, lineno: None }
    }

    pub(crate) fn missing_eoh() -> (r: Self)
        ensures
            err_matches(r, ErrModel::MissingEndOfHead),
    {
        Self { kind: ParseErrorKind::MissingEndOfHead, span: None, lineno: None }
    }

    pub(crate) fn missing_sep(start: usize, end: usize, lineno: usize) -> (r: Self)
        ensures
            err_matches(
                r,
                ErrModel::MissingSeparator {
                    span: (start as int, end as int),
                    lineno: lineno as int,
                },
            ),
    {
        Self {
            kind: ParseErrorKind::MissingSeparator,
            span: Some(Range { start, end }),
            lineno: Some(lineno),
        }
    }

    pub(crate) fn unknown_header_key(value: String, start: usize, end: usize, lineno: usize) -> (r:
        Self)
        ensures
            err_matches(
                r,
                ErrModel::UnknownHeaderKey {
                    value: value@,
                    span: (start as int, end as int),
                    lineno: lineno as int,
                },
            ),
    {
        Self {
            kind: ParseErrorKind::UnknownHeaderKey { value },
            span: Some(Range { start, end }),
            lineno: Some(lineno),
        }
    }

    pub(crate) fn missing_header(kind: HeaderField) -> (r: Self)
        ensures
            err_matches(r, ErrModel::MissingHeaderKey { kind }),
    {
        Self { kind: ParseErrorKind::MissingHeaderKey { kind }, span: None, lineno: None }
    }

    pub(crate) fn dup_header(kind: HeaderField, start: usize, end: usize, lineno: usize) -> (r:
        Self)
        ensures
            err_matches(
                r,
                ErrModel::DuplicatedHeaderKey {
                    kind,
                    span: (start as int, end as int),
                    lineno: lineno as int,
                },
            ),
    {
        Self {
            kind: ParseErrorKind::DuplicatedHeaderKey { kind },
            span: Some(Range { start, end }),
            lineno: Some(lineno),
        }
    }

    pub(crate) fn invalid_header_value(
        kind: HeaderField,
        value: String,
        start: usize,
        end: usize,
        lineno: usize,
    ) -> (r: Self)
        ensures
            err_matches(
                r,
                ErrModel::InvalidHeaderValue {
                    kind,
                    value: value@,
                    span: (start as int, end as int),
                    lineno: lineno as int,
                },
            ),
    {
        Self {
            kind: ParseErrorKind::InvalidHeaderValue {
                kind,
                source: Some(ParseValueError { value }),
            },
            span: Some(Range { start, end }),
            lineno: Some(lineno),
        }
    }

    pub(crate) fn invalid_data_bounds(key: HeaderField, coord_type: CoordType, lineno: usize) -> (r:
        Self)
        ensures
            err_matches(
                r,
                ErrModel::InvalidDataBounds { key, coord_type, lineno: lineno as int },
            ),
    {
        Self {
            kind: ParseErrorKind::InvalidDataBounds { key, coord_type },
            span: None,
            lineno: Some(lineno),
        }
    }

    pub(crate) fn invalid_data(value: String, start: usize, end: usize, lineno: usize) -> (r: Self)
        ensures
            err_matches(
                r,
                ErrModel::InvalidData {
                    value: value@,
                    span: (start as int, end as int),
                    lineno: lineno as int,
                },
            ),
    {
        Self {
            kind: ParseErrorKind::InvalidData { value },
            span: Some(Range { start, end }),
            lineno: Some(lineno),
        }
    }

    pub(crate) fn too_short_data(direction: DataDirection, expected: usize, lineno: usize) -> (r:
        Self)
        ensures
            err_matches(
                r,
                ErrModel::InvalidDataLength {
                    long: false,
                    row: direction is Row,
                    expected: expected as int,
                    lineno: lineno as int,
                },
            ),
    {
        Self {
            kind: ParseErrorKind::InvalidDataLength {
                kind: InvalidDataLengthKind::Short,
                direction,
                expected,
            },
            span: None,
            lineno: Some(lineno),
        }
    }

    pub(crate) fn too_long_data(direction: DataDirection, expected: usize, lineno: usize) -> (r:
        Self)
        ensures
            err_matches(
                r,
                ErrModel::InvalidDataLength {
                    long: true,
                    row: direction is Row,
                    expected: expected as int,
                    lineno: lineno as int,
                },
            ),
    {
        Self {
            kind: ParseErrorKind::InvalidDataLength {
                kind: InvalidDataLengthKind::Long,
                direction,
                expected,
            },
            span: None,
            lineno: Some(lineno),
        }
    }
}

} // verus!
