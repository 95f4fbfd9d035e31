//! The serializer: exact-format rendering of a document back to its
//! textual layout, with fixed label columns, fixed-width numerics and
//! unit-dependent coordinate rendering.

use vstd::prelude::*;
use vstd::string::StrSliceExecFns;

use crate::dec::{
    push_dec_fixed, push_dec_plain, spec_dec_fixed, spec_dec_plain, spec_pad_left, spec_zero_pad,
    MANT_LIMIT, SCALE_LIMIT,
};
use crate::text::{count_digits, push_repeat, push_u128, spec_udigits};
use crate::values::coord_type_name;
use crate::{
    data_view, header_view, isg_view, opt_str_view, Coord, CoordType, CoordUnits, CreationDate,
    Data, DataBounds, DataFormat, DataModel, DataOrdering, DataType, DataUnits, Dec, Header,
    HeaderModel, IsgModel, ModelType, TideSystem, ISG,
};

verus! {

/// A decimal within the machine bounds of rendering.
pub open spec fn dec_bounded(d: Dec) -> bool {
    d.mant < MANT_LIMIT && d.scale <= SCALE_LIMIT
}

/// A coordinate whose decimal part, if any, is within bounds.
pub open spec fn coord_bounded(c: Coord) -> bool {
    match c {
        Coord::DMS { .. } => true,
        Coord::Dec(d) => dec_bounded(d),
    }
}

/// All bounds coordinates are within rendering bounds.
pub open spec fn bounds_bounded(db: DataBounds) -> bool {
    match db {
        DataBounds::GridGeodetic { lat_min, lat_max, lon_min, lon_max, delta_lat, delta_lon } => {
            coord_bounded(lat_min) && coord_bounded(lat_max) && coord_bounded(lon_min)
                && coord_bounded(lon_max) && coord_bounded(delta_lat) && coord_bounded(delta_lon)
        },
        DataBounds::GridProjected {
            north_min,
            north_max,
            east_min,
            east_max,
            delta_north,
            delta_east,
        } => {
            coord_bounded(north_min) && coord_bounded(north_max) && coord_bounded(east_min)
                && coord_bounded(east_max) && coord_bounded(delta_north) && coord_bounded(
                delta_east,
            )
        },
        DataBounds::SparseGeodetic { lat_min, lat_max, lon_min, lon_max } => {
            coord_bounded(lat_min) && coord_bounded(lat_max) && coord_bounded(lon_min)
                && coord_bounded(lon_max)
        },
        DataBounds::SparseProjected { north_min, north_max, east_min, east_max } => {
            coord_bounded(north_min) && coord_bounded(north_max) && coord_bounded(east_min)
                && coord_bounded(east_max)
        },
    }
}

/// All decimal values of the document are within rendering bounds.
pub open spec fn isg_bounded(m: IsgModel) -> bool {
    &&& (m.header.nodata matches Some(d) ==> dec_bounded(d))
    &&& bounds_bounded(m.header.data_bounds)
    &&& (match m.data {
        DataModel::Grid(rows) => forall|i: int, j: int|
            0 <= i < rows.len() && 0 <= j < rows[i].len() ==> ((#[trigger] rows[i][j])
                matches Some(d) ==> dec_bounded(d)),
        DataModel::Sparse(rows) => forall|i: int|
            0 <= i < rows.len() ==> coord_bounded((#[trigger] rows[i]).0) && coord_bounded(
                rows[i].1,
            ) && dec_bounded(rows[i].2),
    })
}

/// Concatenation is associative.
proof fn lemma_assoc(a: Seq<char>, b: Seq<char>, c: Seq<char>)
    ensures
        (a + b) + c == a + (b + c),
{
    assert((a + b) + c =~= a + (b + c));
}

/// An optional text: the placeholder when absent.
pub open spec fn spec_opt_text(o: Option<Seq<char>>) -> Seq<char> {
    match o {
        None => "---"@,
        Some(s) => s,
    }
}

/// The display name of a `model type` value.
pub open spec fn spec_model_type_str(v: ModelType) -> Seq<char> {
    match v {
        ModelType::Gravimetric => "gravimetric"@,
        ModelType::Geometric => "geometric"@,
        ModelType::Hybrid => "hybrid"@,
    }
}

/// The display name of a `data type` value.
pub open spec fn spec_data_type_str(v: DataType) -> Seq<char> {
    match v {
        DataType::Geoid => "geoid"@,
        DataType::QuasiGeoid => "quasi-geoid"@,
    }
}

/// The display name of a `data units` value.
pub open spec fn spec_data_units_str(v: DataUnits) -> Seq<char> {
    match v {
        DataUnits::Meters => "meters"@,
        DataUnits::Feet => "feet"@,
    }
}

/// The display name of a `data format` value.
pub open spec fn spec_data_format_str(v: DataFormat) -> Seq<char> {
    match v {
        DataFormat::Grid => "grid"@,
        DataFormat::Sparse => "sparse"@,
    }
}

/// The display name of a `data ordering` value.
pub open spec fn spec_data_ordering_str(v: DataOrdering) -> Seq<char> {
    match v {
        DataOrdering::N2SW2E => "N-to-S, W-to-E"@,
        DataOrdering::LatLonN => "lat, lon, N"@,
        DataOrdering::EastNorthN => "east, north, N"@,
        DataOrdering::N => "N"@,
        DataOrdering::Zeta => "zeta"@,
    }
}

/// The display name of a `tide system` value.
pub open spec fn spec_tide_system_str(v: TideSystem) -> Seq<char> {
    match v {
        TideSystem::TideFree => "tide-free"@,
        TideSystem::MeanTide => "mean-tide"@,
        TideSystem::ZeroTide => "zero-tide"@,
    }
}

/// The display name of a `coord units` value.
pub open spec fn spec_coord_units_str(v: CoordUnits) -> Seq<char> {
    match v {
        CoordUnits::DMS => "dms"@,
        CoordUnits::Deg => "deg"@,
        CoordUnits::Meters => "meters"@,
        CoordUnits::Feet => "feet"@,
    }
}

/// A signed numeral.
pub open spec fn spec_int_digits(n: int) -> Seq<char> {
    if n < 0 {
        seq!['-'] + spec_udigits((-n) as nat)
    } else {
        spec_udigits(n as nat)
    }
}

/// A coordinate rendered for the given units: the sexagesimal form with
/// the degree right-aligned to four characters and two-digit minutes and
/// seconds, or the decimal form at the units' precision, right-aligned
/// to eleven characters. A decimal value under `dms` units falls back to
/// its plain rendering.
#[verifier::opaque]
pub open spec fn spec_coord_text(c: Coord, cu: CoordUnits) -> Seq<char> {
    match c {
        Coord::DMS { degree, minutes, second } => spec_pad_left(spec_int_digits(degree as int), 4)
            + seq!['\u{b0}'] + spec_zero_pad(spec_udigits(minutes as nat), 2) + seq!['\'']
            + spec_zero_pad(spec_udigits(second as nat), 2) + seq!['"'],
        Coord::Dec(d) => match cu {
            CoordUnits::Deg => spec_pad_left(spec_dec_fixed(d, 6), 11),
            CoordUnits::DMS => spec_pad_left(spec_dec_plain(d), 11),
            CoordUnits::Meters | CoordUnits::Feet => spec_pad_left(spec_dec_fixed(d, 3), 11),
        },
    }
}

/// The creation date rendered as zero-padded day, month and four-digit
/// year, right-aligned to eleven characters.
#[verifier::opaque]
pub open spec fn spec_date_text(cd: CreationDate) -> Seq<char> {
    spec_pad_left(
        spec_zero_pad(spec_udigits(cd.day as nat), 2) + seq!['/'] + spec_zero_pad(
            spec_udigits(cd.month as nat),
            2,
        ) + seq!['/'] + spec_zero_pad(spec_udigits(cd.year as nat), 4),
        11,
    )
}

/// The bounds section: four or six label lines per the active variant, a
/// sparse variant rendering its absent deltas as placeholders.
pub open spec fn spec_bounds_text(db: DataBounds, cu: CoordUnits) -> Seq<char> {
    match db {
        DataBounds::GridGeodetic { lat_min, lat_max, lon_min, lon_max, delta_lat, delta_lon } => {
            ("lat min        = "@ + spec_coord_text(lat_min, cu) + "\n"@) + ("lat max        = "@
                + spec_coord_text(lat_max, cu) + "\n"@) + ("lon min        = "@ + spec_coord_text(
                lon_min,
                cu,
            ) + "\n"@) + ("lon max        = "@ + spec_coord_text(lon_max, cu) + "\n"@) + (
            "delta lat      = "@ + spec_coord_text(delta_lat, cu) + "\n"@) + (
            "delta lon      = "@ + spec_coord_text(delta_lon, cu) + "\n"@)
        },
        DataBounds::GridProjected {
            north_min,
            north_max,
            east_min,
            east_max,
            delta_north,
            delta_east,
        } => {
            ("north min      = "@ + spec_coord_text(north_min, cu) + "\n"@) + (
            "north max      = "@ + spec_coord_text(north_max, cu) + "\n"@) + (
            "east min       = "@ + spec_coord_text(east_min, cu) + "\n"@) + ("east max       = "@
                + spec_coord_text(east_max, cu) + "\n"@) + ("delta north    = "@
                + spec_coord_text(delta_north, cu) + "\n"@) + ("delta east     = "@
                + spec_coord_text(delta_east, cu) + "\n"@)
        },
        DataBounds::SparseGeodetic { lat_min, lat_max, lon_min, lon_max } => {
            ("lat min        = "@ + spec_coord_text(lat_min, cu) + "\n"@) + ("lat max        = "@
                + spec_coord_text(lat_max, cu) + "\n"@) + ("lon min        = "@ + spec_coord_text(
                lon_min,
                cu,
            ) + "\n"@) + ("lon max        = "@ + spec_coord_text(lon_max, cu) + "\n"@) + (
            "delta lat      = ---\n"@) + ("delta lon      = ---\n"@)
        },
        DataBounds::SparseProjected { north_min, north_max, east_min, east_max } => {
            ("north min      = "@ + spec_coord_text(north_min, cu) + "\n"@) + (
            "north max      = "@ + spec_coord_text(north_max, cu) + "\n"@) + (
            "east min       = "@ + spec_coord_text(east_min, cu) + "\n"@) + ("east max       = "@
                + spec_coord_text(east_max, cu) + "\n"@) + ("delta north    = ---\n"@) + (
            "delta east     = ---\n"@)
        },
    }
}

/// The first half of the header lines before the bounds section.
pub open spec fn spec_header_top_a(h: HeaderModel) -> Seq<char> {
    ("model name     : "@ + spec_opt_text(h.model_name) + "\n"@) + ("model year     : "@
        + spec_opt_text(h.model_year) + "\n"@) + ("model type     : "@ + (match h.model_type {
        None => "---"@,
        Some(v) => spec_model_type_str(v),
    }) + "\n"@) + ("data type      : "@ + (match h.data_type {
        None => "---"@,
        Some(v) => spec_data_type_str(v),
    }) + "\n"@) + ("data units     : "@ + (match h.data_units {
        None => "---"@,
        Some(v) => spec_data_units_str(v),
    }) + "\n"@) + ("data format    : "@ + spec_data_format_str(h.data_format) + "\n"@) + (
    "data ordering  : "@ + (match h.data_ordering {
        None => "---"@,
        Some(v) => spec_data_ordering_str(v),
    }) + "\n"@)
}

/// The second half of the header lines before the bounds section.
pub open spec fn spec_header_top_b(h: HeaderModel) -> Seq<char> {
    ("ref ellipsoid  : "@ + spec_opt_text(h.ref_ellipsoid) + "\n"@) + ("ref frame      : "@
        + spec_opt_text(h.ref_frame) + "\n"@) + ("height datum   : "@ + spec_opt_text(
        h.height_datum,
    ) + "\n"@) + ("tide system    : "@ + (match h.tide_system {
        None => "---"@,
        Some(v) => spec_tide_system_str(v),
    }) + "\n"@) + ("coord type     : "@ + crate::values::spec_coord_type_name(h.coord_type)
        + "\n"@) + ("coord units    : "@ + spec_coord_units_str(h.coord_units) + "\n"@) + (
    "map projection : "@ + spec_opt_text(h.map_projection) + "\n"@) + ("EPSG code      : "@
        + spec_opt_text(h.epsg_code) + "\n"@)
}

/// The header lines before the bounds section.
pub open spec fn spec_header_top(h: HeaderModel) -> Seq<char> {
    spec_header_top_a(h) + spec_header_top_b(h)
}

/// The header lines after the bounds section.
pub open spec fn spec_header_tail(h: HeaderModel) -> Seq<char> {
    "nrows          = "@ + spec_pad_left(spec_udigits(h.nrows as nat), 11) + "\n"@
        + "ncols          = "@ + spec_pad_left(spec_udigits(h.ncols as nat), 11) + "\n"@
        + "nodata         = "@ + (match h.nodata {
        None => "---"@,
        Some(d) => seq![' '] + spec_pad_left(spec_dec_fixed(d, 4), 10),
    }) + "\n"@ + "creation date  = "@ + (match h.creation_date {
        None => "---"@,
        Some(cd) => spec_date_text(cd),
    }) + "\n"@ + "ISG format     = "@ + spec_pad_left(h.isg_format, 11) + "\n"@
}

/// The whole header section.
pub open spec fn spec_header_text(h: HeaderModel) -> Seq<char> {
    spec_header_top(h) + spec_bounds_text(h.data_bounds, h.coord_units) + spec_header_tail(h)
}

/// One grid cell: the value at four decimals in ten columns; an absent
/// cell renders the `nodata` sentinel the same way, or the fixed fallback
/// literal when no sentinel is declared.
#[verifier::opaque]
pub open spec fn spec_cell_text(c: Option<Dec>, nodata: Option<Dec>) -> Seq<char> {
    match (c, nodata) {
        (None, None) => "-9999.9999"@,
        (Some(v), _) => spec_pad_left(spec_dec_fixed(v, 4), 10),
        (None, Some(v)) => spec_pad_left(spec_dec_fixed(v, 4), 10),
    }
}

/// One grid row: its cells separated by single spaces.
pub open spec fn spec_row_text(row: Seq<Option<Dec>>, nodata: Option<Dec>) -> Seq<char>
    decreases row.len(),
{
    if row.len() == 0 {
        Seq::empty()
    } else {
        spec_row_text(row.drop_last(), nodata) + (if row.len() >= 2 {
            seq![' ']
        } else {
            Seq::empty()
        }) + spec_cell_text(row.last(), nodata)
    }
}

/// The grid body: one line per row.
pub open spec fn spec_grid_text(rows: Seq<Seq<Option<Dec>>>, nodata: Option<Dec>) -> Seq<char>
    decreases rows.len(),
{
    if rows.len() == 0 {
        Seq::empty()
    } else {
        spec_grid_text(rows.drop_last(), nodata) + spec_row_text(rows.last(), nodata) + "\n"@
    }
}

/// One sparse row: two coordinates and the value.
pub open spec fn spec_sparse_row_text(row: (Coord, Coord, Dec), cu: CoordUnits) -> Seq<char> {
    spec_coord_text(row.0, cu) + seq![' '] + spec_coord_text(row.1, cu) + seq![' ']
        + spec_pad_left(spec_dec_fixed(row.2, 4), 10) + "\n"@
}

/// The sparse body: one line per row.
pub open spec fn spec_sparse_text(rows: Seq<(Coord, Coord, Dec)>, cu: CoordUnits) -> Seq<char>
    decreases rows.len(),
{
    if rows.len() == 0 {
        Seq::empty()
    } else {
        spec_sparse_text(rows.drop_last(), cu) + spec_sparse_row_text(rows.last(), cu)
    }
}

/// The comment as written back: kept verbatim, a line ending added when
/// it lacks one, and an empty comment producing nothing.
pub open spec fn spec_comment_text(c: Seq<char>) -> Seq<char> {
    if c.len() == 0 {
        Seq::empty()
    } else if c.last() == '\n' {
        c
    } else {
        c.push('\n')
    }
}

/// The whole document's canonical text.
pub open spec fn spec_render(m: IsgModel) -> Seq<char> {
    spec_comment_text(m.comment) + "begin_of_head ================================================\n"@
        + spec_header_text(m.header)
        + "end_of_head ==================================================\n"@ + (match m.data {
        DataModel::Grid(rows) => spec_grid_text(rows, m.header.nodata),
        DataModel::Sparse(rows) => spec_sparse_text(rows, m.header.coord_units),
    })
}

/// Appends an unsigned numeral right-aligned in `width` columns.
fn push_uint_left(out: &mut String, n: u128, width: u32)
    requires
        width <= 32,
    ensures
        final(out)@ == old(out)@ + spec_pad_left(spec_udigits(n as nat), width as nat),
{
    let c = count_digits(n);
    if c < width {
        push_repeat(out, ' ', (width - c) as usize);
    }
    push_u128(out, n);
    proof {
        assert(out@ =~= old(out)@ + spec_pad_left(spec_udigits(n as nat), width as nat));
    }
}

/// Appends an unsigned numeral left-padded with zeros to `width` columns.
fn push_uint_zero(out: &mut String, n: u128, width: u32)
    requires
        width <= 32,
    ensures
        final(out)@ == old(out)@ + spec_zero_pad(spec_udigits(n as nat), width as nat),
{
    let c = count_digits(n);
    if c < width {
        push_repeat(out, '0', (width - c) as usize);
    }
    push_u128(out, n);
    proof {
        assert(out@ =~= old(out)@ + spec_zero_pad(spec_udigits(n as nat), width as nat));
    }
}

/// Appends a degree value right-aligned in four columns.
fn push_degree(out: &mut String, n: i16)
    ensures
        final(out)@ == old(out)@ + spec_pad_left(spec_int_digits(n as int), 4),
{
    let mag: u128 = if n < 0 {
        (-(n as i32)) as u128
    } else {
        n as u128
    };
    let c = count_digits(mag);
    let total: u32 = if n < 0 {
        c + 1
    } else {
        c
    };
    if total < 4 {
        push_repeat(out, ' ', (4 - total) as usize);
    }
    if n < 0 {
        out.push('-');
    }
    push_u128(out, mag);
    proof {
        assert(out@ =~= old(out)@ + spec_pad_left(spec_int_digits(n as int), 4));
    }
}

/// Appends a coordinate under the given units.
fn push_coord(out: &mut String, c: &Coord, cu: CoordUnits)
    requires
        coord_bounded(*c),
    ensures
        final(out)@ == old(out)@ + spec_coord_text(*c, cu),
{
    proof {
        reveal(spec_coord_text);
    }
    match c {
        Coord::DMS { degree, minutes, second } => {
            push_degree(out, *degree);
            out.push('\u{b0}');
            push_uint_zero(out, *minutes as u128, 2);
            out.push('\'');
            push_uint_zero(out, *second as u128, 2);
            out.push('"');
            proof {
                reveal(spec_coord_text);
                assert(out@ =~= old(out)@ + spec_coord_text(*c, cu));
            }
        },
        Coord::Dec(d) => {
            match cu {
                CoordUnits::Deg => push_dec_fixed(out, *d, 6, 11),
                CoordUnits::DMS => push_dec_plain(out, *d, 11),
                CoordUnits::Meters | CoordUnits::Feet => push_dec_fixed(out, *d, 3, 11),
            }
        },
    }
}

/// Appends an optional free-text field.
fn push_opt_str(out: &mut String, o: &Option<String>)
    ensures
        final(out)@ == old(out)@ + spec_opt_text(opt_str_view(*o)),
{
    match o {
        None => out.append("---"),
        Some(s) => out.append(s.as_str()),
    }
}

/// Appends the header lines before the bounds section.
fn push_header_top(out: &mut String, h: &Header)
    ensures
        final(out)@ == old(out)@ + spec_header_top(header_view(h)),
{
    push_header_top_a(out, h);
    push_header_top_b(out, h);
    proof {
        assert(out@ =~= old(out)@ + spec_header_top(header_view(h)));
    }
}

/// Appends the first half of the upper header lines.
fn push_header_top_a(out: &mut String, h: &Header)
    ensures
        final(out)@ == old(out)@ + spec_header_top_a(header_view(h)),
{
    let ghost hm = header_view(h);
    push_line_opt(out, "model name     : ", &h.model_name);
    let ghost mut acc = "model name     : "@ + spec_opt_text(hm.model_name) + "\n"@;
    push_line_opt(out, "model year     : ", &h.model_year);
    proof {
        let p = "model year     : "@ + spec_opt_text(hm.model_year) + "\n"@;
        lemma_assoc(old(out)@, acc, p);
        acc = acc + p;
    }
    push_line_model_type(out, &h.model_type);
    proof {
        let p = "model type     : "@ + (match hm.model_type {
            None => "---"@,
            Some(v) => spec_model_type_str(v),
        }) + "\n"@;
        lemma_assoc(old(out)@, acc, p);
        acc = acc + p;
    }
    push_line_data_type(out, &h.data_type);
    proof {
        let p = "data type      : "@ + (match hm.data_type {
            None => "---"@,
            Some(v) => spec_data_type_str(v),
        }) + "\n"@;
        lemma_assoc(old(out)@, acc, p);
        acc = acc + p;
    }
    push_line_data_units(out, &h.data_units);
    proof {
        let p = "data units     : "@ + (match hm.data_units {
            None => "---"@,
            Some(v) => spec_data_units_str(v),
        }) + "\n"@;
        lemma_assoc(old(out)@, acc, p);
        acc = acc + p;
    }
    push_line_data_format(out, &h.data_format);
    proof {
        let p = "data format    : "@ + spec_data_format_str(hm.data_format) + "\n"@;
        lemma_assoc(old(out)@, acc, p);
        acc = acc + p;
    }
    push_line_data_ordering(out, &h.data_ordering);
    proof {
        let p = "data ordering  : "@ + (match hm.data_ordering {
            None => "---"@,
            Some(v) => spec_data_ordering_str(v),
        }) + "\n"@;
        lemma_assoc(old(out)@, acc, p);
        acc = acc + p;
        assert(acc == spec_header_top_a(hm));
    }
}

/// Appends the second half of the upper header lines.
fn push_header_top_b(out: &mut String, h: &Header)
    ensures
        final(out)@ == old(out)@ + spec_header_top_b(header_view(h)),
{
    let ghost hm = header_view(h);
    push_line_opt(out, "ref ellipsoid  : ", &h.ref_ellipsoid);
    let ghost mut acc = "ref ellipsoid  : "@ + spec_opt_text(hm.ref_ellipsoid) + "\n"@;
    push_line_opt(out, "ref frame      : ", &h.ref_frame);
    proof {
        let p = "ref frame      : "@ + spec_opt_text(hm.ref_frame) + "\n"@;
        lemma_assoc(old(out)@, acc, p);
        acc = acc + p;
    }
    push_line_opt(out, "height datum   : ", &h.height_datum);
    proof {
        let p = "height datum   : "@ + spec_opt_text(hm.height_datum) + "\n"@;
        lemma_assoc(old(out)@, acc, p);
        acc = acc + p;
    }
    push_line_tide_system(out, &h.tide_system);
    proof {
        let p = "tide system    : "@ + (match hm.tide_system {
            None => "---"@,
            Some(v) => spec_tide_system_str(v),
        }) + "\n"@;
        lemma_assoc(old(out)@, acc, p);
        acc = acc + p;
    }
    push_line_coord_type(out, &h.coord_type);
    proof {
        let p = "coord type     : "@ + crate::values::spec_coord_type_name(hm.coord_type)
            + "\n"@;
        lemma_assoc(old(out)@, acc, p);
        acc = acc + p;
    }
    push_line_coord_units(out, &h.coord_units);
    proof {
        let p = "coord units    : "@ + spec_coord_units_str(hm.coord_units) + "\n"@;
        lemma_assoc(old(out)@, acc, p);
        acc = acc + p;
    }
    push_line_opt(out, "map projection : ", &h.map_projection);
    proof {
        let p = "map projection : "@ + spec_opt_text(hm.map_projection) + "\n"@;
        lemma_assoc(old(out)@, acc, p);
        acc = acc + p;
    }
    push_line_opt(out, "EPSG code      : ", &h.EPSG_code);
    proof {
        let p = "EPSG code      : "@ + spec_opt_text(hm.epsg_code) + "\n"@;
        lemma_assoc(old(out)@, acc, p);
        acc = acc + p;
        assert(acc == spec_header_top_b(hm));
    }
}

/// Appends one labelled free-text line.
fn push_line_opt(out: &mut String, label: &str, v: &Option<String>)
    ensures
        final(out)@ == old(out)@ + (label@ + spec_opt_text(opt_str_view(*v)) + "\n"@),
{
    out.append(label);
    push_opt_str(out, v);
    out.append("\n");
    proof {
        assert(out@ =~= old(out)@ + (label@ + spec_opt_text(opt_str_view(*v)) + "\n"@));
    }
}

/// Appends the `model type` line.
fn push_line_model_type(out: &mut String, v: &Option<ModelType>)
    ensures
        final(out)@ == old(out)@ + ("model type     : "@ + (match *v {
            None => "---"@,
            Some(x) => spec_model_type_str(x),
        }) + "\n"@),
{
    out.append("model type     : ");
    match v {
        None => out.append("---"),
        Some(ModelType::Gravimetric) => out.append("gravimetric"),
        Some(ModelType::Geometric) => out.append("geometric"),
        Some(ModelType::Hybrid) => out.append("hybrid"),
    }
    out.append("\n");
    proof {
        assert(out@ =~= old(out)@ + ("model type     : "@ + (match *v {
            None => "---"@,
            Some(x) => spec_model_type_str(x),
        }) + "\n"@));
    }
}

/// Appends the `data type` line.
fn push_line_data_type(out: &mut String, v: &Option<DataType>)
    ensures
        final(out)@ == old(out)@ + ("data type      : "@ + (match *v {
            None => "---"@,
            Some(x) => spec_data_type_str(x),
        }) + "\n"@),
{
    out.append("data type      : ");
    match v {
        None => out.append("---"),
        Some(DataType::Geoid) => out.append("geoid"),
        Some(DataType::QuasiGeoid) => out.append("quasi-geoid"),
    }
    out.append("\n");
    proof {
        assert(out@ =~= old(out)@ + ("data type      : "@ + (match *v {
            None => "---"@,
            Some(x) => spec_data_type_str(x),
        }) + "\n"@));
    }
}

/// Appends the `data units` line.
fn push_line_data_units(out: &mut String, v: &Option<DataUnits>)
    ensures
        final(out)@ == old(out)@ + ("data units     : "@ + (match *v {
            None => "---"@,
            Some(x) => spec_data_units_str(x),
        }) + "\n"@),
{
    out.append("data units     : ");
    match v {
        None => out.append("---"),
        Some(DataUnits::Meters) => out.append("meters"),
        Some(DataUnits::Feet) => out.append("feet"),
    }
    out.append("\n");
    proof {
        assert(out@ =~= old(out)@ + ("data units     : "@ + (match *v {
            None => "---"@,
            Some(x) => spec_data_units_str(x),
        }) + "\n"@));
    }
}

/// Appends the `data format` line.
fn push_line_data_format(out: &mut String, v: &DataFormat)
    ensures
        final(out)@ == old(out)@ + ("data format    : "@ + spec_data_format_str(*v) + "\n"@),
{
    out.append("data format    : ");
    match v {
        DataFormat::Grid => out.append("grid"),
        DataFormat::Sparse => out.append("sparse"),
    }
    out.append("\n");
    proof {
        assert(out@ =~= old(out)@ + ("data format    : "@ + spec_data_format_str(*v) + "\n"@));
    }
}

/// Appends the `data ordering` line.
fn push_line_data_ordering(out: &mut String, v: &Option<DataOrdering>)
    ensures
        final(out)@ == old(out)@ + ("data ordering  : "@ + (match *v {
            None => "---"@,
            Some(x) => spec_data_ordering_str(x),
        }) + "\n"@),
{
    out.append("data ordering  : ");
    match v {
        None => out.append("---"),
        Some(DataOrdering::N2SW2E) => out.append("N-to-S, W-to-E"),
        Some(DataOrdering::LatLonN) => out.append("lat, lon, N"),
        Some(DataOrdering::EastNorthN) => out.append("east, north, N"),
        Some(DataOrdering::N) => out.append("N"),
        Some(DataOrdering::Zeta) => out.append("zeta"),
    }
    out.append("\n");
    proof {
        assert(out@ =~= old(out)@ + ("data ordering  : "@ + (match *v {
            None => "---"@,
            Some(x) => spec_data_ordering_str(x),
        }) + "\n"@));
    }
}

/// Appends the `tide system` line.
fn push_line_tide_system(out: &mut String, v: &Option<TideSystem>)
    ensures
        final(out)@ == old(out)@ + ("tide system    : "@ + (match *v {
            None => "---"@,
            Some(x) => spec_tide_system_str(x),
        }) + "\n"@),
{
    out.append("tide system    : ");
    match v {
        None => out.append("---"),
        Some(TideSystem::TideFree) => out.append("tide-free"),
        Some(TideSystem::MeanTide) => out.append("mean-tide"),
        Some(TideSystem::ZeroTide) => out.append("zero-tide"),
    }
    out.append("\n");
    proof {
        assert(out@ =~= old(out)@ + ("tide system    : "@ + (match *v {
            None => "---"@,
            Some(x) => spec_tide_system_str(x),
        }) + "\n"@));
    }
}

/// Appends the `coord type` line.
fn push_line_coord_type(out: &mut String, v: &CoordType)
    ensures
        final(out)@ == old(out)@ + ("coord type     : "@ + crate::values::spec_coord_type_name(*v)
            + "\n"@),
{
    out.append("coord type     : ");
    out.append(coord_type_name(v));
    out.append("\n");
    proof {
        assert(out@ =~= old(out)@ + ("coord type     : "@
            + crate::values::spec_coord_type_name(*v) + "\n"@));
    }
}

/// Appends the `coord units` line.
fn push_line_coord_units(out: &mut String, v: &CoordUnits)
    ensures
        final(out)@ == old(out)@ + ("coord units    : "@ + spec_coord_units_str(*v) + "\n"@),
{
    out.append("coord units    : ");
    match v {
        CoordUnits::DMS => out.append("dms"),
        CoordUnits::Deg => out.append("deg"),
        CoordUnits::Meters => out.append("meters"),
        CoordUnits::Feet => out.append("feet"),
    }
    out.append("\n");
    proof {
        assert(out@ =~= old(out)@ + ("coord units    : "@ + spec_coord_units_str(*v) + "\n"@));
    }
}

/// Appends one bounds line: the label, the coordinate, the line ending.
fn push_bound_line(out: &mut String, label: &str, c: &Coord, cu: CoordUnits)
    requires
        coord_bounded(*c),
    ensures
        final(out)@ == old(out)@ + label@ + spec_coord_text(*c, cu) + "\n"@,
{
    out.append(label);
    push_coord(out, c, cu);
    out.append("\n");
    proof {
        assert(out@ =~= old(out)@ + label@ + spec_coord_text(*c, cu) + "\n"@);
    }
}

/// Appends the bounds section.
fn push_bounds(out: &mut String, db: &DataBounds, cu: CoordUnits)
    requires
        bounds_bounded(*db),
    ensures
        final(out)@ == old(out)@ + spec_bounds_text(*db, cu),
{
    match db {
        DataBounds::GridGeodetic { lat_min, lat_max, lon_min, lon_max, delta_lat, delta_lon } => {
            push_bounds_gg(out, lat_min, lat_max, lon_min, lon_max, delta_lat, delta_lon, cu);
        },
        DataBounds::GridProjected {
            north_min,
            north_max,
            east_min,
            east_max,
            delta_north,
            delta_east,
        } => {
            push_bounds_gp(out, north_min, north_max, east_min, east_max, delta_north, delta_east, cu);
        },
        DataBounds::SparseGeodetic { lat_min, lat_max, lon_min, lon_max } => {
            push_bounds_sg(out, lat_min, lat_max, lon_min, lon_max, cu);
        },
        DataBounds::SparseProjected { north_min, north_max, east_min, east_max } => {
            push_bounds_sp(out, north_min, north_max, east_min, east_max, cu);
        },
    }
}

/// Appends the grid-geodetic bounds lines.
#[verifier::rlimit(100)]
fn push_bounds_gg(
    out: &mut String,
    lat_min: &Coord,
    lat_max: &Coord,
    lon_min: &Coord,
    lon_max: &Coord,
    delta_lat: &Coord,
    delta_lon: &Coord,
    cu: CoordUnits,
)
    requires
        coord_bounded(*lat_min),
        coord_bounded(*lat_max),
        coord_bounded(*lon_min),
        coord_bounded(*lon_max),
        coord_bounded(*delta_lat),
        coord_bounded(*delta_lon),
    ensures
        final(out)@ == old(out)@ + (("lat min        = "@ + spec_coord_text(*lat_min, cu) + "\n"@) + ("lat max        = "@ + spec_coord_text(*lat_max, cu) + "\n"@) + ("lon min        = "@ + spec_coord_text(*lon_min, cu) + "\n"@) + ("lon max        = "@ + spec_coord_text(*lon_max, cu) + "\n"@) + ("delta lat      = "@ + spec_coord_text(*delta_lat, cu) + "\n"@) + ("delta lon      = "@ + spec_coord_text(*delta_lon, cu) + "\n"@)),
{
    push_bound_line(out, "lat min        = ", lat_min, cu);
    let ghost mut acc = "lat min        = "@ + spec_coord_text(*lat_min, cu) + "\n"@;
    push_bound_line(out, "lat max        = ", lat_max, cu);
    proof {
        let p = "lat max        = "@ + spec_coord_text(*lat_max, cu) + "\n"@;
        lemma_assoc(old(out)@, acc, p);
        acc = acc + p;
    }
    push_bound_line(out, "lon min        = ", lon_min, cu);
    proof {
        let p = "lon min        = "@ + spec_coord_text(*lon_min, cu) + "\n"@;
        lemma_assoc(old(out)@, acc, p);
        acc = acc + p;
    }
    push_bound_line(out, "lon max        = ", lon_max, cu);
    proof {
        let p = "lon max        = "@ + spec_coord_text(*lon_max, cu) + "\n"@;
        lemma_assoc(old(out)@, acc, p);
        acc = acc + p;
    }
    push_bound_line(out, "delta lat      = ", delta_lat, cu);
    proof {
        let p = "delta lat      = "@ + spec_coord_text(*delta_lat, cu) + "\n"@;
        lemma_assoc(old(out)@, acc, p);
        acc = acc + p;
    }
    push_bound_line(out, "delta lon      = ", delta_lon, cu);
    proof {
        let p = "delta lon      = "@ + spec_coord_text(*delta_lon, cu) + "\n"@;
        lemma_assoc(old(out)@, acc, p);
        acc = acc + p;
    }
}

/// Appends the grid-projected bounds lines.
#[verifier::rlimit(100)]
#[verifier::spinoff_prover]
fn push_bounds_gp(
    out: &mut String,
    north_min: &Coord,
    north_max: &Coord,
    east_min: &Coord,
    east_max: &Coord,
    delta_north: &Coord,
    delta_east: &Coord,
    cu: CoordUnits,
)
    requires
        coord_bounded(*north_min),
        coord_bounded(*north_max),
        coord_bounded(*east_min),
        coord_bounded(*east_max),
        coord_bounded(*delta_north),
        coord_bounded(*delta_east),
    ensures
        final(out)@ == old(out)@ + (("north min      = "@ + spec_coord_text(*north_min, cu) + "\n"@) + ("north max      = "@ + spec_coord_text(*north_max, cu) + "\n"@) + ("east min       = "@ + spec_coord_text(*east_min, cu) + "\n"@) + ("east max       = "@ + spec_coord_text(*east_max, cu) + "\n"@) + ("delta north    = "@ + spec_coord_text(*delta_north, cu) + "\n"@) + ("delta east     = "@ + spec_coord_text(*delta_east, cu) + "\n"@)),
{
    push_bound_line(out, "north min      = ", north_min, cu);
    let ghost mut acc = "north min      = "@ + spec_coord_text(*north_min, cu) + "\n"@;
    push_bound_line(out, "north max      = ", north_max, cu);
    proof {
        let p = "north max      = "@ + spec_coord_text(*north_max, cu) + "\n"@;
        lemma_assoc(old(out)@, acc, p);
        acc = acc + p;
    }
    push_bound_line(out, "east min       = ", east_min, cu);
    proof {
        let p = "east min       = "@ + spec_coord_text(*east_min, cu) + "\n"@;
        lemma_assoc(old(out)@, acc, p);
        acc = acc + p;
    }
    push_bound_line(out, "east max       = ", east_max, cu);
    proof {
        let p = "east max       = "@ + spec_coord_text(*east_max, cu) + "\n"@;
        lemma_assoc(old(out)@, acc, p);
        acc = acc + p;
    }
    push_bound_line(out, "delta north    = ", delta_north, cu);
    proof {
        let p = "delta north    = "@ + spec_coord_text(*delta_north, cu) + "\n"@;
        lemma_assoc(old(out)@, acc, p);
        acc = acc + p;
    }
    push_bound_line(out, "delta east     = ", delta_east, cu);
    proof {
        let p = "delta east     = "@ + spec_coord_text(*delta_east, cu) + "\n"@;
        lemma_assoc(old(out)@, acc, p);
        acc = acc + p;
    }
}

/// Appends the sparse-geodetic bounds lines.
#[verifier::rlimit(100)]
fn push_bounds_sg(
    out: &mut String,
    lat_min: &Coord,
    lat_max: &Coord,
    lon_min: &Coord,
    lon_max: &Coord,
    cu: CoordUnits,
)
    requires
        coord_bounded(*lat_min),
        coord_bounded(*lat_max),
        coord_bounded(*lon_min),
        coord_bounded(*lon_max),
    ensures
        final(out)@ == old(out)@ + (("lat min        = "@ + spec_coord_text(*lat_min, cu) + "\n"@) + ("lat max        = "@ + spec_coord_text(*lat_max, cu) + "\n"@) + ("lon min        = "@ + spec_coord_text(*lon_min, cu) + "\n"@) + ("lon max        = "@ + spec_coord_text(*lon_max, cu) + "\n"@) + ("delta lat      = ---\n"@) + ("delta lon      = ---\n"@)),
{
    push_bound_line(out, "lat min        = ", lat_min, cu);
    let ghost mut acc = "lat min        = "@ + spec_coord_text(*lat_min, cu) + "\n"@;
    push_bound_line(out, "lat max        = ", lat_max, cu);
    proof {
        let p = "lat max        = "@ + spec_coord_text(*lat_max, cu) + "\n"@;
        lemma_assoc(old(out)@, acc, p);
        acc = acc + p;
    }
    push_bound_line(out, "lon min        = ", lon_min, cu);
    proof {
        let p = "lon min        = "@ + spec_coord_text(*lon_min, cu) + "\n"@;
        lemma_assoc(old(out)@, acc, p);
        acc = acc + p;
    }
    push_bound_line(out, "lon max        = ", lon_max, cu);
    proof {
        let p = "lon max        = "@ + spec_coord_text(*lon_max, cu) + "\n"@;
        lemma_assoc(old(out)@, acc, p);
        acc = acc + p;
    }
    out.append("delta lat      = ---\n");
    proof {
        let p = "delta lat      = ---\n"@;
        lemma_assoc(old(out)@, acc, p);
        acc = acc + p;
    }
    out.append("delta lon      = ---\n");
    proof {
        let p = "delta lon      = ---\n"@;
        lemma_assoc(old(out)@, acc, p);
        acc = acc + p;
    }
}

/// Appends the sparse-projected bounds lines.
#[verifier::rlimit(100)]
fn push_bounds_sp(
    out: &mut String,
    north_min: &Coord,
    north_max: &Coord,
    east_min: &Coord,
    east_max: &Coord,
    cu: CoordUnits,
)
    requires
        coord_bounded(*north_min),
        coord_bounded(*north_max),
        coord_bounded(*east_min),
        coord_bounded(*east_max),
    ensures
        final(out)@ == old(out)@ + (("north min      = "@ + spec_coord_text(*north_min, cu) + "\n"@) + ("north max      = "@ + spec_coord_text(*north_max, cu) + "\n"@) + ("east min       = "@ + spec_coord_text(*east_min, cu) + "\n"@) + ("east max       = "@ + spec_coord_text(*east_max, cu) + "\n"@) + ("delta north    = ---\n"@) + ("delta east     = ---\n"@)),
{
    push_bound_line(out, "north min      = ", north_min, cu);
    let ghost mut acc = "north min      = "@ + spec_coord_text(*north_min, cu) + "\n"@;
    push_bound_line(out, "north max      = ", north_max, cu);
    proof {
        let p = "north max      = "@ + spec_coord_text(*north_max, cu) + "\n"@;
        lemma_assoc(old(out)@, acc, p);
        acc = acc + p;
    }
    push_bound_line(out, "east min       = ", east_min, cu);
    proof {
        let p = "east min       = "@ + spec_coord_text(*east_min, cu) + "\n"@;
        lemma_assoc(old(out)@, acc, p);
        acc = acc + p;
    }
    push_bound_line(out, "east max       = ", east_max, cu);
    proof {
        let p = "east max       = "@ + spec_coord_text(*east_max, cu) + "\n"@;
        lemma_assoc(old(out)@, acc, p);
        acc = acc + p;
    }
    out.append("delta north    = ---\n");
    proof {
        let p = "delta north    = ---\n"@;
        lemma_assoc(old(out)@, acc, p);
        acc = acc + p;
    }
    out.append("delta east     = ---\n");
    proof {
        let p = "delta east     = ---\n"@;
        lemma_assoc(old(out)@, acc, p);
        acc = acc + p;
    }
}

/// Appends the header lines after the bounds section.
#[verifier::rlimit(100)]
fn push_header_tail(out: &mut String, h: &Header)
    requires
        h.nodata matches Some(d) ==> dec_bounded(d),
    ensures
        final(out)@ == old(out)@ + spec_header_tail(header_view(h)),
{
    out.append("nrows          = ");
    push_uint_left(out, h.nrows as u128, 11);
    out.append("\n");
    out.append("ncols          = ");
    push_uint_left(out, h.ncols as u128, 11);
    out.append("\n");
    out.append("nodata         = ");
    match &h.nodata {
        None => out.append("---"),
        Some(d) => {
            out.push(' ');
            push_dec_fixed(out, *d, 4, 10);
        },
    }
    out.append("\n");
    out.append("creation date  = ");
    match &h.creation_date {
        None => out.append("---"),
        Some(cd) => push_date(out, cd),
    }
    out.append("\n");
    out.append("ISG format     = ");
    let fl = h.ISG_format.as_str().unicode_len();
    if fl < 11 {
        push_repeat(out, ' ', 11 - fl);
    }
    out.append(h.ISG_format.as_str());
    out.append("\n");
    proof {
        assert(out@ =~= old(out)@ + spec_header_tail(header_view(h)));
    }
}

/// Appends the creation date in its fixed layout.
#[verifier::rlimit(100)]
fn push_date(out: &mut String, cd: &CreationDate)
    ensures
        final(out)@ == old(out)@ + spec_date_text(*cd),
{
    proof {
        reveal(spec_date_text);
    }
    let dc = count_digits(cd.day as u128);
    let mc = count_digits(cd.month as u128);
    let yc = count_digits(cd.year as u128);
    let dl: u32 = if dc < 2 {
        2
    } else {
        dc
    };
    let ml: u32 = if mc < 2 {
        2
    } else {
        mc
    };
    let yl: u32 = if yc < 4 {
        4
    } else {
        yc
    };
    let total = dl + ml + yl + 2;
    if total < 11 {
        push_repeat(out, ' ', (11 - total) as usize);
    }
    push_uint_zero(out, cd.day as u128, 2);
    out.push('/');
    push_uint_zero(out, cd.month as u128, 2);
    out.push('/');
    push_uint_zero(out, cd.year as u128, 4);
    proof {
        reveal(spec_date_text);
        assert(spec_zero_pad(spec_udigits(cd.day as nat), 2).len() == dl);
        assert(spec_zero_pad(spec_udigits(cd.month as nat), 2).len() == ml);
        assert(spec_zero_pad(spec_udigits(cd.year as nat), 4).len() == yl);
        assert(out@ =~= old(out)@ + spec_date_text(*cd));
    }
}

/// Appends one grid cell.
fn push_cell(out: &mut String, c: &Option<Dec>, nodata: &Option<Dec>)
    requires
        c matches Some(d) ==> dec_bounded(*d),
        nodata matches Some(d) ==> dec_bounded(*d),
    ensures
        final(out)@ == old(out)@ + spec_cell_text(*c, *nodata),
{
    proof {
        reveal(spec_cell_text);
    }
    match (c, nodata) {
        (None, None) => out.append("-9999.9999"),
        (Some(v), _) => push_dec_fixed(out, *v, 4, 10),
        (None, Some(v)) => push_dec_fixed(out, *v, 4, 10),
    }
}

/// Appends the grid body.
fn push_grid(out: &mut String, rows: &Vec<Vec<Option<Dec>>>, nodata: &Option<Dec>)
    requires
        forall|i: int, j: int|
            0 <= i < rows@.len() && 0 <= j < rows@[i]@.len() ==> ((#[trigger] rows@[i]@[j])
                matches Some(d) ==> dec_bounded(d)),
        nodata matches Some(d) ==> dec_bounded(*d),
    ensures
        final(out)@ == old(out)@ + spec_grid_text(crate::parse::grid_views(rows@), *nodata),
{
    let ghost gv = crate::parse::grid_views(rows@);
    let mut i: usize = 0;
    while i < rows.len()
        invariant
            i <= rows@.len(),
            gv == crate::parse::grid_views(rows@),
            forall|a: int, j: int|
                0 <= a < rows@.len() && 0 <= j < rows@[a]@.len() ==> ((#[trigger] rows@[a]@[j])
                    matches Some(d) ==> dec_bounded(d)),
            nodata matches Some(d) ==> dec_bounded(*d),
            out@ == old(out)@ + spec_grid_text(gv.subrange(0, i as int), *nodata),
        decreases rows@.len() - i,
    {
        let row = &rows[i];
        proof {
            assert(gv[i as int] == rows@[i as int]@);
        }
        let ghost before = out@;
        let mut j: usize = 0;
        while j < row.len()
            invariant
                j <= row@.len(),
                i < rows@.len(),
                row@ == rows@[i as int]@,
                forall|a: int, b: int|
                    0 <= a < rows@.len() && 0 <= b < rows@[a]@.len() ==> ((
                    #[trigger] rows@[a]@[b]) matches Some(d) ==> dec_bounded(d)),
                nodata matches Some(d) ==> dec_bounded(*d),
                out@ == before + spec_row_text(row@.subrange(0, j as int), *nodata),
            decreases row@.len() - j,
        {
            if j > 0 {
                out.push(' ');
            }
            proof {
                assert(rows@[i as int]@[j as int] == row@[j as int]);
            }
            push_cell(out, &row[j], nodata);
            proof {
                assert(row@.subrange(0, j + 1).drop_last() =~= row@.subrange(0, j as int));
                assert(row@.subrange(0, j + 1).last() == row@[j as int]);
                assert(out@ =~= before + spec_row_text(row@.subrange(0, j + 1), *nodata));
            }
            j = j + 1;
        }
        out.append("\n");
        proof {
            assert(row@.subrange(0, row@.len() as int) =~= row@);
            assert(gv.subrange(0, i + 1).drop_last() =~= gv.subrange(0, i as int));
            assert(gv.subrange(0, i + 1).last() == gv[i as int]);
            assert(out@ =~= old(out)@ + spec_grid_text(gv.subrange(0, i + 1), *nodata));
        }
        i = i + 1;
    }
    proof {
        assert(gv.subrange(0, gv.len() as int) =~= gv);
    }
}

/// Appends the sparse body.
fn push_sparse(out: &mut String, rows: &Vec<(Coord, Coord, Dec)>, cu: CoordUnits)
    requires
        forall|i: int|
            0 <= i < rows@.len() ==> coord_bounded((#[trigger] rows@[i]).0) && coord_bounded(
                rows@[i].1,
            ) && dec_bounded(rows@[i].2),
    ensures
        final(out)@ == old(out)@ + spec_sparse_text(rows@, cu),
{
    let mut i: usize = 0;
    while i < rows.len()
        invariant
            i <= rows@.len(),
            forall|a: int|
                0 <= a < rows@.len() ==> coord_bounded((#[trigger] rows@[a]).0) && coord_bounded(
                    rows@[a].1,
                ) && dec_bounded(rows@[a].2),
            out@ == old(out)@ + spec_sparse_text(rows@.subrange(0, i as int), cu),
        decreases rows@.len() - i,
    {
        let (a, b, c) = &rows[i];
        push_coord(out, a, cu);
        out.push(' ');
        push_coord(out, b, cu);
        out.push(' ');
        push_dec_fixed(out, *c, 4, 10);
        out.append("\n");
        proof {
            assert(rows@.subrange(0, i + 1).drop_last() =~= rows@.subrange(0, i as int));
            assert(rows@.subrange(0, i + 1).last() == rows@[i as int]);
            assert(out@ =~= old(out)@ + spec_sparse_text(rows@.subrange(0, i + 1), cu));
        }
        i = i + 1;
    }
    proof {
        assert(rows@.subrange(0, rows@.len() as int) =~= rows@);
    }
}

/// Serializes a document to its canonical ISG text. The decimal values
/// must be within the machine bounds of rendering; everything the parser
/// produces is.
pub fn to_string(isg: &ISG) -> (r: String)
    requires
        isg_bounded(isg_view(isg)),
    ensures
        r@ == spec_render(isg_view(isg)),
{
    let mut out = String::new();
    if !isg.comment.as_str().is_empty() {
        let n = isg.comment.as_str().unicode_len();
        out.append(isg.comment.as_str());
        if isg.comment.as_str().get_char(n - 1) != '\n' {
            out.push('\n');
        }
    }
    proof {
        assert(out@ =~= spec_comment_text(isg.comment@));
    }
    out.append("begin_of_head ================================================\n");
    push_header_top(&mut out, &isg.header);
    push_bounds(&mut out, &isg.header.data_bounds, isg.header.coord_units);
    push_header_tail(&mut out, &isg.header);
    out.append("end_of_head ==================================================\n");
    let ghost before_data = out@;
    proof {
        let m = isg_view(isg);
        assert(before_data =~= spec_comment_text(m.comment)
            + "begin_of_head ================================================\n"@
            + spec_header_text(m.header)
            + "end_of_head ==================================================\n"@);
    }
    match &isg.data {
        Data::Grid(rows) => {
            proof {
                let gv = crate::parse::grid_views(rows@);
                assert(data_view(&isg.data) == DataModel::Grid(gv));
                assert forall|i: int, j: int|
                    0 <= i < rows@.len() && 0 <= j < rows@[i]@.len() implies ((
                #[trigger] rows@[i]@[j]) matches Some(d) ==> dec_bounded(d)) by {
                    assert(gv[i] == rows@[i]@);
                    assert(gv[i][j] == rows@[i]@[j]);
                }
            }
            push_grid(&mut out, rows, &isg.header.nodata);
        },
        Data::Sparse(rows) => {
            proof {
                let m = isg_view(isg);
                assert(m.data == DataModel::Sparse(rows@));
                assert forall|i: int|
                    0 <= i < rows@.len() implies coord_bounded((#[trigger] rows@[i]).0)
                    && coord_bounded(rows@[i].1) && dec_bounded(rows@[i].2) by {
                    assert((m.data->Sparse_0)[i] == rows@[i]);
                }
            }
            push_sparse(&mut out, rows, isg.header.coord_units);
        },
    }
    proof {
        assert(out@ =~= spec_render(isg_view(isg)));
    }
    out
}

} // verus!
