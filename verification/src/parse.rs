//! The parser: header-field vocabulary, header assembly, data-body
//! reading, and the `from_str` entry point.

use vstd::prelude::*;

use crate::error::{err_matches, ErrModel, ParseError};
use crate::text::{chars_eq, chars_to_string, range_starts_with};
use crate::token::{
    line_views, split_cells, split_header_kv, split_lines, spec_cells_from, spec_header_kv,
    spec_lines_from, token_view, token_views, Line, Token, TokenModel,
};
use crate::values::{
    parse_coord, parse_coord_type, parse_coord_units, parse_data_format, parse_data_ordering,
    parse_data_type, parse_data_units, parse_date, parse_model_type, parse_tide_system, parse_uint,
    spec_parse_coord, spec_parse_coord_type, spec_parse_coord_units, spec_parse_data_format,
    spec_parse_data_ordering, spec_parse_data_type, spec_parse_data_units, spec_parse_date,
    spec_parse_model_type, spec_parse_tide_system, spec_parse_uint, spec_units_match,
};
use crate::dec::{parse_dec, spec_parse_dec};
use crate::error::DataDirection;
use crate::text::{spec_find2, str_to_chars};
use crate::{
    Coord, CoordType, CoordUnits, CreationDate, Data, DataBounds, DataFormat, DataModel,
    DataOrdering, DataType, DataUnits, Header, HeaderModel, ISG, IsgModel, ModelType, TideSystem,
    data_view, header_view, isg_view, opt_str_view,
};
use crate::Dec;

verus! {

/// The closed set of header field names.
#[derive(Debug, Eq, PartialEq, Clone, Copy, Structural)]
pub enum HeaderField {
    ModelName,
    ModelYear,
    ModelType,
    DataType,
    DataUnits,
    DataFormat,
    DataOrdering,
    RefEllipsoid,
    RefFrame,
    HeightDatum,
    TideSystem,
    CoordType,
    CoordUnits,
    MapProjection,
    EpsgCode,
    LatMin,
    LatMax,
    NorthMin,
    NorthMax,
    LonMin,
    LonMax,
    EastMin,
    EastMax,
    DeltaLat,
    DeltaLon,
    DeltaNorth,
    DeltaEast,
    NRows,
    NCols,
    NoData,
    CreationDate,
    IsgFormat,
}

/// The display name of a header field, as it appears in the file format
/// and in diagnostics.
pub open spec fn spec_field_name(f: HeaderField) -> Seq<char> {
    match f {
        HeaderField::ModelName => "model name"@,
        HeaderField::ModelYear => "model year"@,
        HeaderField::ModelType => "model type"@,
        HeaderField::DataType => "data type"@,
        HeaderField::DataUnits => "data units"@,
        HeaderField::DataFormat => "data format"@,
        HeaderField::DataOrdering => "data ordering"@,
        HeaderField::RefEllipsoid => "ref ellipsoid"@,
        HeaderField::RefFrame => "ref frame"@,
        HeaderField::HeightDatum => "height datum"@,
        HeaderField::TideSystem => "tide system"@,
        HeaderField::CoordType => "coord type"@,
        HeaderField::CoordUnits => "coord units"@,
        HeaderField::MapProjection => "map projection"@,
        HeaderField::EpsgCode => "EPSG code"@,
        HeaderField::LatMin => "lat min"@,
        HeaderField::LatMax => "lat max"@,
        HeaderField::NorthMin => "north min"@,
        HeaderField::NorthMax => "north max"@,
        HeaderField::LonMin => "lon min"@,
        HeaderField::LonMax => "lon max"@,
        HeaderField::EastMin => "east min"@,
        HeaderField::EastMax => "east max"@,
        HeaderField::DeltaLat => "delta lat"@,
        HeaderField::DeltaLon => "delta lon"@,
        HeaderField::DeltaNorth => "delta north"@,
        HeaderField::DeltaEast => "delta east"@,
        HeaderField::NRows => "nrows"@,
        HeaderField::NCols => "ncols"@,
        HeaderField::NoData => "nodata"@,
        HeaderField::CreationDate => "creation date"@,
        HeaderField::IsgFormat => "ISG format"@,
    }
}

/// The display name of a header field.
pub fn field_name(f: &HeaderField) -> (r: &'static str)
    ensures
        r@ == spec_field_name(*f),
{
    match f {
        HeaderField::ModelName => "model name",
        HeaderField::ModelYear => "model year",
        HeaderField::ModelType => "model type",
        HeaderField::DataType => "data type",
        HeaderField::DataUnits => "data units",
        HeaderField::DataFormat => "data format",
        HeaderField::DataOrdering => "data ordering",
        HeaderField::RefEllipsoid => "ref ellipsoid",
        HeaderField::RefFrame => "ref frame",
        HeaderField::HeightDatum => "height datum",
        HeaderField::TideSystem => "tide system",
        HeaderField::CoordType => "coord type",
        HeaderField::CoordUnits => "coord units",
        HeaderField::MapProjection => "map projection",
        HeaderField::EpsgCode => "EPSG code",
        HeaderField::LatMin => "lat min",
        HeaderField::LatMax => "lat max",
        HeaderField::NorthMin => "north min",
        HeaderField::NorthMax => "north max",
        HeaderField::LonMin => "lon min",
        HeaderField::LonMax => "lon max",
        HeaderField::EastMin => "east min",
        HeaderField::EastMax => "east max",
        HeaderField::DeltaLat => "delta lat",
        HeaderField::DeltaLon => "delta lon",
        HeaderField::DeltaNorth => "delta north",
        HeaderField::DeltaEast => "delta east",
        HeaderField::NRows => "nrows",
        HeaderField::NCols => "ncols",
        HeaderField::NoData => "nodata",
        HeaderField::CreationDate => "creation date",
        HeaderField::IsgFormat => "ISG format",
    }
}

/// The header-key grammar: an exact match against a field's display name.
pub open spec fn spec_parse_header_field(s: Seq<char>) -> Option<HeaderField> {
    if s == "model name"@ {
        Some(HeaderField::ModelName)
    } else if s == "model year"@ {
        Some(HeaderField::ModelYear)
    } else if s == "model type"@ {
        Some(HeaderField::ModelType)
    } else if s == "data type"@ {
        Some(HeaderField::DataType)
    } else if s == "data units"@ {
        Some(HeaderField::DataUnits)
    } else if s == "data format"@ {
        Some(HeaderField::DataFormat)
    } else if s == "data ordering"@ {
        Some(HeaderField::DataOrdering)
    } else if s == "ref ellipsoid"@ {
        Some(HeaderField::RefEllipsoid)
    } else if s == "ref frame"@ {
        Some(HeaderField::RefFrame)
    } else if s == "height datum"@ {
        Some(HeaderField::HeightDatum)
    } else if s == "tide system"@ {
        Some(HeaderField::TideSystem)
    } else if s == "coord type"@ {
        Some(HeaderField::CoordType)
    } else if s == "coord units"@ {
        Some(HeaderField::CoordUnits)
    } else if s == "map projection"@ {
        Some(HeaderField::MapProjection)
    } else if s == "EPSG code"@ {
        Some(HeaderField::EpsgCode)
    } else if s == "lat min"@ {
        Some(HeaderField::LatMin)
    } else if s == "lat max"@ {
        Some(HeaderField::LatMax)
    } else if s == "lon min"@ {
        Some(HeaderField::LonMin)
    } else if s == "lon max"@ {
        Some(HeaderField::LonMax)
    } else if s == "north min"@ {
        Some(HeaderField::NorthMin)
    } else if s == "north max"@ {
        Some(HeaderField::NorthMax)
    } else if s == "east min"@ {
        Some(HeaderField::EastMin)
    } else if s == "east max"@ {
        Some(HeaderField::EastMax)
    } else if s == "delta lat"@ {
        Some(HeaderField::DeltaLat)
    } else if s == "delta lon"@ {
        Some(HeaderField::DeltaLon)
    } else if s == "delta north"@ {
        Some(HeaderField::DeltaNorth)
    } else if s == "delta east"@ {
        Some(HeaderField::DeltaEast)
    } else if s == "nrows"@ {
        Some(HeaderField::NRows)
    } else if s == "ncols"@ {
        Some(HeaderField::NCols)
    } else if s == "nodata"@ {
        Some(HeaderField::NoData)
    } else if s == "creation date"@ {
        Some(HeaderField::CreationDate)
    } else if s == "ISG format"@ {
        Some(HeaderField::IsgFormat)
    } else {
        None
    }
}

/// Reads a header key.
pub fn parse_header_field(v: &[char]) -> (r: Option<HeaderField>)
    ensures
        r == spec_parse_header_field(v@),
{
    if chars_eq(v, "model name") {
        Some(HeaderField::ModelName)
    } else if chars_eq(v, "model year") {
        Some(HeaderField::ModelYear)
    } else if chars_eq(v, "model type") {
        Some(HeaderField::ModelType)
    } else if chars_eq(v, "data type") {
        Some(HeaderField::DataType)
    } else if chars_eq(v, "data units") {
        Some(HeaderField::DataUnits)
    } else if chars_eq(v, "data format") {
        Some(HeaderField::DataFormat)
    } else if chars_eq(v, "data ordering") {
        Some(HeaderField::DataOrdering)
    } else if chars_eq(v, "ref ellipsoid") {
        Some(HeaderField::RefEllipsoid)
    } else if chars_eq(v, "ref frame") {
        Some(HeaderField::RefFrame)
    } else if chars_eq(v, "height datum") {
        Some(HeaderField::HeightDatum)
    } else if chars_eq(v, "tide system") {
        Some(HeaderField::TideSystem)
    } else if chars_eq(v, "coord type") {
        Some(HeaderField::CoordType)
    } else if chars_eq(v, "coord units") {
        Some(HeaderField::CoordUnits)
    } else if chars_eq(v, "map projection") {
        Some(HeaderField::MapProjection)
    } else if chars_eq(v, "EPSG code") {
        Some(HeaderField::EpsgCode)
    } else if chars_eq(v, "lat min") {
        Some(HeaderField::LatMin)
    } else if chars_eq(v, "lat max") {
        Some(HeaderField::LatMax)
    } else if chars_eq(v, "lon min") {
        Some(HeaderField::LonMin)
    } else if chars_eq(v, "lon max") {
        Some(HeaderField::LonMax)
    } else if chars_eq(v, "north min") {
        Some(HeaderField::NorthMin)
    } else if chars_eq(v, "north max") {
        Some(HeaderField::NorthMax)
    } else if chars_eq(v, "east min") {
        Some(HeaderField::EastMin)
    } else if chars_eq(v, "east max") {
        Some(HeaderField::EastMax)
    } else if chars_eq(v, "delta lat") {
        Some(HeaderField::DeltaLat)
    } else if chars_eq(v, "delta lon") {
        Some(HeaderField::DeltaLon)
    } else if chars_eq(v, "delta north") {
        Some(HeaderField::DeltaNorth)
    } else if chars_eq(v, "delta east") {
        Some(HeaderField::DeltaEast)
    } else if chars_eq(v, "nrows") {
        Some(HeaderField::NRows)
    } else if chars_eq(v, "ncols") {
        Some(HeaderField::NCols)
    } else if chars_eq(v, "nodata") {
        Some(HeaderField::NoData)
    } else if chars_eq(v, "creation date") {
        Some(HeaderField::CreationDate)
    } else if chars_eq(v, "ISG format") {
        Some(HeaderField::IsgFormat)
    } else {
        None
    }
}

/// One slot per header field, filled while the header lines are folded.
pub struct HeaderStore {
    pub model_name: Option<Token>,
    pub model_year: Option<Token>,
    pub model_type: Option<Token>,
    pub data_type: Option<Token>,
    pub data_units: Option<Token>,
    pub data_format: Option<Token>,
    pub data_ordering: Option<Token>,
    pub ref_ellipsoid: Option<Token>,
    pub ref_frame: Option<Token>,
    pub height_datum: Option<Token>,
    pub tide_system: Option<Token>,
    pub coord_type: Option<Token>,
    pub coord_units: Option<Token>,
    pub map_projection: Option<Token>,
    pub epsg_code: Option<Token>,
    pub lat_min: Option<Token>,
    pub lat_max: Option<Token>,
    pub north_min: Option<Token>,
    pub north_max: Option<Token>,
    pub lon_min: Option<Token>,
    pub lon_max: Option<Token>,
    pub east_min: Option<Token>,
    pub east_max: Option<Token>,
    pub delta_lat: Option<Token>,
    pub delta_lon: Option<Token>,
    pub delta_north: Option<Token>,
    pub delta_east: Option<Token>,
    pub nrows: Option<Token>,
    pub ncols: Option<Token>,
    pub nodata: Option<Token>,
    pub creation_date: Option<Token>,
    pub isg_format: Option<Token>,
}

/// The mathematical image of the store.
pub struct StoreModel {
    pub model_name: Option<TokenModel>,
    pub model_year: Option<TokenModel>,
    pub model_type: Option<TokenModel>,
    pub data_type: Option<TokenModel>,
    pub data_units: Option<TokenModel>,
    pub data_format: Option<TokenModel>,
    pub data_ordering: Option<TokenModel>,
    pub ref_ellipsoid: Option<TokenModel>,
    pub ref_frame: Option<TokenModel>,
    pub height_datum: Option<TokenModel>,
    pub tide_system: Option<TokenModel>,
    pub coord_type: Option<TokenModel>,
    pub coord_units: Option<TokenModel>,
    pub map_projection: Option<TokenModel>,
    pub epsg_code: Option<TokenModel>,
    pub lat_min: Option<TokenModel>,
    pub lat_max: Option<TokenModel>,
    pub north_min: Option<TokenModel>,
    pub north_max: Option<TokenModel>,
    pub lon_min: Option<TokenModel>,
    pub lon_max: Option<TokenModel>,
    pub east_min: Option<TokenModel>,
    pub east_max: Option<TokenModel>,
    pub delta_lat: Option<TokenModel>,
    pub delta_lon: Option<TokenModel>,
    pub delta_north: Option<TokenModel>,
    pub delta_east: Option<TokenModel>,
    pub nrows: Option<TokenModel>,
    pub ncols: Option<TokenModel>,
    pub nodata: Option<TokenModel>,
    pub creation_date: Option<TokenModel>,
    pub isg_format: Option<TokenModel>,
}

/// The image of an optional token.
pub open spec fn opt_token_view(o: Option<Token>) -> Option<TokenModel> {
    match o {
        Some(ref t) => Some(token_view(t)),
        None => None,
    }
}

/// The mathematical image of the store.
pub open spec fn store_view(st: &HeaderStore) -> StoreModel {
    StoreModel {
        model_name: opt_token_view(st.model_name),
        model_year: opt_token_view(st.model_year),
        model_type: opt_token_view(st.model_type),
        data_type: opt_token_view(st.data_type),
        data_units: opt_token_view(st.data_units),
        data_format: opt_token_view(st.data_format),
        data_ordering: opt_token_view(st.data_ordering),
        ref_ellipsoid: opt_token_view(st.ref_ellipsoid),
        ref_frame: opt_token_view(st.ref_frame),
        height_datum: opt_token_view(st.height_datum),
        tide_system: opt_token_view(st.tide_system),
        coord_type: opt_token_view(st.coord_type),
        coord_units: opt_token_view(st.coord_units),
        map_projection: opt_token_view(st.map_projection),
        epsg_code: opt_token_view(st.epsg_code),
        lat_min: opt_token_view(st.lat_min),
        lat_max: opt_token_view(st.lat_max),
        north_min: opt_token_view(st.north_min),
        north_max: opt_token_view(st.north_max),
        lon_min: opt_token_view(st.lon_min),
        lon_max: opt_token_view(st.lon_max),
        east_min: opt_token_view(st.east_min),
        east_max: opt_token_view(st.east_max),
        delta_lat: opt_token_view(st.delta_lat),
        delta_lon: opt_token_view(st.delta_lon),
        delta_north: opt_token_view(st.delta_north),
        delta_east: opt_token_view(st.delta_east),
        nrows: opt_token_view(st.nrows),
        ncols: opt_token_view(st.ncols),
        nodata: opt_token_view(st.nodata),
        creation_date: opt_token_view(st.creation_date),
        isg_format: opt_token_view(st.isg_format),
    }
}

/// The empty store.
pub open spec fn store_empty() -> StoreModel {
    StoreModel {
        model_name: None,
        model_year: None,
        model_type: None,
        data_type: None,
        data_units: None,
        data_format: None,
        data_ordering: None,
        ref_ellipsoid: None,
        ref_frame: None,
        height_datum: None,
        tide_system: None,
        coord_type: None,
        coord_units: None,
        map_projection: None,
        epsg_code: None,
        lat_min: None,
        lat_max: None,
        north_min: None,
        north_max: None,
        lon_min: None,
        lon_max: None,
        east_min: None,
        east_max: None,
        delta_lat: None,
        delta_lon: None,
        delta_north: None,
        delta_east: None,
        nrows: None,
        ncols: None,
        nodata: None,
        creation_date: None,
        isg_format: None,
    }
}

/// The slot of the given field.
pub open spec fn store_get(m: StoreModel, f: HeaderField) -> Option<TokenModel> {
    match f {
        HeaderField::ModelName => m.model_name,
        HeaderField::ModelYear => m.model_year,
        HeaderField::ModelType => m.model_type,
        HeaderField::DataType => m.data_type,
        HeaderField::DataUnits => m.data_units,
        HeaderField::DataFormat => m.data_format,
        HeaderField::DataOrdering => m.data_ordering,
        HeaderField::RefEllipsoid => m.ref_ellipsoid,
        HeaderField::RefFrame => m.ref_frame,
        HeaderField::HeightDatum => m.height_datum,
        HeaderField::TideSystem => m.tide_system,
        HeaderField::CoordType => m.coord_type,
        HeaderField::CoordUnits => m.coord_units,
        HeaderField::MapProjection => m.map_projection,
        HeaderField::EpsgCode => m.epsg_code,
        HeaderField::LatMin => m.lat_min,
        HeaderField::LatMax => m.lat_max,
        HeaderField::NorthMin => m.north_min,
        HeaderField::NorthMax => m.north_max,
        HeaderField::LonMin => m.lon_min,
        HeaderField::LonMax => m.lon_max,
        HeaderField::EastMin => m.east_min,
        HeaderField::EastMax => m.east_max,
        HeaderField::DeltaLat => m.delta_lat,
        HeaderField::DeltaLon => m.delta_lon,
        HeaderField::DeltaNorth => m.delta_north,
        HeaderField::DeltaEast => m.delta_east,
        HeaderField::NRows => m.nrows,
        HeaderField::NCols => m.ncols,
        HeaderField::NoData => m.nodata,
        HeaderField::CreationDate => m.creation_date,
        HeaderField::IsgFormat => m.isg_format,
    }
}

/// The store with the given field's slot filled.
pub open spec fn store_set(m: StoreModel, f: HeaderField, t: TokenModel) -> StoreModel {
    match f {
        HeaderField::ModelName => StoreModel { model_name: Some(t), ..m },
        HeaderField::ModelYear => StoreModel { model_year: Some(t), ..m },
        HeaderField::ModelType => StoreModel { model_type: Some(t), ..m },
        HeaderField::DataType => StoreModel { data_type: Some(t), ..m },
        HeaderField::DataUnits => StoreModel { data_units: Some(t), ..m },
        HeaderField::DataFormat => StoreModel { data_format: Some(t), ..m },
        HeaderField::DataOrdering => StoreModel { data_ordering: Some(t), ..m },
        HeaderField::RefEllipsoid => StoreModel { ref_ellipsoid: Some(t), ..m },
        HeaderField::RefFrame => StoreModel { ref_frame: Some(t), ..m },
        HeaderField::HeightDatum => StoreModel { height_datum: Some(t), ..m },
        HeaderField::TideSystem => StoreModel { tide_system: Some(t), ..m },
        HeaderField::CoordType => StoreModel { coord_type: Some(t), ..m },
        HeaderField::CoordUnits => StoreModel { coord_units: Some(t), ..m },
        HeaderField::MapProjection => StoreModel { map_projection: Some(t), ..m },
        HeaderField::EpsgCode => StoreModel { epsg_code: Some(t), ..m },
        HeaderField::LatMin => StoreModel { lat_min: Some(t), ..m },
        HeaderField::LatMax => StoreModel { lat_max: Some(t), ..m },
        HeaderField::NorthMin => StoreModel { north_min: Some(t), ..m },
        HeaderField::NorthMax => StoreModel { north_max: Some(t), ..m },
        HeaderField::LonMin => StoreModel { lon_min: Some(t), ..m },
        HeaderField::LonMax => StoreModel { lon_max: Some(t), ..m },
        HeaderField::EastMin => StoreModel { east_min: Some(t), ..m },
        HeaderField::EastMax => StoreModel { east_max: Some(t), ..m },
        HeaderField::DeltaLat => StoreModel { delta_lat: Some(t), ..m },
        HeaderField::DeltaLon => StoreModel { delta_lon: Some(t), ..m },
        HeaderField::DeltaNorth => StoreModel { delta_north: Some(t), ..m },
        HeaderField::DeltaEast => StoreModel { delta_east: Some(t), ..m },
        HeaderField::NRows => StoreModel { nrows: Some(t), ..m },
        HeaderField::NCols => StoreModel { ncols: Some(t), ..m },
        HeaderField::NoData => StoreModel { nodata: Some(t), ..m },
        HeaderField::CreationDate => StoreModel { creation_date: Some(t), ..m },
        HeaderField::IsgFormat => StoreModel { isg_format: Some(t), ..m },
    }
}

/// True when a sequence of characters starts with the given prefix.
pub open spec fn spec_starts_with(s: Seq<char>, p: Seq<char>) -> bool {
    s.len() >= p.len() && s.subrange(0, p.len() as int) == p
}

/// Folding the header lines from `idx` on: each line up to the first one
/// starting with `end_of_head` is split at its separator, its key looked
/// up, and its value stored, a second occurrence of a key being a
/// duplicate-key error. Running out of lines is a missing-end error.
pub open spec fn spec_fold_header(lines: Seq<(int, Seq<char>)>, idx: int, m: StoreModel) -> Result<
    (StoreModel, int),
    ErrModel,
>
    decreases lines.len() - idx,
{
    if idx < 0 || idx >= lines.len() {
        Err(ErrModel::MissingEndOfHead)
    } else {
        let text = lines[idx].1;
        if spec_starts_with(text, "end_of_head"@) {
            Ok((m, idx))
        } else {
            match spec_header_kv(text, idx + 1) {
                None => Err(
                    ErrModel::MissingSeparator {
                        span: (0, crate::text::spec_byte_off(text, text.len() as int)),
                        lineno: idx + 1,
                    },
                ),
                Some((k, v)) => match spec_parse_header_field(k.value) {
                    None => Err(
                        ErrModel::UnknownHeaderKey {
                            value: k.value,
                            span: (k.start, k.end),
                            lineno: idx + 1,
                        },
                    ),
                    Some(f) => if store_get(m, f) is Some {
                        Err(
                            ErrModel::DuplicatedHeaderKey {
                                kind: f,
                                span: (k.start, k.end),
                                lineno: idx + 1,
                            },
                        )
                    } else {
                        spec_fold_header(lines, idx + 1, store_set(m, f, v))
                    },
                },
            }
        }
    }
}

/// Folds the header lines into the store, returning it with the index of
/// the `end_of_head` line.
pub fn fold_header(lines: &Vec<Line>, start: usize) -> (r: Result<(HeaderStore, usize), ParseError>)
    requires
        start <= lines@.len(),
    ensures
        match r {
            Ok((st, end)) => spec_fold_header(line_views(lines@), start as int, store_empty())
                == Ok::<_, ErrModel>((store_view(&st), end as int)) && end < lines@.len(),
            Err(e) => (spec_fold_header(line_views(lines@), start as int, store_empty())
                matches Err(m) && err_matches(e, m)),
        },
{
    let mut st = HeaderStore {
        model_name: None,
        model_year: None,
        model_type: None,
        data_type: None,
        data_units: None,
        data_format: None,
        data_ordering: None,
        ref_ellipsoid: None,
        ref_frame: None,
        height_datum: None,
        tide_system: None,
        coord_type: None,
        coord_units: None,
        map_projection: None,
        epsg_code: None,
        lat_min: None,
        lat_max: None,
        north_min: None,
        north_max: None,
        lon_min: None,
        lon_max: None,
        east_min: None,
        east_max: None,
        delta_lat: None,
        delta_lon: None,
        delta_north: None,
        delta_east: None,
        nrows: None,
        ncols: None,
        nodata: None,
        creation_date: None,
        isg_format: None,
    };
    let mut idx: usize = start;
    proof {
        assert(store_view(&st) == store_empty());
    }
    while idx < lines.len()
        invariant
            start <= idx <= lines@.len(),
            spec_fold_header(line_views(lines@), start as int, store_empty()) == spec_fold_header(
                line_views(lines@),
                idx as int,
                store_view(&st),
            ),
        decreases lines@.len() - idx,
    {
        let line = &lines[idx];
        proof {
            assert(line_views(lines@)[idx as int] == (line.start as int, line.text@));
        }
        if range_starts_with(line.text.as_slice(), 0, "end_of_head") {
            return Ok((st, idx));
        }
        let lineno = idx + 1;
        let (k, v) = match split_header_kv(line, lineno) {
            Some(kv) => kv,
            None => {
                let blen = crate::text::byte_off(line.text.as_slice(), line.text.len());
                return Err(ParseError::missing_sep(0, blen, lineno));
            },
        };
        let f = match parse_header_field(k.value.as_slice()) {
            Some(f) => f,
            None => {
                let value = chars_to_string(k.value.as_slice(), 0, k.value.len());
                proof {
                    assert(value@ =~= k.value@);
                }
                return Err(ParseError::unknown_header_key(value, k.start, k.end, lineno));
            },
        };
        let ghost m0 = store_view(&st);
        let dup: bool = match f {
            HeaderField::ModelName => st.model_name.is_some(),
            HeaderField::ModelYear => st.model_year.is_some(),
            HeaderField::ModelType => st.model_type.is_some(),
            HeaderField::DataType => st.data_type.is_some(),
            HeaderField::DataUnits => st.data_units.is_some(),
            HeaderField::DataFormat => st.data_format.is_some(),
            HeaderField::DataOrdering => st.data_ordering.is_some(),
            HeaderField::RefEllipsoid => st.ref_ellipsoid.is_some(),
            HeaderField::RefFrame => st.ref_frame.is_some(),
            HeaderField::HeightDatum => st.height_datum.is_some(),
            HeaderField::TideSystem => st.tide_system.is_some(),
            HeaderField::CoordType => st.coord_type.is_some(),
            HeaderField::CoordUnits => st.coord_units.is_some(),
            HeaderField::MapProjection => st.map_projection.is_some(),
            HeaderField::EpsgCode => st.epsg_code.is_some(),
            HeaderField::LatMin => st.lat_min.is_some(),
            HeaderField::LatMax => st.lat_max.is_some(),
            HeaderField::NorthMin => st.north_min.is_some(),
            HeaderField::NorthMax => st.north_max.is_some(),
            HeaderField::LonMin => st.lon_min.is_some(),
            HeaderField::LonMax => st.lon_max.is_some(),
            HeaderField::EastMin => st.east_min.is_some(),
            HeaderField::EastMax => st.east_max.is_some(),
            HeaderField::DeltaLat => st.delta_lat.is_some(),
            HeaderField::DeltaLon => st.delta_lon.is_some(),
            HeaderField::DeltaNorth => st.delta_north.is_some(),
            HeaderField::DeltaEast => st.delta_east.is_some(),
            HeaderField::NRows => st.nrows.is_some(),
            HeaderField::NCols => st.ncols.is_some(),
            HeaderField::NoData => st.nodata.is_some(),
            HeaderField::CreationDate => st.creation_date.is_some(),
            HeaderField::IsgFormat => st.isg_format.is_some(),
        };
        proof {
            assert(dup == (store_get(m0, f) is Some));
        }
        if dup {
            return Err(ParseError::dup_header(f, k.start, k.end, lineno));
        }
        let ghost vm = token_view(&v);
        match f {
            HeaderField::ModelName => st.model_name = Some(v),
            HeaderField::ModelYear => st.model_year = Some(v),
            HeaderField::ModelType => st.model_type = Some(v),
            HeaderField::DataType => st.data_type = Some(v),
            HeaderField::DataUnits => st.data_units = Some(v),
            HeaderField::DataFormat => st.data_format = Some(v),
            HeaderField::DataOrdering => st.data_ordering = Some(v),
            HeaderField::RefEllipsoid => st.ref_ellipsoid = Some(v),
            HeaderField::RefFrame => st.ref_frame = Some(v),
            HeaderField::HeightDatum => st.height_datum = Some(v),
            HeaderField::TideSystem => st.tide_system = Some(v),
            HeaderField::CoordType => st.coord_type = Some(v),
            HeaderField::CoordUnits => st.coord_units = Some(v),
            HeaderField::MapProjection => st.map_projection = Some(v),
            HeaderField::EpsgCode => st.epsg_code = Some(v),
            HeaderField::LatMin => st.lat_min = Some(v),
            HeaderField::LatMax => st.lat_max = Some(v),
            HeaderField::NorthMin => st.north_min = Some(v),
            HeaderField::NorthMax => st.north_max = Some(v),
            HeaderField::LonMin => st.lon_min = Some(v),
            HeaderField::LonMax => st.lon_max = Some(v),
            HeaderField::EastMin => st.east_min = Some(v),
            HeaderField::EastMax => st.east_max = Some(v),
            HeaderField::DeltaLat => st.delta_lat = Some(v),
            HeaderField::DeltaLon => st.delta_lon = Some(v),
            HeaderField::DeltaNorth => st.delta_north = Some(v),
            HeaderField::DeltaEast => st.delta_east = Some(v),
            HeaderField::NRows => st.nrows = Some(v),
            HeaderField::NCols => st.ncols = Some(v),
            HeaderField::NoData => st.nodata = Some(v),
            HeaderField::CreationDate => st.creation_date = Some(v),
            HeaderField::IsgFormat => st.isg_format = Some(v),
        }
        proof {
            assert(store_view(&st) == store_set(m0, f, vm));
        }
        idx = idx + 1;
    }
    Err(ParseError::missing_eoh())
}

/// A free-text field: absent, the placeholder, or the kept text.
pub open spec fn spec_str_field(t: Option<TokenModel>) -> Option<Seq<char>> {
    match t {
        None => None,
        Some(tok) => if tok.value == "---"@ {
            None
        } else {
            Some(tok.value)
        },
    }
}

/// Reads a free-text field.
fn get_str_field(t: &Option<Token>) -> (r: Option<String>)
    ensures
        opt_str_view(r) == spec_str_field(opt_token_view(*t)),
{
    match t {
        None => None,
        Some(tok) => {
            if chars_eq(tok.value.as_slice(), "---") {
                None
            } else {
                let s = chars_to_string(tok.value.as_slice(), 0, tok.value.len());
                proof {
                    assert(s@ =~= tok.value@);
                }
                Some(s)
            }
        },
    }
}

/// An optional enumerated field: absent or the placeholder give `None`,
/// a value must parse under `p`, and a failure carries the field and the
/// offending text.
pub open spec fn spec_opt_field<T>(
    t: Option<TokenModel>,
    kind: HeaderField,
    p: spec_fn(Seq<char>) -> Option<T>,
) -> Result<Option<T>, ErrModel> {
    match t {
        None => Ok(None),
        Some(tok) => if tok.value == "---"@ {
            Ok(None)
        } else {
            match p(tok.value) {
                Some(x) => Ok(Some(x)),
                None => Err(
                    ErrModel::InvalidHeaderValue {
                        kind,
                        value: tok.value,
                        span: (tok.start, tok.end),
                        lineno: tok.lineno,
                    },
                ),
            }
        },
    }
}

/// The invalid-value error for a token under the given field.
fn invalid_value_err(kind: HeaderField, tok: &Token) -> (r: ParseError)
    ensures
        err_matches(
            r,
            ErrModel::InvalidHeaderValue {
                kind,
                value: tok.value@,
                span: (tok.start as int, tok.end as int),
                lineno: tok.lineno as int,
            },
        ),
{
    let value = chars_to_string(tok.value.as_slice(), 0, tok.value.len());
    proof {
        assert(value@ =~= tok.value@);
    }
    ParseError::invalid_header_value(kind, value, tok.start, tok.end, tok.lineno)
}

/// A required bounds coordinate: it must be present, parse as a
/// coordinate, and match the declared `coord units`.
pub open spec fn spec_req_coord(t: Option<TokenModel>, kind: HeaderField, cu: CoordUnits) -> Result<
    Coord,
    ErrModel,
> {
    match t {
        None => Err(ErrModel::MissingHeaderKey { kind }),
        Some(tok) => match spec_parse_coord(tok.value) {
            Some(c) => if spec_units_match(cu, c) {
                Ok(c)
            } else {
                Err(
                    ErrModel::InvalidHeaderValue {
                        kind,
                        value: tok.value,
                        span: (tok.start, tok.end),
                        lineno: tok.lineno,
                    },
                )
            },
            None => Err(
                ErrModel::InvalidHeaderValue {
                    kind,
                    value: tok.value,
                    span: (tok.start, tok.end),
                    lineno: tok.lineno,
                },
            ),
        },
    }
}

/// Reads a required bounds coordinate.
fn req_coord(t: &Option<Token>, kind: HeaderField, cu: CoordUnits) -> (r: Result<Coord, ParseError>)
    ensures
        match r {
            Ok(c) => spec_req_coord(opt_token_view(*t), kind, cu) == Ok::<_, ErrModel>(c),
            Err(e) => (spec_req_coord(opt_token_view(*t), kind, cu) matches Err(m) && err_matches(
                e,
                m,
            )),
        },
{
    match t {
        None => Err(ParseError::missing_header(kind)),
        Some(tok) => match parse_coord(tok.value.as_slice()) {
            Some(c) => {
                if cu.check(&c) {
                    Ok(c)
                } else {
                    Err(invalid_value_err(kind, tok))
                }
            },
            None => Err(invalid_value_err(kind, tok)),
        },
    }
}

/// A sparse delta field: it may be absent or hold the placeholder, and
/// anything else is an invalid value.
pub open spec fn spec_sparse_delta(t: Option<TokenModel>, kind: HeaderField) -> Result<
    (),
    ErrModel,
> {
    match t {
        None => Ok(()),
        Some(tok) => if tok.value != "---"@ {
            Err(
                ErrModel::InvalidHeaderValue {
                    kind,
                    value: tok.value,
                    span: (tok.start, tok.end),
                    lineno: tok.lineno,
                },
            )
        } else {
            Ok(())
        },
    }
}

/// The exclusivity error against a present slot of the other coordinate
/// system, if any.
pub open spec fn spec_excl(t: Option<TokenModel>, key: HeaderField, ct: CoordType) -> Option<
    ErrModel,
> {
    match t {
        Some(tok) => Some(
            ErrModel::InvalidDataBounds { key, coord_type: ct, lineno: tok.lineno },
        ),
        None => None,
    }
}

/// Under `geodetic`, the first projected-only key that is present, as an
/// error.
pub open spec fn spec_geodetic_excl(m: StoreModel) -> Option<ErrModel> {
    let ct = CoordType::Geodetic;
    match spec_excl(m.north_min, HeaderField::NorthMin, ct) {
        Some(e) => Some(e),
        None => match spec_excl(m.north_max, HeaderField::NorthMax, ct) {
            Some(e) => Some(e),
            None => match spec_excl(m.east_min, HeaderField::EastMin, ct) {
                Some(e) => Some(e),
                None => match spec_excl(m.east_max, HeaderField::EastMax, ct) {
                    Some(e) => Some(e),
                    None => match spec_excl(m.delta_north, HeaderField::DeltaNorth, ct) {
                        Some(e) => Some(e),
                        None => spec_excl(m.delta_east, HeaderField::DeltaEast, ct),
                    },
                },
            },
        },
    }
}

/// Under `projected`, the first geodetic-only key that is present, as an
/// error.
pub open spec fn spec_projected_excl(m: StoreModel) -> Option<ErrModel> {
    let ct = CoordType::Projected;
    match spec_excl(m.lat_min, HeaderField::LatMin, ct) {
        Some(e) => Some(e),
        None => match spec_excl(m.lat_max, HeaderField::LatMax, ct) {
            Some(e) => Some(e),
            None => match spec_excl(m.lon_min, HeaderField::LonMin, ct) {
                Some(e) => Some(e),
                None => match spec_excl(m.lon_max, HeaderField::LonMax, ct) {
                    Some(e) => Some(e),
                    None => match spec_excl(m.delta_lat, HeaderField::DeltaLat, ct) {
                        Some(e) => Some(e),
                        None => spec_excl(m.delta_lon, HeaderField::DeltaLon, ct),
                    },
                },
            },
        },
    }
}

/// Resolving the bounds under `coord type = geodetic`: no projected key
/// may be present; the four geodetic bounds are required; a grid needs
/// both deltas, a sparse set allows each delta only as the placeholder,
/// the latitude delta checked first.
pub open spec fn spec_bounds_geodetic(m: StoreModel, df: DataFormat, cu: CoordUnits) -> Result<
    DataBounds,
    ErrModel,
> {
    match spec_geodetic_excl(m) {
        Some(e) => Err(e),
        None => {
        match spec_req_coord(m.lat_min, HeaderField::LatMin, cu) {
            Err(e) => Err(e),
            Ok(lat_min) => match spec_req_coord(m.lat_max, HeaderField::LatMax, cu) {
                Err(e) => Err(e),
                Ok(lat_max) => match spec_req_coord(m.lon_min, HeaderField::LonMin, cu) {
                    Err(e) => Err(e),
                    Ok(lon_min) => match spec_req_coord(m.lon_max, HeaderField::LonMax, cu) {
                        Err(e) => Err(e),
                        Ok(lon_max) => match df {
                            DataFormat::Grid => match spec_req_coord(
                                m.delta_lat,
                                HeaderField::DeltaLat,
                                cu,
                            ) {
                                Err(e) => Err(e),
                                Ok(delta_lat) => match spec_req_coord(
                                    m.delta_lon,
                                    HeaderField::DeltaLon,
                                    cu,
                                ) {
                                    Err(e) => Err(e),
                                    Ok(delta_lon) => Ok(
                                        DataBounds::GridGeodetic {
                                            lat_min,
                                            lat_max,
                                            lon_min,
                                            lon_max,
                                            delta_lat,
                                            delta_lon,
                                        },
                                    ),
                                },
                            },
                            DataFormat::Sparse => {
                                match spec_sparse_delta(m.delta_lat, HeaderField::DeltaLat) {
                                    Err(e) => Err(e),
                                    Ok(_) => match spec_sparse_delta(
                                        m.delta_lon,
                                        HeaderField::DeltaLon,
                                    ) {
                                        Err(e) => Err(e),
                                        Ok(_) => Ok(
                                            DataBounds::SparseGeodetic {
                                                lat_min,
                                                lat_max,
                                                lon_min,
                                                lon_max,
                                            },
                                        ),
                                    },
                                }
                            },
                        },
                    },
                },
            },
        }
        },
    }
}

/// Resolving the bounds under `coord type = projected`, symmetric to the
/// geodetic case.
pub open spec fn spec_bounds_projected(m: StoreModel, df: DataFormat, cu: CoordUnits) -> Result<
    DataBounds,
    ErrModel,
> {
    match spec_projected_excl(m) {
        Some(e) => Err(e),
        None => {
        match spec_req_coord(m.north_min, HeaderField::NorthMin, cu) {
            Err(e) => Err(e),
            Ok(north_min) => match spec_req_coord(m.north_max, HeaderField::NorthMax, cu) {
                Err(e) => Err(e),
                Ok(north_max) => match spec_req_coord(m.east_min, HeaderField::EastMin, cu) {
                    Err(e) => Err(e),
                    Ok(east_min) => match spec_req_coord(m.east_max, HeaderField::EastMax, cu) {
                        Err(e) => Err(e),
                        Ok(east_max) => match df {
                            DataFormat::Grid => match spec_req_coord(
                                m.delta_north,
                                HeaderField::DeltaNorth,
                                cu,
                            ) {
                                Err(e) => Err(e),
                                Ok(delta_north) => match spec_req_coord(
                                    m.delta_east,
                                    HeaderField::DeltaEast,
                                    cu,
                                ) {
                                    Err(e) => Err(e),
                                    Ok(delta_east) => Ok(
                                        DataBounds::GridProjected {
                                            north_min,
                                            north_max,
                                            east_min,
                                            east_max,
                                            delta_north,
                                            delta_east,
                                        },
                                    ),
                                },
                            },
                            DataFormat::Sparse => {
                                match spec_sparse_delta(m.delta_north, HeaderField::DeltaNorth) {
                                    Err(e) => Err(e),
                                    Ok(_) => match spec_sparse_delta(
                                        m.delta_east,
                                        HeaderField::DeltaEast,
                                    ) {
                                        Err(e) => Err(e),
                                        Ok(_) => Ok(
                                            DataBounds::SparseProjected {
                                                north_min,
                                                north_max,
                                                east_min,
                                                east_max,
                                            },
                                        ),
                                    },
                                }
                            },
                        },
                    },
                },
            },
        }
        },
    }
}

/// Resolves the bounds under `coord type = geodetic`.
fn bounds_geodetic(st: &HeaderStore, df: DataFormat, cu: CoordUnits) -> (r: Result<
    DataBounds,
    ParseError,
>)
    ensures
        match r {
            Ok(db) => spec_bounds_geodetic(store_view(st), df, cu) == Ok::<_, ErrModel>(db),
            Err(e) => (spec_bounds_geodetic(store_view(st), df, cu) matches Err(m) && err_matches(
                e,
                m,
            )),
        },
{
    let ct = CoordType::Geodetic;
    if let Some(t) = &st.north_min {
        return Err(ParseError::invalid_data_bounds(HeaderField::NorthMin, ct, t.lineno));
    }
    if let Some(t) = &st.north_max {
        return Err(ParseError::invalid_data_bounds(HeaderField::NorthMax, ct, t.lineno));
    }
    if let Some(t) = &st.east_min {
        return Err(ParseError::invalid_data_bounds(HeaderField::EastMin, ct, t.lineno));
    }
    if let Some(t) = &st.east_max {
        return Err(ParseError::invalid_data_bounds(HeaderField::EastMax, ct, t.lineno));
    }
    if let Some(t) = &st.delta_north {
        return Err(ParseError::invalid_data_bounds(HeaderField::DeltaNorth, ct, t.lineno));
    }
    if let Some(t) = &st.delta_east {
        return Err(ParseError::invalid_data_bounds(HeaderField::DeltaEast, ct, t.lineno));
    }
    let lat_min = req_coord(&st.lat_min, HeaderField::LatMin, cu)?;
    let lat_max = req_coord(&st.lat_max, HeaderField::LatMax, cu)?;
    let lon_min = req_coord(&st.lon_min, HeaderField::LonMin, cu)?;
    let lon_max = req_coord(&st.lon_max, HeaderField::LonMax, cu)?;
    match df {
        DataFormat::Grid => {
            let delta_lat = req_coord(&st.delta_lat, HeaderField::DeltaLat, cu)?;
            let delta_lon = req_coord(&st.delta_lon, HeaderField::DeltaLon, cu)?;
            Ok(DataBounds::GridGeodetic { lat_min, lat_max, lon_min, lon_max, delta_lat, delta_lon })
        },
        DataFormat::Sparse => {
            if let Some(t) = &st.delta_lat {
                if !chars_eq(t.value.as_slice(), "---") {
                    return Err(invalid_value_err(HeaderField::DeltaLat, t));
                }
            }
            if let Some(t) = &st.delta_lon {
                if !chars_eq(t.value.as_slice(), "---") {
                    return Err(invalid_value_err(HeaderField::DeltaLon, t));
                }
            }
            Ok(DataBounds::SparseGeodetic { lat_min, lat_max, lon_min, lon_max })
        },
    }
}

/// Resolves the bounds under `coord type = projected`.
fn bounds_projected(st: &HeaderStore, df: DataFormat, cu: CoordUnits) -> (r: Result<
    DataBounds,
    ParseError,
>)
    ensures
        match r {
            Ok(db) => spec_bounds_projected(store_view(st), df, cu) == Ok::<_, ErrModel>(db),
            Err(e) => (spec_bounds_projected(store_view(st), df, cu) matches Err(m) && err_matches(
                e,
                m,
            )),
        },
{
    let ct = CoordType::Projected;
    if let Some(t) = &st.lat_min {
        return Err(ParseError::invalid_data_bounds(HeaderField::LatMin, ct, t.lineno));
    }
    if let Some(t) = &st.lat_max {
        return Err(ParseError::invalid_data_bounds(HeaderField::LatMax, ct, t.lineno));
    }
    if let Some(t) = &st.lon_min {
        return Err(ParseError::invalid_data_bounds(HeaderField::LonMin, ct, t.lineno));
    }
    if let Some(t) = &st.lon_max {
        return Err(ParseError::invalid_data_bounds(HeaderField::LonMax, ct, t.lineno));
    }
    if let Some(t) = &st.delta_lat {
        return Err(ParseError::invalid_data_bounds(HeaderField::DeltaLat, ct, t.lineno));
    }
    if let Some(t) = &st.delta_lon {
        return Err(ParseError::invalid_data_bounds(HeaderField::DeltaLon, ct, t.lineno));
    }
    let north_min = req_coord(&st.north_min, HeaderField::NorthMin, cu)?;
    let north_max = req_coord(&st.north_max, HeaderField::NorthMax, cu)?;
    let east_min = req_coord(&st.east_min, HeaderField::EastMin, cu)?;
    let east_max = req_coord(&st.east_max, HeaderField::EastMax, cu)?;
    match df {
        DataFormat::Grid => {
            let delta_north = req_coord(&st.delta_north, HeaderField::DeltaNorth, cu)?;
            let delta_east = req_coord(&st.delta_east, HeaderField::DeltaEast, cu)?;
            Ok(
                DataBounds::GridProjected {
                    north_min,
                    north_max,
                    east_min,
                    east_max,
                    delta_north,
                    delta_east,
                },
            )
        },
        DataFormat::Sparse => {
            if let Some(t) = &st.delta_north {
                if !chars_eq(t.value.as_slice(), "---") {
                    return Err(invalid_value_err(HeaderField::DeltaNorth, t));
                }
            }
            if let Some(t) = &st.delta_east {
                if !chars_eq(t.value.as_slice(), "---") {
                    return Err(invalid_value_err(HeaderField::DeltaEast, t));
                }
            }
            Ok(DataBounds::SparseProjected { north_min, north_max, east_min, east_max })
        },
    }
}

/// Assembling the header from the filled store, in the order the fields
/// are checked: the format version literal, the three required
/// vocabulary fields, the bounds, the optional vocabulary fields, the
/// counts, the `nodata` sentinel and the creation date.
pub open spec fn spec_finalize(m: StoreModel) -> Result<HeaderModel, ErrModel> {
    match m.isg_format {
        None => Err(ErrModel::MissingHeaderKey { kind: HeaderField::IsgFormat }),
        Some(ft) => if ft.value != "2.0"@ {
            Err(
                ErrModel::InvalidHeaderValue {
                    kind: HeaderField::IsgFormat,
                    value: ft.value,
                    span: (ft.start, ft.end),
                    lineno: ft.lineno,
                },
            )
        } else {
            match m.data_format {
                None => Err(ErrModel::MissingHeaderKey { kind: HeaderField::DataFormat }),
                Some(dft) => match spec_parse_data_format(dft.value) {
                    None => Err(
                        ErrModel::InvalidHeaderValue {
                            kind: HeaderField::DataFormat,
                            value: dft.value,
                            span: (dft.start, dft.end),
                            lineno: dft.lineno,
                        },
                    ),
                    Some(df) => match m.coord_type {
                        None => Err(ErrModel::MissingHeaderKey { kind: HeaderField::CoordType }),
                        Some(ctt) => match spec_parse_coord_type(ctt.value) {
                            None => Err(
                                ErrModel::InvalidHeaderValue {
                                    kind: HeaderField::CoordType,
                                    value: ctt.value,
                                    span: (ctt.start, ctt.end),
                                    lineno: ctt.lineno,
                                },
                            ),
                            Some(ct) => match m.coord_units {
                                None => Err(
                                    ErrModel::MissingHeaderKey { kind: HeaderField::CoordUnits },
                                ),
                                Some(cut) => match spec_parse_coord_units(cut.value) {
                                    None => Err(
                                        ErrModel::InvalidHeaderValue {
                                            kind: HeaderField::CoordUnits,
                                            value: cut.value,
                                            span: (cut.start, cut.end),
                                            lineno: cut.lineno,
                                        },
                                    ),
                                    Some(cu) => match (match ct {
                                        CoordType::Geodetic => spec_bounds_geodetic(m, df, cu),
                                        CoordType::Projected => spec_bounds_projected(m, df, cu),
                                    }) {
                                        Err(e) => Err(e),
                                        Ok(db) => spec_finalize_rest(m, df, ct, cu, db, ft.value),
                                    },
                                },
                            },
                        },
                    },
                },
            }
        },
    }
}

/// The tail of header assembly: the optional vocabulary fields in their
/// order, then `nrows`, `ncols`, `nodata` and `creation date`.
pub open spec fn spec_finalize_rest(
    m: StoreModel,
    df: DataFormat,
    ct: CoordType,
    cu: CoordUnits,
    db: DataBounds,
    fmt: Seq<char>,
) -> Result<HeaderModel, ErrModel> {
    match spec_opt_field(m.model_type, HeaderField::ModelType, |s: Seq<char>| spec_parse_model_type(s)) {
        Err(e) => Err(e),
        Ok(model_type) => match spec_opt_field(m.data_type, HeaderField::DataType, |s: Seq<char>| spec_parse_data_type(s)) {
            Err(e) => Err(e),
            Ok(data_type) => match spec_opt_field(m.data_units, HeaderField::DataUnits, |s: Seq<char>| spec_parse_data_units(s)) {
                Err(e) => Err(e),
                Ok(data_units) => match spec_opt_field(m.data_ordering, HeaderField::DataOrdering, |s: Seq<char>| spec_parse_data_ordering(s)) {
                    Err(e) => Err(e),
                    Ok(data_ordering) => match spec_opt_field(m.tide_system, HeaderField::TideSystem, |s: Seq<char>| spec_parse_tide_system(s)) {
                        Err(e) => Err(e),
                        Ok(tide_system) => match m.nrows {
                            None => Err(ErrModel::MissingHeaderKey { kind: HeaderField::NRows }),
                            Some(nrt) => match spec_parse_uint(nrt.value, usize::MAX as nat) {
                                None => Err(
                                    ErrModel::InvalidHeaderValue {
                                        kind: HeaderField::NRows,
                                        value: nrt.value,
                                        span: (nrt.start, nrt.end),
                                        lineno: nrt.lineno,
                                    },
                                ),
                                Some(nrows) => match m.ncols {
                                    None => Err(
                                        ErrModel::MissingHeaderKey { kind: HeaderField::NCols },
                                    ),
                                    Some(nct) => match spec_parse_uint(nct.value, usize::MAX as nat) {
                                        None => Err(
                                            ErrModel::InvalidHeaderValue {
                                                kind: HeaderField::NCols,
                                                value: nct.value,
                                                span: (nct.start, nct.end),
                                                lineno: nct.lineno,
                                            },
                                        ),
                                        Some(ncols) => match m.nodata {
                                            None => Err(
                                                ErrModel::MissingHeaderKey {
                                                    kind: HeaderField::NoData,
                                                },
                                            ),
                                            Some(ndt) => match (if ndt.value == "---"@ {
                                                Ok(None)
                                            } else {
                                                match spec_parse_dec(ndt.value) {
                                                    Some(d) => Ok(Some(d)),
                                                    None => Err(
                                                        ErrModel::InvalidHeaderValue {
                                                            kind: HeaderField::NoData,
                                                            value: ndt.value,
                                                            span: (ndt.start, ndt.end),
                                                            lineno: ndt.lineno,
                                                        },
                                                    ),
                                                }
                                            }) {
                                                Err(e) => Err(e),
                                                Ok(nodata) => match spec_opt_field(
                                                    m.creation_date,
                                                    HeaderField::CreationDate,
                                                    |s: Seq<char>| spec_parse_date(s),
                                                ) {
                                                    Err(e) => Err(e),
                                                    Ok(creation_date) => Ok(
                                                        HeaderModel {
                                                            model_name: spec_str_field(m.model_name),
                                                            model_year: spec_str_field(m.model_year),
                                                            model_type,
                                                            data_type,
                                                            data_units,
                                                            data_format: df,
                                                            data_ordering,
                                                            ref_ellipsoid: spec_str_field(m.ref_ellipsoid),
                                                            ref_frame: spec_str_field(m.ref_frame),
                                                            height_datum: spec_str_field(m.height_datum),
                                                            tide_system,
                                                            coord_type: ct,
                                                            coord_units: cu,
                                                            map_projection: spec_str_field(m.map_projection),
                                                            epsg_code: spec_str_field(m.epsg_code),
                                                            data_bounds: db,
                                                            nrows: nrows as int,
                                                            ncols: ncols as int,
                                                            nodata,
                                                            creation_date,
                                                            isg_format: fmt,
                                                        },
                                                    ),
                                                },
                                            },
                                        },
                                    },
                                },
                            },
                        },
                    },
                },
            },
        },
    }
}

/// Assembles the header from the filled store.
#[verifier::rlimit(100)]
fn finalize(st: &HeaderStore) -> (r: Result<Header, ParseError>)
    ensures
        match r {
            Ok(h) => spec_finalize(store_view(st)) == Ok::<_, ErrModel>(header_view(&h)),
            Err(e) => (spec_finalize(store_view(st)) matches Err(m) && err_matches(e, m)),
        },
{
    let ft = match &st.isg_format {
        None => {
            return Err(ParseError::missing_header(HeaderField::IsgFormat));
        },
        Some(t) => t,
    };
    if !chars_eq(ft.value.as_slice(), "2.0") {
        return Err(invalid_value_err(HeaderField::IsgFormat, ft));
    }
    let isg_format = chars_to_string(ft.value.as_slice(), 0, ft.value.len());
    proof {
        assert(isg_format@ =~= ft.value@);
    }
    let dft = match &st.data_format {
        None => {
            return Err(ParseError::missing_header(HeaderField::DataFormat));
        },
        Some(t) => t,
    };
    let data_format = match parse_data_format(dft.value.as_slice()) {
        None => {
            return Err(invalid_value_err(HeaderField::DataFormat, dft));
        },
        Some(x) => x,
    };
    let ctt = match &st.coord_type {
        None => {
            return Err(ParseError::missing_header(HeaderField::CoordType));
        },
        Some(t) => t,
    };
    let coord_type = match parse_coord_type(ctt.value.as_slice()) {
        None => {
            return Err(invalid_value_err(HeaderField::CoordType, ctt));
        },
        Some(x) => x,
    };
    let cut = match &st.coord_units {
        None => {
            return Err(ParseError::missing_header(HeaderField::CoordUnits));
        },
        Some(t) => t,
    };
    let coord_units = match parse_coord_units(cut.value.as_slice()) {
        None => {
            return Err(invalid_value_err(HeaderField::CoordUnits, cut));
        },
        Some(x) => x,
    };
    let data_bounds = match coord_type {
        CoordType::Geodetic => bounds_geodetic(st, data_format, coord_units)?,
        CoordType::Projected => bounds_projected(st, data_format, coord_units)?,
    };
    let model_type = match &st.model_type {
        None => None,
        Some(t) => {
            if chars_eq(t.value.as_slice(), "---") {
                None
            } else {
                match parse_model_type(t.value.as_slice()) {
                    Some(x) => Some(x),
                    None => {
                        return Err(invalid_value_err(HeaderField::ModelType, t));
                    },
                }
            }
        },
    };
    let data_type = match &st.data_type {
        None => None,
        Some(t) => {
            if chars_eq(t.value.as_slice(), "---") {
                None
            } else {
                match parse_data_type(t.value.as_slice()) {
                    Some(x) => Some(x),
                    None => {
                        return Err(invalid_value_err(HeaderField::DataType, t));
                    },
                }
            }
        },
    };
    let data_units = match &st.data_units {
        None => None,
        Some(t) => {
            if chars_eq(t.value.as_slice(), "---") {
                None
            } else {
                match parse_data_units(t.value.as_slice()) {
                    Some(x) => Some(x),
                    None => {
                        return Err(invalid_value_err(HeaderField::DataUnits, t));
                    },
                }
            }
        },
    };
    let data_ordering = match &st.data_ordering {
        None => None,
        Some(t) => {
            if chars_eq(t.value.as_slice(), "---") {
                None
            } else {
                match parse_data_ordering(t.value.as_slice()) {
                    Some(x) => Some(x),
                    None => {
                        return Err(invalid_value_err(HeaderField::DataOrdering, t));
                    },
                }
            }
        },
    };
    let tide_system = match &st.tide_system {
        None => None,
        Some(t) => {
            if chars_eq(t.value.as_slice(), "---") {
                None
            } else {
                match parse_tide_system(t.value.as_slice()) {
                    Some(x) => Some(x),
                    None => {
                        return Err(invalid_value_err(HeaderField::TideSystem, t));
                    },
                }
            }
        },
    };
    let nrows: usize = match &st.nrows {
        None => {
            return Err(ParseError::missing_header(HeaderField::NRows));
        },
        Some(t) => {
            match parse_uint(t.value.as_slice(), 0, t.value.len(), usize::MAX as u128) {
                Some(x) => {
                    proof {
                        assert(t.value@.subrange(0, t.value@.len() as int) =~= t.value@);
                    }
                    x as usize
                },
                None => {
                    proof {
                        assert(t.value@.subrange(0, t.value@.len() as int) =~= t.value@);
                    }
                    return Err(invalid_value_err(HeaderField::NRows, t));
                },
            }
        },
    };
    let ncols: usize = match &st.ncols {
        None => {
            return Err(ParseError::missing_header(HeaderField::NCols));
        },
        Some(t) => {
            match parse_uint(t.value.as_slice(), 0, t.value.len(), usize::MAX as u128) {
                Some(x) => {
                    proof {
                        assert(t.value@.subrange(0, t.value@.len() as int) =~= t.value@);
                    }
                    x as usize
                },
                None => {
                    proof {
                        assert(t.value@.subrange(0, t.value@.len() as int) =~= t.value@);
                    }
                    return Err(invalid_value_err(HeaderField::NCols, t));
                },
            }
        },
    };
    let nodata = match &st.nodata {
        None => {
            return Err(ParseError::missing_header(HeaderField::NoData));
        },
        Some(t) => {
            if chars_eq(t.value.as_slice(), "---") {
                None
            } else {
                match parse_dec(t.value.as_slice()) {
                    Some(d) => Some(d),
                    None => {
                        return Err(invalid_value_err(HeaderField::NoData, t));
                    },
                }
            }
        },
    };
    let creation_date = match &st.creation_date {
        None => None,
        Some(t) => {
            if chars_eq(t.value.as_slice(), "---") {
                None
            } else {
                match parse_date(t.value.as_slice()) {
                    Some(x) => Some(x),
                    None => {
                        return Err(invalid_value_err(HeaderField::CreationDate, t));
                    },
                }
            }
        },
    };
    let h = Header {
        model_name: get_str_field(&st.model_name),
        model_year: get_str_field(&st.model_year),
        model_type,
        data_type,
        data_units,
        data_format,
        data_ordering,
        ref_ellipsoid: get_str_field(&st.ref_ellipsoid),
        ref_frame: get_str_field(&st.ref_frame),
        height_datum: get_str_field(&st.height_datum),
        tide_system,
        coord_type,
        coord_units,
        map_projection: get_str_field(&st.map_projection),
        EPSG_code: get_str_field(&st.epsg_code),
        data_bounds,
        nrows,
        ncols,
        nodata,
        creation_date,
        ISG_format: isg_format,
    };
    Ok(h)
}

/// A line number capped at the largest machine value; only a document
/// whose line count exhausts the machine could reach the cap.
pub open spec fn spec_capped(x: int) -> int {
    if x <= usize::MAX {
        x
    } else {
        usize::MAX as int
    }
}

/// Reading one grid row's cells from index `i` on: every cell must parse
/// as a decimal, a cell equal to the `nodata` sentinel becomes absent,
/// and the count must be exactly `ncols`.
pub open spec fn spec_grid_row(
    cells: Seq<TokenModel>,
    i: int,
    ncols: int,
    nodata: Option<Dec>,
    lineno: int,
) -> Result<Seq<Option<Dec>>, ErrModel>
    decreases cells.len() - i,
{
    if i < 0 || i >= cells.len() {
        if i == ncols {
            Ok(Seq::empty())
        } else {
            Err(ErrModel::InvalidDataLength { long: false, row: false, expected: ncols, lineno })
        }
    } else if i >= ncols {
        Err(ErrModel::InvalidDataLength { long: true, row: false, expected: ncols, lineno })
    } else {
        match spec_parse_dec(cells[i].value) {
            None => Err(
                ErrModel::InvalidData {
                    value: cells[i].value,
                    span: (cells[i].start, cells[i].end),
                    lineno: cells[i].lineno,
                },
            ),
            Some(d) => {
                let cell: Option<Dec> = if nodata matches Some(nd) && nd == d {
                    None
                } else {
                    Some(d)
                };
                match spec_grid_row(cells, i + 1, ncols, nodata, lineno) {
                    Err(e) => Err(e),
                    Ok(rest) => Ok(seq![cell] + rest),
                }
            },
        }
    }
}

/// Reading the grid rows from line `idx` on: every remaining line is one
/// row, and the count must be exactly `nrows`.
pub open spec fn spec_grid_rows(
    lines: Seq<(int, Seq<char>)>,
    idx: int,
    rno: int,
    nrows: int,
    ncols: int,
    nodata: Option<Dec>,
    end_lineno: int,
) -> Result<Seq<Seq<Option<Dec>>>, ErrModel>
    decreases lines.len() - idx,
{
    if idx < 0 || idx >= lines.len() {
        if rno == nrows {
            Ok(Seq::empty())
        } else {
            Err(
                ErrModel::InvalidDataLength {
                    long: false,
                    row: true,
                    expected: nrows,
                    lineno: spec_capped(end_lineno + rno + 1),
                },
            )
        }
    } else if rno >= nrows {
        Err(
            ErrModel::InvalidDataLength {
                long: true,
                row: true,
                expected: nrows,
                lineno: end_lineno + rno + 1,
            },
        )
    } else {
        let lineno = end_lineno + rno + 1;
        match spec_grid_row(spec_cells_from(lines[idx].1, lineno, 0), 0, ncols, nodata, lineno) {
            Err(e) => Err(e),
            Ok(row) => match spec_grid_rows(lines, idx + 1, rno + 1, nrows, ncols, nodata, end_lineno) {
                Err(e) => Err(e),
                Ok(rest) => Ok(seq![row] + rest),
            },
        }
    }
}

/// A sparse row's coordinate cell: it must exist, parse as a coordinate
/// and match the declared `coord units`.
pub open spec fn spec_sparse_coord(
    cells: Seq<TokenModel>,
    i: int,
    cu: CoordUnits,
    ncols: int,
    lineno: int,
) -> Result<Coord, ErrModel> {
    if i >= cells.len() {
        Err(ErrModel::InvalidDataLength { long: false, row: false, expected: ncols, lineno })
    } else {
        match spec_parse_coord(cells[i].value) {
            Some(c) => if spec_units_match(cu, c) {
                Ok(c)
            } else {
                Err(
                    ErrModel::InvalidData {
                        value: cells[i].value,
                        span: (cells[i].start, cells[i].end),
                        lineno: cells[i].lineno,
                    },
                )
            },
            None => Err(
                ErrModel::InvalidData {
                    value: cells[i].value,
                    span: (cells[i].start, cells[i].end),
                    lineno: cells[i].lineno,
                },
            ),
        }
    }
}

/// Reading one sparse row: two coordinates matching `coord units`, one
/// decimal value, and nothing more.
pub open spec fn spec_sparse_row(
    cells: Seq<TokenModel>,
    cu: CoordUnits,
    ncols: int,
    lineno: int,
) -> Result<(Coord, Coord, Dec), ErrModel> {
    match spec_sparse_coord(cells, 0, cu, ncols, lineno) {
        Err(e) => Err(e),
        Ok(a) => match spec_sparse_coord(cells, 1, cu, ncols, lineno) {
            Err(e) => Err(e),
            Ok(b) => if 2 >= cells.len() {
                Err(ErrModel::InvalidDataLength { long: false, row: false, expected: ncols, lineno })
            } else {
                match spec_parse_dec(cells[2].value) {
                    None => Err(
                        ErrModel::InvalidData {
                            value: cells[2].value,
                            span: (cells[2].start, cells[2].end),
                            lineno: cells[2].lineno,
                        },
                    ),
                    Some(c) => if cells.len() > 3 {
                        Err(
                            ErrModel::InvalidDataLength {
                                long: true,
                                row: false,
                                expected: ncols,
                                lineno,
                            },
                        )
                    } else {
                        Ok((a, b, c))
                    },
                }
            },
        },
    }
}

/// Reading the sparse rows from line `idx` on.
pub open spec fn spec_sparse_rows(
    lines: Seq<(int, Seq<char>)>,
    idx: int,
    rno: int,
    nrows: int,
    ncols: int,
    cu: CoordUnits,
    end_lineno: int,
) -> Result<Seq<(Coord, Coord, Dec)>, ErrModel>
    decreases lines.len() - idx,
{
    if idx < 0 || idx >= lines.len() {
        if rno == nrows {
            Ok(Seq::empty())
        } else {
            Err(
                ErrModel::InvalidDataLength {
                    long: false,
                    row: true,
                    expected: nrows,
                    lineno: spec_capped(end_lineno + rno + 1),
                },
            )
        }
    } else if rno >= nrows {
        Err(
            ErrModel::InvalidDataLength {
                long: true,
                row: true,
                expected: nrows,
                lineno: end_lineno + rno + 1,
            },
        )
    } else {
        let lineno = end_lineno + rno + 1;
        match spec_sparse_row(spec_cells_from(lines[idx].1, lineno, 0), cu, ncols, lineno) {
            Err(e) => Err(e),
            Ok(row) => match spec_sparse_rows(lines, idx + 1, rno + 1, nrows, ncols, cu, end_lineno) {
                Err(e) => Err(e),
                Ok(rest) => Ok(seq![row] + rest),
            },
        }
    }
}

/// The image of grid rows.
pub open spec fn grid_views(rows: Seq<Vec<Option<Dec>>>) -> Seq<Seq<Option<Dec>>> {
    rows.map_values(|row: Vec<Option<Dec>>| row@)
}

/// Reads the grid data body.
#[verifier::rlimit(100)]
fn parse_data_grid(
    lines: &Vec<Line>,
    start: usize,
    nrows: usize,
    ncols: usize,
    nodata: &Option<Dec>,
) -> (r: Result<Vec<Vec<Option<Dec>>>, ParseError>)
    requires
        start <= lines@.len(),
    ensures
        match r {
            Ok(rows) => spec_grid_rows(
                line_views(lines@),
                start as int,
                0,
                nrows as int,
                ncols as int,
                *nodata,
                start as int,
            ) == Ok::<_, ErrModel>(grid_views(rows@)),
            Err(e) => (spec_grid_rows(
                line_views(lines@),
                start as int,
                0,
                nrows as int,
                ncols as int,
                *nodata,
                start as int,
            ) matches Err(m) && err_matches(e, m)),
        },
{
    let ghost lv = line_views(lines@);
    let mut rows: Vec<Vec<Option<Dec>>> = Vec::new();
    let mut idx: usize = start;
    while idx < lines.len()
        invariant
            start <= idx <= lines@.len(),
            lv == line_views(lines@),
            rows@.len() == idx - start,
            rows@.len() <= nrows,
            (match spec_grid_rows(lv, idx as int, idx - start, nrows as int, ncols as int, *nodata, start as int) {
                Ok(rest) => spec_grid_rows(lv, start as int, 0, nrows as int, ncols as int, *nodata, start as int)
                    == Ok::<Seq<Seq<Option<Dec>>>, ErrModel>(grid_views(rows@) + rest),
                Err(e) => spec_grid_rows(lv, start as int, 0, nrows as int, ncols as int, *nodata, start as int)
                    == Err::<Seq<Seq<Option<Dec>>>, ErrModel>(e),
            }),
        decreases lines@.len() - idx,
    {
        let rno = idx - start;
        proof {
            assert(lv[idx as int] == (lines@[idx as int].start as int, lines@[idx as int].text@));
        }
        if rno >= nrows {
            return Err(ParseError::too_long_data(DataDirection::Row, nrows, idx + 1));
        }
        let lineno = idx + 1;
        let cells = split_cells(&lines[idx], lineno);
        let ghost cv = token_views(cells@);
        let mut row: Vec<Option<Dec>> = Vec::new();
        let mut cno: usize = 0;
        while cno < cells.len()
            invariant
                cno <= cells@.len(),
                cv == token_views(cells@),
                row@.len() == cno,
                cno <= ncols,
                start <= idx < lines@.len(),
                rno == idx - start,
                rno < nrows,
                lineno == idx + 1,
                lv == line_views(lines@),
                cv == spec_cells_from(lines@[idx as int].text@, lineno as int, 0),
                rows@.len() == rno,
                (match spec_grid_rows(lv, idx as int, rno as int, nrows as int, ncols as int, *nodata, start as int) {
                    Ok(rest) => spec_grid_rows(lv, start as int, 0, nrows as int, ncols as int, *nodata, start as int)
                        == Ok::<Seq<Seq<Option<Dec>>>, ErrModel>(grid_views(rows@) + rest),
                    Err(e) => spec_grid_rows(lv, start as int, 0, nrows as int, ncols as int, *nodata, start as int)
                        == Err::<Seq<Seq<Option<Dec>>>, ErrModel>(e),
                }),
                (match spec_grid_row(cv, cno as int, ncols as int, *nodata, lineno as int) {
                    Ok(rest) => spec_grid_row(cv, 0, ncols as int, *nodata, lineno as int)
                        == Ok::<Seq<Option<Dec>>, ErrModel>(row@ + rest),
                    Err(e) => spec_grid_row(cv, 0, ncols as int, *nodata, lineno as int)
                        == Err::<Seq<Option<Dec>>, ErrModel>(e),
                }),
            decreases cells@.len() - cno,
        {
            proof {
                assert(cv[cno as int] == token_view(&cells@[cno as int]));
                assert(lv[idx as int] == (lines@[idx as int].start as int, lines@[
                    idx as int].text@,
                ));
            }
            if cno >= ncols {
                return Err(ParseError::too_long_data(DataDirection::Column, ncols, lineno));
            }
            let tok = &cells[cno];
            let d = match parse_dec(tok.value.as_slice()) {
                Some(d) => d,
                None => {
                    let value = chars_to_string(tok.value.as_slice(), 0, tok.value.len());
                    proof {
                        assert(value@ =~= tok.value@);
                    }
                    return Err(ParseError::invalid_data(value, tok.start, tok.end, tok.lineno));
                },
            };
            let cell: Option<Dec> = match nodata {
                Some(nd) => {
                    if *nd == d {
                        None
                    } else {
                        Some(d)
                    }
                },
                None => Some(d),
            };
            let ghost before = row@;
            row.push(cell);
            proof {
                assert(before + (seq![cell] + spec_grid_row_rest(cv, cno + 1, ncols as int, *nodata, lineno as int)) =~= row@
                    + spec_grid_row_rest(cv, cno + 1, ncols as int, *nodata, lineno as int));
            }
            cno = cno + 1;
        }
        if cno != ncols {
            return Err(ParseError::too_short_data(DataDirection::Column, ncols, lineno));
        }
        proof {
            assert(row@ + Seq::<Option<Dec>>::empty() =~= row@);
        }
        let ghost before_rows = grid_views(rows@);
        let ghost rowv = row@;
        rows.push(row);
        proof {
            assert(grid_views(rows@) =~= before_rows + seq![rowv]);
            assert(before_rows + (seq![rowv] + spec_grid_rows_rest(lv, idx + 1, rno + 1, nrows as int, ncols as int, *nodata, start as int)) =~= grid_views(rows@)
                + spec_grid_rows_rest(lv, idx + 1, rno + 1, nrows as int, ncols as int, *nodata, start as int));
        }
        idx = idx + 1;
    }
    let rno = idx - start;
    if rno != nrows {
        let lineno = if idx < usize::MAX {
            idx + 1
        } else {
            idx
        };
        return Err(ParseError::too_short_data(DataDirection::Row, nrows, lineno));
    }
    proof {
        assert(grid_views(rows@) + Seq::<Seq<Option<Dec>>>::empty() =~= grid_views(rows@));
    }
    Ok(rows)
}

/// The rows a successful grid read from `idx` yields; meaningful only on
/// the successful path.
pub open spec fn spec_grid_rows_rest(
    lines: Seq<(int, Seq<char>)>,
    idx: int,
    rno: int,
    nrows: int,
    ncols: int,
    nodata: Option<Dec>,
    end_lineno: int,
) -> Seq<Seq<Option<Dec>>> {
    match spec_grid_rows(lines, idx, rno, nrows, ncols, nodata, end_lineno) {
        Ok(rest) => rest,
        Err(_) => Seq::empty(),
    }
}

/// The cells a successful row read from `i` yields; meaningful only on
/// the successful path.
pub open spec fn spec_grid_row_rest(
    cells: Seq<TokenModel>,
    i: int,
    ncols: int,
    nodata: Option<Dec>,
    lineno: int,
) -> Seq<Option<Dec>> {
    match spec_grid_row(cells, i, ncols, nodata, lineno) {
        Ok(rest) => rest,
        Err(_) => Seq::empty(),
    }
}

/// Reads the sparse data body.
#[verifier::rlimit(100)]
fn parse_data_sparse(
    lines: &Vec<Line>,
    start: usize,
    nrows: usize,
    ncols: usize,
    cu: CoordUnits,
) -> (r: Result<Vec<(Coord, Coord, Dec)>, ParseError>)
    requires
        start <= lines@.len(),
    ensures
        match r {
            Ok(rows) => spec_sparse_rows(
                line_views(lines@),
                start as int,
                0,
                nrows as int,
                ncols as int,
                cu,
                start as int,
            ) == Ok::<_, ErrModel>(rows@),
            Err(e) => (spec_sparse_rows(
                line_views(lines@),
                start as int,
                0,
                nrows as int,
                ncols as int,
                cu,
                start as int,
            ) matches Err(m) && err_matches(e, m)),
        },
{
    let ghost lv = line_views(lines@);
    let mut rows: Vec<(Coord, Coord, Dec)> = Vec::new();
    let mut idx: usize = start;
    while idx < lines.len()
        invariant
            start <= idx <= lines@.len(),
            lv == line_views(lines@),
            rows@.len() == idx - start,
            rows@.len() <= nrows,
            (match spec_sparse_rows(lv, idx as int, idx - start, nrows as int, ncols as int, cu, start as int) {
                Ok(rest) => spec_sparse_rows(lv, start as int, 0, nrows as int, ncols as int, cu, start as int)
                    == Ok::<Seq<(Coord, Coord, Dec)>, ErrModel>(rows@ + rest),
                Err(e) => spec_sparse_rows(lv, start as int, 0, nrows as int, ncols as int, cu, start as int)
                    == Err::<Seq<(Coord, Coord, Dec)>, ErrModel>(e),
            }),
        decreases lines@.len() - idx,
    {
        let rno = idx - start;
        proof {
            assert(lv[idx as int] == (lines@[idx as int].start as int, lines@[idx as int].text@));
        }
        if rno >= nrows {
            return Err(ParseError::too_long_data(DataDirection::Row, nrows, idx + 1));
        }
        let lineno = idx + 1;
        let cells = split_cells(&lines[idx], lineno);
        let ghost cv = token_views(cells@);
        proof {
            if cells@.len() > 0 {
                assert(cv[0] == token_view(&cells@[0]));
            }
            if cells@.len() > 1 {
                assert(cv[1] == token_view(&cells@[1]));
            }
            if cells@.len() > 2 {
                assert(cv[2] == token_view(&cells@[2]));
            }
        }
        let a = match sparse_coord(&cells, 0, cu, ncols, lineno) {
            Ok(c) => c,
            Err(e) => {
                return Err(e);
            },
        };
        let b = match sparse_coord(&cells, 1, cu, ncols, lineno) {
            Ok(c) => c,
            Err(e) => {
                return Err(e);
            },
        };
        if cells.len() <= 2 {
            return Err(ParseError::too_short_data(DataDirection::Column, ncols, lineno));
        }
        let tok = &cells[2];
        let c = match parse_dec(tok.value.as_slice()) {
            Some(d) => d,
            None => {
                let value = chars_to_string(tok.value.as_slice(), 0, tok.value.len());
                proof {
                    assert(value@ =~= tok.value@);
                }
                return Err(ParseError::invalid_data(value, tok.start, tok.end, tok.lineno));
            },
        };
        if cells.len() > 3 {
            return Err(ParseError::too_long_data(DataDirection::Column, ncols, lineno));
        }
        let ghost before = rows@;
        rows.push((a, b, c));
        proof {
            assert(before + (seq![(a, b, c)] + spec_sparse_rows_rest(lv, idx + 1, rno + 1, nrows as int, ncols as int, cu, start as int)) =~= rows@
                + spec_sparse_rows_rest(lv, idx + 1, rno + 1, nrows as int, ncols as int, cu, start as int));
        }
        idx = idx + 1;
    }
    let rno = idx - start;
    if rno != nrows {
        let lineno = if idx < usize::MAX {
            idx + 1
        } else {
            idx
        };
        return Err(ParseError::too_short_data(DataDirection::Row, nrows, lineno));
    }
    proof {
        assert(rows@ + Seq::<(Coord, Coord, Dec)>::empty() =~= rows@);
    }
    Ok(rows)
}

/// The rows a successful sparse read from `idx` yields; meaningful only
/// on the successful path.
pub open spec fn spec_sparse_rows_rest(
    lines: Seq<(int, Seq<char>)>,
    idx: int,
    rno: int,
    nrows: int,
    ncols: int,
    cu: CoordUnits,
    end_lineno: int,
) -> Seq<(Coord, Coord, Dec)> {
    match spec_sparse_rows(lines, idx, rno, nrows, ncols, cu, end_lineno) {
        Ok(rest) => rest,
        Err(_) => Seq::empty(),
    }
}

/// Reads one sparse coordinate cell.
fn sparse_coord(cells: &Vec<Token>, i: usize, cu: CoordUnits, ncols: usize, lineno: usize) -> (r:
    Result<Coord, ParseError>)
    ensures
        match r {
            Ok(c) => spec_sparse_coord(
                token_views(cells@),
                i as int,
                cu,
                ncols as int,
                lineno as int,
            ) == Ok::<_, ErrModel>(c),
            Err(e) => (spec_sparse_coord(
                token_views(cells@),
                i as int,
                cu,
                ncols as int,
                lineno as int,
            ) matches Err(m) && err_matches(e, m)),
        },
{
    if i >= cells.len() {
        return Err(ParseError::too_short_data(DataDirection::Column, ncols, lineno));
    }
    let tok = &cells[i];
    proof {
        assert(token_views(cells@)[i as int] == token_view(&cells@[i as int]));
    }
    match parse_coord(tok.value.as_slice()) {
        Some(c) => {
            if cu.check(&c) {
                Ok(c)
            } else {
                let value = chars_to_string(tok.value.as_slice(), 0, tok.value.len());
                proof {
                    assert(value@ =~= tok.value@);
                }
                Err(ParseError::invalid_data(value, tok.start, tok.end, tok.lineno))
            }
        },
        None => {
            let value = chars_to_string(tok.value.as_slice(), 0, tok.value.len());
            proof {
                assert(value@ =~= tok.value@);
            }
            Err(ParseError::invalid_data(value, tok.start, tok.end, tok.lineno))
        },
    }
}

/// The first line starting with the begin-of-header marker, from `idx`
/// on.
pub open spec fn spec_first_begin(lines: Seq<(int, Seq<char>)>, idx: int) -> Option<int>
    decreases lines.len() - idx,
{
    if idx < 0 || idx >= lines.len() {
        None
    } else if spec_starts_with(lines[idx].1, "begin_of_head"@) {
        Some(idx)
    } else {
        spec_first_begin(lines, idx + 1)
    }
}

/// Parsing a whole document: the comment is everything before the first
/// line starting with `begin_of_head`, the header lines are folded and
/// assembled, and the lines after the `end_of_head` line form the data
/// body, grid or sparse per the header's `data format`.
pub open spec fn spec_from_str(s: Seq<char>) -> Result<IsgModel, ErrModel> {
    let lines = spec_lines_from(s, 0);
    match spec_first_begin(lines, 0) {
        None => Err(ErrModel::MissingBeginOfHead),
        Some(b) => {
            let comment = s.subrange(0, lines[b].0);
            match spec_fold_header(lines, b + 1, store_empty()) {
                Err(e) => Err(e),
                Ok((store, end_idx)) => match spec_finalize(store) {
                    Err(e) => Err(e),
                    Ok(h) => match spec_body(lines, end_idx, h) {
                        Err(e) => Err(e),
                        Ok(d) => Ok(IsgModel { comment, header: h, data: d }),
                    },
                },
            }
        },
    }
}

/// Every line of a split starts within the split text.
proof fn lemma_lines_bounds(s: Seq<char>, pos: int)
    requires
        0 <= pos,
    ensures
        forall|k: int|
            0 <= k < spec_lines_from(s, pos).len() ==> pos <= (
            #[trigger] spec_lines_from(s, pos)[k]).0 <= s.len(),
    decreases s.len() - pos,
{
    if 0 <= pos < s.len() {
        match spec_find2(s, pos, s.len() as int, '\n', '\n') {
            None => {},
            Some(i) => {
                let next = if pos <= i < s.len() {
                    i + 1
                } else {
                    pos + 1
                };
                lemma_lines_bounds(s, next);
                let cur = spec_lines_from(s, pos);
                let rest = spec_lines_from(s, next);
                assert forall|k: int| 0 <= k < cur.len() implies pos <= (#[trigger] cur[k]).0
                    <= s.len() by {
                    if k > 0 {
                        assert(cur[k] == rest[k - 1]);
                    }
                }
            },
        }
    }
}

/// Reading the data body after the `end_of_head` line, grid or sparse
/// per the header's `data format`.
pub open spec fn spec_body(lines: Seq<(int, Seq<char>)>, end_idx: int, h: HeaderModel) -> Result<
    DataModel,
    ErrModel,
> {
    match h.data_format {
        DataFormat::Grid => match spec_grid_rows(
            lines,
            end_idx + 1,
            0,
            h.nrows,
            h.ncols,
            h.nodata,
            end_idx + 1,
        ) {
            Err(e) => Err(e),
            Ok(rows) => Ok(DataModel::Grid(rows)),
        },
        DataFormat::Sparse => match spec_sparse_rows(
            lines,
            end_idx + 1,
            0,
            h.nrows,
            h.ncols,
            h.coord_units,
            end_idx + 1,
        ) {
            Err(e) => Err(e),
            Ok(rows) => Ok(DataModel::Sparse(rows)),
        },
    }
}

/// Reads the data body after the `end_of_head` line.
fn parse_body(lines: &Vec<Line>, end_idx: usize, header: &Header) -> (r: Result<Data, ParseError>)
    requires
        end_idx < lines@.len(),
    ensures
        match r {
            Ok(d) => spec_body(line_views(lines@), end_idx as int, header_view(header))
                == Ok::<_, ErrModel>(data_view(&d)),
            Err(e) => (spec_body(line_views(lines@), end_idx as int, header_view(header))
                matches Err(m) && err_matches(e, m)),
        },
{
    let nlines = lines.len();
    proof {
        assert(lines@.len() == nlines as int);
    }
    match header.data_format {
        DataFormat::Grid => {
            let rows = parse_data_grid(
                lines,
                end_idx + 1,
                header.nrows,
                header.ncols,
                &header.nodata,
            )?;
            proof {
                assert(data_view(&Data::Grid(rows)) == DataModel::Grid(grid_views(rows@)));
            }
            Ok(Data::Grid(rows))
        },
        DataFormat::Sparse => {
            let rows = parse_data_sparse(
                lines,
                end_idx + 1,
                header.nrows,
                header.ncols,
                header.coord_units,
            )?;
            Ok(Data::Sparse(rows))
        },
    }
}

/// Finds the first line starting with the begin-of-header marker.
fn find_begin(lines: &Vec<Line>) -> (r: Option<usize>)
    ensures
        match r {
            Some(b) => spec_first_begin(line_views(lines@), 0) == Some(b as int) && b
                < lines@.len(),
            None => spec_first_begin(line_views(lines@), 0) is None,
        },
{
    let ghost lv = line_views(lines@);
    let mut b: usize = 0;
    while b < lines.len()
        invariant
            b <= lines@.len(),
            lv == line_views(lines@),
            spec_first_begin(lv, 0) == spec_first_begin(lv, b as int),
        decreases lines@.len() - b,
    {
        proof {
            assert(lv[b as int] == (lines@[b as int].start as int, lines@[b as int].text@));
        }
        if range_starts_with(lines[b].text.as_slice(), 0, "begin_of_head") {
            return Some(b);
        }
        b = b + 1;
    }
    None
}

/// Deserializes a whole ISG document.
#[verifier::rlimit(100)]
pub fn from_str(s: &str) -> (r: Result<ISG, ParseError>)
    ensures
        match r {
            Ok(isg) => (spec_from_str(s@) matches Ok(m) && isg_view(&isg) == m),
            Err(e) => (spec_from_str(s@) matches Err(m) && err_matches(e, m)),
        },
{
    let chars = str_to_chars(s);
    let lines = split_lines(chars.as_slice());
    let ghost lv = line_views(lines@);
    let begin: usize = match find_begin(&lines) {
        Some(b) => b,
        None => {
            return Err(ParseError::missing_boh());
        },
    };
    proof {
        lemma_lines_bounds(s@, 0);
        assert(lv[begin as int] == (lines@[begin as int].start as int, lines@[
            begin as int].text@,
        ));
    }
    let comment = crate::text::chars_to_string(chars.as_slice(), 0, lines[begin].start);
    let (store, end_idx) = fold_header(&lines, begin + 1)?;
    let header = finalize(&store)?;
    let data = parse_body(&lines, end_idx, &header)?;
    Ok(ISG { comment, header, data })
}

} // verus!
