//! Reader and writer for the ISG geodetic grid/point text format.
//!
//! The crate parses a complete ISG document held in memory into a typed
//! [`ISG`] value (`from_str`), renders it back to its exact textual layout
//! (`to_string`), and re-checks the structural invariants of an already
//! built document (`ISG::validate`).
//!
//! Decimal quantities (grid cells, the `nodata` sentinel, decimal
//! coordinates) are held as exact decimals in [`Dec`]: a sign, an integer
//! mantissa and a power-of-ten scale, kept in a normal form so that two
//! values compare equal exactly when they denote the same number.

use vstd::prelude::*;

pub use display::to_string;
pub use error::{ParseError, ParseValueError, ValidationError};
pub use parse::from_str;

pub mod arithm;
pub mod dec;
pub mod display;
pub mod error;
pub mod laws;
pub mod parse;
pub mod token;
pub mod text;
pub mod validation;
pub mod values;

verus! {

/// Value of `model type`.
#[derive(Debug, Eq, PartialEq, Clone, Copy, Structural)]
pub enum ModelType {
    Gravimetric,
    Geometric,
    Hybrid,
}

/// Value of `data type`.
#[derive(Debug, Eq, PartialEq, Clone, Copy, Structural)]
pub enum DataType {
    Geoid,
    QuasiGeoid,
}

/// Value of `data units`.
#[derive(Debug, Eq, PartialEq, Clone, Copy, Structural)]
pub enum DataUnits {
    Meters,
    Feet,
}

/// Value of `data format`.
#[derive(Debug, Eq, PartialEq, Clone, Copy, Structural)]
pub enum DataFormat {
    Grid,
    Sparse,
}

/// Value of `data ordering`.
#[derive(Debug, Eq, PartialEq, Clone, Copy, Structural)]
pub enum DataOrdering {
    N2SW2E,
    LatLonN,
    EastNorthN,
    N,
    Zeta,
}

/// Value of `tide system`.
#[derive(Debug, Eq, PartialEq, Clone, Copy, Structural)]
pub enum TideSystem {
    TideFree,
    MeanTide,
    ZeroTide,
}

/// Value of `coord type`.
#[derive(Debug, Eq, PartialEq, Clone, Copy, Structural)]
pub enum CoordType {
    Geodetic,
    Projected,
}

/// Value of `coord units`.
#[derive(Debug, Eq, PartialEq, Clone, Copy, Structural)]
pub enum CoordUnits {
    DMS,
    Deg,
    Meters,
    Feet,
}

/// An exact decimal number: `(-1)^neg * mant / 10^scale`.
///
/// A well-formed value ([`dec::dec_wf`]) is normalized: the mantissa keeps no
/// trailing zero while the scale is positive, zero is never negative and has
/// scale zero, and mantissa and scale stay within [`dec::MANT_LIMIT`] and
/// [`dec::SCALE_LIMIT`]. On normalized values, structural equality coincides
/// with numeric equality.
#[derive(Debug, Eq, PartialEq, Clone, Copy, Structural)]
pub struct Dec {
    pub neg: bool,
    pub mant: u128,
    pub scale: u32,
}

/// Value of `creation date`.
#[derive(Debug, Eq, PartialEq, Clone, Copy, Structural)]
pub struct CreationDate {
    pub year: u16,
    pub month: u8,
    pub day: u8,
}

impl CreationDate {
    /// Makes a new [`CreationDate`].
    pub fn new(year: u16, month: u8, day: u8) -> (r: Self)
        ensures
            r == (CreationDate { year, month, day }),
    {
        Self { year, month, day }
    }
}

/// A coordinate: sexagesimal degree/minutes/seconds, or a decimal value.
///
/// Which variant is legal at a given place is decided by the header's
/// `coord units`, not by this type. The grammar does not restrict minutes
/// and seconds to 0–59; only the width of their integer type bounds them,
/// as in the textual format itself.
#[derive(Debug, Eq, PartialEq, Clone, Copy, Structural)]
pub enum Coord {
    /// For `dms`.
    DMS { degree: i16, minutes: u8, second: u8 },
    /// For `deg`, `meters` and `feet`.
    Dec(Dec),
}

impl Coord {
    /// Makes a new [`Coord::DMS`].
    pub fn with_dms(degree: i16, minutes: u8, second: u8) -> (r: Self)
        ensures
            r == (Coord::DMS { degree, minutes, second }),
    {
        Self::DMS { degree, minutes, second }
    }

    /// Makes a new [`Coord::Dec`].
    pub fn with_dec(value: Dec) -> (r: Self)
        ensures
            r == Coord::Dec(value),
    {
        Self::Dec(value)
    }
}

/// Bounds and delta fields (`lat min` and the like), one variant per
/// combination of `data format` and `coord type`.
#[derive(Debug, Eq, PartialEq, Clone, Copy, Structural)]
pub enum DataBounds {
    GridGeodetic {
        lat_min: Coord,
        lat_max: Coord,
        lon_min: Coord,
        lon_max: Coord,
        delta_lat: Coord,
        delta_lon: Coord,
    },
    GridProjected {
        north_min: Coord,
        north_max: Coord,
        east_min: Coord,
        east_max: Coord,
        delta_north: Coord,
        delta_east: Coord,
    },
    SparseGeodetic {
        lat_min: Coord,
        lat_max: Coord,
        lon_min: Coord,
        lon_max: Coord,
    },
    SparseProjected {
        north_min: Coord,
        north_max: Coord,
        east_min: Coord,
        east_max: Coord,
    },
}

/// Header section of an ISG document.
#[derive(Debug, PartialEq, Clone)]
#[allow(non_snake_case)]
pub struct Header {
    pub model_name: Option<String>,
    pub model_year: Option<String>,
    pub model_type: Option<ModelType>,
    pub data_type: Option<DataType>,
    pub data_units: Option<DataUnits>,
    pub data_format: DataFormat,
    pub data_ordering: Option<DataOrdering>,
    pub ref_ellipsoid: Option<String>,
    pub ref_frame: Option<String>,
    pub height_datum: Option<String>,
    pub tide_system: Option<TideSystem>,
    pub coord_type: CoordType,
    pub coord_units: CoordUnits,
    pub map_projection: Option<String>,
    pub EPSG_code: Option<String>,
    pub data_bounds: DataBounds,
    pub nrows: usize,
    pub ncols: usize,
    pub nodata: Option<Dec>,
    pub creation_date: Option<CreationDate>,
    pub ISG_format: String,
}

/// Data section of an ISG document.
#[derive(Debug, PartialEq, Clone)]
pub enum Data {
    /// Grid data: rows of optional cells, a cell being absent where its
    /// literal equalled the header's `nodata` sentinel.
    Grid(Vec<Vec<Option<Dec>>>),
    /// Sparse data: one (coordinate, coordinate, value) triple per row.
    Sparse(Vec<(Coord, Coord, Dec)>),
}

impl Data {
    /// Returns the rows of [`Data::Grid`]; the precondition asks the
    /// caller to know the data is grid-shaped.
    pub fn grid_data(&self) -> (r: &Vec<Vec<Option<Dec>>>)
        requires
            self is Grid,
        ensures
            *r == self->Grid_0,
    {
        match self {
            Data::Grid(data) => data,
            Data::Sparse(_) => unreached(),
        }
    }

    /// Returns the triples of [`Data::Sparse`]; the caller must know the
    /// data is sparse-shaped.
    pub fn sparse_data(&self) -> (r: &Vec<(Coord, Coord, Dec)>)
        requires
            self is Sparse,
        ensures
            *r == self->Sparse_0,
    {
        match self {
            Data::Grid(_) => unreached(),
            Data::Sparse(data) => data,
        }
    }
}

/// A complete ISG document: comment preamble, header, data body.
#[derive(Debug, PartialEq, Clone)]
pub struct ISG {
    /// Comment section, the raw text before the header, kept verbatim.
    pub comment: String,
    /// Header section.
    pub header: Header,
    /// Data section.
    pub data: Data,
}

/// The mathematical image of an optional owned string.
pub open spec fn opt_str_view(o: Option<String>) -> Option<Seq<char>> {
    match o {
        Some(s) => Some(s@),
        None => None,
    }
}

/// The mathematical image of a header.
pub struct HeaderModel {
    pub model_name: Option<Seq<char>>,
    pub model_year: Option<Seq<char>>,
    pub model_type: Option<ModelType>,
    pub data_type: Option<DataType>,
    pub data_units: Option<DataUnits>,
    pub data_format: DataFormat,
    pub data_ordering: Option<DataOrdering>,
    pub ref_ellipsoid: Option<Seq<char>>,
    pub ref_frame: Option<Seq<char>>,
    pub height_datum: Option<Seq<char>>,
    pub tide_system: Option<TideSystem>,
    pub coord_type: CoordType,
    pub coord_units: CoordUnits,
    pub map_projection: Option<Seq<char>>,
    pub epsg_code: Option<Seq<char>>,
    pub data_bounds: DataBounds,
    pub nrows: int,
    pub ncols: int,
    pub nodata: Option<Dec>,
    pub creation_date: Option<CreationDate>,
    pub isg_format: Seq<char>,
}

/// The mathematical image of a header.
pub open spec fn header_view(h: &Header) -> HeaderModel {
    HeaderModel {
        model_name: opt_str_view(h.model_name),
        model_year: opt_str_view(h.model_year),
        model_type: h.model_type,
        data_type: h.data_type,
        data_units: h.data_units,
        data_format: h.data_format,
        data_ordering: h.data_ordering,
        ref_ellipsoid: opt_str_view(h.ref_ellipsoid),
        ref_frame: opt_str_view(h.ref_frame),
        height_datum: opt_str_view(h.height_datum),
        tide_system: h.tide_system,
        coord_type: h.coord_type,
        coord_units: h.coord_units,
        map_projection: opt_str_view(h.map_projection),
        epsg_code: opt_str_view(h.EPSG_code),
        data_bounds: h.data_bounds,
        nrows: h.nrows as int,
        ncols: h.ncols as int,
        nodata: h.nodata,
        creation_date: h.creation_date,
        isg_format: h.ISG_format@,
    }
}

/// The mathematical image of a data section.
pub enum DataModel {
    Grid(Seq<Seq<Option<Dec>>>),
    Sparse(Seq<(Coord, Coord, Dec)>),
}

/// The mathematical image of a data section.
pub open spec fn data_view(d: &Data) -> DataModel {
    match d {
        Data::Grid(g) => DataModel::Grid(g@.map_values(|row: Vec<Option<Dec>>| row@)),
        Data::Sparse(s) => DataModel::Sparse(s@),
    }
}

/// The mathematical image of a whole document.
pub struct IsgModel {
    pub comment: Seq<char>,
    pub header: HeaderModel,
    pub data: DataModel,
}

/// The mathematical image of a whole document.
pub open spec fn isg_view(g: &ISG) -> IsgModel {
    IsgModel { comment: g.comment@, header: header_view(&g.header), data: data_view(&g.data) }
}

} // verus!
