//! The value grammar: per-field parsing of the closed vocabularies, the
//! integer fields, the creation date and the dual-representation
//! coordinate.

use vstd::prelude::*;

use crate::{Coord, CoordType, CoordUnits, CreationDate, DataFormat, DataOrdering, DataType,
    DataUnits, ModelType, TideSystem};
use crate::dec::{spec_parse_dec, parse_dec};
use crate::text::{
    chars_eq, find2, parse_digits, spec_all_digits, spec_digits_val, spec_find2,
};

verus! {

/// `model type` vocabulary.
pub open spec fn spec_parse_model_type(s: Seq<char>) -> Option<ModelType> {
    if s == "gravimetric"@ {
        Some(ModelType::Gravimetric)
    } else if s == "geometric"@ {
        Some(ModelType::Geometric)
    } else if s == "hybrid"@ {
        Some(ModelType::Hybrid)
    } else {
        None
    }
}

/// Reads a `model type` value.
pub fn parse_model_type(v: &[char]) -> (r: Option<ModelType>)
    ensures
        r == spec_parse_model_type(v@),
{
    if chars_eq(v, "gravimetric") {
        Some(ModelType::Gravimetric)
    } else if chars_eq(v, "geometric") {
        Some(ModelType::Geometric)
    } else if chars_eq(v, "hybrid") {
        Some(ModelType::Hybrid)
    } else {
        None
    }
}

/// `data type` vocabulary.
pub open spec fn spec_parse_data_type(s: Seq<char>) -> Option<DataType> {
    if s == "geoid"@ {
        Some(DataType::Geoid)
    } else if s == "quasi-geoid"@ {
        Some(DataType::QuasiGeoid)
    } else {
        None
    }
}

/// Reads a `data type` value.
pub fn parse_data_type(v: &[char]) -> (r: Option<DataType>)
    ensures
        r == spec_parse_data_type(v@),
{
    if chars_eq(v, "geoid") {
        Some(DataType::Geoid)
    } else if chars_eq(v, "quasi-geoid") {
        Some(DataType::QuasiGeoid)
    } else {
        None
    }
}

/// `data units` vocabulary.
pub open spec fn spec_parse_data_units(s: Seq<char>) -> Option<DataUnits> {
    if s == "meters"@ {
        Some(DataUnits::Meters)
    } else if s == "feet"@ {
        Some(DataUnits::Feet)
    } else {
        None
    }
}

/// Reads a `data units` value.
pub fn parse_data_units(v: &[char]) -> (r: Option<DataUnits>)
    ensures
        r == spec_parse_data_units(v@),
{
    if chars_eq(v, "meters") {
        Some(DataUnits::Meters)
    } else if chars_eq(v, "feet") {
        Some(DataUnits::Feet)
    } else {
        None
    }
}

/// `data format` vocabulary.
pub open spec fn spec_parse_data_format(s: Seq<char>) -> Option<DataFormat> {
    if s == "grid"@ {
        Some(DataFormat::Grid)
    } else if s == "sparse"@ {
        Some(DataFormat::Sparse)
    } else {
        None
    }
}

/// Reads a `data format` value.
pub fn parse_data_format(v: &[char]) -> (r: Option<DataFormat>)
    ensures
        r == spec_parse_data_format(v@),
{
    if chars_eq(v, "grid") {
        Some(DataFormat::Grid)
    } else if chars_eq(v, "sparse") {
        Some(DataFormat::Sparse)
    } else {
        None
    }
}

/// `data ordering` vocabulary.
pub open spec fn spec_parse_data_ordering(s: Seq<char>) -> Option<DataOrdering> {
    if s == "N-to-S, W-to-E"@ {
        Some(DataOrdering::N2SW2E)
    } else if s == "lat, lon, N"@ {
        Some(DataOrdering::LatLonN)
    } else if s == "east, north, N"@ {
        Some(DataOrdering::EastNorthN)
    } else if s == "N"@ {
        Some(DataOrdering::N)
    } else if s == "zeta"@ {
        Some(DataOrdering::Zeta)
    } else {
        None
    }
}

/// Reads a `data ordering` value.
pub fn parse_data_ordering(v: &[char]) -> (r: Option<DataOrdering>)
    ensures
        r == spec_parse_data_ordering(v@),
{
    if chars_eq(v, "N-to-S, W-to-E") {
        Some(DataOrdering::N2SW2E)
    } else if chars_eq(v, "lat, lon, N") {
        Some(DataOrdering::LatLonN)
    } else if chars_eq(v, "east, north, N") {
        Some(DataOrdering::EastNorthN)
    } else if chars_eq(v, "N") {
        Some(DataOrdering::N)
    } else if chars_eq(v, "zeta") {
        Some(DataOrdering::Zeta)
    } else {
        None
    }
}

/// `tide system` vocabulary.
pub open spec fn spec_parse_tide_system(s: Seq<char>) -> Option<TideSystem> {
    if s == "tide-free"@ {
        Some(TideSystem::TideFree)
    } else if s == "mean-tide"@ {
        Some(TideSystem::MeanTide)
    } else if s == "zero-tide"@ {
        Some(TideSystem::ZeroTide)
    } else {
        None
    }
}

/// Reads a `tide system` value.
pub fn parse_tide_system(v: &[char]) -> (r: Option<TideSystem>)
    ensures
        r == spec_parse_tide_system(v@),
{
    if chars_eq(v, "tide-free") {
        Some(TideSystem::TideFree)
    } else if chars_eq(v, "mean-tide") {
        Some(TideSystem::MeanTide)
    } else if chars_eq(v, "zero-tide") {
        Some(TideSystem::ZeroTide)
    } else {
        None
    }
}

/// `coord type` vocabulary.
pub open spec fn spec_parse_coord_type(s: Seq<char>) -> Option<CoordType> {
    if s == "geodetic"@ {
        Some(CoordType::Geodetic)
    } else if s == "projected"@ {
        Some(CoordType::Projected)
    } else {
        None
    }
}

/// Reads a `coord type` value.
pub fn parse_coord_type(v: &[char]) -> (r: Option<CoordType>)
    ensures
        r == spec_parse_coord_type(v@),
{
    if chars_eq(v, "geodetic") {
        Some(CoordType::Geodetic)
    } else if chars_eq(v, "projected") {
        Some(CoordType::Projected)
    } else {
        None
    }
}

/// `coord units` vocabulary.
pub open spec fn spec_parse_coord_units(s: Seq<char>) -> Option<CoordUnits> {
    if s == "dms"@ {
        Some(CoordUnits::DMS)
    } else if s == "deg"@ {
        Some(CoordUnits::Deg)
    } else if s == "meters"@ {
        Some(CoordUnits::Meters)
    } else if s == "feet"@ {
        Some(CoordUnits::Feet)
    } else {
        None
    }
}

/// Reads a `coord units` value.
pub fn parse_coord_units(v: &[char]) -> (r: Option<CoordUnits>)
    ensures
        r == spec_parse_coord_units(v@),
{
    if chars_eq(v, "dms") {
        Some(CoordUnits::DMS)
    } else if chars_eq(v, "deg") {
        Some(CoordUnits::Deg)
    } else if chars_eq(v, "meters") {
        Some(CoordUnits::Meters)
    } else if chars_eq(v, "feet") {
        Some(CoordUnits::Feet)
    } else {
        None
    }
}

/// An unsigned numeral with an optional leading plus sign, bounded by
/// `max`.
pub open spec fn spec_parse_uint(s: Seq<char>, max: nat) -> Option<nat> {
    let t = if s.len() > 0 && s[0] == '+' {
        s.drop_first()
    } else {
        s
    };
    if t.len() > 0 && spec_all_digits(t) && spec_digits_val(t) <= max {
        Some(spec_digits_val(t))
    } else {
        None
    }
}

/// Reads `v[from..to]` as an unsigned numeral bounded by `max`.
pub fn parse_uint(v: &[char], from: usize, to: usize, max: u128) -> (r: Option<u128>)
    requires
        from <= to <= v@.len(),
    ensures
        match r {
            Some(x) => spec_parse_uint(v@.subrange(from as int, to as int), max as nat) == Some(
                x as nat,
            ) && x <= max,
            None => spec_parse_uint(v@.subrange(from as int, to as int), max as nat) is None,
        },
{
    let ghost s = v@.subrange(from as int, to as int);
    let start: usize = if from < to && v[from] == '+' {
        from + 1
    } else {
        from
    };
    proof {
        if start == from + 1 {
            assert(s.drop_first() =~= v@.subrange(start as int, to as int));
        } else {
            assert(s =~= v@.subrange(start as int, to as int));
        }
    }
    match parse_digits(v, start, to) {
        Some(x) => {
            if x <= max {
                Some(x)
            } else {
                None
            }
        },
        None => None,
    }
}

/// A signed numeral: an optional sign, then digits, with the value held
/// within `min..=max`.
pub open spec fn spec_parse_int(s: Seq<char>, min: int, max: int) -> Option<int> {
    if s.len() > 0 && s[0] == '-' {
        let t = s.drop_first();
        if t.len() > 0 && spec_all_digits(t) && -(spec_digits_val(t) as int) >= min {
            Some(-(spec_digits_val(t) as int))
        } else {
            None
        }
    } else {
        match spec_parse_uint(s, max as nat) {
            Some(x) => Some(x as int),
            None => None,
        }
    }
}

/// Reads `v[from..to]` as a signed numeral within `i16` range.
pub fn parse_i16(v: &[char], from: usize, to: usize) -> (r: Option<i16>)
    requires
        from <= to <= v@.len(),
    ensures
        match r {
            Some(x) => spec_parse_int(v@.subrange(from as int, to as int), i16::MIN as int, i16::MAX as int)
                == Some(x as int),
            None => spec_parse_int(v@.subrange(from as int, to as int), i16::MIN as int, i16::MAX as int)
                is None,
        },
{
    let ghost s = v@.subrange(from as int, to as int);
    if from < to && v[from] == '-' {
        proof {
            assert(s.drop_first() =~= v@.subrange(from + 1, to as int));
        }
        match parse_digits(v, from + 1, to) {
            Some(x) => {
                if x <= 32768 {
                    Some((-(x as i32)) as i16)
                } else {
                    None
                }
            },
            None => None,
        }
    } else {
        match parse_uint(v, from, to, 32767) {
            Some(x) => Some(x as i16),
            None => None,
        }
    }
}

/// The `creation date` grammar: exactly three `/`-separated integer
/// fields, day first.
pub open spec fn spec_parse_date(s: Seq<char>) -> Option<CreationDate> {
    let n = s.len() as int;
    match spec_find2(s, 0, n, '/', '/') {
        None => None,
        Some(i) => match spec_find2(s, i + 1, n, '/', '/') {
            None => None,
            Some(j) => if spec_find2(s, j + 1, n, '/', '/') is Some {
                None
            } else {
                let day = spec_parse_uint(s.subrange(0, i), u8::MAX as nat);
                let month = spec_parse_uint(s.subrange(i + 1, j), u8::MAX as nat);
                let year = spec_parse_uint(s.subrange(j + 1, n), u16::MAX as nat);
                if day is Some && month is Some && year is Some {
                    Some(
                        CreationDate {
                            year: year->0 as u16,
                            month: month->0 as u8,
                            day: day->0 as u8,
                        },
                    )
                } else {
                    None
                }
            },
        },
    }
}

/// Reads a `creation date` value.
pub fn parse_date(v: &[char]) -> (r: Option<CreationDate>)
    ensures
        r == spec_parse_date(v@),
{
    let n = v.len();
    let i = match find2(v, 0, n, '/', '/') {
        Some(i) => i,
        None => {
            return None;
        },
    };
    let j = match find2(v, i + 1, n, '/', '/') {
        Some(j) => j,
        None => {
            return None;
        },
    };
    if find2(v, j + 1, n, '/', '/').is_some() {
        return None;
    }
    let day = match parse_uint(v, 0, i, 255) {
        Some(x) => x,
        None => {
            return None;
        },
    };
    let month = match parse_uint(v, i + 1, j, 255) {
        Some(x) => x,
        None => {
            return None;
        },
    };
    let year = match parse_uint(v, j + 1, n, 65535) {
        Some(x) => x,
        None => {
            return None;
        },
    };
    Some(CreationDate { year: year as u16, month: month as u8, day: day as u8 })
}

/// The sexagesimal grammar: degree digits, the degree sign, minutes,
/// an apostrophe, seconds, a double quote, and nothing after it.
pub open spec fn spec_parse_dms(s: Seq<char>) -> Option<Coord> {
    let n = s.len() as int;
    match spec_find2(s, 0, n, '\u{b0}', '\u{b0}') {
        None => None,
        Some(i) => match spec_find2(s, i + 1, n, '\'', '\'') {
            None => None,
            Some(j) => match spec_find2(s, j + 1, n, '"', '"') {
                None => None,
                Some(k) => if k + 1 != n {
                    None
                } else {
                    let degree = spec_parse_int(s.subrange(0, i), i16::MIN as int, i16::MAX as int);
                    let minutes = spec_parse_uint(s.subrange(i + 1, j), u8::MAX as nat);
                    let second = spec_parse_uint(s.subrange(j + 1, k), u8::MAX as nat);
                    if degree is Some && minutes is Some && second is Some {
                        Some(
                            Coord::DMS {
                                degree: degree->0 as i16,
                                minutes: minutes->0 as u8,
                                second: second->0 as u8,
                            },
                        )
                    } else {
                        None
                    }
                },
            },
        },
    }
}

/// The coordinate grammar: a decimal numeral, or else the sexagesimal
/// form.
pub open spec fn spec_parse_coord(s: Seq<char>) -> Option<Coord> {
    match spec_parse_dec(s) {
        Some(d) => Some(Coord::Dec(d)),
        None => spec_parse_dms(s),
    }
}

/// Reads a coordinate value.
pub fn parse_coord(v: &[char]) -> (r: Option<Coord>)
    ensures
        r == spec_parse_coord(v@),
{
    if let Some(d) = parse_dec(v) {
        return Some(Coord::Dec(d));
    }
    let n = v.len();
    let i = match find2(v, 0, n, '\u{b0}', '\u{b0}') {
        Some(i) => i,
        None => {
            return None;
        },
    };
    let j = match find2(v, i + 1, n, '\'', '\'') {
        Some(j) => j,
        None => {
            return None;
        },
    };
    let k = match find2(v, j + 1, n, '"', '"') {
        Some(k) => k,
        None => {
            return None;
        },
    };
    if k + 1 != n {
        return None;
    }
    let degree = match parse_i16(v, 0, i) {
        Some(x) => x,
        None => {
            return None;
        },
    };
    let minutes = match parse_uint(v, i + 1, j, 255) {
        Some(x) => x,
        None => {
            return None;
        },
    };
    let second = match parse_uint(v, j + 1, k, 255) {
        Some(x) => x,
        None => {
            return None;
        },
    };
    Some(Coord::DMS { degree, minutes: minutes as u8, second: second as u8 })
}

/// True when the coordinate's representation is the one the given
/// `coord units` calls for: the sexagesimal variant under `dms`, the
/// decimal variant otherwise.
pub open spec fn spec_units_match(u: CoordUnits, c: Coord) -> bool {
    match u {
        CoordUnits::DMS => c is DMS,
        CoordUnits::Deg | CoordUnits::Meters | CoordUnits::Feet => c is Dec,
    }
}

impl CoordUnits {
    /// The unit-to-variant consistency predicate shared by the header
    /// assembler, the data parser and the validator.
    pub fn check(&self, coord: &Coord) -> (r: bool)
        ensures
            r == spec_units_match(*self, *coord),
    {
        match self {
            CoordUnits::DMS => matches!(coord, Coord::DMS { .. }),
            CoordUnits::Deg | CoordUnits::Meters | CoordUnits::Feet => matches!(
                coord,
                Coord::Dec(..)
            ),
        }
    }
}

/// The display name of a `coord type` value.
pub open spec fn spec_coord_type_name(c: CoordType) -> Seq<char> {
    match c {
        CoordType::Geodetic => "geodetic"@,
        CoordType::Projected => "projected"@,
    }
}

/// Renders a `coord type` value.
pub fn coord_type_name(c: &CoordType) -> (r: &'static str)
    ensures
        r@ == spec_coord_type_name(*c),
{
    match c {
        CoordType::Geodetic => "geodetic",
        CoordType::Projected => "projected",
    }
}

} // verus!
