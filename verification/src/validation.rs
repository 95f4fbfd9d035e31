//! The validator: re-checks a document's structural invariants
//! independently of how it was built, reporting the first violation in a
//! fixed order: format version, bounds variant, per-field units, lengths.

use vstd::prelude::*;

use crate::error::{ValidationError, ValidationErrorKind};
use crate::parse::HeaderField;
use crate::text::chars_eq;
use crate::values::spec_units_match;
use crate::{Coord, CoordType, CoordUnits, Data, DataBounds, DataFormat, Dec, Header, ISG};

verus! {

/// The first bounds field whose representation does not match
/// `coord units`, in the order the fields are declared.
pub open spec fn spec_bad_bound(db: DataBounds, cu: CoordUnits) -> Option<HeaderField> {
    match db {
        DataBounds::GridGeodetic { lat_min, lat_max, lon_min, lon_max, delta_lat, delta_lon } => {
            if !spec_units_match(cu, lat_min) {
                Some(HeaderField::LatMin)
            } else if !spec_units_match(cu, lat_max) {
                Some(HeaderField::LatMax)
            } else if !spec_units_match(cu, lon_min) {
                Some(HeaderField::LonMin)
            } else if !spec_units_match(cu, lon_max) {
                Some(HeaderField::LonMax)
            } else if !spec_units_match(cu, delta_lat) {
                Some(HeaderField::DeltaLat)
            } else if !spec_units_match(cu, delta_lon) {
                Some(HeaderField::DeltaLon)
            } else {
                None
            }
        },
        DataBounds::GridProjected {
            north_min,
            north_max,
            east_min,
            east_max,
            delta_north,
            delta_east,
        } => {
            if !spec_units_match(cu, north_min) {
                Some(HeaderField::NorthMin)
            } else if !spec_units_match(cu, north_max) {
                Some(HeaderField::NorthMax)
            } else if !spec_units_match(cu, east_min) {
                Some(HeaderField::EastMin)
            } else if !spec_units_match(cu, east_max) {
                Some(HeaderField::EastMax)
            } else if !spec_units_match(cu, delta_north) {
                Some(HeaderField::DeltaNorth)
            } else if !spec_units_match(cu, delta_east) {
                Some(HeaderField::DeltaEast)
            } else {
                None
            }
        },
        DataBounds::SparseGeodetic { lat_min, lat_max, lon_min, lon_max } => {
            if !spec_units_match(cu, lat_min) {
                Some(HeaderField::LatMin)
            } else if !spec_units_match(cu, lat_max) {
                Some(HeaderField::LatMax)
            } else if !spec_units_match(cu, lon_min) {
                Some(HeaderField::LonMin)
            } else if !spec_units_match(cu, lon_max) {
                Some(HeaderField::LonMax)
            } else {
                None
            }
        },
        DataBounds::SparseProjected { north_min, north_max, east_min, east_max } => {
            if !spec_units_match(cu, north_min) {
                Some(HeaderField::NorthMin)
            } else if !spec_units_match(cu, north_max) {
                Some(HeaderField::NorthMax)
            } else if !spec_units_match(cu, east_min) {
                Some(HeaderField::EastMin)
            } else if !spec_units_match(cu, east_max) {
                Some(HeaderField::EastMax)
            } else {
                None
            }
        },
    }
}

/// True when the bounds variant is the one `data format` and
/// `coord type` call for.
pub open spec fn spec_variant_matches(h: &Header) -> bool {
    match (h.data_format, h.coord_type) {
        (DataFormat::Grid, CoordType::Geodetic) => h.data_bounds is GridGeodetic,
        (DataFormat::Grid, CoordType::Projected) => h.data_bounds is GridProjected,
        (DataFormat::Sparse, CoordType::Geodetic) => h.data_bounds is SparseGeodetic,
        (DataFormat::Sparse, CoordType::Projected) => h.data_bounds is SparseProjected,
    }
}

/// The first header violation: format version, then bounds variant, then
/// per-field units.
pub open spec fn spec_validate_header(h: &Header) -> Option<ValidationErrorKind> {
    if h.ISG_format@ != "2.0"@ {
        Some(ValidationErrorKind::ISGFormat)
    } else if !spec_variant_matches(h) {
        Some(
            ValidationErrorKind::DataBounds {
                data_format: h.data_format,
                coord_type: h.coord_type,
            },
        )
    } else {
        match spec_bad_bound(h.data_bounds, h.coord_units) {
            Some(f) => Some(ValidationErrorKind::CoordUnitsOnHeader { kind: f }),
            None => None,
        }
    }
}

/// The first grid row whose length differs from `ncols`.
pub open spec fn spec_bad_grid_row(g: Seq<Vec<Option<Dec>>>, ncols: int, i: int) -> Option<int>
    decreases g.len() - i,
{
    if i < 0 || i >= g.len() {
        None
    } else if g[i]@.len() != ncols {
        Some(i)
    } else {
        spec_bad_grid_row(g, ncols, i + 1)
    }
}

/// The first sparse coordinate that does not match `coord units`: its
/// 1-based row and its column, 1 or 2.
pub open spec fn spec_bad_sparse_coord(s: Seq<(Coord, Coord, Dec)>, cu: CoordUnits, i: int) -> Option<
    (int, int),
>
    decreases s.len() - i,
{
    if i < 0 || i >= s.len() {
        None
    } else if !spec_units_match(cu, s[i].0) {
        Some((i + 1, 1))
    } else if !spec_units_match(cu, s[i].1) {
        Some((i + 1, 2))
    } else {
        spec_bad_sparse_coord(s, cu, i + 1)
    }
}

/// The first data violation: row count, then column counts, and for
/// sparse data the fixed column count and the per-row units.
pub open spec fn spec_validate_data(d: &Data, h: &Header) -> Option<ValidationErrorKind> {
    match d {
        Data::Grid(g) => {
            if g@.len() != h.nrows {
                Some(ValidationErrorKind::NoRow { nrows: h.nrows, actual: g@.len() as usize })
            } else {
                match spec_bad_grid_row(g@, h.ncols as int, 0) {
                    Some(i) => Some(
                        ValidationErrorKind::NoCols {
                            ncols: h.ncols,
                            actual: Some(g@[i]@.len() as usize),
                        },
                    ),
                    None => None,
                }
            }
        },
        Data::Sparse(s) => {
            if s@.len() != h.nrows {
                Some(ValidationErrorKind::NoRow { nrows: h.nrows, actual: s@.len() as usize })
            } else if h.ncols != 3 {
                Some(ValidationErrorKind::NoCols { ncols: h.ncols, actual: None })
            } else {
                match spec_bad_sparse_coord(s@, h.coord_units, 0) {
                    Some((ln, col)) => Some(
                        ValidationErrorKind::CoordUnitsOnData {
                            lineno: ln as usize,
                            column: col as usize,
                        },
                    ),
                    None => None,
                }
            }
        },
    }
}

/// The first violation of the whole document, header first.
pub open spec fn spec_validate(g: &ISG) -> Option<ValidationErrorKind> {
    match spec_validate_header(&g.header) {
        Some(k) => Some(k),
        None => spec_validate_data(&g.data, &g.header),
    }
}

fn validate_header(h: &Header) -> (r: Option<ValidationErrorKind>)
    ensures
        r == spec_validate_header(h),
{
    if !chars_eq(crate::text::str_to_chars(h.ISG_format.as_str()).as_slice(), "2.0") {
        return Some(ValidationErrorKind::ISGFormat);
    }
    let variant_ok = match (&h.data_format, &h.coord_type) {
        (DataFormat::Grid, CoordType::Geodetic) => matches!(
            &h.data_bounds,
            DataBounds::GridGeodetic { .. }
        ),
        (DataFormat::Grid, CoordType::Projected) => matches!(
            &h.data_bounds,
            DataBounds::GridProjected { .. }
        ),
        (DataFormat::Sparse, CoordType::Geodetic) => matches!(
            &h.data_bounds,
            DataBounds::SparseGeodetic { .. }
        ),
        (DataFormat::Sparse, CoordType::Projected) => matches!(
            &h.data_bounds,
            DataBounds::SparseProjected { .. }
        ),
    };
    if !variant_ok {
        return Some(
            ValidationErrorKind::DataBounds {
                data_format: h.data_format,
                coord_type: h.coord_type,
            },
        );
    }
    match bad_bound(&h.data_bounds, h.coord_units) {
        Some(f) => Some(ValidationErrorKind::CoordUnitsOnHeader { kind: f }),
        None => None,
    }
}

fn bad_bound(db: &DataBounds, cu: CoordUnits) -> (r: Option<HeaderField>)
    ensures
        r == spec_bad_bound(*db, cu),
{
    match db {
        DataBounds::GridGeodetic { lat_min, lat_max, lon_min, lon_max, delta_lat, delta_lon } => {
            if !cu.check(lat_min) {
                Some(HeaderField::LatMin)
            } else if !cu.check(lat_max) {
                Some(HeaderField::LatMax)
            } else if !cu.check(lon_min) {
                Some(HeaderField::LonMin)
            } else if !cu.check(lon_max) {
                Some(HeaderField::LonMax)
            } else if !cu.check(delta_lat) {
                Some(HeaderField::DeltaLat)
            } else if !cu.check(delta_lon) {
                Some(HeaderField::DeltaLon)
            } else {
                None
            }
        },
        DataBounds::GridProjected {
            north_min,
            north_max,
            east_min,
            east_max,
            delta_north,
            delta_east,
        } => {
            if !cu.check(north_min) {
                Some(HeaderField::NorthMin)
            } else if !cu.check(north_max) {
                Some(HeaderField::NorthMax)
            } else if !cu.check(east_min) {
                Some(HeaderField::EastMin)
            } else if !cu.check(east_max) {
                Some(HeaderField::EastMax)
            } else if !cu.check(delta_north) {
                Some(HeaderField::DeltaNorth)
            } else if !cu.check(delta_east) {
                Some(HeaderField::DeltaEast)
            } else {
                None
            }
        },
        DataBounds::SparseGeodetic { lat_min, lat_max, lon_min, lon_max } => {
            if !cu.check(lat_min) {
                Some(HeaderField::LatMin)
            } else if !cu.check(lat_max) {
                Some(HeaderField::LatMax)
            } else if !cu.check(lon_min) {
                Some(HeaderField::LonMin)
            } else if !cu.check(lon_max) {
                Some(HeaderField::LonMax)
            } else {
                None
            }
        },
        DataBounds::SparseProjected { north_min, north_max, east_min, east_max } => {
            if !cu.check(north_min) {
                Some(HeaderField::NorthMin)
            } else if !cu.check(north_max) {
                Some(HeaderField::NorthMax)
            } else if !cu.check(east_min) {
                Some(HeaderField::EastMin)
            } else if !cu.check(east_max) {
                Some(HeaderField::EastMax)
            } else {
                None
            }
        },
    }
}

fn validate_data(d: &Data, h: &Header) -> (r: Option<ValidationErrorKind>)
    ensures
        r == spec_validate_data(d, h),
{
    match d {
        Data::Grid(g) => {
            if g.len() != h.nrows {
                return Some(ValidationErrorKind::NoRow { nrows: h.nrows, actual: g.len() });
            }
            let mut i: usize = 0;
            while i < g.len()
                invariant
                    i <= g@.len(),
                    spec_validate_data(d, h) == (match spec_bad_grid_row(
                        g@,
                        h.ncols as int,
                        i as int,
                    ) {
                        Some(k) => Some(
                            ValidationErrorKind::NoCols {
                                ncols: h.ncols,
                                actual: Some(g@[k]@.len() as usize),
                            },
                        ),
                        None => None,
                    }),
                decreases g@.len() - i,
            {
                if g[i].len() != h.ncols {
                    return Some(
                        ValidationErrorKind::NoCols { ncols: h.ncols, actual: Some(g[i].len()) },
                    );
                }
                i = i + 1;
            }
            None
        },
        Data::Sparse(s) => {
            if s.len() != h.nrows {
                return Some(ValidationErrorKind::NoRow { nrows: h.nrows, actual: s.len() });
            }
            if h.ncols != 3 {
                return Some(ValidationErrorKind::NoCols { ncols: h.ncols, actual: None });
            }
            let mut i: usize = 0;
            while i < s.len()
                invariant
                    i <= s@.len(),
                    spec_validate_data(d, h) == (match spec_bad_sparse_coord(
                        s@,
                        h.coord_units,
                        i as int,
                    ) {
                        Some((ln, col)) => Some(
                            ValidationErrorKind::CoordUnitsOnData {
                                lineno: ln as usize,
                                column: col as usize,
                            },
                        ),
                        None => None,
                    }),
                decreases s@.len() - i,
            {
                let row = &s[i];
                if !h.coord_units.check(&row.0) {
                    return Some(
                        ValidationErrorKind::CoordUnitsOnData { lineno: i + 1, column: 1 },
                    );
                }
                if !h.coord_units.check(&row.1) {
                    return Some(
                        ValidationErrorKind::CoordUnitsOnData { lineno: i + 1, column: 2 },
                    );
                }
                i = i + 1;
            }
            None
        },
    }
}

impl ISG {
    /// True when the document is well-formatted; the same as
    /// `validate().is_ok()`.
    pub fn is_valid(&self) -> (r: bool)
        ensures
            r == (spec_validate(self) is None),
    {
        self.validate().is_ok()
    }

    /// Checks the document against the format's structural invariants:
    /// the `ISG format` literal, the bounds variant against `data format`
    /// and `coord type`, every coordinate's representation against
    /// `coord units`, and the data lengths against `nrows` and `ncols`.
    /// Returns the first violation found, in that order.
    pub fn validate(&self) -> (r: Result<(), ValidationError>)
        ensures
            match r {
                Ok(_) => spec_validate(self) is None,
                Err(e) => Some(e.kind) == spec_validate(self),
            },
    {
        if let Some(k) = validate_header(&self.header) {
            return Err(ValidationError { kind: k });
        }
        if let Some(k) = validate_data(&self.data, &self.header) {
            return Err(ValidationError { kind: k });
        }
        Ok(())
    }
}

} // verus!
