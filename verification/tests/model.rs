use libisg::{from_str, Coord, CoordType, CoordUnits, CreationDate, Data, DataBounds, DataFormat,
    Dec, ISG};

fn grid_fixture() -> ISG {
    let s = "begin_of_head ================================================
model name     : EXAMPLE
model year     : 2020
model type     : gravimetric
data type      : geoid
data units     : meters
data format    : grid
data ordering  : N-to-S, W-to-E
ref ellipsoid  : GRS80
ref frame      : ITRF2014
height datum   : ---
tide system    : mean-tide
coord type     : geodetic
coord units    : dms
map projection : ---
EPSG code      : 7912
lat min        =   39\u{b0}50'00\"
lat max        =   41\u{b0}10'00\"
lon min        =  119\u{b0}50'00\"
lon max        =  121\u{b0}50'00\"
delta lat      =    0\u{b0}20'00\"
delta lon      =    0\u{b0}20'00\"
nrows          =           2
ncols          =           3
nodata         =  -9999.0000
creation date  =  31/05/2020
ISG format     =         2.0
end_of_head ==================================================
   30.1234    31.2222    32.3456
   41.1111    42.2345    43.3333
";
    from_str(s).unwrap()
}

#[test]
fn parsed_document_is_valid() {
    let isg = grid_fixture();
    assert!(isg.is_valid());
    assert!(isg.validate().is_ok());
}

#[test]
fn wrong_format_version_fails_validation() {
    let mut isg = grid_fixture();
    isg.header.ISG_format = "1.0".to_string();
    let e = isg.validate().unwrap_err();
    assert_eq!(e.message(), "invalid `ISG format`, expected `\"2.0\"`");
    assert!(!isg.is_valid());
}

#[test]
fn bounds_variant_mismatch_fails_validation() {
    let mut isg = grid_fixture();
    isg.header.data_bounds = DataBounds::SparseGeodetic {
        lat_min: Coord::with_dms(39, 50, 0),
        lat_max: Coord::with_dms(41, 10, 0),
        lon_min: Coord::with_dms(119, 50, 0),
        lon_max: Coord::with_dms(121, 50, 0),
    };
    let e = isg.validate().unwrap_err();
    assert_eq!(e.message(), "unexpected `data_bounds`, expected DataBounds::GridGeodetic");
}

#[test]
fn coord_units_mismatch_on_header_fails_validation() {
    let mut isg = grid_fixture();
    if let DataBounds::GridGeodetic { lon_max, .. } = &mut isg.header.data_bounds {
        *lon_max = Coord::with_dec(Dec::new(false, 1215, 1));
    }
    let e = isg.validate().unwrap_err();
    assert_eq!(e.message(), "unexpected data format on `lon max`");
}

#[test]
fn row_count_mismatch_fails_validation() {
    let mut isg = grid_fixture();
    isg.header.nrows = 5;
    let e = isg.validate().unwrap_err();
    assert_eq!(e.message(), "unexpected data length, nrows: 5 but actual: 2");
}

#[test]
fn column_count_mismatch_fails_validation() {
    let mut isg = grid_fixture();
    if let Data::Grid(rows) = &mut isg.data {
        rows[1].pop();
    }
    let e = isg.validate().unwrap_err();
    assert_eq!(e.message(), "unexpected data length, ncols: 3 but actual: 2");
}

#[test]
fn sparse_coord_units_mismatch_fails_validation() {
    let mut isg = grid_fixture();
    isg.header.data_format = DataFormat::Sparse;
    isg.header.ncols = 3;
    isg.header.nrows = 1;
    isg.header.data_bounds = DataBounds::SparseGeodetic {
        lat_min: Coord::with_dms(39, 50, 0),
        lat_max: Coord::with_dms(41, 10, 0),
        lon_min: Coord::with_dms(119, 50, 0),
        lon_max: Coord::with_dms(121, 50, 0),
    };
    isg.data = Data::Sparse(vec![(
        Coord::with_dms(40, 0, 0),
        Coord::with_dec(Dec::new(false, 120, 0)),
        Dec::new(false, 301234, 4),
    )]);
    let e = isg.validate().unwrap_err();
    assert_eq!(e.message(), "unexpected data format on data (row: 1, column: 2)");
}

#[test]
fn accessors_return_the_parsed_data() {
    let isg = grid_fixture();
    let rows = isg.data.grid_data();
    assert_eq!(rows.len(), 2);
    assert_eq!(rows[0][2], Some(Dec::new(false, 323456, 4)));
    assert_eq!(isg.header.creation_date, Some(CreationDate::new(2020, 5, 31)));
    assert_eq!(isg.header.coord_type, CoordType::Geodetic);
    assert_eq!(isg.header.coord_units, CoordUnits::DMS);
}

#[test]
fn decimal_normal_form() {
    assert_eq!(Dec::new(false, 1500, 2), Dec::new(false, 15, 0));
    assert_eq!(Dec::new(true, 0, 0), Dec::new(false, 0, 0));
    assert_eq!(Dec::new(true, 250, 3), Dec::new(true, 25, 2));
    assert_ne!(Dec::new(false, 15, 1), Dec::new(false, 15, 0));
}

#[test]
fn dms_arithmetic() {
    let a = Coord::with_dms(41, 10, 0);
    let d = Coord::with_dms(0, 20, 0);
    assert_eq!(a.minus(&d), Coord::with_dms(40, 50, 0));
    assert_eq!(Coord::with_dms(40, 50, 0).plus(&d), a);
    assert_eq!(d.times(3), Coord::with_dms(1, 0, 0));
    assert_eq!(d.times(0), Coord::with_dms(0, 0, 0));
    assert_eq!(Coord::with_dms(1, 2, 3).neg(), Coord::with_dms(-1, 2, 3));
}

#[test]
fn decimal_arithmetic() {
    let a = Coord::with_dec(Dec::new(false, 15, 1));
    let b = Coord::with_dec(Dec::new(false, 25, 1));
    assert_eq!(a.plus(&b), Coord::with_dec(Dec::new(false, 4, 0)));
    assert_eq!(b.minus(&a), Coord::with_dec(Dec::new(false, 1, 0)));
    assert_eq!(a.minus(&b), Coord::with_dec(Dec::new(true, 1, 0)));
    assert_eq!(a.neg(), Coord::with_dec(Dec::new(true, 15, 1)));
    assert_eq!(a.times(4), Coord::with_dec(Dec::new(false, 6, 0)));
}
