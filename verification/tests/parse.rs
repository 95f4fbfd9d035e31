use libisg::{from_str, to_string, Coord, Data, DataBounds, Dec};

const EXAMPLE_GRID: &str = "begin_of_head ================================================
model name     : EXAMPLE
model year     : 2020
model type     : gravimetric
data type      : geoid
data units     : meters
data format    : grid
data ordering  : N-to-S, W-to-E
ref ellipsoid  : GRS80
ref frame      : ITRF2014
height datum   : ---
tide system    : mean-tide
coord type     : geodetic
coord units    : dms
map projection : ---
EPSG code      : 7912
lat min        =   39\u{b0}50'00\"
lat max        =   41\u{b0}10'00\"
lon min        =  119\u{b0}50'00\"
lon max        =  121\u{b0}50'00\"
delta lat      =    0\u{b0}20'00\"
delta lon      =    0\u{b0}20'00\"
nrows          =           4
ncols          =           6
nodata         =  -9999.0000
creation date  =  31/05/2020
ISG format     =         2.0
end_of_head ==================================================
   30.1234    31.2222    32.3456    33.4444    34.5678    36.6666
   41.1111    42.2345    43.3333    44.4567    45.5555    46.6789
   51.4321    52.9753    53.6543    54.8642 -9999.0000 -9999.0000
   61.9999    62.8888    63.7777    64.6666 -9999.0000 -9999.0000
";

const EXAMPLE_SPARSE: &str = "begin_of_head ================================================
model name     : EXAMPLE
model year     : 2020
model type     : gravimetric
data type      : geoid
data units     : meters
data format    : sparse
data ordering  : lat, lon, N
ref ellipsoid  : GRS80
ref frame      : ITRF2014
height datum   : ---
tide system    : mean-tide
coord type     : geodetic
coord units    : deg
map projection : ---
EPSG code      : 7912
lat min        =   40.000000
lat max        =   41.000000
lon min        =  120.000000
lon max        =  121.666667
delta lat      = ---
delta lon      = ---
nrows          =           3
ncols          =           3
nodata         =  -9999.0000
creation date  =  31/05/2020
ISG format     =         2.0
end_of_head ==================================================
  40.000000  120.000000    30.1234
  40.000000  120.666667    31.2222
  40.000000  121.333333    32.3456
";

#[test]
fn parse_example_1() {
    let isg = from_str(EXAMPLE_GRID).unwrap();
    assert_eq!(EXAMPLE_GRID, to_string(&isg));
}

#[test]
fn parse_example_2() {
    let isg = from_str(EXAMPLE_SPARSE).unwrap();
    assert_eq!(EXAMPLE_SPARSE, to_string(&isg));
}

#[test]
fn grid_document_structure() {
    let isg = from_str(EXAMPLE_GRID).unwrap();
    assert_eq!(isg.comment, "");
    assert_eq!(isg.header.model_name.as_deref(), Some("EXAMPLE"));
    assert_eq!(isg.header.nrows, 4);
    assert_eq!(isg.header.ncols, 6);
    assert_eq!(isg.header.ISG_format, "2.0");
    match &isg.header.data_bounds {
        DataBounds::GridGeodetic { lat_min, lat_max, delta_lat, .. } => {
            assert_eq!(*lat_min, Coord::with_dms(39, 50, 0));
            assert_eq!(*lat_max, Coord::with_dms(41, 10, 0));
            assert_eq!(*delta_lat, Coord::with_dms(0, 20, 0));
        }
        other => panic!("unexpected bounds: {:?}", other),
    }
    match &isg.data {
        Data::Grid(rows) => {
            assert_eq!(rows.len(), 4);
            for row in rows {
                assert_eq!(row.len(), 6);
            }
            assert_eq!(rows[0][0], Some(Dec::new(false, 301234, 4)));
            assert_eq!(rows[1][3], Some(Dec::new(false, 444567, 4)));
        }
        other => panic!("unexpected data: {:?}", other),
    }
}

#[test]
fn nodata_cells_are_absent_and_round_trip() {
    let isg = from_str(EXAMPLE_GRID).unwrap();
    assert_eq!(isg.header.nodata, Some(Dec::new(true, 9999, 0)));
    match &isg.data {
        Data::Grid(rows) => {
            assert_eq!(rows[2][4], None);
            assert_eq!(rows[2][5], None);
            assert_eq!(rows[3][4], None);
            assert_eq!(rows[3][5], None);
        }
        other => panic!("unexpected data: {:?}", other),
    }
    let text = to_string(&isg);
    assert!(text.contains("   54.8642 -9999.0000 -9999.0000\n"));
}

#[test]
fn sparse_document_structure() {
    let isg = from_str(EXAMPLE_SPARSE).unwrap();
    match &isg.data {
        Data::Sparse(rows) => {
            assert_eq!(rows.len(), 3);
            assert_eq!(rows[0].0, Coord::with_dec(Dec::new(false, 40, 0)));
            assert_eq!(rows[0].1, Coord::with_dec(Dec::new(false, 120, 0)));
            assert_eq!(rows[0].2, Dec::new(false, 301234, 4));
            assert_eq!(rows[2].1, Coord::with_dec(Dec::new(false, 121333333, 6)));
        }
        other => panic!("unexpected data: {:?}", other),
    }
}

#[test]
fn document_round_trip() {
    let isg = from_str(EXAMPLE_GRID).unwrap();
    let text = to_string(&isg);
    let again = from_str(&text).unwrap();
    assert_eq!(isg, again);
    let sparse = from_str(EXAMPLE_SPARSE).unwrap();
    let text = to_string(&sparse);
    let again = from_str(&text).unwrap();
    assert_eq!(sparse, again);
}

#[test]
fn serialization_is_idempotent() {
    // A loosely spaced source normalizes after one parse/serialize pass
    // and is then a fixed point.
    let minified = "before the header
begin_of_head ====
model name:EXAMPLE
model year: 2020
model type:gravimetric
data type:geoid
data units:meters
data format:grid
data ordering:N-to-S, W-to-E
ref ellipsoid:GRS80
ref frame:ITRF2014
height datum:---
tide system:mean-tide
coord type:geodetic
coord units:dms
map projection:---
EPSG code:7912
lat min=39\u{b0}50'00\"
lat max=41\u{b0}10'00\"
lon min=119\u{b0}50'00\"
lon max=121\u{b0}50'00\"
delta lat=0\u{b0}20'00\"
delta lon=0\u{b0}20'00\"
nrows=1
ncols=2
nodata=-9999.0
creation date=31/05/2020
ISG format=2.0
end_of_head ====
30.1 -9999.0000
";
    let once = to_string(&from_str(minified).unwrap());
    let twice = to_string(&from_str(&once).unwrap());
    assert_eq!(once, twice);
}

#[test]
fn loose_spacing_parses_to_the_same_document() {
    let spaced = EXAMPLE_GRID.replace("   30.1234", "     30.1234   ");
    let a = from_str(&spaced).unwrap();
    let b = from_str(EXAMPLE_GRID).unwrap();
    assert_eq!(a, b);
}

#[test]
fn comment_is_kept_verbatim() {
    let with_comment = format!("a comment line\nanother one\n{}", EXAMPLE_GRID);
    let isg = from_str(&with_comment).unwrap();
    assert_eq!(isg.comment, "a comment line\nanother one\n");
    assert_eq!(with_comment, to_string(&isg));
}

#[test]
fn grid_shape_exact_fit_parses() {
    let isg = from_str(EXAMPLE_GRID).unwrap();
    match &isg.data {
        Data::Grid(rows) => {
            assert_eq!(rows.len(), isg.header.nrows);
            assert!(rows.iter().all(|r| r.len() == isg.header.ncols));
        }
        other => panic!("unexpected data: {:?}", other),
    }
}

#[test]
fn grid_extra_row_is_too_long() {
    let s = format!("{}   70.0000    71.0000    72.0000    73.0000    74.0000    75.0000\n", EXAMPLE_GRID);
    let e = from_str(&s).unwrap_err();
    assert_eq!(e.message(), "too long data row, expected 4 row(s)");
}

#[test]
fn grid_missing_row_is_too_short() {
    let s = EXAMPLE_GRID.replace(
        "   61.9999    62.8888    63.7777    64.6666 -9999.0000 -9999.0000\n",
        "",
    );
    let e = from_str(&s).unwrap_err();
    assert_eq!(e.message(), "too short data row, expected 4 row(s)");
}

#[test]
fn grid_extra_cell_is_too_long_column() {
    let s = EXAMPLE_GRID.replace(
        "   41.1111    42.2345    43.3333    44.4567    45.5555    46.6789",
        "   41.1111    42.2345    43.3333    44.4567    45.5555    46.6789    47.0000",
    );
    let e = from_str(&s).unwrap_err();
    assert_eq!(e.message(), "too long data column, expected 6 column(s) (line: 30)");
}

#[test]
fn grid_missing_cell_is_too_short_column() {
    let s = EXAMPLE_GRID.replace(
        "   41.1111    42.2345    43.3333    44.4567    45.5555    46.6789",
        "   41.1111    42.2345    43.3333    44.4567    45.5555",
    );
    let e = from_str(&s).unwrap_err();
    assert_eq!(e.message(), "too short data column, expected 6 column(s) (line: 30)");
}

#[test]
fn error_section_predicates() {
    let e = from_str("no header here").unwrap_err();
    assert!(e.is_syntax());
    assert!(!e.is_header_section());
    assert!(!e.is_data_section());
    assert!(e.lineno().is_none());
    assert!(e.span().is_none());

    let s = EXAMPLE_GRID.replace("tide system    : mean-tide", "tide system    : sideways");
    let e = from_str(&s).unwrap_err();
    assert!(e.is_header_section());
    assert_eq!(e.lineno(), Some(&12));
    let sp = e.span().unwrap();
    assert_eq!((sp.start, sp.end), (17, 25));

    let s = EXAMPLE_GRID.replace("   30.1234", "   30.12.34");
    let e = from_str(&s).unwrap_err();
    assert!(e.is_data_section());
}

#[test]
fn sparse_real_delta_lon_is_rejected_even_with_delta_lat_placeholder() {
    let s = EXAMPLE_SPARSE.replace("delta lon      = ---", "delta lon      = 0.5");
    let e = from_str(&s).unwrap_err();
    assert_eq!(
        e.message(),
        "unexpected value: `0.5` on `delta lon` (line: 22, column: 17 to 20)"
    );
}

#[test]
fn sparse_real_delta_east_is_rejected_even_with_delta_north_placeholder() {
    let s = "begin_of_head ================================================
model name     : EXAMPLE
model year     : 2020
model type     : gravimetric
data type      : geoid
data units     : meters
data format    : sparse
data ordering  : east, north, N
ref ellipsoid  : GRS80
ref frame      : ITRF2014
height datum   : ---
tide system    : mean-tide
coord type     : projected
coord units    : meters
map projection : ---
EPSG code      : 7912
north min      =    1000.000
north max      =    2000.000
east min       =    3000.000
east max       =    4000.000
delta north    = ---
delta east     = 0.5
nrows          =           0
ncols          =           3
nodata         =  -9999.0000
creation date  =  31/05/2020
ISG format     =         2.0
end_of_head ==================================================
";
    let e = from_str(s).unwrap_err();
    assert_eq!(
        e.message(),
        "unexpected value: `0.5` on `delta east` (line: 22, column: 17 to 20)"
    );
}

#[test]
fn column_spans_count_bytes() {
    // The degree signs before the offending text are two bytes each, so
    // the reported span is wider than the character count.
    let s = EXAMPLE_GRID.replace(
        "lon max        =  121\u{b0}50'00\"",
        "lon max        =  121\u{b0}50'xx\"",
    );
    let e = from_str(&s).unwrap_err();
    assert_eq!(
        e.message(),
        "unexpected value: `121\u{b0}50'xx\"` on `lon max` (line: 20, column: 18 to 29)"
    );
}

#[test]
fn tab_padded_header_value_is_trimmed() {
    let s = EXAMPLE_GRID.replace("model year     : 2020", "model year     : \t2020\t");
    let isg = from_str(&s).unwrap();
    assert_eq!(isg.header.model_year.as_deref(), Some("2020"));
}
