//! Properties of the parser and serializer stated and proved once, over
//! the same specifications the public contracts use: every closed
//! vocabulary round-trips, a duplicated header key always fails header
//! assembly, the two coordinate systems' bounds keys exclude each other,
//! a grid body parses exactly when its shape matches the declared counts,
//! and a cell equal to the `nodata` sentinel is stored absent and renders
//! back to the sentinel's text.

use vstd::prelude::*;

use crate::dec::{
    dec_wf, lemma_pow10_adds, lemma_pow10_pos, pow10, spec_dec_fixed, spec_pad_left,
    spec_parse_dec, spec_zero_pad, MANT_LIMIT, SCALE_LIMIT,
};
use crate::display::{
    spec_cell_text, spec_coord_units_str, spec_data_format_str, spec_data_ordering_str,
    spec_data_type_str, spec_data_units_str, spec_model_type_str, spec_tide_system_str,
};
use crate::error::ErrModel;
use crate::parse::{
    spec_fold_header, spec_bounds_geodetic, spec_bounds_projected, spec_geodetic_excl,
    spec_projected_excl, spec_grid_row, spec_grid_rows, spec_parse_header_field,
    spec_starts_with, store_get, store_set, HeaderField, StoreModel,
};
use crate::text::{
    lemma_udigits_len, spec_all_digits, spec_digit_char, spec_digits_val, spec_find2,
    spec_is_digit, spec_repeat, spec_rskip, spec_udigits,
};
use crate::token::{spec_header_kv, TokenModel};
use crate::values::{
    spec_coord_type_name, spec_parse_coord_type, spec_parse_coord_units, spec_parse_data_format,
    spec_parse_data_ordering, spec_parse_data_type, spec_parse_data_units, spec_parse_model_type,
    spec_parse_tide_system,
};
use crate::{CoordType, CoordUnits, DataBounds, DataFormat, DataOrdering, DataType, DataUnits, Dec,
    ModelType, TideSystem};

verus! {

broadcast use vstd::string::group_string_axioms;

/// Every `model type` value parses back from its display name.
pub proof fn lemma_model_type_round_trip(v: ModelType)
    ensures
        spec_parse_model_type(spec_model_type_str(v)) == Some(v),
{
    reveal_strlit("gravimetric");
    reveal_strlit("geometric");
    reveal_strlit("hybrid");
    let spec = spec_model_type_str(v);
    match v {
        ModelType::Gravimetric => {
            assert(spec =~= "gravimetric"@);
        },
        ModelType::Geometric => {
            assert(spec =~= "geometric"@);
        },
        ModelType::Hybrid => {
            assert(spec =~= "hybrid"@);
        },
    }
}

/// Every `data type` value parses back from its display name.
pub proof fn lemma_data_type_round_trip(v: DataType)
    ensures
        spec_parse_data_type(spec_data_type_str(v)) == Some(v),
{
    reveal_strlit("geoid");
    reveal_strlit("quasi-geoid");
    let spec = spec_data_type_str(v);
    match v {
        DataType::Geoid => {
            assert(spec =~= "geoid"@);
        },
        DataType::QuasiGeoid => {
            assert(spec =~= "quasi-geoid"@);
        },
    }
}

/// Every `data units` value parses back from its display name.
pub proof fn lemma_data_units_round_trip(v: DataUnits)
    ensures
        spec_parse_data_units(spec_data_units_str(v)) == Some(v),
{
    reveal_strlit("meters");
    reveal_strlit("feet");
    let spec = spec_data_units_str(v);
    match v {
        DataUnits::Meters => {
            assert(spec =~= "meters"@);
        },
        DataUnits::Feet => {
            assert(spec =~= "feet"@);
        },
    }
}

/// Every `data format` value parses back from its display name.
pub proof fn lemma_data_format_round_trip(v: DataFormat)
    ensures
        spec_parse_data_format(spec_data_format_str(v)) == Some(v),
{
    reveal_strlit("grid");
    reveal_strlit("sparse");
    let spec = spec_data_format_str(v);
    match v {
        DataFormat::Grid => {
            assert(spec =~= "grid"@);
        },
        DataFormat::Sparse => {
            assert(spec =~= "sparse"@);
        },
    }
}

/// Every `data ordering` value parses back from its display name.
pub proof fn lemma_data_ordering_round_trip(v: DataOrdering)
    ensures
        spec_parse_data_ordering(spec_data_ordering_str(v)) == Some(v),
{
    reveal_strlit("N-to-S, W-to-E");
    reveal_strlit("lat, lon, N");
    reveal_strlit("east, north, N");
    reveal_strlit("N");
    reveal_strlit("zeta");
    let spec = spec_data_ordering_str(v);
    match v {
        DataOrdering::N2SW2E => {
            assert(spec =~= "N-to-S, W-to-E"@);
        },
        DataOrdering::LatLonN => {
            assert(spec =~= "lat, lon, N"@);
        },
        DataOrdering::EastNorthN => {
            assert(spec =~= "east, north, N"@);
            assert(spec[0] == 'e' && ("N-to-S, W-to-E"@)[0] == 'N');
        },
        DataOrdering::N => {
            assert(spec =~= "N"@);
        },
        DataOrdering::Zeta => {
            assert(spec =~= "zeta"@);
        },
    }
}

/// Every `tide system` value parses back from its display name.
pub proof fn lemma_tide_system_round_trip(v: TideSystem)
    ensures
        spec_parse_tide_system(spec_tide_system_str(v)) == Some(v),
{
    reveal_strlit("tide-free");
    reveal_strlit("mean-tide");
    reveal_strlit("zero-tide");
    let spec = spec_tide_system_str(v);
    match v {
        TideSystem::TideFree => {
            assert(spec =~= "tide-free"@);
        },
        TideSystem::MeanTide => {
            assert(spec =~= "mean-tide"@);
            assert(spec[0] == 'm' && ("tide-free"@)[0] == 't');
        },
        TideSystem::ZeroTide => {
            assert(spec =~= "zero-tide"@);
            assert(spec[0] == 'z' && ("tide-free"@)[0] == 't' && ("mean-tide"@)[0] == 'm');
        },
    }
}

/// Every `coord type` value parses back from its display name.
pub proof fn lemma_coord_type_round_trip(v: CoordType)
    ensures
        spec_parse_coord_type(spec_coord_type_name(v)) == Some(v),
{
    reveal_strlit("geodetic");
    reveal_strlit("projected");
    let spec = spec_coord_type_name(v);
    match v {
        CoordType::Geodetic => {
            assert(spec =~= "geodetic"@);
        },
        CoordType::Projected => {
            assert(spec =~= "projected"@);
        },
    }
}

/// Every `coord units` value parses back from its display name.
pub proof fn lemma_coord_units_round_trip(v: CoordUnits)
    ensures
        spec_parse_coord_units(spec_coord_units_str(v)) == Some(v),
{
    reveal_strlit("dms");
    reveal_strlit("deg");
    reveal_strlit("meters");
    reveal_strlit("feet");
    let spec = spec_coord_units_str(v);
    match v {
        CoordUnits::DMS => {
            assert(spec =~= "dms"@);
        },
        CoordUnits::Deg => {
            assert(spec =~= "deg"@);
            assert(spec[1] == 'e' && ("dms"@)[1] == 'm');
        },
        CoordUnits::Meters => {
            assert(spec =~= "meters"@);
        },
        CoordUnits::Feet => {
            assert(spec =~= "feet"@);
        },
    }
}

/// A numeral consists of digits, is never empty, denotes its number, and
/// ends in the number's last digit.
proof fn lemma_udigits_facts(n: nat)
    ensures
        spec_all_digits(spec_udigits(n)),
        spec_udigits(n).len() >= 1,
        spec_digits_val(spec_udigits(n)) == n,
        spec_udigits(n).last() == spec_digit_char(n % 10),
    decreases n,
{
    if n < 10 {
        assert(('0' as u32) == 48 && ('1' as u32) == 49 && ('2' as u32) == 50 && ('3' as u32)
            == 51 && ('4' as u32) == 52 && ('5' as u32) == 53 && ('6' as u32) == 54 && ('7'
            as u32) == 55 && ('8' as u32) == 56 && ('9' as u32) == 57);
        let c = spec_digit_char(n);
        assert(spec_udigits(n) =~= seq![c]);
        assert(seq![c].drop_last() =~= Seq::<char>::empty());
        assert(spec_digits_val(Seq::<char>::empty()) == 0);
        assert(spec_digits_val(seq![c]) == crate::text::spec_digit_val(c));
        assert(crate::text::spec_digit_val(c) == n);
    } else {
        lemma_udigits_facts(n / 10);
        let u = spec_udigits(n);
        assert(u.drop_last() =~= spec_udigits(n / 10));
        assert forall|i: int| 0 <= i < u.len() implies spec_is_digit(#[trigger] u[i]) by {
            if i < u.len() - 1 {
                assert(u[i] == spec_udigits(n / 10)[i]);
            }
        }
    }
}

/// A run of zero digits denotes zero.
proof fn lemma_val_zeros(j: nat)
    ensures
        spec_digits_val(spec_repeat('0', j)) == 0,
        spec_all_digits(spec_repeat('0', j)),
    decreases j,
{
    if j > 0 {
        lemma_val_zeros((j - 1) as nat);
        assert(spec_repeat('0', j).drop_last() =~= spec_repeat('0', (j - 1) as nat));
        assert(spec_repeat('0', j).last() == '0');
    }
}

/// Leading zero digits do not change a numeral's value.
proof fn lemma_val_leading_zeros(x: Seq<char>, j: nat)
    ensures
        spec_digits_val(spec_repeat('0', j) + x) == spec_digits_val(x),
    decreases x.len(),
{
    if x.len() == 0 {
        assert(spec_repeat('0', j) + x =~= spec_repeat('0', j));
        lemma_val_zeros(j);
    } else {
        lemma_val_leading_zeros(x.drop_last(), j);
        assert((spec_repeat('0', j) + x).drop_last() =~= spec_repeat('0', j) + x.drop_last());
        assert((spec_repeat('0', j) + x).last() == x.last());
    }
}

/// Scaling a positive number by a power of ten appends zero digits to
/// its numeral.
proof fn lemma_udigits_shift(n: nat, k: nat)
    requires
        n >= 1,
    ensures
        spec_udigits(n * pow10(k)) =~= spec_udigits(n) + spec_repeat('0', k),
    decreases k,
{
    if k == 0 {
        assert(n * pow10(0) == n) by (nonlinear_arith)
            requires
                pow10(0) == 1,
        ;
        assert(spec_udigits(n) + spec_repeat('0', 0) =~= spec_udigits(n));
    } else {
        lemma_udigits_shift(n, (k - 1) as nat);
        let m = n * pow10((k - 1) as nat);
        lemma_pow10_pos((k - 1) as nat);
        assert(m >= 1) by (nonlinear_arith)
            requires
                n >= 1,
                pow10((k - 1) as nat) >= 1,
                m == n * pow10((k - 1) as nat),
        ;
        assert(n * pow10(k) == m * 10) by (nonlinear_arith)
            requires
                pow10(k) == 10 * pow10((k - 1) as nat),
                m == n * pow10((k - 1) as nat),
        ;
        vstd::arithmetic::div_mod::lemma_div_multiples_vanish(m as int, 10);
        vstd::arithmetic::div_mod::lemma_mod_multiples_vanish(m as int, 0, 10);
        vstd::arithmetic::div_mod::lemma_small_mod(0, 10);
        assert((m * 10) / 10 == m);
        assert((m * 10) % 10 == 0);
        assert(spec_udigits((m * 10) as nat) =~= spec_udigits(m as nat).push('0'));
        assert((spec_udigits(n) + spec_repeat('0', (k - 1) as nat)).push('0') =~= spec_udigits(n)
            + spec_repeat('0', k));
    }
}

/// Skipping zeros backward over a text whose tail is all zeros stops
/// right after its last non-zero character.
proof fn lemma_rskip_zero_tail(y: Seq<char>, xlen: int, to: int)
    requires
        1 <= xlen <= to <= y.len(),
        y[xlen - 1] != '0',
        forall|j: int| xlen <= j < y.len() ==> y[j] == '0',
    ensures
        spec_rskip(y, 0, to, '0') == xlen,
    decreases to,
{
    if to > xlen {
        lemma_rskip_zero_tail(y, xlen, to - 1);
    }
}

/// Skipping zeros backward over an all-zero text reaches the start.
proof fn lemma_rskip_all_zeros(y: Seq<char>, to: int)
    requires
        0 <= to <= y.len(),
        forall|j: int| 0 <= j < to ==> y[j] == '0',
    ensures
        spec_rskip(y, 0, to, '0') == 0,
    decreases to,
{
    if to > 0 {
        lemma_rskip_all_zeros(y, to - 1);
    }
}

/// Searching finds the first occurrence.
proof fn lemma_find_from(t: Seq<char>, i: int, k: int, c: char)
    requires
        0 <= i <= k < t.len(),
        t[k] == c,
        forall|j: int| i <= j < k ==> t[j] != c,
    ensures
        spec_find2(t, i, t.len() as int, c, c) == Some(k),
    decreases k - i,
{
    if i < k {
        lemma_find_from(t, i + 1, k, c);
    }
}

/// Round-trip of the decimal layer: a well-formed decimal whose scale
/// the precision keeps parses back unchanged from its fixed-precision
/// rendering.
#[verifier::rlimit(100)]
#[verifier::spinoff_prover]
pub proof fn lemma_dec_fixed_round_trip(d: Dec, prec: nat)
    requires
        dec_wf(d),
        d.scale <= prec,
        1 <= prec <= 6,
    ensures
        spec_parse_dec(spec_dec_fixed(d, prec)) == Some(d),
{
    reveal(spec_dec_fixed);
    let s = d.scale as nat;
    let u = pow10((prec - s) as nat);
    let q = (d.mant * u) as nat;
    let pw = pow10(prec);
    lemma_pow10_adds((prec - s) as nat, s);
    lemma_pow10_pos((prec - s) as nat);
    lemma_pow10_pos(s);
    lemma_pow10_pos(prec);
    assert(pw == u * pow10(s));
    assert(q == u * d.mant) by (nonlinear_arith)
        requires
            q == d.mant * u,
    ;
    vstd::arithmetic::div_mod::lemma_div_multiples_vanish(d.mant as int, u as int);
    vstd::arithmetic::div_mod::lemma_div_denominator(q as int, u as int, pow10(s) as int);
    vstd::arithmetic::div_mod::lemma_breakdown(q as int, u as int, pow10(s) as int);
    vstd::arithmetic::div_mod::lemma_mod_multiples_vanish(d.mant as int, 0, u as int);
    vstd::arithmetic::div_mod::lemma_small_mod(0, u);
    let ip = (q / pw) as nat;
    let fp = (q % pw) as nat;
    let r = ((d.mant as nat) % pow10(s)) as nat;
    assert(ip == (d.mant as nat) / pow10(s));
    assert(fp == u * r);
    vstd::arithmetic::div_mod::lemma_fundamental_div_mod(d.mant as int, pow10(s) as int);
    vstd::arithmetic::div_mod::lemma_mod_division_less_than_divisor(d.mant as int, pow10(s) as int);
    lemma_udigits_facts(ip);
    lemma_udigits_facts(fp);
    let a = spec_udigits(ip);
    let bfull = spec_zero_pad(spec_udigits(fp), prec);
    lemma_udigits_len(fp, prec);
    assert(bfull.len() == prec);
    lemma_val_zeros((prec - spec_udigits(fp).len()) as nat);
    assert(spec_all_digits(bfull));
    // The fraction block is the scale's digits followed by the padding
    // zeros the precision added.
    let fs_expect: Seq<char> = if s == 0 {
        Seq::empty()
    } else {
        spec_repeat('0', (s - spec_udigits(r).len()) as nat) + spec_udigits(r)
    };
    if s == 0 {
        vstd::arithmetic::div_mod::lemma_fundamental_div_mod(d.mant as int, 1);
        vstd::arithmetic::div_mod::lemma_mod_division_less_than_divisor(d.mant as int, 1);
        assert(pow10(0) == 1);
        assert(r == (d.mant as nat) % 1);
        assert(r == 0);
        assert(fp == 0) by (nonlinear_arith)
            requires
                fp == u * r,
                r == 0,
        ;
        assert(spec_udigits(0) =~= seq!['0']);
        assert forall|j: int| 0 <= j < bfull.len() implies bfull[j] == '0' by {
            if j < prec - 1 {
                assert(bfull[j] == spec_repeat('0', (prec - 1) as nat)[j]);
            }
        }
        lemma_rskip_all_zeros(bfull, prec as int);
    } else {
        lemma_mod_last_digit(d.mant as nat, s);
        assert(r % 10 != 0);
        assert(r >= 1);
        lemma_udigits_facts(r);
        lemma_udigits_shift(r, (prec - s) as nat);
        assert(spec_udigits(fp) =~= spec_udigits(r) + spec_repeat('0', (prec - s) as nat));
        lemma_udigits_len(r, s);
        let lr = spec_udigits(r).len();
        assert(spec_udigits(fp).len() == lr + (prec - s));
        assert(bfull =~= spec_repeat('0', (s - lr) as nat) + spec_udigits(r) + spec_repeat(
            '0',
            (prec - s) as nat,
        ));
        assert(bfull[s - 1] == spec_udigits(r).last());
        assert(spec_udigits(r).last() == spec_digit_char(r % 10));
        assert(spec_digit_char(r % 10) != '0');
        assert forall|j: int| s <= j < bfull.len() implies bfull[j] == '0' by {
            assert(bfull[j] == spec_repeat('0', (prec - s) as nat)[j - s]);
        }
        lemma_rskip_zero_tail(bfull, s as int, prec as int);
        assert(bfull.subrange(0, s as int) =~= fs_expect);
        lemma_val_leading_zeros(spec_udigits(r), (s - lr) as nat);
        assert(spec_digits_val(fs_expect) == r);
    }
    // The rendered text and how the grammar takes it apart.
    let body = a + seq!['.'] + bfull;
    let text = spec_dec_fixed(d, prec);
    assert(text =~= (if d.neg {
        seq!['-']
    } else {
        Seq::<char>::empty()
    }) + body);
    let stripped = crate::dec::spec_strip_sign(text);
    if d.neg {
        assert(text[0] == '-');
        assert(text.drop_first() =~= body);
        assert(stripped == (true, body));
    } else {
        assert(text =~= body);
        assert(spec_is_digit(body[0]));
        assert(body[0] != '-' && body[0] != '+');
        assert(stripped == (false, body));
    }
    assert(body[a.len() as int] == '.');
    assert forall|j: int| 0 <= j < a.len() implies body[j] != '.' by {
        assert(body[j] == a[j]);
        assert(spec_is_digit(a[j]));
    }
    lemma_find_from(body, 0, a.len() as int, '.');
    let ippart = body.subrange(0, a.len() as int);
    let fppart = body.subrange(a.len() as int + 1, body.len() as int);
    assert(ippart =~= a);
    assert(fppart =~= bfull);
    // The value the grammar reassembles is the mantissa it started from.
    let k = spec_rskip(bfull, 0, bfull.len() as int, '0');
    assert(k == s);
    let fs = bfull.subrange(0, s as int);
    assert(spec_digits_val(fs) == r);
    assert(fs.len() == s);
    assert(spec_digits_val(a) == ip);
    assert(ip * pow10(s) + r == d.mant);
    assert(d.mant < MANT_LIMIT);
    assert(s <= SCALE_LIMIT);
    assert(spec_parse_dec(text) == Some(
        Dec { neg: d.neg && d.mant != 0, mant: d.mant, scale: s as u32 },
    ));
    assert((Dec { neg: d.neg && d.mant != 0, mant: d.mant, scale: s as u32 }) == d);
}

/// The last digit of a number is the last digit of its remainder by any
/// positive power of ten.
proof fn lemma_mod_last_digit(n: nat, s: nat)
    requires
        s >= 1,
    ensures
        (n % pow10(s)) % 10 == n % 10,
{
    lemma_pow10_pos((s - 1) as nat);
    assert(pow10(s) == 10 * pow10((s - 1) as nat));
    vstd::arithmetic::div_mod::lemma_mod_mod(n as int, 10, pow10((s - 1) as nat) as int);
}


/// The header key parsed on line `k` of the lines list, if any.
pub open spec fn spec_line_key(lines: Seq<(int, Seq<char>)>, k: int) -> Option<HeaderField> {
    match spec_header_kv(lines[k].1, k + 1) {
        None => None,
        Some((kt, _)) => spec_parse_header_field(kt.value),
    }
}

/// The key token of line `k`, assuming the line splits.
pub open spec fn spec_line_key_token(lines: Seq<(int, Seq<char>)>, k: int) -> TokenModel {
    match spec_header_kv(lines[k].1, k + 1) {
        None => TokenModel { value: Seq::empty(), start: 0, end: 0, lineno: 0 },
        Some((kt, _)) => kt,
    }
}

/// A header line that the fold can consume: not an end marker, with a
/// separator and a known key.
pub open spec fn spec_good_line(lines: Seq<(int, Seq<char>)>, k: int) -> bool {
    &&& !spec_starts_with(lines[k].1, "end_of_head"@)
    &&& spec_header_kv(lines[k].1, k + 1) is Some
    &&& spec_line_key(lines, k) is Some
}

/// Setting one field's slot leaves every other slot unchanged, and fills
/// the set one.
pub proof fn lemma_store_set_get(m: StoreModel, g: HeaderField, t: TokenModel, f: HeaderField)
    ensures
        store_get(store_set(m, g, t), f) == (if f == g {
            Some(t)
        } else {
            store_get(m, f)
        }),
{
}

/// Folding from a store that already holds the key of line `j`, over
/// consumable lines whose keys are fresh and pairwise distinct, fails
/// with a duplicated-key error naming line `j`'s key.
pub proof fn lemma_fold_dup_from(
    lines: Seq<(int, Seq<char>)>,
    idx: int,
    m: StoreModel,
    j: int,
    f: HeaderField,
)
    requires
        0 <= idx <= j < lines.len(),
        store_get(m, f) is Some,
        spec_good_line(lines, j),
        spec_line_key(lines, j) == Some(f),
        forall|k: int| idx <= k < j ==> spec_good_line(lines, k),
        forall|k: int|
            idx <= k < j ==> #[trigger] spec_line_key(lines, k) != Some(f) && store_get(
                m,
                spec_line_key(lines, k)->0,
            ) is None,
        forall|k1: int, k2: int|
            idx <= k1 < k2 < j ==> #[trigger] spec_line_key(lines, k1) != #[trigger] spec_line_key(
                lines,
                k2,
            ),
    ensures
        spec_fold_header(lines, idx, m) == Err::<(StoreModel, int), ErrModel>(
            ErrModel::DuplicatedHeaderKey {
                kind: f,
                span: (
                    spec_line_key_token(lines, j).start,
                    spec_line_key_token(lines, j).end,
                ),
                lineno: j + 1,
            },
        ),
    decreases j - idx,
{
    if idx == j {
        assert(spec_fold_header(lines, idx, m) == Err::<(StoreModel, int), ErrModel>(
            ErrModel::DuplicatedHeaderKey {
                kind: f,
                span: (
                    spec_line_key_token(lines, j).start,
                    spec_line_key_token(lines, j).end,
                ),
                lineno: j + 1,
            },
        ));
    } else {
        assert(spec_good_line(lines, idx));
        let fk = spec_line_key(lines, idx)->0;
        let vt = (spec_header_kv(lines[idx].1, idx + 1)->0).1;
        let m2 = store_set(m, fk, vt);
        lemma_store_set_get(m, fk, vt, f);
        assert forall|k: int|
            idx + 1 <= k < j implies #[trigger] spec_line_key(lines, k) != Some(f) && store_get(
            m2,
            spec_line_key(lines, k)->0,
        ) is None by {
            assert(spec_good_line(lines, k));
            lemma_store_set_get(m, fk, vt, spec_line_key(lines, k)->0);
            assert(spec_line_key(lines, idx) != spec_line_key(lines, k));
        }
        lemma_fold_dup_from(lines, idx + 1, m2, j, f);
    }
}

/// A header block holding the same key on two lines, every line up to
/// the second occurrence being otherwise consumable with distinct fresh
/// keys, always fails with a duplicated-key error naming that key.
pub proof fn lemma_duplicate_key_fails(
    lines: Seq<(int, Seq<char>)>,
    idx: int,
    m: StoreModel,
    i: int,
    j: int,
    f: HeaderField,
)
    requires
        0 <= idx <= i < j < lines.len(),
        spec_line_key(lines, i) == Some(f),
        spec_line_key(lines, j) == Some(f),
        spec_good_line(lines, j),
        forall|k: int| idx <= k < j ==> spec_good_line(lines, k),
        forall|k: int|
            idx <= k < j ==> store_get(m, (#[trigger] spec_line_key(lines, k))->0) is None,
        forall|k1: int, k2: int|
            idx <= k1 < k2 < j ==> #[trigger] spec_line_key(lines, k1) != #[trigger] spec_line_key(
                lines,
                k2,
            ),
    ensures
        spec_fold_header(lines, idx, m) == Err::<(StoreModel, int), ErrModel>(
            ErrModel::DuplicatedHeaderKey {
                kind: f,
                span: (
                    spec_line_key_token(lines, j).start,
                    spec_line_key_token(lines, j).end,
                ),
                lineno: j + 1,
            },
        ),
    decreases i - idx,
{
    if idx == i {
        let vt = (spec_header_kv(lines[i].1, i + 1)->0).1;
        let m2 = store_set(m, f, vt);
        lemma_store_set_get(m, f, vt, f);
        assert forall|k: int|
            i + 1 <= k < j implies #[trigger] spec_line_key(lines, k) != Some(f) && store_get(
            m2,
            spec_line_key(lines, k)->0,
        ) is None by {
            assert(spec_good_line(lines, k));
            assert(spec_line_key(lines, i) != spec_line_key(lines, k));
            lemma_store_set_get(m, f, vt, spec_line_key(lines, k)->0);
        }
        lemma_fold_dup_from(lines, i + 1, m2, j, f);
        assert(spec_good_line(lines, idx));
        assert(store_get(m, f) is None);
    } else {
        assert(spec_good_line(lines, idx));
        let fk = spec_line_key(lines, idx)->0;
        let vt = (spec_header_kv(lines[idx].1, idx + 1)->0).1;
        let m2 = store_set(m, fk, vt);
        assert forall|k: int|
            idx + 1 <= k < j implies store_get(
            m2,
            (#[trigger] spec_line_key(lines, k))->0,
        ) is None by {
            assert(spec_good_line(lines, k));
            lemma_store_set_get(m, fk, vt, spec_line_key(lines, k)->0);
            assert(spec_line_key(lines, idx) != spec_line_key(lines, k));
        }
        lemma_duplicate_key_fails(lines, idx + 1, m2, i, j, f);
        assert(store_get(m, fk) is None);
    }
}

/// A header block whose lines up to and including a repeated key all
/// split and carry known keys always fails with a duplicated-key error,
/// whatever the lines' values and whatever other repetitions occur:
/// either the store already holds the key of line `j`, or some earlier
/// line in the range shares it.
pub proof fn lemma_duplicate_key_always_fails(
    lines: Seq<(int, Seq<char>)>,
    idx: int,
    m: StoreModel,
    j: int,
    f: HeaderField,
)
    requires
        0 <= idx <= j < lines.len(),
        forall|k: int| idx <= k <= j ==> spec_good_line(lines, k),
        spec_line_key(lines, j) == Some(f),
        store_get(m, f) is Some || exists|i: int|
            idx <= i < j && #[trigger] spec_line_key(lines, i) == Some(f),
    ensures
        spec_fold_header(lines, idx, m) matches Err(e) && e is DuplicatedHeaderKey,
    decreases j - idx,
{
    assert(spec_good_line(lines, idx));
    let fk = spec_line_key(lines, idx)->0;
    if store_get(m, fk) is Some {
    } else {
        let vt = (spec_header_kv(lines[idx].1, idx + 1)->0).1;
        let m2 = store_set(m, fk, vt);
        if idx == j {
            assert(fk == f);
            assert(store_get(m, f) is None);
            let i = choose|i: int| idx <= i < j && #[trigger] spec_line_key(lines, i) == Some(f);
            assert(false);
        } else {
            lemma_store_set_get(m, fk, vt, f);
            if store_get(m, f) is Some {
                assert(store_get(m2, f) is Some);
            } else if fk == f {
                assert(store_get(m2, f) is Some);
            } else {
                let i = choose|i: int|
                    idx <= i < j && #[trigger] spec_line_key(lines, i) == Some(f);
                assert(i != idx);
                assert(idx + 1 <= i < j && spec_line_key(lines, i) == Some(f));
            }
            lemma_duplicate_key_always_fails(lines, idx + 1, m2, j, f);
        }
    }
}

/// Under `coord type = geodetic`, the presence of any projected-only key
/// makes bounds resolution fail, for every data format and coordinate
/// unit, with the invalid-data-bounds error naming the first present key
/// in the fixed order (north min, north max, east min, east max, delta
/// north, delta east) and carrying that token's line; `spec_geodetic_excl`
/// spells that error out.
pub proof fn lemma_geodetic_exclusive(m: StoreModel, df: DataFormat, cu: CoordUnits)
    requires
        m.north_min is Some || m.north_max is Some || m.east_min is Some || m.east_max is Some
            || m.delta_north is Some || m.delta_east is Some,
    ensures
        spec_geodetic_excl(m) is Some,
        spec_bounds_geodetic(m, df, cu) == Err::<DataBounds, ErrModel>(spec_geodetic_excl(m)->0),
        spec_geodetic_excl(m)->0 matches ErrModel::InvalidDataBounds { coord_type, .. }
            && coord_type == CoordType::Geodetic,
{
    assert(spec_geodetic_excl(m) is Some);
}

/// Under `coord type = projected`, the presence of any geodetic-only key
/// makes bounds resolution fail, for every data format and coordinate
/// unit, with the invalid-data-bounds error naming the first present key
/// in the fixed order (lat min, lat max, lon min, lon max, delta lat,
/// delta lon) and carrying that token's line; `spec_projected_excl`
/// spells that error out.
pub proof fn lemma_projected_exclusive(m: StoreModel, df: DataFormat, cu: CoordUnits)
    requires
        m.lat_min is Some || m.lat_max is Some || m.lon_min is Some || m.lon_max is Some
            || m.delta_lat is Some || m.delta_lon is Some,
    ensures
        spec_projected_excl(m) is Some,
        spec_bounds_projected(m, df, cu) == Err::<DataBounds, ErrModel>(spec_projected_excl(m)->0),
        spec_projected_excl(m)->0 matches ErrModel::InvalidDataBounds { coord_type, .. }
            && coord_type == CoordType::Projected,
{
    assert(spec_projected_excl(m) is Some);
}

/// A grid row read that succeeds has consumed exactly `ncols` cells, and
/// each stored cell is the parsed value of its token, absent exactly when
/// it equals the `nodata` sentinel.
pub proof fn lemma_grid_row_ok(
    cells: Seq<TokenModel>,
    i: int,
    ncols: int,
    nodata: Option<Dec>,
    lineno: int,
    row: Seq<Option<Dec>>,
)
    requires
        0 <= i <= cells.len(),
        spec_grid_row(cells, i, ncols, nodata, lineno) == Ok::<_, ErrModel>(row),
    ensures
        cells.len() == ncols,
        row.len() == cells.len() - i,
        forall|k: int|
            0 <= k < row.len() ==> (#[trigger] spec_parse_dec(cells[i + k].value) matches Some(d)
                && row[k] == (if nodata matches Some(nd) && nd == d {
                None::<Dec>
            } else {
                Some(d)
            })),
    decreases cells.len() - i,
{
    if i >= cells.len() {
    } else {
        let rest = spec_grid_row(cells, i + 1, ncols, nodata, lineno)->Ok_0;
        lemma_grid_row_ok(cells, i + 1, ncols, nodata, lineno, rest);
        assert forall|k: int|
            0 <= k < row.len() implies (#[trigger] spec_parse_dec(cells[i + k].value)
            matches Some(d) && row[k] == (if nodata matches Some(nd) && nd == d {
            None::<Dec>
        } else {
            Some(d)
        })) by {
            if k > 0 {
                assert(row[k] == rest[k - 1]);
                assert(spec_parse_dec(cells[i + 1 + (k - 1)].value) is Some);
            }
        }
    }
}

/// A row holding more cells than `ncols`, its first `ncols` cells
/// parsing, fails with a too-long-column error.
pub proof fn lemma_grid_row_long(
    cells: Seq<TokenModel>,
    i: int,
    ncols: int,
    nodata: Option<Dec>,
    lineno: int,
)
    requires
        0 <= i <= ncols,
        cells.len() > ncols,
        forall|k: int| i <= k < ncols ==> #[trigger] spec_parse_dec(cells[k].value) is Some,
    ensures
        spec_grid_row(cells, i, ncols, nodata, lineno) == Err::<Seq<Option<Dec>>, ErrModel>(
            ErrModel::InvalidDataLength { long: true, row: false, expected: ncols, lineno },
        ),
    decreases ncols - i,
{
    if i < ncols {
        lemma_grid_row_long(cells, i + 1, ncols, nodata, lineno);
    }
}

/// A row holding fewer cells than `ncols`, all of them parsing, fails
/// with a too-short-column error.
pub proof fn lemma_grid_row_short(
    cells: Seq<TokenModel>,
    i: int,
    ncols: int,
    nodata: Option<Dec>,
    lineno: int,
)
    requires
        0 <= i <= cells.len(),
        cells.len() < ncols,
        forall|k: int| i <= k < cells.len() ==> #[trigger] spec_parse_dec(cells[k].value) is Some,
    ensures
        spec_grid_row(cells, i, ncols, nodata, lineno) == Err::<Seq<Option<Dec>>, ErrModel>(
            ErrModel::InvalidDataLength { long: false, row: false, expected: ncols, lineno },
        ),
    decreases cells.len() - i,
{
    if i < cells.len() {
        lemma_grid_row_short(cells, i + 1, ncols, nodata, lineno);
    }
}

/// A grid body holding more rows than `nrows`, its first `nrows` rows
/// reading back whole, fails with a too-long-row error. `delta` names
/// the fixed offset between a line's index and its row number.
pub proof fn lemma_grid_rows_long(
    lines: Seq<(int, Seq<char>)>,
    idx: int,
    rno: int,
    nrows: int,
    ncols: int,
    nodata: Option<Dec>,
    end_lineno: int,
    delta: int,
)
    requires
        0 <= idx <= lines.len(),
        0 <= rno <= nrows,
        delta == rno - idx,
        lines.len() - idx > nrows - rno,
        forall|k: int|
            idx <= k < idx + (nrows - rno) ==> #[trigger] spec_grid_row(
                crate::token::spec_cells_from(lines[k].1, end_lineno + (k + delta) + 1, 0),
                0,
                ncols,
                nodata,
                end_lineno + (k + delta) + 1,
            ) is Ok,
    ensures
        spec_grid_rows(lines, idx, rno, nrows, ncols, nodata, end_lineno) == Err::<
            Seq<Seq<Option<Dec>>>,
            ErrModel,
        >(
            ErrModel::InvalidDataLength {
                long: true,
                row: true,
                expected: nrows,
                lineno: end_lineno + nrows + 1,
            },
        ),
    decreases nrows - rno,
{
    if rno < nrows {
        assert(spec_grid_row(
            crate::token::spec_cells_from(lines[idx].1, end_lineno + (idx + delta) + 1, 0),
            0,
            ncols,
            nodata,
            end_lineno + (idx + delta) + 1,
        ) is Ok);
        assert(end_lineno + (idx + delta) + 1 == end_lineno + rno + 1);
        lemma_grid_rows_long(lines, idx + 1, rno + 1, nrows, ncols, nodata, end_lineno, delta);
    }
}

/// The row a successful read of line `k` yields, at the line number the
/// fixed index-to-row offset `delta` gives it; meaningful only on the
/// successful path.
pub open spec fn spec_row_of_line(
    lines: Seq<(int, Seq<char>)>,
    k: int,
    ncols: int,
    nodata: Option<Dec>,
    end_lineno: int,
    delta: int,
) -> Seq<Option<Dec>> {
    match spec_grid_row(
        crate::token::spec_cells_from(lines[k].1, end_lineno + (k + delta) + 1, 0),
        0,
        ncols,
        nodata,
        end_lineno + (k + delta) + 1,
    ) {
        Ok(r) => r,
        Err(_) => Seq::empty(),
    }
}

/// A grid body whose remaining lines number exactly `nrows`, each row
/// reading back whole, parses successfully into exactly those rows, in
/// line order. `delta` names the fixed offset between a line's index and
/// its row number.
pub proof fn lemma_grid_rows_ok(
    lines: Seq<(int, Seq<char>)>,
    idx: int,
    rno: int,
    nrows: int,
    ncols: int,
    nodata: Option<Dec>,
    end_lineno: int,
    delta: int,
)
    requires
        0 <= idx <= lines.len(),
        0 <= rno <= nrows,
        delta == rno - idx,
        lines.len() - idx == nrows - rno,
        forall|k: int|
            idx <= k < lines.len() ==> #[trigger] spec_grid_row(
                crate::token::spec_cells_from(lines[k].1, end_lineno + (k + delta) + 1, 0),
                0,
                ncols,
                nodata,
                end_lineno + (k + delta) + 1,
            ) is Ok,
    ensures
        spec_grid_rows(lines, idx, rno, nrows, ncols, nodata, end_lineno) matches Ok(rows)
            && rows.len() == nrows - rno && (forall|k: int|
            0 <= k < rows.len() ==> #[trigger] rows[k] == spec_row_of_line(
                lines,
                idx + k,
                ncols,
                nodata,
                end_lineno,
                delta,
            )),
    decreases nrows - rno,
{
    if rno < nrows {
        assert(spec_grid_row(
            crate::token::spec_cells_from(lines[idx].1, end_lineno + (idx + delta) + 1, 0),
            0,
            ncols,
            nodata,
            end_lineno + (idx + delta) + 1,
        ) is Ok);
        assert(end_lineno + (idx + delta) + 1 == end_lineno + rno + 1);
        lemma_grid_rows_ok(lines, idx + 1, rno + 1, nrows, ncols, nodata, end_lineno, delta);
        let rows = spec_grid_rows(lines, idx, rno, nrows, ncols, nodata, end_lineno)->Ok_0;
        let rest = spec_grid_rows(lines, idx + 1, rno + 1, nrows, ncols, nodata, end_lineno)->Ok_0;
        assert forall|k: int|
            0 <= k < rows.len() implies #[trigger] rows[k] == spec_row_of_line(
            lines,
            idx + k,
            ncols,
            nodata,
            end_lineno,
            delta,
        ) by {
            if k == 0 {
                assert(rows[0] == spec_row_of_line(lines, idx, ncols, nodata, end_lineno, delta));
            } else {
                assert(rows[k] == rest[k - 1]);
                assert(rest[k - 1] == spec_row_of_line(
                    lines,
                    (idx + 1) + (k - 1),
                    ncols,
                    nodata,
                    end_lineno,
                    delta,
                ));
            }
        }
    }
}

/// A grid body holding fewer rows than `nrows`, all of them reading
/// back whole, fails with a too-short-row error.
pub proof fn lemma_grid_rows_short(
    lines: Seq<(int, Seq<char>)>,
    idx: int,
    rno: int,
    nrows: int,
    ncols: int,
    nodata: Option<Dec>,
    end_lineno: int,
    delta: int,
)
    requires
        0 <= idx <= lines.len(),
        0 <= rno,
        delta == rno - idx,
        lines.len() - idx < nrows - rno,
        forall|k: int|
            idx <= k < lines.len() ==> #[trigger] spec_grid_row(
                crate::token::spec_cells_from(lines[k].1, end_lineno + (k + delta) + 1, 0),
                0,
                ncols,
                nodata,
                end_lineno + (k + delta) + 1,
            ) is Ok,
    ensures
        spec_grid_rows(lines, idx, rno, nrows, ncols, nodata, end_lineno) == Err::<
            Seq<Seq<Option<Dec>>>,
            ErrModel,
        >(
            ErrModel::InvalidDataLength {
                long: false,
                row: true,
                expected: nrows,
                lineno: crate::parse::spec_capped(end_lineno + (rno + (lines.len() - idx)) + 1),
            },
        ),
    decreases lines.len() - idx,
{
    if idx < lines.len() {
        assert(spec_grid_row(
            crate::token::spec_cells_from(lines[idx].1, end_lineno + (idx + delta) + 1, 0),
            0,
            ncols,
            nodata,
            end_lineno + (idx + delta) + 1,
        ) is Ok);
        assert(end_lineno + (idx + delta) + 1 == end_lineno + rno + 1);
        lemma_grid_rows_short(lines, idx + 1, rno + 1, nrows, ncols, nodata, end_lineno, delta);
    }
}

/// An absent grid cell under a declared `nodata` sentinel renders back to
/// the sentinel's own fixed-precision text: round-tripping keeps the
/// sentinel literal.
pub proof fn lemma_nodata_renders_sentinel(nd: Dec)
    ensures
        spec_cell_text(None, Some(nd)) == spec_pad_left(spec_dec_fixed(nd, 4), 10),
        spec_cell_text(Some(nd), Some(nd)) == spec_cell_text(None, Some(nd)),
{
    reveal(spec_cell_text);
}

} // verus!
