//! The exact-decimal number model behind grid cells, the `nodata`
//! sentinel and decimal coordinates: grammar, normal form and
//! fixed-precision rendering.
//!
//! The textual grammar is an optional sign, a non-empty run of digits,
//! and an optional point followed by a non-empty run of digits. Rendering
//! at a fixed precision rounds half to even when the value carries more
//! fractional digits than the precision keeps.

use vstd::prelude::*;

use crate::Dec;
use crate::text::{
    find2, lemma_find2_shift, lemma_rskip_shift, lemma_udigits_len, parse_digits, push_repeat,
    push_u128, count_digits, rskip_char, spec_all_digits, spec_digits_val, spec_find2,
    spec_repeat, spec_rskip, spec_udigits,
};

verus! {

/// Upper bound (exclusive) on a well-formed mantissa: 10^30.
pub const MANT_LIMIT: u128 = 1000000000000000000000000000000;

/// Upper bound (inclusive) on a well-formed scale.
pub const SCALE_LIMIT: u32 = 30;

/// 10^e as a mathematical natural.
pub open spec fn pow10(e: nat) -> nat
    decreases e,
{
    if e == 0 {
        1
    } else {
        10 * pow10((e - 1) as nat)
    }
}

/// A well-formed decimal: normalized and within the machine bounds.
pub open spec fn dec_wf(d: Dec) -> bool {
    &&& d.mant < MANT_LIMIT
    &&& d.scale <= SCALE_LIMIT
    &&& (d.scale > 0 ==> d.mant % 10 != 0)
    &&& (d.mant == 0 ==> !d.neg && d.scale == 0)
}

/// The number a decimal denotes, scaled by the fixed factor
/// 10^[`SCALE_LIMIT`] so that every representable value maps to an
/// integer: `dec_real(d) == sign(d) * mant * 10^(SCALE_LIMIT - scale)`.
pub open spec fn dec_real(d: Dec) -> int
    recommends
        d.scale <= SCALE_LIMIT,
{
    let m = d.mant * pow10((SCALE_LIMIT - d.scale) as nat);
    if d.neg {
        -m
    } else {
        m as int
    }
}

pub proof fn lemma_pow10_pos(e: nat)
    ensures
        pow10(e) >= 1,
    decreases e,
{
    if e > 0 {
        lemma_pow10_pos((e - 1) as nat);
    }
}

pub proof fn lemma_pow10_adds(a: nat, b: nat)
    ensures
        pow10(a + b) == pow10(a) * pow10(b),
    decreases a,
{
    if a == 0 {
        assert(a + b == b);
        assert(pow10(a) == 1);
        assert(pow10(a) * pow10(b) == pow10(b)) by (nonlinear_arith)
            requires
                pow10(a) == 1,
        ;
    } else {
        let p1 = pow10((a - 1) as nat);
        let q = pow10(b);
        lemma_pow10_adds((a - 1) as nat, b);
        assert((a + b - 1) as nat == (a - 1) as nat + b);
        assert(pow10(a + b) == 10 * pow10((a + b - 1) as nat));
        assert(pow10((a + b - 1) as nat) == p1 * q);
        assert(pow10(a) == 10 * p1);
        assert(pow10(a + b) == 10 * (p1 * q));
        assert(pow10(a + b) == pow10(a) * pow10(b)) by (nonlinear_arith)
            requires
                pow10(a + b) == 10 * (p1 * q),
                pow10(a) == 10 * p1,
                pow10(b) == q,
        ;
    }
}

pub proof fn lemma_pow10_le(a: nat, b: nat)
    requires
        a <= b,
    ensures
        pow10(a) <= pow10(b),
    decreases b,
{
    if a < b {
        lemma_pow10_le(a, (b - 1) as nat);
        lemma_pow10_pos((b - 1) as nat);
    }
}

pub proof fn lemma_pow10_38()
    ensures
        pow10(38) == 100000000000000000000000000000000000000,
        pow10(30) == MANT_LIMIT,
{
    reveal_with_fuel(pow10, 40);
}

/// 10^e as a machine value.
pub fn pow10_u128(e: u32) -> (r: u128)
    requires
        e <= 38,
    ensures
        r == pow10(e as nat),
{
    proof {
        lemma_pow10_38();
    }
    let mut r: u128 = 1;
    let mut i: u32 = 0;
    while i < e
        invariant
            i <= e <= 38,
            r == pow10(i as nat),
        decreases e - i,
    {
        proof {
            lemma_pow10_le((i + 1) as nat, 38);
            lemma_pow10_38();
        }
        r = r * 10;
        i = i + 1;
    }
    r
}

impl Dec {
    /// Makes a decimal from a sign, a mantissa and a scale, normalizing it:
    /// trailing zeros of the mantissa are traded against the scale, and zero
    /// loses its sign and scale. The result denotes the same number as the
    /// arguments do.
    pub fn new(neg: bool, mant: u128, scale: u32) -> (r: Dec)
        requires
            mant < MANT_LIMIT,
            scale <= SCALE_LIMIT,
        ensures
            dec_wf(r),
            dec_real(r) == dec_real(Dec { neg, mant, scale }),
    {
        let mut m = mant;
        let mut s = scale;
        while s > 0 && m % 10 == 0
            invariant
                m <= mant,
                s <= scale,
                scale <= SCALE_LIMIT,
                mant < MANT_LIMIT,
                dec_real(Dec { neg, mant: m, scale: s }) == dec_real(
                    Dec { neg, mant, scale },
                ),
            decreases s,
        {
            proof {
                let old_m = m;
                let old_s = s;
                assert(pow10((SCALE_LIMIT - (old_s - 1)) as nat) == 10 * pow10(
                    (SCALE_LIMIT - old_s) as nat,
                ));
                assert(old_m == 10 * (old_m / 10)) by {
                    assert(old_m % 10 == 0);
                };
                assert((old_m / 10) * pow10((SCALE_LIMIT - (old_s - 1)) as nat) == old_m * pow10(
                    (SCALE_LIMIT - old_s) as nat,
                )) by (nonlinear_arith)
                    requires
                        old_m == 10 * (old_m / 10),
                        pow10((SCALE_LIMIT - (old_s - 1)) as nat) == 10 * pow10(
                            (SCALE_LIMIT - old_s) as nat,
                        ),
                ;
            }
            m = m / 10;
            s = s - 1;
        }
        if m == 0 {
            proof {
                assert(m * pow10((SCALE_LIMIT - s) as nat) == 0) by (nonlinear_arith)
                    requires
                        m == 0,
                ;
                assert(0u128 * pow10((SCALE_LIMIT - 0u32) as nat) == 0) by (nonlinear_arith);
                assert(dec_real(Dec { neg, mant: m, scale: s }) == 0);
                assert(dec_real(Dec { neg: false, mant: 0u128, scale: 0u32 }) == 0);
            }
            Dec { neg: false, mant: 0, scale: 0 }
        } else {
            Dec { neg, mant: m, scale: s }
        }
    }
}

/// Splits an optional leading sign off a numeral: the sign it denotes and
/// the remainder.
pub open spec fn spec_strip_sign(s: Seq<char>) -> (bool, Seq<char>) {
    if s.len() > 0 && s[0] == '-' {
        (true, s.drop_first())
    } else if s.len() > 0 && s[0] == '+' {
        (false, s.drop_first())
    } else {
        (false, s)
    }
}

/// Assembles a decimal from its sign, integer digits and fraction digits.
/// `had_dot` records whether a decimal point was present, in which case the
/// fraction must be non-empty. Trailing fraction zeros are dropped, giving
/// the normal form; a numeral whose mantissa or scale leaves the machine
/// bounds is rejected.
pub open spec fn spec_make_dec(neg: bool, ip: Seq<char>, fp: Seq<char>, had_dot: bool) -> Option<
    Dec,
> {
    if ip.len() == 0 || !spec_all_digits(ip) {
        None
    } else if had_dot && (fp.len() == 0 || !spec_all_digits(fp)) {
        None
    } else {
        let fs = fp.subrange(0, spec_rskip(fp, 0, fp.len() as int, '0'));
        let m = spec_digits_val(ip) * pow10(fs.len()) + spec_digits_val(fs);
        if m < MANT_LIMIT && fs.len() <= SCALE_LIMIT {
            Some(Dec { neg: neg && m != 0, mant: m as u128, scale: fs.len() as u32 })
        } else {
            None
        }
    }
}

/// The decimal grammar: optional sign, non-empty integer digits, and an
/// optional point with non-empty fraction digits.
pub open spec fn spec_parse_dec(s: Seq<char>) -> Option<Dec> {
    let (neg, t) = spec_strip_sign(s);
    match spec_find2(t, 0, t.len() as int, '.', '.') {
        Some(dot) => spec_make_dec(
            neg,
            t.subrange(0, dot),
            t.subrange(dot + 1, t.len() as int),
            true,
        ),
        None => spec_make_dec(neg, t, Seq::<char>::empty(), false),
    }
}

/// Every decimal the grammar accepts is well-formed.
pub proof fn lemma_parse_dec_wf(s: Seq<char>)
    ensures
        spec_parse_dec(s) matches Some(d) ==> dec_wf(d),
{
    let (neg, t) = spec_strip_sign(s);
    match spec_find2(t, 0, t.len() as int, '.', '.') {
        Some(dot) => {
            lemma_make_dec_wf(neg, t.subrange(0, dot), t.subrange(dot + 1, t.len() as int), true);
        },
        None => {
            lemma_make_dec_wf(neg, t, Seq::<char>::empty(), false);
        },
    }
}

proof fn lemma_make_dec_wf(neg: bool, ip: Seq<char>, fp: Seq<char>, had_dot: bool)
    requires
        !had_dot ==> fp.len() == 0,
    ensures
        spec_make_dec(neg, ip, fp, had_dot) matches Some(d) ==> dec_wf(d),
{
    if spec_make_dec(neg, ip, fp, had_dot) is Some {
        let k = spec_rskip(fp, 0, fp.len() as int, '0');
        let fs = fp.subrange(0, k);
        let a = spec_digits_val(ip);
        let m = a * pow10(fs.len()) + spec_digits_val(fs);
        if fs.len() > 0 {
            lemma_rskip_bounds(fp, 0, fp.len() as int, '0');
            lemma_rskip_last(fp, fp.len() as int);
            assert(fs.last() == fp[k - 1]);
            assert(crate::text::spec_is_digit(fp[k - 1]));
            lemma_digits_val_last_mod(fs, a);
        }
    }
}

/// Backward skipping stays within the given range.
pub proof fn lemma_rskip_bounds(s: Seq<char>, from: int, to: int, c: char)
    requires
        0 <= from <= to <= s.len(),
    ensures
        from <= spec_rskip(s, from, to, c) <= to,
    decreases to - from,
{
    if to > from && s[to - 1] == c {
        lemma_rskip_bounds(s, from, to - 1, c);
    }
}

/// After stripping, the last kept character is not the stripped one.
proof fn lemma_rskip_last(s: Seq<char>, k: int)
    requires
        0 <= k <= s.len(),
    ensures
        ({
            let r = spec_rskip(s, 0, k, '0');
            r > 0 ==> s[r - 1] != '0'
        }),
    decreases k,
{
    if k > 0 && s[k - 1] == '0' {
        lemma_rskip_last(s, k - 1);
    }
}

/// The mantissa assembled over digits ending in a non-zero digit is not
/// divisible by ten.
proof fn lemma_digits_val_last_mod(fs: Seq<char>, a: nat)
    requires
        fs.len() > 0,
        fs.last() != '0',
        crate::text::spec_is_digit(fs.last()),
    ensures
        (a * pow10(fs.len()) + spec_digits_val(fs)) % 10 != 0,
{
    let v = spec_digits_val(fs);
    let d = crate::text::spec_digit_val(fs.last());
    let w = spec_digits_val(fs.drop_last());
    assert(v == w * 10 + d);
    assert(('0' as u32) == 48);
    if d == 0 {
        vstd::utf8::char_u32_cast(fs.last(), (fs.last() as u32));
        vstd::utf8::char_u32_cast('0', ('0' as u32));
        assert((fs.last() as u32) == 48);
        assert(fs.last() == '0');
    }
    assert(1 <= d <= 9);
    let p = pow10((fs.len() - 1) as nat);
    assert(pow10(fs.len()) == 10 * p);
    let x = a * p + w;
    assert(a * (10 * p) + (w * 10 + d) == 10 * x + d) by (nonlinear_arith)
        requires
            x == a * p + w,
    ;
    vstd::arithmetic::div_mod::lemma_mod_multiples_vanish(x as int, d as int, 10);
    vstd::arithmetic::div_mod::lemma_small_mod(d, 10);
}

/// Reads a whole character slice as a decimal numeral.
pub fn parse_dec(v: &[char]) -> (r: Option<Dec>)
    ensures
        r == spec_parse_dec(v@),
{
    let n = v.len();
    let mut from: usize = 0;
    let mut neg = false;
    if n > 0 && v[0] == '-' {
        neg = true;
        from = 1;
    } else if n > 0 && v[0] == '+' {
        from = 1;
    }
    let ghost t = v@.subrange(from as int, n as int);
    proof {
        if from == 1 {
            assert(v@.drop_first() =~= t);
        } else {
            assert(v@ =~= t);
        }
        assert(spec_strip_sign(v@) == (neg, t));
        lemma_find2_shift(v@, from as int, n as int, 0, '.', '.');
    }
    match find2(v, from, n, '.', '.') {
        Some(dot) => {
            proof {
                assert(t.subrange(0, dot - from) =~= v@.subrange(from as int, dot as int));
                assert(t.subrange(dot + 1 - from, t.len() as int) =~= v@.subrange(
                    dot + 1,
                    n as int,
                ));
            }
            make_dec(v, neg, from, dot, dot + 1, n, true)
        },
        None => {
            proof {
                assert(v@.subrange(from as int, n as int) == t);
                assert(v@.subrange(n as int, n as int) =~= Seq::<char>::empty());
            }
            make_dec(v, neg, from, n, n, n, false)
        },
    }
}

fn make_dec(v: &[char], neg: bool, ip_from: usize, ip_to: usize, fp_from: usize, fp_to: usize, had_dot: bool) -> (r: Option<Dec>)
    requires
        ip_from <= ip_to <= fp_from <= fp_to <= v@.len(),
        !had_dot ==> fp_from == fp_to,
    ensures
        r == spec_make_dec(
            neg,
            v@.subrange(ip_from as int, ip_to as int),
            v@.subrange(fp_from as int, fp_to as int),
            had_dot,
        ),
{
    let ghost ip = v@.subrange(ip_from as int, ip_to as int);
    let ghost fp = v@.subrange(fp_from as int, fp_to as int);
    if had_dot && fp_from == fp_to {
        return None;
    }
    // Check every fraction character is a digit before stripping zeros,
    // so rejection for a stray character is decided on the full fraction.
    let mut i: usize = fp_from;
    while i < fp_to
        invariant
            ip_from <= ip_to <= fp_from <= i <= fp_to <= v@.len(),
            !had_dot ==> fp_from == fp_to,
            ip == v@.subrange(ip_from as int, ip_to as int),
            fp == v@.subrange(fp_from as int, fp_to as int),
            forall|j: int| 0 <= j < i - fp_from ==> crate::text::spec_is_digit(#[trigger] fp[j]),
        decreases fp_to - i,
    {
        if !crate::text::is_digit(v[i]) {
            proof {
                assert(fp[i - fp_from] == v@[i as int]);
                assert(!spec_all_digits(fp));
                assert(had_dot && fp.len() > 0);
                assert(spec_make_dec(neg, ip, fp, had_dot) is None);
            }
            return None;
        }
        proof {
            assert(fp[i - fp_from] == v@[i as int]);
        }
        i = i + 1;
    }
    assert(spec_all_digits(fp));
    let fs_to = rskip_char(v, fp_from, fp_to, '0');
    proof {
        lemma_rskip_shift(v@, fp_from as int, fp_to as int, fp_to - fp_from, '0');
    }
    let ghost fs = fp.subrange(0, spec_rskip(fp, 0, fp.len() as int, '0'));
    proof {
        assert(fs =~= v@.subrange(fp_from as int, fs_to as int));
    }
    let fs_len = fs_to - fp_from;
    if fs_len > 30 {
        proof {
            lemma_pow10_38();
        }
        return None;
    }
    let b: u128 = if fs_to == fp_from {
        proof {
            assert(fs =~= Seq::<char>::empty());
        }
        0
    } else {
        match parse_digits(v, fp_from, fs_to) {
            Some(x) => x,
            None => {
                proof {
                    lemma_pow10_38();
                    assert(spec_digits_val(fs) > u128::MAX);
                    assert(spec_digits_val(ip) * pow10(fs.len()) >= 0);
                }
                return None;
            },
        }
    };
    let a: u128 = match parse_digits(v, ip_from, ip_to) {
        Some(x) => x,
        None => {
            proof {
                if ip.len() > 0 && spec_all_digits(ip) {
                    lemma_pow10_pos(fs.len());
                    lemma_pow10_38();
                    assert(spec_digits_val(ip) * pow10(fs.len()) >= spec_digits_val(ip) * 1)
                        by (nonlinear_arith)
                        requires
                            pow10(fs.len()) >= 1,
                    ;
                }
            }
            return None;
        },
    };
    let pw = pow10_u128(fs_len as u32);
    proof {
        lemma_pow10_38();
        lemma_pow10_pos(fs.len());
    }
    if a > (u128::MAX - b) / pw {
        proof {
            vstd::arithmetic::div_mod::lemma_fundamental_div_mod(u128::MAX - b, pw as int);
            vstd::arithmetic::div_mod::lemma_mod_division_less_than_divisor(
                u128::MAX - b,
                pw as int,
            );
            assert(a * pow10(fs.len()) + spec_digits_val(fs) > u128::MAX) by (nonlinear_arith)
                requires
                    a > (u128::MAX - b) / (pw as int),
                    pw >= 1,
                    (u128::MAX - b) / (pw as int) * pw + (u128::MAX - b) % (pw as int)
                        == u128::MAX - b,
                    0 <= (u128::MAX - b) % (pw as int) < pw,
                    pow10(fs.len()) == pw,
                    spec_digits_val(fs) == b,
            ;
        }
        return None;
    }
    proof {
        vstd::arithmetic::div_mod::lemma_fundamental_div_mod(u128::MAX - b, pw as int);
        vstd::arithmetic::div_mod::lemma_mod_division_less_than_divisor(u128::MAX - b, pw as int);
        assert(a * pw + b <= u128::MAX) by (nonlinear_arith)
            requires
                a <= (u128::MAX - b) / (pw as int),
                pw >= 1,
                (u128::MAX - b) / (pw as int) * pw + (u128::MAX - b) % (pw as int)
                    == u128::MAX - b,
                0 <= (u128::MAX - b) % (pw as int) < pw,
        ;
    }
    let m = a * pw + b;
    if m >= MANT_LIMIT {
        return None;
    }
    Some(Dec { neg: neg && m != 0, mant: m, scale: fs_len as u32 })
}

/// The mantissa of a decimal re-scaled to exactly `prec` fractional
/// digits, rounding half to even when digits are dropped.
pub open spec fn spec_dec_scaled(d: Dec, prec: nat) -> nat {
    if d.scale <= prec {
        (d.mant as nat) * pow10((prec - d.scale) as nat)
    } else {
        let w = pow10((d.scale - prec) as nat);
        let q = (d.mant as nat) / w;
        let r = (d.mant as nat) % w;
        if 2 * r > w || (2 * r == w && q % 2 == 1) {
            q + 1
        } else {
            q
        }
    }
}

/// A numeral left-padded with zeros to at least `w` characters.
pub open spec fn spec_zero_pad(s: Seq<char>, w: nat) -> Seq<char> {
    if s.len() >= w {
        s
    } else {
        spec_repeat('0', (w - s.len()) as nat) + s
    }
}

/// A text left-padded with spaces to at least `w` characters.
pub open spec fn spec_pad_left(s: Seq<char>, w: nat) -> Seq<char> {
    if s.len() >= w {
        s
    } else {
        spec_repeat(' ', (w - s.len()) as nat) + s
    }
}

/// A decimal rendered with exactly `prec` fractional digits: optional
/// minus sign, integer digits, point, `prec` fraction digits.
#[verifier::opaque]
pub open spec fn spec_dec_fixed(d: Dec, prec: nat) -> Seq<char> {
    let q = spec_dec_scaled(d, prec);
    let ip = q / pow10(prec);
    let fp = q % pow10(prec);
    let sign: Seq<char> = if d.neg {
        seq!['-']
    } else {
        Seq::empty()
    };
    sign + spec_udigits(ip) + seq!['.'] + spec_zero_pad(spec_udigits(fp), prec)
}

/// A decimal rendered plainly: all its digits and no padding, the point
/// only when the scale is positive.
#[verifier::opaque]
pub open spec fn spec_dec_plain(d: Dec) -> Seq<char> {
    let sign: Seq<char> = if d.neg {
        seq!['-']
    } else {
        Seq::empty()
    };
    if d.scale == 0 {
        sign + spec_udigits(d.mant as nat)
    } else {
        let ip = d.mant as nat / pow10(d.scale as nat);
        let fp = d.mant as nat % pow10(d.scale as nat);
        sign + spec_udigits(ip) + seq!['.'] + spec_zero_pad(spec_udigits(fp), d.scale as nat)
    }
}

/// Appends a decimal at fixed precision, right-aligned in a field of
/// `width` characters.
#[verifier::rlimit(100)]
pub fn push_dec_fixed(out: &mut String, d: Dec, prec: u32, width: u32)
    requires
        d.mant < MANT_LIMIT,
        d.scale <= SCALE_LIMIT,
        1 <= prec <= 6,
        width <= 32,
    ensures
        final(out)@ == old(out)@ + spec_pad_left(spec_dec_fixed(d, prec as nat), width as nat),
{
    proof {
        reveal(spec_dec_fixed);
        lemma_pow10_38();
        lemma_pow10_le(prec as nat, 6);
    }
    let q: u128 = if d.scale <= prec {
        proof {
            lemma_pow10_le((prec - d.scale) as nat, 6);
        }
        let f = pow10_u128(prec - d.scale);
        proof {
            lemma_pow10_pos(6);
            assert(d.mant * f <= (MANT_LIMIT - 1) * pow10(6)) by (nonlinear_arith)
                requires
                    d.mant <= MANT_LIMIT - 1,
                    f <= pow10(6),
                    f >= 0,
                    d.mant >= 0,
            ;
            lemma_pow10_adds(30, 6);
            lemma_pow10_le(36, 38);
            assert((MANT_LIMIT - 1) * pow10(6) < pow10(30) * pow10(6)) by (nonlinear_arith)
                requires
                    pow10(6) >= 1,
                    MANT_LIMIT == pow10(30),
            ;
        }
        d.mant * f
    } else {
        proof {
            lemma_pow10_le((d.scale - prec) as nat, 30);
        }
        let w = pow10_u128(d.scale - prec);
        proof {
            lemma_pow10_pos((d.scale - prec) as nat);
        }
        let qq = d.mant / w;
        let r = d.mant % w;
        if 2 * r > w || (2 * r == w && qq % 2 == 1) {
            qq + 1
        } else {
            qq
        }
    };
    let pw = pow10_u128(prec);
    proof {
        lemma_pow10_pos(prec as nat);
    }
    let ip = q / pw;
    let fp = q % pw;
    let sign_len: u32 = if d.neg {
        1
    } else {
        0
    };
    let ip_len = count_digits(ip);
    let fp_len = count_digits(fp);
    proof {
        lemma_udigits_len(fp as nat, prec as nat);
    }
    let total: u32 = sign_len + ip_len + 1 + prec;
    let ghost body = spec_dec_fixed(d, prec as nat);
    proof {
        reveal(spec_dec_fixed);
        assert(body.len() == total);
    }
    if total < width {
        push_repeat(out, ' ', (width - total) as usize);
    }
    let ghost after_pad = out@;
    if d.neg {
        out.push('-');
    }
    push_u128(out, ip);
    out.push('.');
    if fp_len < prec {
        push_repeat(out, '0', (prec - fp_len) as usize);
    }
    push_u128(out, fp);
    proof {
        reveal(spec_dec_fixed);
        let sign: Seq<char> = if d.neg {
            seq!['-']
        } else {
            Seq::empty()
        };
        assert(out@ =~= after_pad + sign + spec_udigits(ip as nat) + seq!['.'] + spec_zero_pad(
            spec_udigits(fp as nat),
            prec as nat,
        ));
        assert(out@ =~= old(out)@ + spec_pad_left(body, width as nat));
    }
}

/// Appends a decimal rendered plainly, right-aligned in a field of
/// `width` characters.
#[verifier::rlimit(50)]
pub fn push_dec_plain(out: &mut String, d: Dec, width: u32)
    requires
        d.mant < MANT_LIMIT,
        d.scale <= SCALE_LIMIT,
        width <= 32,
    ensures
        final(out)@ == old(out)@ + spec_pad_left(spec_dec_plain(d), width as nat),
{
    proof {
        reveal(spec_dec_plain);
        lemma_pow10_38();
        lemma_pow10_le(d.scale as nat, 30);
    }
    let ghost body = spec_dec_plain(d);
    proof {
        reveal(spec_dec_plain);
    }
    let sign_len: u32 = if d.neg {
        1
    } else {
        0
    };
    if d.scale == 0 {
        let n_len = count_digits(d.mant);
        let total = sign_len + n_len;
        if total < width {
            push_repeat(out, ' ', (width - total) as usize);
        }
        let ghost after_pad = out@;
        if d.neg {
            out.push('-');
        }
        push_u128(out, d.mant);
        proof {
            reveal(spec_dec_plain);
            let sign: Seq<char> = if d.neg {
                seq!['-']
            } else {
                Seq::empty()
            };
            assert(out@ =~= after_pad + sign + spec_udigits(d.mant as nat));
            assert(out@ =~= old(out)@ + spec_pad_left(body, width as nat));
        }
    } else {
        let pw = pow10_u128(d.scale);
        proof {
            lemma_pow10_pos(d.scale as nat);
        }
        let ip = d.mant / pw;
        let fp = d.mant % pw;
        let ip_len = count_digits(ip);
        let fp_len = count_digits(fp);
        proof {
            lemma_udigits_len(fp as nat, d.scale as nat);
        }
        let total = sign_len + ip_len + 1 + d.scale;
        if total < width {
            push_repeat(out, ' ', (width - total) as usize);
        }
        let ghost after_pad = out@;
        if d.neg {
            out.push('-');
        }
        push_u128(out, ip);
        out.push('.');
        if fp_len < d.scale {
            push_repeat(out, '0', (d.scale - fp_len) as usize);
        }
        push_u128(out, fp);
        proof {
            reveal(spec_dec_plain);
            let sign: Seq<char> = if d.neg {
                seq!['-']
            } else {
                Seq::empty()
            };
            assert(out@ =~= after_pad + sign + spec_udigits(ip as nat) + seq!['.']
                + spec_zero_pad(spec_udigits(fp as nat), d.scale as nat));
            assert(out@ =~= old(out)@ + spec_pad_left(body, width as nat));
        }
    }
}

} // verus!
