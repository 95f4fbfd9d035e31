//! Minimal coordinate arithmetic for consumers of parsed documents:
//! negation, addition, subtraction and scaling by a count. Arithmetic is
//! defined between coordinates of the same representation only; the
//! preconditions exclude mixing the two and any result that would leave
//! the machine range.

use vstd::prelude::*;

use crate::dec::{dec_real, dec_wf, lemma_pow10_adds, pow10, pow10_u128, MANT_LIMIT, SCALE_LIMIT};
use crate::{Coord, Dec};

verus! {

/// A decimal with its sign flipped; zero keeps its canonical form.
pub open spec fn spec_dec_neg(d: Dec) -> Dec {
    if d.mant == 0 {
        d
    } else {
        Dec { neg: !d.neg, mant: d.mant, scale: d.scale }
    }
}

/// The seconds-minutes-degree triple of a sexagesimal sum, carrying
/// sixties upward.
pub open spec fn spec_dms_add(ad: int, am: int, asec: int, bd: int, bm: int, bsec: int) -> (
    int,
    int,
    int,
) {
    let ts = asec + bsec;
    let s = if ts >= 60 {
        ts - 60
    } else {
        ts
    };
    let cs: int = if ts >= 60 {
        1
    } else {
        0
    };
    let tm = am + bm + cs;
    let m = if tm >= 60 {
        tm - 60
    } else {
        tm
    };
    let cm: int = if tm >= 60 {
        1
    } else {
        0
    };
    (ad + bd + cm, m, s)
}

/// The seconds-minutes-degree triple of a sexagesimal difference,
/// borrowing sixties downward.
pub open spec fn spec_dms_sub(ad: int, am: int, asec: int, bd: int, bm: int, bsec: int) -> (
    int,
    int,
    int,
) {
    let s = if asec >= bsec {
        asec - bsec
    } else {
        60 + asec - bsec
    };
    let cs: int = if asec >= bsec {
        0
    } else {
        1
    };
    let m = if am >= bm + cs {
        am - bm - cs
    } else {
        60 + am - bm - cs
    };
    let cm: int = if am >= bm + cs {
        0
    } else {
        1
    };
    (ad - bd - cm, m, s)
}

/// The seconds-minutes-degree triple of a sexagesimal value scaled by a
/// positive count; the carry leaves the degree away from zero.
pub open spec fn spec_dms_mul(d: int, m: int, s: int, k: int) -> (int, int, int) {
    let ts = s * k;
    let s2 = ts % 60;
    let cs = ts / 60;
    let tm = m * k + cs;
    let m2 = tm % 60;
    let cm = tm / 60;
    let d2 = if d >= 0 {
        d * k + cm
    } else {
        d * k - cm
    };
    (d2, m2, s2)
}

impl Coord {
    /// The negated coordinate: the degree's sign flips for the
    /// sexagesimal form, the value's sign for the decimal form.
    pub fn neg(&self) -> (r: Coord)
        requires
            self matches Coord::DMS { degree, .. } ==> degree != i16::MIN,
        ensures
            (match *self {
                Coord::DMS { degree, minutes, second } => r == (Coord::DMS {
                    degree: (-degree) as i16,
                    minutes,
                    second,
                }),
                Coord::Dec(d) => r == Coord::Dec(spec_dec_neg(d)),
            }),
            self is Dec && dec_wf(self->Dec_0) ==> dec_wf(r->Dec_0) && dec_real(r->Dec_0)
                == -dec_real(self->Dec_0),
    {
        match self {
            Coord::DMS { degree, minutes, second } => Coord::DMS {
                degree: -degree,
                minutes: *minutes,
                second: *second,
            },
            Coord::Dec(d) => {
                if d.mant == 0 {
                    Coord::Dec(*d)
                } else {
                    Coord::Dec(Dec { neg: !d.neg, mant: d.mant, scale: d.scale })
                }
            },
        }
    }

    /// The sum of two coordinates of the same representation: carry
    /// arithmetic on the sexagesimal components, exact decimal addition
    /// otherwise.
    pub fn plus(&self, rhs: &Coord) -> (r: Coord)
        requires
            self is DMS <==> rhs is DMS,
            (match (*self, *rhs) {
                (
                    Coord::DMS { degree: ad, minutes: am, second: asec },
                    Coord::DMS { degree: bd, minutes: bm, second: bsec },
                ) => am < 60 && asec < 60 && bm < 60 && bsec < 60 && i16::MIN <= spec_dms_add(
                    ad as int,
                    am as int,
                    asec as int,
                    bd as int,
                    bm as int,
                    bsec as int,
                ).0 <= i16::MAX,
                (Coord::Dec(a), Coord::Dec(b)) => dec_wf(a) && dec_wf(b) && a.mant * pow10(
                    (if a.scale >= b.scale {
                        0
                    } else {
                        b.scale - a.scale
                    }) as nat,
                ) + b.mant * pow10(
                    (if a.scale >= b.scale {
                        a.scale - b.scale
                    } else {
                        0
                    }) as nat,
                ) < MANT_LIMIT,
                _ => true,
            }),
        ensures
            (match (*self, *rhs) {
                (
                    Coord::DMS { degree: ad, minutes: am, second: asec },
                    Coord::DMS { degree: bd, minutes: bm, second: bsec },
                ) => {
                    let t = spec_dms_add(
                        ad as int,
                        am as int,
                        asec as int,
                        bd as int,
                        bm as int,
                        bsec as int,
                    );
                    r == (Coord::DMS {
                        degree: t.0 as i16,
                        minutes: t.1 as u8,
                        second: t.2 as u8,
                    })
                },
                (Coord::Dec(a), Coord::Dec(b)) => r is Dec && dec_wf(r->Dec_0) && dec_real(
                    r->Dec_0,
                ) == dec_real(a) + dec_real(b),
                _ => true,
            }),
    {
        match (self, rhs) {
            (
                Coord::DMS { degree: ad, minutes: am, second: asec },
                Coord::DMS { degree: bd, minutes: bm, second: bsec },
            ) => {
                let ts: u16 = (*asec as u16) + (*bsec as u16);
                let (s, cs): (u16, u16) = if ts >= 60 {
                    (ts - 60, 1)
                } else {
                    (ts, 0)
                };
                let tm: u16 = (*am as u16) + (*bm as u16) + cs;
                let (m, cm): (u16, u16) = if tm >= 60 {
                    (tm - 60, 1)
                } else {
                    (tm, 0)
                };
                let d: i32 = (*ad as i32) + (*bd as i32) + (cm as i32);
                Coord::DMS { degree: d as i16, minutes: m as u8, second: s as u8 }
            },
            (Coord::Dec(a), Coord::Dec(b)) => Coord::Dec(dec_add(a, b, false)),
            _ => unreached(),
        }
    }

    /// The difference of two coordinates of the same representation:
    /// borrow arithmetic on the sexagesimal components, exact decimal
    /// subtraction otherwise.
    pub fn minus(&self, rhs: &Coord) -> (r: Coord)
        requires
            self is DMS <==> rhs is DMS,
            (match (*self, *rhs) {
                (
                    Coord::DMS { degree: ad, minutes: am, second: asec },
                    Coord::DMS { degree: bd, minutes: bm, second: bsec },
                ) => am < 60 && asec < 60 && bm < 60 && bsec < 60 && i16::MIN <= spec_dms_sub(
                    ad as int,
                    am as int,
                    asec as int,
                    bd as int,
                    bm as int,
                    bsec as int,
                ).0 <= i16::MAX,
                (Coord::Dec(a), Coord::Dec(b)) => dec_wf(a) && dec_wf(b) && a.mant * pow10(
                    (if a.scale >= b.scale {
                        0
                    } else {
                        b.scale - a.scale
                    }) as nat,
                ) + b.mant * pow10(
                    (if a.scale >= b.scale {
                        a.scale - b.scale
                    } else {
                        0
                    }) as nat,
                ) < MANT_LIMIT,
                _ => true,
            }),
        ensures
            (match (*self, *rhs) {
                (
                    Coord::DMS { degree: ad, minutes: am, second: asec },
                    Coord::DMS { degree: bd, minutes: bm, second: bsec },
                ) => {
                    let t = spec_dms_sub(
                        ad as int,
                        am as int,
                        asec as int,
                        bd as int,
                        bm as int,
                        bsec as int,
                    );
                    r == (Coord::DMS {
                        degree: t.0 as i16,
                        minutes: t.1 as u8,
                        second: t.2 as u8,
                    })
                },
                (Coord::Dec(a), Coord::Dec(b)) => r is Dec && dec_wf(r->Dec_0) && dec_real(
                    r->Dec_0,
                ) == dec_real(a) - dec_real(b),
                _ => true,
            }),
    {
        match (self, rhs) {
            (
                Coord::DMS { degree: ad, minutes: am, second: asec },
                Coord::DMS { degree: bd, minutes: bm, second: bsec },
            ) => {
                let (s, cs): (u16, u16) = if *asec >= *bsec {
                    ((*asec - *bsec) as u16, 0)
                } else {
                    (60 + (*asec as u16) - (*bsec as u16), 1)
                };
                let (m, cm): (u16, u16) = if (*am as u16) >= (*bm as u16) + cs {
                    ((*am as u16) - (*bm as u16) - cs, 0)
                } else {
                    (60 + (*am as u16) - (*bm as u16) - cs, 1)
                };
                let d: i32 = (*ad as i32) - (*bd as i32) - (cm as i32);
                Coord::DMS { degree: d as i16, minutes: m as u8, second: s as u8 }
            },
            (Coord::Dec(a), Coord::Dec(b)) => Coord::Dec(dec_add(a, b, true)),
            _ => unreached(),
        }
    }

    /// The coordinate scaled by a count. Scaling by zero gives the zero
    /// of the same representation; otherwise the sexagesimal components
    /// are multiplied with carries, the decimal value exactly.
    pub fn times(&self, rhs: usize) -> (r: Coord)
        requires
            (match *self {
                Coord::DMS { degree, minutes, second } => rhs > 0 ==> second * rhs <= u64::MAX
                    && minutes * rhs + (second * rhs) / 60 <= u64::MAX && i16::MIN <= spec_dms_mul(
                    degree as int,
                    minutes as int,
                    second as int,
                    rhs as int,
                ).0 <= i16::MAX,
                Coord::Dec(d) => rhs > 0 ==> dec_wf(d) && d.mant * rhs < MANT_LIMIT,
            }),
        ensures
            (match *self {
                Coord::DMS { degree, minutes, second } => {
                    if rhs == 0 {
                        r == (Coord::DMS { degree: 0i16, minutes: 0u8, second: 0u8 })
                    } else {
                        let t = spec_dms_mul(
                            degree as int,
                            minutes as int,
                            second as int,
                            rhs as int,
                        );
                        r == (Coord::DMS {
                            degree: t.0 as i16,
                            minutes: t.1 as u8,
                            second: t.2 as u8,
                        })
                    }
                },
                Coord::Dec(d) => {
                    if rhs == 0 {
                        r == Coord::Dec(Dec { neg: false, mant: 0u128, scale: 0u32 })
                    } else {
                        r is Dec && dec_wf(r->Dec_0) && dec_real(r->Dec_0) == dec_real(d) * rhs
                    }
                },
            }),
    {
        if rhs == 0 {
            return match self {
                Coord::DMS { .. } => Coord::DMS { degree: 0, minutes: 0, second: 0 },
                Coord::Dec(..) => Coord::Dec(Dec { neg: false, mant: 0, scale: 0 }),
            };
        }
        match self {
            Coord::DMS { degree, minutes, second } => {
                let k = rhs as u64;
                let ts: u64 = (*second as u64) * k;
                let s = ts % 60;
                let cs = ts / 60;
                let tm: u64 = (*minutes as u64) * k + cs;
                let m = tm % 60;
                let cm = tm / 60;
                let d: i128 = if *degree >= 0 {
                    (*degree as i128) * (k as i128) + (cm as i128)
                } else {
                    (*degree as i128) * (k as i128) - (cm as i128)
                };
                proof {
                    let t = spec_dms_mul(
                        *degree as int,
                        *minutes as int,
                        *second as int,
                        rhs as int,
                    );
                    assert(ts == *second * rhs);
                    assert(tm == *minutes * rhs + (*second * rhs) / 60);
                    assert(d == t.0);
                }
                Coord::DMS { degree: d as i16, minutes: m as u8, second: s as u8 }
            },
            Coord::Dec(d) => {
                proof {
                    assert(d.mant * rhs < MANT_LIMIT);
                }
                let m = d.mant * (rhs as u128);
                let r = Dec::new(d.neg, m, d.scale);
                proof {
                    lemma_scale_value(*d, m, rhs as int);
                }
                Coord::Dec(r)
            },
        }
    }
}

/// Scaling the mantissa scales the denoted value.
proof fn lemma_scale_value(d: Dec, m: u128, k: int)
    requires
        dec_wf(d),
        k > 0,
        m == d.mant * k,
    ensures
        dec_real(Dec { neg: d.neg, mant: m, scale: d.scale }) == dec_real(d) * k,
{
    let p = pow10((SCALE_LIMIT - d.scale) as nat);
    assert((d.mant * k) * p == (d.mant * p) * k) by (nonlinear_arith);
    if d.neg {
        assert((-(d.mant * p)) * k == -((d.mant * p) * k)) by (nonlinear_arith);
    }
}

/// Exact signed addition of two well-formed decimals at their common
/// scale; `flip` subtracts instead.
fn dec_add(a: &Dec, b: &Dec, flip: bool) -> (r: Dec)
    requires
        dec_wf(*a),
        dec_wf(*b),
        a.mant * pow10(
            (if a.scale >= b.scale {
                0
            } else {
                b.scale - a.scale
            }) as nat,
        ) + b.mant * pow10(
            (if a.scale >= b.scale {
                a.scale - b.scale
            } else {
                0
            }) as nat,
        ) < MANT_LIMIT,
    ensures
        dec_wf(r),
        !flip ==> dec_real(r) == dec_real(*a) + dec_real(*b),
        flip ==> dec_real(r) == dec_real(*a) - dec_real(*b),
{
    let bneg = if flip && b.mant != 0 {
        !b.neg
    } else {
        b.neg
    };
    proof {
        if b.mant == 0 {
            assert(b.mant * pow10((SCALE_LIMIT - b.scale) as nat) == 0) by (nonlinear_arith)
                requires
                    b.mant == 0,
            ;
        }
        assert(dec_real(Dec { neg: bneg, mant: b.mant, scale: b.scale }) == if flip {
            -dec_real(*b)
        } else {
            dec_real(*b)
        });
    }
    let cs = if a.scale >= b.scale {
        a.scale
    } else {
        b.scale
    };
    let pa = pow10_u128(cs - a.scale);
    let pb = pow10_u128(cs - b.scale);
    let ma = a.mant * pa;
    let mb = b.mant * pb;
    proof {
        lemma_common_scale(*a, cs);
        lemma_common_scale(*b, cs);
    }
    let (neg, m) = if a.neg == bneg {
        (a.neg, ma + mb)
    } else if ma >= mb {
        (a.neg, ma - mb)
    } else {
        (bneg, mb - ma)
    };
    let r = Dec::new(neg, m, cs);
    proof {
        let pc = pow10((SCALE_LIMIT - cs) as nat);
        assert((ma + mb) * pc == ma * pc + mb * pc) by (nonlinear_arith);
        if ma >= mb {
            assert((ma - mb) * pc == ma * pc - mb * pc) by (nonlinear_arith);
        } else {
            assert((mb - ma) * pc == mb * pc - ma * pc) by (nonlinear_arith);
        }
    }
    r
}

/// Raising a mantissa to a finer scale keeps the denoted value.
proof fn lemma_common_scale(d: Dec, cs: u32)
    requires
        d.scale <= cs <= SCALE_LIMIT,
        d.mant * pow10((cs - d.scale) as nat) <= u128::MAX,
    ensures
        ({
            let m2 = d.mant * pow10((cs - d.scale) as nat);
            m2 * pow10((SCALE_LIMIT - cs) as nat) == d.mant * pow10((SCALE_LIMIT - d.scale) as nat)
        }),
{
    let e1 = (cs - d.scale) as nat;
    let e2 = (SCALE_LIMIT - cs) as nat;
    lemma_pow10_adds(e1, e2);
    assert((d.mant * pow10(e1)) * pow10(e2) == d.mant * (pow10(e1) * pow10(e2)))
        by (nonlinear_arith);
}

} // verus!
