//! Fixed-point scalar arithmetic.
//!
//! Every real-valued quantity of the regression core (features, targets,
//! precisions, posterior entries) is carried as an `Fx`: a signed 64-bit
//! raw count of `1 / SCALE` units.  All operations are checked; an
//! operation whose exact truncated result falls outside the raw range
//! reports `None` instead of wrapping, so the fitting routines can fail
//! explicitly rather than propagate a corrupted value.

use vstd::prelude::*;

verus! {

/// Number of raw units per whole unit: an `Fx` with raw value `r` stands
/// for the real number `r / SCALE`.
pub const SCALE: i64 = 1_000_000_000;

/// Raw value of the small positive floor that guards divisions in the
/// precision updates: one thousandth of a unit, chosen so that the
/// noise precision it caps cannot amplify the representation's
/// truncation error past the default tolerance.
pub const EPS_RAW: i64 = 1_000_000;

/// Magnitude of a mathematical integer.
pub open spec fn abs_int(x: int) -> int {
    if x < 0 {
        -x
    } else {
        x
    }
}

/// Does a mathematical integer fit in the raw range of a fixed-point value?
pub open spec fn fits_raw(x: int) -> bool {
    i64::MIN <= x <= i64::MAX
}

/// Integer division truncating toward zero (the rounding used by every
/// fixed-point operation of this crate).
pub open spec fn div_trunc(x: int, d: int) -> int
    recommends
        d != 0,
{
    let q = abs_int(x) / abs_int(d);
    if (x < 0) != (d < 0) {
        -q
    } else {
        q
    }
}

/// Raw value of the fixed-point product of two raw values.
pub open spec fn mul_raw(a: int, b: int) -> int {
    div_trunc(a * b, SCALE as int)
}

/// Raw value of the fixed-point quotient of two raw values.
pub open spec fn div_raw(a: int, b: int) -> int
    recommends
        b != 0,
{
    div_trunc(a * (SCALE as int), b)
}

/// A real number in fixed-point representation.
#[derive(Clone, Copy, Debug, PartialEq, Eq, Structural)]
pub struct Fx {
    pub raw: i64,
}

proof fn lemma_div_pos_le(x: int, d: int)
    requires
        x >= 0,
        d >= 1,
    ensures
        0 <= x / d <= x,
{
    assert(0 <= x / d <= x) by (nonlinear_arith)
        requires
            x >= 0,
            d >= 1,
    ;
}

proof fn lemma_i64_mul_fits(a: int, b: int)
    requires
        i64::MIN <= a <= i64::MAX,
        i64::MIN <= b <= i64::MAX,
    ensures
        i128::MIN <= a * b <= i128::MAX,
{
    assert(i128::MIN <= a * b <= i128::MAX) by (nonlinear_arith)
        requires
            i64::MIN <= a <= i64::MAX,
            i64::MIN <= b <= i64::MAX,
    ;
}

/// Truncated division of a wide intermediate by a positive divisor,
/// narrowed back to a raw value; `None` when the quotient does not fit.
pub(crate) fn div_i128_pos(p: i128, d: i128) -> (r: Option<i64>)
    requires
        0 < d,
    ensures
        r matches Some(v) ==> v == div_trunc(p as int, d as int),
        r is None ==> !fits_raw(div_trunc(p as int, d as int)),
{
    proof {
        if p >= 0 {
            lemma_div_pos_le(p as int, d as int);
        } else {
            lemma_div_pos_le(-(p as int), d as int);
        }
    }
    let q = p.checked_div(d);
    match q {
        Some(v) => {
            proof {
                assert(v == div_trunc(p as int, d as int));
            }
            if v >= i64::MIN as i128 && v <= i64::MAX as i128 {
                Some(v as i64)
            } else {
                None
            }
        },
        None => None,
    }
}

impl Fx {
    /// The value holding exactly `raw / SCALE`.
    pub fn from_raw(raw: i64) -> (r: Fx)
        ensures
            r.raw == raw,
    {
        Fx { raw }
    }

    /// Zero.
    pub fn zero() -> (r: Fx)
        ensures
            r.raw == 0,
    {
        Fx { raw: 0 }
    }

    /// One.
    pub fn one() -> (r: Fx)
        ensures
            r.raw == SCALE,
    {
        Fx { raw: SCALE }
    }

    /// The whole number `v`, when it is representable.
    pub fn from_int(v: i64) -> (r: Option<Fx>)
        ensures
            r matches Some(f) ==> f.raw == v * SCALE,
            r is None ==> !fits_raw(v * SCALE),
    {
        proof {
            lemma_i64_mul_fits(v as int, SCALE as int);
        }
        let p: i128 = (v as i128) * (SCALE as i128);
        if p >= i64::MIN as i128 && p <= i64::MAX as i128 {
            Some(Fx { raw: p as i64 })
        } else {
            None
        }
    }

    /// Exact sum, `None` on raw-range overflow.
    pub fn checked_add(self, o: Fx) -> (r: Option<Fx>)
        ensures
            r matches Some(f) ==> f.raw == self.raw + o.raw,
            r is None ==> !fits_raw(self.raw + o.raw),
    {
        let s: i128 = (self.raw as i128) + (o.raw as i128);
        if s >= i64::MIN as i128 && s <= i64::MAX as i128 {
            Some(Fx { raw: s as i64 })
        } else {
            None
        }
    }

    /// Exact difference, `None` on raw-range overflow.
    pub fn checked_sub(self, o: Fx) -> (r: Option<Fx>)
        ensures
            r matches Some(f) ==> f.raw == self.raw - o.raw,
            r is None ==> !fits_raw(self.raw - o.raw),
    {
        let s: i128 = (self.raw as i128) - (o.raw as i128);
        if s >= i64::MIN as i128 && s <= i64::MAX as i128 {
            Some(Fx { raw: s as i64 })
        } else {
            None
        }
    }

    /// Truncated product, `None` when the result does not fit.
    pub fn checked_mul(self, o: Fx) -> (r: Option<Fx>)
        ensures
            r matches Some(f) ==> f.raw == mul_raw(self.raw as int, o.raw as int),
            r is None ==> !fits_raw(mul_raw(self.raw as int, o.raw as int)),
    {
        proof {
            lemma_i64_mul_fits(self.raw as int, o.raw as int);
        }
        let p = (self.raw as i128).checked_mul(o.raw as i128);
        match p {
            Some(pv) => {
                match div_i128_pos(pv, SCALE as i128) {
                    Some(v) => Some(Fx { raw: v }),
                    None => None,
                }
            },
            None => None,
        }
    }

    /// Truncated quotient, `None` on division by zero or when the result
    /// does not fit.
    pub fn checked_div(self, o: Fx) -> (r: Option<Fx>)
        ensures
            r matches Some(f) ==> o.raw != 0 && f.raw == div_raw(self.raw as int, o.raw as int),
            r is None ==> o.raw == 0 || !fits_raw(div_raw(self.raw as int, o.raw as int)),
    {
        if o.raw == 0 {
            return None;
        }
        proof {
            lemma_i64_mul_fits(self.raw as int, SCALE as int);
        }
        let p: i128 = (self.raw as i128) * (SCALE as i128);
        let v = if o.raw < 0 {
            let r0 = div_i128_pos(-p, -(o.raw as i128));
            proof {
                assert(div_trunc(-(p as int), -(o.raw as int)) == div_trunc(
                    p as int,
                    o.raw as int,
                ));
            }
            r0
        } else {
            div_i128_pos(p, o.raw as i128)
        };
        match v {
            Some(vv) => Some(Fx { raw: vv }),
            None => None,
        }
    }

    /// Is this value strictly below `o`?
    pub fn lt(self, o: Fx) -> (r: bool)
        ensures
            r == (self.raw < o.raw),
    {
        self.raw < o.raw
    }

    /// The larger of the two values.
    pub fn max(self, o: Fx) -> (r: Fx)
        ensures
            r.raw == if self.raw >= o.raw {
                self.raw
            } else {
                o.raw
            },
    {
        if self.raw >= o.raw {
            self
        } else {
            o
        }
    }
}

} // verus!
