//! Dense matrix and vector primitives over fixed-point scalars.
//!
//! A matrix is a vector of rows of equal length.  Every operation is
//! exact in the sense of `div_trunc`: its contract gives the raw value
//! of each entry of the result as an integer function of the raw values
//! of the inputs, or reports `None` when some intermediate leaves the
//! representable range.

use vstd::prelude::*;
use crate::fx::{abs_int, div_i128_pos, div_raw, div_trunc, fits_raw, mul_raw, Fx, SCALE};

verus! {

/// Raw bound on each entry of the inversion residual: a returned
/// inverse is certified to reproduce the identity to within one
/// hundredth of a unit per entry.
pub const INV_CHECK_RAW: i64 = 10_000_000;

/// The dot product of row `i` of some matrix (given as `row`) with
/// column `j` of `g` differs from the identity's entry `(i, j)` by at
/// most the certified residual bound.
pub open spec fn residual_entry_ok(row: Seq<Fx>, g: Seq<Vec<Fx>>, i: int, j: int) -> bool {
    -(INV_CHECK_RAW as int) <= dot_fx_raw(row, col_seq(g, j)) - (if i == j {
        SCALE as int
    } else {
        0
    }) <= INV_CHECK_RAW as int
}

/// Entry `(i, j)` of `m * g` differs from the identity by at most the
/// certified residual bound.
pub open spec fn approx_inverse_entry_ok(m: Seq<Vec<Fx>>, g: Seq<Vec<Fx>>, i: int, j: int) -> bool {
    residual_entry_ok(m[i]@, g, i, j)
}

/// `m` is a `rows` by `cols` matrix.
pub open spec fn is_matrix(m: Seq<Vec<Fx>>, rows: int, cols: int) -> bool {
    &&& m.len() == rows
    &&& forall|i: int| 0 <= i < rows ==> (#[trigger] m[i])@.len() == cols
}

/// Sum of the first `n` products of raw values of `a` and `b`.
pub open spec fn dot_raw(a: Seq<Fx>, b: Seq<Fx>, n: int) -> int
    decreases n,
{
    if n <= 0 {
        0
    } else {
        dot_raw(a, b, n - 1) + a[n - 1].raw * b[n - 1].raw
    }
}

/// Raw value of the fixed-point dot product of `a` and `b`.
pub open spec fn dot_fx_raw(a: Seq<Fx>, b: Seq<Fx>) -> int {
    div_trunc(dot_raw(a, b, a.len() as int), SCALE as int)
}

/// The dot product of `a` and `b` is computable: every partial sum
/// stays in the wide intermediate range and the final quotient fits a
/// raw value.
pub open spec fn dot_ok(a: Seq<Fx>, b: Seq<Fx>) -> bool {
    &&& forall|k: int| 0 <= k <= a.len() ==> i128::MIN <= #[trigger] dot_raw(a, b, k) <= i128::MAX
    &&& fits_raw(dot_fx_raw(a, b))
}

/// The mean of `v` is computable: every partial sum stays in the wide
/// intermediate range and the quotient fits a raw value.
pub open spec fn mean_ok(v: Seq<Fx>) -> bool {
    &&& forall|k: int| 0 <= k <= v.len() ==> i128::MIN <= #[trigger] sum_raw(v, k) <= i128::MAX
    &&& fits_raw(mean_raw(v))
}

proof fn lemma_sum_const(v: Seq<Fx>, c: i64, k: int)
    requires
        0 <= k <= v.len(),
        forall|j: int| 0 <= j < v.len() ==> (#[trigger] v[j]).raw == c,
    ensures
        sum_raw(v, k) == k * c,
    decreases k,
{
    if k > 0 {
        lemma_sum_const(v, c, k - 1);
        assert(v[k - 1].raw == c);
        assert(sum_raw(v, k) == sum_raw(v, k - 1) + v[k - 1].raw);
        assert((k - 1) * c + c == k * c) by (nonlinear_arith);
    } else {
        assert(k * c == 0) by (nonlinear_arith)
            requires
                k == 0,
        ;
    }
}

/// The mean of a non-empty constant vector is computable and equals
/// the constant.
pub proof fn lemma_mean_const(v: Seq<Fx>, c: i64)
    requires
        0 < v.len() <= 0xFFFF_FFFF_FFFF_FFFF,
        forall|j: int| 0 <= j < v.len() ==> (#[trigger] v[j]).raw == c,
    ensures
        mean_ok(v),
        mean_raw(v) == c,
{
    let n = v.len() as int;
    assert forall|k: int| 0 <= k <= v.len() implies i128::MIN <= #[trigger] sum_raw(v, k)
        <= i128::MAX by {
        lemma_sum_const(v, c, k);
        assert(i128::MIN <= k * c <= i128::MAX) by (nonlinear_arith)
            requires
                0 <= k <= 0x1_0000_0000_0000_0000int,
                i64::MIN <= c <= i64::MAX,
        ;
    }
    lemma_sum_const(v, c, n);
    if c >= 0 {
        assert(abs_int(n * c) == n * c && (n * c) / n == c) by (nonlinear_arith)
            requires
                n >= 1,
                c >= 0,
        ;
    } else {
        assert(abs_int(n * c) == n * (-c) && (n * (-c)) / n == -c && n * c < 0) by (
        nonlinear_arith)
            requires
                n >= 1,
                c < 0,
        ;
    }
}

/// A dot product against a zero vector is zero.
pub proof fn lemma_dot_raw_zero(a: Seq<Fx>, b: Seq<Fx>, n: int)
    requires
        forall|j: int| 0 <= j < n ==> (#[trigger] b[j]).raw == 0,
    ensures
        dot_raw(a, b, n) == 0,
    decreases n,
{
    if n > 0 {
        lemma_dot_raw_zero(a, b, n - 1);
    }
}

/// Column `j` of `m`, top to bottom.
pub open spec fn col_seq(m: Seq<Vec<Fx>>, j: int) -> Seq<Fx> {
    Seq::new(m.len(), |i: int| m[i]@[j])
}

/// Sum of the first `n` raw values of `v`.
pub open spec fn sum_raw(v: Seq<Fx>, n: int) -> int
    decreases n,
{
    if n <= 0 {
        0
    } else {
        sum_raw(v, n - 1) + v[n - 1].raw
    }
}

/// Raw value of the arithmetic mean of `v`.
pub open spec fn mean_raw(v: Seq<Fx>) -> int
    recommends
        v.len() > 0,
{
    div_trunc(sum_raw(v, v.len() as int), v.len() as int)
}

proof fn lemma_i64_mul_fits_128(a: int, b: int)
    requires
        i64::MIN <= a <= i64::MAX,
        i64::MIN <= b <= i64::MAX,
    ensures
        i128::MIN <= a * b <= i128::MAX,
{
    assert(i128::MIN <= a * b <= i128::MAX) by (nonlinear_arith)
        requires
            i64::MIN <= a <= i64::MAX,
            i64::MIN <= b <= i64::MAX,
    ;
}

/// Fixed-point dot product, with a single truncation at the end:
/// the products are accumulated exactly in a wide intermediate.
pub fn dot(a: &Vec<Fx>, b: &Vec<Fx>) -> (r: Option<Fx>)
    requires
        a@.len() == b@.len(),
    ensures
        r matches Some(f) ==> f.raw == dot_fx_raw(a@, b@),
        r is Some <==> dot_ok(a@, b@),
{
    let mut acc: i128 = 0;
    let mut i: usize = 0;
    while i < a.len()
        invariant
            i <= a@.len(),
            a@.len() == b@.len(),
            acc == dot_raw(a@, b@, i as int),
            forall|k: int| 0 <= k <= i ==> i128::MIN <= #[trigger] dot_raw(a@, b@, k) <= i128::MAX,
        decreases a@.len() - i,
    {
        proof {
            lemma_i64_mul_fits_128(a@[i as int].raw as int, b@[i as int].raw as int);
        }
        let p = (a[i].raw as i128).checked_mul(b[i].raw as i128);
        let pv = match p {
            Some(v) => v,
            None => {
                proof {
                    assert(false);
                }
                return None;
            },
        };
        let na = acc.checked_add(pv);
        acc = match na {
            Some(v) => v,
            None => {
                proof {
                    assert(!(i128::MIN <= dot_raw(a@, b@, i + 1) <= i128::MAX));
                }
                return None;
            },
        };
        i = i + 1;
    }
    match div_i128_pos(acc, SCALE as i128) {
        Some(v) => Some(Fx { raw: v }),
        None => None,
    }
}

/// An element-by-element copy of a row.
pub fn copy_row(src: &Vec<Fx>) -> (r: Vec<Fx>)
    ensures
        r@ == src@,
{
    let mut out: Vec<Fx> = Vec::new();
    let mut i: usize = 0;
    while i < src.len()
        invariant
            i <= src@.len(),
            out@ == src@.take(i as int),
        decreases src@.len() - i,
    {
        out.push(src[i]);
        proof {
            assert(out@ =~= src@.take(i + 1));
        }
        i = i + 1;
    }
    proof {
        assert(src@.take(src@.len() as int) =~= src@);
    }
    out
}

/// Column `j` of `x` as a vector.
pub fn get_col(x: &Vec<Vec<Fx>>, j: usize) -> (r: Vec<Fx>)
    requires
        forall|i: int| 0 <= i < x@.len() ==> (#[trigger] x@[i])@.len() > j,
    ensures
        r@ == col_seq(x@, j as int),
{
    let mut out: Vec<Fx> = Vec::new();
    let mut i: usize = 0;
    while i < x.len()
        invariant
            i <= x@.len(),
            forall|t: int| 0 <= t < x@.len() ==> (#[trigger] x@[t])@.len() > j,
            out@ == col_seq(x@, j as int).take(i as int),
        decreases x@.len() - i,
    {
        out.push(x[i][j]);
        proof {
            assert(out@ =~= col_seq(x@, j as int).take(i + 1));
        }
        i = i + 1;
    }
    proof {
        assert(col_seq(x@, j as int).take(x@.len() as int) =~= col_seq(x@, j as int));
    }
    out
}

/// The transpose of an `x` with `cols` columns.
pub fn transpose(x: &Vec<Vec<Fx>>, cols: usize) -> (r: Vec<Vec<Fx>>)
    requires
        is_matrix(x@, x@.len() as int, cols as int),
    ensures
        r@.len() == cols,
        forall|j: int| 0 <= j < cols ==> (#[trigger] r@[j])@ == col_seq(x@, j),
{
    let mut out: Vec<Vec<Fx>> = Vec::new();
    let mut j: usize = 0;
    while j < cols
        invariant
            j <= cols,
            is_matrix(x@, x@.len() as int, cols as int),
            out@.len() == j,
            forall|t: int| 0 <= t < j ==> (#[trigger] out@[t])@ == col_seq(x@, t),
        decreases cols - j,
    {
        out.push(get_col(x, j));
        j = j + 1;
    }
    out
}

/// Matrix-vector product: one dot product per row of `m`.
pub fn mat_vec(m: &Vec<Vec<Fx>>, v: &Vec<Fx>) -> (r: Option<Vec<Fx>>)
    requires
        forall|i: int| 0 <= i < m@.len() ==> (#[trigger] m@[i])@.len() == v@.len(),
    ensures
        r matches Some(w) ==> {
            &&& w@.len() == m@.len()
            &&& forall|i: int|
                0 <= i < m@.len() ==> (#[trigger] w@[i]).raw == dot_fx_raw(m@[i]@, v@)
        },
        r is Some <==> forall|i: int| 0 <= i < m@.len() ==> dot_ok((#[trigger] m@[i])@, v@),
{
    let mut out: Vec<Fx> = Vec::new();
    let mut i: usize = 0;
    while i < m.len()
        invariant
            i <= m@.len(),
            out@.len() == i,
            forall|t: int| 0 <= t < m@.len() ==> (#[trigger] m@[t])@.len() == v@.len(),
            forall|t: int| 0 <= t < i ==> (#[trigger] out@[t]).raw == dot_fx_raw(m@[t]@, v@),
            forall|t: int| 0 <= t < i ==> dot_ok((#[trigger] m@[t])@, v@),
        decreases m@.len() - i,
    {
        let d = dot(&m[i], v);
        match d {
            Some(f) => out.push(f),
            None => {
                return None;
            },
        }
        i = i + 1;
    }
    Some(out)
}

/// Product of `a` with the transpose of `b`: entry `(i, j)` is the dot
/// product of row `i` of `a` with row `j` of `b`.
pub fn mat_mul_rows(a: &Vec<Vec<Fx>>, b: &Vec<Vec<Fx>>) -> (r: Option<Vec<Vec<Fx>>>)
    requires
        forall|i: int, j: int|
            0 <= i < a@.len() && 0 <= j < b@.len() ==> (#[trigger] a@[i])@.len() == (
            #[trigger] b@[j])@.len(),
    ensures
        r matches Some(g) ==> {
            &&& is_matrix(g@, a@.len() as int, b@.len() as int)
            &&& forall|i: int, j: int|
                0 <= i < a@.len() && 0 <= j < b@.len() ==> (#[trigger] g@[i]@[j]).raw
                    == dot_fx_raw(a@[i]@, b@[j]@)
        },
        r is Some <==> forall|i: int, j: int|
            0 <= i < a@.len() && 0 <= j < b@.len() ==> dot_ok(
                (#[trigger] a@[i])@,
                (#[trigger] b@[j])@,
            ),
{
    let mut out: Vec<Vec<Fx>> = Vec::new();
    let mut i: usize = 0;
    while i < a.len()
        invariant
            i <= a@.len(),
            forall|t: int, u: int|
                0 <= t < a@.len() && 0 <= u < b@.len() ==> (#[trigger] a@[t])@.len() == (
                #[trigger] b@[u])@.len(),
            out@.len() == i,
            forall|t: int| 0 <= t < i ==> (#[trigger] out@[t])@.len() == b@.len(),
            forall|t: int, u: int|
                0 <= t < i && 0 <= u < b@.len() ==> (#[trigger] out@[t]@[u]).raw == dot_fx_raw(
                    a@[t]@,
                    b@[u]@,
                ),
            forall|t: int, u: int|
                0 <= t < i && 0 <= u < b@.len() ==> dot_ok((#[trigger] a@[t])@, (#[trigger] b@[u])@),
        decreases a@.len() - i,
    {
        let mut row: Vec<Fx> = Vec::new();
        let mut j: usize = 0;
        while j < b.len()
            invariant
                j <= b@.len(),
                i < a@.len(),
                forall|t: int, u: int|
                    0 <= t < a@.len() && 0 <= u < b@.len() ==> (#[trigger] a@[t])@.len() == (
                    #[trigger] b@[u])@.len(),
                row@.len() == j,
                forall|u: int|
                    0 <= u < j ==> (#[trigger] row@[u]).raw == dot_fx_raw(a@[i as int]@, b@[u]@),
                forall|u: int| 0 <= u < j ==> dot_ok(a@[i as int]@, (#[trigger] b@[u])@),
            decreases b@.len() - j,
        {
            let d = dot(&a[i], &b[j]);
            match d {
                Some(f) => row.push(f),
                None => {
                    return None;
                },
            }
            j = j + 1;
        }
        out.push(row);
        i = i + 1;
    }
    Some(out)
}

/// Element-wise difference (exact: raw values subtract with no rounding).
pub fn vec_sub(a: &Vec<Fx>, b: &Vec<Fx>) -> (r: Option<Vec<Fx>>)
    requires
        a@.len() == b@.len(),
    ensures
        r matches Some(w) ==> {
            &&& w@.len() == a@.len()
            &&& forall|i: int|
                0 <= i < a@.len() ==> (#[trigger] w@[i]).raw == a@[i].raw - b@[i].raw
        },
        r is Some <==> forall|i: int|
            0 <= i < a@.len() ==> fits_raw((#[trigger] a@[i]).raw - b@[i].raw),
{
    let mut out: Vec<Fx> = Vec::new();
    let mut i: usize = 0;
    while i < a.len()
        invariant
            i <= a@.len(),
            a@.len() == b@.len(),
            out@.len() == i,
            forall|t: int| 0 <= t < i ==> (#[trigger] out@[t]).raw == a@[t].raw - b@[t].raw,
            forall|t: int| 0 <= t < i ==> fits_raw((#[trigger] a@[t]).raw - b@[t].raw),
        decreases a@.len() - i,
    {
        match a[i].checked_sub(b[i]) {
            Some(f) => out.push(f),
            None => {
                return None;
            },
        }
        i = i + 1;
    }
    Some(out)
}

/// Subtract one scalar from every entry (exact).
pub fn vec_sub_scalar(a: &Vec<Fx>, c: Fx) -> (r: Option<Vec<Fx>>)
    ensures
        r matches Some(w) ==> {
            &&& w@.len() == a@.len()
            &&& forall|i: int| 0 <= i < a@.len() ==> (#[trigger] w@[i]).raw == a@[i].raw - c.raw
        },
        r is Some <==> forall|i: int|
            0 <= i < a@.len() ==> fits_raw((#[trigger] a@[i]).raw - c.raw),
{
    let mut out: Vec<Fx> = Vec::new();
    let mut i: usize = 0;
    while i < a.len()
        invariant
            i <= a@.len(),
            out@.len() == i,
            forall|t: int| 0 <= t < i ==> (#[trigger] out@[t]).raw == a@[t].raw - c.raw,
            forall|t: int| 0 <= t < i ==> fits_raw((#[trigger] a@[t]).raw - c.raw),
        decreases a@.len() - i,
    {
        match a[i].checked_sub(c) {
            Some(f) => out.push(f),
            None => {
                return None;
            },
        }
        i = i + 1;
    }
    Some(out)
}

/// Scale every entry by `c` (truncated products).
pub fn vec_scale(a: &Vec<Fx>, c: Fx) -> (r: Option<Vec<Fx>>)
    ensures
        r matches Some(w) ==> {
            &&& w@.len() == a@.len()
            &&& forall|i: int|
                0 <= i < a@.len() ==> (#[trigger] w@[i]).raw == mul_raw(a@[i].raw as int, c.raw as int)
        },
        r is Some <==> forall|i: int|
            0 <= i < a@.len() ==> fits_raw(mul_raw((#[trigger] a@[i]).raw as int, c.raw as int)),
{
    let mut out: Vec<Fx> = Vec::new();
    let mut i: usize = 0;
    while i < a.len()
        invariant
            i <= a@.len(),
            out@.len() == i,
            forall|t: int|
                0 <= t < i ==> (#[trigger] out@[t]).raw == mul_raw(a@[t].raw as int, c.raw as int),
            forall|t: int|
                0 <= t < i ==> fits_raw(mul_raw((#[trigger] a@[t]).raw as int, c.raw as int)),
        decreases a@.len() - i,
    {
        match a[i].checked_mul(c) {
            Some(f) => out.push(f),
            None => {
                return None;
            },
        }
        i = i + 1;
    }
    Some(out)
}

/// Arithmetic mean of a non-empty vector (a single truncation).
pub fn vec_mean(v: &Vec<Fx>) -> (r: Option<Fx>)
    requires
        v@.len() > 0,
    ensures
        r matches Some(f) ==> f.raw == mean_raw(v@),
        r is Some <==> mean_ok(v@),
{
    let mut acc: i128 = 0;
    let mut i: usize = 0;
    while i < v.len()
        invariant
            v@.len() > 0,
            i <= v@.len(),
            acc == sum_raw(v@, i as int),
            forall|k: int| 0 <= k <= i ==> i128::MIN <= #[trigger] sum_raw(v@, k) <= i128::MAX,
        decreases v@.len() - i,
    {
        let na = acc.checked_add(v[i].raw as i128);
        acc = match na {
            Some(a) => a,
            None => {
                proof {
                    assert(!(i128::MIN <= sum_raw(v@, i + 1) <= i128::MAX));
                }
                return None;
            },
        };
        i = i + 1;
    }
    match div_i128_pos(acc, v.len() as i128) {
        Some(raw) => Some(Fx { raw }),
        None => None,
    }
}

/// One mean per column of a non-empty matrix.
pub fn col_means(x: &Vec<Vec<Fx>>, cols: usize) -> (r: Option<Vec<Fx>>)
    requires
        is_matrix(x@, x@.len() as int, cols as int),
        x@.len() > 0,
    ensures
        r matches Some(w) ==> {
            &&& w@.len() == cols
            &&& forall|j: int|
                0 <= j < cols ==> (#[trigger] w@[j]).raw == mean_raw(col_seq(x@, j))
        },
        r is Some <==> forall|j: int| 0 <= j < cols ==> mean_ok(#[trigger] col_seq(x@, j)),
{
    let mut out: Vec<Fx> = Vec::new();
    let mut j: usize = 0;
    while j < cols
        invariant
            j <= cols,
            is_matrix(x@, x@.len() as int, cols as int),
            x@.len() > 0,
            out@.len() == j,
            forall|t: int| 0 <= t < j ==> (#[trigger] out@[t]).raw == mean_raw(col_seq(x@, t)),
            forall|t: int| 0 <= t < j ==> mean_ok(#[trigger] col_seq(x@, t)),
        decreases cols - j,
    {
        let col = get_col(x, j);
        match vec_mean(&col) {
            Some(f) => out.push(f),
            None => {
                return None;
            },
        }
        j = j + 1;
    }
    Some(out)
}

/// Subtract the column means from every row (exact per entry).
pub fn center_cols(x: &Vec<Vec<Fx>>, means: &Vec<Fx>) -> (r: Option<Vec<Vec<Fx>>>)
    requires
        is_matrix(x@, x@.len() as int, means@.len() as int),
    ensures
        r matches Some(g) ==> {
            &&& is_matrix(g@, x@.len() as int, means@.len() as int)
            &&& forall|i: int, j: int|
                0 <= i < x@.len() && 0 <= j < means@.len() ==> (#[trigger] g@[i]@[j]).raw
                    == x@[i]@[j].raw - means@[j].raw
        },
        r is Some <==> forall|i: int, j: int|
            0 <= i < x@.len() && 0 <= j < means@.len() ==> fits_raw(
                (#[trigger] x@[i]@[j]).raw - means@[j].raw,
            ),
{
    let mut out: Vec<Vec<Fx>> = Vec::new();
    let mut i: usize = 0;
    while i < x.len()
        invariant
            i <= x@.len(),
            is_matrix(x@, x@.len() as int, means@.len() as int),
            out@.len() == i,
            forall|t: int| 0 <= t < i ==> (#[trigger] out@[t])@.len() == means@.len(),
            forall|t: int, u: int|
                0 <= t < i && 0 <= u < means@.len() ==> (#[trigger] out@[t]@[u]).raw
                    == x@[t]@[u].raw - means@[u].raw,
            forall|t: int, u: int|
                0 <= t < i && 0 <= u < means@.len() ==> fits_raw(
                    (#[trigger] x@[t]@[u]).raw - means@[u].raw,
                ),
        decreases x@.len() - i,
    {
        match vec_sub(&x[i], means) {
            Some(row) => out.push(row),
            None => {
                return None;
            },
        }
        i = i + 1;
    }
    Some(out)
}

/// A vector of `n` copies of `c`.
pub fn vec_fill(n: usize, c: Fx) -> (r: Vec<Fx>)
    ensures
        r@.len() == n,
        forall|i: int| 0 <= i < n ==> (#[trigger] r@[i]).raw == c.raw,
{
    let mut out: Vec<Fx> = Vec::new();
    let mut i: usize = 0;
    while i < n
        invariant
            i <= n,
            out@.len() == i,
            forall|t: int| 0 <= t < i ==> (#[trigger] out@[t]).raw == c.raw,
        decreases n - i,
    {
        out.push(c);
        i = i + 1;
    }
    out
}

/// The `n` by `n` identity: one on the diagonal, zero elsewhere.
pub fn identity(n: usize) -> (r: Vec<Vec<Fx>>)
    ensures
        is_matrix(r@, n as int, n as int),
        forall|i: int, j: int|
            0 <= i < n && 0 <= j < n ==> (#[trigger] r@[i]@[j]).raw == if i == j {
                SCALE as int
            } else {
                0
            },
{
    let mut out: Vec<Vec<Fx>> = Vec::new();
    let mut i: usize = 0;
    while i < n
        invariant
            i <= n,
            out@.len() == i,
            forall|t: int| 0 <= t < i ==> (#[trigger] out@[t])@.len() == n,
            forall|t: int, u: int|
                0 <= t < i && 0 <= u < n ==> (#[trigger] out@[t]@[u]).raw == if t == u {
                    SCALE as int
                } else {
                    0
                },
        decreases n - i,
    {
        let mut row: Vec<Fx> = Vec::new();
        let mut j: usize = 0;
        while j < n
            invariant
                j <= n,
                i < n,
                row@.len() == j,
                forall|u: int|
                    0 <= u < j ==> (#[trigger] row@[u]).raw == if i == u {
                        SCALE as int
                    } else {
                        0
                    },
            decreases n - j,
        {
            if i == j {
                row.push(Fx { raw: SCALE });
            } else {
                row.push(Fx { raw: 0 });
            }
            j = j + 1;
        }
        out.push(row);
        i = i + 1;
    }
    out
}

fn div_row(row: &Vec<Fx>, piv: Fx) -> (r: Option<Vec<Fx>>)
    requires
        piv.raw != 0,
    ensures
        r matches Some(w) ==> {
            &&& w@.len() == row@.len()
            &&& forall|i: int|
                0 <= i < row@.len() ==> (#[trigger] w@[i]).raw == div_raw(
                    row@[i].raw as int,
                    piv.raw as int,
                )
        },
        r is Some <==> forall|i: int|
            0 <= i < row@.len() ==> fits_raw(div_raw((#[trigger] row@[i]).raw as int, piv.raw as int)),
{
    let mut out: Vec<Fx> = Vec::new();
    let mut i: usize = 0;
    while i < row.len()
        invariant
            i <= row@.len(),
            piv.raw != 0,
            out@.len() == i,
            forall|t: int|
                0 <= t < i ==> (#[trigger] out@[t]).raw == div_raw(
                    row@[t].raw as int,
                    piv.raw as int,
                ),
            forall|t: int|
                0 <= t < i ==> fits_raw(div_raw((#[trigger] row@[t]).raw as int, piv.raw as int)),
        decreases row@.len() - i,
    {
        match row[i].checked_div(piv) {
            Some(f) => out.push(f),
            None => {
                return None;
            },
        }
        i = i + 1;
    }
    Some(out)
}

fn row_sub_scaled(a: &Vec<Fx>, b: &Vec<Fx>, f: Fx) -> (r: Option<Vec<Fx>>)
    requires
        a@.len() == b@.len(),
    ensures
        r matches Some(w) ==> {
            &&& w@.len() == a@.len()
            &&& forall|i: int|
                0 <= i < a@.len() ==> (#[trigger] w@[i]).raw == a@[i].raw - mul_raw(
                    f.raw as int,
                    b@[i].raw as int,
                )
        },
        r is Some <==> forall|i: int|
            0 <= i < a@.len() ==> {
                &&& fits_raw(mul_raw(f.raw as int, (#[trigger] b@[i]).raw as int))
                &&& fits_raw(a@[i].raw - mul_raw(f.raw as int, b@[i].raw as int))
            },
{
    let mut out: Vec<Fx> = Vec::new();
    let mut i: usize = 0;
    while i < a.len()
        invariant
            i <= a@.len(),
            a@.len() == b@.len(),
            out@.len() == i,
            forall|t: int|
                0 <= t < i ==> (#[trigger] out@[t]).raw == a@[t].raw - mul_raw(
                    f.raw as int,
                    b@[t].raw as int,
                ),
            forall|t: int|
                0 <= t < i ==> {
                    &&& fits_raw(mul_raw(f.raw as int, (#[trigger] b@[t]).raw as int))
                    &&& fits_raw(a@[t].raw - mul_raw(f.raw as int, b@[t].raw as int))
                },
        decreases a@.len() - i,
    {
        let s = match f.checked_mul(b[i]) {
            Some(v) => v,
            None => {
                return None;
            },
        };
        match a[i].checked_sub(s) {
            Some(v) => out.push(v),
            None => {
                return None;
            },
        }
        i = i + 1;
    }
    Some(out)
}

/// Inverse of a square matrix by Gauss-Jordan elimination with partial
/// pivoting, followed by a residual check that certifies the result.
/// `None` when a pivot column is entirely zero (the matrix is singular
/// at the working precision), when an entry leaves the representable
/// range, or when the product of the input with the candidate inverse
/// strays from the identity by more than the certified bound (the
/// matrix is ill-conditioned at the working precision).
pub fn invert(m: &Vec<Vec<Fx>>, n: usize) -> (r: Option<Vec<Vec<Fx>>>)
    requires
        is_matrix(m@, n as int, n as int),
        n >= 1,
    ensures
        r matches Some(g) ==> {
            &&& is_matrix(g@, n as int, n as int)
            &&& forall|i: int, j: int|
                0 <= i < n && 0 <= j < n ==> approx_inverse_entry_ok(m@, g@, i, j)
        },
{
    let two_n = match n.checked_mul(2) {
        Some(v) => v,
        None => {
            return None;
        },
    };

    // augmented matrix [m | identity]
    let mut aug: Vec<Vec<Fx>> = Vec::new();
    let mut i: usize = 0;
    while i < n
        invariant
            i <= n,
            two_n == 2 * n,
            is_matrix(m@, n as int, n as int),
            is_matrix(aug@, i as int, two_n as int),
        decreases n - i,
    {
        let mut row = copy_row(&m[i]);
        let mut j: usize = 0;
        while j < n
            invariant
                j <= n,
                i < n,
                row@.len() == n + j,
            decreases n - j,
        {
            if i == j {
                row.push(Fx { raw: SCALE });
            } else {
                row.push(Fx { raw: 0 });
            }
            j = j + 1;
        }
        aug.push(row);
        i = i + 1;
    }

    // elimination, one pivot column at a time
    let mut k: usize = 0;
    while k < n
        invariant
            k <= n,
            n >= 1,
            two_n == 2 * n,
            is_matrix(aug@, n as int, two_n as int),
        decreases n - k,
    {
        // partial pivoting: the row with the largest magnitude in column k
        let mut p: usize = k;
        let mut pmag: i128 = if aug[k][k].raw < 0 {
            -(aug[k][k].raw as i128)
        } else {
            aug[k][k].raw as i128
        };
        let mut rr: usize = k + 1;
        while rr < n
            invariant
                k < n,
                k <= p < n,
                k < rr <= n,
                two_n == 2 * n,
                is_matrix(aug@, n as int, two_n as int),
                pmag == if aug@[p as int]@[k as int].raw < 0 {
                    -(aug@[p as int]@[k as int].raw as int)
                } else {
                    aug@[p as int]@[k as int].raw as int
                },
            decreases n - rr,
        {
            let mag: i128 = if aug[rr][k].raw < 0 {
                -(aug[rr][k].raw as i128)
            } else {
                aug[rr][k].raw as i128
            };
            if mag > pmag {
                p = rr;
                pmag = mag;
            }
            rr = rr + 1;
        }
        if pmag == 0 {
            return None;
        }
        if p != k {
            let rk = copy_row(&aug[k]);
            let rp = copy_row(&aug[p]);
            aug[k] = rp;
            aug[p] = rk;
            proof {
                assert forall|t: int| 0 <= t < n implies (#[trigger] aug@[t])@.len()
                    == two_n by {}
            }
        }

        // normalize the pivot row
        let piv = aug[k][k];
        let newk = match div_row(&aug[k], piv) {
            Some(v) => v,
            None => {
                return None;
            },
        };
        aug[k] = newk;
        proof {
            assert forall|t: int| 0 <= t < n implies (#[trigger] aug@[t])@.len() == two_n by {}
        }

        // clear column k of every other row
        let mut r2: usize = 0;
        while r2 < n
            invariant
                k < n,
                r2 <= n,
                two_n == 2 * n,
                is_matrix(aug@, n as int, two_n as int),
            decreases n - r2,
        {
            if r2 != k {
                let f = aug[r2][k];
                let newr = match row_sub_scaled(&aug[r2], &aug[k], f) {
                    Some(v) => v,
                    None => {
                        return None;
                    },
                };
                aug[r2] = newr;
                proof {
                    assert forall|t: int| 0 <= t < n implies (#[trigger] aug@[t])@.len()
                        == two_n by {}
                }
            }
            r2 = r2 + 1;
        }
        k = k + 1;
    }

    // the right half is the inverse
    let mut out: Vec<Vec<Fx>> = Vec::new();
    let mut i2: usize = 0;
    while i2 < n
        invariant
            i2 <= n,
            two_n == 2 * n,
            is_matrix(aug@, n as int, two_n as int),
            is_matrix(out@, i2 as int, n as int),
        decreases n - i2,
    {
        let mut row: Vec<Fx> = Vec::new();
        let mut j2: usize = 0;
        while j2 < n
            invariant
                j2 <= n,
                i2 < n,
                two_n == 2 * n,
                is_matrix(aug@, n as int, two_n as int),
                row@.len() == j2,
            decreases n - j2,
        {
            row.push(aug[i2][n + j2]);
            j2 = j2 + 1;
        }
        out.push(row);
        i2 = i2 + 1;
    }

    // certify the candidate: its product with the input must reproduce
    // the identity to within the residual bound, entry by entry
    if check_residual(m, &out, n) {
        Some(out)
    } else {
        None
    }
}

/// Does `m * g` reproduce the identity to within the certified
/// residual bound, entry by entry?  `false` also covers an entry whose
/// dot product is not computable.
pub fn check_residual(m: &Vec<Vec<Fx>>, g: &Vec<Vec<Fx>>, n: usize) -> (r: bool)
    requires
        is_matrix(m@, n as int, n as int),
        is_matrix(g@, n as int, n as int),
    ensures
        r ==> forall|i: int, j: int|
            0 <= i < n && 0 <= j < n ==> #[trigger] residual_entry_ok(m@[i]@, g@, i, j),
{
    let mut j3: usize = 0;
    while j3 < n
        invariant
            j3 <= n,
            is_matrix(m@, n as int, n as int),
            is_matrix(g@, n as int, n as int),
            forall|u: int, t: int|
                0 <= u < j3 && 0 <= t < n ==> #[trigger] residual_entry_ok(m@[t]@, g@, t, u),
        decreases n - j3,
    {
        let colj = get_col(g, j3);
        let mut i3: usize = 0;
        while i3 < n
            invariant
                i3 <= n,
                j3 < n,
                is_matrix(m@, n as int, n as int),
                is_matrix(g@, n as int, n as int),
                colj@ == col_seq(g@, j3 as int),
                forall|u: int, t: int|
                    0 <= u < j3 && 0 <= t < n ==> #[trigger] residual_entry_ok(m@[t]@, g@, t, u),
                forall|t: int|
                    0 <= t < i3 ==> #[trigger] residual_entry_ok(m@[t]@, g@, t, j3 as int),
            decreases n - i3,
        {
            let e = match dot(&m[i3], &colj) {
                Some(v) => v,
                None => {
                    return false;
                },
            };
            let target: i64 = if i3 == j3 {
                SCALE
            } else {
                0
            };
            let diff: i128 = (e.raw as i128) - (target as i128);
            if diff > INV_CHECK_RAW as i128 || diff < -(INV_CHECK_RAW as i128) {
                return false;
            }
            i3 = i3 + 1;
        }
        j3 = j3 + 1;
    }
    true
}

/// The symmetric part of a square matrix: entry `(i, j)` becomes the
/// truncated average of entries `(i, j)` and `(j, i)`, so the result
/// is exactly symmetric.
pub fn symmetrize(m: &Vec<Vec<Fx>>, n: usize) -> (r: Option<Vec<Vec<Fx>>>)
    requires
        is_matrix(m@, n as int, n as int),
    ensures
        r is Some,
        r matches Some(g) ==> {
            &&& is_matrix(g@, n as int, n as int)
            &&& forall|i: int, j: int|
                0 <= i < n && 0 <= j < n ==> (#[trigger] g@[i]@[j]).raw == div_trunc(
                    m@[i]@[j].raw + m@[j]@[i].raw,
                    2,
                )
            &&& forall|i: int, j: int|
                0 <= i < n && 0 <= j < n ==> (#[trigger] g@[i]@[j]).raw == g@[j]@[i].raw
        },
{
    let mut out: Vec<Vec<Fx>> = Vec::new();
    let mut i: usize = 0;
    while i < n
        invariant
            i <= n,
            is_matrix(m@, n as int, n as int),
            out@.len() == i,
            forall|t: int| 0 <= t < i ==> (#[trigger] out@[t])@.len() == n,
            forall|t: int, u: int|
                0 <= t < i && 0 <= u < n ==> (#[trigger] out@[t]@[u]).raw == div_trunc(
                    m@[t]@[u].raw + m@[u]@[t].raw,
                    2,
                ),
        decreases n - i,
    {
        let mut row: Vec<Fx> = Vec::new();
        let mut j: usize = 0;
        while j < n
            invariant
                j <= n,
                i < n,
                is_matrix(m@, n as int, n as int),
                row@.len() == j,
                forall|u: int|
                    0 <= u < j ==> (#[trigger] row@[u]).raw == div_trunc(
                        m@[i as int]@[u].raw + m@[u]@[i as int].raw,
                        2,
                    ),
            decreases n - j,
        {
            let s: i128 = (m[i][j].raw as i128) + (m[j][i].raw as i128);
            proof {
                // the truncated average of two raw values always fits
                let si = s as int;
                if si >= 0 {
                    assert(0 <= si / 2 <= i64::MAX) by (nonlinear_arith)
                        requires
                            0 <= si <= 2 * (i64::MAX as int),
                    ;
                } else {
                    assert(0 <= (-si) / 2 <= -(i64::MIN as int)) by (nonlinear_arith)
                        requires
                            0 < -si <= -2 * (i64::MIN as int),
                    ;
                }
            }
            match div_i128_pos(s, 2) {
                Some(v) => row.push(Fx { raw: v }),
                None => {
                    proof {
                        assert(false);
                    }
                    return None;
                },
            }
            j = j + 1;
        }
        out.push(row);
        i = i + 1;
    }
    Some(out)
}

} // verus!
