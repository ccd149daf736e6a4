//! Square matrices of fixed-point weights, and the saturating fixed-point
//! arithmetic they are computed with.

use vstd::prelude::*;

verus! {

use crate::SCALE;

/// Saturate a non-negative mathematical integer to `u64`.
pub open spec fn sat64(x: int) -> u64 {
    if x > u64::MAX {
        u64::MAX
    } else {
        x as u64
    }
}

/// Fixed-point multiplication: the scaled product, saturating at `u64::MAX`.
pub open spec fn fp_mul(a: u64, b: u64) -> u64 {
    sat64((a as int) * (b as int) / (SCALE as int))
}

/// Saturating addition of two weights.
pub open spec fn fp_add(a: u64, b: u64) -> u64 {
    sat64((a as int) + (b as int))
}

/// Fixed-point division. A zero divisor arises only in degenerate
/// configurations (a voter that retains no weight at all); it yields
/// `u64::MAX`, the saturated stand-in for an unbounded score.
pub open spec fn fp_div(a: u64, b: u64) -> u64 {
    if b == 0 {
        u64::MAX
    } else {
        sat64((a as int) * (SCALE as int) / (b as int))
    }
}

/// Computes `fp_mul(a, b)`.
pub fn fp_mul_exec(a: u64, b: u64) -> (r: u64)
    ensures
        r == fp_mul(a, b),
{
    proof {
        assert((a as int) * (b as int) <= u128::MAX as int) by (nonlinear_arith)
            requires
                a <= u64::MAX && b <= u64::MAX,
        ;
        assert((a as int) * (b as int) >= 0) by (nonlinear_arith)
            requires
                a >= 0 && b >= 0,
        ;
    }
    let p: u128 = (a as u128) * (b as u128);
    let q: u128 = p / (SCALE as u128);
    if q > (u64::MAX as u128) {
        u64::MAX
    } else {
        q as u64
    }
}

/// Computes `fp_add(a, b)`.
pub fn fp_add_exec(a: u64, b: u64) -> (r: u64)
    ensures
        r == fp_add(a, b),
{
    if a > u64::MAX - b {
        u64::MAX
    } else {
        a + b
    }
}

/// Computes `fp_div(a, b)`.
pub fn fp_div_exec(a: u64, b: u64) -> (r: u64)
    ensures
        r == fp_div(a, b),
{
    if b == 0 {
        u64::MAX
    } else {
        proof {
            assert((a as int) * (SCALE as int) <= u128::MAX as int) by (nonlinear_arith)
                requires
                    a <= u64::MAX && SCALE <= u64::MAX,
            ;
            assert((a as int) * (SCALE as int) >= 0) by (nonlinear_arith)
                requires
                    a >= 0 && SCALE >= 0,
            ;
        }
        let p: u128 = (a as u128) * (SCALE as u128);
        let q: u128 = p / (b as u128);
        if q > (u64::MAX as u128) {
            u64::MAX
        } else {
            q as u64
        }
    }
}

/// A square matrix of fixed-point weights, stored row by row.
pub struct Matrix {
    pub rows: Vec<Vec<u64>>,
}

impl View for Matrix {
    type V = Seq<Seq<u64>>;

    open spec fn view(&self) -> Seq<Seq<u64>> {
        Seq::new(self.rows@.len(), |i: int| self.rows@[i]@)
    }
}

/// A sequence of rows forms a square matrix: every row is as long as the
/// sequence itself.
pub open spec fn is_square(m: Seq<Seq<u64>>) -> bool {
    forall|i: int| 0 <= i < m.len() ==> (#[trigger] m[i]).len() == m.len()
}

/// Column `j` of the matrix, as a sequence.
pub open spec fn col(m: Seq<Seq<u64>>, j: int) -> Seq<u64> {
    Seq::new(m.len(), |k: int| m[k][j])
}

/// Fixed-point dot product of the first `k` entries of `r` and `c`,
/// accumulated left to right.
pub open spec fn dot(r: Seq<u64>, c: Seq<u64>, k: int) -> u64
    decreases k,
{
    if k <= 0 {
        0u64
    } else {
        fp_add(dot(r, c, k - 1), fp_mul(r[k - 1], c[k - 1]))
    }
}

/// The matrix product of two square matrices of equal size.
pub open spec fn mat_mul(a: Seq<Seq<u64>>, b: Seq<Seq<u64>>) -> Seq<Seq<u64>> {
    Seq::new(a.len(), |i: int| Seq::new(b.len(), |j: int| dot(a[i], col(b, j), b.len() as int)))
}

/// The elementwise (saturating) sum of two square matrices of equal size.
pub open spec fn mat_add(a: Seq<Seq<u64>>, b: Seq<Seq<u64>>) -> Seq<Seq<u64>> {
    Seq::new(a.len(), |i: int| Seq::new(a.len(), |j: int| fp_add(a[i][j], b[i][j])))
}

/// The identity matrix of size `s`: the weight one on the diagonal.
pub open spec fn identity(s: nat) -> Seq<Seq<u64>> {
    Seq::new(s, |i: int| Seq::new(s, |j: int| if i == j { SCALE } else { 0u64 }))
}

impl Matrix {
    /// The matrix is square.
    pub open spec fn wf(&self) -> bool {
        is_square(self@)
    }

    /// Returns the size (row and column count) of the matrix.
    pub fn size(&self) -> (s: usize)
        ensures
            s == self@.len(),
    {
        self.rows.len()
    }

    /// Returns the entry at row `i`, column `j`.
    pub fn entry(&self, i: usize, j: usize) -> (r: u64)
        requires
            self.wf(),
            i < self@.len(),
            j < self@.len(),
        ensures
            r == self@[i as int][j as int],
    {
        proof {
            assert(self@[i as int].len() == self@.len());
        }
        self.rows[i][j]
    }

    /// Builds the identity matrix of size `s`.
    pub fn identity_matrix(s: usize) -> (r: Matrix)
        ensures
            r.wf(),
            r@ == identity(s as nat),
            r@.len() == s,
    {
        let mut rows: Vec<Vec<u64>> = Vec::new();
        let mut i: usize = 0;
        while i < s
            invariant
                i <= s,
                rows@.len() == i,
                forall|ii: int|
                    0 <= ii < i ==> (#[trigger] rows@[ii])@ == identity(s as nat)[ii],
            decreases s - i,
        {
            let mut row: Vec<u64> = Vec::new();
            let mut j: usize = 0;
            while j < s
                invariant
                    j <= s,
                    i < s,
                    row@.len() == j,
                    forall|jj: int|
                        0 <= jj < j ==> row@[jj] == (if i == jj {
                            SCALE
                        } else {
                            0u64
                        }),
                decreases s - j,
            {
                if i == j {
                    row.push(SCALE);
                } else {
                    row.push(0u64);
                }
                j += 1;
            }
            proof {
                assert(row@ =~= identity(s as nat)[i as int]);
            }
            rows.push(row);
            i += 1;
        }
        let r = Matrix { rows };
        proof {
            assert(r@ =~= identity(s as nat));
        }
        r
    }

    /// Multiplies two square matrices of equal size.
    pub fn multiply(&self, other: &Matrix) -> (r: Matrix)
        requires
            self.wf(),
            other.wf(),
            self@.len() == other@.len(),
        ensures
            r.wf(),
            r@ == mat_mul(self@, other@),
            r@.len() == self@.len(),
    {
        let s = self.size();
        let mut rows: Vec<Vec<u64>> = Vec::new();
        let mut i: usize = 0;
        while i < s
            invariant
                i <= s,
                s == self@.len(),
                s == other@.len(),
                self.wf(),
                other.wf(),
                rows@.len() == i,
                forall|ii: int|
                    0 <= ii < i ==> (#[trigger] rows@[ii])@ == mat_mul(self@, other@)[ii],
            decreases s - i,
        {
            let mut row: Vec<u64> = Vec::new();
            let mut j: usize = 0;
            while j < s
                invariant
                    j <= s,
                    i < s,
                    s == self@.len(),
                    s == other@.len(),
                    self.wf(),
                    other.wf(),
                    row@.len() == j,
                    forall|jj: int|
                        0 <= jj < j ==> row@[jj] == dot(
                            self@[i as int],
                            col(other@, jj),
                            s as int,
                        ),
                decreases s - j,
            {
                let mut acc: u64 = 0;
                let mut k: usize = 0;
                while k < s
                    invariant
                        k <= s,
                        i < s,
                        j < s,
                        s == self@.len(),
                        s == other@.len(),
                        self.wf(),
                        other.wf(),
                        acc == dot(self@[i as int], col(other@, j as int), k as int),
                    decreases s - k,
                {
                    let x = fp_mul_exec(self.entry(i, k), other.entry(k, j));
                    acc = fp_add_exec(acc, x);
                    k += 1;
                }
                row.push(acc);
                j += 1;
            }
            proof {
                assert(row@ =~= mat_mul(self@, other@)[i as int]);
            }
            rows.push(row);
            i += 1;
        }
        let r = Matrix { rows };
        proof {
            assert(r@ =~= mat_mul(self@, other@));
            assert forall|ii: int| 0 <= ii < r@.len() implies (#[trigger] r@[ii]).len()
                == r@.len() by {}
        }
        r
    }

    /// Adds two square matrices of equal size, elementwise and saturating.
    pub fn add_elementwise(&self, other: &Matrix) -> (r: Matrix)
        requires
            self.wf(),
            other.wf(),
            self@.len() == other@.len(),
        ensures
            r.wf(),
            r@ == mat_add(self@, other@),
            r@.len() == self@.len(),
    {
        let s = self.size();
        let mut rows: Vec<Vec<u64>> = Vec::new();
        let mut i: usize = 0;
        while i < s
            invariant
                i <= s,
                s == self@.len(),
                s == other@.len(),
                self.wf(),
                other.wf(),
                rows@.len() == i,
                forall|ii: int|
                    0 <= ii < i ==> (#[trigger] rows@[ii])@ == mat_add(self@, other@)[ii],
            decreases s - i,
        {
            let mut row: Vec<u64> = Vec::new();
            let mut j: usize = 0;
            while j < s
                invariant
                    j <= s,
                    i < s,
                    s == self@.len(),
                    s == other@.len(),
                    self.wf(),
                    other.wf(),
                    row@.len() == j,
                    forall|jj: int|
                        0 <= jj < j ==> row@[jj] == fp_add(
                            self@[i as int][jj],
                            other@[i as int][jj],
                        ),
                decreases s - j,
            {
                row.push(fp_add_exec(self.entry(i, j), other.entry(i, j)));
                j += 1;
            }
            proof {
                assert(row@ =~= mat_add(self@, other@)[i as int]);
            }
            rows.push(row);
            i += 1;
        }
        let r = Matrix { rows };
        proof {
            assert(r@ =~= mat_add(self@, other@));
        }
        r
    }
}

} // verus!
