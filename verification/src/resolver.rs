//! The resolver: accumulates matrix powers over a fixed iteration budget and
//! reduces them to per-policy vote totals and per-voter influence scores.

use vstd::prelude::*;

verus! {

use crate::matrix::{col, dot, fp_add, fp_div, fp_mul, identity, is_square, mat_add, mat_mul,
    sat64, Matrix, fp_add_exec, fp_div_exec};
use crate::{ITERATIONS, SCALE};

/// The matrix power `A` after `t` steps: `A_0` is the identity, and each
/// step multiplies by `m` on the right.
pub open spec fn power_after(m: Seq<Seq<u64>>, t: nat) -> Seq<Seq<u64>>
    decreases t,
{
    if t == 0 {
        identity(m.len())
    } else {
        mat_mul(power_after(m, (t - 1) as nat), m)
    }
}

/// The running sum `S` after `t` steps: `S_0` is the identity, and each step
/// adds the new power elementwise.
pub open spec fn sum_after(m: Seq<Seq<u64>>, t: nat) -> Seq<Seq<u64>>
    decreases t,
{
    if t == 0 {
        identity(m.len())
    } else {
        mat_add(sum_after(m, (t - 1) as nat), power_after(m, t))
    }
}

/// The (saturating) sum of the first `k` entries of a row.
pub open spec fn row_sum(r: Seq<u64>, k: int) -> u64
    decreases k,
{
    if k <= 0 {
        0u64
    } else {
        fp_add(row_sum(r, k - 1), r[k - 1])
    }
}

/// The vote total of each policy: in the final power, the policy's row summed
/// across all `n` voter columns. Entry `i` belongs to the policy at row
/// `n + i`.
pub open spec fn vote_totals_spec(m: Seq<Seq<u64>>, n: int) -> Seq<u64> {
    Seq::new(
        (m.len() - n) as nat,
        |i: int| row_sum(power_after(m, ITERATIONS as nat)[n + i], n),
    )
}

/// The influence score of each voter: the weight the voter received from all
/// voters over the horizon, divided by the weight it retained for itself.
pub open spec fn influence_spec(m: Seq<Seq<u64>>, n: int) -> Seq<u64> {
    Seq::new(
        n as nat,
        |v: int| fp_div(
            row_sum(sum_after(m, ITERATIONS as nat)[v], n),
            sum_after(m, ITERATIONS as nat)[v][v],
        ),
    )
}

/// Resolves transitive delegation. Given the delegation matrix `m` of size
/// `s = n + p` and the voter count `n`, raises `m` to successive powers over
/// the fixed iteration budget, accumulating the running sum, and returns
/// `(vote totals, influence scores)`: the totals hold one entry per policy
/// row (rows `n..s`, in order), the influence scores one entry per voter.
pub fn calculate(m: &Matrix, num_voters: usize) -> (r: (Vec<u64>, Vec<u64>))
    requires
        m.wf(),
        num_voters <= m@.len(),
    ensures
        r.0@ == vote_totals_spec(m@, num_voters as int),
        r.1@ == influence_spec(m@, num_voters as int),
        r.0@.len() == m@.len() - num_voters,
        r.1@.len() == num_voters,
{
    let s = m.size();
    let mut a = Matrix::identity_matrix(s);
    let mut sum = Matrix::identity_matrix(s);
    let mut t: usize = 0;
    while t < ITERATIONS
        invariant
            t <= ITERATIONS,
            m.wf(),
            s == m@.len(),
            a.wf(),
            sum.wf(),
            a@.len() == s,
            sum@.len() == s,
            a@ == power_after(m@, t as nat),
            sum@ == sum_after(m@, t as nat),
        decreases ITERATIONS - t,
    {
        a = a.multiply(m);
        sum = sum.add_elementwise(&a);
        t += 1;
    }

    let a_final = a;
    let s_acc = sum;

    let mut totals: Vec<u64> = Vec::new();
    let mut i: usize = num_voters;
    while i < s
        invariant
            num_voters <= i <= s,
            m.wf(),
            s == m@.len(),
            a_final.wf(),
            a_final@.len() == s,
            a_final@ == power_after(m@, ITERATIONS as nat),
            totals@.len() == i - num_voters,
            forall|ii: int|
                0 <= ii < i - num_voters ==> #[trigger] totals@[ii] == row_sum(
                    a_final@[num_voters + ii],
                    num_voters as int,
                ),
        decreases s - i,
    {
        let mut acc: u64 = 0;
        let mut k: usize = 0;
        while k < num_voters
            invariant
                k <= num_voters,
                num_voters <= i < s,
                s == m@.len(),
                a_final.wf(),
                a_final@.len() == s,
                acc == row_sum(a_final@[i as int], k as int),
            decreases num_voters - k,
        {
            acc = fp_add_exec(acc, a_final.entry(i, k));
            k += 1;
        }
        totals.push(acc);
        i += 1;
    }

    let mut influence: Vec<u64> = Vec::new();
    let mut v: usize = 0;
    while v < num_voters
        invariant
            v <= num_voters,
            num_voters <= s,
            s == m@.len(),
            s_acc.wf(),
            s_acc@.len() == s,
            s_acc@ == sum_after(m@, ITERATIONS as nat),
            influence@.len() == v,
            forall|vv: int|
                0 <= vv < v ==> #[trigger] influence@[vv] == fp_div(
                    row_sum(s_acc@[vv], num_voters as int),
                    s_acc@[vv][vv],
                ),
        decreases num_voters - v,
    {
        let mut received: u64 = 0;
        let mut k: usize = 0;
        while k < num_voters
            invariant
                k <= num_voters,
                v < num_voters,
                num_voters <= s,
                s == m@.len(),
                s_acc.wf(),
                s_acc@.len() == s,
                received == row_sum(s_acc@[v as int], k as int),
            decreases num_voters - k,
        {
            received = fp_add_exec(received, s_acc.entry(v, k));
            k += 1;
        }
        let self_weight = s_acc.entry(v, v);
        influence.push(fp_div_exec(received, self_weight));
        v += 1;
    }

    proof {
        assert(totals@ =~= vote_totals_spec(m@, num_voters as int));
        assert(influence@ =~= influence_spec(m@, num_voters as int));
    }
    (totals, influence)
}

/// The product of a weight and the weight one is the weight itself.
proof fn lemma_fp_mul_scale(a: u64)
    ensures
        fp_mul(a, SCALE) == a,
        fp_mul(SCALE, a) == a,
        fp_mul(a, 0u64) == 0u64,
        fp_mul(0u64, a) == 0u64,
{
    assert((a as int) * (SCALE as int) / (SCALE as int) == a as int) by (nonlinear_arith)
        requires
            SCALE > 0,
    ;
    assert((SCALE as int) * (a as int) == (a as int) * (SCALE as int)) by (nonlinear_arith);
}

/// Dot product against a column holding the weight one at position `x` and
/// zero elsewhere picks out entry `x` of the row.
proof fn lemma_dot_unit_col(r: Seq<u64>, c: Seq<u64>, x: int, k: int)
    requires
        0 <= x < c.len(),
        k <= r.len(),
        k <= c.len(),
        c[x] == SCALE,
        forall|t: int| 0 <= t < c.len() && t != x ==> c[t] == 0u64,
    ensures
        dot(r, c, k) == if x < k {
            r[x]
        } else {
            0u64
        },
    decreases k,
{
    if k > 0 {
        lemma_dot_unit_col(r, c, x, k - 1);
        lemma_fp_mul_scale(r[k - 1]);
    }
}

/// Dot product of a row holding the weight one at position `x` and zero
/// elsewhere picks out entry `x` of the column.
proof fn lemma_dot_unit_row(r: Seq<u64>, c: Seq<u64>, x: int, k: int)
    requires
        0 <= x < r.len(),
        k <= r.len(),
        k <= c.len(),
        r[x] == SCALE,
        forall|t: int| 0 <= t < r.len() && t != x ==> r[t] == 0u64,
    ensures
        dot(r, c, k) == if x < k {
            c[x]
        } else {
            0u64
        },
    decreases k,
{
    if k > 0 {
        lemma_dot_unit_row(r, c, x, k - 1);
        lemma_fp_mul_scale(c[k - 1]);
    }
}

/// The sum of the first `k` entries of a row whose first `k` entries all
/// hold `v`.
proof fn lemma_row_sum_const(r: Seq<u64>, k: int, v: u64)
    requires
        0 <= k <= r.len(),
        forall|t: int| 0 <= t < k ==> r[t] == v,
        k * (v as int) <= u64::MAX,
    ensures
        row_sum(r, k) == (k * (v as int)) as u64,
    decreases k,
{
    if k > 0 {
        let prev = (k - 1) * (v as int);
        let full = k * (v as int);
        assert(prev + v == full && 0 <= prev <= full) by (nonlinear_arith)
            requires
                prev == (k - 1) * (v as int) && full == k * (v as int) && v >= 0 && k >= 1,
        ;
        lemma_row_sum_const(r, k - 1, v);
        assert(row_sum(r, k) == fp_add(prev as u64, v));
        assert(fp_add(prev as u64, v) == sat64(prev + v));
        assert(sat64(full) == full as u64);
    } else {
        assert(k * (v as int) == 0) by (nonlinear_arith)
            requires
                k == 0,
        ;
    }
}

/// The sum of the first `k` entries of a row that is zero everywhere but at
/// position `x`.
proof fn lemma_row_sum_single(r: Seq<u64>, k: int, x: int)
    requires
        0 <= x < r.len(),
        k <= r.len(),
        forall|t: int| 0 <= t < r.len() && t != x ==> r[t] == 0u64,
    ensures
        row_sum(r, k) == if x < k {
            r[x]
        } else {
            0u64
        },
    decreases k,
{
    if k > 0 {
        lemma_row_sum_single(r, k - 1, x);
    }
}

/// Every voter column of `m` directs the full weight one at row `x`, and
/// every policy column is absorbing.
pub open spec fn full_delegation_matrix(m: Seq<Seq<u64>>, n: int, x: int) -> bool {
    forall|row: int, c: int|
        0 <= row < m.len() && 0 <= c < m.len() ==> #[trigger] m[row][c] == (if (c < n && row == x)
            || (c >= n && row == c) {
            SCALE
        } else {
            0u64
        })
}

/// Under full delegation to row `x`, every power of `m` keeps the absorbing
/// policy columns, and from the first power on every voter column holds the
/// weight one at row `x`.
proof fn lemma_power_full_delegation(m: Seq<Seq<u64>>, n: int, x: int, t: nat)
    requires
        is_square(m),
        0 <= n <= m.len(),
        n <= x < m.len(),
        full_delegation_matrix(m, n, x),
    ensures
        power_after(m, t).len() == m.len(),
        forall|i: int|
            0 <= i < m.len() ==> (#[trigger] power_after(m, t)[i]).len() == m.len(),
        forall|row: int, c: int|
            0 <= row < m.len() && n <= c < m.len() ==> #[trigger] power_after(m, t)[row][c] == (
            if row == c {
                SCALE
            } else {
                0u64
            }),
        t >= 1 ==> forall|row: int, c: int|
            0 <= row < m.len() && 0 <= c < n ==> #[trigger] power_after(m, t)[row][c] == (if row
                == x {
                SCALE
            } else {
                0u64
            }),
    decreases t,
{
    let s = m.len() as int;
    if t == 0 {
    } else {
        lemma_power_full_delegation(m, n, x, (t - 1) as nat);
        let prev = power_after(m, (t - 1) as nat);
        let cur = power_after(m, t);
        assert(cur == mat_mul(prev, m));
        assert forall|row: int, c: int| 0 <= row < s && n <= c < s implies #[trigger] cur[row][c]
            == (if row == c {
            SCALE
        } else {
            0u64
        }) by {
            assert(col(m, c).len() == s);
            assert(col(m, c)[c] == SCALE);
            assert forall|tt: int| 0 <= tt < s && tt != c implies col(m, c)[tt] == 0u64 by {}
            lemma_dot_unit_col(prev[row], col(m, c), c, s);
            assert(cur[row][c] == dot(prev[row], col(m, c), s));
        }
        assert forall|row: int, c: int| 0 <= row < s && 0 <= c < n implies #[trigger] cur[row][c]
            == (if row == x {
            SCALE
        } else {
            0u64
        }) by {
            assert(col(m, c).len() == s);
            assert(col(m, c)[x] == SCALE);
            assert forall|tt: int| 0 <= tt < s && tt != x implies col(m, c)[tt] == 0u64 by {}
            lemma_dot_unit_col(prev[row], col(m, c), x, s);
            assert(cur[row][c] == dot(prev[row], col(m, c), s));
            assert(prev[row][x] == if row == x {
                SCALE
            } else {
                0u64
            });
        }
    }
}

/// Law: when every voter delegates the full weight one to the single policy
/// at row `x`, the resolved vote totals are `n` times the weight one for
/// that policy and zero for every other policy, whatever the policy count.
pub proof fn lemma_full_delegation_totals(m: Seq<Seq<u64>>, n: int, x: int)
    requires
        is_square(m),
        0 <= n <= m.len(),
        n <= x < m.len(),
        full_delegation_matrix(m, n, x),
        n * (SCALE as int) <= u64::MAX,
    ensures
        vote_totals_spec(m, n).len() == m.len() - n,
        forall|i: int|
            0 <= i < m.len() - n ==> #[trigger] vote_totals_spec(m, n)[i] == (if n + i == x {
                (n * (SCALE as int)) as u64
            } else {
                0u64
            }),
{
    let s = m.len() as int;
    lemma_power_full_delegation(m, n, x, ITERATIONS as nat);
    let a = power_after(m, ITERATIONS as nat);
    assert forall|i: int| 0 <= i < s - n implies #[trigger] vote_totals_spec(m, n)[i] == (if n + i
        == x {
        (n * (SCALE as int)) as u64
    } else {
        0u64
    }) by {
        if n + i == x {
            lemma_row_sum_const(a[x], n, SCALE);
        } else {
            lemma_row_sum_const(a[n + i], n, 0u64);
        }
    }
}

/// Column `v` of `m` directs the full weight one back at row `v`, and row
/// `v` receives nothing from any other column: the voter is fully
/// self-contained.
pub open spec fn self_contained_voter(m: Seq<Seq<u64>>, v: int) -> bool {
    &&& forall|t: int|
        0 <= t < m.len() ==> #[trigger] m[t][v] == (if t == v {
            SCALE
        } else {
            0u64
        })
    &&& forall|t: int|
        0 <= t < m.len() ==> #[trigger] m[v][t] == (if t == v {
            SCALE
        } else {
            0u64
        })
}

/// Row `v` of every power of `m` holds the weight one at `v` and zero
/// elsewhere when the voter at `v` is fully self-contained.
proof fn lemma_power_self_contained(m: Seq<Seq<u64>>, v: int, t: nat)
    requires
        is_square(m),
        0 <= v < m.len(),
        self_contained_voter(m, v),
    ensures
        power_after(m, t).len() == m.len(),
        forall|i: int|
            0 <= i < m.len() ==> (#[trigger] power_after(m, t)[i]).len() == m.len(),
        forall|k: int|
            0 <= k < m.len() ==> #[trigger] power_after(m, t)[v][k] == (if k == v {
                SCALE
            } else {
                0u64
            }),
    decreases t,
{
    let s = m.len() as int;
    if t == 0 {
    } else {
        lemma_power_self_contained(m, v, (t - 1) as nat);
        let prev = power_after(m, (t - 1) as nat);
        let cur = power_after(m, t);
        assert(cur == mat_mul(prev, m));
        assert forall|k: int| 0 <= k < s implies #[trigger] cur[v][k] == (if k == v {
            SCALE
        } else {
            0u64
        }) by {
            assert(col(m, k).len() == s);
            lemma_dot_unit_row(prev[v], col(m, k), v, s);
            assert(cur[v][k] == dot(prev[v], col(m, k), s));
            assert(col(m, k)[v] == m[v][k]);
        }
    }
}

/// Row `v` of the running sum after `t` steps holds `t + 1` times the weight
/// one at `v` and zero elsewhere when the voter at `v` is fully
/// self-contained.
proof fn lemma_sum_self_contained(m: Seq<Seq<u64>>, v: int, t: nat)
    requires
        is_square(m),
        0 <= v < m.len(),
        self_contained_voter(m, v),
        (t + 1) * (SCALE as int) <= u64::MAX,
    ensures
        sum_after(m, t).len() == m.len(),
        forall|i: int|
            0 <= i < m.len() ==> (#[trigger] sum_after(m, t)[i]).len() == m.len(),
        forall|k: int|
            0 <= k < m.len() ==> #[trigger] sum_after(m, t)[v][k] == (if k == v {
                ((t + 1) * (SCALE as int)) as u64
            } else {
                0u64
            }),
    decreases t,
{
    let s = m.len() as int;
    if t == 0 {
    } else {
        assert(t * (SCALE as int) <= (t + 1) * (SCALE as int)) by (nonlinear_arith)
            requires
                t >= 0 && SCALE > 0,
        ;
        lemma_sum_self_contained(m, v, (t - 1) as nat);
        lemma_power_self_contained(m, v, t);
        let prevsum = sum_after(m, (t - 1) as nat);
        let pw = power_after(m, t);
        let cur = sum_after(m, t);
        assert(cur == mat_add(prevsum, pw));
        assert(t * (SCALE as int) + SCALE == (t + 1) * (SCALE as int)) by (nonlinear_arith);
        assert forall|k: int| 0 <= k < s implies #[trigger] cur[v][k] == (if k == v {
            ((t + 1) * (SCALE as int)) as u64
        } else {
            0u64
        }) by {
            assert(cur[v][k] == fp_add(prevsum[v][k], pw[v][k]));
        }
    }
}

/// Column `v` of every power of `m` stays the unit column at `v` when the
/// voter at `v` directs its full weight at itself.
proof fn lemma_power_self_column(m: Seq<Seq<u64>>, v: int, t: nat)
    requires
        is_square(m),
        0 <= v < m.len(),
        forall|k: int|
            0 <= k < m.len() ==> #[trigger] m[k][v] == (if k == v {
                SCALE
            } else {
                0u64
            }),
    ensures
        power_after(m, t).len() == m.len(),
        forall|i: int|
            0 <= i < m.len() ==> (#[trigger] power_after(m, t)[i]).len() == m.len(),
        forall|k: int|
            0 <= k < m.len() ==> #[trigger] power_after(m, t)[k][v] == (if k == v {
                SCALE
            } else {
                0u64
            }),
    decreases t,
{
    let s = m.len() as int;
    if t > 0 {
        lemma_power_self_column(m, v, (t - 1) as nat);
        let prev = power_after(m, (t - 1) as nat);
        let cur = power_after(m, t);
        assert(cur == mat_mul(prev, m));
        assert forall|k: int| 0 <= k < s implies #[trigger] cur[k][v] == (if k == v {
            SCALE
        } else {
            0u64
        }) by {
            assert(col(m, v).len() == s);
            assert(col(m, v)[v] == SCALE);
            assert forall|tt: int| 0 <= tt < s && tt != v implies col(m, v)[tt] == 0u64 by {}
            lemma_dot_unit_col(prev[k], col(m, v), v, s);
            assert(cur[k][v] == dot(prev[k], col(m, v), s));
        }
    }
}

/// The running sum's diagonal entry at `v` after `t` steps is `t + 1` times
/// the weight one when the voter at `v` directs its full weight at itself.
proof fn lemma_sum_self_column(m: Seq<Seq<u64>>, v: int, t: nat)
    requires
        is_square(m),
        0 <= v < m.len(),
        forall|k: int|
            0 <= k < m.len() ==> #[trigger] m[k][v] == (if k == v {
                SCALE
            } else {
                0u64
            }),
        (t + 1) * (SCALE as int) <= u64::MAX,
    ensures
        sum_after(m, t).len() == m.len(),
        forall|i: int|
            0 <= i < m.len() ==> (#[trigger] sum_after(m, t)[i]).len() == m.len(),
        sum_after(m, t)[v][v] == ((t + 1) * (SCALE as int)) as u64,
    decreases t,
{
    if t == 0 {
    } else {
        assert(t * (SCALE as int) + SCALE == (t + 1) * (SCALE as int)) by (nonlinear_arith);
        assert(0 <= t * (SCALE as int) <= (t + 1) * (SCALE as int)) by (nonlinear_arith)
            requires
                t >= 0 && SCALE > 0,
        ;
        lemma_sum_self_column(m, v, (t - 1) as nat);
        lemma_power_self_column(m, v, t);
        let prevsum = sum_after(m, (t - 1) as nat);
        let pw = power_after(m, t);
        let cur = sum_after(m, t);
        assert(cur == mat_add(prevsum, pw));
        assert(cur[v][v] == fp_add(prevsum[v][v], pw[v][v]));
    }
}

/// Law: a voter that delegates its full weight to itself in every step
/// retains exactly the weight one per step: its accumulated self-weight is
/// the iteration budget plus one, times the weight one, and its influence
/// score is its total received weight divided by exactly that constant.
pub proof fn lemma_self_delegation_influence(m: Seq<Seq<u64>>, n: int, v: int)
    requires
        is_square(m),
        0 <= v < n <= m.len(),
        forall|k: int|
            0 <= k < m.len() ==> #[trigger] m[k][v] == (if k == v {
                SCALE
            } else {
                0u64
            }),
    ensures
        sum_after(m, ITERATIONS as nat)[v][v] == ((ITERATIONS + 1) * (SCALE as int)) as u64,
        influence_spec(m, n)[v] == fp_div(
            row_sum(sum_after(m, ITERATIONS as nat)[v], n),
            ((ITERATIONS + 1) * (SCALE as int)) as u64,
        ),
{
    let t = ITERATIONS as nat;
    assert((t + 1) * (SCALE as int) <= u64::MAX) by (nonlinear_arith)
        requires
            t == 1000 && SCALE == 4294967296,
    ;
    lemma_sum_self_column(m, v, t);
}

/// Law: a fully self-contained voter — one that delegates the full weight
/// one to itself and receives no delegation from anyone else — has influence
/// score exactly the weight one.
pub proof fn lemma_self_contained_influence(m: Seq<Seq<u64>>, n: int, v: int)
    requires
        is_square(m),
        0 <= v < n <= m.len(),
        self_contained_voter(m, v),
    ensures
        influence_spec(m, n)[v] == SCALE,
{
    let s = m.len() as int;
    let t = ITERATIONS as nat;
    assert((t + 1) * (SCALE as int) <= u64::MAX) by (nonlinear_arith)
        requires
            t == 1000 && SCALE == 4294967296,
    ;
    lemma_sum_self_contained(m, v, t);
    let acc = sum_after(m, t);
    let w = ((t + 1) * (SCALE as int)) as u64;
    lemma_row_sum_single(acc[v], n, v);
    assert(row_sum(acc[v], n) == w);
    assert(acc[v][v] == w);
    assert(w > 0);
    assert((w as int) * (SCALE as int) / (w as int) == SCALE as int) by (nonlinear_arith)
        requires
            w > 0,
    ;
    assert(fp_div(w, w) == SCALE);
}

/// Law: the resolver is a pure function of the matrix and the voter count.
/// Two results that both satisfy `calculate`'s contract for the same inputs
/// are identical, bit for bit: the resolver keeps no hidden state.
pub proof fn lemma_resolver_deterministic(
    m: Seq<Seq<u64>>,
    n: int,
    r1: (Seq<u64>, Seq<u64>),
    r2: (Seq<u64>, Seq<u64>),
)
    requires
        r1.0 == vote_totals_spec(m, n),
        r1.1 == influence_spec(m, n),
        r2.0 == vote_totals_spec(m, n),
        r2.1 == influence_spec(m, n),
    ensures
        r1 == r2,
{
}

} // verus!
