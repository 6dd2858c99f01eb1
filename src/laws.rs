//! What holds of every grid that the array-sum circuit lays out.
use vstd::prelude::*;
use crate::field::fadd;
use crate::field::field_modulus;
use crate::field::fsub;
use crate::plonk::Gate;
use crate::plonk::GridView;
use crate::plonk::advice_at;
use crate::plonk::cell_value;
use crate::plonk::copy_holds;
use crate::plonk::eval;
use crate::plonk::gate_holds;
use crate::plonk::satisfied;
use crate::plonk::selector_on;
use crate::plonk::with_advice;
use crate::array_sum::ArraySumConfig;
use crate::array_sum::chain_copies;
use crate::array_sum::config_fits;
use crate::plonk::Cell;
use crate::plonk::ColumnKind;
use crate::array_sum::array_sum_gates;
use crate::array_sum::array_sum_grid;
use crate::array_sum::prefix_sum;
use crate::array_sum::sum_poly;

verus! {

/// The array-sum polynomial at `row`, read directly off the three cells.
pub open spec fn sum_poly_value(g: GridView, cfg: ArraySumConfig, row: int) -> Option<int> {
    match (
        advice_at(g, cfg.advice[0].index as int, row),
        advice_at(g, cfg.advice[1].index as int, row),
        advice_at(g, cfg.advice[2].index as int, row),
    ) {
        (Some(a), Some(x), Some(c)) => Some(fsub(fadd(a, x), c)),
        _ => None,
    }
}

proof fn lemma_eval_sum_poly(g: GridView, cfg: ArraySumConfig, row: int)
    requires
        0 <= row < g.n_rows,
    ensures
        eval(sum_poly(cfg), g, row) == sum_poly_value(g, cfg, row),
{
    reveal_with_fuel(eval, 3);
}

/// A known running total has known elements and known totals before it.
proof fn lemma_prefix_known(xs: Seq<Option<int>>, n: int, i: int)
    requires
        0 <= i <= n <= xs.len(),
        prefix_sum(xs, n) is Some,
    ensures
        prefix_sum(xs, i) is Some,
        i < n ==> xs[i] is Some,
    decreases n - i,
{
    if i < n {
        assert(prefix_sum(xs, n) == crate::plonk::opt_add(prefix_sum(xs, n - 1), xs[n - 1]));
        lemma_prefix_known(xs, n - 1, i);
    }
}

/// Canonical field values are equal when their difference is zero in the field.
proof fn lemma_fsub_zero(y: int, z: int)
    requires
        0 <= y < field_modulus(),
        0 <= z < field_modulus(),
    ensures
        fsub(y, z) == 0 <==> y == z,
{
}

/// Adding one value to two distinct canonical values keeps them distinct.
proof fn lemma_fadd_cancel(u: int, w: int, t: int)
    requires
        0 <= u < field_modulus(),
        0 <= w < field_modulus(),
        0 <= t < field_modulus(),
        fadd(u, t) == fadd(w, t),
    ensures
        u == w,
{
}

/// The array-sum identity at a row holds when it reads a known total, a known element, and
/// their field sum.
proof fn lemma_gate_at_layout_row(gates: Seq<Gate>, g: GridView, cfg: ArraySumConfig, xs: Seq<Option<int>>, i: int)
    requires
        array_sum_gates(gates, cfg),
        array_sum_grid(g, cfg, xs),
        prefix_sum(xs, xs.len() as int) is Some,
        0 <= i < g.n_rows,
    ensures
        gate_holds(gates[0], g, i),
{
    let n = xs.len() as int;
    if selector_on(g, cfg.selector.index as int, i) {
        assert(i < n);
        lemma_prefix_known(xs, n, i);
        lemma_prefix_known(xs, n, i + 1);
        let a = advice_at(g, cfg.advice[0].index as int, i);
        let x = advice_at(g, cfg.advice[1].index as int, i);
        let c = advice_at(g, cfg.advice[2].index as int, i);
        assert(a == prefix_sum(xs, i));
        assert(x == xs[i]);
        assert(c == prefix_sum(xs, i + 1));
        let y = fadd(a->0, x->0);
        assert(c == Some(y));
        assert(0 <= y < field_modulus());
        lemma_fsub_zero(y, y);
        lemma_eval_sum_poly(g, cfg, i);
        assert(eval(sum_poly(cfg), g, i) == Some(fsub(y, y)));
    }
}

/// In a laid-out array-sum grid, the equality constraint tying row `k`'s
/// total to row `k + 1`'s `a` holds when the running totals are known.
proof fn lemma_chain_copy_holds(g: GridView, cfg: ArraySumConfig, xs: Seq<Option<int>>, public: Seq<Seq<int>>, k: int)
    requires
        array_sum_grid(g, cfg, xs),
        prefix_sum(xs, xs.len() as int) is Some,
        0 <= k < xs.len() - 1,
    ensures
        copy_holds(g, public, g.copies[k]),
{
    let n = xs.len() as int;
    lemma_prefix_known(xs, n, k + 1);
    assert(cfg.advice[0].kind == ColumnKind::Advice);
    assert(cfg.advice[2].kind == ColumnKind::Advice);
    let pair = g.copies[k];
    assert(pair == chain_copies(cfg, 0, n)[k]);
    assert(advice_at(g, cfg.advice[2].index as int, k) == prefix_sum(xs, k + 1));
    assert(advice_at(g, cfg.advice[0].index as int, k + 1) == prefix_sum(xs, k + 1));
    assert(cell_value(g, public, pair.0) == prefix_sum(xs, k + 1));
    assert(cell_value(g, public, pair.1) == prefix_sum(xs, k + 1));
}

/// The array-sum circuit is satisfied exactly when the array is known and
/// the public output at row `n - 1` is the field sum of its elements; a
/// wrong public output always breaks the last equality constraint, the one
/// that binds the final total to it.
pub proof fn lemma_satisfied_iff_sum(
    gates: Seq<Gate>,
    g: GridView,
    cfg: ArraySumConfig,
    xs: Seq<Option<int>>,
    public: Seq<Seq<int>>,
)
    requires
        array_sum_gates(gates, cfg),
        array_sum_grid(g, cfg, xs),
        cfg.instance.index < public.len(),
        xs.len() <= public[cfg.instance.index as int].len(),
    ensures
        satisfied(gates, g, public) <==> prefix_sum(xs, xs.len() as int)
            == Some(public[cfg.instance.index as int][xs.len() - 1]),
        prefix_sum(xs, xs.len() as int) != Some(public[cfg.instance.index as int][xs.len() - 1])
            ==> !copy_holds(g, public, g.copies[xs.len() - 1]),
{
    let n = xs.len() as int;
    let pair = g.copies[n - 1];
    assert(cfg.advice[2].kind == ColumnKind::Advice);
    assert(pair.0 == Cell { column: cfg.advice[2], row: (n - 1) as usize });
    assert(pair.1 == Cell { column: cfg.instance, row: (n - 1) as usize });
    assert(advice_at(g, cfg.advice[2].index as int, n - 1) == prefix_sum(xs, n - 1 + 1));
    assert(cell_value(g, public, pair.0) == prefix_sum(xs, n));
    assert(cell_value(g, public, pair.1) == Some(public[cfg.instance.index as int][n - 1]));
    if prefix_sum(xs, n) == Some(public[cfg.instance.index as int][n - 1]) {
        assert forall|i: int, row: int| 0 <= i < gates.len() && 0 <= row < g.n_rows implies #[trigger] gate_holds(gates[i], g, row) by {
            lemma_gate_at_layout_row(gates, g, cfg, xs, row);
        }
        assert forall|k: int| 0 <= k < g.copies.len() implies #[trigger] copy_holds(g, public, g.copies[k]) by {
            if k < n - 1 {
                lemma_chain_copy_holds(g, cfg, xs, public, k);
            }
        }
    } else {
        assert(!copy_holds(g, public, g.copies[n - 1]));
    }
}

/// The row chain alone forces the sum: in any grid whose selector is on at
/// rows `0 .. n` and whose equality constraints are the array-sum ones, if
/// every gate and constraint holds and row 0's `a` is zero, then public row
/// `n - 1` is the field sum of the `x` column over those rows.
pub proof fn lemma_chain_forces_sum(
    gates: Seq<Gate>,
    g: GridView,
    cfg: ArraySumConfig,
    n: int,
    public: Seq<Seq<int>>,
)
    requires
        array_sum_gates(gates, cfg),
        config_fits(cfg, g),
        1 <= n <= g.n_rows,
        n <= usize::MAX,
        forall|r: int| 0 <= r < n ==> #[trigger] selector_on(g, cfg.selector.index as int, r),
        forall|c: int, r: int| #[trigger] advice_at(g, c, r) is Some
            ==> 0 <= advice_at(g, c, r)->0 < field_modulus(),
        g.copies == chain_copies(cfg, 0, n).push(
            (Cell { column: cfg.advice[2], row: (n - 1) as usize }, Cell { column: cfg.instance, row: (n - 1) as usize }),
        ),
        advice_at(g, cfg.advice[0].index as int, 0) == Some(0int),
        satisfied(gates, g, public),
    ensures
        cfg.instance.index < public.len(),
        n <= public[cfg.instance.index as int].len(),
        Some(public[cfg.instance.index as int][n - 1]) == prefix_sum(x_column(g, cfg, n), n),
{
    let xs = x_column(g, cfg, n);
    let ia = cfg.advice[0].index as int;
    let ic = cfg.advice[2].index as int;
    assert(cfg.advice[0].kind == ColumnKind::Advice);
    assert(cfg.advice[2].kind == ColumnKind::Advice);
    lemma_chain_totals(gates, g, cfg, n, public, n - 1);
    let last = g.copies[n - 1];
    assert(copy_holds(g, public, last));
    assert(last.0 == Cell { column: cfg.advice[2], row: (n - 1) as usize });
    assert(last.1 == Cell { column: cfg.instance, row: (n - 1) as usize });
    assert(cell_value(g, public, last.0) == advice_at(g, ic, n - 1));
}

/// The `x` column over rows `0 .. n`.
pub open spec fn x_column(g: GridView, cfg: ArraySumConfig, n: int) -> Seq<Option<int>> {
    Seq::new(n as nat, |i: int| advice_at(g, cfg.advice[1].index as int, i))
}

/// Under the hypotheses of `lemma_chain_forces_sum`, row `i`'s `a` holds the
/// sum of the `x` cells before it and its `accum` the sum through it.
proof fn lemma_chain_totals(gates: Seq<Gate>, g: GridView, cfg: ArraySumConfig, n: int, public: Seq<Seq<int>>, i: int)
    requires
        array_sum_gates(gates, cfg),
        config_fits(cfg, g),
        1 <= n <= g.n_rows,
        n <= usize::MAX,
        forall|r: int| 0 <= r < n ==> #[trigger] selector_on(g, cfg.selector.index as int, r),
        forall|c: int, r: int| #[trigger] advice_at(g, c, r) is Some
            ==> 0 <= advice_at(g, c, r)->0 < field_modulus(),
        g.copies == chain_copies(cfg, 0, n).push(
            (Cell { column: cfg.advice[2], row: (n - 1) as usize }, Cell { column: cfg.instance, row: (n - 1) as usize }),
        ),
        advice_at(g, cfg.advice[0].index as int, 0) == Some(0int),
        satisfied(gates, g, public),
        0 <= i < n,
    ensures
        advice_at(g, cfg.advice[0].index as int, i) == prefix_sum(x_column(g, cfg, n), i),
        advice_at(g, cfg.advice[2].index as int, i) == prefix_sum(x_column(g, cfg, n), i + 1),
    decreases i,
{
    let xs = x_column(g, cfg, n);
    let ia = cfg.advice[0].index as int;
    let ix = cfg.advice[1].index as int;
    let ic = cfg.advice[2].index as int;
    assert(cfg.advice[0].kind == ColumnKind::Advice);
    assert(cfg.advice[2].kind == ColumnKind::Advice);
    if i > 0 {
        lemma_chain_totals(gates, g, cfg, n, public, i - 1);
        let pair = g.copies[i - 1];
        assert(pair == chain_copies(cfg, 0, n)[i - 1]);
        assert(copy_holds(g, public, pair));
        assert(cell_value(g, public, pair.0) == advice_at(g, ic, i - 1));
        assert(cell_value(g, public, pair.1) == advice_at(g, ia, i));
    }
    assert(gate_holds(gates[0], g, i));
    assert(selector_on(g, cfg.selector.index as int, i));
    lemma_eval_sum_poly(g, cfg, i);
    let a = advice_at(g, ia, i)->0;
    let x = advice_at(g, ix, i)->0;
    let c = advice_at(g, ic, i)->0;
    assert(advice_at(g, ia, i) is Some && advice_at(g, ix, i) is Some && advice_at(g, ic, i) is Some);
    assert(fsub(fadd(a, x), c) == 0);
    lemma_fsub_zero(fadd(a, x), c);
    assert(xs[i] == advice_at(g, ix, i));
}

/// Changing one advice cell that a satisfying array-sum grid laid out, to a
/// different value, makes its identity fail at that cell's row and nowhere else.
pub proof fn lemma_row_locality(
    gates: Seq<Gate>,
    g: GridView,
    cfg: ArraySumConfig,
    xs: Seq<Option<int>>,
    j: int,
    r: int,
    v: Option<int>,
)
    requires
        array_sum_gates(gates, cfg),
        array_sum_grid(g, cfg, xs),
        prefix_sum(xs, xs.len() as int) is Some,
        forall|i: int| 0 <= i < xs.len() && #[trigger] xs[i] is Some ==> 0 <= xs[i]->0 < field_modulus(),
        0 <= j < 3,
        0 <= r < xs.len(),
        v != advice_at(g, cfg.advice[j].index as int, r),
        v is Some ==> 0 <= v->0 < field_modulus(),
    ensures
        forall|row: int| 0 <= row < g.n_rows ==>
            (#[trigger] gate_holds(gates[0], with_advice(g, cfg.advice[j].index as int, r, v), row) <==> row != r),
{
    let n = xs.len() as int;
    let c = cfg.advice[j].index as int;
    let g2 = with_advice(g, c, r, v);
    assert forall|row: int| 0 <= row < g.n_rows implies
        (#[trigger] gate_holds(gates[0], g2, row) <==> row != r) by {
        lemma_gate_at_layout_row(gates, g, cfg, xs, row);
        if row != r {
            assert forall|cc: int| #[trigger] advice_at(g2, cc, row) == advice_at(g, cc, row) by {
                if 0 <= cc < g.advice.len() && cc == c {
                    assert(g2.advice[cc][row] == g.advice[cc][row]);
                }
            }
            assert(selector_on(g2, cfg.selector.index as int, row) == selector_on(g, cfg.selector.index as int, row));
            lemma_eval_sum_poly(g, cfg, row);
            lemma_eval_sum_poly(g2, cfg, row);
            assert(eval(sum_poly(cfg), g2, row) == eval(sum_poly(cfg), g, row));
        } else {
            lemma_prefix_known(xs, n, r);
            lemma_prefix_known(xs, n, r + 1);
            let ia = cfg.advice[0].index as int;
            let ix = cfg.advice[1].index as int;
            let ic = cfg.advice[2].index as int;
            let a = prefix_sum(xs, r)->0;
            let x = xs[r]->0;
            let y = fadd(a, x);
            assert(prefix_sum(xs, r + 1) == Some(y));
            assert(selector_on(g, cfg.selector.index as int, r));
            assert(selector_on(g2, cfg.selector.index as int, r));
            lemma_eval_sum_poly(g2, cfg, r);
            assert(advice_at(g2, c, r) == v);
            assert forall|cc: int| cc != c implies #[trigger] advice_at(g2, cc, r) == advice_at(g, cc, r) by {
                if 0 <= cc < g.advice.len() {
                    assert(g2.advice[cc] == g.advice[cc]);
                }
            }
            assert(0 <= a < field_modulus());
            assert(0 <= x < field_modulus());
            assert(0 <= y < field_modulus());
            match v {
                None => {
                    assert(eval(sum_poly(cfg), g2, r) is None);
                },
                Some(w) => {
                    if j == 0 {
                        assert(advice_at(g2, ix, r) == Some(x));
                        assert(advice_at(g2, ic, r) == Some(y));
                        assert(eval(sum_poly(cfg), g2, r) == Some(fsub(fadd(w, x), y)));
                        assert(w != a);
                        if fsub(fadd(w, x), y) == 0 {
                            lemma_fsub_zero(fadd(w, x), y);
                            lemma_fadd_cancel(w, a, x);
                        }
                    } else if j == 1 {
                        assert(advice_at(g2, ia, r) == Some(a));
                        assert(advice_at(g2, ic, r) == Some(y));
                        assert(eval(sum_poly(cfg), g2, r) == Some(fsub(fadd(a, w), y)));
                        assert(w != x);
                        if fsub(fadd(a, w), y) == 0 {
                            lemma_fsub_zero(fadd(a, w), y);
                            assert(fadd(w, a) == fadd(x, a));
                            lemma_fadd_cancel(w, x, a);
                        }
                    } else {
                        assert(advice_at(g2, ia, r) == Some(a));
                        assert(advice_at(g2, ix, r) == Some(x));
                        assert(eval(sum_poly(cfg), g2, r) == Some(fsub(y, w)));
                        assert(w != y);
                        lemma_fsub_zero(y, w);
                    }
                },
            }
        }
    }
}

/// Public rows other than `n - 1` do not matter: two public inputs that
/// agree there are accepted or refused together.
pub proof fn lemma_public_padding(
    gates: Seq<Gate>,
    g: GridView,
    cfg: ArraySumConfig,
    xs: Seq<Option<int>>,
    p1: Seq<Seq<int>>,
    p2: Seq<Seq<int>>,
)
    requires
        array_sum_grid(g, cfg, xs),
        cfg.instance.index < p1.len(),
        cfg.instance.index < p2.len(),
        xs.len() <= p1[cfg.instance.index as int].len(),
        xs.len() <= p2[cfg.instance.index as int].len(),
        p1[cfg.instance.index as int][xs.len() - 1] == p2[cfg.instance.index as int][xs.len() - 1],
    ensures
        satisfied(gates, g, p1) == satisfied(gates, g, p2),
{
    let n = xs.len() as int;
    assert forall|k: int| 0 <= k < g.copies.len() implies
        #[trigger] copy_holds(g, p1, g.copies[k]) == copy_holds(g, p2, g.copies[k]) by {
        let pair = g.copies[k];
        if k < n - 1 {
            assert(pair == chain_copies(cfg, 0, n)[k]);
        } else {
            assert(pair.1 == Cell { column: cfg.instance, row: (n - 1) as usize });
        }
        assert(cell_value(g, p1, pair.0) == cell_value(g, p2, pair.0));
        assert(cell_value(g, p1, pair.1) == cell_value(g, p2, pair.1));
    }
    if satisfied(gates, g, p1) {
        assert forall|k: int| 0 <= k < g.copies.len() implies #[trigger] copy_holds(g, p2, g.copies[k]) by {
            assert(copy_holds(g, p1, g.copies[k]));
        }
    }
    if satisfied(gates, g, p2) {
        assert forall|k: int| 0 <= k < g.copies.len() implies #[trigger] copy_holds(g, p1, g.copies[k]) by {
            assert(copy_holds(g, p2, g.copies[k]));
        }
    }
}

} // verus!
