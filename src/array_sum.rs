//! A circuit that proves a public output is the sum of a private array: one
//! row per element, each row's gate checking `a + x - accum = 0`, with each
//! row's total fed into the next row's `a`.
use vstd::prelude::*;
use crate::field::Fe;
use crate::plonk::Assignment;
use crate::plonk::CheckError;
use crate::plonk::Cell;
use crate::plonk::Column;
use crate::plonk::ColumnKind;
use crate::plonk::ConstraintSystem;
use crate::plonk::Error;
use crate::plonk::Expr;
use crate::plonk::Gate;
use crate::plonk::GridView;
use crate::plonk::Selector;
use crate::plonk::Value;
use crate::plonk::advice_at;
use crate::plonk::check;
use crate::plonk::declared;
use crate::plonk::grid_shaped;
use crate::plonk::opt_add;
use crate::plonk::public_shaped;
use crate::plonk::public_view;
use crate::plonk::selector_on;
use crate::plonk::value_of;

verus! {

/// The columns and selector that the array-sum gate uses.
#[derive(Clone, Copy, Debug)]
pub struct ArraySumConfig {
    /// The running total before the row, the row's element, and the total after it.
    pub advice: [Column; 3],
    pub selector: Selector,
    pub instance: Column,
}

/// Lays out the array-sum gate and its witness.
#[derive(Debug)]
pub struct FiboChip {
    pub config: ArraySumConfig,
}

/// What each value of an array stands for.
pub open spec fn values_of(xs: Seq<Value>) -> Seq<Option<int>> {
    xs.map_values(|v: Value| value_of(v))
}

/// The running total of the first `i` elements: zero before the first one,
/// and unknown from the first unknown element on.
pub open spec fn prefix_sum(xs: Seq<Option<int>>, i: int) -> Option<int>
    decreases i,
{
    if i <= 0 {
        Some(0)
    } else {
        opt_add(prefix_sum(xs, i - 1), xs[i - 1])
    }
}

/// `a + x - accum`, each read at the current row.
pub open spec fn sum_poly(cfg: ArraySumConfig) -> Expr {
    Expr::Difference(
        Box::new(Expr::Sum(
            Box::new(Expr::Advice { column: cfg.advice[0].index, rotation: 0 }),
            Box::new(Expr::Advice { column: cfg.advice[1].index, rotation: 0 }),
        )),
        Box::new(Expr::Advice { column: cfg.advice[2].index, rotation: 0 }),
    )
}

/// The config's columns and selector exist in grid `g`, and its three advice
/// columns are distinct.
pub open spec fn config_fits(cfg: ArraySumConfig, g: GridView) -> bool {
    &&& forall|j: int| 0 <= j < 3 ==> (#[trigger] cfg.advice[j]).kind == ColumnKind::Advice
        && cfg.advice[j].index < g.advice.len()
    &&& cfg.advice[0].index != cfg.advice[1].index
    &&& cfg.advice[0].index != cfg.advice[2].index
    &&& cfg.advice[1].index != cfg.advice[2].index
    &&& cfg.selector.index < g.selectors.len()
    &&& cfg.instance.kind == ColumnKind::Instance
}

/// What the layout of the first `done` elements of `xs` from row `start`
/// puts in advice cell (`c`, `r`) of grid `g0`.
pub open spec fn laid_advice(
    g0: GridView,
    cfg: ArraySumConfig,
    xs: Seq<Option<int>>,
    start: int,
    done: int,
    c: int,
    r: int,
) -> Option<int> {
    let i = r - start;
    if start <= r < start + done && c == cfg.advice[0].index {
        prefix_sum(xs, i)
    } else if start <= r < start + done && c == cfg.advice[1].index {
        xs[i]
    } else if start <= r < start + done && c == cfg.advice[2].index {
        prefix_sum(xs, i + 1)
    } else {
        advice_at(g0, c, r)
    }
}

/// Grid `g1` is `g0` with the first `done` elements of `xs` laid out from row
/// `start`: the three advice cells and the selector of each of those rows
/// set, and no other cell or selector changed.
pub open spec fn laid_rows(
    g0: GridView,
    g1: GridView,
    cfg: ArraySumConfig,
    xs: Seq<Option<int>>,
    start: int,
    done: int,
) -> bool {
    &&& g1.n_rows == g0.n_rows
    &&& g1.advice.len() == g0.advice.len()
    &&& g1.fixed == g0.fixed
    &&& g1.selectors.len() == g0.selectors.len()
    &&& forall|c: int, r: int| #[trigger] advice_at(g1, c, r) == laid_advice(g0, cfg, xs, start, done, c, r)
    &&& forall|s: int, r: int| #[trigger] selector_on(g1, s, r) == (selector_on(g0, s, r)
        || (s == cfg.selector.index && start <= r < start + done))
}

/// The equality constraints that carry each row's total, among the first
/// `done` rows from `start`, into the next row's `a` cell.
pub open spec fn chain_copies(cfg: ArraySumConfig, start: int, done: int) -> Seq<(Cell, Cell)> {
    Seq::new(
        if done > 0 { (done - 1) as nat } else { 0 },
        |i: int|
            (
                Cell { column: cfg.advice[2], row: (start + i) as usize },
                Cell { column: cfg.advice[0], row: (start + i + 1) as usize },
            ),
    )
}

/// The gates are exactly the array-sum gate of `cfg`.
pub open spec fn array_sum_gates(gates: Seq<Gate>, cfg: ArraySumConfig) -> bool {
    &&& gates.len() == 1
    &&& gates[0].selector == cfg.selector
    &&& gates[0].poly == sum_poly(cfg)
}

impl FiboChip {
    /// Turns on equality for `instance` and the three advice columns, marks
    /// `constant` for constants, and adds a gate `a + x - accum = 0` under
    /// a new selector. Fails with `Configuration`, changing nothing, when a
    /// column was not declared with the kind its place asks for or the three
    /// advice columns are not distinct.
    pub fn configure(
        cs: &mut ConstraintSystem,
        advice: [Column; 3],
        instance: Column,
        constant: Column,
    ) -> (r: Result<ArraySumConfig, Error>)
        requires
            old(cs).num_selectors < usize::MAX,
        ensures
            r is Ok <==> {
                &&& forall|j: int| 0 <= j < 3 ==> (#[trigger] advice[j]).kind == ColumnKind::Advice
                    && declared(old(cs), advice[j])
                &&& advice[0].index != advice[1].index
                &&& advice[0].index != advice[2].index
                &&& advice[1].index != advice[2].index
                &&& instance.kind == ColumnKind::Instance && declared(old(cs), instance)
                &&& constant.kind == ColumnKind::Fixed && declared(old(cs), constant)
            },
            r is Err ==> r == Err::<ArraySumConfig, Error>(Error::Configuration),
            r is Err ==> {
                &&& final(cs).gates@ == old(cs).gates@
                &&& final(cs).num_selectors == old(cs).num_selectors
                &&& final(cs).equality@ == old(cs).equality@
                &&& final(cs).constants@ == old(cs).constants@
            },
            final(cs).num_advice == old(cs).num_advice,
            final(cs).num_fixed == old(cs).num_fixed,
            final(cs).num_instance == old(cs).num_instance,
            r is Ok ==> {
                let cfg = r->Ok_0;
                &&& cfg.advice == advice
                &&& cfg.instance == instance
                &&& cfg.selector == (Selector { index: old(cs).num_selectors })
                &&& final(cs).num_selectors == old(cs).num_selectors + 1
                &&& final(cs).gates@.drop_last() == old(cs).gates@
                &&& final(cs).gates@.len() == old(cs).gates@.len() + 1
                &&& final(cs).gates@.last().selector == cfg.selector
                &&& final(cs).gates@.last().poly == sum_poly(cfg)
                &&& final(cs).gates@.last().name@ == "add"@
                &&& final(cs).equality@ == old(cs).equality@ + seq![instance, constant, advice[0], advice[1], advice[2]]
                &&& final(cs).constants@ == old(cs).constants@.push(constant)
            },
    {
        let mut j: usize = 0;
        while j < 3
            invariant
                j <= 3,
                forall|i: int| 0 <= i < j ==> (#[trigger] advice[i]).kind == ColumnKind::Advice
                    && declared(cs, advice[i]),
            decreases 3 - j,
        {
            if advice[j].kind != ColumnKind::Advice || !cs.is_declared(advice[j]) {
                return Err(Error::Configuration);
            }
            j = j + 1;
        }
        if advice[0].index == advice[1].index || advice[0].index == advice[2].index
            || advice[1].index == advice[2].index {
            return Err(Error::Configuration);
        }
        if instance.kind != ColumnKind::Instance || !cs.is_declared(instance) {
            return Err(Error::Configuration);
        }
        if constant.kind != ColumnKind::Fixed || !cs.is_declared(constant) {
            return Err(Error::Configuration);
        }
        let col_a = advice[0];
        let col_x = advice[1];
        let col_accum = advice[2];
        let selector = cs.selector();
        cs.enable_equality(instance)?;
        cs.enable_constant(constant)?;
        cs.enable_equality(col_a)?;
        cs.enable_equality(col_x)?;
        cs.enable_equality(col_accum)?;
        assert(cs.equality@ =~= old(cs).equality@ + seq![instance, constant, advice[0], advice[1], advice[2]]);
        let poly = Expr::Difference(
            Box::new(Expr::Sum(
                Box::new(Expr::Advice { column: col_a.index, rotation: 0 }),
                Box::new(Expr::Advice { column: col_x.index, rotation: 0 }),
            )),
            Box::new(Expr::Advice { column: col_accum.index, rotation: 0 }),
        );
        let cfg = ArraySumConfig { advice: [col_a, col_x, col_accum], selector, instance };
        assert(cfg.advice =~= advice);
        let name = "add".to_owned();
        proof {
            reveal_strlit("add");
        }
        cs.create_gate(name, selector, poly)?;
        Ok(cfg)
    }

    pub fn construct(config: ArraySumConfig) -> (r: FiboChip)
        ensures
            r.config == config,
    {
        FiboChip { config }
    }

    /// Lays out `xs` in a new region, one row per element: the selector on,
    /// the running total before the element in `a`, the element in `x`, and
    /// the total after it in `accum`. The total starts at zero, and an
    /// equality constraint ties each row's `accum` to the next row's `a`.
    /// Returns the last row's `accum` cell. Fails with `Configuration`,
    /// changing nothing, when `a` or `accum` is not equality-enabled in `cs`;
    /// with `Synthesis`, changing nothing, when `xs` is empty or the grid has
    /// too few rows left.
    pub fn assign_row(&self, cs: &ConstraintSystem, asg: &mut Assignment, xs: &Vec<Value>) -> (r: Result<Cell, Error>)
        requires
            grid_shaped(old(asg)@),
            old(asg).next_row <= old(asg).n_rows,
            config_fits(self.config, old(asg)@),
        ensures
            grid_shaped(final(asg)@),
            final(asg).next_row <= final(asg).n_rows,
            !(cs.equality@.contains(self.config.advice[0]) && cs.equality@.contains(self.config.advice[2]))
                ==> r == Err::<Cell, Error>(Error::Configuration),
            (cs.equality@.contains(self.config.advice[0]) && cs.equality@.contains(self.config.advice[2]))
                ==> (r is Ok <==> 1 <= xs@.len() <= old(asg).n_rows - old(asg).next_row)
                && (r is Err ==> r == Err::<Cell, Error>(Error::Synthesis)),
            r is Err ==> (r == Err::<Cell, Error>(Error::Synthesis) || r == Err::<Cell, Error>(Error::Configuration))
                && final(asg)@ == old(asg)@ && final(asg).next_row == old(asg).next_row,
            r is Ok ==> {
                &&& r->Ok_0 == (Cell {
                    column: self.config.advice[2],
                    row: (old(asg).next_row + xs@.len() - 1) as usize,
                })
                &&& final(asg).next_row == old(asg).next_row + xs@.len()
                &&& laid_rows(
                    old(asg)@,
                    final(asg)@,
                    self.config,
                    values_of(xs@),
                    old(asg).next_row as int,
                    xs@.len() as int,
                )
                &&& final(asg)@.copies == old(asg)@.copies
                    + chain_copies(self.config, old(asg).next_row as int, xs@.len() as int)
            },
    {
        let cfg = self.config;
        let col_a = cfg.advice[0];
        let col_x = cfg.advice[1];
        let col_accum = cfg.advice[2];
        if !cs.is_equality_enabled(col_a) || !cs.is_equality_enabled(col_accum) {
            return Err(Error::Configuration);
        }
        if xs.len() == 0 {
            return Err(Error::Synthesis);
        }
        let ghost g0 = asg@;
        let region = asg.assign_region("next row".to_owned(), xs.len())?;
        let ghost start = region.start as int;
        let ghost vs = values_of(xs@);
        assert(config_fits(cfg, g0) && cfg.advice[0] == col_a && cfg.advice[1] == col_x && cfg.advice[2] == col_accum);
        assert(g0.copies + chain_copies(cfg, start, 0) =~= g0.copies);
        let mut accum = Value::Known(Fe::zero());
        let mut out = Cell { column: col_accum, row: region.start };
        let mut row: usize = 0;
        while row < xs.len()
            invariant
                region.start == start,
                region.rows == xs@.len(),
                start + xs@.len() <= asg.n_rows,
                asg.next_row == start + xs@.len(),
                asg.next_row <= asg.n_rows,
                grid_shaped(asg@),
                config_fits(cfg, asg@),
                cfg == self.config,
                col_a == cfg.advice[0],
                col_x == cfg.advice[1],
                col_accum == cfg.advice[2],
                cs.equality@.contains(col_a),
                cs.equality@.contains(col_accum),
                vs == values_of(xs@),
                row <= xs@.len(),
                value_of(accum) == prefix_sum(vs, row as int),
                row > 0 ==> out == (Cell { column: col_accum, row: (start + row - 1) as usize }),
                laid_rows(g0, asg@, cfg, vs, start, row as int),
                asg@.copies == g0.copies + chain_copies(cfg, start, row as int),
            decreases xs@.len() - row,
        {
            let ghost g_before = asg@;
            asg.enable_selector(&region, cfg.selector, row)?;
            let a_cell = asg.assign_advice(&region, col_a, row, accum)?;
            if row > 0 {
                asg.constrain_equal(cs, out, a_cell)?;
            }
            let x = xs[row];
            asg.assign_advice(&region, col_x, row, x)?;
            accum = accum.add(&x);
            out = asg.assign_advice(&region, col_accum, row, accum)?;
            proof {
                assert(vs[row as int] == value_of(x));
                assert forall|c: int, r: int| #[trigger] advice_at(asg@, c, r)
                    == laid_advice(g0, cfg, vs, start, row + 1, c, r) by {
                    assert(advice_at(g_before, c, r) == laid_advice(g0, cfg, vs, start, row as int, c, r));
                }
                assert forall|s: int, r: int| #[trigger] selector_on(asg@, s, r) == (selector_on(g0, s, r)
                    || (s == cfg.selector.index && start <= r < start + row + 1)) by {
                    assert(selector_on(g_before, s, r) == (selector_on(g0, s, r)
                        || (s == cfg.selector.index && start <= r < start + row)));
                }
                if row > 0 {
                    assert(chain_copies(cfg, start, row + 1) =~= chain_copies(cfg, start, row as int).push((
                        Cell { column: col_accum, row: (start + row - 1) as usize },
                        Cell { column: col_a, row: (start + row) as usize },
                    )));
                    assert(asg@.copies =~= g0.copies + chain_copies(cfg, start, row + 1));
                } else {
                    assert(chain_copies(cfg, start, 1) =~= chain_copies(cfg, start, 0));
                }
            }
            row = row + 1;
        }
        Ok(out)
    }
}

/// Grid `g` holds the array-sum layout of `xs` from row 0 and nothing else:
/// the running totals and elements in rows `0 .. n`, the selector on exactly
/// there, equality constraints tying each row's total to the next row's `a`,
/// and a last one binding the final total to public row `n - 1`.
pub open spec fn array_sum_grid(g: GridView, cfg: ArraySumConfig, xs: Seq<Option<int>>) -> bool {
    let n = xs.len() as int;
    &&& 1 <= n <= g.n_rows
    &&& n <= usize::MAX
    &&& grid_shaped(g)
    &&& config_fits(cfg, g)
    &&& forall|i: int| 0 <= i < n ==> #[trigger] advice_at(g, cfg.advice[0].index as int, i) == prefix_sum(xs, i)
    &&& forall|i: int| 0 <= i < n ==> #[trigger] advice_at(g, cfg.advice[1].index as int, i) == xs[i]
    &&& forall|i: int| 0 <= i < n ==> #[trigger] advice_at(g, cfg.advice[2].index as int, i) == prefix_sum(xs, i + 1)
    &&& forall|r: int| 0 <= r < g.n_rows ==> (#[trigger] selector_on(g, cfg.selector.index as int, r) <==> r < n)
    &&& g.copies == chain_copies(cfg, 0, n).push(
        (Cell { column: cfg.advice[2], row: (n - 1) as usize }, Cell { column: cfg.instance, row: (n - 1) as usize }),
    )
}

impl FiboChip {
    /// Binds `cell` to row `row` of the config's instance column.
    pub fn expose_public(&self, asg: &mut Assignment, cs: &ConstraintSystem, cell: Cell, row: usize) -> (r: Result<(), Error>)
        ensures
            r is Ok <==> {
                &&& self.config.instance.kind == ColumnKind::Instance
                &&& cs.equality@.contains(cell.column)
                &&& cs.equality@.contains(self.config.instance)
                &&& cell.row < old(asg).n_rows
                &&& row < old(asg).n_rows
            },
            r is Err ==> r == Err::<(), Error>(Error::Configuration) && final(asg)@ == old(asg)@,
            r is Ok ==> final(asg)@ == (GridView {
                copies: old(asg)@.copies.push((cell, Cell { column: self.config.instance, row })),
                ..old(asg)@
            }),
            final(asg).next_row == old(asg).next_row,
    {
        asg.constrain_instance(cs, cell, self.config.instance, row)
    }
}

/// The array-sum circuit over a private array.
#[derive(Debug)]
pub struct ArraySumCircuit {
    pub xs: Vec<Value>,
}

impl ArraySumCircuit {
    /// The same circuit with every element unknown, for laying out its shape.
    pub fn without_witnesses(&self) -> (r: ArraySumCircuit)
        ensures
            r.xs@.len() == self.xs@.len(),
            forall|i: int| 0 <= i < r.xs@.len() ==> #[trigger] r.xs@[i] is Unknown,
    {
        let mut xs: Vec<Value> = Vec::new();
        let mut i: usize = 0;
        while i < self.xs.len()
            invariant
                i <= self.xs@.len(),
                xs@.len() == i,
                forall|j: int| 0 <= j < i ==> #[trigger] xs@[j] is Unknown,
            decreases self.xs@.len() - i,
        {
            xs.push(Value::Unknown);
            i = i + 1;
        }
        ArraySumCircuit { xs }
    }

    /// Declares three advice columns, an instance column and a fixed column,
    /// and configures the array-sum gate on them.
    pub fn configure(cs: &mut ConstraintSystem) -> (r: Result<ArraySumConfig, Error>)
        requires
            old(cs).num_advice < usize::MAX - 3,
            old(cs).num_instance < usize::MAX,
            old(cs).num_fixed < usize::MAX,
            old(cs).num_selectors < usize::MAX,
        ensures
            r is Ok,
            r is Ok ==> {
                let cfg = r->Ok_0;
                &&& forall|j: int| 0 <= j < 3 ==> #[trigger] cfg.advice[j]
                    == (Column { kind: ColumnKind::Advice, index: (old(cs).num_advice + j) as usize })
                &&& cfg.instance == (Column { kind: ColumnKind::Instance, index: old(cs).num_instance })
                &&& cfg.selector == (Selector { index: old(cs).num_selectors })
                &&& final(cs).num_advice == old(cs).num_advice + 3
                &&& final(cs).num_instance == old(cs).num_instance + 1
                &&& final(cs).num_fixed == old(cs).num_fixed + 1
                &&& final(cs).num_selectors == old(cs).num_selectors + 1
                &&& final(cs).gates@.drop_last() == old(cs).gates@
                &&& final(cs).gates@.len() == old(cs).gates@.len() + 1
                &&& final(cs).gates@.last().selector == cfg.selector
                &&& final(cs).gates@.last().poly == sum_poly(cfg)
                &&& final(cs).gates@.last().name@ == "add"@
                &&& final(cs).equality@ == old(cs).equality@ + seq![
                    cfg.instance,
                    Column { kind: ColumnKind::Fixed, index: old(cs).num_fixed },
                    cfg.advice[0],
                    cfg.advice[1],
                    cfg.advice[2],
                ]
                &&& final(cs).constants@
                    == old(cs).constants@.push(Column { kind: ColumnKind::Fixed, index: old(cs).num_fixed })
            },
    {
        let col_a = cs.advice_column();
        let col_b = cs.advice_column();
        let col_c = cs.advice_column();
        let instance = cs.instance_column();
        let constant = cs.fixed_column();
        let advice = [col_a, col_b, col_c];
        let r = FiboChip::configure(cs, advice, instance, constant);
        proof {
            assert(advice[0] == col_a && advice[1] == col_b && advice[2] == col_c);
            if r is Ok {
                let cfg = r->Ok_0;
                assert(cfg.advice[0] == col_a && cfg.advice[1] == col_b && cfg.advice[2] == col_c);
            }
        }
        r
    }

    /// Lays out the array from the grid's next free row, ties each row's
    /// total to the next row's `a`, and binds the final total to public row
    /// `n - 1`. Fails with `Configuration`, changing nothing, when `a`,
    /// `accum` or the instance column is not equality-enabled in `cs`; with
    /// `Synthesis`, changing nothing, when the array is empty or does not fit
    /// in the rows left.
    pub fn synthesize(&self, config: ArraySumConfig, cs: &ConstraintSystem, asg: &mut Assignment) -> (r: Result<(), Error>)
        requires
            grid_shaped(old(asg)@),
            old(asg).next_row <= old(asg).n_rows,
            config_fits(config, old(asg)@),
        ensures
            ({
                let enabled = cs.equality@.contains(config.advice[0]) && cs.equality@.contains(config.advice[2])
                    && cs.equality@.contains(config.instance);
                &&& !enabled ==> r == Err::<(), Error>(Error::Configuration)
                &&& enabled ==> (r is Ok <==> 1 <= self.xs@.len() <= old(asg).n_rows - old(asg).next_row)
                &&& enabled && r is Err ==> r == Err::<(), Error>(Error::Synthesis)
            }),
            r is Err ==> (r == Err::<(), Error>(Error::Synthesis) || r == Err::<(), Error>(Error::Configuration))
                && final(asg)@ == old(asg)@,
            r is Ok ==> {
                let n = self.xs@.len() as int;
                let start = old(asg).next_row as int;
                &&& grid_shaped(final(asg)@)
                &&& laid_rows(old(asg)@, final(asg)@, config, values_of(self.xs@), start, n)
                &&& final(asg)@.copies == (old(asg)@.copies + chain_copies(config, start, n)).push((
                    Cell { column: config.advice[2], row: (start + n - 1) as usize },
                    Cell { column: config.instance, row: (n - 1) as usize },
                ))
            },
    {
        if !cs.is_equality_enabled(config.instance) {
            return Err(Error::Configuration);
        }
        let chip = FiboChip::construct(config);
        let out_cell = chip.assign_row(cs, asg, &self.xs)?;
        let ghost g1 = asg@;
        let r = chip.expose_public(asg, cs, out_cell, self.xs.len() - 1);
        proof {
            assert(r is Ok);
            assert forall|c: int, rw: int| #[trigger] advice_at(asg@, c, rw) == advice_at(g1, c, rw) by {}
            assert forall|c: int, rw: int| #[trigger] selector_on(asg@, c, rw) == selector_on(g1, c, rw) by {}
        }
        r
    }

    /// Configures the circuit on a fresh constraint system and lays it out on
    /// a fresh grid of `n_rows` rows. Fails with `Synthesis` when the array
    /// is empty or longer than `n_rows`.
    pub fn synthesize_grid(&self, n_rows: usize) -> (r: Result<(ConstraintSystem, ArraySumConfig, Assignment), Error>)
        ensures
            r is Ok <==> 1 <= self.xs@.len() <= n_rows,
            r is Err ==> r->Err_0 == Error::Synthesis,
            r is Ok ==> {
                let (cs, cfg, asg) = r->Ok_0;
                &&& array_sum_gates(cs.gates@, cfg)
                &&& array_sum_grid(asg@, cfg, values_of(self.xs@))
                &&& cs.num_instance == 1
                &&& cfg.instance.index == 0
                &&& asg.n_rows == n_rows
            },
    {
        let mut cs = ConstraintSystem::new();
        let cfg = match ArraySumCircuit::configure(&mut cs) {
            Ok(c) => c,
            Err(e) => return Err(e),
        };
        let mut asg = Assignment::new(&cs, n_rows);
        let ghost g0 = asg@;
        proof {
            assert(cs.equality@[0] == cfg.instance);
            assert(cs.equality@[2] == cfg.advice[0]);
            assert(cs.equality@[4] == cfg.advice[2]);
            assert(cs.equality@.contains(cfg.instance));
            assert(cs.equality@.contains(cfg.advice[0]));
            assert(cs.equality@.contains(cfg.advice[2]));
            assert(cfg.advice[0] == (Column { kind: ColumnKind::Advice, index: 0 }));
            assert(cfg.advice[1] == (Column { kind: ColumnKind::Advice, index: 1 }));
            assert(cfg.advice[2] == (Column { kind: ColumnKind::Advice, index: 2 }));
            assert(cs.gates@ =~= seq![cs.gates@.last()]);
        }
        self.synthesize(cfg, &cs, &mut asg)?;
        proof {
            let n = self.xs@.len() as int;
            let vs = values_of(self.xs@);
            let g1 = asg@;
            assert forall|i: int| 0 <= i < n implies #[trigger] advice_at(asg@, cfg.advice[0].index as int, i) == prefix_sum(vs, i) by {
                assert(advice_at(asg@, cfg.advice[0].index as int, i) == advice_at(g1, cfg.advice[0].index as int, i));
            }
            assert forall|i: int| 0 <= i < n implies #[trigger] advice_at(asg@, cfg.advice[1].index as int, i) == vs[i] by {
                assert(advice_at(asg@, cfg.advice[1].index as int, i) == advice_at(g1, cfg.advice[1].index as int, i));
            }
            assert forall|i: int| 0 <= i < n implies #[trigger] advice_at(asg@, cfg.advice[2].index as int, i) == prefix_sum(vs, i + 1) by {
                assert(advice_at(asg@, cfg.advice[2].index as int, i) == advice_at(g1, cfg.advice[2].index as int, i));
            }
            assert forall|r: int| 0 <= r < asg@.n_rows implies (#[trigger] selector_on(asg@, cfg.selector.index as int, r) <==> r < n) by {
                assert(selector_on(asg@, cfg.selector.index as int, r) == selector_on(g1, cfg.selector.index as int, r));
                assert(!selector_on(g0, cfg.selector.index as int, r));
            }
            assert(g0.copies + chain_copies(cfg, 0, n) =~= chain_copies(cfg, 0, n));
        }
        Ok((cs, cfg, asg))
    }
}

/// The number of rows of a grid with size parameter `k`: `2^k`.
pub open spec fn rows_for(k: nat) -> nat
    decreases k,
{
    if k == 0 {
        1
    } else {
        2 * rows_for((k - 1) as nat)
    }
}

proof fn lemma_rows_for_grows(i: nat, k: nat)
    requires
        i <= k,
    ensures
        rows_for(i) <= rows_for(k),
    decreases k - i,
{
    if i < k {
        lemma_rows_for_grows(i, (k - 1) as nat);
    }
}

/// The circuit over `xs`, each element known, and public inputs of one
/// column of `xs.len()` rows: zero, but `out` at the last row.
pub fn make_circuit(xs: &Vec<u64>, out: u64) -> (r: (ArraySumCircuit, Vec<Vec<Fe>>))
    requires
        xs@.len() >= 1,
    ensures
        r.0.xs@.len() == xs@.len(),
        forall|i: int| 0 <= i < xs@.len() ==> value_of(#[trigger] r.0.xs@[i]) == Some(xs@[i] as int),
        r.1@.len() == 1,
        r.1@[0]@.len() == xs@.len(),
        forall|i: int| 0 <= i < xs@.len() ==> (#[trigger] r.1@[0]@[i]).val()
            == if i == xs@.len() - 1 { out as int } else { 0 },
{
    let mut vals: Vec<Value> = Vec::new();
    let mut outs: Vec<Fe> = Vec::new();
    let mut i: usize = 0;
    while i < xs.len()
        invariant
            i <= xs@.len(),
            vals@.len() == i,
            outs@.len() == i,
            forall|j: int| 0 <= j < i ==> value_of(#[trigger] vals@[j]) == Some(xs@[j] as int),
            forall|j: int| 0 <= j < i ==> (#[trigger] outs@[j]).val() == 0,
        decreases xs@.len() - i,
    {
        vals.push(Value::Known(Fe::from_u64(xs[i])));
        outs.push(Fe::zero());
        i = i + 1;
    }
    let last = xs.len() - 1;
    outs.set(last, Fe::from_u64(out));
    let mut public: Vec<Vec<Fe>> = Vec::new();
    public.push(outs);
    (ArraySumCircuit { xs: vals }, public)
}

/// Row `i` of a public column that is padded with zeros to the grid's length.
pub open spec fn padded_at(col: Seq<int>, i: int) -> int {
    if 0 <= i < col.len() {
        col[i]
    } else {
        0
    }
}

/// The public inputs with each column padded with zeros to `n_rows` rows, or
/// `None` when a column is longer than that.
pub fn pad_public(public: &Vec<Vec<Fe>>, n_rows: usize) -> (r: Option<Vec<Vec<Fe>>>)
    ensures
        r is None <==> exists|i: int| 0 <= i < public@.len() && #[trigger] public@[i]@.len() > n_rows,
        r is Some ==> {
            let p = r->Some_0;
            &&& public_shaped(public@.len() as int, n_rows as int, public_view(p@))
            &&& forall|i: int, j: int| 0 <= i < public@.len() && 0 <= j < n_rows ==>
                #[trigger] public_view(p@)[i][j] == padded_at(public_view(public@)[i], j)
        },
{
    let mut out: Vec<Vec<Fe>> = Vec::new();
    let mut i: usize = 0;
    while i < public.len()
        invariant
            i <= public@.len(),
            out@.len() == i,
            forall|a: int| 0 <= a < i ==> #[trigger] public@[a]@.len() <= n_rows,
            forall|a: int| 0 <= a < i ==> #[trigger] out@[a]@.len() == n_rows,
            forall|a: int, j: int| 0 <= a < i && 0 <= j < n_rows ==>
                #[trigger] out@[a]@[j].val() == padded_at(public_view(public@)[a], j),
        decreases public@.len() - i,
    {
        let col = &public[i];
        if col.len() > n_rows {
            return None;
        }
        let mut padded: Vec<Fe> = Vec::new();
        let mut j: usize = 0;
        while j < n_rows
            invariant
                i < public@.len(),
                col == public@[i as int],
                col@.len() <= n_rows,
                j <= n_rows,
                padded@.len() == j,
                forall|b: int| 0 <= b < j ==> #[trigger] padded@[b].val() == padded_at(public_view(public@)[i as int], b),
            decreases n_rows - j,
        {
            if j < col.len() {
                padded.push(col[j]);
            } else {
                padded.push(Fe::zero());
            }
            j = j + 1;
        }
        out.push(padded);
        i = i + 1;
    }
    let p = out;
    proof {
        assert forall|a: int| 0 <= a < public_view(p@).len() implies #[trigger] public_view(p@)[a].len() == n_rows by {
            assert(p@[a]@.len() == n_rows);
        }
    }
    Some(p)
}

/// Lays the circuit out on a grid of `2^k` rows and checks it against
/// `public`, whose one column is padded with zeros to the grid's length.
/// Fails with `Configuration` when `2^k` rows cannot be held, or `public` is
/// not one column of at most `2^k` rows; with `Synthesis` when the array is
/// empty or longer than the grid; otherwise succeeds exactly when every
/// element is known and the public value at row `n - 1` is their field sum.
pub fn mock_prove(k: u32, circuit: &ArraySumCircuit, public: &Vec<Vec<Fe>>) -> (r: Result<(), CheckError>)
    ensures
        rows_for(k as nat) > usize::MAX ==> r matches Err(CheckError::Configuration),
        rows_for(k as nat) <= usize::MAX && !(1 <= circuit.xs@.len() <= rows_for(k as nat))
            ==> r matches Err(CheckError::Synthesis),
        ({
            let n = circuit.xs@.len() as int;
            let pv = public_view(public@);
            let fits = pv.len() == 1 && pv[0].len() <= rows_for(k as nat);
            rows_for(k as nat) <= usize::MAX && 1 <= n <= rows_for(k as nat) ==> {
                &&& !fits ==> (r matches Err(CheckError::Configuration))
                &&& fits ==> {
                    &&& (r is Ok <==> prefix_sum(values_of(circuit.xs@), n) == Some(padded_at(pv[0], n - 1)))
                    &&& r is Err ==> (r matches Err(CheckError::Unsatisfied(vs)) && vs@.len() > 0)
                }
            }
        }),
{
    let mut n_rows: usize = 1;
    let mut i: u32 = 0;
    while i < k
        invariant
            i <= k,
            n_rows == rows_for(i as nat),
        decreases k - i,
    {
        match n_rows.checked_mul(2) {
            Some(m) => n_rows = m,
            None => {
                proof {
                    lemma_rows_for_grows((i + 1) as nat, k as nat);
                }
                return Err(CheckError::Configuration);
            },
        }
        i = i + 1;
    }
    let (cs, cfg, asg) = match circuit.synthesize_grid(n_rows) {
        Ok(t) => t,
        Err(_) => return Err(CheckError::Synthesis),
    };
    if public.len() != 1 {
        return Err(CheckError::Configuration);
    }
    let padded = match pad_public(public, n_rows) {
        Some(p) => p,
        None => return Err(CheckError::Configuration),
    };
    let r = check(&cs, &asg, &padded);
    proof {
        let n = circuit.xs@.len() as int;
        let pv = public_view(padded@);
        assert(public@[0]@.len() <= n_rows);
        assert(pv[0].len() == n_rows);
        assert(pv[0][n - 1] == padded_at(public_view(public@)[0], n - 1));
        crate::laws::lemma_satisfied_iff_sum(cs.gates@, asg@, cfg, values_of(circuit.xs@), pv);
    }
    r
}

} // verus!
