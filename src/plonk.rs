//! Columns, gates, the witness grid and the satisfaction checker.
use vstd::prelude::*;
use crate::field::Fe;
use crate::field::fadd;
use crate::field::fsub;
use crate::field::fmul;
use crate::field::fneg;

verus! {

/// The three kinds of column of the grid.
#[derive(Clone, Copy, Debug, PartialEq, Eq, Structural)]
pub enum ColumnKind {
    /// Holds the private witness.
    Advice,
    /// Holds constants shared by every witness of the circuit.
    Fixed,
    /// Holds public inputs.
    Instance,
}

/// A column, named by its kind and its index among the columns of that kind.
#[derive(Clone, Copy, Debug, PartialEq, Eq, Structural)]
pub struct Column {
    pub kind: ColumnKind,
    pub index: usize,
}

/// One cell of the grid.
#[derive(Clone, Copy, Debug, PartialEq, Eq, Structural)]
pub struct Cell {
    pub column: Column,
    pub row: usize,
}

/// A boolean pseudo-column that switches a gate on or off row by row.
#[derive(Clone, Copy, Debug, PartialEq, Eq, Structural)]
pub struct Selector {
    pub index: usize,
}

/// The content of a witness cell: a field element, or not known (when a
/// circuit is laid out only for its shape).
#[derive(Clone, Copy, Debug)]
pub enum Value {
    Known(Fe),
    Unknown,
}

/// What a value stands for: `None` when it is not known.
pub open spec fn value_of(v: Value) -> Option<int> {
    match v {
        Value::Known(f) => Some(f.val()),
        Value::Unknown => None,
    }
}

/// The sum of two optional field values: known only when both are.
pub open spec fn opt_add(a: Option<int>, b: Option<int>) -> Option<int> {
    match (a, b) {
        (Some(x), Some(y)) => Some(fadd(x, y)),
        _ => None,
    }
}

impl Value {
    pub fn known(f: Fe) -> (r: Value)
        ensures
            value_of(r) == Some(f.val()),
    {
        Value::Known(f)
    }

    pub fn unknown() -> (r: Value)
        ensures
            value_of(r) is None,
    {
        Value::Unknown
    }

    /// The sum of two values, known only when both are.
    pub fn add(&self, o: &Value) -> (r: Value)
        ensures
            value_of(r) == opt_add(value_of(*self), value_of(*o)),
    {
        match (self, o) {
            (Value::Known(a), Value::Known(b)) => Value::Known(a.add(b)),
            _ => Value::Unknown,
        }
    }
}

/// A polynomial over cell queries, evaluated at a row of the grid.
#[derive(Debug)]
pub enum Expr {
    Constant(Fe),
    /// The advice cell of `column` at the current row moved by `rotation`.
    Advice { column: usize, rotation: i32 },
    /// The fixed cell of `column` at the current row moved by `rotation`.
    Fixed { column: usize, rotation: i32 },
    Sum(Box<Expr>, Box<Expr>),
    Difference(Box<Expr>, Box<Expr>),
    Product(Box<Expr>, Box<Expr>),
    Negated(Box<Expr>),
}

impl Expr {
    pub fn constant(f: Fe) -> (r: Expr)
        ensures
            r == Expr::Constant(f),
    {
        Expr::Constant(f)
    }

    /// A query of advice column `column` at the current row moved by `rotation`.
    pub fn advice(column: Column, rotation: i32) -> (r: Expr)
        ensures
            r == (Expr::Advice { column: column.index, rotation }),
    {
        Expr::Advice { column: column.index, rotation }
    }

    /// A query of fixed column `column` at the current row moved by `rotation`.
    pub fn fixed(column: Column, rotation: i32) -> (r: Expr)
        ensures
            r == (Expr::Fixed { column: column.index, rotation }),
    {
        Expr::Fixed { column: column.index, rotation }
    }

    pub fn plus(self, o: Expr) -> (r: Expr)
        ensures
            r == Expr::Sum(Box::new(self), Box::new(o)),
    {
        Expr::Sum(Box::new(self), Box::new(o))
    }

    pub fn minus(self, o: Expr) -> (r: Expr)
        ensures
            r == Expr::Difference(Box::new(self), Box::new(o)),
    {
        Expr::Difference(Box::new(self), Box::new(o))
    }

    pub fn times(self, o: Expr) -> (r: Expr)
        ensures
            r == Expr::Product(Box::new(self), Box::new(o)),
    {
        Expr::Product(Box::new(self), Box::new(o))
    }

    pub fn negate(self) -> (r: Expr)
        ensures
            r == Expr::Negated(Box::new(self)),
    {
        Expr::Negated(Box::new(self))
    }
}

/// An identity enforced on every row where its selector is on.
#[derive(Debug)]
pub struct Gate {
    pub name: String,
    pub selector: Selector,
    pub poly: Expr,
}

/// Structural misuse while configuring or laying out a circuit.
#[derive(Clone, Copy, Debug, PartialEq, Eq, Structural)]
pub enum Error {
    /// The configuration does not permit the request (a column that is not
    /// equality-enabled, public inputs of the wrong shape, an unknown column).
    Configuration,
    /// A witness assignment outside the rows it may write.
    Synthesis,
}

/// A fact the checker found about a witness that does not satisfy the circuit.
#[derive(Clone, Copy, Debug, PartialEq, Eq, Structural)]
pub enum Violation {
    /// Gate number `gate` does not vanish (or reads an unknown cell) at `row`.
    Gate { gate: usize, row: usize },
    /// The two cells of an equality constraint do not hold one known value.
    Equality { a: Cell, b: Cell },
}

/// Why a witness was not accepted.
#[derive(Debug)]
pub enum CheckError {
    /// The public inputs do not have the shape of the instance columns, or
    /// the grid asked for is too large to hold.
    Configuration,
    /// The circuit could not be laid out on the grid.
    Synthesis,
    /// Every violation found, in order: gates by gate then row, then equalities.
    Unsatisfied(Vec<Violation>),
}

/// The declared shape of a circuit: its columns, selectors, gates, and which
/// columns may take part in equality constraints.
#[derive(Debug)]
pub struct ConstraintSystem {
    pub num_advice: usize,
    pub num_fixed: usize,
    pub num_instance: usize,
    pub num_selectors: usize,
    pub equality: Vec<Column>,
    pub constants: Vec<Column>,
    pub gates: Vec<Gate>,
}

impl ConstraintSystem {
    pub fn new() -> (r: ConstraintSystem)
        ensures
            r.num_advice == 0,
            r.num_fixed == 0,
            r.num_instance == 0,
            r.num_selectors == 0,
            r.equality@.len() == 0,
            r.constants@.len() == 0,
            r.gates@.len() == 0,
    {
        ConstraintSystem {
            num_advice: 0,
            num_fixed: 0,
            num_instance: 0,
            num_selectors: 0,
            equality: Vec::new(),
            constants: Vec::new(),
            gates: Vec::new(),
        }
    }

    /// Declares a new advice column.
    pub fn advice_column(&mut self) -> (c: Column)
        requires
            old(self).num_advice < usize::MAX,
        ensures
            c == (Column { kind: ColumnKind::Advice, index: old(self).num_advice }),
            final(self).num_advice == old(self).num_advice + 1,
            final(self).num_fixed == old(self).num_fixed,
            final(self).num_instance == old(self).num_instance,
            final(self).num_selectors == old(self).num_selectors,
            final(self).equality@ == old(self).equality@,
            final(self).constants@ == old(self).constants@,
            final(self).gates@ == old(self).gates@,
    {
        let c = Column { kind: ColumnKind::Advice, index: self.num_advice };
        self.num_advice = self.num_advice + 1;
        c
    }

    /// Declares a new fixed column.
    pub fn fixed_column(&mut self) -> (c: Column)
        requires
            old(self).num_fixed < usize::MAX,
        ensures
            c == (Column { kind: ColumnKind::Fixed, index: old(self).num_fixed }),
            final(self).num_advice == old(self).num_advice,
            final(self).num_fixed == old(self).num_fixed + 1,
            final(self).num_instance == old(self).num_instance,
            final(self).num_selectors == old(self).num_selectors,
            final(self).equality@ == old(self).equality@,
            final(self).constants@ == old(self).constants@,
            final(self).gates@ == old(self).gates@,
    {
        let c = Column { kind: ColumnKind::Fixed, index: self.num_fixed };
        self.num_fixed = self.num_fixed + 1;
        c
    }

    /// Declares a new instance column.
    pub fn instance_column(&mut self) -> (c: Column)
        requires
            old(self).num_instance < usize::MAX,
        ensures
            c == (Column { kind: ColumnKind::Instance, index: old(self).num_instance }),
            final(self).num_advice == old(self).num_advice,
            final(self).num_fixed == old(self).num_fixed,
            final(self).num_instance == old(self).num_instance + 1,
            final(self).num_selectors == old(self).num_selectors,
            final(self).equality@ == old(self).equality@,
            final(self).constants@ == old(self).constants@,
            final(self).gates@ == old(self).gates@,
    {
        let c = Column { kind: ColumnKind::Instance, index: self.num_instance };
        self.num_instance = self.num_instance + 1;
        c
    }

    /// Declares a new selector.
    pub fn selector(&mut self) -> (s: Selector)
        requires
            old(self).num_selectors < usize::MAX,
        ensures
            s == (Selector { index: old(self).num_selectors }),
            final(self).num_advice == old(self).num_advice,
            final(self).num_fixed == old(self).num_fixed,
            final(self).num_instance == old(self).num_instance,
            final(self).num_selectors == old(self).num_selectors + 1,
            final(self).equality@ == old(self).equality@,
            final(self).constants@ == old(self).constants@,
            final(self).gates@ == old(self).gates@,
    {
        let s = Selector { index: self.num_selectors };
        self.num_selectors = self.num_selectors + 1;
        s
    }

    /// Whether `c` is one of the declared columns.
    pub fn is_declared(&self, c: Column) -> (r: bool)
        ensures
            r == declared(self, c),
    {
        match c.kind {
            ColumnKind::Advice => c.index < self.num_advice,
            ColumnKind::Fixed => c.index < self.num_fixed,
            ColumnKind::Instance => c.index < self.num_instance,
        }
    }

    /// Whether `c` may take part in equality constraints.
    pub fn is_equality_enabled(&self, c: Column) -> (r: bool)
        ensures
            r == self.equality@.contains(c),
    {
        let mut i: usize = 0;
        while i < self.equality.len()
            invariant
                0 <= i <= self.equality@.len(),
                forall|j: int| 0 <= j < i ==> self.equality@[j] != c,
            decreases self.equality@.len() - i,
        {
            if self.equality[i] == c {
                return true;
            }
            i = i + 1;
        }
        false
    }

    /// Lets column `c` take part in equality constraints. Fails with
    /// `Configuration` when `c` was not declared.
    pub fn enable_equality(&mut self, c: Column) -> (r: Result<(), Error>)
        ensures
            r is Ok <==> declared(old(self), c),
            r is Err ==> r == Err::<(), Error>(Error::Configuration),
            final(self).equality@ == if r is Ok {
                old(self).equality@.push(c)
            } else {
                old(self).equality@
            },
            final(self).num_advice == old(self).num_advice,
            final(self).num_fixed == old(self).num_fixed,
            final(self).num_instance == old(self).num_instance,
            final(self).num_selectors == old(self).num_selectors,
            final(self).constants@ == old(self).constants@,
            final(self).gates@ == old(self).gates@,
    {
        if !self.is_declared(c) {
            return Err(Error::Configuration);
        }
        self.equality.push(c);
        Ok(())
    }

    /// Marks fixed column `c` as a home for constants, which also lets it take
    /// part in equality constraints. Fails with `Configuration` when `c` is not
    /// a declared fixed column.
    pub fn enable_constant(&mut self, c: Column) -> (r: Result<(), Error>)
        ensures
            r is Ok <==> (c.kind == ColumnKind::Fixed && declared(old(self), c)),
            r is Err ==> r == Err::<(), Error>(Error::Configuration),
            final(self).constants@ == if r is Ok {
                old(self).constants@.push(c)
            } else {
                old(self).constants@
            },
            final(self).equality@ == if r is Ok {
                old(self).equality@.push(c)
            } else {
                old(self).equality@
            },
            final(self).num_advice == old(self).num_advice,
            final(self).num_fixed == old(self).num_fixed,
            final(self).num_instance == old(self).num_instance,
            final(self).num_selectors == old(self).num_selectors,
            final(self).gates@ == old(self).gates@,
    {
        if c.kind != ColumnKind::Fixed || c.index >= self.num_fixed {
            return Err(Error::Configuration);
        }
        self.constants.push(c);
        self.equality.push(c);
        Ok(())
    }

    /// Adds a gate: `poly` must vanish on every row where `selector` is on.
    /// Fails with `Configuration` when the selector was not declared.
    pub fn create_gate(&mut self, name: String, selector: Selector, poly: Expr) -> (r: Result<usize, Error>)
        ensures
            r is Ok <==> selector.index < old(self).num_selectors,
            r is Err ==> r == Err::<usize, Error>(Error::Configuration),
            r is Ok ==> {
                &&& r->Ok_0 == old(self).gates@.len()
                &&& final(self).gates@.len() == old(self).gates@.len() + 1
                &&& final(self).gates@.drop_last() == old(self).gates@
                &&& final(self).gates@.last().name@ == name@
                &&& final(self).gates@.last().selector == selector
                &&& final(self).gates@.last().poly == poly
            },
            r is Err ==> final(self).gates@ == old(self).gates@,
            final(self).num_advice == old(self).num_advice,
            final(self).num_fixed == old(self).num_fixed,
            final(self).num_instance == old(self).num_instance,
            final(self).num_selectors == old(self).num_selectors,
            final(self).equality@ == old(self).equality@,
            final(self).constants@ == old(self).constants@,
    {
        if selector.index >= self.num_selectors {
            return Err(Error::Configuration);
        }
        let idx = self.gates.len();
        self.gates.push(Gate { name, selector, poly });
        proof {
            assert(self.gates@.drop_last() =~= old(self).gates@);
        }
        Ok(idx)
    }
}

/// Whether `c` is one of the columns that `cs` declared.
pub open spec fn declared(cs: &ConstraintSystem, c: Column) -> bool {
    match c.kind {
        ColumnKind::Advice => c.index < cs.num_advice,
        ColumnKind::Fixed => c.index < cs.num_fixed,
        ColumnKind::Instance => c.index < cs.num_instance,
    }
}

/// What the checker sees of a filled grid: each cell's value, each
/// selector's state, and the equality constraints laid down with the witness.
pub struct GridView {
    pub n_rows: nat,
    pub advice: Seq<Seq<Option<int>>>,
    pub fixed: Seq<Seq<Option<int>>>,
    pub selectors: Seq<Seq<bool>>,
    pub copies: Seq<(Cell, Cell)>,
}

/// The witness grid of one synthesis: `n_rows` rows of advice, fixed and
/// selector columns, the equality constraints laid down while filling it, and
/// the first row that no region has taken yet.
#[derive(Debug)]
pub struct Assignment {
    pub n_rows: usize,
    pub advice: Vec<Vec<Value>>,
    pub fixed: Vec<Vec<Value>>,
    pub selectors: Vec<Vec<bool>>,
    pub copies: Vec<(Cell, Cell)>,
    pub next_row: usize,
}

/// A named run of rows `start .. start + rows` handed out for assignment.
#[derive(Debug)]
pub struct Region {
    pub name: String,
    pub start: usize,
    pub rows: usize,
}

pub open spec fn values_view(col: Vec<Value>) -> Seq<Option<int>> {
    col@.map_values(|v: Value| value_of(v))
}

impl View for Assignment {
    type V = GridView;

    open spec fn view(&self) -> GridView {
        GridView {
            n_rows: self.n_rows as nat,
            advice: self.advice@.map_values(|col: Vec<Value>| values_view(col)),
            fixed: self.fixed@.map_values(|col: Vec<Value>| values_view(col)),
            selectors: self.selectors@.map_values(|col: Vec<bool>| col@),
            copies: self.copies@,
        }
    }
}

/// Every column of the grid is `n_rows` long.
pub open spec fn grid_shaped(g: GridView) -> bool {
    &&& forall|c: int| 0 <= c < g.advice.len() ==> #[trigger] g.advice[c].len() == g.n_rows
    &&& forall|c: int| 0 <= c < g.fixed.len() ==> #[trigger] g.fixed[c].len() == g.n_rows
    &&& forall|c: int| 0 <= c < g.selectors.len() ==> #[trigger] g.selectors[c].len() == g.n_rows
}

/// The grid with one advice cell replaced.
pub open spec fn with_advice(g: GridView, c: int, r: int, v: Option<int>) -> GridView {
    GridView { advice: g.advice.update(c, g.advice[c].update(r, v)), ..g }
}

/// The grid with one selector switched on.
pub open spec fn with_selector(g: GridView, s: int, r: int) -> GridView {
    GridView { selectors: g.selectors.update(s, g.selectors[s].update(r, true)), ..g }
}

fn unknown_column(n: usize) -> (r: Vec<Value>)
    ensures
        r@.len() == n,
        forall|i: int| 0 <= i < n ==> r@[i] is Unknown,
{
    let mut col: Vec<Value> = Vec::new();
    let mut i: usize = 0;
    while i < n
        invariant
            i <= n,
            col@.len() == i,
            forall|j: int| 0 <= j < i ==> col@[j] is Unknown,
        decreases n - i,
    {
        col.push(Value::Unknown);
        i = i + 1;
    }
    col
}

fn unknown_columns(count: usize, n: usize) -> (r: Vec<Vec<Value>>)
    ensures
        r@.len() == count,
        forall|c: int| 0 <= c < count ==> #[trigger] r@[c]@.len() == n,
        forall|c: int, i: int| 0 <= c < count && 0 <= i < n ==> #[trigger] r@[c]@[i] is Unknown,
{
    let mut cols: Vec<Vec<Value>> = Vec::new();
    let mut k: usize = 0;
    while k < count
        invariant
            k <= count,
            cols@.len() == k,
            forall|c: int| 0 <= c < k ==> #[trigger] cols@[c]@.len() == n,
            forall|c: int, i: int| 0 <= c < k && 0 <= i < n ==> #[trigger] cols@[c]@[i] is Unknown,
        decreases count - k,
    {
        cols.push(unknown_column(n));
        k = k + 1;
    }
    cols
}

fn off_columns(count: usize, n: usize) -> (r: Vec<Vec<bool>>)
    ensures
        r@.len() == count,
        forall|c: int| 0 <= c < count ==> #[trigger] r@[c]@.len() == n,
        forall|c: int, i: int| 0 <= c < count && 0 <= i < n ==> !#[trigger] r@[c]@[i],
{
    let mut cols: Vec<Vec<bool>> = Vec::new();
    let mut k: usize = 0;
    while k < count
        invariant
            k <= count,
            cols@.len() == k,
            forall|c: int| 0 <= c < k ==> #[trigger] cols@[c]@.len() == n,
            forall|c: int, i: int| 0 <= c < k && 0 <= i < n ==> !#[trigger] cols@[c]@[i],
        decreases count - k,
    {
        let mut col: Vec<bool> = Vec::new();
        let mut i: usize = 0;
        while i < n
            invariant
                i <= n,
                col@.len() == i,
                forall|j: int| 0 <= j < i ==> !col@[j],
            decreases n - i,
        {
            col.push(false);
            i = i + 1;
        }
        cols.push(col);
        k = k + 1;
    }
    cols
}

impl Assignment {
    /// An empty grid of `n_rows` rows for the columns and selectors of `cs`:
    /// every cell unknown, every selector off, no equality constraint.
    pub fn new(cs: &ConstraintSystem, n_rows: usize) -> (r: Assignment)
        ensures
            grid_shaped(r@),
            r@.n_rows == n_rows,
            r@.advice.len() == cs.num_advice,
            r@.fixed.len() == cs.num_fixed,
            r@.selectors.len() == cs.num_selectors,
            forall|c: int, i: int| 0 <= c < cs.num_advice && 0 <= i < n_rows ==> #[trigger] r@.advice[c][i] is None,
            forall|c: int, i: int| 0 <= c < cs.num_fixed && 0 <= i < n_rows ==> #[trigger] r@.fixed[c][i] is None,
            forall|s: int, i: int| 0 <= s < cs.num_selectors && 0 <= i < n_rows ==> !#[trigger] r@.selectors[s][i],
            r@.copies.len() == 0,
            r.next_row == 0,
    {
        let r = Assignment {
            n_rows,
            advice: unknown_columns(cs.num_advice, n_rows),
            fixed: unknown_columns(cs.num_fixed, n_rows),
            selectors: off_columns(cs.num_selectors, n_rows),
            copies: Vec::new(),
            next_row: 0,
        };
        assert forall|c: int, i: int| 0 <= c < cs.num_advice && 0 <= i < n_rows implies #[trigger] r@.advice[c][i] is None by {
            assert(r.advice@[c]@[i] is Unknown);
        }
        assert forall|c: int, i: int| 0 <= c < cs.num_fixed && 0 <= i < n_rows implies #[trigger] r@.fixed[c][i] is None by {
            assert(r.fixed@[c]@[i] is Unknown);
        }
        r
    }

    /// Hands out the next `rows` rows as a region named `name`. Fails with
    /// `Synthesis` when fewer than `rows` rows are left.
    pub fn assign_region(&mut self, name: String, rows: usize) -> (r: Result<Region, Error>)
        requires
            old(self).next_row <= old(self).n_rows,
        ensures
            r is Ok <==> rows <= old(self).n_rows - old(self).next_row,
            r is Err ==> r->Err_0 == Error::Synthesis && final(self).next_row == old(self).next_row,
            r is Ok ==> {
                &&& r->Ok_0.start == old(self).next_row
                &&& r->Ok_0.rows == rows
                &&& r->Ok_0.name@ == name@
                &&& final(self).next_row == old(self).next_row + rows
            },
            final(self)@ == old(self)@,
            final(self).next_row <= final(self).n_rows,
    {
        if rows > self.n_rows - self.next_row {
            return Err(Error::Synthesis);
        }
        let start = self.next_row;
        self.next_row = self.next_row + rows;
        Ok(Region { name, start, rows })
    }

    /// Writes `value` into advice `column` at row `offset` of `region`,
    /// replacing what the cell held. Fails with `Configuration` when the
    /// column is not an advice column of the grid, and with `Synthesis` when
    /// the row lies outside the region or the grid.
    pub fn assign_advice(&mut self, region: &Region, column: Column, offset: usize, value: Value) -> (r: Result<Cell, Error>)
        requires
            grid_shaped(old(self)@),
        ensures
            grid_shaped(final(self)@),
            final(self).next_row == old(self).next_row,
            !(column.kind == ColumnKind::Advice && column.index < old(self)@.advice.len())
                ==> r == Err::<Cell, Error>(Error::Configuration),
            (column.kind == ColumnKind::Advice && column.index < old(self)@.advice.len())
                ==> (r is Ok <==> offset < region.rows && region.start + offset < old(self).n_rows),
            r is Err ==> final(self)@ == old(self)@,
            r is Ok ==> {
                &&& r->Ok_0 == (Cell { column, row: (region.start + offset) as usize })
                &&& final(self)@ == with_advice(old(self)@, column.index as int, region.start + offset, value_of(value))
            },
    {
        if column.kind != ColumnKind::Advice || column.index >= self.advice.len() {
            return Err(Error::Configuration);
        }
        if offset >= region.rows || region.start >= self.n_rows || offset >= self.n_rows - region.start {
            return Err(Error::Synthesis);
        }
        let row = region.start + offset;
        let c = column.index;
        let ghost g0 = self@;
        assert(g0.advice[c as int].len() == self.n_rows);
        self.advice[c][row] = value;
        proof {
            let g1 = with_advice(g0, c as int, row as int, value_of(value));
            assert(self@.advice[c as int] =~= g1.advice[c as int]);
            assert(self@.advice =~= g1.advice);
        }
        Ok(Cell { column, row })
    }

    /// Writes `value` into fixed `column` at row `offset` of `region`, with
    /// the same failures as `assign_advice`.
    pub fn assign_fixed(&mut self, region: &Region, column: Column, offset: usize, value: Fe) -> (r: Result<Cell, Error>)
        requires
            grid_shaped(old(self)@),
        ensures
            grid_shaped(final(self)@),
            final(self).next_row == old(self).next_row,
            !(column.kind == ColumnKind::Fixed && column.index < old(self)@.fixed.len())
                ==> r == Err::<Cell, Error>(Error::Configuration),
            (column.kind == ColumnKind::Fixed && column.index < old(self)@.fixed.len())
                ==> (r is Ok <==> offset < region.rows && region.start + offset < old(self).n_rows),
            r is Err ==> final(self)@ == old(self)@,
            r is Ok ==> {
                let row = region.start + offset;
                let c = column.index as int;
                &&& r->Ok_0 == (Cell { column, row: row as usize })
                &&& final(self)@ == (GridView {
                    fixed: old(self)@.fixed.update(c, old(self)@.fixed[c].update(row, Some(value.val()))),
                    ..old(self)@
                })
            },
    {
        if column.kind != ColumnKind::Fixed || column.index >= self.fixed.len() {
            return Err(Error::Configuration);
        }
        if offset >= region.rows || region.start >= self.n_rows || offset >= self.n_rows - region.start {
            return Err(Error::Synthesis);
        }
        let row = region.start + offset;
        let c = column.index;
        let ghost g0 = self@;
        assert(g0.fixed[c as int].len() == self.n_rows);
        self.fixed[c][row] = Value::Known(value);
        proof {
            let f1 = g0.fixed.update(c as int, g0.fixed[c as int].update(row as int, Some(value.val())));
            assert(self@.fixed[c as int] =~= f1[c as int]);
            assert(self@.fixed =~= f1);
        }
        Ok(Cell { column, row })
    }

    /// Switches `selector` on at row `offset` of `region`; switching it on
    /// twice is the same as once. Fails with `Configuration` when the selector
    /// is not one of the grid's, and with `Synthesis` when the row lies
    /// outside the region or the grid.
    pub fn enable_selector(&mut self, region: &Region, selector: Selector, offset: usize) -> (r: Result<(), Error>)
        requires
            grid_shaped(old(self)@),
        ensures
            grid_shaped(final(self)@),
            final(self).next_row == old(self).next_row,
            selector.index >= old(self)@.selectors.len() ==> r == Err::<(), Error>(Error::Configuration),
            selector.index < old(self)@.selectors.len()
                ==> (r is Ok <==> offset < region.rows && region.start + offset < old(self).n_rows),
            r is Err ==> final(self)@ == old(self)@,
            r is Ok ==> final(self)@ == with_selector(old(self)@, selector.index as int, region.start + offset),
    {
        if selector.index >= self.selectors.len() {
            return Err(Error::Configuration);
        }
        if offset >= region.rows || region.start >= self.n_rows || offset >= self.n_rows - region.start {
            return Err(Error::Synthesis);
        }
        let row = region.start + offset;
        let s = selector.index;
        let ghost g0 = self@;
        assert(g0.selectors[s as int].len() == self.n_rows);
        self.selectors[s][row] = true;
        proof {
            let g1 = with_selector(g0, s as int, row as int);
            assert(self@.selectors[s as int] =~= g1.selectors[s as int]);
            assert(self@.selectors =~= g1.selectors);
        }
        Ok(())
    }

    /// Requires cells `a` and `b` to hold one value. Fails with
    /// `Configuration` when a cell's column is not equality-enabled in `cs`
    /// or its row lies outside the grid.
    pub fn constrain_equal(&mut self, cs: &ConstraintSystem, a: Cell, b: Cell) -> (r: Result<(), Error>)
        ensures
            r is Ok <==> {
                &&& cs.equality@.contains(a.column)
                &&& cs.equality@.contains(b.column)
                &&& a.row < old(self).n_rows
                &&& b.row < old(self).n_rows
            },
            r is Err ==> r == Err::<(), Error>(Error::Configuration) && final(self)@ == old(self)@,
            r is Ok ==> final(self)@ == (GridView { copies: old(self)@.copies.push((a, b)), ..old(self)@ }),
            final(self).next_row == old(self).next_row,
    {
        if !cs.is_equality_enabled(a.column) || !cs.is_equality_enabled(b.column)
            || a.row >= self.n_rows || b.row >= self.n_rows {
            return Err(Error::Configuration);
        }
        self.copies.push((a, b));
        Ok(())
    }

    /// Binds `cell` to row `row` of instance column `instance`: an equality
    /// constraint between the two. Fails as `constrain_equal` does, and with
    /// `Configuration` when `instance` is not an instance column.
    pub fn constrain_instance(&mut self, cs: &ConstraintSystem, cell: Cell, instance: Column, row: usize) -> (r: Result<(), Error>)
        ensures
            r is Ok <==> {
                &&& instance.kind == ColumnKind::Instance
                &&& cs.equality@.contains(cell.column)
                &&& cs.equality@.contains(instance)
                &&& cell.row < old(self).n_rows
                &&& row < old(self).n_rows
            },
            r is Err ==> r == Err::<(), Error>(Error::Configuration) && final(self)@ == old(self)@,
            r is Ok ==> final(self)@ == (GridView {
                copies: old(self)@.copies.push((cell, Cell { column: instance, row })),
                ..old(self)@
            }),
            final(self).next_row == old(self).next_row,
    {
        if instance.kind != ColumnKind::Instance {
            return Err(Error::Configuration);
        }
        self.constrain_equal(cs, cell, Cell { column: instance, row })
    }
}

/// The integers that public inputs stand for.
pub open spec fn public_view(public: Seq<Vec<Fe>>) -> Seq<Seq<int>> {
    public.map_values(|col: Vec<Fe>| col@.map_values(|f: Fe| f.val()))
}

pub open spec fn advice_at(g: GridView, c: int, r: int) -> Option<int> {
    if 0 <= c < g.advice.len() && 0 <= r < g.advice[c].len() {
        g.advice[c][r]
    } else {
        None
    }
}

pub open spec fn fixed_at(g: GridView, c: int, r: int) -> Option<int> {
    if 0 <= c < g.fixed.len() && 0 <= r < g.fixed[c].len() {
        g.fixed[c][r]
    } else {
        None
    }
}

pub open spec fn opt_bin(a: Option<int>, b: Option<int>, op: spec_fn(int, int) -> int) -> Option<int> {
    match (a, b) {
        (Some(x), Some(y)) => Some(op(x, y)),
        _ => None,
    }
}

/// The value of `e` at `row`: `None` when it reads a cell that is not known
/// or does not exist. A query whose rotated row falls off the grid reads zero.
pub open spec fn eval(e: Expr, g: GridView, row: int) -> Option<int>
    decreases e,
{
    match e {
        Expr::Constant(f) => Some(f.val()),
        Expr::Advice { column, rotation } => {
            let r = row + rotation;
            if 0 <= r < g.n_rows {
                advice_at(g, column as int, r)
            } else {
                Some(0)
            }
        },
        Expr::Fixed { column, rotation } => {
            let r = row + rotation;
            if 0 <= r < g.n_rows {
                fixed_at(g, column as int, r)
            } else {
                Some(0)
            }
        },
        Expr::Sum(a, b) => opt_bin(eval(*a, g, row), eval(*b, g, row), |x: int, y: int| fadd(x, y)),
        Expr::Difference(a, b) => opt_bin(eval(*a, g, row), eval(*b, g, row), |x: int, y: int| fsub(x, y)),
        Expr::Product(a, b) => opt_bin(eval(*a, g, row), eval(*b, g, row), |x: int, y: int| fmul(x, y)),
        Expr::Negated(a) => match eval(*a, g, row) {
            Some(x) => Some(fneg(x)),
            None => None,
        },
    }
}

pub open spec fn selector_on(g: GridView, s: int, row: int) -> bool {
    0 <= s < g.selectors.len() && 0 <= row < g.selectors[s].len() && g.selectors[s][row]
}

/// A gate holds at `row`: its selector is off there, or its polynomial is zero.
pub open spec fn gate_holds(gate: Gate, g: GridView, row: int) -> bool {
    selector_on(g, gate.selector.index as int, row) ==> eval(gate.poly, g, row) == Some(0int)
}

/// The value of a cell, instance cells read from the public inputs.
pub open spec fn cell_value(g: GridView, public: Seq<Seq<int>>, c: Cell) -> Option<int> {
    let i = c.column.index as int;
    let r = c.row as int;
    match c.column.kind {
        ColumnKind::Advice => advice_at(g, i, r),
        ColumnKind::Fixed => fixed_at(g, i, r),
        ColumnKind::Instance => if 0 <= i < public.len() && 0 <= r < public[i].len() {
            Some(public[i][r])
        } else {
            None
        },
    }
}

/// Both cells hold one known value.
pub open spec fn copy_holds(g: GridView, public: Seq<Seq<int>>, pair: (Cell, Cell)) -> bool {
    &&& cell_value(g, public, pair.0) is Some
    &&& cell_value(g, public, pair.0) == cell_value(g, public, pair.1)
}

/// Every gate holds at every row, and every equality constraint holds.
pub open spec fn satisfied(gates: Seq<Gate>, g: GridView, public: Seq<Seq<int>>) -> bool {
    &&& forall|i: int, row: int|
        0 <= i < gates.len() && 0 <= row < g.n_rows ==> #[trigger] gate_holds(gates[i], g, row)
    &&& forall|k: int| 0 <= k < g.copies.len() ==> #[trigger] copy_holds(g, public, g.copies[k])
}

/// The public inputs have one column per instance column, each `n_rows` long.
pub open spec fn public_shaped(num_instance: int, n_rows: int, public: Seq<Seq<int>>) -> bool {
    &&& public.len() == num_instance
    &&& forall|i: int| 0 <= i < public.len() ==> #[trigger] public[i].len() == n_rows
}

} // verus!

verus! {

/// What an optional element stands for.
pub open spec fn opt_val(v: Option<Fe>) -> Option<int> {
    match v {
        Some(f) => Some(f.val()),
        None => None,
    }
}

/// The violation `v` is a true fact about the grid.
pub open spec fn violation_holds(gates: Seq<Gate>, g: GridView, public: Seq<Seq<int>>, v: Violation) -> bool {
    match v {
        Violation::Gate { gate, row } => {
            &&& gate < gates.len()
            &&& row < g.n_rows
            &&& !gate_holds(gates[gate as int], g, row as int)
        },
        Violation::Equality { a, b } => {
            &&& g.copies.contains((a, b))
            &&& !copy_holds(g, public, (a, b))
        },
    }
}

/// `vs` holds only true violations, and every gate that fails at a row and
/// every equality constraint that fails is among them.
pub open spec fn reports_exactly(gates: Seq<Gate>, g: GridView, public: Seq<Seq<int>>, vs: Seq<Violation>) -> bool {
    &&& forall|j: int| 0 <= j < vs.len() ==> violation_holds(gates, g, public, #[trigger] vs[j])
    &&& forall|i: int, row: int|
        0 <= i < gates.len() && 0 <= row < g.n_rows && !#[trigger] gate_holds(gates[i], g, row)
            ==> vs.contains(Violation::Gate { gate: i as usize, row: row as usize })
    &&& forall|k: int|
        0 <= k < g.copies.len() && !#[trigger] copy_holds(g, public, g.copies[k])
            ==> vs.contains(Violation::Equality { a: g.copies[k].0, b: g.copies[k].1 })
}

fn read_value(v: &Value) -> (r: Option<Fe>)
    ensures
        opt_val(r) == value_of(*v),
{
    match v {
        Value::Known(f) => Some(*f),
        Value::Unknown => None,
    }
}

fn read_cell(cols: &Vec<Vec<Value>>, c: usize, r: usize) -> (out: Option<Fe>)
    ensures
        opt_val(out) == if c < cols@.len() && r < cols@[c as int]@.len() {
            value_of(cols@[c as int]@[r as int])
        } else {
            None
        },
{
    if c < cols.len() && r < cols[c].len() {
        read_value(&cols[c][r])
    } else {
        None
    }
}

/// The value of `e` at `row` of the grid.
pub fn eval_expr(e: &Expr, asg: &Assignment, row: usize) -> (r: Option<Fe>)
    ensures
        opt_val(r) == eval(*e, asg@, row as int),
    decreases e,
{
    match e {
        Expr::Constant(f) => Some(*f),
        Expr::Advice { column, rotation } => {
            let at: i128 = row as i128 + *rotation as i128;
            if at >= 0 && at < asg.n_rows as i128 {
                read_cell(&asg.advice, *column, at as usize)
            } else {
                Some(Fe::zero())
            }
        },
        Expr::Fixed { column, rotation } => {
            let at: i128 = row as i128 + *rotation as i128;
            if at >= 0 && at < asg.n_rows as i128 {
                read_cell(&asg.fixed, *column, at as usize)
            } else {
                Some(Fe::zero())
            }
        },
        Expr::Sum(a, b) => {
            match (eval_expr(a, asg, row), eval_expr(b, asg, row)) {
                (Some(x), Some(y)) => Some(x.add(&y)),
                _ => None,
            }
        },
        Expr::Difference(a, b) => {
            match (eval_expr(a, asg, row), eval_expr(b, asg, row)) {
                (Some(x), Some(y)) => Some(x.sub(&y)),
                _ => None,
            }
        },
        Expr::Product(a, b) => {
            match (eval_expr(a, asg, row), eval_expr(b, asg, row)) {
                (Some(x), Some(y)) => Some(x.mul(&y)),
                _ => None,
            }
        },
        Expr::Negated(a) => {
            match eval_expr(a, asg, row) {
                Some(x) => Some(x.neg()),
                None => None,
            }
        },
    }
}

/// Whether `gate` holds at `row`.
pub fn gate_holds_at(gate: &Gate, asg: &Assignment, row: usize) -> (r: bool)
    ensures
        r == gate_holds(*gate, asg@, row as int),
{
    let s = gate.selector.index;
    let on = s < asg.selectors.len() && row < asg.selectors[s].len() && asg.selectors[s][row];
    if !on {
        return true;
    }
    match eval_expr(&gate.poly, asg, row) {
        Some(v) => v.is_zero(),
        None => false,
    }
}

/// The value of cell `c`, instance cells read from `public`.
pub fn cell_value_at(asg: &Assignment, public: &Vec<Vec<Fe>>, c: Cell) -> (r: Option<Fe>)
    ensures
        opt_val(r) == cell_value(asg@, public_view(public@), c),
{
    match c.column.kind {
        ColumnKind::Advice => read_cell(&asg.advice, c.column.index, c.row),
        ColumnKind::Fixed => read_cell(&asg.fixed, c.column.index, c.row),
        ColumnKind::Instance => {
            let i = c.column.index;
            if i < public.len() && c.row < public[i].len() {
                Some(public[i][c.row])
            } else {
                None
            }
        },
    }
}

/// Whether both cells of `pair` hold one known value.
pub fn copy_holds_at(asg: &Assignment, public: &Vec<Vec<Fe>>, pair: (Cell, Cell)) -> (r: bool)
    ensures
        r == copy_holds(asg@, public_view(public@), pair),
{
    match (cell_value_at(asg, public, pair.0), cell_value_at(asg, public, pair.1)) {
        (Some(x), Some(y)) => x.equals(&y),
        _ => false,
    }
}

/// Whether the public inputs have one column per instance column of `cs`,
/// each `n_rows` long.
pub fn public_inputs_shaped(cs: &ConstraintSystem, n_rows: usize, public: &Vec<Vec<Fe>>) -> (r: bool)
    ensures
        r == public_shaped(cs.num_instance as int, n_rows as int, public_view(public@)),
{
    if public.len() != cs.num_instance {
        return false;
    }
    let mut i: usize = 0;
    while i < public.len()
        invariant
            i <= public@.len(),
            forall|j: int| 0 <= j < i ==> #[trigger] public@[j]@.len() == n_rows,
        decreases public@.len() - i,
    {
        if public[i].len() != n_rows {
            assert(public_view(public@)[i as int].len() != n_rows);
            return false;
        }
        i = i + 1;
    }
    assert forall|j: int| 0 <= j < public_view(public@).len() implies #[trigger] public_view(public@)[j].len() == n_rows by {
        assert(public@[j]@.len() == n_rows);
    }
    true
}

/// Checks a filled grid against the gates of `cs` and its own equality
/// constraints, with `public` as the instance columns. Fails with
/// `Configuration` when `public` does not have their shape; otherwise
/// succeeds exactly when the grid satisfies the circuit, and else lists every
/// violation: failing gates by gate and row, then failing equalities.
pub fn check(cs: &ConstraintSystem, asg: &Assignment, public: &Vec<Vec<Fe>>) -> (r: Result<(), CheckError>)
    ensures
        !public_shaped(cs.num_instance as int, asg.n_rows as int, public_view(public@))
            ==> r matches Err(CheckError::Configuration),
        public_shaped(cs.num_instance as int, asg.n_rows as int, public_view(public@)) ==> {
            &&& r is Ok <==> satisfied(cs.gates@, asg@, public_view(public@))
            &&& r is Err ==> (r matches Err(CheckError::Unsatisfied(vs))
                && vs@.len() > 0
                && reports_exactly(cs.gates@, asg@, public_view(public@), vs@))
        },
{
    if !public_inputs_shaped(cs, asg.n_rows, public) {
        return Err(CheckError::Configuration);
    }
    let ghost gates = cs.gates@;
    let ghost g = asg@;
    let ghost pv = public_view(public@);
    let mut vs: Vec<Violation> = Vec::new();
    let mut i: usize = 0;
    while i < cs.gates.len()
        invariant
            gates == cs.gates@,
            g == asg@,
            pv == public_view(public@),
            i <= gates.len(),
            forall|j: int| 0 <= j < vs@.len() ==> violation_holds(gates, g, pv, #[trigger] vs@[j]),
            forall|gi: int, row: int|
                0 <= gi < i && 0 <= row < g.n_rows && !#[trigger] gate_holds(gates[gi], g, row)
                    ==> vs@.contains(Violation::Gate { gate: gi as usize, row: row as usize }),
            forall|j: int| 0 <= j < vs@.len() ==> #[trigger] vs@[j] is Gate,
        decreases gates.len() - i,
    {
        let mut row: usize = 0;
        while row < asg.n_rows
            invariant
                gates == cs.gates@,
                g == asg@,
                pv == public_view(public@),
                i < gates.len(),
                row <= g.n_rows,
                forall|j: int| 0 <= j < vs@.len() ==> violation_holds(gates, g, pv, #[trigger] vs@[j]),
                forall|gi: int, rw: int|
                    0 <= gi < i && 0 <= rw < g.n_rows && !#[trigger] gate_holds(gates[gi], g, rw)
                        ==> vs@.contains(Violation::Gate { gate: gi as usize, row: rw as usize }),
                forall|rw: int|
                    0 <= rw < row && !#[trigger] gate_holds(gates[i as int], g, rw)
                        ==> vs@.contains(Violation::Gate { gate: i, row: rw as usize }),
                forall|j: int| 0 <= j < vs@.len() ==> #[trigger] vs@[j] is Gate,
            decreases g.n_rows - row,
        {
            if !gate_holds_at(&cs.gates[i], asg, row) {
                let ghost old_vs = vs@;
                vs.push(Violation::Gate { gate: i, row });
                proof {
                    assert(vs@[old_vs.len() as int] == Violation::Gate { gate: i, row });
                    assert forall|x: Violation| old_vs.contains(x) implies vs@.contains(x) by {
                        let j = choose|j: int| 0 <= j < old_vs.len() && old_vs[j] == x;
                        assert(vs@[j] == x);
                    }
                }
            }
            row = row + 1;
        }
        i = i + 1;
    }
    let mut k: usize = 0;
    while k < asg.copies.len()
        invariant
            gates == cs.gates@,
            g == asg@,
            pv == public_view(public@),
            k <= g.copies.len(),
            forall|j: int| 0 <= j < vs@.len() ==> violation_holds(gates, g, pv, #[trigger] vs@[j]),
            forall|gi: int, rw: int|
                0 <= gi < gates.len() && 0 <= rw < g.n_rows && !#[trigger] gate_holds(gates[gi], g, rw)
                    ==> vs@.contains(Violation::Gate { gate: gi as usize, row: rw as usize }),
            forall|kk: int|
                0 <= kk < k && !#[trigger] copy_holds(g, pv, g.copies[kk])
                    ==> vs@.contains(Violation::Equality { a: g.copies[kk].0, b: g.copies[kk].1 }),
        decreases g.copies.len() - k,
    {
        let pair = asg.copies[k];
        if !copy_holds_at(asg, public, pair) {
            let ghost old_vs = vs@;
            vs.push(Violation::Equality { a: pair.0, b: pair.1 });
            proof {
                assert(g.copies[k as int] == pair);
                assert(g.copies.contains(pair));
                assert(vs@[old_vs.len() as int] == Violation::Equality { a: pair.0, b: pair.1 });
                assert forall|x: Violation| old_vs.contains(x) implies vs@.contains(x) by {
                    let j = choose|j: int| 0 <= j < old_vs.len() && old_vs[j] == x;
                    assert(vs@[j] == x);
                }
            }
        }
        k = k + 1;
    }
    if vs.len() == 0 {
        proof {
            assert forall|gi: int, rw: int| 0 <= gi < gates.len() && 0 <= rw < g.n_rows implies #[trigger] gate_holds(gates[gi], g, rw) by {
                if !gate_holds(gates[gi], g, rw) {
                    assert(vs@.contains(Violation::Gate { gate: gi as usize, row: rw as usize }));
                }
            }
            assert forall|kk: int| 0 <= kk < g.copies.len() implies #[trigger] copy_holds(g, pv, g.copies[kk]) by {
                if !copy_holds(g, pv, g.copies[kk]) {
                    assert(vs@.contains(Violation::Equality { a: g.copies[kk].0, b: g.copies[kk].1 }));
                }
            }
        }
        Ok(())
    } else {
        proof {
            let v = vs@[0];
            assert(violation_holds(gates, g, pv, v));
            match v {
                Violation::Gate { gate, row } => {
                    assert(!gate_holds(gates[gate as int], g, row as int));
                },
                Violation::Equality { a, b } => {
                    let kk = choose|kk: int| 0 <= kk < g.copies.len() && g.copies[kk] == (a, b);
                    assert(!copy_holds(g, pv, g.copies[kk]));
                },
            }
        }
        Err(CheckError::Unsatisfied(vs))
    }
}

} // verus!
