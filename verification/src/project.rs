//! Derived columns: cells computed from the cells of one summary row.

use vstd::prelude::*;

use crate::table::rows_view;
use crate::value::{arith, evaluate, Op, Value};

verus! {

/// How one output cell is derived from a row: a cell of the row, or arithmetic
/// over two derived cells.
#[derive(Debug, PartialEq, Eq)]
pub enum Formula {
    Column(usize),
    Binary(Op, Box<Formula>, Box<Formula>),
}

/// Every column that the formula reads lies below `width`.
pub open spec fn formula_in_range(f: Formula, width: int) -> bool
    decreases f,
{
    match f {
        Formula::Column(c) => c < width,
        Formula::Binary(_, a, b) => formula_in_range(*a, width) && formula_in_range(*b, width),
    }
}

/// Every formula reads columns below `width` only.
pub open spec fn formulas_in_range(formulas: Seq<Formula>, width: int) -> bool {
    forall|j: int| 0 <= j < formulas.len() ==> formula_in_range(#[trigger] formulas[j], width)
}

/// The cell that a formula yields on a row.
pub open spec fn eval(f: Formula, row: Seq<Value>) -> Value
    decreases f,
{
    match f {
        Formula::Column(c) => row[c as int],
        Formula::Binary(op, a, b) => arith(op, eval(*a, row), eval(*b, row)),
    }
}

/// The row of the cells that the formulas yield on `row`.
pub open spec fn project_row(row: Seq<Value>, formulas: Seq<Formula>) -> Seq<Value> {
    Seq::new(formulas.len(), |j: int| eval(formulas[j], row))
}

/// Every row replaced by its projection, in the same order.
pub open spec fn project_rows(rows: Seq<Seq<Value>>, formulas: Seq<Formula>) -> Seq<Seq<Value>> {
    Seq::new(rows.len(), |i: int| project_row(rows[i], formulas))
}

/// Every row is wide enough for every formula.
pub open spec fn rows_cover(rows: Seq<Seq<Value>>, formulas: Seq<Formula>) -> bool {
    forall|i: int|
        0 <= i < rows.len() ==> formulas_in_range(formulas, (#[trigger] rows[i]).len() as int)
}

/// Computes [`eval`].
pub fn evaluate_formula(f: &Formula, row: &Vec<Value>) -> (v: Value)
    requires
        formula_in_range(*f, row.len() as int),
    ensures
        v == eval(*f, row@),
    decreases *f,
{
    match f {
        Formula::Column(c) => row[*c],
        Formula::Binary(op, a, b) => {
            let x = evaluate_formula(a, row);
            let y = evaluate_formula(b, row);
            evaluate(*op, &x, &y)
        },
    }
}

/// Derives from every row the cells that `formulas` describe. Rows are never
/// read again from the table: a derived cell depends on its own row alone.
pub fn project(rows: &Vec<Vec<Value>>, formulas: &Vec<Formula>) -> (out: Vec<Vec<Value>>)
    requires
        rows_cover(rows_view(rows@), formulas@),
    ensures
        rows_view(out@) == project_rows(rows_view(rows@), formulas@),
{
    let mut out: Vec<Vec<Value>> = Vec::new();
    let mut i: usize = 0;
    while i < rows.len()
        invariant
            0 <= i <= rows.len(),
            rows_cover(rows_view(rows@), formulas@),
            out.len() == i,
            forall|h: int|
                0 <= h < i ==> (#[trigger] out@[h])@ == project_row(rows@[h]@, formulas@),
        decreases rows.len() - i,
    {
        let row = &rows[i];
        assert(rows_view(rows@)[i as int] == row@);
        let mut cells: Vec<Value> = Vec::new();
        let mut j: usize = 0;
        while j < formulas.len()
            invariant
                0 <= j <= formulas.len(),
                formulas_in_range(formulas@, row.len() as int),
                cells.len() == j,
                forall|k: int| 0 <= k < j ==> #[trigger] cells@[k] == eval(formulas@[k], row@),
            decreases formulas.len() - j,
        {
            cells.push(evaluate_formula(&formulas[j], row));
            j = j + 1;
        }
        assert(cells@ =~= project_row(row@, formulas@));
        out.push(cells);
        i = i + 1;
    }
    assert(rows_view(out@) =~= project_rows(rows_view(rows@), formulas@));
    out
}

} // verus!
