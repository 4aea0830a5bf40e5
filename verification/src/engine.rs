//! Evaluation of a plan over a logical table.
//!
//! A plan is first resolved against the schema of the table: names become
//! column positions, and unknown names and misapplied operations are refused
//! before a row is read. The resolved plan is then run: the rows are grouped
//! and reduced, the output columns are derived from the summary rows, and the
//! result is sorted.

use vstd::prelude::*;

use crate::error::{agrees, Error};
use crate::group::{
    aggregate, aggregate_rows, keys_in_range, lemma_summary_width, reducer_in_range,
    reducers_in_range, KeySource, Reducer,
};
use crate::names::{index_of, names_view, position};
use crate::plan::{
    stage_names, views, Aggregate, AggregateView, Expr, ExprView, GroupKey, GroupKeyView, Measure,
    MeasureView, Plan, PlanView, Projection, ProjectionView, SortKey, SortKeyView,
};
use crate::project::{formula_in_range, formulas_in_range, project, project_rows, Formula};
use crate::sort::{sort, sort_in_range, sort_rows, SortColumn};
use crate::table::{
    rows_view, schema_names, schema_view, Column, ColumnType, ColumnView, LogicalTable,
};
use crate::value::Value;

verus! {

/// The rows that a plan yields, under the names of their columns.
#[derive(Clone, Debug, PartialEq, Eq)]
pub struct ResultSet {
    pub columns: Vec<String>,
    pub rows: Vec<Vec<Value>>,
}

/// A result as specifications see it.
pub struct ResultSetView {
    pub columns: Seq<Seq<char>>,
    pub rows: Seq<Seq<Value>>,
}

impl View for ResultSet {
    type V = ResultSetView;

    open spec fn view(&self) -> ResultSetView {
        ResultSetView { columns: names_view(self.columns@), rows: rows_view(self.rows@) }
    }
}

/// A plan whose names are resolved to column positions.
pub struct Resolved {
    pub keys: Seq<KeySource>,
    pub reducers: Seq<Reducer>,
    pub formulas: Option<Seq<Formula>>,
    pub order: Seq<SortColumn>,
}

/// All values of a list of outcomes, or the first error in it.
pub open spec fn try_all<T>(outcomes: Seq<Result<T, Error>>) -> Result<Seq<T>, Error>
    decreases outcomes.len(),
{
    if outcomes.len() == 0 {
        Ok(Seq::empty())
    } else {
        match try_all(outcomes.drop_last()) {
            Err(e) => Err(e),
            Ok(front) => match outcomes.last() {
                Err(e) => Err(e),
                Ok(t) => Ok(front.push(t)),
            },
        }
    }
}

/// One more outcome at the end keeps an earlier error and extends a success.
pub proof fn lemma_try_all_push<T>(outcomes: Seq<Result<T, Error>>, next: Result<T, Error>)
    ensures
        try_all(outcomes.push(next)) == match try_all(outcomes) {
            Err(e) => Err::<Seq<T>, Error>(e),
            Ok(front) => match next {
                Err(e) => Err(e),
                Ok(t) => Ok(front.push(t)),
            },
        },
{
    assert(outcomes.push(next).drop_last() =~= outcomes);
}

/// An error among the first `n` outcomes is the error of the whole list.
pub proof fn lemma_try_all_prefix_error<T>(outcomes: Seq<Result<T, Error>>, n: int)
    requires
        0 <= n <= outcomes.len(),
        try_all(outcomes.take(n)) is Err,
    ensures
        try_all(outcomes) == try_all(outcomes.take(n)),
    decreases outcomes.len() - n,
{
    if n < outcomes.len() {
        assert(outcomes.take(n + 1).drop_last() =~= outcomes.take(n));
        lemma_try_all_prefix_error(outcomes, n + 1);
    } else {
        assert(outcomes.take(n) =~= outcomes);
    }
}

/// A success holds the value of every outcome, in order.
pub proof fn lemma_try_all_values<T>(outcomes: Seq<Result<T, Error>>)
    ensures
        try_all(outcomes) matches Ok(values) ==> values.len() == outcomes.len() && forall|i: int|
            0 <= i < outcomes.len() ==> #[trigger] outcomes[i] == Ok::<T, Error>(values[i]),
    decreases outcomes.len(),
{
    if outcomes.len() > 0 {
        lemma_try_all_values(outcomes.drop_last());
        let front = outcomes.drop_last();
        assert forall|i: int| 0 <= i < front.len() implies front[i] == outcomes[i] by {}
    }
}

/// The source of one group key expression.
///
/// An unknown column makes the plan invalid. Truncation to the month is
/// defined on timestamp columns only.
pub open spec fn resolve_key(key: GroupKeyView, schema: Seq<ColumnView>) -> Result<KeySource, Error> {
    match index_of(schema_names(schema), key.column) {
        None => Err(Error::InvalidPlan),
        Some(i) => if key.month && schema[i].ty != ColumnType::Timestamp {
            Err(Error::TypeError)
        } else {
            Ok(KeySource { index: i as usize, month: key.month })
        },
    }
}

/// The position of a column that is summed or averaged: the column must exist
/// and be numeric.
pub open spec fn resolve_operand(column: Seq<char>, schema: Seq<ColumnView>) -> Result<usize, Error> {
    match index_of(schema_names(schema), column) {
        None => Err(Error::InvalidPlan),
        Some(i) => if schema[i].ty != ColumnType::Numeric {
            Err(Error::TypeError)
        } else {
            Ok(i as usize)
        },
    }
}

/// The reducer of one aggregate.
pub open spec fn resolve_measure(aggregate: AggregateView, schema: Seq<ColumnView>) -> Result<
    Reducer,
    Error,
> {
    match aggregate.measure {
        MeasureView::CountRows => Ok(Reducer::CountRows),
        MeasureView::Sum(c) => match resolve_operand(c, schema) {
            Ok(i) => Ok(Reducer::Sum(i)),
            Err(e) => Err(e),
        },
        MeasureView::Avg(c) => match resolve_operand(c, schema) {
            Ok(i) => Ok(Reducer::Avg(i)),
            Err(e) => Err(e),
        },
    }
}

/// The type of one cell of the group key.
pub open spec fn key_type(source: KeySource, schema: Seq<ColumnView>) -> ColumnType {
    if source.month {
        ColumnType::Timestamp
    } else {
        schema[source.index as int].ty
    }
}

/// The types of the aggregated columns: those of the key cells, then numeric
/// for every aggregate.
pub open spec fn stage_types(keys: Seq<KeySource>, aggregates: nat, schema: Seq<ColumnView>) -> Seq<
    ColumnType,
> {
    Seq::new(keys.len(), |i: int| key_type(keys[i], schema)) + Seq::new(
        aggregates,
        |i: int| ColumnType::Numeric,
    )
}

/// Whether arithmetic may read the expression: a numeric column, or the
/// result of arithmetic.
pub open spec fn is_numeric(e: ExprView, names: Seq<Seq<char>>, types: Seq<ColumnType>) -> bool {
    match e {
        ExprView::Column(n) => index_of(names, n) matches Some(i) && types[i]
            == ColumnType::Numeric,
        ExprView::Binary(_, _, _) => true,
    }
}

/// The formula of an expression over columns `names` of types `types`.
///
/// An unknown column makes the plan invalid; arithmetic on a column that is
/// not numeric is a type error. The left operand is judged first.
pub open spec fn resolve_expr(e: ExprView, names: Seq<Seq<char>>, types: Seq<ColumnType>) -> Result<
    Formula,
    Error,
>
    decreases e,
{
    match e {
        ExprView::Column(n) => match index_of(names, n) {
            Some(i) => Ok(Formula::Column(i as usize)),
            None => Err(Error::InvalidPlan),
        },
        ExprView::Binary(op, a, b) => match resolve_expr(*a, names, types) {
            Err(e) => Err(e),
            Ok(fa) => match resolve_expr(*b, names, types) {
                Err(e) => Err(e),
                Ok(fb) => if is_numeric(*a, names, types) && is_numeric(*b, names, types) {
                    Ok(Formula::Binary(op, Box::new(fa), Box::new(fb)))
                } else {
                    Err(Error::TypeError)
                },
            },
        },
    }
}

/// The position of one sort key among the columns of the result.
pub open spec fn resolve_sort_key(key: SortKeyView, names: Seq<Seq<char>>) -> Result<SortColumn, Error> {
    match index_of(names, key.column) {
        Some(i) => Ok(SortColumn { index: i as usize, ascending: key.ascending }),
        None => Err(Error::InvalidPlan),
    }
}

/// The sources of all group key expressions, or the first error.
pub open spec fn resolve_keys(keys: Seq<GroupKeyView>, schema: Seq<ColumnView>) -> Result<
    Seq<KeySource>,
    Error,
> {
    try_all(Seq::new(keys.len(), |i: int| resolve_key(keys[i], schema)))
}

/// The reducers of all aggregates, or the first error.
pub open spec fn resolve_measures(aggregates: Seq<AggregateView>, schema: Seq<ColumnView>) -> Result<
    Seq<Reducer>,
    Error,
> {
    try_all(Seq::new(aggregates.len(), |i: int| resolve_measure(aggregates[i], schema)))
}

/// The formulas of all projections, or the first error.
pub open spec fn resolve_projections(
    projections: Seq<ProjectionView>,
    names: Seq<Seq<char>>,
    types: Seq<ColumnType>,
) -> Result<Seq<Formula>, Error> {
    try_all(Seq::new(projections.len(), |i: int| resolve_expr(projections[i].expr, names, types)))
}

/// The positions of all sort keys, or the first error.
pub open spec fn resolve_sort_keys(keys: Seq<SortKeyView>, names: Seq<Seq<char>>) -> Result<
    Seq<SortColumn>,
    Error,
> {
    try_all(Seq::new(keys.len(), |i: int| resolve_sort_key(keys[i], names)))
}

/// The formulas of the projection of a plan, if it has one.
pub open spec fn resolve_stage(plan: PlanView, keys: Seq<KeySource>, schema: Seq<ColumnView>) -> Result<
    Option<Seq<Formula>>,
    Error,
> {
    match plan.projections {
        None => Ok(None),
        Some(ps) => match resolve_projections(
            ps,
            stage_names(plan.group_keys, plan.aggregates),
            stage_types(keys, plan.aggregates.len(), schema),
        ) {
            Ok(fs) => Ok(Some(fs)),
            Err(e) => Err(e),
        },
    }
}

/// The plan resolved against a schema. The group keys are judged first, then
/// the aggregates, the projections and the sort keys; the first error is the
/// outcome.
pub open spec fn resolve(plan: PlanView, schema: Seq<ColumnView>) -> Result<Resolved, Error> {
    match resolve_keys(plan.group_keys, schema) {
        Err(e) => Err(e),
        Ok(keys) => match resolve_measures(plan.aggregates, schema) {
            Err(e) => Err(e),
            Ok(reducers) => match resolve_stage(plan, keys, schema) {
                Err(e) => Err(e),
                Ok(formulas) => match resolve_sort_keys(plan.sort_keys, plan.output_names()) {
                    Err(e) => Err(e),
                    Ok(order) => Ok(Resolved { keys, reducers, formulas, order }),
                },
            },
        },
    }
}

/// The rows that a resolved plan yields on `rows`: grouped and reduced, then
/// projected where the plan projects, then sorted.
pub open spec fn run(resolved: Resolved, rows: Seq<Seq<Value>>) -> Seq<Seq<Value>> {
    let summaries = aggregate_rows(rows, resolved.keys, resolved.reducers);
    let derived = match resolved.formulas {
        Some(fs) => project_rows(summaries, fs),
        None => summaries,
    };
    sort_rows(derived, resolved.order)
}

/// The outcome of a plan on a table of the given name, schema and rows.
///
/// A plan for another table is invalid. A plan that does not resolve fails
/// with the error of its resolution. Every other plan yields its result.
pub open spec fn outcome(
    plan: PlanView,
    name: Seq<char>,
    schema: Seq<ColumnView>,
    rows: Seq<Seq<Value>>,
) -> Result<ResultSetView, Error> {
    if plan.table != name {
        Err(Error::InvalidPlan)
    } else {
        match resolve(plan, schema) {
            Err(e) => Err(e),
            Ok(resolved) => Ok(
                ResultSetView { columns: plan.output_names(), rows: run(resolved, rows) },
            ),
        }
    }
}

fn column_names(schema: &Vec<Column>) -> (names: Vec<String>)
    ensures
        names_view(names@) == schema_names(schema_view(schema@)),
        names.len() == schema.len(),
{
    let mut names: Vec<String> = Vec::new();
    let mut i: usize = 0;
    while i < schema.len()
        invariant
            0 <= i <= schema.len(),
            names.len() == i,
            forall|k: int| 0 <= k < i ==> (#[trigger] names@[k])@ == schema@[k].name@,
        decreases schema.len() - i,
    {
        names.push(schema[i].name.clone());
        i = i + 1;
    }
    assert(names_view(names@) =~= schema_names(schema_view(schema@)));
    names
}

fn find_key(key: &GroupKey, schema: &Vec<Column>, names: &Vec<String>) -> (r: Result<KeySource, Error>)
    requires
        names_view(names@) == schema_names(schema_view(schema@)),
        names.len() == schema.len(),
    ensures
        r == resolve_key(key@, schema_view(schema@)),
        r matches Ok(source) ==> source.index < schema.len(),
{
    match position(names, &key.column) {
        None => Err(Error::InvalidPlan),
        Some(i) => {
            if key.month && schema[i].ty != ColumnType::Timestamp {
                Err(Error::TypeError)
            } else {
                Ok(KeySource { index: i, month: key.month })
            }
        },
    }
}

fn find_operand(column: &String, schema: &Vec<Column>, names: &Vec<String>) -> (r: Result<usize, Error>)
    requires
        names_view(names@) == schema_names(schema_view(schema@)),
        names.len() == schema.len(),
    ensures
        r == resolve_operand(column@, schema_view(schema@)),
        r matches Ok(i) ==> i < schema.len(),
{
    match position(names, column) {
        None => Err(Error::InvalidPlan),
        Some(i) => {
            if schema[i].ty != ColumnType::Numeric {
                Err(Error::TypeError)
            } else {
                Ok(i)
            }
        },
    }
}

fn find_measure(aggregate: &Aggregate, schema: &Vec<Column>, names: &Vec<String>) -> (r: Result<
    Reducer,
    Error,
>)
    requires
        names_view(names@) == schema_names(schema_view(schema@)),
        names.len() == schema.len(),
    ensures
        r == resolve_measure(aggregate@, schema_view(schema@)),
        r matches Ok(reducer) ==> reducer_in_range(reducer, schema.len() as int),
{
    match &aggregate.measure {
        Measure::CountRows => Ok(Reducer::CountRows),
        Measure::Sum(c) => match find_operand(c, schema, names) {
            Ok(i) => Ok(Reducer::Sum(i)),
            Err(e) => Err(e),
        },
        Measure::Avg(c) => match find_operand(c, schema, names) {
            Ok(i) => Ok(Reducer::Avg(i)),
            Err(e) => Err(e),
        },
    }
}

fn find_keys(keys: &Vec<GroupKey>, schema: &Vec<Column>, names: &Vec<String>) -> (r: Result<
    Vec<KeySource>,
    Error,
>)
    requires
        names_view(names@) == schema_names(schema_view(schema@)),
        names.len() == schema.len(),
    ensures
        agrees(r, resolve_keys(views(keys@), schema_view(schema@))),
        r matches Ok(sources) ==> keys_in_range(sources@, schema.len() as int) && sources.len()
            == keys.len(),
{
    let ghost outcomes = Seq::new(
        keys.len() as nat,
        |i: int| resolve_key(views(keys@)[i], schema_view(schema@)),
    );
    let mut out: Vec<KeySource> = Vec::new();
    let mut i: usize = 0;
    assert(outcomes.take(0) =~= Seq::empty());
    while i < keys.len()
        invariant
            0 <= i <= keys.len(),
            names_view(names@) == schema_names(schema_view(schema@)),
            names.len() == schema.len(),
            outcomes.len() == keys.len(),
            forall|k: int|
                0 <= k < keys.len() ==> #[trigger] outcomes[k] == resolve_key(
                    keys@[k]@,
                    schema_view(schema@),
                ),
            resolve_keys(views(keys@), schema_view(schema@)) == try_all(outcomes),
            try_all(outcomes.take(i as int)) == Ok::<Seq<KeySource>, Error>(out@),
            keys_in_range(out@, schema.len() as int),
            out.len() == i,
        decreases keys.len() - i,
    {
        let found = find_key(&keys[i], schema, names);
        proof {
            assert(found == outcomes[i as int]);
            assert(outcomes.take(i + 1) =~= outcomes.take(i as int).push(outcomes[i as int]));
            lemma_try_all_push(outcomes.take(i as int), outcomes[i as int]);
        }
        match found {
            Err(e) => {
                proof {
                    lemma_try_all_prefix_error(outcomes, i + 1);
                }
                return Err(e);
            },
            Ok(source) => {
                out.push(source);
            },
        }
        i = i + 1;
    }
    proof {
        assert(outcomes.take(i as int) =~= outcomes);
    }
    Ok(out)
}

fn find_measures(aggregates: &Vec<Aggregate>, schema: &Vec<Column>, names: &Vec<String>) -> (r:
    Result<Vec<Reducer>, Error>)
    requires
        names_view(names@) == schema_names(schema_view(schema@)),
        names.len() == schema.len(),
    ensures
        agrees(r, resolve_measures(views(aggregates@), schema_view(schema@))),
        r matches Ok(reducers) ==> reducers_in_range(reducers@, schema.len() as int)
            && reducers.len() == aggregates.len(),
{
    let ghost outcomes = Seq::new(
        aggregates.len() as nat,
        |i: int| resolve_measure(views(aggregates@)[i], schema_view(schema@)),
    );
    let mut out: Vec<Reducer> = Vec::new();
    let mut i: usize = 0;
    assert(outcomes.take(0) =~= Seq::empty());
    while i < aggregates.len()
        invariant
            0 <= i <= aggregates.len(),
            names_view(names@) == schema_names(schema_view(schema@)),
            names.len() == schema.len(),
            outcomes.len() == aggregates.len(),
            forall|k: int|
                0 <= k < aggregates.len() ==> #[trigger] outcomes[k] == resolve_measure(
                    aggregates@[k]@,
                    schema_view(schema@),
                ),
            resolve_measures(views(aggregates@), schema_view(schema@)) == try_all(outcomes),
            try_all(outcomes.take(i as int)) == Ok::<Seq<Reducer>, Error>(out@),
            reducers_in_range(out@, schema.len() as int),
            out.len() == i,
        decreases aggregates.len() - i,
    {
        let found = find_measure(&aggregates[i], schema, names);
        proof {
            assert(found == outcomes[i as int]);
            assert(outcomes.take(i + 1) =~= outcomes.take(i as int).push(outcomes[i as int]));
            lemma_try_all_push(outcomes.take(i as int), outcomes[i as int]);
        }
        match found {
            Err(e) => {
                proof {
                    lemma_try_all_prefix_error(outcomes, i + 1);
                }
                return Err(e);
            },
            Ok(reducer) => {
                out.push(reducer);
            },
        }
        i = i + 1;
    }
    proof {
        assert(outcomes.take(i as int) =~= outcomes);
    }
    Ok(out)
}

fn stage_type_list(keys: &Vec<KeySource>, aggregates: usize, schema: &Vec<Column>) -> (types: Vec<
    ColumnType,
>)
    requires
        keys_in_range(keys@, schema.len() as int),
        keys.len() + aggregates <= usize::MAX,
    ensures
        types@ == stage_types(keys@, aggregates as nat, schema_view(schema@)),
        types.len() == keys.len() + aggregates,
{
    let mut types: Vec<ColumnType> = Vec::new();
    let mut i: usize = 0;
    while i < keys.len()
        invariant
            0 <= i <= keys.len(),
            keys_in_range(keys@, schema.len() as int),
            types.len() == i,
            forall|k: int|
                0 <= k < i ==> #[trigger] types@[k] == key_type(keys@[k], schema_view(schema@)),
        decreases keys.len() - i,
    {
        let source = keys[i];
        let ty = if source.month {
            ColumnType::Timestamp
        } else {
            schema[source.index].ty
        };
        types.push(ty);
        i = i + 1;
    }
    let mut j: usize = 0;
    while j < aggregates
        invariant
            0 <= j <= aggregates,
            keys.len() + aggregates <= usize::MAX,
            types.len() == keys.len() + j,
            forall|k: int|
                0 <= k < keys.len() ==> #[trigger] types@[k] == key_type(
                    keys@[k],
                    schema_view(schema@),
                ),
            forall|k: int| keys.len() <= k < types.len() ==> #[trigger] types@[k] == ColumnType::Numeric,
        decreases aggregates - j,
    {
        types.push(ColumnType::Numeric);
        j = j + 1;
    }
    assert(types@ =~= stage_types(keys@, aggregates as nat, schema_view(schema@)));
    types
}

fn expr_is_numeric(e: &Expr, names: &Vec<String>, types: &Vec<ColumnType>) -> (r: bool)
    requires
        names.len() == types.len(),
    ensures
        r == is_numeric(e@, names_view(names@), types@),
{
    match e {
        Expr::Column(n) => match position(names, n) {
            Some(i) => types[i] == ColumnType::Numeric,
            None => false,
        },
        Expr::Binary(_, _, _) => true,
    }
}

fn find_formula(e: &Expr, names: &Vec<String>, types: &Vec<ColumnType>) -> (r: Result<Formula, Error>)
    requires
        names.len() == types.len(),
    ensures
        r == resolve_expr(e@, names_view(names@), types@),
        r matches Ok(f) ==> formula_in_range(f, names.len() as int),
    decreases *e,
{
    match e {
        Expr::Column(n) => match position(names, n) {
            Some(i) => Ok(Formula::Column(i)),
            None => Err(Error::InvalidPlan),
        },
        Expr::Binary(op, a, b) => {
            let fa = match find_formula(a, names, types) {
                Ok(f) => f,
                Err(e) => {
                    return Err(e);
                },
            };
            let fb = match find_formula(b, names, types) {
                Ok(f) => f,
                Err(e) => {
                    return Err(e);
                },
            };
            if expr_is_numeric(a, names, types) && expr_is_numeric(b, names, types) {
                Ok(Formula::Binary(*op, Box::new(fa), Box::new(fb)))
            } else {
                Err(Error::TypeError)
            }
        },
    }
}

fn find_formulas(projections: &Vec<Projection>, names: &Vec<String>, types: &Vec<ColumnType>) -> (r:
    Result<Vec<Formula>, Error>)
    requires
        names.len() == types.len(),
    ensures
        agrees(r, resolve_projections(views(projections@), names_view(names@), types@)),
        r matches Ok(formulas) ==> formulas_in_range(formulas@, names.len() as int)
            && formulas.len() == projections.len(),
{
    let ghost outcomes = Seq::new(
        projections.len() as nat,
        |i: int| resolve_expr(views(projections@)[i].expr, names_view(names@), types@),
    );
    let mut out: Vec<Formula> = Vec::new();
    let mut i: usize = 0;
    assert(outcomes.take(0) =~= Seq::empty());
    while i < projections.len()
        invariant
            0 <= i <= projections.len(),
            names.len() == types.len(),
            outcomes.len() == projections.len(),
            forall|k: int|
                0 <= k < projections.len() ==> #[trigger] outcomes[k] == resolve_expr(
                    projections@[k].expr@,
                    names_view(names@),
                    types@,
                ),
            resolve_projections(views(projections@), names_view(names@), types@) == try_all(
                outcomes,
            ),
            try_all(outcomes.take(i as int)) == Ok::<Seq<Formula>, Error>(out@),
            formulas_in_range(out@, names.len() as int),
            out.len() == i,
        decreases projections.len() - i,
    {
        let found = find_formula(&projections[i].expr, names, types);
        proof {
            assert(found == outcomes[i as int]);
            assert(outcomes.take(i + 1) =~= outcomes.take(i as int).push(outcomes[i as int]));
            lemma_try_all_push(outcomes.take(i as int), outcomes[i as int]);
        }
        match found {
            Err(e) => {
                proof {
                    lemma_try_all_prefix_error(outcomes, i + 1);
                }
                return Err(e);
            },
            Ok(formula) => {
                out.push(formula);
            },
        }
        i = i + 1;
    }
    proof {
        assert(outcomes.take(i as int) =~= outcomes);
    }
    Ok(out)
}

fn find_sort_keys(keys: &Vec<SortKey>, names: &Vec<String>) -> (r: Result<Vec<SortColumn>, Error>)
    ensures
        agrees(r, resolve_sort_keys(views(keys@), names_view(names@))),
        r matches Ok(order) ==> sort_in_range(order@, names.len() as int),
{
    let ghost outcomes = Seq::new(
        keys.len() as nat,
        |i: int| resolve_sort_key(views(keys@)[i], names_view(names@)),
    );
    let mut out: Vec<SortColumn> = Vec::new();
    let mut i: usize = 0;
    assert(outcomes.take(0) =~= Seq::empty());
    while i < keys.len()
        invariant
            0 <= i <= keys.len(),
            outcomes.len() == keys.len(),
            forall|k: int|
                0 <= k < keys.len() ==> #[trigger] outcomes[k] == resolve_sort_key(
                    keys@[k]@,
                    names_view(names@),
                ),
            resolve_sort_keys(views(keys@), names_view(names@)) == try_all(outcomes),
            try_all(outcomes.take(i as int)) == Ok::<Seq<SortColumn>, Error>(out@),
            sort_in_range(out@, names.len() as int),
        decreases keys.len() - i,
    {
        let found = match position(names, &keys[i].column) {
            Some(c) => Ok(SortColumn { index: c, ascending: keys[i].ascending }),
            None => Err(Error::InvalidPlan),
        };
        proof {
            assert(found == outcomes[i as int]);
            assert(outcomes.take(i + 1) =~= outcomes.take(i as int).push(outcomes[i as int]));
            lemma_try_all_push(outcomes.take(i as int), outcomes[i as int]);
        }
        match found {
            Err(e) => {
                proof {
                    lemma_try_all_prefix_error(outcomes, i + 1);
                }
                return Err(e);
            },
            Ok(column) => {
                out.push(column);
            },
        }
        i = i + 1;
    }
    proof {
        assert(outcomes.take(i as int) =~= outcomes);
    }
    Ok(out)
}

/// Evaluates a plan over a table.
///
/// The plan is resolved against the schema before a row is read, so an
/// invalid plan or a type error is reported whatever the table holds. Then
/// every partition is folded into the groups, the groups are finished, the
/// output columns are derived and the rows are sorted.
pub fn execute(plan: &Plan, table: &LogicalTable) -> (r: Result<ResultSet, Error>)
    requires
        table.wf(),
    ensures
        agrees(r, outcome(plan@, table.name@, schema_view(table.schema@), table.rows())),
{
    if !(plan.table == table.name) {
        return Err(Error::InvalidPlan);
    }
    let names = column_names(&table.schema);
    let keys = match find_keys(&plan.group_keys, &table.schema, &names) {
        Ok(keys) => keys,
        Err(e) => {
            return Err(e);
        },
    };
    let reducers = match find_measures(&plan.aggregates, &table.schema, &names) {
        Ok(reducers) => reducers,
        Err(e) => {
            return Err(e);
        },
    };
    let stage = plan.stage_columns();
    assert(stage.len() == keys.len() + reducers.len()) by {
        assert(names_view(stage@).len() == stage.len());
    }
    let formulas: Option<Vec<Formula>> = match &plan.projections {
        None => None,
        Some(ps) => {
            let types = stage_type_list(&keys, plan.aggregates.len(), &table.schema);
            match find_formulas(ps, &stage, &types) {
                Ok(formulas) => Some(formulas),
                Err(e) => {
                    return Err(e);
                },
            }
        },
    };
    let columns = plan.output_columns();
    let order = match find_sort_keys(&plan.sort_keys, &columns) {
        Ok(order) => order,
        Err(e) => {
            return Err(e);
        },
    };
    let summaries = aggregate(table, &keys, &reducers);
    proof {
        lemma_summary_width(table.rows(), keys@, reducers@);
        assert(names_view(columns@).len() == columns.len());
    }
    let derived = match &formulas {
        Some(fs) => project(&summaries, fs),
        None => summaries,
    };
    let rows = sort(&derived, &order);
    Ok(ResultSet { columns, rows })
}

impl LogicalTable {
    /// Starts a plan over this table; see [`Plan::aggregate`].
    pub fn aggregate(&self, group_keys: Vec<GroupKey>, aggregates: Vec<Aggregate>) -> (r: Result<
        Plan,
        Error,
    >)
        ensures
            agrees(r, PlanView::aggregated(self.name@, views(group_keys@), views(aggregates@))),
            r.is_ok() ==> r.unwrap()@.wf(),
    {
        Plan::aggregate(self.name.clone(), group_keys, aggregates)
    }
}

impl Plan {
    /// Evaluates the plan over a table; see [`execute`].
    pub fn execute(&self, table: &LogicalTable) -> (r: Result<ResultSet, Error>)
        requires
            table.wf(),
        ensures
            agrees(r, outcome(self@, table.name@, schema_view(table.schema@), table.rows())),
    {
        execute(self, table)
    }
}

} // verus!
