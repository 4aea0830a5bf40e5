//! What holds of every evaluation, stated over the specifications of the
//! engine and proved once for all tables.

use vstd::prelude::*;

use crate::group::{
    aggregate_rows, defined_count, defined_sum, distinct_keys, key_of, lemma_distinct_keys_differ,
    lemma_distinct_keys_push, lemma_key_is_listed, lemma_listed_key_occurs, lemma_members_push,
    lemma_unlisted_key_has_no_members, members, reduce, summary_row, KeySource, Reducer,
};
use crate::engine::{
    lemma_try_all_values, outcome, resolve, resolve_expr, resolve_key, resolve_measure,
    resolve_sort_key, stage_types, Resolved,
};
use crate::error::Error;
use crate::group::{keys_in_range, lemma_summary_width, reducers_in_range};
use crate::interpret::{interpret, shaped, sort_key_of};
use crate::lexer::tokens_of;
use crate::names::lemma_index_of;
use crate::plan::{lemma_builder_keeps_wf, stage_names, ExprView, PlanView};
use crate::text::parse_tokens;
use crate::project::{eval, formula_in_range, formulas_in_range, project_rows, Formula};
use crate::sort::{
    cell_before, cells_wf, lemma_sorted_order, permutes, row_before, sort_in_range, sort_rows,
    sortable, sorted_order, SortColumn,
};
use crate::table::{rows_fit, schema_names, ColumnType, ColumnView};
use crate::value::{arith, number, Op, Value};

verus! {

/// The group key that a summary row starts with.
pub open spec fn group_key(summary: Seq<Value>, keys: Seq<KeySource>) -> Seq<Value> {
    summary.take(keys.len() as int)
}

/// Every row belongs to the group of some summary row, every summary row is
/// the group of some row, and no two summary rows are of the same group.
pub open spec fn one_row_per_group(
    rows: Seq<Seq<Value>>,
    keys: Seq<KeySource>,
    summaries: Seq<Seq<Value>>,
) -> bool {
    &&& forall|i: int|
        0 <= i < rows.len() ==> exists|g: int|
            0 <= g < summaries.len() && group_key(#[trigger] summaries[g], keys) == key_of(
                #[trigger] rows[i],
                keys,
            )
    &&& forall|g: int|
        0 <= g < summaries.len() ==> exists|i: int|
            0 <= i < rows.len() && key_of(#[trigger] rows[i], keys) == group_key(
                #[trigger] summaries[g],
                keys,
            )
    &&& forall|g: int, h: int|
        0 <= g < h < summaries.len() ==> group_key(#[trigger] summaries[g], keys) != group_key(
            #[trigger] summaries[h],
            keys,
        )
}

/// The summary rows start with the distinct keys, in the order in which the
/// keys are first met.
pub proof fn summaries_follow_keys(
    rows: Seq<Seq<Value>>,
    keys: Seq<KeySource>,
    reducers: Seq<Reducer>,
)
    ensures
        aggregate_rows(rows, keys, reducers).len() == distinct_keys(rows, keys).len(),
        forall|g: int|
            0 <= g < distinct_keys(rows, keys).len() ==> group_key(
                #[trigger] aggregate_rows(rows, keys, reducers)[g],
                keys,
            ) == distinct_keys(rows, keys)[g],
{
    let found = distinct_keys(rows, keys);
    let out = aggregate_rows(rows, keys, reducers);
    assert forall|g: int| 0 <= g < found.len() implies group_key(#[trigger] out[g], keys)
        == found[g] by {
        lemma_listed_key_occurs(rows, keys, g);
        let i = choose|i: int|
            0 <= i < rows.len() && key_of(#[trigger] rows[i], keys) == found[g];
        assert(found[g].len() == keys.len());
        assert(out[g] == summary_row(rows, keys, reducers, found[g]));
        assert(out[g].take(keys.len() as int) =~= found[g]);
    }
}

/// Grouping is complete: for every value of the group key that occurs in the
/// rows there is exactly one summary row, and there is no other summary row.
pub proof fn group_completeness(rows: Seq<Seq<Value>>, keys: Seq<KeySource>, reducers: Seq<Reducer>)
    ensures
        one_row_per_group(rows, keys, aggregate_rows(rows, keys, reducers)),
{
    let found = distinct_keys(rows, keys);
    let out = aggregate_rows(rows, keys, reducers);
    summaries_follow_keys(rows, keys, reducers);
    lemma_distinct_keys_differ(rows, keys);
    assert forall|i: int| 0 <= i < rows.len() implies exists|g: int|
        0 <= g < out.len() && group_key(#[trigger] out[g], keys) == key_of(
            #[trigger] rows[i],
            keys,
        ) by {
        lemma_key_is_listed(rows, keys, i);
        let g = choose|g: int| 0 <= g < found.len() && found[g] == key_of(rows[i], keys);
        assert(group_key(out[g], keys) == found[g]);
    }
    assert forall|g: int| 0 <= g < out.len() implies exists|i: int|
        0 <= i < rows.len() && key_of(#[trigger] rows[i], keys) == group_key(
            #[trigger] out[g],
            keys,
        ) by {
        lemma_listed_key_occurs(rows, keys, g);
        let i = choose|i: int|
            0 <= i < rows.len() && key_of(#[trigger] rows[i], keys) == found[g];
        assert(key_of(rows[i], keys) == group_key(out[g], keys));
    }
    assert forall|g: int, h: int| 0 <= g < h < out.len() implies group_key(
        #[trigger] out[g],
        keys,
    ) != group_key(#[trigger] out[h], keys) by {
        assert(group_key(out[g], keys) == found[g]);
        assert(group_key(out[h], keys) == found[h]);
    }
}

/// The number of rows that belong to one of the groups `groups`.
pub open spec fn member_total(
    rows: Seq<Seq<Value>>,
    keys: Seq<KeySource>,
    groups: Seq<Seq<Value>>,
) -> nat
    decreases groups.len(),
{
    if groups.len() == 0 {
        0
    } else {
        member_total(rows, keys, groups.drop_last()) + members(rows, keys, groups.last()).len()
    }
}

/// A group has no more members than there are rows.
pub proof fn lemma_members_bounded(rows: Seq<Seq<Value>>, keys: Seq<KeySource>, key: Seq<Value>)
    ensures
        members(rows, keys, key).len() <= rows.len(),
    decreases rows.len(),
{
    if rows.len() > 0 {
        lemma_members_bounded(rows.drop_last(), keys, key);
    }
}

proof fn lemma_member_total_push(
    rows: Seq<Seq<Value>>,
    row: Seq<Value>,
    keys: Seq<KeySource>,
    groups: Seq<Seq<Value>>,
)
    requires
        forall|g: int, h: int| 0 <= g < h < groups.len() ==> groups[g] != groups[h],
    ensures
        member_total(rows.push(row), keys, groups) == member_total(rows, keys, groups) + if groups.contains(
            key_of(row, keys),
        ) {
            1nat
        } else {
            0nat
        },
    decreases groups.len(),
{
    if groups.len() > 0 {
        let front = groups.drop_last();
        let key = key_of(row, keys);
        lemma_member_total_push(rows, row, keys, front);
        lemma_members_push(rows, row, keys, groups.last());
        if front.contains(key) {
            let w = choose|w: int| 0 <= w < front.len() && front[w] == key;
            assert(groups[w] == key);
            assert(groups.last() != key);
        } else if groups.last() == key {
            assert(groups[groups.len() - 1] == key);
        } else {
            if groups.contains(key) {
                let w = choose|w: int| 0 <= w < groups.len() && groups[w] == key;
                assert(front[w] == key);
            }
        }
    }
}

/// Every row is a member of exactly one group: the groups together have as
/// many members as there are rows.
pub proof fn members_partition_rows(rows: Seq<Seq<Value>>, keys: Seq<KeySource>)
    ensures
        member_total(rows, keys, distinct_keys(rows, keys)) == rows.len(),
    decreases rows.len(),
{
    if rows.len() > 0 {
        let front = rows.drop_last();
        let row = rows.last();
        let found = distinct_keys(front, keys);
        let key = key_of(row, keys);
        assert(front.push(row) =~= rows);
        members_partition_rows(front, keys);
        lemma_distinct_keys_differ(front, keys);
        lemma_distinct_keys_push(front, row, keys);
        lemma_member_total_push(front, row, keys, found);
        if !found.contains(key) {
            lemma_unlisted_key_has_no_members(front, keys, key);
            lemma_members_push(front, row, keys, key);
            assert(found.push(key).drop_last() =~= found);
        }
    }
}

proof fn lemma_count_column(
    rows: Seq<Seq<Value>>,
    keys: Seq<KeySource>,
    reducers: Seq<Reducer>,
    j: int,
    n: int,
)
    requires
        0 <= j < reducers.len(),
        reducers[j] == Reducer::CountRows,
        rows.len() <= i64::MAX,
        0 <= n <= distinct_keys(rows, keys).len(),
    ensures
        defined_sum(aggregate_rows(rows, keys, reducers).take(n), keys.len() + j) == member_total(
            rows,
            keys,
            distinct_keys(rows, keys).take(n),
        ),
    decreases n,
{
    let found = distinct_keys(rows, keys);
    let out = aggregate_rows(rows, keys, reducers);
    if n > 0 {
        lemma_count_column(rows, keys, reducers, j, n - 1);
        assert(out.take(n).drop_last() =~= out.take(n - 1));
        assert(found.take(n).drop_last() =~= found.take(n - 1));
        let g = n - 1;
        lemma_listed_key_occurs(rows, keys, g);
        let i = choose|i: int|
            0 <= i < rows.len() && key_of(#[trigger] rows[i], keys) == found[g];
        assert(found[g].len() == keys.len());
        lemma_members_bounded(rows, keys, found[g]);
        assert(out[g] == summary_row(rows, keys, reducers, found[g]));
        assert(out[g][keys.len() + j] == reduce(reducers[j], members(rows, keys, found[g])));
    }
}

/// Counting conserves the rows: in the column of a row count, the counts of
/// all summary rows add up to the number of rows.
pub proof fn count_conservation(
    rows: Seq<Seq<Value>>,
    keys: Seq<KeySource>,
    reducers: Seq<Reducer>,
    j: int,
)
    requires
        0 <= j < reducers.len(),
        reducers[j] == Reducer::CountRows,
        rows.len() <= i64::MAX,
    ensures
        defined_sum(aggregate_rows(rows, keys, reducers), keys.len() + j) == rows.len(),
{
    let found = distinct_keys(rows, keys);
    let out = aggregate_rows(rows, keys, reducers);
    lemma_count_column(rows, keys, reducers, j, found.len() as int);
    members_partition_rows(rows, keys);
    assert(out.take(found.len() as int) =~= out);
    assert(found.take(found.len() as int) =~= found);
}

/// The cell of an average is the exact fraction of the sum of the defined
/// cells of its column over their number, both taken over the rows of the
/// group; it is undefined where the group has no defined cell.
pub proof fn average_identity(
    rows: Seq<Seq<Value>>,
    keys: Seq<KeySource>,
    reducers: Seq<Reducer>,
    g: int,
    j: int,
)
    requires
        0 <= g < distinct_keys(rows, keys).len(),
        0 <= j < reducers.len(),
        reducers[j] is Avg,
    ensures
        ({
            let group = members(rows, keys, distinct_keys(rows, keys)[g]);
            let column = reducers[j]->Avg_0 as int;
            let cell = aggregate_rows(rows, keys, reducers)[g][keys.len() + j];
            cell == if defined_count(group, column) == 0 {
                Value::Null
            } else {
                number(defined_sum(group, column), defined_count(group, column) as int)
            }
        }),
{
    let found = distinct_keys(rows, keys);
    lemma_listed_key_occurs(rows, keys, g);
    let i = choose|i: int| 0 <= i < rows.len() && key_of(#[trigger] rows[i], keys) == found[g];
    assert(found[g].len() == keys.len());
    assert(aggregate_rows(rows, keys, reducers)[g] == summary_row(rows, keys, reducers, found[g]));
}

/// Where both cells can be held, the average of a column times the number of
/// its defined cells is the sum of the column.
pub proof fn average_times_count_is_sum(group: Seq<Seq<Value>>, column: usize)
    requires
        reduce(Reducer::Avg(column), group) is Num,
    ensures
        reduce(Reducer::Avg(column), group)->num == defined_sum(group, column as int),
        reduce(Reducer::Avg(column), group)->den == defined_count(group, column as int),
        reduce(Reducer::Sum(column), group) == number(defined_sum(group, column as int), 1),
{
}

/// Division by a zero cell, or by an undefined one, yields an undefined cell.
pub proof fn zero_denominator_is_undefined(a: Value, b: Value)
    requires
        b is Null || (b is Num && b->num == 0),
    ensures
        arith(Op::Div, a, b) == Value::Null,
{
}

/// A ratio of two columns is undefined on every row whose denominator cell is
/// zero or undefined; the other rows are not affected.
pub proof fn ratio_is_undefined_on_zero(row: Seq<Value>, numerator: usize, denominator: usize)
    requires
        row[denominator as int] is Null || (row[denominator as int] is Num
            && row[denominator as int]->num == 0),
    ensures
        eval(
            Formula::Binary(
                Op::Div,
                Box::new(Formula::Column(numerator)),
                Box::new(Formula::Column(denominator)),
            ),
            row,
        ) == Value::Null,
{
    reveal_with_fuel(eval, 2);
}

/// Sorting puts the rows in order and keeps the order of arrival among rows
/// that no key tells apart: of two rows of the result, the later one never
/// has to come before the earlier one, and where neither has to come before
/// the other, the earlier one arrived first. No row is lost or repeated.
pub proof fn sort_order(rows: Seq<Seq<Value>>, keys: Seq<SortColumn>)
    requires
        rows.len() <= usize::MAX,
        forall|i: int| 0 <= i < rows.len() ==> sortable(#[trigger] rows[i], keys),
    ensures
        permutes(sorted_order(rows, keys, rows.len()), rows.len()),
        sort_rows(rows, keys).len() == rows.len(),
        forall|k: int, l: int|
            0 <= k < l < rows.len() ==> !row_before(
                #[trigger] sort_rows(rows, keys)[l],
                #[trigger] sort_rows(rows, keys)[k],
                keys,
            ),
        forall|k: int, l: int|
            0 <= k < l < rows.len() && !row_before(
                #[trigger] sort_rows(rows, keys)[k],
                #[trigger] sort_rows(rows, keys)[l],
                keys,
            ) ==> sorted_order(rows, keys, rows.len())[k] < sorted_order(rows, keys, rows.len())[l],
{
    let order = sorted_order(rows, keys, rows.len());
    let out = sort_rows(rows, keys);
    lemma_sorted_order(rows, keys, rows.len());
    assert forall|k: int, l: int| 0 <= k < l < rows.len() implies !row_before(
        #[trigger] out[l],
        #[trigger] out[k],
        keys,
    ) && (!row_before(out[k], out[l], keys) ==> order[k] < order[l]) by {
        assert(order[k] < rows.len() && order[l] < rows.len());
        assert(out[k] == rows[order[k] as int] && out[l] == rows[order[l] as int]);
        assert(crate::sort::precedes(rows, keys, order[k] as int, order[l] as int));
        crate::sort::lemma_row_order(out[k], out[l], out[k], keys);
    }
}

/// Sorted by one column, the cells of that column are in order down the
/// result: ascending, no later cell is before an earlier one; descending, no
/// earlier cell is before a later one. Undefined cells stand first.
pub proof fn single_key_order(rows: Seq<Seq<Value>>, column: usize, ascending: bool)
    requires
        rows.len() <= usize::MAX,
        forall|i: int| 0 <= i < rows.len() ==> (#[trigger] rows[i])[column as int].wf(),
    ensures
        forall|k: int, l: int|
            0 <= k < l < rows.len() ==> !cell_before(
                (#[trigger] sort_rows(rows, seq![SortColumn { index: column, ascending }])[l])[column as int],
                (#[trigger] sort_rows(rows, seq![SortColumn { index: column, ascending }])[k])[column as int],
                ascending,
            ),
{
    let keys = seq![SortColumn { index: column, ascending }];
    assert forall|i: int| 0 <= i < rows.len() implies sortable(#[trigger] rows[i], keys) by {}
    sort_order(rows, keys);
    let out = sort_rows(rows, keys);
    assert forall|k: int, l: int| 0 <= k < l < rows.len() implies !cell_before(
        (#[trigger] out[l])[column as int],
        (#[trigger] out[k])[column as int],
        ascending,
    ) by {
        assert(!row_before(out[l], out[k], keys));
        reveal_with_fuel(crate::sort::row_before_from, 2);
    }
}

/// The result of arithmetic is well formed.
pub proof fn lemma_arith_wf(op: Op, a: Value, b: Value)
    ensures
        arith(op, a, b).wf(),
{
    match (a, b) {
        (Value::Num { num: an, den: ad }, Value::Num { num: bn, den: bd }) => {
            if ad > 0 && bd > 0 {
                assert(ad * bd > 0) by (nonlinear_arith)
                    requires
                        ad > 0,
                        bd > 0,
                ;
                if bn > 0 {
                    assert(ad * bn > 0) by (nonlinear_arith)
                        requires
                            ad > 0,
                            bn > 0,
                    ;
                }
                if bn < 0 {
                    assert(-(ad * bn) > 0) by (nonlinear_arith)
                        requires
                            ad > 0,
                            bn < 0,
                    ;
                }
            }
        },
        _ => {},
    }
}

/// A formula over well-formed cells yields a well-formed cell.
pub proof fn lemma_eval_wf(f: Formula, row: Seq<Value>)
    requires
        formula_in_range(f, row.len() as int),
        forall|j: int| 0 <= j < row.len() ==> (#[trigger] row[j]).wf(),
    ensures
        eval(f, row).wf(),
    decreases f,
{
    match f {
        Formula::Column(_) => {},
        Formula::Binary(op, a, b) => {
            lemma_arith_wf(op, eval(*a, row), eval(*b, row));
        },
    }
}

/// Summary rows of well-formed rows are well formed.
pub proof fn lemma_summaries_wf(rows: Seq<Seq<Value>>, keys: Seq<KeySource>, reducers: Seq<Reducer>)
    requires
        cells_wf(rows),
        forall|i: int| 0 <= i < rows.len() ==> keys_in_range(keys, (#[trigger] rows[i]).len() as int),
    ensures
        cells_wf(aggregate_rows(rows, keys, reducers)),
{
    let found = distinct_keys(rows, keys);
    let out = aggregate_rows(rows, keys, reducers);
    lemma_summary_width(rows, keys, reducers);
    assert forall|g: int, j: int| 0 <= g < out.len() && 0 <= j < out[g].len() implies (
    #[trigger] out[g][j]).wf() by {
        lemma_listed_key_occurs(rows, keys, g);
        let i = choose|i: int|
            0 <= i < rows.len() && key_of(#[trigger] rows[i], keys) == found[g];
        assert(out[g] == summary_row(rows, keys, reducers, found[g]));
        if j < keys.len() {
            assert(out[g][j] == found[g][j]);
            assert(keys[j].index < rows[i].len());
            assert(rows[i][keys[j].index as int].wf());
        } else {
            assert(out[g][j] == reduce(reducers[j - keys.len()], members(rows, keys, found[g])));
        }
    }
}

/// What resolution guarantees of the positions that it hands out.
pub open spec fn in_range(plan: PlanView, resolved: Resolved, width: int) -> bool {
    &&& resolved.keys.len() == plan.group_keys.len()
    &&& resolved.reducers.len() == plan.aggregates.len()
    &&& keys_in_range(resolved.keys, width)
    &&& reducers_in_range(resolved.reducers, width)
    &&& resolved.formulas matches Some(fs) ==> formulas_in_range(
        fs,
        (resolved.keys.len() + resolved.reducers.len()) as int,
    )
    &&& sort_in_range(
        resolved.order,
        match resolved.formulas {
            Some(fs) => fs.len() as int,
            None => (resolved.keys.len() + resolved.reducers.len()) as int,
        },
    )
}

proof fn lemma_formula_range(e: ExprView, names: Seq<Seq<char>>, types: Seq<ColumnType>)
    requires
        names.len() <= usize::MAX,
    ensures
        resolve_expr(e, names, types) matches Ok(f) ==> formula_in_range(f, names.len() as int),
    decreases e,
{
    match e {
        ExprView::Column(n) => {
            lemma_index_of(names, n);
        },
        ExprView::Binary(_, a, b) => {
            lemma_formula_range(*a, names, types);
            lemma_formula_range(*b, names, types);
        },
    }
}

/// A resolved plan reads columns that exist: of the table where it groups and
/// reduces, of the summary rows where it projects, of the result where it
/// sorts.
pub proof fn lemma_resolve_in_range(plan: PlanView, schema: Seq<ColumnView>)
    requires
        schema.len() <= usize::MAX,
        plan.group_keys.len() + plan.aggregates.len() <= usize::MAX,
        plan.output_names().len() <= usize::MAX,
        resolve(plan, schema) is Ok,
    ensures
        in_range(plan, resolve(plan, schema)->Ok_0, schema.len() as int),
{
    let resolved = resolve(plan, schema)->Ok_0;
    let names = schema_names(schema);
    let key_outcomes = Seq::new(
        plan.group_keys.len(),
        |i: int| resolve_key(plan.group_keys[i], schema),
    );
    lemma_try_all_values(key_outcomes);
    assert forall|j: int| 0 <= j < resolved.keys.len() implies (#[trigger] resolved.keys[j]).index
        < schema.len() by {
        assert(key_outcomes[j] == Ok::<KeySource, Error>(resolved.keys[j]));
        lemma_index_of(names, plan.group_keys[j].column);
    }
    let measure_outcomes = Seq::new(
        plan.aggregates.len(),
        |i: int| resolve_measure(plan.aggregates[i], schema),
    );
    lemma_try_all_values(measure_outcomes);
    assert forall|j: int| 0 <= j < resolved.reducers.len() implies crate::group::reducer_in_range(
        #[trigger] resolved.reducers[j],
        schema.len() as int,
    ) by {
        assert(measure_outcomes[j] == Ok::<Reducer, Error>(resolved.reducers[j]));
        match plan.aggregates[j].measure {
            crate::plan::MeasureView::CountRows => {},
            crate::plan::MeasureView::Sum(c) => {
                lemma_index_of(names, c);
            },
            crate::plan::MeasureView::Avg(c) => {
                lemma_index_of(names, c);
            },
        }
    }
    let stage = stage_names(plan.group_keys, plan.aggregates);
    match plan.projections {
        Some(ps) => {
            let types = stage_types(resolved.keys, plan.aggregates.len(), schema);
            let outcomes = Seq::new(ps.len(), |i: int| resolve_expr(ps[i].expr, stage, types));
            lemma_try_all_values(outcomes);
            let fs = resolved.formulas->Some_0;
            assert forall|j: int| 0 <= j < fs.len() implies formula_in_range(
                #[trigger] fs[j],
                (resolved.keys.len() + resolved.reducers.len()) as int,
            ) by {
                assert(outcomes[j] == Ok::<Formula, Error>(fs[j]));
                lemma_formula_range(ps[j].expr, stage, types);
            }
        },
        None => {},
    }
    let columns = plan.output_names();
    let sort_outcomes = Seq::new(
        plan.sort_keys.len(),
        |i: int| resolve_sort_key(plan.sort_keys[i], columns),
    );
    lemma_try_all_values(sort_outcomes);
    assert forall|j: int| 0 <= j < resolved.order.len() implies (#[trigger] resolved.order[j]).index
        < columns.len() by {
        assert(sort_outcomes[j] == Ok::<SortColumn, Error>(resolved.order[j]));
        lemma_index_of(columns, plan.sort_keys[j].column);
    }
}

/// The rows of a result before they are sorted: the summary rows, projected
/// where the plan projects.
pub open spec fn derived_rows(resolved: Resolved, rows: Seq<Seq<Value>>) -> Seq<Seq<Value>> {
    let summaries = aggregate_rows(rows, resolved.keys, resolved.reducers);
    match resolved.formulas {
        Some(fs) => project_rows(summaries, fs),
        None => summaries,
    }
}

/// The derived rows of a plan that resolves are as many as there are groups,
/// and their cells are well formed.
pub proof fn lemma_derived_rows(
    plan: PlanView,
    schema: Seq<ColumnView>,
    rows: Seq<Seq<Value>>,
)
    requires
        schema.len() <= usize::MAX,
        plan.group_keys.len() + plan.aggregates.len() <= usize::MAX,
        plan.output_names().len() <= usize::MAX,
        rows_fit(rows, schema),
        resolve(plan, schema) is Ok,
    ensures
        derived_rows(resolve(plan, schema)->Ok_0, rows).len() == distinct_keys(
            rows,
            resolve(plan, schema)->Ok_0.keys,
        ).len(),
        cells_wf(derived_rows(resolve(plan, schema)->Ok_0, rows)),
        forall|g: int|
            0 <= g < derived_rows(resolve(plan, schema)->Ok_0, rows).len() ==> sortable(
                #[trigger] derived_rows(resolve(plan, schema)->Ok_0, rows)[g],
                resolve(plan, schema)->Ok_0.order,
            ),
{
    let resolved = resolve(plan, schema)->Ok_0;
    let summaries = aggregate_rows(rows, resolved.keys, resolved.reducers);
    let derived = derived_rows(resolved, rows);
    lemma_resolve_in_range(plan, schema);
    assert(cells_wf(rows)) by {
        assert forall|i: int, j: int|
            0 <= i < rows.len() && 0 <= j < rows[i].len() implies (#[trigger] rows[i][j]).wf() by {
            assert(crate::table::row_fits(rows[i], schema));
        }
    }
    assert forall|i: int| 0 <= i < rows.len() implies keys_in_range(
        resolved.keys,
        (#[trigger] rows[i]).len() as int,
    ) by {
        assert(crate::table::row_fits(rows[i], schema));
    }
    lemma_summaries_wf(rows, resolved.keys, resolved.reducers);
    lemma_summary_width(rows, resolved.keys, resolved.reducers);
    match resolved.formulas {
        Some(fs) => {
            assert forall|g: int, j: int|
                0 <= g < derived.len() && 0 <= j < derived[g].len() implies (
            #[trigger] derived[g][j]).wf() by {
                assert(summaries[g].len() == resolved.keys.len() + resolved.reducers.len());
                assert(formula_in_range(fs[j], summaries[g].len() as int));
                assert forall|c: int| 0 <= c < summaries[g].len() implies (
                #[trigger] summaries[g][c]).wf() by {}
                lemma_eval_wf(fs[j], summaries[g]);
            }
        },
        None => {},
    }
    assert forall|g: int| 0 <= g < derived.len() implies sortable(
        #[trigger] derived[g],
        resolved.order,
    ) by {
        assert(summaries[g].len() == resolved.keys.len() + resolved.reducers.len());
        assert forall|j: int| 0 <= j < resolved.order.len() implies derived[g][(
        #[trigger] resolved.order[j]).index as int].wf() by {
            assert(resolved.order[j].index < derived[g].len());
        }
    }
}

/// The rows of every result are in the order that the plan asks for, and
/// groups that the sort keys do not tell apart stay in the order in which the
/// groups were first met.
pub proof fn result_is_sorted(
    plan: PlanView,
    name: Seq<char>,
    schema: Seq<ColumnView>,
    rows: Seq<Seq<Value>>,
)
    requires
        schema.len() <= usize::MAX,
        plan.group_keys.len() + plan.aggregates.len() <= usize::MAX,
        plan.output_names().len() <= usize::MAX,
        rows.len() <= usize::MAX,
        rows_fit(rows, schema),
        outcome(plan, name, schema, rows) is Ok,
    ensures
        ({
            let resolved = resolve(plan, schema)->Ok_0;
            let result = outcome(plan, name, schema, rows)->Ok_0.rows;
            let derived = derived_rows(resolved, rows);
            let order = sorted_order(derived, resolved.order, derived.len());
            &&& result.len() == derived.len()
            &&& permutes(order, derived.len())
            &&& forall|k: int| 0 <= k < result.len() ==> #[trigger] result[k] == derived[order[k] as int]
            &&& forall|k: int, l: int|
                0 <= k < l < result.len() ==> !row_before(
                    #[trigger] result[l],
                    #[trigger] result[k],
                    resolved.order,
                )
            &&& forall|k: int, l: int|
                0 <= k < l < result.len() && !row_before(
                    #[trigger] result[k],
                    #[trigger] result[l],
                    resolved.order,
                ) ==> order[k] < order[l]
        }),
{
    let resolved = resolve(plan, schema)->Ok_0;
    let derived = derived_rows(resolved, rows);
    lemma_derived_rows(plan, schema, rows);
    crate::group::lemma_distinct_keys_bounded(rows, resolved.keys);
    sort_order(derived, resolved.order);
}

/// Every result holds exactly one row for every group: as many rows as there
/// are distinct group keys among the rows of the table.
pub proof fn result_has_one_row_per_group(
    plan: PlanView,
    name: Seq<char>,
    schema: Seq<ColumnView>,
    rows: Seq<Seq<Value>>,
)
    requires
        schema.len() <= usize::MAX,
        plan.group_keys.len() + plan.aggregates.len() <= usize::MAX,
        plan.output_names().len() <= usize::MAX,
        rows.len() <= usize::MAX,
        rows_fit(rows, schema),
        outcome(plan, name, schema, rows) is Ok,
    ensures
        outcome(plan, name, schema, rows)->Ok_0.rows.len() == distinct_keys(
            rows,
            resolve(plan, schema)->Ok_0.keys,
        ).len(),
        one_row_per_group(
            rows,
            resolve(plan, schema)->Ok_0.keys,
            aggregate_rows(
                rows,
                resolve(plan, schema)->Ok_0.keys,
                resolve(plan, schema)->Ok_0.reducers,
            ),
        ),
{
    let resolved = resolve(plan, schema)->Ok_0;
    result_is_sorted(plan, name, schema, rows);
    lemma_derived_rows(plan, schema, rows);
    group_completeness(rows, resolved.keys, resolved.reducers);
}

/// Every plan that a text is interpreted as is well formed, as every plan of
/// the builder is.
pub proof fn interpreted_plans_are_well_formed(text: Seq<char>)
    ensures
        interpret(text) matches Ok(plan) ==> plan.wf(),
{
    if interpret(text) is Ok {
        let query = parse_tokens(tokens_of(text)->Ok_0)->Ok_0;
        let keys = crate::interpret::group_keys_of(query.items, query.group_by)->Ok_0;
        let aggregates = crate::interpret::aggregates_of(query.items);
        let base = PlanView::aggregated(query.table, keys, aggregates)->Ok_0;
        lemma_builder_keeps_wf(base, crate::interpret::projections_of(query.items), Seq::empty());
        let plan = shaped(base, query.items)->Ok_0;
        match query.order_by {
            Some(order) => {
                lemma_builder_keeps_wf(plan, Seq::empty(), seq![sort_key_of(query.items, order)->Ok_0]);
            },
            None => {},
        }
    }
}

/// The two query surfaces agree: a text and a chain of builder calls that end
/// in the same plan yield the same outcome on every table, the same error or
/// the same result, cell for cell and in the same row order. Both end in a
/// plan value, and an outcome depends on the plan value and the table alone.
pub proof fn surfaces_agree(
    text: Seq<char>,
    built: PlanView,
    name: Seq<char>,
    schema: Seq<ColumnView>,
    rows: Seq<Seq<Value>>,
)
    requires
        interpret(text) == Ok::<PlanView, Error>(built),
    ensures
        outcome(interpret(text)->Ok_0, name, schema, rows) == outcome(built, name, schema, rows),
{
}

} // verus!
