//! What holds of the two aggregations of the yearly report on every table
//! that they can be evaluated on.

use vstd::prelude::*;

use crate::engine::{
    lemma_try_all_values, outcome, resolve, resolve_expr, resolve_key, resolve_measure,
    resolve_sort_key, stage_types,
};
use crate::error::Error;
use crate::group::{
    aggregate_rows, defined_count, defined_sum, distinct_keys, key_cell, key_of,
    lemma_distinct_keys_bounded, lemma_group_members, lemma_summary_cells, members, reduce,
    KeySource, Reducer,
};
use crate::laws::{count_conservation, derived_rows, lemma_derived_rows, result_is_sorted};
use crate::names::{lemma_index_of, lemma_index_of_distinct};
use crate::plan::{stage_names, PlanView};
use crate::project::{eval, project_rows, Formula};
use crate::queries::{
    lemma_monthly_revenue_names, lemma_tip_behavior_names, monthly_revenue_plan,
    tip_behavior_plan,
};
use crate::sort::{
    cell_before, lemma_sort_keeps_sum, permutes, row_before, row_before_from, sorted_order,
    SortColumn,
};
use crate::table::{rows_fit, schema_names, ColumnView};
use crate::value::{arith, number, Op, Value};

verus! {

/// The plan can be evaluated on the rows: the rows agree with the schema, the
/// plan resolves against it, and the sizes are those of a table in memory.
pub open spec fn evaluates(plan: PlanView, schema: Seq<ColumnView>, rows: Seq<Seq<Value>>) -> bool {
    &&& schema.len() <= usize::MAX
    &&& rows.len() <= usize::MAX
    &&& rows.len() <= i64::MAX
    &&& rows_fit(rows, schema)
    &&& outcome(plan, plan.table, schema, rows) is Ok
}

/// The rows that the plan yields.
pub open spec fn result_rows(plan: PlanView, schema: Seq<ColumnView>, rows: Seq<Seq<Value>>) -> Seq<
    Seq<Value>,
> {
    outcome(plan, plan.table, schema, rows)->Ok_0.rows
}

/// The group that the row at position `k` of the result stands for: its
/// position among the groups in the order in which they are first met.
pub open spec fn group_at(plan: PlanView, schema: Seq<ColumnView>, rows: Seq<Seq<Value>>, k: int) -> int {
    let resolved = resolve(plan, schema)->Ok_0;
    let derived = derived_rows(resolved, rows);
    sorted_order(derived, resolved.order, derived.len())[k] as int
}

/// The rows of the table that belong to the group at position `k` of the
/// result.
pub open spec fn rows_at(plan: PlanView, schema: Seq<ColumnView>, rows: Seq<Seq<Value>>, k: int) -> Seq<
    Seq<Value>,
> {
    let resolved = resolve(plan, schema)->Ok_0;
    members(
        rows,
        resolved.keys,
        distinct_keys(rows, resolved.keys)[group_at(plan, schema, rows, k)],
    )
}

/// How the plan of trips and revenue by pickup month resolves: one key, the
/// month of a column; a row count, a sum and an average; no projection; the
/// first column ascending.
pub proof fn lemma_monthly_revenue_resolved(schema: Seq<ColumnView>)
    requires
        schema.len() <= usize::MAX,
        resolve(monthly_revenue_plan(), schema) is Ok,
    ensures
        ({
            let r = resolve(monthly_revenue_plan(), schema)->Ok_0;
            &&& r.keys.len() == 1
            &&& r.keys[0].month
            &&& r.keys[0].index < schema.len()
            &&& schema[r.keys[0].index as int].name == "tpep_pickup_datetime"@
            &&& r.reducers.len() == 3
            &&& r.reducers[0] == Reducer::CountRows
            &&& r.reducers[1] matches Reducer::Sum(c) && c < schema.len() && schema[c as int].name
                == "total_amount"@
            &&& r.reducers[2] matches Reducer::Avg(c) && c < schema.len() && schema[c as int].name
                == "fare_amount"@
            &&& r.formulas is None
            &&& r.order == seq![SortColumn { index: 0, ascending: true }]
        }),
{
    let plan = monthly_revenue_plan();
    let r = resolve(plan, schema)->Ok_0;
    let names = schema_names(schema);
    let key_outcomes = Seq::new(
        plan.group_keys.len(),
        |i: int| resolve_key(plan.group_keys[i], schema),
    );
    lemma_try_all_values(key_outcomes);
    assert(key_outcomes[0] == Ok::<KeySource, Error>(r.keys[0]));
    lemma_index_of(names, "tpep_pickup_datetime"@);
    let measure_outcomes = Seq::new(
        plan.aggregates.len(),
        |i: int| resolve_measure(plan.aggregates[i], schema),
    );
    lemma_try_all_values(measure_outcomes);
    assert(measure_outcomes[0] == Ok::<Reducer, Error>(r.reducers[0]));
    assert(measure_outcomes[1] == Ok::<Reducer, Error>(r.reducers[1]));
    assert(measure_outcomes[2] == Ok::<Reducer, Error>(r.reducers[2]));
    lemma_index_of(names, "total_amount"@);
    lemma_index_of(names, "fare_amount"@);
    lemma_monthly_revenue_names();
    let shown = plan.output_names();
    let sort_outcomes = Seq::new(
        plan.sort_keys.len(),
        |i: int| resolve_sort_key(plan.sort_keys[i], shown),
    );
    lemma_try_all_values(sort_outcomes);
    assert(sort_outcomes[0] == Ok::<SortColumn, Error>(r.order[0]));
    lemma_index_of_distinct(shown, 0);
    assert(r.order =~= seq![SortColumn { index: 0, ascending: true }]);
}

/// How the plan of tip behavior by payment type resolves: one key, a column
/// as it is; a row count, an average and two sums; the key, the count, the
/// average and the ratio of the two sums as output; the count descending.
pub proof fn lemma_tip_behavior_resolved(schema: Seq<ColumnView>)
    requires
        schema.len() <= usize::MAX,
        resolve(tip_behavior_plan(), schema) is Ok,
    ensures
        ({
            let r = resolve(tip_behavior_plan(), schema)->Ok_0;
            &&& r.keys.len() == 1
            &&& !r.keys[0].month
            &&& r.keys[0].index < schema.len()
            &&& schema[r.keys[0].index as int].name == "payment_type"@
            &&& r.reducers.len() == 4
            &&& r.reducers[0] == Reducer::CountRows
            &&& r.reducers[1] matches Reducer::Avg(c) && c < schema.len() && schema[c as int].name
                == "tip_amount"@
            &&& r.reducers[2] matches Reducer::Sum(c) && c < schema.len() && schema[c as int].name
                == "tip_amount"@
            &&& r.reducers[3] matches Reducer::Sum(c) && c < schema.len() && schema[c as int].name
                == "total_amount"@
            &&& r.reducers[1]->Avg_0 == r.reducers[2]->Sum_0
            &&& r.formulas == Some(
                seq![
                    Formula::Column(0),
                    Formula::Column(1),
                    Formula::Column(2),
                    Formula::Binary(
                        Op::Div,
                        Box::new(Formula::Column(3)),
                        Box::new(Formula::Column(4)),
                    ),
                ],
            )
            &&& r.order == seq![SortColumn { index: 1, ascending: false }]
        }),
{
    let plan = tip_behavior_plan();
    let r = resolve(plan, schema)->Ok_0;
    let names = schema_names(schema);
    let key_outcomes = Seq::new(
        plan.group_keys.len(),
        |i: int| resolve_key(plan.group_keys[i], schema),
    );
    lemma_try_all_values(key_outcomes);
    assert(key_outcomes[0] == Ok::<KeySource, Error>(r.keys[0]));
    lemma_index_of(names, "payment_type"@);
    let measure_outcomes = Seq::new(
        plan.aggregates.len(),
        |i: int| resolve_measure(plan.aggregates[i], schema),
    );
    lemma_try_all_values(measure_outcomes);
    assert(measure_outcomes[0] == Ok::<Reducer, Error>(r.reducers[0]));
    assert(measure_outcomes[1] == Ok::<Reducer, Error>(r.reducers[1]));
    assert(measure_outcomes[2] == Ok::<Reducer, Error>(r.reducers[2]));
    assert(measure_outcomes[3] == Ok::<Reducer, Error>(r.reducers[3]));
    lemma_index_of(names, "tip_amount"@);
    lemma_index_of(names, "total_amount"@);
    lemma_tip_behavior_names();
    let stage = stage_names(plan.group_keys, plan.aggregates);
    let types = stage_types(r.keys, plan.aggregates.len(), schema);
    let ps = plan.projections->Some_0;
    let outcomes = Seq::new(ps.len(), |i: int| resolve_expr(ps[i].expr, stage, types));
    lemma_try_all_values(outcomes);
    let fs = r.formulas->Some_0;
    lemma_index_of_distinct(stage, 0);
    lemma_index_of_distinct(stage, 1);
    lemma_index_of_distinct(stage, 2);
    lemma_index_of_distinct(stage, 3);
    lemma_index_of_distinct(stage, 4);
    reveal_with_fuel(resolve_expr, 2);
    assert(outcomes[0] == Ok::<Formula, Error>(fs[0]));
    assert(outcomes[1] == Ok::<Formula, Error>(fs[1]));
    assert(outcomes[2] == Ok::<Formula, Error>(fs[2]));
    assert(outcomes[3] == Ok::<Formula, Error>(fs[3]));
    assert(fs =~= seq![
        Formula::Column(0),
        Formula::Column(1),
        Formula::Column(2),
        Formula::Binary(Op::Div, Box::new(Formula::Column(3)), Box::new(Formula::Column(4))),
    ]);
    let shown = plan.output_names();
    let sort_outcomes = Seq::new(
        plan.sort_keys.len(),
        |i: int| resolve_sort_key(plan.sort_keys[i], shown),
    );
    lemma_try_all_values(sort_outcomes);
    assert(sort_outcomes[0] == Ok::<SortColumn, Error>(r.order[0]));
    lemma_index_of_distinct(shown, 1);
    assert(r.order =~= seq![SortColumn { index: 1, ascending: false }]);
}

/// The result holds every group once: each row of the result is the derived
/// row of its group, and every group is the group of exactly one row.
pub proof fn lemma_result_rows(plan: PlanView, schema: Seq<ColumnView>, rows: Seq<Seq<Value>>)
    requires
        evaluates(plan, schema, rows),
        plan.group_keys.len() + plan.aggregates.len() <= usize::MAX,
        plan.output_names().len() <= usize::MAX,
    ensures
        ({
            let resolved = resolve(plan, schema)->Ok_0;
            let derived = derived_rows(resolved, rows);
            let result = result_rows(plan, schema, rows);
            let groups = distinct_keys(rows, resolved.keys).len();
            &&& result.len() == groups
            &&& derived.len() == groups
            &&& permutes(sorted_order(derived, resolved.order, derived.len()), groups)
            &&& forall|k: int|
                0 <= k < groups ==> 0 <= group_at(plan, schema, rows, k) < groups
                    && #[trigger] result[k] == derived[group_at(plan, schema, rows, k)]
        }),
{
    let resolved = resolve(plan, schema)->Ok_0;
    let derived = derived_rows(resolved, rows);
    result_is_sorted(plan, plan.table, schema, rows);
    lemma_derived_rows(plan, schema, rows);
}

/// Trips and revenue by pickup month, row by row: a row of the result holds
/// the month that the pickup times of its rows fall in, the number of those
/// rows, the sum of their total amounts, and their average fare as the exact
/// fraction of the sum of the fares over their number. Sum and average are
/// taken over the defined cells and are undefined where there is none.
pub proof fn monthly_revenue_row(schema: Seq<ColumnView>, rows: Seq<Seq<Value>>, k: int)
    requires
        evaluates(monthly_revenue_plan(), schema, rows),
        0 <= k < result_rows(monthly_revenue_plan(), schema, rows).len(),
    ensures
        ({
            let plan = monthly_revenue_plan();
            let r = resolve(plan, schema)->Ok_0;
            let row = result_rows(plan, schema, rows)[k];
            let group = rows_at(plan, schema, rows, k);
            let pickup = r.keys[0].index as int;
            let total = r.reducers[1]->Sum_0 as int;
            let fare = r.reducers[2]->Avg_0 as int;
            &&& row.len() == 4
            &&& group.len() > 0
            &&& forall|i: int|
                0 <= i < group.len() ==> (#[trigger] group[i])[pickup].month_start() == row[0]
            &&& row[1] == number(group.len() as int, 1)
            &&& row[2] == if defined_count(group, total) == 0 {
                Value::Null
            } else {
                number(defined_sum(group, total), 1)
            }
            &&& row[3] == if defined_count(group, fare) == 0 {
                Value::Null
            } else {
                number(defined_sum(group, fare), defined_count(group, fare) as int)
            }
        }),
{
    let plan = monthly_revenue_plan();
    let r = resolve(plan, schema)->Ok_0;
    let g = group_at(plan, schema, rows, k);
    lemma_monthly_revenue_resolved(schema);
    lemma_result_rows(plan, schema, rows);
    lemma_summary_cells(rows, r.keys, r.reducers, g);
    lemma_group_members(rows, r.keys, g);
}

/// Trips and revenue by pickup month holds one row for every month in which a
/// trip starts, and no other row.
pub proof fn monthly_revenue_groups(schema: Seq<ColumnView>, rows: Seq<Seq<Value>>)
    requires
        evaluates(monthly_revenue_plan(), schema, rows),
    ensures
        ({
            let plan = monthly_revenue_plan();
            let r = resolve(plan, schema)->Ok_0;
            let result = result_rows(plan, schema, rows);
            let pickup = r.keys[0].index as int;
            &&& forall|i: int|
                0 <= i < rows.len() ==> exists|k: int|
                    0 <= k < result.len() && (#[trigger] result[k])[0] == (#[trigger] rows[i])[pickup].month_start()
            &&& forall|k: int, l: int|
                0 <= k < l < result.len() ==> (#[trigger] result[k])[0] != (#[trigger] result[l])[0]
        }),
{
    let plan = monthly_revenue_plan();
    let r = resolve(plan, schema)->Ok_0;
    let result = result_rows(plan, schema, rows);
    let found = distinct_keys(rows, r.keys);
    let order = sorted_order(derived_rows(r, rows), r.order, derived_rows(r, rows).len());
    lemma_monthly_revenue_resolved(schema);
    lemma_result_rows(plan, schema, rows);
    crate::group::lemma_distinct_keys_differ(rows, r.keys);
    assert forall|k: int| 0 <= k < result.len() implies (#[trigger] result[k])[0] == found[group_at(
        plan,
        schema,
        rows,
        k,
    )][0] && found[group_at(plan, schema, rows, k)].len() == 1 by {
        let g = group_at(plan, schema, rows, k);
        lemma_summary_cells(rows, r.keys, r.reducers, g);
    }
    assert forall|i: int| 0 <= i < rows.len() implies exists|k: int|
        0 <= k < result.len() && (#[trigger] result[k])[0] == (#[trigger] rows[i])[r.keys[0].index as int].month_start() by {
        crate::group::lemma_key_is_listed(rows, r.keys, i);
        lemma_distinct_keys_bounded(rows, r.keys);
        let g = choose|g: int| 0 <= g < found.len() && found[g] == key_of(rows[i], r.keys);
        assert(order.contains(g as usize));
        let k = choose|k: int| 0 <= k < order.len() && order[k] == g as usize;
        assert(group_at(plan, schema, rows, k) == g);
        assert(key_of(rows[i], r.keys)[0] == key_cell(rows[i], r.keys[0]));
        assert(result[k][0] == rows[i][r.keys[0].index as int].month_start());
    }
    assert forall|k: int, l: int| 0 <= k < l < result.len() implies (#[trigger] result[k])[0] != (
    #[trigger] result[l])[0] by {
        let g = group_at(plan, schema, rows, k);
        let h = group_at(plan, schema, rows, l);
        assert(order[k] != order[l]);
        assert(g != h);
        if g < h {
            assert(found[g] != found[h]);
        } else {
            assert(found[h] != found[g]);
        }
        assert(!(found[g] =~= found[h]));
    }
}

/// In trips and revenue by pickup month the trip counts of all rows add up
/// to the number of rows of the table.
pub proof fn monthly_revenue_counts_add_up(schema: Seq<ColumnView>, rows: Seq<Seq<Value>>)
    requires
        evaluates(monthly_revenue_plan(), schema, rows),
    ensures
        defined_sum(result_rows(monthly_revenue_plan(), schema, rows), 1) == rows.len(),
{
    let plan = monthly_revenue_plan();
    let r = resolve(plan, schema)->Ok_0;
    lemma_monthly_revenue_resolved(schema);
    lemma_distinct_keys_bounded(rows, r.keys);
    count_conservation(rows, r.keys, r.reducers, 0);
    lemma_sort_keeps_sum(aggregate_rows(rows, r.keys, r.reducers), r.order, 1);
}

/// Trips and revenue by pickup month comes with the months ascending: no row
/// of the result holds a month before the month of an earlier row. An
/// undefined month stands first.
pub proof fn monthly_revenue_months_ascend(schema: Seq<ColumnView>, rows: Seq<Seq<Value>>)
    requires
        evaluates(monthly_revenue_plan(), schema, rows),
    ensures
        forall|k: int, l: int|
            0 <= k < l < result_rows(monthly_revenue_plan(), schema, rows).len() ==> !cell_before(
                (#[trigger] result_rows(monthly_revenue_plan(), schema, rows)[l])[0],
                (#[trigger] result_rows(monthly_revenue_plan(), schema, rows)[k])[0],
                true,
            ),
{
    let plan = monthly_revenue_plan();
    let r = resolve(plan, schema)->Ok_0;
    let result = result_rows(plan, schema, rows);
    lemma_monthly_revenue_names();
    lemma_monthly_revenue_resolved(schema);
    result_is_sorted(plan, plan.table, schema, rows);
    assert forall|k: int, l: int| 0 <= k < l < result.len() implies !cell_before(
        (#[trigger] result[l])[0],
        (#[trigger] result[k])[0],
        true,
    ) by {
        assert(!row_before(result[l], result[k], r.order));
        reveal_with_fuel(row_before_from, 2);
    }
}

/// Tip behavior by payment type, row by row: a row of the result holds the
/// payment type of its rows, the number of those rows, their average tip as
/// an exact fraction, and the tip rate: the sum of their tips over the sum of
/// their total amounts. The tip rate is undefined, and nothing fails, where
/// the total amounts add up to zero or none of them is defined.
pub proof fn tip_behavior_row(schema: Seq<ColumnView>, rows: Seq<Seq<Value>>, k: int)
    requires
        evaluates(tip_behavior_plan(), schema, rows),
        0 <= k < result_rows(tip_behavior_plan(), schema, rows).len(),
    ensures
        ({
            let plan = tip_behavior_plan();
            let r = resolve(plan, schema)->Ok_0;
            let row = result_rows(plan, schema, rows)[k];
            let group = rows_at(plan, schema, rows, k);
            let payment = r.keys[0].index as int;
            let tip = r.reducers[2]->Sum_0;
            let total = r.reducers[3]->Sum_0;
            &&& r.reducers[1] == Reducer::Avg(tip)
            &&& row.len() == 4
            &&& group.len() > 0
            &&& forall|i: int| 0 <= i < group.len() ==> (#[trigger] group[i])[payment] == row[0]
            &&& row[1] == number(group.len() as int, 1)
            &&& row[2] == reduce(Reducer::Avg(tip), group)
            &&& row[3] == arith(
                Op::Div,
                reduce(Reducer::Sum(tip), group),
                reduce(Reducer::Sum(total), group),
            )
            &&& defined_count(group, total as int) == 0 || defined_sum(group, total as int) == 0
                ==> row[3] == Value::Null
        }),
{
    let plan = tip_behavior_plan();
    let r = resolve(plan, schema)->Ok_0;
    let g = group_at(plan, schema, rows, k);
    let summary = aggregate_rows(rows, r.keys, r.reducers)[g];
    lemma_tip_behavior_resolved(schema);
    lemma_result_rows(plan, schema, rows);
    lemma_summary_cells(rows, r.keys, r.reducers, g);
    lemma_group_members(rows, r.keys, g);
    lemma_tip_behavior_projected(summary);
    assert(result_rows(plan, schema, rows)[k] == project_rows(
        aggregate_rows(rows, r.keys, r.reducers),
        r.formulas->Some_0,
    )[g]);
}

/// What the projection of tip behavior by payment type makes of a summary
/// row: the key, the count and the average as they are, and the ratio of the
/// two sums.
proof fn lemma_tip_behavior_projected(summary: Seq<Value>)
    ensures
        crate::project::project_row(
            summary,
            seq![
                Formula::Column(0),
                Formula::Column(1),
                Formula::Column(2),
                Formula::Binary(Op::Div, Box::new(Formula::Column(3)), Box::new(Formula::Column(4))),
            ],
        ) == seq![summary[0], summary[1], summary[2], arith(Op::Div, summary[3], summary[4])],
{
    reveal_with_fuel(eval, 2);
    let fs = seq![
        Formula::Column(0),
        Formula::Column(1),
        Formula::Column(2),
        Formula::Binary(Op::Div, Box::new(Formula::Column(3)), Box::new(Formula::Column(4))),
    ];
    assert(crate::project::project_row(summary, fs) =~= seq![
        summary[0],
        summary[1],
        summary[2],
        arith(Op::Div, summary[3], summary[4]),
    ]);
}

/// Tip behavior by payment type holds one row for every payment type that
/// occurs, and no other row.
pub proof fn tip_behavior_groups(schema: Seq<ColumnView>, rows: Seq<Seq<Value>>)
    requires
        evaluates(tip_behavior_plan(), schema, rows),
    ensures
        ({
            let plan = tip_behavior_plan();
            let r = resolve(plan, schema)->Ok_0;
            let result = result_rows(plan, schema, rows);
            let payment = r.keys[0].index as int;
            &&& forall|i: int|
                0 <= i < rows.len() ==> exists|k: int|
                    0 <= k < result.len() && (#[trigger] result[k])[0] == (#[trigger] rows[i])[payment]
            &&& forall|k: int, l: int|
                0 <= k < l < result.len() ==> (#[trigger] result[k])[0] != (#[trigger] result[l])[0]
        }),
{
    let plan = tip_behavior_plan();
    let r = resolve(plan, schema)->Ok_0;
    let result = result_rows(plan, schema, rows);
    let found = distinct_keys(rows, r.keys);
    let order = sorted_order(derived_rows(r, rows), r.order, derived_rows(r, rows).len());
        lemma_tip_behavior_resolved(schema);
    lemma_result_rows(plan, schema, rows);
    crate::group::lemma_distinct_keys_differ(rows, r.keys);
    assert forall|k: int| 0 <= k < result.len() implies (#[trigger] result[k])[0] == found[group_at(
        plan,
        schema,
        rows,
        k,
    )][0] && found[group_at(plan, schema, rows, k)].len() == 1 by {
        let g = group_at(plan, schema, rows, k);
        lemma_summary_cells(rows, r.keys, r.reducers, g);
        lemma_tip_behavior_projected(aggregate_rows(rows, r.keys, r.reducers)[g]);
        assert(result[k] == project_rows(
            aggregate_rows(rows, r.keys, r.reducers),
            r.formulas->Some_0,
        )[g]);
    }
    assert forall|i: int| 0 <= i < rows.len() implies exists|k: int|
        0 <= k < result.len() && (#[trigger] result[k])[0] == (#[trigger] rows[i])[r.keys[0].index as int] by {
        crate::group::lemma_key_is_listed(rows, r.keys, i);
        lemma_distinct_keys_bounded(rows, r.keys);
        let g = choose|g: int| 0 <= g < found.len() && found[g] == key_of(rows[i], r.keys);
        assert(order.contains(g as usize));
        let k = choose|k: int| 0 <= k < order.len() && order[k] == g as usize;
        assert(group_at(plan, schema, rows, k) == g);
        assert(key_of(rows[i], r.keys)[0] == key_cell(rows[i], r.keys[0]));
        assert(result[k][0] == rows[i][r.keys[0].index as int]);
    }
    assert forall|k: int, l: int| 0 <= k < l < result.len() implies (#[trigger] result[k])[0] != (
    #[trigger] result[l])[0] by {
        let g = group_at(plan, schema, rows, k);
        let h = group_at(plan, schema, rows, l);
        assert(order[k] != order[l]);
        assert(g != h);
        if g < h {
            assert(found[g] != found[h]);
        } else {
            assert(found[h] != found[g]);
        }
        assert(!(found[g] =~= found[h]));
    }
}

/// Tip behavior by payment type comes with the trip counts descending: no row
/// of the result holds a count above the count of an earlier row.
pub proof fn tip_behavior_counts_descend(schema: Seq<ColumnView>, rows: Seq<Seq<Value>>)
    requires
        evaluates(tip_behavior_plan(), schema, rows),
    ensures
        forall|k: int, l: int|
            0 <= k < l < result_rows(tip_behavior_plan(), schema, rows).len() ==> !cell_before(
                (#[trigger] result_rows(tip_behavior_plan(), schema, rows)[l])[1],
                (#[trigger] result_rows(tip_behavior_plan(), schema, rows)[k])[1],
                false,
            ),
{
    let plan = tip_behavior_plan();
    let r = resolve(plan, schema)->Ok_0;
    let result = result_rows(plan, schema, rows);
    lemma_tip_behavior_names();
    lemma_tip_behavior_resolved(schema);
    result_is_sorted(plan, plan.table, schema, rows);
    assert forall|k: int, l: int| 0 <= k < l < result.len() implies !cell_before(
        (#[trigger] result[l])[1],
        (#[trigger] result[k])[1],
        false,
    ) by {
        assert(!row_before(result[l], result[k], r.order));
        reveal_with_fuel(row_before_from, 2);
    }
}

/// In both aggregations rows that the sort key does not tell apart stand in
/// the order in which their groups are first met in the table.
pub proof fn ties_keep_group_order(plan: PlanView, schema: Seq<ColumnView>, rows: Seq<Seq<Value>>)
    requires
        plan == monthly_revenue_plan() || plan == tip_behavior_plan(),
        evaluates(plan, schema, rows),
    ensures
        forall|k: int, l: int|
            0 <= k < l < result_rows(plan, schema, rows).len() && !row_before(
                #[trigger] result_rows(plan, schema, rows)[k],
                #[trigger] result_rows(plan, schema, rows)[l],
                resolve(plan, schema)->Ok_0.order,
            ) ==> group_at(plan, schema, rows, k) < group_at(plan, schema, rows, l),
{
    lemma_monthly_revenue_names();
    lemma_tip_behavior_names();
    result_is_sorted(plan, plan.table, schema, rows);
}

} // verus!
