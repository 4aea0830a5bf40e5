//! The two aggregations of the yearly report, each as a chain of builder
//! calls and as a textual query.

use vstd::prelude::*;
use vstd::string::*;

use crate::names::{distinct, lemma_index_of_some};
use crate::plan::{
    stage_names, views, Aggregate, AggregateView, Expr, ExprView, GroupKey, GroupKeyView, Measure,
    MeasureView, Plan, PlanView, Projection, ProjectionView, SortKey, SortKeyView,
};
use crate::value::Op;

verus! {

/// Trips and revenue by pickup month, as a textual query.
pub open spec fn monthly_revenue_text() -> Seq<char> {
    "
        SELECT
            date_trunc('month', tpep_pickup_datetime) AS pickup_month,
            COUNT(*) AS trip_count,
            SUM(total_amount) AS total_revenue,
            AVG(fare_amount) AS avg_fare
        FROM yellow
        GROUP BY 1
        ORDER BY 1 ASC
    "@
}

/// Tip behavior by payment type, as a textual query.
pub open spec fn tip_behavior_text() -> Seq<char> {
    "
        SELECT
            payment_type,
            COUNT(*) AS trip_count,
            AVG(tip_amount) AS avg_tip_amount,
            SUM(tip_amount) / SUM(total_amount) AS tip_rate
        FROM yellow
        GROUP BY 1
        ORDER BY trip_count DESC
    "@
}

/// The text of trips and revenue by pickup month.
pub fn monthly_revenue_sql() -> (text: &'static str)
    ensures
        text@ == monthly_revenue_text(),
{
    "
        SELECT
            date_trunc('month', tpep_pickup_datetime) AS pickup_month,
            COUNT(*) AS trip_count,
            SUM(total_amount) AS total_revenue,
            AVG(fare_amount) AS avg_fare
        FROM yellow
        GROUP BY 1
        ORDER BY 1 ASC
    "
}

/// The text of tip behavior by payment type.
pub fn tip_behavior_sql() -> (text: &'static str)
    ensures
        text@ == tip_behavior_text(),
{
    "
        SELECT
            payment_type,
            COUNT(*) AS trip_count,
            AVG(tip_amount) AS avg_tip_amount,
            SUM(tip_amount) / SUM(total_amount) AS tip_rate
        FROM yellow
        GROUP BY 1
        ORDER BY trip_count DESC
    "
}

/// Trips and revenue by pickup month: per calendar month of the pickup time,
/// the number of trips, the sum of the total amounts and the average fare,
/// the earliest month first.
pub open spec fn monthly_revenue_plan() -> PlanView {
    PlanView {
        table: "yellow"@,
        group_keys: seq![
            GroupKeyView { column: "tpep_pickup_datetime"@, month: true, alias: "pickup_month"@ },
        ],
        aggregates: seq![
            AggregateView { measure: MeasureView::CountRows, alias: "trip_count"@ },
            AggregateView { measure: MeasureView::Sum("total_amount"@), alias: "total_revenue"@ },
            AggregateView { measure: MeasureView::Avg("fare_amount"@), alias: "avg_fare"@ },
        ],
        projections: None,
        sort_keys: seq![SortKeyView { column: "pickup_month"@, ascending: true }],
    }
}

/// Tip behavior by payment type: per payment type, the number of trips, the
/// average tip and the share of the tips in the total amounts, the payment
/// type with the most trips first.
pub open spec fn tip_behavior_plan() -> PlanView {
    PlanView {
        table: "yellow"@,
        group_keys: seq![
            GroupKeyView { column: "payment_type"@, month: false, alias: "payment_type"@ },
        ],
        aggregates: seq![
            AggregateView { measure: MeasureView::CountRows, alias: "trip_count"@ },
            AggregateView { measure: MeasureView::Avg("tip_amount"@), alias: "avg_tip_amount"@ },
            AggregateView { measure: MeasureView::Sum("tip_amount"@), alias: "sum_tip_amount"@ },
            AggregateView {
                measure: MeasureView::Sum("total_amount"@),
                alias: "sum_total_amount"@,
            },
        ],
        projections: Some(
            seq![
                ProjectionView {
                    expr: ExprView::Column("payment_type"@),
                    alias: "payment_type"@,
                },
                ProjectionView { expr: ExprView::Column("trip_count"@), alias: "trip_count"@ },
                ProjectionView {
                    expr: ExprView::Column("avg_tip_amount"@),
                    alias: "avg_tip_amount"@,
                },
                ProjectionView {
                    expr: ExprView::Binary(
                        Op::Div,
                        Box::new(ExprView::Column("sum_tip_amount"@)),
                        Box::new(ExprView::Column("sum_total_amount"@)),
                    ),
                    alias: "tip_rate"@,
                },
            ],
        ),
        sort_keys: seq![SortKeyView { column: "trip_count"@, ascending: false }],
    }
}

fn name(text: &str) -> (r: String)
    ensures
        r@ == text@,
{
    String::from_str(text)
}

fn column(text: &str) -> (r: Projection)
    ensures
        r@ == (ProjectionView { expr: ExprView::Column(text@), alias: text@ }),
{
    Projection { expr: Expr::Column(name(text)), alias: name(text) }
}

/// Builds the plan of trips and revenue by pickup month.
pub fn monthly_revenue() -> (plan: Plan)
    ensures
        plan@ == monthly_revenue_plan(),
        plan@.wf(),
{
    let mut keys: Vec<GroupKey> = Vec::new();
    keys.push(
        GroupKey {
            column: name("tpep_pickup_datetime"),
            month: true,
            alias: name("pickup_month"),
        },
    );
    let mut aggregates: Vec<Aggregate> = Vec::new();
    aggregates.push(Aggregate { measure: Measure::CountRows, alias: name("trip_count") });
    aggregates.push(
        Aggregate { measure: Measure::Sum(name("total_amount")), alias: name("total_revenue") },
    );
    aggregates.push(Aggregate { measure: Measure::Avg(name("fare_amount")), alias: name("avg_fare") });
    let mut order: Vec<SortKey> = Vec::new();
    order.push(SortKey { column: name("pickup_month"), ascending: true });
    proof {
        let expected = monthly_revenue_plan();
        assert(views(keys@) =~= expected.group_keys);
        assert(views(aggregates@) =~= expected.aggregates);
        assert(views(order@) =~= expected.sort_keys);
        reveal_strlit("pickup_month");
        reveal_strlit("trip_count");
        reveal_strlit("total_revenue");
        reveal_strlit("avg_fare");
        let names = stage_names(expected.group_keys, expected.aggregates);
        assert(names[0] == "pickup_month"@ && names[1] == "trip_count"@ && names[2]
            == "total_revenue"@ && names[3] == "avg_fare"@);
        assert(names.len() == 4);
        assert(names[0].len() == 12 && names[1].len() == 10 && names[2].len() == 13
            && names[3].len() == 8);
        assert(distinct(names));
        lemma_index_of_some(names, "pickup_month"@, 0);
        assert(expected.sort_keys + Seq::<SortKeyView>::empty() =~= expected.sort_keys);
    }
    let base = Plan::aggregate(name("yellow"), keys, aggregates).unwrap();
    base.sort(order).unwrap()
}

/// Builds the plan of tip behavior by payment type.
pub fn tip_behavior() -> (plan: Plan)
    ensures
        plan@ == tip_behavior_plan(),
        plan@.wf(),
{
    let mut keys: Vec<GroupKey> = Vec::new();
    keys.push(
        GroupKey { column: name("payment_type"), month: false, alias: name("payment_type") },
    );
    let mut aggregates: Vec<Aggregate> = Vec::new();
    aggregates.push(Aggregate { measure: Measure::CountRows, alias: name("trip_count") });
    aggregates.push(
        Aggregate { measure: Measure::Avg(name("tip_amount")), alias: name("avg_tip_amount") },
    );
    aggregates.push(
        Aggregate { measure: Measure::Sum(name("tip_amount")), alias: name("sum_tip_amount") },
    );
    aggregates.push(
        Aggregate { measure: Measure::Sum(name("total_amount")), alias: name("sum_total_amount") },
    );
    let mut projections: Vec<Projection> = Vec::new();
    projections.push(column("payment_type"));
    projections.push(column("trip_count"));
    projections.push(column("avg_tip_amount"));
    projections.push(
        Projection {
            expr: Expr::Binary(
                Op::Div,
                Box::new(Expr::Column(name("sum_tip_amount"))),
                Box::new(Expr::Column(name("sum_total_amount"))),
            ),
            alias: name("tip_rate"),
        },
    );
    let mut order: Vec<SortKey> = Vec::new();
    order.push(SortKey { column: name("trip_count"), ascending: false });
    proof {
        let expected = tip_behavior_plan();
        reveal_with_fuel(crate::plan::expr_view, 2);
        reveal_with_fuel(crate::plan::refs_known, 2);
        assert(views(keys@) =~= expected.group_keys);
        assert(views(aggregates@) =~= expected.aggregates);
        assert(views(projections@) =~= expected.projections->Some_0);
        assert(views(order@) =~= expected.sort_keys);
        reveal_strlit("payment_type");
        reveal_strlit("trip_count");
        reveal_strlit("avg_tip_amount");
        reveal_strlit("sum_tip_amount");
        reveal_strlit("sum_total_amount");
        reveal_strlit("tip_rate");
        let names = stage_names(expected.group_keys, expected.aggregates);
        assert(names[0] == "payment_type"@ && names[1] == "trip_count"@ && names[2]
            == "avg_tip_amount"@ && names[3] == "sum_tip_amount"@ && names[4]
            == "sum_total_amount"@);
        assert(names.len() == 5);
        assert(names[0].len() == 12 && names[1].len() == 10 && names[2].len() == 14
            && names[3].len() == 14 && names[4].len() == 16);
        assert(names[2][0] != names[3][0]);
        assert(distinct(names));
        let aliases = crate::plan::projection_aliases(expected.projections->Some_0);
        assert(aliases[0] == "payment_type"@ && aliases[1] == "trip_count"@ && aliases[2]
            == "avg_tip_amount"@ && aliases[3] == "tip_rate"@);
        assert(aliases.len() == 4);
        assert(aliases[0].len() == 12 && aliases[1].len() == 10 && aliases[2].len() == 14
            && aliases[3].len() == 8);
        assert(distinct(aliases));
        lemma_index_of_some(names, "payment_type"@, 0);
        lemma_index_of_some(names, "trip_count"@, 1);
        lemma_index_of_some(names, "avg_tip_amount"@, 2);
        lemma_index_of_some(names, "sum_tip_amount"@, 3);
        lemma_index_of_some(names, "sum_total_amount"@, 4);
        lemma_index_of_some(aliases, "trip_count"@, 1);
        assert(expected.sort_keys + Seq::<SortKeyView>::empty() =~= expected.sort_keys);
    }
    let base = Plan::aggregate(name("yellow"), keys, aggregates).unwrap();
    let shaped = base.select(projections).unwrap();
    shaped.sort(order).unwrap()
}

/// The columns of trips and revenue by pickup month have distinct names.
pub proof fn lemma_monthly_revenue_names()
    ensures
        stage_names(monthly_revenue_plan().group_keys, monthly_revenue_plan().aggregates) == seq![
            "pickup_month"@,
            "trip_count"@,
            "total_revenue"@,
            "avg_fare"@,
        ],
        distinct(stage_names(monthly_revenue_plan().group_keys, monthly_revenue_plan().aggregates)),
{
    let plan = monthly_revenue_plan();
    let names = stage_names(plan.group_keys, plan.aggregates);
    reveal_strlit("pickup_month");
    reveal_strlit("trip_count");
    reveal_strlit("total_revenue");
    reveal_strlit("avg_fare");
    assert(names =~= seq!["pickup_month"@, "trip_count"@, "total_revenue"@, "avg_fare"@]);
    assert(names[0].len() == 12 && names[1].len() == 10 && names[2].len() == 13 && names[3].len()
        == 8);
}

/// The columns of tip behavior by payment type have distinct names, before
/// and behind the projection.
pub proof fn lemma_tip_behavior_names()
    ensures
        stage_names(tip_behavior_plan().group_keys, tip_behavior_plan().aggregates) == seq![
            "payment_type"@,
            "trip_count"@,
            "avg_tip_amount"@,
            "sum_tip_amount"@,
            "sum_total_amount"@,
        ],
        distinct(stage_names(tip_behavior_plan().group_keys, tip_behavior_plan().aggregates)),
        tip_behavior_plan().output_names() == seq![
            "payment_type"@,
            "trip_count"@,
            "avg_tip_amount"@,
            "tip_rate"@,
        ],
        distinct(tip_behavior_plan().output_names()),
{
    let plan = tip_behavior_plan();
    let names = stage_names(plan.group_keys, plan.aggregates);
    let shown = plan.output_names();
    reveal_strlit("payment_type");
    reveal_strlit("trip_count");
    reveal_strlit("avg_tip_amount");
    reveal_strlit("sum_tip_amount");
    reveal_strlit("sum_total_amount");
    reveal_strlit("tip_rate");
    assert(names =~= seq![
        "payment_type"@,
        "trip_count"@,
        "avg_tip_amount"@,
        "sum_tip_amount"@,
        "sum_total_amount"@,
    ]);
    assert(names[0].len() == 12 && names[1].len() == 10 && names[2].len() == 14 && names[3].len()
        == 14 && names[4].len() == 16);
    assert(names[2][0] != names[3][0]);
    assert(shown =~= seq!["payment_type"@, "trip_count"@, "avg_tip_amount"@, "tip_rate"@]);
    assert(shown[0].len() == 12 && shown[1].len() == 10 && shown[2].len() == 14 && shown[3].len()
        == 8);
}

} // verus!
