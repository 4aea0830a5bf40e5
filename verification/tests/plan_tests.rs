use trip_analytics::error::Error;
use trip_analytics::names::{all_distinct, position};
use trip_analytics::plan::{Aggregate, Expr, GroupKey, Measure, Plan, Projection, SortKey};
use trip_analytics::queries::{monthly_revenue, tip_behavior};
use trip_analytics::value::Op;

fn s(text: &str) -> String {
    text.to_string()
}

fn key(column: &str) -> GroupKey {
    GroupKey { column: s(column), month: false, alias: s(column) }
}

fn count(alias: &str) -> Aggregate {
    Aggregate { measure: Measure::CountRows, alias: s(alias) }
}

fn sum(column: &str, alias: &str) -> Aggregate {
    Aggregate { measure: Measure::Sum(s(column)), alias: s(alias) }
}

fn pick(name: &str) -> Projection {
    Projection { expr: Expr::Column(s(name)), alias: s(name) }
}

fn ratio(a: &str, b: &str, alias: &str) -> Projection {
    Projection {
        expr: Expr::Binary(
            Op::Div,
            Box::new(Expr::Column(s(a))),
            Box::new(Expr::Column(s(b))),
        ),
        alias: s(alias),
    }
}

fn base() -> Plan {
    Plan::aggregate(s("t"), vec![key("k")], vec![count("n"), sum("x", "sx")]).unwrap()
}

#[test]
fn position_finds_the_first_occurrence() {
    let names = vec![s("a"), s("b"), s("a")];
    assert_eq!(position(&names, &s("a")), Some(0));
    assert_eq!(position(&names, &s("b")), Some(1));
    assert_eq!(position(&names, &s("c")), None);
    assert_eq!(position(&vec![], &s("a")), None);
}

#[test]
fn all_distinct_detects_a_repeated_name() {
    assert!(all_distinct(&vec![]));
    assert!(all_distinct(&vec![s("a"), s("b"), s("c")]));
    assert!(!all_distinct(&vec![s("a"), s("b"), s("a")]));
    assert!(!all_distinct(&vec![s("a"), s("a")]));
}

#[test]
fn aggregate_starts_a_plan() {
    let p = base();
    assert_eq!(p.table, "t");
    assert_eq!(p.group_keys, vec![key("k")]);
    assert_eq!(p.aggregates, vec![count("n"), sum("x", "sx")]);
    assert_eq!(p.projections, None);
    assert!(p.sort_keys.is_empty());
    assert_eq!(p.stage_columns(), vec![s("k"), s("n"), s("sx")]);
    assert_eq!(p.output_columns(), vec![s("k"), s("n"), s("sx")]);
}

#[test]
fn aggregate_refuses_two_columns_of_one_name() {
    assert_eq!(
        Plan::aggregate(s("t"), vec![key("k")], vec![count("k")]),
        Err(Error::InvalidPlan)
    );
    assert_eq!(
        Plan::aggregate(s("t"), vec![], vec![count("n"), sum("x", "n")]),
        Err(Error::InvalidPlan)
    );
    assert_eq!(
        Plan::aggregate(s("t"), vec![key("k"), key("k")], vec![]),
        Err(Error::InvalidPlan)
    );
}

#[test]
fn select_sets_the_output_columns() {
    let p = base().select(vec![pick("n"), ratio("sx", "n", "mean")]).unwrap();
    assert_eq!(p.output_columns(), vec![s("n"), s("mean")]);
    assert_eq!(p.stage_columns(), vec![s("k"), s("n"), s("sx")]);
    assert_eq!(p.group_keys, vec![key("k")]);
}

#[test]
fn select_refuses_an_unknown_column() {
    assert_eq!(base().select(vec![pick("nope")]), Err(Error::InvalidPlan));
    assert_eq!(
        base().select(vec![ratio("sx", "x", "r")]),
        Err(Error::InvalidPlan)
    );
}

#[test]
fn select_refuses_repeated_output_names() {
    assert_eq!(
        base().select(vec![pick("n"), ratio("sx", "n", "n")]),
        Err(Error::InvalidPlan)
    );
}

#[test]
fn select_comes_once_and_before_sort() {
    let projected = base().select(vec![pick("n")]).unwrap();
    assert_eq!(projected.select(vec![pick("n")]), Err(Error::InvalidPlan));
    let sorted = base().sort(vec![SortKey { column: s("n"), ascending: true }]).unwrap();
    assert_eq!(sorted.select(vec![pick("n")]), Err(Error::InvalidPlan));
}

#[test]
fn sort_names_output_columns() {
    let p = base().sort(vec![SortKey { column: s("sx"), ascending: false }]).unwrap();
    assert_eq!(p.sort_keys, vec![SortKey { column: s("sx"), ascending: false }]);
    assert_eq!(
        base().sort(vec![SortKey { column: s("x"), ascending: true }]),
        Err(Error::InvalidPlan)
    );
    let projected = base().select(vec![pick("n")]).unwrap();
    assert_eq!(
        projected.sort(vec![SortKey { column: s("sx"), ascending: true }]),
        Err(Error::InvalidPlan)
    );
}

#[test]
fn a_later_sort_takes_precedence() {
    let first = SortKey { column: s("n"), ascending: true };
    let second = SortKey { column: s("k"), ascending: false };
    let p = base().sort(vec![first.clone()]).unwrap().sort(vec![second.clone()]).unwrap();
    assert_eq!(p.sort_keys, vec![second, first]);
}

#[test]
fn an_empty_sort_changes_nothing() {
    let p = base().sort(vec![]).unwrap();
    assert_eq!(p, base());
}

#[test]
fn monthly_revenue_groups_by_month() {
    let p = monthly_revenue();
    assert_eq!(p.table, "yellow");
    assert_eq!(
        p.group_keys,
        vec![GroupKey { column: s("tpep_pickup_datetime"), month: true, alias: s("pickup_month") }]
    );
    assert_eq!(
        p.output_columns(),
        vec![s("pickup_month"), s("trip_count"), s("total_revenue"), s("avg_fare")]
    );
    assert_eq!(p.projections, None);
    assert_eq!(p.sort_keys, vec![SortKey { column: s("pickup_month"), ascending: true }]);
}

#[test]
fn tip_behavior_derives_the_tip_rate() {
    let p = tip_behavior();
    assert_eq!(
        p.stage_columns(),
        vec![
            s("payment_type"),
            s("trip_count"),
            s("avg_tip_amount"),
            s("sum_tip_amount"),
            s("sum_total_amount"),
        ]
    );
    assert_eq!(
        p.output_columns(),
        vec![s("payment_type"), s("trip_count"), s("avg_tip_amount"), s("tip_rate")]
    );
    let projections = p.projections.expect("the plan projects");
    assert_eq!(projections[3], ratio("sum_tip_amount", "sum_total_amount", "tip_rate"));
    assert_eq!(p.sort_keys, vec![SortKey { column: s("trip_count"), ascending: false }]);
}
