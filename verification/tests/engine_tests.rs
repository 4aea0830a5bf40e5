use trip_analytics::engine::{execute, ResultSet};
use trip_analytics::error::Error;
use trip_analytics::group::{aggregate, KeySource, Reducer};
use trip_analytics::interpret::parse;
use trip_analytics::plan::{Aggregate, Expr, GroupKey, Measure, Plan, Projection, SortKey};
use trip_analytics::project::{evaluate_formula, project, Formula};
use trip_analytics::queries::{
    monthly_revenue, monthly_revenue_sql, tip_behavior, tip_behavior_sql,
};
use trip_analytics::sort::{row_precedes, sort, SortColumn};
use trip_analytics::table::{Column, ColumnType, LogicalTable, Partition};
use trip_analytics::value::{Op, Timestamp, Value};

fn s(text: &str) -> String {
    text.to_string()
}

fn schema() -> Vec<Column> {
    vec![
        Column { name: s("tpep_pickup_datetime"), ty: ColumnType::Timestamp },
        Column { name: s("fare_amount"), ty: ColumnType::Numeric },
        Column { name: s("tip_amount"), ty: ColumnType::Numeric },
        Column { name: s("total_amount"), ty: ColumnType::Numeric },
        Column { name: s("payment_type"), ty: ColumnType::Categorical },
    ]
}

fn at(month: u8, day: u8, hour: u8) -> Value {
    Value::Time(Timestamp { year: 2025, month, day, hour, minute: 30, second: 15 })
}

fn month(m: u8) -> Value {
    Value::Time(Timestamp { year: 2025, month: m, day: 1, hour: 0, minute: 0, second: 0 })
}

fn n(v: i64) -> Value {
    Value::whole(v)
}

fn frac(num: i64, den: i64) -> Value {
    Value::Num { num, den }
}

fn trip(when: Value, fare: i64, tip: i64, total: i64, payment: i64) -> Vec<Value> {
    vec![when, n(fare), n(tip), n(total), n(payment)]
}

fn table(partitions: Vec<Vec<Vec<Value>>>) -> LogicalTable {
    let parts = partitions
        .into_iter()
        .map(|rows| Partition::new(schema(), rows).expect("rows fit the schema"))
        .collect();
    LogicalTable::open(s("yellow"), parts).expect("partitions agree")
}

fn two_months() -> LogicalTable {
    table(vec![
        vec![trip(at(1, 5, 10), 8, 1, 10, 1), trip(at(1, 20, 23), 15, 2, 20, 2)],
        vec![trip(at(2, 3, 7), 4, 0, 5, 1)],
    ])
}

fn approx(v: &Value) -> f64 {
    match v {
        Value::Num { num, den } => *num as f64 / *den as f64,
        _ => f64::NAN,
    }
}

#[test]
fn two_partitions_give_two_months() {
    let expected = ResultSet {
        columns: vec![s("pickup_month"), s("trip_count"), s("total_revenue"), s("avg_fare")],
        rows: vec![
            vec![month(1), n(2), n(30), frac(23, 2)],
            vec![month(2), n(1), n(5), frac(4, 1)],
        ],
    };
    let t = two_months();
    assert_eq!(execute(&monthly_revenue(), &t), Ok(expected.clone()));
    let from_text = parse(monthly_revenue_sql()).unwrap();
    assert_eq!(execute(&from_text, &t), Ok(expected));
}

#[test]
fn two_partitions_give_two_payment_types() {
    let expected = ResultSet {
        columns: vec![s("payment_type"), s("trip_count"), s("avg_tip_amount"), s("tip_rate")],
        rows: vec![
            vec![n(1), n(2), frac(1, 2), frac(1, 15)],
            vec![n(2), n(1), frac(2, 1), frac(2, 20)],
        ],
    };
    let t = two_months();
    assert_eq!(execute(&tip_behavior(), &t), Ok(expected.clone()));
    let from_text = parse(tip_behavior_sql()).unwrap();
    assert_eq!(execute(&from_text, &t), Ok(expected));
}

#[test]
fn both_surfaces_give_identical_results_on_many_tables() {
    let no_columns = table(vec![]);
    assert_eq!(execute(&monthly_revenue(), &no_columns), Err(Error::InvalidPlan));
    assert_eq!(
        execute(&parse(monthly_revenue_sql()).unwrap(), &no_columns),
        Err(Error::InvalidPlan)
    );
    let tables = vec![
        table(vec![vec![]]),
        two_months(),
        table(vec![
            vec![trip(at(3, 1, 0), 5, 0, 0, 4), trip(Value::Null, 1, 1, 1, 4)],
            vec![],
            vec![
                vec![at(3, 9, 9), Value::Null, Value::Null, Value::Null, Value::Null],
                trip(at(12, 31, 23), -7, -1, -9, 2),
                trip(at(1, 1, 0), i64::MAX, i64::MAX, i64::MAX, 2),
                trip(at(1, 2, 0), i64::MAX, 3, i64::MAX, 2),
            ],
        ]),
    ];
    for t in &tables {
        let built = execute(&monthly_revenue(), t);
        let read = execute(&parse(monthly_revenue_sql()).unwrap(), t);
        assert!(built.is_ok());
        assert_eq!(built, read);
        let built = execute(&tip_behavior(), t);
        let read = execute(&parse(tip_behavior_sql()).unwrap(), t);
        assert!(built.is_ok());
        assert_eq!(built, read);
    }
}

#[test]
fn an_empty_table_has_no_groups() {
    let r = execute(&monthly_revenue(), &table(vec![vec![], vec![]])).unwrap();
    assert_eq!(r.columns.len(), 4);
    assert!(r.rows.is_empty());
}

#[test]
fn every_group_key_has_exactly_one_row() {
    let t = table(vec![
        vec![trip(at(5, 1, 0), 1, 0, 1, 3), trip(at(2, 1, 0), 1, 0, 1, 1)],
        vec![trip(at(5, 9, 0), 1, 0, 1, 3), trip(at(2, 2, 0), 1, 0, 1, 2)],
        vec![trip(at(7, 1, 0), 1, 0, 1, 1), trip(at(5, 30, 0), 1, 0, 1, 1)],
    ]);
    let months = execute(&monthly_revenue(), &t).unwrap();
    let keys: Vec<Value> = months.rows.iter().map(|r| r[0]).collect();
    assert_eq!(keys, vec![month(2), month(5), month(7)]);
    let kinds = execute(&tip_behavior(), &t).unwrap();
    let mut keys: Vec<Value> = kinds.rows.iter().map(|r| r[0]).collect();
    keys.sort_by_key(|v| approx(v) as i64);
    assert_eq!(keys, vec![n(1), n(2), n(3)]);
}

#[test]
fn counts_add_up_to_the_number_of_rows() {
    let t = table(vec![
        vec![trip(at(5, 1, 0), 1, 0, 1, 3), trip(at(2, 1, 0), 1, 0, 1, 1)],
        vec![trip(Value::Null, 1, 0, 1, 3), trip(at(2, 2, 0), 1, 0, 1, 2)],
        vec![trip(at(7, 1, 0), 1, 0, 1, 1)],
    ]);
    let r = execute(&monthly_revenue(), &t).unwrap();
    let total: i64 = r.rows.iter().map(|row| approx(&row[1]) as i64).sum();
    assert_eq!(total as u64, t.row_count());
    assert_eq!(total, 5);
}

#[test]
fn the_average_is_the_sum_over_the_count() {
    let t = table(vec![vec![
        trip(at(1, 1, 0), 10, 0, 1, 1),
        trip(at(1, 2, 0), 11, 0, 1, 1),
        trip(at(1, 3, 0), 12, 0, 1, 1),
        trip(at(1, 4, 0), 14, 0, 1, 1),
    ]]);
    let r = execute(&monthly_revenue(), &t).unwrap();
    assert_eq!(r.rows[0][3], frac(47, 4));
    assert!((approx(&r.rows[0][3]) - 11.75).abs() < 1e-12);
}

#[test]
fn undefined_cells_are_left_out_of_sums_and_averages() {
    let t = table(vec![vec![
        vec![at(1, 1, 0), Value::Null, n(1), n(10), n(1)],
        vec![at(1, 2, 0), n(6), n(1), Value::Null, n(1)],
        vec![at(2, 2, 0), Value::Null, n(1), Value::Null, n(1)],
    ]]);
    let r = execute(&monthly_revenue(), &t).unwrap();
    assert_eq!(
        r.rows,
        vec![
            vec![month(1), n(2), n(10), frac(6, 1)],
            vec![month(2), n(1), Value::Null, Value::Null],
        ]
    );
}

#[test]
fn an_undefined_key_forms_a_group_and_sorts_first() {
    let t = table(vec![vec![
        trip(at(4, 1, 0), 1, 0, 1, 1),
        trip(Value::Null, 2, 0, 2, 1),
        trip(at(3, 1, 0), 3, 0, 3, 1),
        trip(Value::Null, 4, 0, 4, 1),
    ]]);
    let r = execute(&monthly_revenue(), &t).unwrap();
    let keys: Vec<Value> = r.rows.iter().map(|row| row[0]).collect();
    assert_eq!(keys, vec![Value::Null, month(3), month(4)]);
    assert_eq!(r.rows[0][1], n(2));
}

#[test]
fn a_zero_total_gives_an_undefined_tip_rate() {
    let t = table(vec![vec![
        trip(at(1, 1, 0), 5, 1, 10, 1),
        trip(at(1, 2, 0), 5, 2, -10, 1),
        trip(at(1, 3, 0), 5, 1, 4, 2),
    ]]);
    let r = execute(&tip_behavior(), &t).unwrap();
    assert_eq!(
        r.rows,
        vec![
            vec![n(1), n(2), frac(3, 2), Value::Null],
            vec![n(2), n(1), frac(1, 1), frac(1, 4)],
        ]
    );
}

#[test]
fn negative_amounts_are_aggregated_as_they_are() {
    let t = table(vec![vec![
        trip(at(1, 1, 0), -5, -1, -10, 1),
        trip(at(1, 2, 0), 2, 0, 3, 1),
    ]]);
    let r = execute(&monthly_revenue(), &t).unwrap();
    assert_eq!(r.rows, vec![vec![month(1), n(2), n(-7), frac(-3, 2)]]);
    let r = execute(&tip_behavior(), &t).unwrap();
    assert_eq!(r.rows, vec![vec![n(1), n(2), frac(-1, 2), frac(1, 7)]]);
}

#[test]
fn a_sum_that_cannot_be_held_is_undefined() {
    let t = table(vec![vec![
        trip(at(1, 1, 0), 1, 0, i64::MAX, 1),
        trip(at(1, 2, 0), 1, 0, 1, 1),
        trip(at(2, 1, 0), 1, 0, i64::MAX, 1),
        trip(at(2, 2, 0), 1, 0, 1, 1),
        trip(at(2, 3, 0), 1, 0, -2, 1),
    ]]);
    let r = execute(&monthly_revenue(), &t).unwrap();
    assert_eq!(r.rows[0][2], Value::Null);
    assert_eq!(r.rows[1][2], n(i64::MAX - 1));
}

#[test]
fn months_ascend() {
    let t = table(vec![
        vec![trip(at(12, 1, 0), 1, 0, 1, 1), trip(at(3, 1, 0), 1, 0, 1, 1)],
        vec![trip(at(7, 1, 0), 1, 0, 1, 1), trip(at(1, 1, 0), 1, 0, 1, 1)],
    ]);
    let r = execute(&monthly_revenue(), &t).unwrap();
    let keys: Vec<Value> = r.rows.iter().map(|row| row[0]).collect();
    assert_eq!(keys, vec![month(1), month(3), month(7), month(12)]);
}

#[test]
fn trip_counts_descend_and_ties_keep_the_order_of_the_groups() {
    let t = table(vec![vec![
        trip(at(1, 1, 0), 1, 0, 1, 7),
        trip(at(1, 1, 0), 1, 0, 1, 5),
        trip(at(1, 1, 0), 1, 0, 1, 9),
        trip(at(1, 1, 0), 1, 0, 1, 9),
        trip(at(1, 1, 0), 1, 0, 1, 2),
        trip(at(1, 1, 0), 1, 0, 1, 5),
    ]]);
    let r = execute(&tip_behavior(), &t).unwrap();
    let keys: Vec<(Value, Value)> = r.rows.iter().map(|row| (row[0], row[1])).collect();
    assert_eq!(keys, vec![(n(5), n(2)), (n(9), n(2)), (n(7), n(1)), (n(2), n(1))]);
}

#[test]
fn a_plan_for_another_table_is_invalid() {
    let p = Plan::aggregate(s("green"), vec![], vec![]).unwrap();
    assert_eq!(execute(&p, &two_months()), Err(Error::InvalidPlan));
}

#[test]
fn an_unknown_column_is_invalid() {
    let key = GroupKey { column: s("dropoff"), month: false, alias: s("d") };
    let p = Plan::aggregate(s("yellow"), vec![key], vec![]).unwrap();
    assert_eq!(execute(&p, &two_months()), Err(Error::InvalidPlan));
    let sum = Aggregate { measure: Measure::Sum(s("tolls")), alias: s("t") };
    let p = Plan::aggregate(s("yellow"), vec![], vec![sum]).unwrap();
    assert_eq!(execute(&p, &two_months()), Err(Error::InvalidPlan));
    assert_eq!(
        execute(&parse("SELECT AVG(nothing) FROM yellow").unwrap(), &table(vec![])),
        Err(Error::InvalidPlan)
    );
}

#[test]
fn a_hand_made_plan_with_unknown_references_is_invalid() {
    let mut p = Plan::aggregate(s("yellow"), vec![], vec![]).unwrap();
    p.sort_keys = vec![SortKey { column: s("nothing"), ascending: true }];
    assert_eq!(execute(&p, &two_months()), Err(Error::InvalidPlan));
    let mut p = Plan::aggregate(s("yellow"), vec![], vec![]).unwrap();
    p.projections = Some(vec![Projection { expr: Expr::Column(s("x")), alias: s("x") }]);
    assert_eq!(execute(&p, &two_months()), Err(Error::InvalidPlan));
}

#[test]
fn misapplied_operations_are_type_errors() {
    let t = two_months();
    for text in [
        "SELECT SUM(tpep_pickup_datetime) FROM yellow",
        "SELECT AVG(payment_type) FROM yellow",
        "SELECT date_trunc('month', fare_amount) AS m FROM yellow GROUP BY 1",
        "SELECT date_trunc('month', payment_type) AS m FROM yellow GROUP BY m",
    ] {
        assert_eq!(execute(&parse(text).unwrap(), &t), Err(Error::TypeError), "{}", text);
    }
}

#[test]
fn arithmetic_on_a_key_that_is_not_numeric_is_a_type_error() {
    let plan = |column: &str| {
        Plan::aggregate(
            s("yellow"),
            vec![GroupKey { column: s(column), month: false, alias: s("k") }],
            vec![Aggregate { measure: Measure::CountRows, alias: s("n") }],
        )
        .unwrap()
        .select(vec![Projection {
            expr: Expr::Binary(
                Op::Mul,
                Box::new(Expr::Column(s("k"))),
                Box::new(Expr::Column(s("n"))),
            ),
            alias: s("kn"),
        }])
        .unwrap()
    };
    let t = two_months();
    assert_eq!(execute(&plan("payment_type"), &t), Err(Error::TypeError));
    assert_eq!(execute(&plan("tpep_pickup_datetime"), &t), Err(Error::TypeError));
    let r = execute(&plan("fare_amount"), &t).unwrap();
    assert_eq!(r.rows, vec![vec![n(8)], vec![n(15)], vec![n(4)]]);
}

#[test]
fn errors_are_reported_before_rows_are_read_and_in_order() {
    let empty = table(vec![]);
    assert_eq!(
        execute(&parse("SELECT SUM(fare) FROM yellow").unwrap(), &empty),
        Err(Error::InvalidPlan)
    );
    let t = two_months();
    let p = parse("SELECT nothing, SUM(payment_type) FROM yellow GROUP BY 1").unwrap();
    assert_eq!(execute(&p, &t), Err(Error::InvalidPlan));
    let p = parse("SELECT SUM(payment_type), AVG(nothing) FROM yellow").unwrap();
    assert_eq!(execute(&p, &t), Err(Error::TypeError));
}

#[test]
fn nested_arithmetic_is_evaluated_inside_out() {
    let plan = Plan::aggregate(
        s("yellow"),
        vec![],
        vec![
            Aggregate { measure: Measure::Sum(s("tip_amount")), alias: s("tips") },
            Aggregate { measure: Measure::Sum(s("fare_amount")), alias: s("fares") },
            Aggregate { measure: Measure::CountRows, alias: s("n") },
        ],
    )
    .unwrap()
    .select(vec![Projection {
        expr: Expr::Binary(
            Op::Div,
            Box::new(Expr::Binary(
                Op::Add,
                Box::new(Expr::Column(s("tips"))),
                Box::new(Expr::Column(s("fares"))),
            )),
            Box::new(Expr::Column(s("n"))),
        ),
        alias: s("mean"),
    }])
    .unwrap();
    let r = execute(&plan, &two_months()).unwrap();
    assert_eq!(r.columns, vec![s("mean")]);
    assert_eq!(r.rows, vec![vec![frac(30, 3)]]);
}

#[test]
fn aggregate_folds_all_partitions() {
    let t = two_months();
    let keys = vec![KeySource { index: 4, month: false }];
    let reducers = vec![Reducer::CountRows, Reducer::Sum(3), Reducer::Avg(1)];
    assert_eq!(
        aggregate(&t, &keys, &reducers),
        vec![
            vec![n(1), n(2), n(15), frac(12, 2)],
            vec![n(2), n(1), n(20), frac(15, 1)],
        ]
    );
    assert_eq!(aggregate(&t, &vec![], &vec![Reducer::CountRows]), vec![vec![n(3)]]);
    let by_month_and_kind = vec![KeySource { index: 0, month: true }, keys[0]];
    assert_eq!(
        aggregate(&t, &by_month_and_kind, &vec![]),
        vec![vec![month(1), n(1)], vec![month(1), n(2)], vec![month(2), n(1)]]
    );
}

#[test]
fn project_derives_cells_row_by_row() {
    let rows = vec![vec![n(6), n(3)], vec![n(1), n(0)]];
    let formulas = vec![
        Formula::Column(1),
        Formula::Binary(Op::Div, Box::new(Formula::Column(0)), Box::new(Formula::Column(1))),
    ];
    assert_eq!(
        project(&rows, &formulas),
        vec![vec![n(3), frac(6, 3)], vec![n(0), Value::Null]]
    );
    assert_eq!(evaluate_formula(&formulas[1], &rows[0]), frac(6, 3));
    assert_eq!(project(&rows, &vec![]), vec![vec![], vec![]]);
}

#[test]
fn sort_is_stable_and_puts_undefined_first() {
    let rows = vec![
        vec![n(2), n(10)],
        vec![n(1), n(11)],
        vec![Value::Null, n(12)],
        vec![n(2), n(13)],
        vec![n(1), n(14)],
        vec![Value::Null, n(15)],
    ];
    let up = vec![SortColumn { index: 0, ascending: true }];
    assert_eq!(
        sort(&rows, &up),
        vec![
            vec![Value::Null, n(12)],
            vec![Value::Null, n(15)],
            vec![n(1), n(11)],
            vec![n(1), n(14)],
            vec![n(2), n(10)],
            vec![n(2), n(13)],
        ]
    );
    let down = vec![SortColumn { index: 0, ascending: false }];
    assert_eq!(
        sort(&rows, &down),
        vec![
            vec![Value::Null, n(12)],
            vec![Value::Null, n(15)],
            vec![n(2), n(10)],
            vec![n(2), n(13)],
            vec![n(1), n(11)],
            vec![n(1), n(14)],
        ]
    );
    assert_eq!(sort(&rows, &vec![]), rows);
}

#[test]
fn sort_by_several_columns_is_lexicographic() {
    let rows = vec![
        vec![n(1), n(1)],
        vec![n(2), n(5)],
        vec![n(1), n(3)],
        vec![n(2), n(7)],
    ];
    let keys = vec![
        SortColumn { index: 0, ascending: false },
        SortColumn { index: 1, ascending: true },
    ];
    assert_eq!(
        sort(&rows, &keys),
        vec![vec![n(2), n(5)], vec![n(2), n(7)], vec![n(1), n(1)], vec![n(1), n(3)]]
    );
    assert!(row_precedes(&rows[1], &rows[0], &keys));
    assert!(!row_precedes(&rows[0], &rows[1], &keys));
    assert!(!row_precedes(&rows[0], &rows[0], &keys));
}

#[test]
fn fractions_sort_by_magnitude() {
    let rows = vec![vec![frac(1, 2)], vec![frac(1, 3)], vec![frac(2, 4)], vec![frac(-1, 9)]];
    let keys = vec![SortColumn { index: 0, ascending: true }];
    assert_eq!(
        sort(&rows, &keys),
        vec![vec![frac(-1, 9)], vec![frac(1, 3)], vec![frac(1, 2)], vec![frac(2, 4)]]
    );
}

#[test]
fn a_later_sort_key_breaks_ties_of_an_earlier_one() {
    let t = table(vec![vec![
        trip(at(1, 1, 0), 1, 0, 1, 7),
        trip(at(1, 1, 0), 1, 0, 1, 5),
        trip(at(1, 1, 0), 1, 0, 1, 9),
        trip(at(1, 1, 0), 1, 0, 1, 9),
        trip(at(1, 1, 0), 1, 0, 1, 5),
    ]]);
    let plan = Plan::aggregate(
        s("yellow"),
        vec![GroupKey { column: s("payment_type"), month: false, alias: s("kind") }],
        vec![Aggregate { measure: Measure::CountRows, alias: s("n") }],
    )
    .unwrap()
    .sort(vec![SortKey { column: s("kind"), ascending: false }])
    .unwrap()
    .sort(vec![SortKey { column: s("n"), ascending: true }])
    .unwrap();
    let r = execute(&plan, &t).unwrap();
    assert_eq!(r.rows, vec![vec![n(7), n(1)], vec![n(9), n(2)], vec![n(5), n(2)]]);
}

#[test]
fn a_plan_can_be_built_and_run_from_the_table() {
    let t = two_months();
    let plan = t
        .aggregate(
            vec![GroupKey { column: s("payment_type"), month: false, alias: s("kind") }],
            vec![Aggregate { measure: Measure::Sum(s("fare_amount")), alias: s("fares") }],
        )
        .unwrap()
        .sort(vec![SortKey { column: s("fares"), ascending: false }])
        .unwrap();
    assert_eq!(plan.table, "yellow");
    let r = plan.execute(&t).unwrap();
    assert_eq!(r.columns, vec![s("kind"), s("fares")]);
    assert_eq!(r.rows, vec![vec![n(2), n(15)], vec![n(1), n(12)]]);
    assert_eq!(plan.execute(&t), execute(&plan, &t));
}
