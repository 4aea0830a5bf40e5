use trip_analytics::agreement::{monthly_revenue_from_text, tip_behavior_from_text};
use trip_analytics::error::Error;
use trip_analytics::interpret::{parse, plan_query};
use trip_analytics::lexer::{tokenize, Token};
use trip_analytics::plan::{Aggregate, Expr, GroupKey, Measure, Plan, Projection, SortKey};
use trip_analytics::queries::{
    monthly_revenue, monthly_revenue_sql, tip_behavior, tip_behavior_sql,
};
use trip_analytics::text::{parse_query, Item, Query, Reference, Term};
use trip_analytics::value::Op;

fn s(text: &str) -> String {
    text.to_string()
}

fn word(text: &str) -> Token {
    Token::Word(s(text))
}

#[test]
fn tokenize_splits_words_numbers_and_symbols() {
    assert_eq!(
        tokenize("SELECT a_1, COUNT(*) FROM t GROUP BY 12"),
        Ok(vec![
            word("SELECT"),
            word("a_1"),
            Token::Comma,
            word("COUNT"),
            Token::LeftParen,
            Token::Star,
            Token::RightParen,
            word("FROM"),
            word("t"),
            word("GROUP"),
            word("BY"),
            Token::Number(12),
        ])
    );
}

#[test]
fn tokenize_skips_all_space() {
    assert_eq!(tokenize(""), Ok(vec![]));
    assert_eq!(tokenize(" \t\r\n "), Ok(vec![]));
    assert_eq!(tokenize("\n a\t+\r\nb "), Ok(vec![word("a"), Token::Plus, word("b")]));
}

#[test]
fn tokenize_reads_quoted_text() {
    assert_eq!(
        tokenize("f('month',x)"),
        Ok(vec![
            word("f"),
            Token::LeftParen,
            Token::Quoted(s("month")),
            Token::Comma,
            word("x"),
            Token::RightParen,
        ])
    );
    assert_eq!(tokenize("''"), Ok(vec![Token::Quoted(s(""))]));
    assert_eq!(tokenize("'a b, (c)'"), Ok(vec![Token::Quoted(s("a b, (c)"))]));
}

#[test]
fn tokenize_reads_operators() {
    assert_eq!(
        tokenize("a-b/c*d+e"),
        Ok(vec![
            word("a"),
            Token::Minus,
            word("b"),
            Token::Slash,
            word("c"),
            Token::Star,
            word("d"),
            Token::Plus,
            word("e"),
        ])
    );
}

#[test]
fn tokenize_caps_large_numbers() {
    assert_eq!(tokenize("007"), Ok(vec![Token::Number(7)]));
    assert_eq!(
        tokenize("18446744073709551615"),
        Ok(vec![Token::Number(u64::MAX)])
    );
    assert_eq!(
        tokenize("99999999999999999999999"),
        Ok(vec![Token::Number(u64::MAX)])
    );
    assert_eq!(tokenize("12ab"), Ok(vec![Token::Number(12), word("ab")]));
}

#[test]
fn tokenize_refuses_an_open_quote() {
    assert_eq!(tokenize("'month"), Err(Error::UnsupportedQuery));
    assert_eq!(tokenize("a '"), Err(Error::UnsupportedQuery));
}

#[test]
fn tokenize_refuses_other_characters() {
    assert_eq!(tokenize("a = b"), Err(Error::UnsupportedQuery));
    assert_eq!(tokenize("SELECT a;"), Err(Error::UnsupportedQuery));
    assert_eq!(tokenize("a.b"), Err(Error::UnsupportedQuery));
    assert_eq!(tokenize("\"a\""), Err(Error::UnsupportedQuery));
    assert_eq!(tokenize("caf\u{e9}"), Err(Error::UnsupportedQuery));
}

#[test]
fn parse_query_reads_every_clause() {
    let tokens = tokenize("select k, count(*) as n from t group by k, 1 order by n desc").unwrap();
    assert_eq!(
        parse_query(&tokens),
        Ok(Query {
            items: vec![
                Item { term: Term::Column(s("k")), second: None, alias: None },
                Item { term: Term::CountRows, second: None, alias: Some(s("n")) },
            ],
            table: s("t"),
            group_by: vec![Reference::Name(s("k")), Reference::Ordinal(1)],
            order_by: Some((Reference::Name(s("n")), false)),
        })
    );
}

#[test]
fn parse_query_reads_calls_and_arithmetic() {
    let tokens =
        tokenize("SELECT Date_Trunc('MONTH', at) m, SUM(a) - Avg(b) AS d FROM t").unwrap_or(vec![]);
    assert_eq!(parse_query(&tokens), Err(Error::UnsupportedQuery));
    let tokens =
        tokenize("SELECT Date_Trunc('MONTH', at) AS m, SUM(a) - Avg(b) AS d FROM t").unwrap();
    assert_eq!(
        parse_query(&tokens),
        Ok(Query {
            items: vec![
                Item { term: Term::Month(s("at")), second: None, alias: Some(s("m")) },
                Item {
                    term: Term::Sum(s("a")),
                    second: Some((Op::Sub, Term::Avg(s("b")))),
                    alias: Some(s("d")),
                },
            ],
            table: s("t"),
            group_by: vec![],
            order_by: None,
        })
    );
}

#[test]
fn order_by_defaults_to_ascending() {
    let ascending = |text: &str| parse_query(&tokenize(text).unwrap()).unwrap().order_by.unwrap().1;
    assert!(ascending("select a from t order by a"));
    assert!(ascending("select a from t order by a asc"));
    assert!(!ascending("select a from t order by 1 DESC"));
}

#[test]
fn unsupported_syntax_is_refused() {
    for text in [
        "",
        "a",
        "SELECT",
        "SELECT FROM t",
        "SELECT a",
        "SELECT a FROM",
        "SELECT a, FROM t",
        "SELECT a FROM t WHERE a",
        "SELECT a FROM t GROUP k",
        "SELECT a FROM t GROUP BY",
        "SELECT a FROM t ORDER BY",
        "SELECT a FROM t ORDER a",
        "SELECT a FROM t ORDER BY a, b",
        "SELECT a FROM t ORDER BY a ASC DESC",
        "SELECT a FROM t GROUP BY a GROUP BY a",
        "SELECT a FROM t ORDER BY a GROUP BY a",
        "SELECT a FROM t LIMIT 3",
        "SELECT * FROM t",
        "SELECT COUNT(a) FROM t",
        "SELECT COUNT(*), MAX(a) FROM t",
        "SELECT SUM(*) FROM t",
        "SELECT SUM(a + b) FROM t",
        "SELECT SUM(a) + SUM(b) + SUM(c) AS x FROM t",
        "SELECT date_trunc('day', a) FROM t",
        "SELECT date_trunc(month, a) FROM t",
        "SELECT a AS FROM t",
        "SELECT a AS select FROM t",
        "SELECT from FROM t",
        "SELECT a FROM select",
        "SELECT a b FROM t",
        "SELECT (a) FROM t",
        "SELECT 1 FROM t",
        "SELECT a FROM t GROUP BY (a)",
        "FROM t SELECT a",
    ] {
        assert_eq!(parse(text), Err(Error::UnsupportedQuery), "{}", text);
    }
}

#[test]
fn arithmetic_needs_aggregates_and_an_alias() {
    assert_eq!(parse("SELECT SUM(a) / SUM(b) FROM t"), Err(Error::UnsupportedQuery));
    assert_eq!(parse("SELECT a / SUM(b) AS r FROM t GROUP BY 1"), Err(Error::UnsupportedQuery));
    assert_eq!(parse("SELECT SUM(a) / b AS r FROM t"), Err(Error::UnsupportedQuery));
    assert!(parse("SELECT SUM(a) / SUM(b) AS r FROM t").is_ok());
}

#[test]
fn the_grouping_rule_is_enforced() {
    assert_eq!(parse("SELECT a, COUNT(*) FROM t"), Err(Error::InvalidPlan));
    assert_eq!(parse("SELECT a, b, COUNT(*) FROM t GROUP BY a"), Err(Error::InvalidPlan));
    assert_eq!(parse("SELECT a, b, COUNT(*) FROM t GROUP BY 2"), Err(Error::InvalidPlan));
    assert!(parse("SELECT a, b, COUNT(*) FROM t GROUP BY 2, a").is_ok());
}

#[test]
fn group_by_refers_to_selected_columns() {
    assert_eq!(parse("SELECT a, COUNT(*) AS n FROM t GROUP BY 0"), Err(Error::InvalidPlan));
    assert_eq!(parse("SELECT a, COUNT(*) AS n FROM t GROUP BY 3"), Err(Error::InvalidPlan));
    assert_eq!(parse("SELECT a, COUNT(*) AS n FROM t GROUP BY 2"), Err(Error::InvalidPlan));
    assert_eq!(parse("SELECT a, COUNT(*) AS n FROM t GROUP BY n"), Err(Error::InvalidPlan));
    assert_eq!(parse("SELECT a, COUNT(*) AS n FROM t GROUP BY b"), Err(Error::InvalidPlan));
    assert_eq!(parse("SELECT a, COUNT(*) AS n FROM t GROUP BY a, 1"), Err(Error::InvalidPlan));
}

#[test]
fn order_by_refers_to_output_columns() {
    assert_eq!(parse("SELECT a FROM t GROUP BY a ORDER BY b"), Err(Error::InvalidPlan));
    assert_eq!(parse("SELECT a FROM t GROUP BY a ORDER BY 2"), Err(Error::InvalidPlan));
    assert_eq!(parse("SELECT a FROM t GROUP BY a ORDER BY 0"), Err(Error::InvalidPlan));
    assert_eq!(
        parse("SELECT a, SUM(x) / SUM(y) AS r FROM t GROUP BY a ORDER BY sum_x"),
        Err(Error::InvalidPlan)
    );
}

#[test]
fn repeated_output_names_are_refused() {
    assert_eq!(parse("SELECT a, COUNT(*) AS a FROM t GROUP BY 1"), Err(Error::InvalidPlan));
    assert_eq!(
        parse("SELECT SUM(x) AS sum_y, SUM(x) / SUM(y) AS r FROM t"),
        Err(Error::InvalidPlan)
    );
}

#[test]
fn aggregates_without_alias_get_a_name() {
    let p = parse("SELECT COUNT(*), SUM(x), AVG(y) FROM t").unwrap();
    assert_eq!(p.output_columns(), vec![s("count"), s("sum_x"), s("avg_y")]);
    assert_eq!(p.projections, None);
    assert!(p.group_keys.is_empty());
}

#[test]
fn a_reordered_select_list_projects() {
    let p = parse("SELECT COUNT(*) AS n, k FROM t GROUP BY k").unwrap();
    let expected = Plan::aggregate(
        s("t"),
        vec![GroupKey { column: s("k"), month: false, alias: s("k") }],
        vec![Aggregate { measure: Measure::CountRows, alias: s("n") }],
    )
    .unwrap()
    .select(vec![
        Projection { expr: Expr::Column(s("n")), alias: s("n") },
        Projection { expr: Expr::Column(s("k")), alias: s("k") },
    ])
    .unwrap();
    assert_eq!(p, expected);
}

#[test]
fn keywords_ignore_case_and_names_keep_it() {
    let lower = parse("select Kind, count(*) as N from T group by Kind order by N desc").unwrap();
    let upper = parse("SELECT Kind, COUNT(*) AS N FROM T GROUP BY Kind ORDER BY N DESC").unwrap();
    assert_eq!(lower, upper);
    assert_eq!(lower.table, "T");
    assert_eq!(lower.output_columns(), vec![s("Kind"), s("N")]);
    assert_eq!(
        parse("select kind, count(*) as N from T group by Kind"),
        Err(Error::InvalidPlan)
    );
}

#[test]
fn monthly_revenue_text_yields_the_builder_plan() {
    assert_eq!(parse(monthly_revenue_sql()), Ok(monthly_revenue()));
}

#[test]
fn tip_behavior_text_yields_the_builder_plan() {
    assert_eq!(parse(tip_behavior_sql()), Ok(tip_behavior()));
}

#[test]
fn plan_query_composes_builder_calls() {
    let query = Query {
        items: vec![
            Item { term: Term::Column(s("k")), second: None, alias: None },
            Item {
                term: Term::Sum(s("a")),
                second: Some((Op::Div, Term::CountRows)),
                alias: Some(s("mean")),
            },
        ],
        table: s("t"),
        group_by: vec![Reference::Ordinal(1)],
        order_by: Some((Reference::Ordinal(2), false)),
    };
    let expected = Plan::aggregate(
        s("t"),
        vec![GroupKey { column: s("k"), month: false, alias: s("k") }],
        vec![
            Aggregate { measure: Measure::Sum(s("a")), alias: s("sum_a") },
            Aggregate { measure: Measure::CountRows, alias: s("count") },
        ],
    )
    .unwrap()
    .select(vec![
        Projection { expr: Expr::Column(s("k")), alias: s("k") },
        Projection {
            expr: Expr::Binary(
                Op::Div,
                Box::new(Expr::Column(s("sum_a"))),
                Box::new(Expr::Column(s("count"))),
            ),
            alias: s("mean"),
        },
    ])
    .unwrap()
    .sort(vec![SortKey { column: s("mean"), ascending: false }])
    .unwrap();
    assert_eq!(plan_query(&query), Ok(expected));
}

#[test]
fn the_plans_read_from_text_are_the_built_ones() {
    assert_eq!(monthly_revenue_from_text(), monthly_revenue());
    assert_eq!(tip_behavior_from_text(), tip_behavior());
}
