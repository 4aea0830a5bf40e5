use trip_analytics::value::{evaluate, make_number, Op, Timestamp, Value};

fn time(year: i32, month: u8, day: u8, hour: u8, minute: u8, second: u8) -> Timestamp {
    Timestamp { year, month, day, hour, minute, second }
}

fn frac(num: i64, den: i64) -> Value {
    Value::Num { num, den }
}

#[test]
fn truncation_zeroes_day_and_time() {
    let t = time(2025, 3, 17, 13, 45, 59);
    assert_eq!(t.truncate_to_month(), time(2025, 3, 1, 0, 0, 0));
    assert_eq!(
        Value::Time(t).truncate_to_month(),
        Value::Time(time(2025, 3, 1, 0, 0, 0))
    );
    assert_eq!(Value::Null.truncate_to_month(), Value::Null);
    assert_eq!(Value::whole(3).truncate_to_month(), Value::Null);
}

#[test]
fn truncation_is_idempotent() {
    let t = time(-44, 12, 31, 23, 59, 59).truncate_to_month();
    assert_eq!(t.truncate_to_month(), t);
}

#[test]
fn timestamps_are_ordered_field_by_field() {
    let a = time(2024, 12, 31, 23, 59, 59);
    let b = time(2025, 1, 1, 0, 0, 0);
    assert!(a.ordinal_value() < b.ordinal_value());
    assert!(Value::Time(a).is_before(&Value::Time(b)));
    assert!(!Value::Time(b).is_before(&Value::Time(a)));
    assert!(!Value::Time(a).is_before(&Value::Time(a)));
    let c = time(2025, 1, 1, 0, 0, 1);
    assert!(Value::Time(b).is_before(&Value::Time(c)));
    assert!(time(-1, 1, 1, 0, 0, 0).ordinal_value() < time(0, 1, 1, 0, 0, 0).ordinal_value());
}

#[test]
fn numbers_are_ordered_by_magnitude() {
    assert!(frac(1, 3).is_before(&frac(1, 2)));
    assert!(!frac(1, 2).is_before(&frac(2, 4)));
    assert!(!frac(2, 4).is_before(&frac(1, 2)));
    assert!(frac(-1, 2).is_before(&frac(0, 7)));
    assert!(Value::whole(i64::MIN).is_before(&Value::whole(i64::MAX)));
    assert!(frac(i64::MAX - 1, i64::MAX).is_before(&frac(1, 1)));
}

#[test]
fn kinds_are_ordered_by_rank() {
    let t = Value::Time(time(1, 1, 1, 0, 0, 0));
    assert!(Value::Null.is_before(&Value::whole(i64::MIN)));
    assert!(Value::Null.is_before(&t));
    assert!(Value::whole(i64::MAX).is_before(&t));
    assert!(!t.is_before(&Value::Null));
    assert!(!Value::Null.is_before(&Value::Null));
}

#[test]
fn whole_numbers_have_denominator_one() {
    assert_eq!(Value::whole(7), frac(7, 1));
    assert!(Value::Null.is_null());
    assert!(!Value::whole(0).is_null());
}

#[test]
fn arithmetic_is_exact() {
    assert_eq!(evaluate(Op::Add, &frac(1, 2), &frac(1, 3)), frac(5, 6));
    assert_eq!(evaluate(Op::Sub, &frac(1, 2), &frac(1, 3)), frac(1, 6));
    assert_eq!(evaluate(Op::Mul, &frac(2, 3), &frac(3, 4)), frac(6, 12));
    assert_eq!(evaluate(Op::Div, &frac(2, 3), &frac(3, 4)), frac(8, 9));
    assert_eq!(evaluate(Op::Add, &Value::whole(2), &Value::whole(3)), frac(5, 1));
    assert_eq!(evaluate(Op::Div, &Value::whole(3), &Value::whole(35)), frac(3, 35));
}

#[test]
fn division_keeps_the_denominator_positive() {
    assert_eq!(evaluate(Op::Div, &Value::whole(3), &Value::whole(-4)), frac(-3, 4));
    assert_eq!(evaluate(Op::Div, &Value::whole(-3), &Value::whole(-4)), frac(3, 4));
}

#[test]
fn division_by_zero_is_undefined() {
    assert_eq!(evaluate(Op::Div, &Value::whole(3), &Value::whole(0)), Value::Null);
    assert_eq!(evaluate(Op::Div, &Value::whole(0), &Value::whole(0)), Value::Null);
    assert_eq!(evaluate(Op::Div, &frac(3, 7), &frac(0, 5)), Value::Null);
}

#[test]
fn arithmetic_on_undefined_is_undefined() {
    let t = Value::Time(time(2025, 1, 1, 0, 0, 0));
    for op in [Op::Add, Op::Sub, Op::Mul, Op::Div] {
        assert_eq!(evaluate(op, &Value::Null, &Value::whole(1)), Value::Null);
        assert_eq!(evaluate(op, &Value::whole(1), &Value::Null), Value::Null);
        assert_eq!(evaluate(op, &t, &Value::whole(1)), Value::Null);
        assert_eq!(evaluate(op, &frac(1, 0), &Value::whole(1)), Value::Null);
        assert_eq!(evaluate(op, &Value::whole(1), &frac(1, -1)), Value::Null);
    }
}

#[test]
fn results_that_cannot_be_held_are_undefined() {
    let big = Value::whole(i64::MAX);
    assert_eq!(evaluate(Op::Add, &big, &Value::whole(1)), Value::Null);
    assert_eq!(evaluate(Op::Mul, &big, &Value::whole(2)), Value::Null);
    assert_eq!(evaluate(Op::Sub, &Value::whole(i64::MIN), &Value::whole(1)), Value::Null);
    assert_eq!(evaluate(Op::Add, &big, &Value::whole(0)), big);
    assert_eq!(
        evaluate(Op::Div, &Value::whole(1), &Value::whole(i64::MIN)),
        Value::Null
    );
    assert_eq!(
        evaluate(Op::Div, &Value::whole(1), &Value::whole(i64::MIN + 1)),
        frac(-1, i64::MAX)
    );
}

#[test]
fn make_number_checks_both_parts() {
    assert_eq!(make_number(5, 2), frac(5, 2));
    assert_eq!(make_number(i64::MAX as i128 + 1, 1), Value::Null);
    assert_eq!(make_number(1, i64::MAX as i128 + 1), Value::Null);
    assert_eq!(make_number(i64::MIN as i128, 1), frac(i64::MIN, 1));
}
