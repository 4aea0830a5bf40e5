//! Cell values: timestamps, exact rational numbers and the undefined value.

use vstd::prelude::*;

verus! {

/// A calendar date and time of day, to the second.
#[derive(Clone, Copy, Debug, PartialEq, Eq, Structural)]
pub struct Timestamp {
    pub year: i32,
    pub month: u8,
    pub day: u8,
    pub hour: u8,
    pub minute: u8,
    pub second: u8,
}

/// One of the four arithmetic operators of a derived column.
#[derive(Clone, Copy, Debug, PartialEq, Eq, Structural)]
pub enum Op {
    Add,
    Sub,
    Mul,
    Div,
}

/// The content of one cell.
///
/// A number is the exact fraction `num / den`; an integer has `den == 1`.
#[derive(Clone, Copy, Debug, PartialEq, Eq, Structural)]
pub enum Value {
    /// Undefined: a missing input, or a result that does not exist.
    Null,
    Num { num: i64, den: i64 },
    Time(Timestamp),
}

impl Timestamp {
    /// Position of the timestamp on the time line: an earlier timestamp has a
    /// smaller ordinal, field by field from the year down.
    pub open spec fn ordinal(self) -> int {
        ((((self.year * 256 + self.month) * 256 + self.day) * 256 + self.hour) * 256
            + self.minute) * 256 + self.second
    }

    /// First instant of the calendar month of the timestamp: the day becomes
    /// the first and the time of day becomes midnight.
    pub open spec fn month_start(self) -> Timestamp {
        Timestamp { year: self.year, month: self.month, day: 1, hour: 0, minute: 0, second: 0 }
    }

    /// Computes [`Timestamp::ordinal`].
    pub fn ordinal_value(&self) -> (r: i128)
        ensures
            r == self.ordinal(),
    {
        let y: i128 = self.year as i128;
        let days: i128 = (y * 256 + self.month as i128) * 256 + self.day as i128;
        let minutes: i128 = (days * 256 + self.hour as i128) * 256 + self.minute as i128;
        minutes * 256 + self.second as i128
    }

    /// Truncates the timestamp to its calendar month.
    pub fn truncate_to_month(&self) -> (r: Timestamp)
        ensures
            r == self.month_start(),
    {
        Timestamp { year: self.year, month: self.month, day: 1, hour: 0, minute: 0, second: 0 }
    }
}

/// Whether `x` can be held in a cell.
pub open spec fn fits(x: int) -> bool {
    i64::MIN <= x <= i64::MAX
}

/// The number `num / den` where both parts can be held, undefined otherwise.
pub open spec fn number(num: int, den: int) -> Value {
    if fits(num) && fits(den) {
        Value::Num { num: num as i64, den: den as i64 }
    } else {
        Value::Null
    }
}

/// Result of `a op b`.
///
/// Defined for two numbers with positive denominators: the exact fraction,
/// not reduced, with a positive denominator. Undefined where an operand is not
/// such a number, where the divisor is zero, and where a part of the result
/// cannot be held.
pub open spec fn arith(op: Op, a: Value, b: Value) -> Value {
    match (a, b) {
        (Value::Num { num: an, den: ad }, Value::Num { num: bn, den: bd }) => {
            if ad <= 0 || bd <= 0 {
                Value::Null
            } else {
                match op {
                    Op::Add => number(an * bd + bn * ad, ad * bd),
                    Op::Sub => number(an * bd - bn * ad, ad * bd),
                    Op::Mul => number(an * bn, ad * bd),
                    Op::Div => if bn == 0 {
                        Value::Null
                    } else if bn > 0 {
                        number(an * bd, ad * bn)
                    } else {
                        number(-(an * bd), -(ad * bn))
                    },
                }
            }
        },
        _ => Value::Null,
    }
}

impl Value {
    /// A number has a positive denominator.
    pub open spec fn wf(self) -> bool {
        self matches Value::Num { den, .. } ==> den > 0
    }

    /// Undefined sorts below numbers, numbers below timestamps.
    pub open spec fn rank(self) -> int {
        match self {
            Value::Null => 0,
            Value::Num { .. } => 1,
            Value::Time(_) => 2,
        }
    }

    /// Strict order on values: numbers by magnitude, timestamps by time, values
    /// of different kinds by rank.
    pub open spec fn before(self, other: Value) -> bool {
        match (self, other) {
            (Value::Num { num: an, den: ad }, Value::Num { num: bn, den: bd }) => an * bd < bn * ad,
            (Value::Time(s), Value::Time(t)) => s.ordinal() < t.ordinal(),
            _ => self.rank() < other.rank(),
        }
    }

    /// The value truncated to its calendar month; undefined for anything but a
    /// timestamp.
    pub open spec fn month_start(self) -> Value {
        match self {
            Value::Time(t) => Value::Time(t.month_start()),
            _ => Value::Null,
        }
    }

    /// The whole number `n`.
    pub fn whole(n: i64) -> (v: Value)
        ensures
            v == (Value::Num { num: n, den: 1 }),
            v.wf(),
    {
        Value::Num { num: n, den: 1 }
    }

    /// Whether the value is undefined.
    pub fn is_null(&self) -> (r: bool)
        ensures
            r == (*self is Null),
    {
        match self {
            Value::Null => true,
            _ => false,
        }
    }

    /// Computes [`Value::month_start`].
    pub fn truncate_to_month(&self) -> (r: Value)
        ensures
            r == self.month_start(),
            r.wf(),
    {
        match self {
            Value::Time(t) => Value::Time(t.truncate_to_month()),
            _ => Value::Null,
        }
    }

    /// Computes [`Value::before`].
    pub fn is_before(&self, other: &Value) -> (r: bool)
        ensures
            r == self.before(*other),
    {
        match (self, other) {
            (Value::Num { num: an, den: ad }, Value::Num { num: bn, den: bd }) => {
                let l = wide_product(*an, *bd);
                let r = wide_product(*bn, *ad);
                l < r
            },
            (Value::Time(s), Value::Time(t)) => s.ordinal_value() < t.ordinal_value(),
            (Value::Null, Value::Null) => false,
            (Value::Null, _) => true,
            (Value::Num { .. }, Value::Time(_)) => true,
            _ => false,
        }
    }
}

/// The product of two cell integers, which always fits in 128 bits.
fn wide_product(x: i64, y: i64) -> (p: i128)
    ensures
        p == x * y,
        -0x4000_0000_0000_0000_0000_0000_0000_0000 <= p <= 0x4000_0000_0000_0000_0000_0000_0000_0000,
{
    assert(-0x4000_0000_0000_0000_0000_0000_0000_0000 <= x * y
        <= 0x4000_0000_0000_0000_0000_0000_0000_0000) by (nonlinear_arith)
        requires
            -0x8000_0000_0000_0000 <= x <= 0x7fff_ffff_ffff_ffff,
            -0x8000_0000_0000_0000 <= y <= 0x7fff_ffff_ffff_ffff,
    ;
    (x as i128) * (y as i128)
}

/// The product of a cell integer and a positive cell integer.
fn scaled(x: i64, d: i64) -> (p: i128)
    requires
        d > 0,
    ensures
        p == x * d,
        -0x3fff_ffff_ffff_ffff_8000_0000_0000_0000 <= p <= 0x3fff_ffff_ffff_ffff_0000_0000_0000_0001,
{
    assert(-0x3fff_ffff_ffff_ffff_8000_0000_0000_0000 <= x * d
        <= 0x3fff_ffff_ffff_ffff_0000_0000_0000_0001) by (nonlinear_arith)
        requires
            -0x8000_0000_0000_0000 <= x <= 0x7fff_ffff_ffff_ffff,
            0 < d <= 0x7fff_ffff_ffff_ffff,
    ;
    (x as i128) * (d as i128)
}

/// Builds [`number`] from parts computed in 128 bits.
pub fn make_number(num: i128, den: i128) -> (v: Value)
    ensures
        v == number(num as int, den as int),
        den > 0 ==> v.wf(),
{
    if num < i64::MIN as i128 || num > i64::MAX as i128 || den < i64::MIN as i128 || den
        > i64::MAX as i128 {
        Value::Null
    } else {
        Value::Num { num: num as i64, den: den as i64 }
    }
}

/// Evaluates `a op b` exactly; see [`arith`].
pub fn evaluate(op: Op, a: &Value, b: &Value) -> (v: Value)
    ensures
        v == arith(op, *a, *b),
        v.wf(),
{
    match (a, b) {
        (Value::Num { num: an, den: ad }, Value::Num { num: bn, den: bd }) => {
            if *ad <= 0 || *bd <= 0 {
                Value::Null
            } else {
                let den = scaled(*ad, *bd);
                assert(den > 0) by (nonlinear_arith)
                    requires
                        den == *ad * *bd,
                        *ad > 0,
                        *bd > 0,
                ;
                match op {
                    Op::Add => make_number(scaled(*an, *bd) + scaled(*bn, *ad), den),
                    Op::Sub => make_number(scaled(*an, *bd) - scaled(*bn, *ad), den),
                    Op::Mul => make_number(wide_product(*an, *bn), den),
                    Op::Div => {
                        if *bn == 0 {
                            Value::Null
                        } else if *bn > 0 {
                            let d = scaled(*ad, *bn);
                            assert(d > 0) by (nonlinear_arith)
                                requires
                                    d == *ad * *bn,
                                    *ad > 0,
                                    *bn > 0,
                            ;
                            make_number(scaled(*an, *bd), d)
                        } else {
                            let d = wide_product(*ad, *bn);
                            assert(d < 0) by (nonlinear_arith)
                                requires
                                    d == *ad * *bn,
                                    *ad > 0,
                                    *bn < 0,
                            ;
                            make_number(-scaled(*an, *bd), -d)
                        }
                    },
                }
            }
        },
        _ => Value::Null,
    }
}

} // verus!
