//! What the operators compute: numeric coercion, comparison and logic.
//!
//! Integer arithmetic wraps around in two's complement. The remainder of a
//! division by zero is `Null`. An operand of the wrong kind makes the
//! result `Null`; nothing here fails.

use crate::ast::{Opcode, Value, ValueView};
use crate::ieee::{
    difference_bits, int_bits, product_bits, quotient_bits, real_difference, real_eq,
    real_from_int, real_lt, real_product, real_quotient, real_sum, sum_bits,
};
use crate::text::lex_less;
use vstd::prelude::*;

verus! {

/// The remainder of the division that truncates towards zero: it has the
/// sign of the dividend.
pub open spec fn trunc_rem(l: int, r: int) -> int
    recommends
        r != 0,
{
    let d = if r < 0 {
        -r
    } else {
        r
    };
    if l >= 0 {
        l % d
    } else {
        -((-l) % d)
    }
}

/// The quotient of the division that truncates towards zero.
pub open spec fn trunc_quot(l: int, r: int) -> int
    recommends
        r != 0,
{
    let d = if r < 0 {
        -r
    } else {
        r
    };
    let n = if l < 0 {
        -l
    } else {
        l
    };
    if (l < 0) == (r < 0) {
        n / d
    } else {
        -(n / d)
    }
}

/// Bounds on truncated quotients and remainders, by magnitude.
pub proof fn lemma_truncation(l: int, r: int)
    requires
        r != 0,
    ensures
        ({
            let d = if r < 0 {
                -r
            } else {
                r
            };
            let n = if l < 0 {
                -l
            } else {
                l
            };
            &&& 0 <= n / d <= n
            &&& 0 <= n % d < d
            &&& n % d <= n
            &&& (d > 1 && n > 0 ==> n / d < n)
            &&& (d == 1 ==> n / d == n && n % d == 0)
            &&& (n == 0 ==> n / d == 0 && n % d == 0)
        }),
{
    let d = if r < 0 {
        -r
    } else {
        r
    };
    let n = if l < 0 {
        -l
    } else {
        l
    };
    assert(0 <= n / d <= n && 0 <= n % d < d && n % d <= n) by (nonlinear_arith)
        requires
            n >= 0,
            d > 0,
    ;
    assert(d > 1 && n > 0 ==> n / d < n) by (nonlinear_arith)
        requires
            n >= 0,
            d > 0,
    ;
    assert(d == 1 ==> n / d == n && n % d == 0) by (nonlinear_arith)
        requires
            n >= 0,
            d > 0,
    ;
    assert(n == 0 ==> n / d == 0 && n % d == 0) by (nonlinear_arith)
        requires
            n >= 0,
            d > 0,
    ;
}

/// What an arithmetic operator makes of two integers. The one quotient
/// that does not fit, of the least integer by -1, wraps to the least
/// integer.
pub open spec fn int_result(op: Opcode, l: i64, r: i64) -> i64
    recommends
        (op == Opcode::Div || op == Opcode::Mod) ==> r != 0,
{
    match op {
        Opcode::Add => l.wrapping_add(r),
        Opcode::Sub => l.wrapping_sub(r),
        Opcode::Mul => l.wrapping_mul(r),
        Opcode::Div => if l == i64::MIN && r == -1 {
            i64::MIN
        } else {
            trunc_quot(l as int, r as int) as i64
        },
        Opcode::Mod => trunc_rem(l as int, r as int) as i64,
        _ => 0,
    }
}

/// What an arithmetic operator makes of two doubles.
pub open spec fn real_result(op: Opcode, l: u64, r: u64) -> u64 {
    match op {
        Opcode::Add => real_sum(l, r),
        Opcode::Sub => real_difference(l, r),
        Opcode::Mul => real_product(l, r),
        Opcode::Div => real_quotient(l, r),
        _ => 0,
    }
}

/// A number widened to a double; no value of another kind.
pub open spec fn widened(v: ValueView) -> Option<u64> {
    match v {
        ValueView::Int(i) => Some(real_from_int(i)),
        ValueView::Real(r) => Some(r),
        _ => None,
    }
}

/// A relational operator on two integers.
pub open spec fn int_relation(op: Opcode, l: i64, r: i64) -> bool {
    match op {
        Opcode::Equal => l == r,
        Opcode::NotEqual => l != r,
        Opcode::LessThan => l < r,
        Opcode::GreaterThan => l > r,
        Opcode::LessThanOrEqual => l <= r,
        Opcode::GreaterThanOrEqual => l >= r,
        _ => false,
    }
}

/// A relational operator on two doubles, as IEEE-754 compares them: a NaN
/// is unequal to everything and stands in no order.
pub open spec fn real_relation(op: Opcode, l: u64, r: u64) -> bool {
    match op {
        Opcode::Equal => real_eq(l, r),
        Opcode::NotEqual => !real_eq(l, r),
        Opcode::LessThan => real_lt(l, r),
        Opcode::GreaterThan => real_lt(r, l),
        Opcode::LessThanOrEqual => real_lt(l, r) || real_eq(l, r),
        Opcode::GreaterThanOrEqual => real_lt(r, l) || real_eq(l, r),
        _ => false,
    }
}

/// A relational operator on two texts, ordered by code point.
pub open spec fn text_relation(op: Opcode, l: Seq<char>, r: Seq<char>) -> bool {
    match op {
        Opcode::Equal => l == r,
        Opcode::NotEqual => l != r,
        Opcode::LessThan => lex_less(l, r),
        Opcode::GreaterThan => lex_less(r, l),
        Opcode::LessThanOrEqual => lex_less(l, r) || l == r,
        Opcode::GreaterThanOrEqual => lex_less(r, l) || l == r,
        _ => false,
    }
}

/// A logical operator on two truth values. None of them short-circuits.
pub open spec fn bool_result(op: Opcode, l: bool, r: bool) -> bool {
    match op {
        Opcode::LogicalAnd => l && r,
        Opcode::LogicalOr => l || r,
        Opcode::LogicalXor => (l || r) && !(l && r),
        _ => false,
    }
}

/// The operator is relational or logical.
pub open spec fn is_logical(op: Opcode) -> bool {
    is_relational(op) || op == Opcode::LogicalAnd || op == Opcode::LogicalOr || op
        == Opcode::LogicalXor
}

/// The operator compares its operands.
pub open spec fn is_relational(op: Opcode) -> bool {
    op == Opcode::Equal || op == Opcode::NotEqual || op == Opcode::LessThan || op
        == Opcode::GreaterThan || op == Opcode::LessThanOrEqual || op == Opcode::GreaterThanOrEqual
}

/// The value of a relational or logical operator: two integers, two texts
/// or two numbers of which one is a double compare; two truth values
/// combine; everything else is `Null`.
pub open spec fn logical_value(op: Opcode, l: ValueView, r: ValueView) -> ValueView {
    if is_relational(op) {
        match (l, r) {
            (ValueView::Int(a), ValueView::Int(b)) => ValueView::Bool(int_relation(op, a, b)),
            (ValueView::Str(a), ValueView::Str(b)) => ValueView::Bool(text_relation(op, a, b)),
            _ => match (widened(l), widened(r)) {
                (Some(a), Some(b)) => ValueView::Bool(real_relation(op, a, b)),
                _ => ValueView::Null,
            },
        }
    } else if is_logical(op) {
        match (l, r) {
            (ValueView::Bool(a), ValueView::Bool(b)) => ValueView::Bool(bool_result(op, a, b)),
            _ => ValueView::Null,
        }
    } else {
        ValueView::Null
    }
}

/// The value of a binary operator applied to two values.
pub open spec fn binary_value(op: Opcode, l: ValueView, r: ValueView) -> ValueView {
    match op {
        Opcode::Add | Opcode::Sub | Opcode::Mul => match (l, r) {
            (ValueView::Int(a), ValueView::Int(b)) => ValueView::Int(int_result(op, a, b)),
            _ => match (widened(l), widened(r)) {
                (Some(a), Some(b)) => ValueView::Real(real_result(op, a, b)),
                _ => ValueView::Null,
            },
        },
        Opcode::Div => match (widened(l), widened(r)) {
            (Some(a), Some(b)) => ValueView::Real(real_quotient(a, b)),
            _ => ValueView::Null,
        },
        Opcode::Mod => match (l, r) {
            (ValueView::Int(a), ValueView::Int(b)) => if b == 0 {
                ValueView::Null
            } else {
                ValueView::Int(int_result(op, a, b))
            },
            _ => ValueView::Null,
        },
        Opcode::Not => ValueView::Null,
        _ => logical_value(op, l, r),
    }
}

/// The value of a unary operator applied to a value: `Not` negates a truth
/// value, takes `Null` for false and everything else for true.
pub open spec fn unary_value(op: Opcode, x: ValueView) -> ValueView {
    match op {
        Opcode::Not => match x {
            ValueView::Bool(b) => ValueView::Bool(!b),
            ValueView::Null => ValueView::Bool(true),
            _ => ValueView::Bool(false),
        },
        _ => ValueView::Null,
    }
}

fn widen(v: &Value) -> (r: Option<u64>)
    ensures
        r == widened(v@),
{
    match v {
        Value::Int(i) => Some(int_bits(*i)),
        Value::Real(x) => Some(*x),
        _ => None,
    }
}

fn relate_ints(op: Opcode, l: i64, r: i64) -> (b: bool)
    ensures
        b == int_relation(op, l, r),
{
    match op {
        Opcode::Equal => l == r,
        Opcode::NotEqual => l != r,
        Opcode::LessThan => l < r,
        Opcode::GreaterThan => l > r,
        Opcode::LessThanOrEqual => l <= r,
        Opcode::GreaterThanOrEqual => l >= r,
        _ => false,
    }
}

fn relate_reals(op: Opcode, l: u64, r: u64) -> (b: bool)
    ensures
        b == real_relation(op, l, r),
{
    match op {
        Opcode::Equal => crate::ieee::eq(l, r),
        Opcode::NotEqual => !crate::ieee::eq(l, r),
        Opcode::LessThan => crate::ieee::lt(l, r),
        Opcode::GreaterThan => crate::ieee::lt(r, l),
        Opcode::LessThanOrEqual => crate::ieee::lt(l, r) || crate::ieee::eq(l, r),
        Opcode::GreaterThanOrEqual => crate::ieee::lt(r, l) || crate::ieee::eq(l, r),
        _ => false,
    }
}

fn relate_texts(op: Opcode, l: &str, r: &str) -> (b: bool)
    ensures
        b == text_relation(op, l@, r@),
{
    match op {
        Opcode::Equal => crate::text::same(l, r),
        Opcode::NotEqual => !crate::text::same(l, r),
        Opcode::LessThan => crate::text::less(l, r),
        Opcode::GreaterThan => crate::text::less(r, l),
        Opcode::LessThanOrEqual => crate::text::less(l, r) || crate::text::same(l, r),
        Opcode::GreaterThanOrEqual => crate::text::less(r, l) || crate::text::same(l, r),
        _ => false,
    }
}

impl Opcode {
    /// Whether the operator compares its operands.
    pub fn relational(&self) -> (b: bool)
        ensures
            b == is_relational(*self),
    {
        match *self {
            Opcode::Equal
            | Opcode::NotEqual
            | Opcode::LessThan
            | Opcode::GreaterThan
            | Opcode::LessThanOrEqual
            | Opcode::GreaterThanOrEqual => true,
            _ => false,
        }
    }

    /// The integer result of an arithmetic operator.
    pub fn calc_i(&self, l: i64, r: i64) -> (v: i64)
        requires
            (*self == Opcode::Div || *self == Opcode::Mod) ==> r != 0,
        ensures
            v == int_result(*self, l, r),
    {
        proof {
            if r != 0 {
                lemma_truncation(l as int, r as int);
            }
        }
        match *self {
            Opcode::Add => l.wrapping_add(r),
            Opcode::Div => match l.checked_div(r) {
                Some(q) => q,
                None => i64::MIN,
            },
            Opcode::Mod => match l.checked_rem(r) {
                Some(m) => m,
                None => 0,
            },
            Opcode::Mul => l.wrapping_mul(r),
            Opcode::Sub => l.wrapping_sub(r),
            _ => 0,
        }
    }

    /// The double result of an arithmetic operator, on bit patterns.
    pub fn calc_f(&self, l: u64, r: u64) -> (v: u64)
        ensures
            v == real_result(*self, l, r),
    {
        match *self {
            Opcode::Add => sum_bits(l, r),
            Opcode::Div => quotient_bits(l, r),
            Opcode::Mul => product_bits(l, r),
            Opcode::Sub => difference_bits(l, r),
            _ => 0,
        }
    }

    /// Applies a binary operator to two values.
    pub fn eval(&self, l: Value, r: Value) -> (v: Value)
        ensures
            v@ == binary_value(*self, l@, r@),
    {
        match *self {
            Opcode::Add | Opcode::Mul | Opcode::Sub => match (&l, &r) {
                (Value::Int(a), Value::Int(b)) => Value::Int(self.calc_i(*a, *b)),
                _ => match (widen(&l), widen(&r)) {
                    (Some(a), Some(b)) => Value::Real(self.calc_f(a, b)),
                    _ => Value::Null,
                },
            },
            Opcode::Div => match (widen(&l), widen(&r)) {
                (Some(a), Some(b)) => Value::Real(self.calc_f(a, b)),
                _ => Value::Null,
            },
            Opcode::Mod => match (&l, &r) {
                (Value::Int(a), Value::Int(b)) => if *b == 0 {
                    Value::Null
                } else {
                    Value::Int(self.calc_i(*a, *b))
                },
                _ => Value::Null,
            },
            Opcode::Not => Value::Null,
            _ => self.logical(l, r),
        }
    }

    /// Applies a unary operator to a value.
    pub fn eval_unary(&self, x: Value) -> (v: Value)
        ensures
            v@ == unary_value(*self, x@),
    {
        match *self {
            Opcode::Not => match x {
                Value::Bool(b) => Value::Bool(!b),
                Value::Null => Value::Bool(true),
                _ => Value::Bool(false),
            },
            _ => Value::Null,
        }
    }

    /// Applies a relational or logical operator to two values.
    pub fn logical(&self, l: Value, r: Value) -> (v: Value)
        ensures
            v@ == logical_value(*self, l@, r@),
    {
        if self.relational() {
            match (&l, &r) {
                (Value::Int(a), Value::Int(b)) => Value::Bool(relate_ints(*self, *a, *b)),
                (Value::Str(a), Value::Str(b)) => Value::Bool(
                    relate_texts(*self, a.as_str(), b.as_str()),
                ),
                _ => match (widen(&l), widen(&r)) {
                    (Some(a), Some(b)) => Value::Bool(relate_reals(*self, a, b)),
                    _ => Value::Null,
                },
            }
        } else {
            match *self {
                Opcode::LogicalAnd => match (&l, &r) {
                    (Value::Bool(a), Value::Bool(b)) => Value::Bool(*a && *b),
                    _ => Value::Null,
                },
                Opcode::LogicalOr => match (&l, &r) {
                    (Value::Bool(a), Value::Bool(b)) => Value::Bool(*a || *b),
                    _ => Value::Null,
                },
                Opcode::LogicalXor => match (&l, &r) {
                    (Value::Bool(a), Value::Bool(b)) => Value::Bool((*a || *b) && !(*a && *b)),
                    _ => Value::Null,
                },
                _ => Value::Null,
            }
        }
    }
}

} // verus!
