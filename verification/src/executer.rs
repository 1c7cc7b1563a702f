//! The evaluator: walks an expression tree bottom-up and produces a tagged
//! value, promoting numeric kinds. If either operand of a binary operation is
//! of a floating kind, both are widened to the 64-bit floating kind and the
//! result is 64-bit floating; otherwise both are widened to the 128-bit
//! integer kind and the result is 128-bit integer, with truncating division.
//! Type mismatches, division by zero and integer overflow are reported as
//! error values, never by ending the process.

use vstd::prelude::*;
use crate::fp::{f64_add_bits, f64_sub_bits, f64_mul_bits, f64_div_bits};
use crate::fp::{f64_add, f64_sub, f64_mul, f64_div};
use crate::parser::{UnaryOperator, BinaryOperator, Number, Expression, ExpressionView};

verus! {

/// The value of one evaluated line.
#[derive(Debug, Clone, PartialEq)]
pub enum EvalResult {
    Number(Number),
    Char(char),
    String(String),
}

/// The mathematical model of an evaluated value.
pub enum EvalResultView {
    Number(Number),
    Char(char),
    String(Seq<char>),
}

impl View for EvalResult {
    type V = EvalResultView;

    open spec fn view(&self) -> EvalResultView {
        match self {
            EvalResult::Number(n) => EvalResultView::Number(*n),
            EvalResult::Char(c) => EvalResultView::Char(*c),
            EvalResult::String(s) => EvalResultView::String(s@),
        }
    }
}

/// An evaluation failure: an operator met an operand kind it is not defined
/// on, a division by zero, or an integer result outside the 128-bit range.
#[derive(Debug, Clone, Copy, PartialEq, Eq, Structural)]
pub enum EvalError {
    TypeMismatch,
    DivisionByZero,
    Overflow,
}

/// Whether the evaluated value is a character or a string.
pub open spec fn is_text_value(v: EvalResultView) -> bool {
    match v {
        EvalResultView::Char(_) => true,
        EvalResultView::String(_) => true,
        _ => false,
    }
}

/// Whether two numbers are of the same kind.
pub open spec fn same_kind(a: Number, b: Number) -> bool {
    match (a, b) {
        (Number::Float32(_), Number::Float32(_)) => true,
        (Number::Float64(_), Number::Float64(_)) => true,
        (Number::Int32(_), Number::Int32(_)) => true,
        (Number::Int64(_), Number::Int64(_)) => true,
        (Number::Int128(_), Number::Int128(_)) => true,
        _ => false,
    }
}

/// Whether negating the number leaves its kind's range: only the smallest
/// value of an integer kind overflows.
pub open spec fn negate_overflows(n: Number) -> bool {
    match n {
        Number::Int32(v) => v == i32::MIN,
        Number::Int64(v) => v == i64::MIN,
        Number::Int128(v) => v == i128::MIN,
        _ => false,
    }
}

/// Negation preserving the numeric kind: floating kinds flip the sign bit,
/// integer kinds negate within their own width.
pub open spec fn negate_spec(n: Number) -> Result<Number, EvalError> {
    match n {
        Number::Float32(b) => Ok(Number::Float32(b ^ 0x8000_0000u32)),
        Number::Float64(b) => Ok(Number::Float64(b ^ 0x8000_0000_0000_0000u64)),
        Number::Int32(v) => if v == i32::MIN {
            Err(EvalError::Overflow)
        } else {
            Ok(Number::Int32((-v) as i32))
        },
        Number::Int64(v) => if v == i64::MIN {
            Err(EvalError::Overflow)
        } else {
            Ok(Number::Int64((-v) as i64))
        },
        Number::Int128(v) => if v == i128::MIN {
            Err(EvalError::Overflow)
        } else {
            Ok(Number::Int128((-v) as i128))
        },
    }
}

/// Division truncating toward zero, as the 128-bit integer kind divides.
pub open spec fn trunc_div(x: int, d: int) -> int {
    if x == 0 {
        0
    } else if x > 0 && d > 0 {
        x / d
    } else if x < 0 && d < 0 {
        (x * -1) / (d * -1)
    } else if x < 0 {
        ((x * -1) / d) * -1
    } else {
        (x / (d * -1)) * -1
    }
}

/// The bits of applying the operator in 64-bit floating-point arithmetic.
pub open spec fn apply_f64(op: BinaryOperator, a: u64, b: u64) -> u64 {
    match op {
        BinaryOperator::Plus => f64_add_bits(a, b),
        BinaryOperator::Minus => f64_sub_bits(a, b),
        BinaryOperator::Divide => f64_div_bits(a, b),
        BinaryOperator::Multiply => f64_mul_bits(a, b),
    }
}

/// Applying the operator in 128-bit integer arithmetic: division by zero and
/// results outside the 128-bit range are errors.
pub open spec fn apply_i128(op: BinaryOperator, a: int, b: int) -> Result<Number, EvalError> {
    match op {
        BinaryOperator::Plus => if a + b > i128::MAX || a + b < i128::MIN {
            Err(EvalError::Overflow)
        } else {
            Ok(Number::Int128((a + b) as i128))
        },
        BinaryOperator::Minus => if a - b > i128::MAX || a - b < i128::MIN {
            Err(EvalError::Overflow)
        } else {
            Ok(Number::Int128((a - b) as i128))
        },
        BinaryOperator::Multiply => if a * b > i128::MAX || a * b < i128::MIN {
            Err(EvalError::Overflow)
        } else {
            Ok(Number::Int128((a * b) as i128))
        },
        BinaryOperator::Divide => if b == 0 {
            Err(EvalError::DivisionByZero)
        } else {
            let q = trunc_div(a, b);
            if q > i128::MAX || q < i128::MIN {
                Err(EvalError::Overflow)
            } else {
                Ok(Number::Int128(q as i128))
            }
        },
    }
}

/// The promotion rule: a floating operand on either side widens both to the
/// 64-bit floating kind; otherwise both widen to the 128-bit integer kind.
pub open spec fn eval_binary_spec(op: BinaryOperator, l: Number, r: Number) -> Result<
    Number,
    EvalError,
> {
    if l.is_float() || r.is_float() {
        Ok(Number::Float64(apply_f64(op, l.as_f64_spec(), r.as_f64_spec())))
    } else {
        apply_i128(op, l.as_i128_spec(), r.as_i128_spec())
    }
}

/// What evaluating an expression tree yields. Parentheses are transparent;
/// literals stand for themselves; unary and binary operators demand numeric
/// operands; the left operand's failure is reported before the right one's.
pub open spec fn eval_spec(e: ExpressionView) -> Result<EvalResultView, EvalError>
    decreases e,
{
    match e {
        ExpressionView::UnaryOperation { operator, expr } => match eval_spec(*expr) {
            Err(er) => Err(er),
            Ok(v) => match v {
                EvalResultView::Number(n) => match operator {
                    UnaryOperator::Plus => Ok(EvalResultView::Number(n)),
                    UnaryOperator::Minus => match negate_spec(n) {
                        Ok(m) => Ok(EvalResultView::Number(m)),
                        Err(er) => Err(er),
                    },
                },
                _ => Err(EvalError::TypeMismatch),
            },
        },
        ExpressionView::BinaryOperation { operator, left, right } => match eval_spec(*left) {
            Err(er) => Err(er),
            Ok(lv) => match eval_spec(*right) {
                Err(er) => Err(er),
                Ok(rv) => match (lv, rv) {
                    (EvalResultView::Number(ln), EvalResultView::Number(rn)) => match
                        eval_binary_spec(operator, ln, rn) {
                        Ok(n) => Ok(EvalResultView::Number(n)),
                        Err(er) => Err(er),
                    },
                    _ => Err(EvalError::TypeMismatch),
                },
            },
        },
        ExpressionView::ParenthesisExpression(inner) => eval_spec(*inner),
        ExpressionView::Number(n) => Ok(EvalResultView::Number(n)),
        ExpressionView::Char(c) => Ok(EvalResultView::Char(c)),
        ExpressionView::String(s) => Ok(EvalResultView::String(s)),
    }
}

/// Negates a number, preserving its kind.
fn negate(n: Number) -> (r: Result<Number, EvalError>)
    ensures
        r == negate_spec(n),
{
    match n {
        Number::Float32(b) => Ok(Number::Float32(b ^ 0x8000_0000)),
        Number::Float64(b) => Ok(Number::Float64(b ^ 0x8000_0000_0000_0000)),
        Number::Int32(v) => if v == i32::MIN {
            Err(EvalError::Overflow)
        } else {
            Ok(Number::Int32(-v))
        },
        Number::Int64(v) => if v == i64::MIN {
            Err(EvalError::Overflow)
        } else {
            Ok(Number::Int64(-v))
        },
        Number::Int128(v) => if v == i128::MIN {
            Err(EvalError::Overflow)
        } else {
            Ok(Number::Int128(-v))
        },
    }
}

/// Applies a binary operator to two numbers under the promotion rule.
fn eval_binary(op: BinaryOperator, l: Number, r: Number) -> (res: Result<Number, EvalError>)
    ensures
        res == eval_binary_spec(op, l, r),
{
    if l.is_floating_point(&r) {
        let a = l.as_f64();
        let b = r.as_f64();
        let bits = match op {
            BinaryOperator::Plus => f64_add(a, b),
            BinaryOperator::Minus => f64_sub(a, b),
            BinaryOperator::Divide => f64_div(a, b),
            BinaryOperator::Multiply => f64_mul(a, b),
        };
        Ok(Number::Float64(bits))
    } else {
        let a = l.as_i128();
        let b = r.as_i128();
        match op {
            BinaryOperator::Plus => match a.checked_add(b) {
                Some(v) => Ok(Number::Int128(v)),
                None => Err(EvalError::Overflow),
            },
            BinaryOperator::Minus => match a.checked_sub(b) {
                Some(v) => Ok(Number::Int128(v)),
                None => Err(EvalError::Overflow),
            },
            BinaryOperator::Multiply => match a.checked_mul(b) {
                Some(v) => Ok(Number::Int128(v)),
                None => Err(EvalError::Overflow),
            },
            BinaryOperator::Divide => if b == 0 {
                Err(EvalError::DivisionByZero)
            } else {
                match a.checked_div(b) {
                    Some(v) => Ok(Number::Int128(v)),
                    None => Err(EvalError::Overflow),
                }
            },
        }
    }
}

/// Evaluates an expression tree to a tagged value, or reports the first
/// failure as an error value.
pub fn execute(expr: &Expression) -> (r: Result<EvalResult, EvalError>)
    ensures
        match eval_spec(expr@) {
            Ok(v) => r matches Ok(rv) && rv@ == v,
            Err(er) => r matches Err(re) && re == er,
        },
    decreases expr,
{
    match expr {
        Expression::UnaryOperation { operator, expr: inner } => {
            match execute(&**inner) {
                Err(er) => Err(er),
                Ok(result) => match operator {
                    UnaryOperator::Plus => match result {
                        EvalResult::Number(n) => Ok(EvalResult::Number(n)),
                        _ => Err(EvalError::TypeMismatch),
                    },
                    UnaryOperator::Minus => match result {
                        EvalResult::Number(n) => match negate(n) {
                            Ok(m) => Ok(EvalResult::Number(m)),
                            Err(er) => Err(er),
                        },
                        _ => Err(EvalError::TypeMismatch),
                    },
                },
            }
        }
        Expression::BinaryOperation { operator, left, right } => {
            match execute(&**left) {
                Err(er) => Err(er),
                Ok(lv) => match execute(&**right) {
                    Err(er) => Err(er),
                    Ok(rv) => match (lv, rv) {
                        (EvalResult::Number(ln), EvalResult::Number(rn)) => match eval_binary(
                            *operator,
                            ln,
                            rn,
                        ) {
                            Ok(n) => Ok(EvalResult::Number(n)),
                            Err(er) => Err(er),
                        },
                        _ => Err(EvalError::TypeMismatch),
                    },
                },
            }
        }
        Expression::ParenthesisExpression(inner) => execute(&**inner),
        Expression::Number(n) => Ok(EvalResult::Number(*n)),
        Expression::Char(c) => Ok(EvalResult::Char(*c)),
        Expression::String(s) => Ok(EvalResult::String(s.clone())),
    }
}

/// Law: unary minus preserves the numeric kind of its operand. Whenever the
/// operand evaluates to a number, negating yields a number of the same kind,
/// never a widened one; the one failure is the smallest value of an integer
/// kind, whose negation leaves the kind's range and is an overflow error.
pub proof fn lemma_unary_minus_preserves_kind(e: ExpressionView, n: Number)
    requires
        eval_spec(e) == Ok::<EvalResultView, EvalError>(EvalResultView::Number(n)),
    ensures
        !negate_overflows(n) ==> (match eval_spec(
            ExpressionView::UnaryOperation { operator: UnaryOperator::Minus, expr: Box::new(e) },
        ) {
            Ok(v) => v matches EvalResultView::Number(m) && same_kind(m, n),
            Err(_) => false,
        }),
        negate_overflows(n) ==> eval_spec(
            ExpressionView::UnaryOperation { operator: UnaryOperator::Minus, expr: Box::new(e) },
        ) == Err::<EvalResultView, EvalError>(EvalError::Overflow),
{
}

/// Law: unary plus returns a numeric operand unchanged.
pub proof fn lemma_unary_plus_identity(e: ExpressionView, n: Number)
    requires
        eval_spec(e) == Ok::<EvalResultView, EvalError>(EvalResultView::Number(n)),
    ensures
        eval_spec(
            ExpressionView::UnaryOperation { operator: UnaryOperator::Plus, expr: Box::new(e) },
        ) == Ok::<EvalResultView, EvalError>(EvalResultView::Number(n)),
{
}

/// Law: a unary arithmetic operator applied to an operand that evaluates to
/// a string or a character is rejected with a type mismatch.
pub proof fn lemma_unary_text_rejected(op: UnaryOperator, e: ExpressionView)
    requires
        eval_spec(e) matches Ok(v) && is_text_value(v),
    ensures
        eval_spec(ExpressionView::UnaryOperation { operator: op, expr: Box::new(e) })
            == Err::<EvalResultView, EvalError>(EvalError::TypeMismatch),
{
}

/// Law: a binary arithmetic operator is rejected with a type mismatch
/// whenever either operand evaluates to a string or a character, in every
/// permutation of text and non-text operands.
pub proof fn lemma_binary_text_rejected(op: BinaryOperator, l: ExpressionView, r: ExpressionView)
    requires
        eval_spec(l) is Ok,
        eval_spec(r) is Ok,
        (eval_spec(l) matches Ok(v) && is_text_value(v)) || (eval_spec(r) matches Ok(v)
            && is_text_value(v)),
    ensures
        eval_spec(
            ExpressionView::BinaryOperation { operator: op, left: Box::new(l), right: Box::new(r) },
        ) == Err::<EvalResultView, EvalError>(EvalError::TypeMismatch),
{
}

/// Law: the result kind of a binary operation is always either the 64-bit
/// floating kind or the 128-bit integer kind — floating exactly when either
/// operand is floating — and never a narrower kind.
pub proof fn lemma_binary_result_kind(op: BinaryOperator, l: Number, r: Number)
    ensures
        (l.is_float() || r.is_float()) ==> (eval_binary_spec(op, l, r) matches Ok(n)
            && n matches Number::Float64(_)),
        !(l.is_float() || r.is_float()) ==> (match eval_binary_spec(op, l, r) {
            Ok(n) => n matches Number::Int128(_),
            Err(er) => er == EvalError::Overflow || er == EvalError::DivisionByZero,
        }),
{
}

} // verus!
