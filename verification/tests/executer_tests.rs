use tray::executer::{execute, EvalError, EvalResult};
use tray::lexer::parse_tokens;
use tray::parser::{parse, BinaryOperator, Expression, Number, UnaryOperator};

fn run(s: &str) -> Result<EvalResult, EvalError> {
    let tokens = parse_tokens(s.to_string()).unwrap();
    let e = parse(&tokens).unwrap().unwrap();
    execute(&e)
}

fn num(n: Number) -> Box<Expression> {
    Box::new(Expression::Number(n))
}

fn binary(op: BinaryOperator, l: Number, r: Number) -> Expression {
    Expression::BinaryOperation {
        operator: op,
        left: num(l),
        right: num(r),
    }
}

#[test]
fn mixed_kind_promotion_to_f64() {
    // Int32(2) + Float32(1.5) widens both operands to 64-bit floating point.
    let e = binary(
        BinaryOperator::Plus,
        Number::Int32(2),
        Number::Float32(1.5f32.to_bits()),
    );
    assert_eq!(
        execute(&e).unwrap(),
        EvalResult::Number(Number::Float64(3.5f64.to_bits()))
    );
}

#[test]
fn integer_division_truncates_to_i128() {
    let e = binary(BinaryOperator::Divide, Number::Int32(7), Number::Int32(2));
    assert_eq!(
        execute(&e).unwrap(),
        EvalResult::Number(Number::Int128(3))
    );
}

#[test]
fn negative_integer_division_truncates_toward_zero() {
    let e = binary(BinaryOperator::Divide, Number::Int32(-7), Number::Int32(2));
    assert_eq!(
        execute(&e).unwrap(),
        EvalResult::Number(Number::Int128(-3))
    );
}

#[test]
fn unary_minus_preserves_kind() {
    let e = Expression::UnaryOperation {
        operator: UnaryOperator::Minus,
        expr: num(Number::Int64(5)),
    };
    assert_eq!(
        execute(&e).unwrap(),
        EvalResult::Number(Number::Int64(-5))
    );
}

#[test]
fn unary_minus_flips_float_sign() {
    let e = Expression::UnaryOperation {
        operator: UnaryOperator::Minus,
        expr: num(Number::Float32(2.5f32.to_bits())),
    };
    assert_eq!(
        execute(&e).unwrap(),
        EvalResult::Number(Number::Float32((-2.5f32).to_bits()))
    );
}

#[test]
fn unary_plus_returns_the_number_unchanged() {
    let e = Expression::UnaryOperation {
        operator: UnaryOperator::Plus,
        expr: num(Number::Int128(42)),
    };
    assert_eq!(
        execute(&e).unwrap(),
        EvalResult::Number(Number::Int128(42))
    );
}

#[test]
fn unary_minus_of_smallest_integer_overflows() {
    let e = Expression::UnaryOperation {
        operator: UnaryOperator::Minus,
        expr: num(Number::Int32(i32::MIN)),
    };
    assert_eq!(execute(&e), Err(EvalError::Overflow));
}

#[test]
fn integer_addition_overflow_is_reported() {
    let e = binary(
        BinaryOperator::Plus,
        Number::Int128(i128::MAX),
        Number::Int32(1),
    );
    assert_eq!(execute(&e), Err(EvalError::Overflow));
}

#[test]
fn division_by_zero_is_reported() {
    let e = binary(BinaryOperator::Divide, Number::Int32(1), Number::Int32(0));
    assert_eq!(execute(&e), Err(EvalError::DivisionByZero));
}

#[test]
fn float_division_by_zero_gives_infinity() {
    let e = binary(
        BinaryOperator::Divide,
        Number::Float64(1.0f64.to_bits()),
        Number::Float64(0.0f64.to_bits()),
    );
    assert_eq!(
        execute(&e).unwrap(),
        EvalResult::Number(Number::Float64(f64::INFINITY.to_bits()))
    );
}

#[test]
fn float_subtraction_multiplication_division() {
    let sub = binary(
        BinaryOperator::Minus,
        Number::Float64(2.5f64.to_bits()),
        Number::Float64(1.0f64.to_bits()),
    );
    assert_eq!(
        execute(&sub).unwrap(),
        EvalResult::Number(Number::Float64(1.5f64.to_bits()))
    );
    let mul = binary(
        BinaryOperator::Multiply,
        Number::Float64(2.0f64.to_bits()),
        Number::Float32(3.5f32.to_bits()),
    );
    assert_eq!(
        execute(&mul).unwrap(),
        EvalResult::Number(Number::Float64(7.0f64.to_bits()))
    );
    let div = binary(
        BinaryOperator::Divide,
        Number::Int32(1),
        Number::Float32(4.0f32.to_bits()),
    );
    assert_eq!(
        execute(&div).unwrap(),
        EvalResult::Number(Number::Float64(0.25f64.to_bits()))
    );
}

#[test]
fn wide_integer_widens_to_float_by_rounding() {
    // 2^64 + 1 is not representable in 64-bit floating point: the widening
    // rounds to the nearest representable value, as an `as` cast does.
    let big: i128 = (1i128 << 64) + 1;
    let e = binary(
        BinaryOperator::Plus,
        Number::Int128(big),
        Number::Float64(0.0f64.to_bits()),
    );
    assert_eq!(
        execute(&e).unwrap(),
        EvalResult::Number(Number::Float64((big as f64).to_bits()))
    );
}

#[test]
fn parentheses_are_transparent() {
    let e = Expression::ParenthesisExpression(num(Number::Int32(9)));
    assert_eq!(execute(&e).unwrap(), EvalResult::Number(Number::Int32(9)));
}

#[test]
fn literals_evaluate_to_themselves() {
    assert_eq!(
        execute(&Expression::Char('x')).unwrap(),
        EvalResult::Char('x')
    );
    assert_eq!(
        execute(&Expression::String("hi".to_string())).unwrap(),
        EvalResult::String("hi".to_string())
    );
}

#[test]
fn unary_operator_on_text_is_rejected_in_every_permutation() {
    for op in [UnaryOperator::Plus, UnaryOperator::Minus] {
        let on_char = Expression::UnaryOperation {
            operator: op,
            expr: Box::new(Expression::Char('a')),
        };
        assert_eq!(execute(&on_char), Err(EvalError::TypeMismatch));
        let on_string = Expression::UnaryOperation {
            operator: op,
            expr: Box::new(Expression::String("s".to_string())),
        };
        assert_eq!(execute(&on_string), Err(EvalError::TypeMismatch));
    }
}

#[test]
fn binary_operator_on_text_is_rejected_in_every_permutation() {
    let ops = [
        BinaryOperator::Plus,
        BinaryOperator::Minus,
        BinaryOperator::Multiply,
        BinaryOperator::Divide,
    ];
    let texts: [fn() -> Expression; 2] = [
        || Expression::Char('c'),
        || Expression::String("s".to_string()),
    ];
    for op in ops {
        for text in texts {
            let left_text = Expression::BinaryOperation {
                operator: op,
                left: Box::new(text()),
                right: num(Number::Int32(1)),
            };
            assert_eq!(execute(&left_text), Err(EvalError::TypeMismatch));
            let right_text = Expression::BinaryOperation {
                operator: op,
                left: num(Number::Int32(1)),
                right: Box::new(text()),
            };
            assert_eq!(execute(&right_text), Err(EvalError::TypeMismatch));
            let both_text = Expression::BinaryOperation {
                operator: op,
                left: Box::new(text()),
                right: Box::new(text()),
            };
            assert_eq!(execute(&both_text), Err(EvalError::TypeMismatch));
        }
    }
}

#[test]
fn escape_round_trip_through_the_pipeline() {
    assert_eq!(run("'\\x41'").unwrap(), EvalResult::Char('A'));
    assert_eq!(run("'\\u{1F600}'").unwrap(), EvalResult::Char('\u{1F600}'));
}

#[test]
fn pipeline_arithmetic() {
    assert_eq!(
        run("1+2*3").unwrap(),
        EvalResult::Number(Number::Int128(7))
    );
    assert_eq!(
        run("1-2+3").unwrap(),
        EvalResult::Number(Number::Int128(-4))
    );
    assert_eq!(
        run("2 + 1.5").unwrap(),
        EvalResult::Number(Number::Float64(3.5f64.to_bits()))
    );
    assert_eq!(
        run("7/2").unwrap(),
        EvalResult::Number(Number::Int128(3))
    );
}
