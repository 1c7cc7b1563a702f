use tray::executer::{execute, EvalResult};
use tray::lexer::parse_tokens;
use tray::parser::{parse, BinaryOperator, Expression, Number, ParseError, UnaryOperator};

fn tree(s: &str) -> Result<Option<Expression>, ParseError> {
    parse(&parse_tokens(s.to_string()).unwrap())
}

fn num(n: Number) -> Box<Expression> {
    Box::new(Expression::Number(n))
}

#[test]
fn priority_table() {
    assert_eq!(BinaryOperator::Plus.priority(), 1);
    assert_eq!(BinaryOperator::Minus.priority(), 0);
    assert_eq!(BinaryOperator::Divide.priority(), 2);
    assert_eq!(BinaryOperator::Multiply.priority(), 3);
}

#[test]
fn empty_input_parses_to_nothing() {
    assert_eq!(tree("").unwrap(), None);
}

#[test]
fn multiply_binds_tighter_than_plus() {
    // `*` (priority 3) above `+` (priority 1): the product nests under the sum.
    let expected = Expression::BinaryOperation {
        operator: BinaryOperator::Plus,
        left: num(Number::Int32(1)),
        right: Box::new(Expression::BinaryOperation {
            operator: BinaryOperator::Multiply,
            left: num(Number::Int32(2)),
            right: num(Number::Int32(3)),
        }),
    };
    let e = tree("1+2*3").unwrap().unwrap();
    assert_eq!(e, expected);
    assert_eq!(execute(&e).unwrap(), EvalResult::Number(Number::Int128(7)));
}

#[test]
fn minus_below_plus_nests_right() {
    // Minus (priority 0) does not outrank Plus (priority 1), so the sum
    // stays nested on the right: 1-(2+3), the regression baseline -4.
    let expected = Expression::BinaryOperation {
        operator: BinaryOperator::Minus,
        left: num(Number::Int32(1)),
        right: Box::new(Expression::BinaryOperation {
            operator: BinaryOperator::Plus,
            left: num(Number::Int32(2)),
            right: num(Number::Int32(3)),
        }),
    };
    let e = tree("1-2+3").unwrap().unwrap();
    assert_eq!(e, expected);
    assert_eq!(execute(&e).unwrap(), EvalResult::Number(Number::Int128(-4)));
}

#[test]
fn rotation_pulls_higher_operator_inside() {
    // `*` (priority 3) over a `+` right-hand side rotates: (1*2)+3.
    let expected = Expression::BinaryOperation {
        operator: BinaryOperator::Plus,
        left: Box::new(Expression::BinaryOperation {
            operator: BinaryOperator::Multiply,
            left: num(Number::Int32(1)),
            right: num(Number::Int32(2)),
        }),
        right: num(Number::Int32(3)),
    };
    let e = tree("1*2+3").unwrap().unwrap();
    assert_eq!(e, expected);
    assert_eq!(execute(&e).unwrap(), EvalResult::Number(Number::Int128(5)));
}

#[test]
fn parenthesized_group_then_operator() {
    let e = tree("(1+2)*3").unwrap().unwrap();
    let expected = Expression::BinaryOperation {
        operator: BinaryOperator::Multiply,
        left: Box::new(Expression::ParenthesisExpression(Box::new(
            Expression::BinaryOperation {
                operator: BinaryOperator::Plus,
                left: num(Number::Int32(1)),
                right: num(Number::Int32(2)),
            },
        ))),
        right: num(Number::Int32(3)),
    };
    assert_eq!(e, expected);
    assert_eq!(execute(&e).unwrap(), EvalResult::Number(Number::Int128(9)));
}

#[test]
fn unary_minus_before_number() {
    let e = tree("-5").unwrap().unwrap();
    assert_eq!(
        e,
        Expression::UnaryOperation {
            operator: UnaryOperator::Minus,
            expr: num(Number::Int32(5)),
        }
    );
}

#[test]
fn bare_multiply_is_rejected() {
    assert_eq!(tree("*"), Err(ParseError::UnexpectedToken { index: 0 }));
}

#[test]
fn bare_close_parenthesis_is_rejected() {
    assert_eq!(tree(")"), Err(ParseError::UnexpectedToken { index: 0 }));
}

#[test]
fn trailing_operator_is_rejected() {
    assert_eq!(tree("1+"), Err(ParseError::UnexpectedEnd { index: 2 }));
}

#[test]
fn lone_unary_operator_is_rejected() {
    assert_eq!(tree("+"), Err(ParseError::UnexpectedEnd { index: 1 }));
}

#[test]
fn unclosed_parenthesis_is_rejected() {
    assert_eq!(tree("(1"), Err(ParseError::UnclosedParenthesis { index: 2 }));
}

#[test]
fn string_operand_of_plus_is_rejected() {
    assert_eq!(tree("1+\"a\""), Err(ParseError::TextOperand { index: 2 }));
}

#[test]
fn char_operand_of_unary_is_rejected() {
    assert_eq!(tree("-'a'"), Err(ParseError::TextOperand { index: 1 }));
}

#[test]
fn parenthesized_unary_consumes_the_closing_parenthesis() {
    // The unary parser consumes a following `)` itself, so the enclosing
    // group finds its parenthesis missing.
    assert_eq!(tree("(-1)"), Err(ParseError::UnclosedParenthesis { index: 4 }));
}

#[test]
fn lone_string_parses_to_itself() {
    assert_eq!(
        tree("\"hi\"").unwrap().unwrap(),
        Expression::String("hi".to_string())
    );
}

#[test]
fn unwrap_content_strips_nested_parentheses() {
    let e = Expression::ParenthesisExpression(Box::new(Expression::ParenthesisExpression(
        Box::new(Expression::Number(Number::Int32(4))),
    )));
    assert_eq!(e.unwrap_content(), Expression::Number(Number::Int32(4)));
}

#[test]
fn number_accessors_widen() {
    assert_eq!(Number::Int32(-3).as_i128(), -3i128);
    assert_eq!(Number::Int64(1 << 40).as_i128(), 1i128 << 40);
    assert_eq!(Number::Int32(2).as_f64(), 2.0f64.to_bits());
    assert_eq!(Number::Float32(1.5f32.to_bits()).as_f64(), 1.5f64.to_bits());
    assert!(Number::Float32(0).is_floating_point(&Number::Int32(1)));
    assert!(Number::Int32(1).is_floating_point(&Number::Float64(0)));
    assert!(!Number::Int32(1).is_floating_point(&Number::Int128(2)));
}

#[test]
fn open_parenthesis_alone_is_rejected() {
    assert_eq!(tree("("), Err(ParseError::UnexpectedEnd { index: 1 }));
}

#[test]
fn text_literal_ends_the_parse_early() {
    // A leading string literal is an expression by itself; what follows it
    // is not consumed.
    assert_eq!(
        tree("\"a\"+1").unwrap().unwrap(),
        Expression::String("a".to_string())
    );
}

#[test]
fn adjacent_numbers_are_rejected() {
    assert_eq!(tree("1 2"), Err(ParseError::UnexpectedToken { index: 1 }));
}
