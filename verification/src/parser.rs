use vstd::prelude::*;
use crate::fp::{f64_bits_of_f32_bits, f64_bits_of_i128, f32_bits_to_f64_bits, i128_to_f64_bits};
use crate::lexer::{Token, TokenList, TokenView, toks_view};

verus! {

/// Sign of a prefix operator.
#[derive(Debug, Clone, Copy, PartialEq, Eq, Structural)]
pub enum UnaryOperator {
    Plus,
    Minus,
}

/// The four arithmetic infix operators.
#[derive(Debug, Clone, Copy, PartialEq, Eq, Structural)]
pub enum BinaryOperator {
    Plus,
    Minus,
    Divide,
    Multiply,
}

impl BinaryOperator {
    /// The rank used by the parser's tie-break rule. It is deliberately not
    /// conventional arithmetic precedence: `Minus` ranks below `Plus`.
    pub open spec fn priority_spec(&self) -> u8 {
        match self {
            BinaryOperator::Plus => 1,
            BinaryOperator::Minus => 0,
            BinaryOperator::Divide => 2,
            BinaryOperator::Multiply => 3,
        }
    }

    #[verifier::when_used_as_spec(priority_spec)]
    pub fn priority(&self) -> (r: u8)
        ensures
            r == self.priority_spec(),
    {
        match self {
            BinaryOperator::Plus => 1,
            BinaryOperator::Minus => 0,
            BinaryOperator::Divide => 2,
            BinaryOperator::Multiply => 3,
        }
    }
}


// ---------------------------------------------------------------------------
// Numbers
// ---------------------------------------------------------------------------

/// A numeric value of one of the five kinds. The floating kinds carry
/// IEEE-754 bit patterns.
#[derive(Debug, Clone, Copy, PartialEq, Eq, Structural)]
pub enum Number {
    Float32(u32),
    Float64(u64),
    Int32(i32),
    Int64(i64),
    Int128(i128),
}

impl Number {
    /// Whether this number is of a floating kind.
    pub open spec fn is_float(self) -> bool {
        match self {
            Number::Float32(_) => true,
            Number::Float64(_) => true,
            _ => false,
        }
    }

    /// The widening of this number to the 64-bit floating kind, as bits:
    /// exact for the 32-bit kinds, rounded to nearest for wide integers.
    pub open spec fn as_f64_spec(self) -> u64 {
        match self {
            Number::Float32(b) => f64_bits_of_f32_bits(b),
            Number::Float64(b) => b,
            Number::Int32(v) => f64_bits_of_i128(v as int),
            Number::Int64(v) => f64_bits_of_i128(v as int),
            Number::Int128(v) => f64_bits_of_i128(v as int),
        }
    }

    /// The widening of an integer kind to the 128-bit integer kind.
    pub open spec fn as_i128_spec(self) -> int {
        match self {
            Number::Int32(v) => v as int,
            Number::Int64(v) => v as int,
            Number::Int128(v) => v as int,
            _ => 0,
        }
    }

    /// Whether a binary operation on `self` and `other` is carried out in
    /// floating point: true when either operand is of a floating kind.
    pub fn is_floating_point(&self, other: &Self) -> (r: bool)
        ensures
            r == (self.is_float() || other.is_float()),
    {
        match (self, other) {
            (Number::Float32(_), _) => true,
            (Number::Float64(_), _) => true,
            (_, Number::Float32(_)) => true,
            (_, Number::Float64(_)) => true,
            _ => false,
        }
    }

    /// Widens to the 64-bit floating kind, returning the bits.
    pub fn as_f64(&self) -> (r: u64)
        ensures
            r == self.as_f64_spec(),
    {
        match self {
            Number::Float32(b) => f32_bits_to_f64_bits(*b),
            Number::Float64(b) => *b,
            Number::Int32(v) => i128_to_f64_bits(*v as i128),
            Number::Int64(v) => i128_to_f64_bits(*v as i128),
            Number::Int128(v) => i128_to_f64_bits(*v),
        }
    }

    /// Widens an integer kind to the 128-bit integer kind.
    pub fn as_i128(&self) -> (r: i128)
        requires
            !self.is_float(),
        ensures
            r == self.as_i128_spec(),
    {
        match self {
            Number::Int32(v) => *v as i128,
            Number::Int64(v) => *v as i128,
            Number::Int128(v) => *v,
            _ => {
                proof {
                    assert(false);
                }
                0
            }
        }
    }
}

// ---------------------------------------------------------------------------
// Expressions
// ---------------------------------------------------------------------------

/// One node of the expression tree built from a token sequence.
#[derive(Debug, PartialEq)]
pub enum Expression {
    UnaryOperation { operator: UnaryOperator, expr: Box<Expression> },
    BinaryOperation { operator: BinaryOperator, left: Box<Expression>, right: Box<Expression> },
    ParenthesisExpression(Box<Expression>),
    Number(Number),
    Char(char),
    String(String),
}

/// The mathematical model of an expression tree.
pub enum ExpressionView {
    UnaryOperation { operator: UnaryOperator, expr: Box<ExpressionView> },
    BinaryOperation {
        operator: BinaryOperator,
        left: Box<ExpressionView>,
        right: Box<ExpressionView>,
    },
    ParenthesisExpression(Box<ExpressionView>),
    Number(Number),
    Char(char),
    String(Seq<char>),
}

pub open spec fn expr_view(e: &Expression) -> ExpressionView
    decreases e,
{
    match e {
        Expression::UnaryOperation { operator, expr } => ExpressionView::UnaryOperation {
            operator: *operator,
            expr: Box::new(expr_view(&**expr)),
        },
        Expression::BinaryOperation { operator, left, right } => ExpressionView::BinaryOperation {
            operator: *operator,
            left: Box::new(expr_view(&**left)),
            right: Box::new(expr_view(&**right)),
        },
        Expression::ParenthesisExpression(inner) => ExpressionView::ParenthesisExpression(
            Box::new(expr_view(&**inner)),
        ),
        Expression::Number(n) => ExpressionView::Number(*n),
        Expression::Char(c) => ExpressionView::Char(*c),
        Expression::String(st) => ExpressionView::String(st@),
    }
}

impl View for Expression {
    type V = ExpressionView;

    open spec fn view(&self) -> ExpressionView {
        expr_view(self)
    }
}

impl Clone for Expression {
    /// A structural copy: the copy's model equals the original's.
    fn clone(&self) -> (r: Self)
        ensures
            r@ == self@,
        decreases self,
    {
        match self {
            Expression::UnaryOperation { operator, expr } => Expression::UnaryOperation {
                operator: *operator,
                expr: Box::new((**expr).clone()),
            },
            Expression::BinaryOperation { operator, left, right } => Expression::BinaryOperation {
                operator: *operator,
                left: Box::new((**left).clone()),
                right: Box::new((**right).clone()),
            },
            Expression::ParenthesisExpression(inner) => Expression::ParenthesisExpression(
                Box::new((**inner).clone()),
            ),
            Expression::Number(n) => Expression::Number(*n),
            Expression::Char(c) => Expression::Char(*c),
            Expression::String(st) => Expression::String(st.clone()),
        }
    }
}

/// The expression with any outer parenthesis wrappers stripped.
pub open spec fn unwrap_spec(e: ExpressionView) -> ExpressionView
    decreases e,
{
    match e {
        ExpressionView::ParenthesisExpression(inner) => unwrap_spec(*inner),
        _ => e,
    }
}

/// Whether the expression is a bare text literal.
pub open spec fn is_text(e: ExpressionView) -> bool {
    match e {
        ExpressionView::String(_) => true,
        ExpressionView::Char(_) => true,
        _ => false,
    }
}

impl Expression {
    /// Strips parenthesis wrappers off the outside of the expression,
    /// copying the innermost expression.
    pub fn unwrap_content(&self) -> (r: Expression)
        ensures
            r@ == unwrap_spec(self@),
        decreases self,
    {
        if let Expression::ParenthesisExpression(expr) = self {
            (**expr).unwrap_content()
        } else {
            self.clone()
        }
    }
}

/// Whether the expression unwraps to a text literal, parentheses stripped.
fn unwraps_to_text(e: &Expression) -> (r: bool)
    ensures
        r == is_text(unwrap_spec(e@)),
    decreases e,
{
    match e {
        Expression::ParenthesisExpression(inner) => unwraps_to_text(&**inner),
        Expression::String(_) => true,
        Expression::Char(_) => true,
        _ => false,
    }
}

// ---------------------------------------------------------------------------
// The parser
// ---------------------------------------------------------------------------

/// A structural violation of the grammar, with the index of the offending
/// token (or of the end of the sequence).
#[derive(Debug, Clone, Copy, PartialEq, Eq, Structural)]
pub enum ParseError {
    UnexpectedToken { index: usize },
    UnexpectedEnd { index: usize },
    UnclosedParenthesis { index: usize },
    TextOperand { index: usize },
}

/// The result of one parsing step: an expression and the number of tokens
/// consumed, or a failure.
pub enum PRes {
    Expr(ExpressionView, nat),
    Fail(ParseError),
}

/// Adds the already consumed leading token to a step's count.
pub open spec fn bump(r: PRes) -> PRes {
    match r {
        PRes::Expr(e, c) => PRes::Expr(e, (c + 1) as nat),
        PRes::Fail(e) => PRes::Fail(e),
    }
}

pub open spec fn binop_of_token(t: TokenView) -> Option<BinaryOperator> {
    match t {
        TokenView::Plus => Some(BinaryOperator::Plus),
        TokenView::Minus => Some(BinaryOperator::Minus),
        TokenView::Multiply => Some(BinaryOperator::Multiply),
        TokenView::Divide => Some(BinaryOperator::Divide),
        _ => None,
    }
}

pub open spec fn number_of_token(t: TokenView) -> Option<Number> {
    match t {
        TokenView::I32(v) => Some(Number::Int32(v)),
        TokenView::I64(v) => Some(Number::Int64(v)),
        TokenView::I128(v) => Some(Number::Int128(v)),
        TokenView::F32(b) => Some(Number::Float32(b)),
        TokenView::F64(b) => Some(Number::Float64(b)),
        _ => None,
    }
}

/// What parsing one expression at `i` yields: a leading sign starts a unary
/// operation, a literal stands for itself (a numeric literal may continue
/// into a binary operation), `(` opens a parenthesized expression, and any
/// other token is a structural violation.
pub open spec fn default_parse_spec(s: Seq<TokenView>, i: int) -> PRes
    decreases s.len() - i, 0int,
{
    if !(0 <= i < s.len()) {
        PRes::Fail(ParseError::UnexpectedEnd { index: i as usize })
    } else {
        match s[i] {
            TokenView::Plus => bump(parse_unary_spec(s, i + 1, UnaryOperator::Plus)),
            TokenView::Minus => bump(parse_unary_spec(s, i + 1, UnaryOperator::Minus)),
            TokenView::Multiply => PRes::Fail(ParseError::UnexpectedToken { index: i as usize }),
            TokenView::Divide => PRes::Fail(ParseError::UnexpectedToken { index: i as usize }),
            TokenView::I32(v) => bump(parse_number_spec(s, i + 1, Number::Int32(v))),
            TokenView::I64(v) => bump(parse_number_spec(s, i + 1, Number::Int64(v))),
            TokenView::I128(v) => bump(parse_number_spec(s, i + 1, Number::Int128(v))),
            TokenView::F32(b) => bump(parse_number_spec(s, i + 1, Number::Float32(b))),
            TokenView::F64(b) => bump(parse_number_spec(s, i + 1, Number::Float64(b))),
            TokenView::String(st) => PRes::Expr(ExpressionView::String(st), 1),
            TokenView::Char(c) => PRes::Expr(ExpressionView::Char(c), 1),
            TokenView::LParenthesis => bump(parse_lparen_spec(s, i + 1)),
            TokenView::RParenthesis => PRes::Fail(ParseError::UnexpectedToken { index: i as usize }),
        }
    }
}

/// What continuing after a numeric literal yields: a binary operator
/// combines it with what follows; a closing parenthesis or the end of the
/// sequence leaves the literal as is.
pub open spec fn parse_number_spec(s: Seq<TokenView>, j: int, n: Number) -> PRes
    decreases s.len() - j, 1int,
{
    if !(0 <= j < s.len()) {
        PRes::Expr(ExpressionView::Number(n), 0)
    } else {
        match binop_of_token(s[j]) {
            Some(op) => bump(parse_binary_spec(s, j + 1, ExpressionView::Number(n), op)),
            None => {
                if s[j] is RParenthesis {
                    PRes::Expr(ExpressionView::Number(n), 0)
                } else {
                    PRes::Fail(ParseError::UnexpectedToken { index: j as usize })
                }
            }
        }
    }
}

/// What combining `left` and `op` with the expression parsed at `k` yields.
/// A right-hand side that unwraps to a text literal is a violation. When the
/// right-hand side is itself a binary operation of operator `op2`, the
/// priorities break the tie: `op` of lower or equal priority nests the
/// right-hand side whole; `op` of greater priority is rotated one level in,
/// binding to the inner left operand, and `op2` becomes the outer operator.
pub open spec fn parse_binary_spec(
    s: Seq<TokenView>,
    k: int,
    left: ExpressionView,
    op: BinaryOperator,
) -> PRes
    decreases s.len() - k, 1int,
{
    match default_parse_spec(s, k) {
        PRes::Fail(e) => PRes::Fail(e),
        PRes::Expr(rhs, c) => {
            if is_text(unwrap_spec(rhs)) {
                PRes::Fail(ParseError::TextOperand { index: k as usize })
            } else {
                match rhs {
                    ExpressionView::BinaryOperation { operator: op2, left: l2, right: r2 } => {
                        if op.priority_spec() <= op2.priority_spec() {
                            PRes::Expr(
                                ExpressionView::BinaryOperation {
                                    operator: op,
                                    left: Box::new(left),
                                    right: Box::new(rhs),
                                },
                                c,
                            )
                        } else {
                            PRes::Expr(
                                ExpressionView::BinaryOperation {
                                    operator: op2,
                                    left: Box::new(ExpressionView::BinaryOperation {
                                        operator: op,
                                        left: Box::new(left),
                                        right: l2,
                                    }),
                                    right: r2,
                                },
                                c,
                            )
                        }
                    }
                    _ => PRes::Expr(
                        ExpressionView::BinaryOperation {
                            operator: op,
                            left: Box::new(left),
                            right: Box::new(rhs),
                        },
                        c,
                    ),
                }
            }
        }
    }
}

/// What follows a unary operand at `after`, the operand having started at
/// `j`: a binary operator continues, a closing parenthesis is consumed and
/// ends the operation, the end of the sequence ends it, anything else is a
/// violation.
pub open spec fn parse_unary_cont(
    s: Seq<TokenView>,
    j: int,
    uop: UnaryOperator,
    operand: ExpressionView,
    after: int,
) -> PRes
    decreases s.len() - after, 0int,
{
    let unary_expr = ExpressionView::UnaryOperation { operator: uop, expr: Box::new(operand) };
    if !(0 <= after < s.len()) {
        PRes::Expr(unary_expr, (after - j) as nat)
    } else {
        match binop_of_token(s[after]) {
            Some(op) => match parse_binary_spec(s, after + 1, unary_expr, op) {
                PRes::Fail(e) => PRes::Fail(e),
                PRes::Expr(e, c2) => PRes::Expr(e, (after + 1 + c2 - j) as nat),
            },
            None => {
                if s[after] is RParenthesis {
                    PRes::Expr(unary_expr, (after + 1 - j) as nat)
                } else {
                    PRes::Fail(ParseError::UnexpectedToken { index: after as usize })
                }
            }
        }
    }
}

/// What parsing the operand of a unary operator at `j` yields: a numeric
/// literal is taken directly, anything else is parsed as an expression; a
/// text literal operand is a violation.
pub open spec fn parse_unary_spec(s: Seq<TokenView>, j: int, uop: UnaryOperator) -> PRes
    decreases s.len() - j, 1int,
{
    if !(0 <= j < s.len()) {
        PRes::Fail(ParseError::UnexpectedEnd { index: j as usize })
    } else {
        match number_of_token(s[j]) {
            Some(n) => parse_unary_cont(s, j, uop, ExpressionView::Number(n), j + 1),
            None => {
                match default_parse_spec(s, j) {
                    PRes::Fail(e) => PRes::Fail(e),
                    PRes::Expr(e, c) => {
                        if is_text(e) {
                            PRes::Fail(ParseError::TextOperand { index: j as usize })
                        } else {
                            parse_unary_cont(
                                s,
                                j,
                                uop,
                                e,
                                if j + c <= s.len() {
                                    j + c
                                } else {
                                    s.len() as int
                                },
                            )
                        }
                    }
                }
            }
        }
    }
}

/// What follows a parenthesized expression at `p`, the group having started
/// at `j`: a binary operator continues with the group as left operand, a
/// closing parenthesis is left for the enclosing group, the end of the
/// sequence ends the expression.
pub open spec fn parse_lparen_cont(
    s: Seq<TokenView>,
    j: int,
    pexpr: ExpressionView,
    p: int,
) -> PRes
    decreases s.len() - p, 0int,
{
    if !(0 <= p < s.len()) {
        PRes::Expr(pexpr, (p - j) as nat)
    } else {
        match binop_of_token(s[p]) {
            Some(op) => match parse_binary_spec(s, p + 1, pexpr, op) {
                PRes::Fail(e) => PRes::Fail(e),
                PRes::Expr(e, c2) => PRes::Expr(e, (p + 1 + c2 - j) as nat),
            },
            None => {
                if s[p] is RParenthesis {
                    PRes::Expr(pexpr, (p - j) as nat)
                } else {
                    PRes::Fail(ParseError::UnexpectedToken { index: p as usize })
                }
            }
        }
    }
}

/// What parsing a parenthesized group whose `(` stood at `j - 1` yields: an
/// inner expression followed by a mandatory `)`.
pub open spec fn parse_lparen_spec(s: Seq<TokenView>, j: int) -> PRes
    decreases s.len() - j, 1int,
{
    match default_parse_spec(s, j) {
        PRes::Fail(e) => PRes::Fail(e),
        PRes::Expr(inner, c) => {
            let k = j + c;
            if 0 <= k < s.len() && s[k] is RParenthesis {
                parse_lparen_cont(
                    s,
                    j,
                    ExpressionView::ParenthesisExpression(Box::new(inner)),
                    k + 1,
                )
            } else {
                PRes::Fail(ParseError::UnclosedParenthesis { index: k as usize })
            }
        }
    }
}

/// What parsing a whole token sequence yields: nothing for an empty
/// sequence, otherwise one expression or a structural violation.
pub open spec fn parse_spec(s: Seq<TokenView>) -> Result<Option<ExpressionView>, ParseError> {
    if s.len() == 0 {
        Ok(None)
    } else {
        match default_parse_spec(s, 0) {
            PRes::Expr(e, c) => Ok(Some(e)),
            PRes::Fail(err) => Err(err),
        }
    }
}

#[verifier::rlimit(100)]
fn default_parse(s: &Vec<Token>, i: usize) -> (r: Result<(Expression, usize), ParseError>)
    requires
        i <= s@.len(),
    ensures
        match default_parse_spec(toks_view(s@), i as int) {
            PRes::Expr(e, c) => r matches Ok(p) && p.0@ == e && p.1 == c && i + c <= s@.len(),
            PRes::Fail(err) => r matches Err(er) && er == err,
        },
    decreases s@.len() - i, 0int,
{
    if i >= s.len() {
        return Err(ParseError::UnexpectedEnd { index: i });
    }
    match &s[i] {
        Token::Plus => match parse_unary(s, i + 1, UnaryOperator::Plus) {
            Ok((e, c)) => Ok((e, c + 1)),
            Err(er) => Err(er),
        },
        Token::Minus => match parse_unary(s, i + 1, UnaryOperator::Minus) {
            Ok((e, c)) => Ok((e, c + 1)),
            Err(er) => Err(er),
        },
        Token::Multiply => Err(ParseError::UnexpectedToken { index: i }),
        Token::Divide => Err(ParseError::UnexpectedToken { index: i }),
        Token::I32(v) => match parse_number(s, i + 1, Number::Int32(*v)) {
            Ok((e, c)) => Ok((e, c + 1)),
            Err(er) => Err(er),
        },
        Token::I64(v) => match parse_number(s, i + 1, Number::Int64(*v)) {
            Ok((e, c)) => Ok((e, c + 1)),
            Err(er) => Err(er),
        },
        Token::I128(v) => match parse_number(s, i + 1, Number::Int128(*v)) {
            Ok((e, c)) => Ok((e, c + 1)),
            Err(er) => Err(er),
        },
        Token::F32(b) => match parse_number(s, i + 1, Number::Float32(*b)) {
            Ok((e, c)) => Ok((e, c + 1)),
            Err(er) => Err(er),
        },
        Token::F64(b) => match parse_number(s, i + 1, Number::Float64(*b)) {
            Ok((e, c)) => Ok((e, c + 1)),
            Err(er) => Err(er),
        },
        Token::String(st) => Ok((Expression::String(st.clone()), 1)),
        Token::Char(c) => Ok((Expression::Char(*c), 1)),
        Token::LParenthesis => match parse_lparen(s, i + 1) {
            Ok((e, c)) => Ok((e, c + 1)),
            Err(er) => Err(er),
        },
        Token::RParenthesis => Err(ParseError::UnexpectedToken { index: i }),
    }
}

#[verifier::rlimit(100)]
fn parse_number(s: &Vec<Token>, j: usize, n: Number) -> (r: Result<(Expression, usize), ParseError>)
    requires
        j <= s@.len(),
    ensures
        match parse_number_spec(toks_view(s@), j as int, n) {
            PRes::Expr(e, c) => r matches Ok(p) && p.0@ == e && p.1 == c && j + c <= s@.len(),
            PRes::Fail(err) => r matches Err(er) && er == err,
        },
    decreases s@.len() - j, 1int,
{
    if j >= s.len() {
        return Ok((Expression::Number(n), 0));
    }
    match &s[j] {
        Token::Plus => match parse_binary(s, j + 1, Expression::Number(n), BinaryOperator::Plus) {
            Ok((e, c)) => Ok((e, c + 1)),
            Err(er) => Err(er),
        },
        Token::Minus => match parse_binary(s, j + 1, Expression::Number(n), BinaryOperator::Minus) {
            Ok((e, c)) => Ok((e, c + 1)),
            Err(er) => Err(er),
        },
        Token::Multiply => match parse_binary(
            s,
            j + 1,
            Expression::Number(n),
            BinaryOperator::Multiply,
        ) {
            Ok((e, c)) => Ok((e, c + 1)),
            Err(er) => Err(er),
        },
        Token::Divide => match parse_binary(
            s,
            j + 1,
            Expression::Number(n),
            BinaryOperator::Divide,
        ) {
            Ok((e, c)) => Ok((e, c + 1)),
            Err(er) => Err(er),
        },
        Token::RParenthesis => Ok((Expression::Number(n), 0)),
        _ => Err(ParseError::UnexpectedToken { index: j }),
    }
}

#[verifier::rlimit(100)]
fn parse_binary(
    s: &Vec<Token>,
    k: usize,
    expression: Expression,
    operator: BinaryOperator,
) -> (r: Result<(Expression, usize), ParseError>)
    requires
        k <= s@.len(),
    ensures
        match parse_binary_spec(toks_view(s@), k as int, expression@, operator) {
            PRes::Expr(e, c) => r matches Ok(p) && p.0@ == e && p.1 == c && k + c <= s@.len(),
            PRes::Fail(err) => r matches Err(er) && er == err,
        },
    decreases s@.len() - k, 1int,
{
    match default_parse(s, k) {
        Err(e) => Err(e),
        Ok((second, c)) => {
            let ghost rhs = second@;
            let ghost leftv = expression@;
            if unwraps_to_text(&second) {
                Err(ParseError::TextOperand { index: k })
            } else {
                match second {
                    Expression::BinaryOperation { operator: op2, left, right } => {
                        if operator.priority() <= op2.priority() {
                            let rebuilt = Expression::BinaryOperation {
                                operator: op2,
                                left,
                                right,
                            };
                            proof {
                                assert(rebuilt@ == rhs);
                            }
                            let out = Expression::BinaryOperation {
                                operator,
                                left: Box::new(expression),
                                right: Box::new(rebuilt),
                            };
                            proof {
                                assert(out@ == (ExpressionView::BinaryOperation {
                                    operator,
                                    left: Box::new(leftv),
                                    right: Box::new(rhs),
                                }));
                            }
                            Ok((out, c))
                        } else {
                            let ghost l2 = rhs->BinaryOperation_left;
                            let ghost r2 = rhs->BinaryOperation_right;
                            let inner = Expression::BinaryOperation {
                                operator,
                                left: Box::new(expression),
                                right: left,
                            };
                            proof {
                                assert(inner@ == (ExpressionView::BinaryOperation {
                                    operator,
                                    left: Box::new(leftv),
                                    right: l2,
                                }));
                            }
                            let out = Expression::BinaryOperation {
                                operator: op2,
                                left: Box::new(inner),
                                right,
                            };
                            proof {
                                assert(out@ == (ExpressionView::BinaryOperation {
                                    operator: op2,
                                    left: Box::new(ExpressionView::BinaryOperation {
                                        operator,
                                        left: Box::new(leftv),
                                        right: l2,
                                    }),
                                    right: r2,
                                }));
                            }
                            Ok((out, c))
                        }
                    }
                    other => {
                        let out = Expression::BinaryOperation {
                            operator,
                            left: Box::new(expression),
                            right: Box::new(other),
                        };
                        proof {
                            assert(out@ == (ExpressionView::BinaryOperation {
                                operator,
                                left: Box::new(leftv),
                                right: Box::new(rhs),
                            }));
                        }
                        Ok((out, c))
                    }
                }
            }
        }
    }
}

#[verifier::rlimit(100)]
fn parse_unary(s: &Vec<Token>, j: usize, operator: UnaryOperator) -> (r: Result<
    (Expression, usize),
    ParseError,
>)
    requires
        j <= s@.len(),
    ensures
        match parse_unary_spec(toks_view(s@), j as int, operator) {
            PRes::Expr(e, c) => r matches Ok(p) && p.0@ == e && p.1 == c && j + c <= s@.len(),
            PRes::Fail(err) => r matches Err(er) && er == err,
        },
    decreases s@.len() - j, 1int,
{
    if j >= s.len() {
        return Err(ParseError::UnexpectedEnd { index: j });
    }
    let expr: Expression;
    let after: usize;
    match &s[j] {
        Token::F32(b) => {
            expr = Expression::Number(Number::Float32(*b));
            after = j + 1;
        }
        Token::F64(b) => {
            expr = Expression::Number(Number::Float64(*b));
            after = j + 1;
        }
        Token::I32(v) => {
            expr = Expression::Number(Number::Int32(*v));
            after = j + 1;
        }
        Token::I64(v) => {
            expr = Expression::Number(Number::Int64(*v));
            after = j + 1;
        }
        Token::I128(v) => {
            expr = Expression::Number(Number::Int128(*v));
            after = j + 1;
        }
        _ => {
            match default_parse(s, j) {
                Ok((e, c)) => {
                    expr = e;
                    after = j + c;
                }
                Err(e) => {
                    return Err(e);
                }
            }
        }
    }
    match &expr {
        Expression::String(_) => {
            return Err(ParseError::TextOperand { index: j });
        }
        Expression::Char(_) => {
            return Err(ParseError::TextOperand { index: j });
        }
        _ => {}
    }
    let ghost operandv = expr@;
    let unary_expr = Expression::UnaryOperation { operator, expr: Box::new(expr) };
    proof {
        assert(unary_expr@ == (ExpressionView::UnaryOperation {
            operator,
            expr: Box::new(operandv),
        }));
    }
    if after >= s.len() {
        return Ok((unary_expr, after - j));
    }
    match &s[after] {
        Token::Plus => match parse_binary(s, after + 1, unary_expr, BinaryOperator::Plus) {
            Ok((e, c2)) => Ok((e, after + 1 + c2 - j)),
            Err(e) => Err(e),
        },
        Token::Minus => match parse_binary(s, after + 1, unary_expr, BinaryOperator::Minus) {
            Ok((e, c2)) => Ok((e, after + 1 + c2 - j)),
            Err(e) => Err(e),
        },
        Token::Multiply => match parse_binary(s, after + 1, unary_expr, BinaryOperator::Multiply) {
            Ok((e, c2)) => Ok((e, after + 1 + c2 - j)),
            Err(e) => Err(e),
        },
        Token::Divide => match parse_binary(s, after + 1, unary_expr, BinaryOperator::Divide) {
            Ok((e, c2)) => Ok((e, after + 1 + c2 - j)),
            Err(e) => Err(e),
        },
        Token::RParenthesis => Ok((unary_expr, after + 1 - j)),
        _ => Err(ParseError::UnexpectedToken { index: after }),
    }
}

#[verifier::rlimit(100)]
fn parse_lparen(s: &Vec<Token>, j: usize) -> (r: Result<(Expression, usize), ParseError>)
    requires
        j <= s@.len(),
    ensures
        match parse_lparen_spec(toks_view(s@), j as int) {
            PRes::Expr(e, c) => r matches Ok(p) && p.0@ == e && p.1 == c && j + c <= s@.len(),
            PRes::Fail(err) => r matches Err(er) && er == err,
        },
    decreases s@.len() - j, 1int,
{
    let n = s.len();
    match default_parse(s, j) {
        Err(e) => Err(e),
        Ok((inner, c)) => {
            let k = j + c;
            if k < s.len() {
                match &s[k] {
                    Token::RParenthesis => {
                        let ghost innerv = inner@;
                        let pexpr = Expression::ParenthesisExpression(Box::new(inner));
                        proof {
                            assert(pexpr@ == ExpressionView::ParenthesisExpression(
                                Box::new(innerv),
                            ));
                        }
                        let p = k + 1;
                        if p >= s.len() {
                            return Ok((pexpr, p - j));
                        }
                        match &s[p] {
                            Token::Plus => match parse_binary(
                                s,
                                p + 1,
                                pexpr,
                                BinaryOperator::Plus,
                            ) {
                                Ok((e, c2)) => Ok((e, p + 1 + c2 - j)),
                                Err(e) => Err(e),
                            },
                            Token::Minus => match parse_binary(
                                s,
                                p + 1,
                                pexpr,
                                BinaryOperator::Minus,
                            ) {
                                Ok((e, c2)) => Ok((e, p + 1 + c2 - j)),
                                Err(e) => Err(e),
                            },
                            Token::Multiply => match parse_binary(
                                s,
                                p + 1,
                                pexpr,
                                BinaryOperator::Multiply,
                            ) {
                                Ok((e, c2)) => Ok((e, p + 1 + c2 - j)),
                                Err(e) => Err(e),
                            },
                            Token::Divide => match parse_binary(
                                s,
                                p + 1,
                                pexpr,
                                BinaryOperator::Divide,
                            ) {
                                Ok((e, c2)) => Ok((e, p + 1 + c2 - j)),
                                Err(e) => Err(e),
                            },
                            Token::RParenthesis => Ok((pexpr, p - j)),
                            _ => Err(ParseError::UnexpectedToken { index: p }),
                        }
                    }
                    _ => Err(ParseError::UnclosedParenthesis { index: k }),
                }
            } else {
                Err(ParseError::UnclosedParenthesis { index: k })
            }
        }
    }
}

/// Parses a token sequence into one expression tree: `Ok(None)` for an empty
/// sequence, the tree otherwise, or the first structural violation with the
/// index of the offending token.
pub fn parse(tokens: &TokenList) -> (r: Result<Option<Expression>, ParseError>)
    ensures
        match parse_spec(toks_view(tokens@)) {
            Ok(o) => r matches Ok(ro) && (match o {
                Some(e) => ro matches Some(re) && re@ == e,
                None => ro is None,
            }),
            Err(err) => r matches Err(er) && er == err,
        },
{
    if tokens.len() == 0 {
        return Ok(None);
    }
    match default_parse(tokens, 0) {
        Ok((e, _c)) => Ok(Some(e)),
        Err(er) => Err(er),
    }
}

} // verus!
