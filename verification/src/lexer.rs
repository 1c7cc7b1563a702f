//! The lexer: turns one line of source text into a sequence of tokens, or a
//! positioned error for caret-style display.
//!
//! Positions are character indices into the line. Numeric literals are
//! classified by their accumulated digit count (not magnitude): 1-9 digits
//! give a 32-bit kind, 10-18 a 64-bit kind, 19 or more a 128-bit integer
//! (floating literals of 19 or more digits stay 64-bit, there being no wider
//! floating kind).

use vstd::prelude::*;
use vstd::string::StringExecFns;
use vstd::std_specs::iter::IteratorSpec;
use crate::fp::{f32_bits_of_decimal, f64_bits_of_decimal, parse_f32_bits, parse_f64_bits};

verus! {

/// One lexical unit. Floating literals carry IEEE-754 bit patterns.
#[derive(Debug, Clone, PartialEq)]
pub enum Token {
    Plus,
    Minus,
    Multiply,
    Divide,
    I32(i32),
    I64(i64),
    I128(i128),
    F32(u32),
    F64(u64),
    String(String),
    Char(char),
    LParenthesis,
    RParenthesis,
}

pub type TokenList = Vec<Token>;

/// The mathematical model of a token: string content as a sequence of
/// characters.
pub enum TokenView {
    Plus,
    Minus,
    Multiply,
    Divide,
    I32(i32),
    I64(i64),
    I128(i128),
    F32(u32),
    F64(u64),
    String(Seq<char>),
    Char(char),
    LParenthesis,
    RParenthesis,
}

impl View for Token {
    type V = TokenView;

    open spec fn view(&self) -> TokenView {
        match self {
            Token::Plus => TokenView::Plus,
            Token::Minus => TokenView::Minus,
            Token::Multiply => TokenView::Multiply,
            Token::Divide => TokenView::Divide,
            Token::I32(v) => TokenView::I32(*v),
            Token::I64(v) => TokenView::I64(*v),
            Token::I128(v) => TokenView::I128(*v),
            Token::F32(b) => TokenView::F32(*b),
            Token::F64(b) => TokenView::F64(*b),
            Token::String(s) => TokenView::String(s@),
            Token::Char(c) => TokenView::Char(*c),
            Token::LParenthesis => TokenView::LParenthesis,
            Token::RParenthesis => TokenView::RParenthesis,
        }
    }
}

/// A lexing failure, with a half-open character-index span into the line.
#[derive(Debug, Clone, PartialEq)]
pub enum LexerError {
    IllegalCharacter { position: usize, message: String },
    ParsingError { start_position: usize, end_position: usize, message: String },
}

/// The mathematical model of a lexing failure.
pub enum LexerErrorView {
    IllegalCharacter { position: int, message: Seq<char> },
    ParsingError { start_position: int, end_position: int, message: Seq<char> },
}

impl View for LexerError {
    type V = LexerErrorView;

    open spec fn view(&self) -> LexerErrorView {
        match self {
            LexerError::IllegalCharacter { position, message } => (
                LexerErrorView::IllegalCharacter {
                    position: *position as int,
                    message: message@,
                }
            ),
            LexerError::ParsingError { start_position, end_position, message } => (
                LexerErrorView::ParsingError {
                    start_position: *start_position as int,
                    end_position: *end_position as int,
                    message: message@,
                }
            ),
        }
    }
}

// ---------------------------------------------------------------------------
// Character classes
// ---------------------------------------------------------------------------

pub open spec fn is_digit(c: char) -> bool {
    48 <= c as u32 <= 57
}

pub open spec fn digit_val(c: char) -> int {
    c as u32 - 48
}

pub open spec fn is_hex_digit(c: char) -> bool {
    is_digit(c) || (97 <= c as u32 <= 102) || (65 <= c as u32 <= 70)
}

pub open spec fn hex_val(c: char) -> int {
    if is_digit(c) {
        c as u32 - 48
    } else if 97 <= c as u32 <= 102 {
        c as u32 - 87
    } else {
        c as u32 - 55
    }
}

pub open spec fn is_alnum(c: char) -> bool {
    is_digit(c) || (97 <= c as u32 <= 122) || (65 <= c as u32 <= 90)
}

/// The Unicode `White_Space` characters, as `char::is_whitespace` recognizes
/// them.
pub open spec fn is_whitespace(c: char) -> bool {
    let u = c as u32;
    u == 0x9 || u == 0xA || u == 0xB || u == 0xC || u == 0xD || u == 0x20 || u == 0x85
        || u == 0xA0 || u == 0x1680 || (0x2000 <= u <= 0x200A) || u == 0x2028 || u == 0x2029
        || u == 0x202F || u == 0x205F || u == 0x3000
}

pub open spec fn valid_unicode_scalar(n: int) -> bool {
    (0 <= n < 0xD800) || (0xE000 <= n <= 0x10FFFF)
}

fn is_digit_exec(c: char) -> (r: bool)
    ensures
        r == is_digit(c),
{
    let u = c as u32;
    48 <= u && u <= 57
}

fn is_alnum_exec(c: char) -> (r: bool)
    ensures
        r == is_alnum(c),
{
    let u = c as u32;
    (48 <= u && u <= 57) || (97 <= u && u <= 122) || (65 <= u && u <= 90)
}

fn is_whitespace_exec(c: char) -> (r: bool)
    ensures
        r == is_whitespace(c),
{
    let u = c as u32;
    u == 0x9 || u == 0xA || u == 0xB || u == 0xC || u == 0xD || u == 0x20 || u == 0x85
        || u == 0xA0 || u == 0x1680 || (0x2000 <= u && u <= 0x200A) || u == 0x2028 || u == 0x2029
        || u == 0x202F || u == 0x205F || u == 0x3000
}

/// The hexadecimal value of `c`, or `None` when `c` is not a hex digit.
fn hex_digit_value(c: char) -> (r: Option<u32>)
    ensures
        is_hex_digit(c) ==> r == Some(hex_val(c) as u32),
        !is_hex_digit(c) ==> r is None,
{
    let u = c as u32;
    if 48 <= u && u <= 57 {
        Some(u - 48)
    } else if 97 <= u && u <= 102 {
        Some(u - 87)
    } else if 65 <= u && u <= 70 {
        Some(u - 55)
    } else {
        None
    }
}

// ---------------------------------------------------------------------------
// Values of digit sequences
// ---------------------------------------------------------------------------

pub open spec fn all_digits(s: Seq<char>) -> bool {
    forall|k: int| 0 <= k < s.len() ==> is_digit(#[trigger] s[k])
}

pub open spec fn all_hex_digits(s: Seq<char>) -> bool {
    forall|k: int| 0 <= k < s.len() ==> is_hex_digit(#[trigger] s[k])
}

/// The value of a decimal digit string.
pub open spec fn digits_val(s: Seq<char>) -> int
    decreases s.len(),
{
    if s.len() == 0 {
        0
    } else {
        digits_val(s.drop_last()) * 10 + digit_val(s.last())
    }
}

/// The value of a hexadecimal digit string.
pub open spec fn hex_seq_val(s: Seq<char>) -> int
    decreases s.len(),
{
    if s.len() == 0 {
        0
    } else {
        hex_seq_val(s.drop_last()) * 16 + hex_val(s.last())
    }
}

pub open spec fn pow10(n: nat) -> int
    decreases n,
{
    if n == 0 {
        1
    } else {
        10 * pow10((n - 1) as nat)
    }
}

pub open spec fn pow16(n: nat) -> int
    decreases n,
{
    if n == 0 {
        1
    } else {
        16 * pow16((n - 1) as nat)
    }
}

proof fn lemma_digits_val_bounds(s: Seq<char>)
    requires
        all_digits(s),
    ensures
        0 <= digits_val(s) < pow10(s.len()),
    decreases s.len(),
{
    if s.len() > 0 {
        assert(all_digits(s.drop_last())) by {
            assert(forall|k: int|
                0 <= k < s.len() - 1 ==> s.drop_last()[k] == #[trigger] s[k]);
        }
        lemma_digits_val_bounds(s.drop_last());
    }
}

proof fn lemma_hex_seq_val_bounds(s: Seq<char>)
    requires
        all_hex_digits(s),
    ensures
        0 <= hex_seq_val(s) < pow16(s.len()),
    decreases s.len(),
{
    if s.len() > 0 {
        assert(all_hex_digits(s.drop_last())) by {
            assert(forall|k: int|
                0 <= k < s.len() - 1 ==> s.drop_last()[k] == #[trigger] s[k]);
        }
        lemma_hex_seq_val_bounds(s.drop_last());
    }
}

/// A longer digit string never has a smaller value: the value of a prefix is
/// a lower bound for the value of the whole string.
proof fn lemma_digits_val_prefix(s: Seq<char>, k: int)
    requires
        all_digits(s),
        0 <= k <= s.len(),
    ensures
        digits_val(s.subrange(0, k)) <= digits_val(s),
    decreases s.len(),
{
    lemma_digits_val_bounds(s);
    if k == s.len() {
        assert(s.subrange(0, k) =~= s);
    } else {
        assert(all_digits(s.drop_last())) by {
            assert(forall|j: int|
                0 <= j < s.len() - 1 ==> s.drop_last()[j] == #[trigger] s[j]);
        }
        assert(s.subrange(0, k) =~= s.drop_last().subrange(0, k));
        lemma_digits_val_prefix(s.drop_last(), k);
        lemma_digits_val_bounds(s.drop_last());
        assert(digits_val(s) == digits_val(s.drop_last()) * 10 + digit_val(s.last()));
        assert(digits_val(s.drop_last()) * 10 >= digits_val(s.drop_last())) by (nonlinear_arith)
            requires digits_val(s.drop_last()) >= 0;
    }
}

proof fn lemma_pow10_le(a: nat, b: nat)
    requires
        a <= b,
    ensures
        1 <= pow10(a) <= pow10(b),
    decreases b,
{
    if a == b {
        lemma_pow10_pos(a);
    } else {
        lemma_pow10_le(a, (b - 1) as nat);
    }
}

proof fn lemma_pow10_pos(a: nat)
    ensures
        1 <= pow10(a),
    decreases a,
{
    if a > 0 {
        lemma_pow10_pos((a - 1) as nat);
    }
}

proof fn lemma_pow16_le(a: nat, b: nat)
    requires
        a <= b,
    ensures
        1 <= pow16(a) <= pow16(b),
    decreases b,
{
    if a == b {
        lemma_pow16_pos(a);
    } else {
        lemma_pow16_le(a, (b - 1) as nat);
    }
}

proof fn lemma_pow16_pos(a: nat)
    ensures
        1 <= pow16(a),
    decreases a,
{
    if a > 0 {
        lemma_pow16_pos((a - 1) as nat);
    }
}

/// Computes the value of a decimal digit string, or `None` when it exceeds
/// the 128-bit signed range.
pub fn decimal_value(lit: &Vec<char>) -> (r: Option<i128>)
    requires
        all_digits(lit@),
    ensures
        match r {
            Some(v) => v == digits_val(lit@) && digits_val(lit@) <= i128::MAX,
            None => digits_val(lit@) > i128::MAX,
        },
{
    let mut acc: i128 = 0;
    let mut k: usize = 0;
    proof {
        lemma_digits_val_bounds(lit@);
    }
    while k < lit.len()
        invariant
            all_digits(lit@),
            0 <= k <= lit@.len(),
            acc == digits_val(lit@.subrange(0, k as int)),
            0 <= acc,
        decreases lit@.len() - k,
    {
        let c = lit[k];
        let d: i128 = (c as u32 - 48) as i128;
        proof {
            assert(lit@.subrange(0, k as int + 1).drop_last() =~= lit@.subrange(0, k as int));
            assert(lit@.subrange(0, k as int + 1).last() == lit@[k as int]);
        }
        let next = match acc.checked_mul(10) {
            Some(m) => m.checked_add(d),
            None => None,
        };
        match next {
            Some(v) => {
                acc = v;
            }
            None => {
                proof {
                    assert(digits_val(lit@.subrange(0, k as int + 1)) > i128::MAX);
                    lemma_digits_val_prefix_full(lit@, k as int + 1);
                }
                return None;
            }
        }
        k += 1;
    }
    proof {
        assert(lit@.subrange(0, lit@.len() as int) =~= lit@);
    }
    Some(acc)
}

/// Helper naming `lemma_digits_val_prefix` with the conclusion the caller
/// needs spelled out.
proof fn lemma_digits_val_prefix_full(s: Seq<char>, k: int)
    requires
        all_digits(s),
        0 <= k <= s.len(),
        digits_val(s.subrange(0, k)) > i128::MAX,
    ensures
        digits_val(s) > i128::MAX,
{
    lemma_digits_val_prefix(s, k);
}


// ---------------------------------------------------------------------------
// Escape sequences
// ---------------------------------------------------------------------------

/// Result of scanning one escape sequence: the decoded character together
/// with the number of characters consumed beyond the backslash and the
/// selector character, or a positioned failure.
pub enum EscScan {
    Ch(char, nat),
    Fail(LexerErrorView),
}

/// Number of consecutive alphanumeric characters of `s` starting at `j`.
pub open spec fn leading_alnum(s: Seq<char>, j: int) -> nat
    decreases s.len() - j,
{
    if j < 0 || j >= s.len() || !is_alnum(s[j]) {
        0
    } else {
        (1 + leading_alnum(s, j + 1)) as nat
    }
}

/// The message for a character that cannot follow a backslash.
pub open spec fn msg_cannot_escape(c: char) -> Seq<char> {
    "Syntax error: Character "@ + seq![c]
        + " preceeded by a `\\` cannot be escaped, make sure to escape the backslash like `\\\\"@
        + seq![c] + "` if you meant to add a backslash to the string."@
}

/// The message for a character outside the token alphabet.
pub open spec fn msg_unrecognized(c: char) -> Seq<char> {
    "Unrecognized character "@ + seq![c]
}

/// What scanning `\xHH` yields, `i` being the index of the backslash.
pub open spec fn scan_escape_hex(s: Seq<char>, i: int) -> EscScan {
    if i + 3 < s.len() {
        let c1 = s[i + 2];
        let c2 = s[i + 3];
        if is_hex_digit(c1) && is_hex_digit(c2) {
            let code = hex_val(c1) * 16 + hex_val(c2);
            if code > 0x7F {
                EscScan::Fail(LexerErrorView::ParsingError {
                    start_position: i,
                    end_position: i + 4,
                    message: "Syntax Error: Expected two digits hexadecimal number lower between 0x00 and 0x7F."@,
                })
            } else {
                EscScan::Ch(code as char, 2)
            }
        } else {
            EscScan::Fail(LexerErrorView::ParsingError {
                start_position: i,
                end_position: i + 4,
                message: "Syntax Error: Couldn't parse escaped hexadecimal number. Make sure the digits are valid hexadecimal characters (0-9, A-F)."@,
            })
        }
    } else if i + 2 < s.len() {
        EscScan::Fail(LexerErrorView::ParsingError {
            start_position: i,
            end_position: i + 3,
            message: "Syntax Error: Expected two hexadecimal digits to be escaped, could only find one. Make sure to use two hexadecimal digits like `\\x7F`"@,
        })
    } else {
        EscScan::Fail(LexerErrorView::ParsingError {
            start_position: i,
            end_position: i + 1,
            message: "Syntax Error: Tried to escape an hexadecimal number 7bit number with \\x but couldn't find the two required hexadecimal digits."@,
        })
    }
}

/// What scanning `\u{H..H}` yields, `i` being the index of the backslash.
/// The character after `u` is consumed without being checked to be `{`; up to
/// six alphanumeric characters follow, then a closing `}`.
pub open spec fn scan_escape_unicode(s: Seq<char>, i: int) -> EscScan {
    if i + 2 >= s.len() {
        EscScan::Fail(LexerErrorView::ParsingError {
            start_position: i,
            end_position: i + 2,
            message: "Syntax error: Escaped unicode characters must follow the format: `\\u{07FFFF}` with from 1 to 6 digits. The range of numbers is [0, 10FFFF]."@,
        })
    } else {
        let count = if leading_alnum(s, i + 3) >= 7 {
            7int
        } else {
            leading_alnum(s, i + 3) as int
        };
        if count == 0 {
            EscScan::Fail(LexerErrorView::ParsingError {
                start_position: i,
                end_position: i + 4,
                message: "Syntax Error: Tried to escape a 24bit unicode character but no hexadecimal digits were found. Make sure to specify a hexadecimal number in range [0, 10FFFF]"@,
            })
        } else if count == 7 {
            EscScan::Fail(LexerErrorView::ParsingError {
                start_position: i,
                end_position: i + 9,
                message: "Syntax Error: Tried to escape a 24bit unicode character but found 7 or more characters. A 24bit unicode character can at most have 6 hexadecimal digits and has to be in range [0, 10FFFF]."@,
            })
        } else {
            let rc = i + 3 + count;
            if rc < s.len() && s[rc] == '}' {
                let ds = s.subrange(i + 3, rc);
                if all_hex_digits(ds) {
                    let n = hex_seq_val(ds);
                    if valid_unicode_scalar(n) {
                        EscScan::Ch(n as char, (count + 2) as nat)
                    } else {
                        EscScan::Fail(LexerErrorView::ParsingError {
                            start_position: i,
                            end_position: i + count + 4,
                            message: "Parsing error: Couldn't convert escaped unicode character back into a single character, make sure the number represented is between in range [0,10FFFF]"@,
                        })
                    }
                } else {
                    EscScan::Fail(LexerErrorView::ParsingError {
                        start_position: i,
                        end_position: i + count + 4,
                        message: "Parsing error: Couldn't convert escaped 24bit unicode character into a number. Make sure to use valid hexadecimal digits from 0-9 and A-F"@,
                    })
                }
            } else {
                EscScan::Fail(LexerErrorView::ParsingError {
                    start_position: i,
                    end_position: i + count + 4,
                    message: "Syntax error: Escaped unicode characters must follow the format: `\\u{07FFFF}` with from 1 to 6 digits. The range of numbers is [0, 10FFFF]."@,
                })
            }
        }
    }
}

/// What scanning one escape sequence starting at the backslash at `i`
/// yields. `n r t \ 0 ' "` map to their single-character meanings, `\xHH` to
/// a 7-bit code, `\u{H..H}` to a code point.
pub open spec fn scan_escape(s: Seq<char>, i: int) -> EscScan {
    if i + 1 >= s.len() {
        EscScan::Fail(LexerErrorView::ParsingError {
            start_position: i,
            end_position: i + 1,
            message: "Syntax error: "@,
        })
    } else {
        let c = s[i + 1];
        if c == 'x' {
            scan_escape_hex(s, i)
        } else if c == 'u' {
            scan_escape_unicode(s, i)
        } else if c == 'n' {
            EscScan::Ch('\n', 0)
        } else if c == 'r' {
            EscScan::Ch('\r', 0)
        } else if c == 't' {
            EscScan::Ch('\t', 0)
        } else if c == '\\' {
            EscScan::Ch('\\', 0)
        } else if c == '0' {
            EscScan::Ch('\0', 0)
        } else if c == '\'' {
            EscScan::Ch('\'', 0)
        } else if c == '"' {
            EscScan::Ch('"', 0)
        } else {
            EscScan::Fail(LexerErrorView::ParsingError {
                start_position: i,
                end_position: i + 2,
                message: msg_cannot_escape(c),
            })
        }
    }
}

/// Relies on std's `String::push`: appends one character.
#[verifier::external_body]
fn push_char(s: &mut String, c: char)
    ensures
        final(s)@ == old(s)@.push(c),
{
    s.push(c);
}

/// Relies on std's `char::from_u32`: `Some` exactly for code points that are
/// neither surrogates nor above 0x10FFFF, carrying that code point.
#[verifier::external_body]
fn char_from_u32(n: u32) -> (r: Option<char>)
    ensures
        valid_unicode_scalar(n as int) ==> r == Some(n as char),
        !valid_unicode_scalar(n as int) ==> r is None,
{
    char::from_u32(n)
}

fn mk_perr(start: usize, end: usize, m: &str) -> (e: LexerError)
    ensures
        e@ == (LexerErrorView::ParsingError {
            start_position: start as int,
            end_position: end as int,
            message: m@,
        }),
{
    LexerError::ParsingError { start_position: start, end_position: end, message: m.to_owned() }
}

fn mk_cannot_escape(start: usize, end: usize, c: char) -> (e: LexerError)
    ensures
        e@ == (LexerErrorView::ParsingError {
            start_position: start as int,
            end_position: end as int,
            message: msg_cannot_escape(c),
        }),
{
    let mut m = "Syntax error: Character ".to_owned();
    push_char(&mut m, c);
    m.append(" preceeded by a `\\` cannot be escaped, make sure to escape the backslash like `\\\\");
    push_char(&mut m, c);
    m.append("` if you meant to add a backslash to the string.");
    proof {
        assert(m@ =~= msg_cannot_escape(c));
    }
    LexerError::ParsingError { start_position: start, end_position: end, message: m }
}

fn mk_illegal(pos: usize, c: char) -> (e: LexerError)
    ensures
        e@ == (LexerErrorView::IllegalCharacter {
            position: pos as int,
            message: msg_unrecognized(c),
        }),
{
    let mut m = "Unrecognized character ".to_owned();
    push_char(&mut m, c);
    proof {
        assert(m@ =~= msg_unrecognized(c));
    }
    LexerError::IllegalCharacter { position: pos, message: m }
}

/// Counts the alphanumeric characters at `j`, capped at seven.
fn count_leading_alnum(s: &Vec<char>, j: usize) -> (n: usize)
    requires
        j <= s@.len(),
        s@.len() < usize::MAX,
    ensures
        n == if leading_alnum(s@, j as int) >= 7 { 7int } else { leading_alnum(s@, j as int) as int },
        j + n <= s@.len(),
        n <= 7,
{
    let mut n: usize = 0;
    while j + n < s.len() && n < 7 && is_alnum_exec(s[j + n])
        invariant
            j + n <= s@.len(),
            s@.len() < usize::MAX,
            n <= 7,
            leading_alnum(s@, j as int) == n + leading_alnum(s@, j as int + n),
        decreases s@.len() - j - n,
    {
        n += 1;
    }
    n
}

/// Reads `count` hexadecimal digits at `from` as a number, or `None` when a
/// character there is not a hexadecimal digit.
fn parse_hex_u32(s: &Vec<char>, from: usize, count: usize) -> (r: Option<u32>)
    requires
        from + count <= s@.len(),
        s@.len() < usize::MAX,
        count <= 6,
    ensures
        all_hex_digits(s@.subrange(from as int, from as int + count as int)) ==> r == Some(
            hex_seq_val(s@.subrange(from as int, from as int + count as int)) as u32,
        ),
        !all_hex_digits(s@.subrange(from as int, from as int + count as int)) ==> r is None,
{
    let ghost ds = s@.subrange(from as int, from as int + count as int);
    let mut acc: u32 = 0;
    let mut k: usize = 0;
    while k < count
        invariant
            from + count <= s@.len(),
            s@.len() < usize::MAX,
            count <= 6,
            k <= count,
            ds == s@.subrange(from as int, from as int + count as int),
            all_hex_digits(s@.subrange(from as int, from as int + k as int)),
            acc == hex_seq_val(s@.subrange(from as int, from as int + k as int)),
            acc < pow16(k as nat),
        decreases count - k,
    {
        let c = s[from + k];
        match hex_digit_value(c) {
            Some(d) => {
                proof {
                    let pre = s@.subrange(from as int, from as int + k as int);
                    let nxt = s@.subrange(from as int, from as int + k + 1);
                    assert(nxt.drop_last() =~= pre);
                    assert(nxt.last() == s@[from as int + k]);
                    lemma_pow16_le((k + 1) as nat, 6);
                    assert(pow16(6) == 0x1000000) by {
                        reveal_with_fuel(pow16, 8);
                    }
                }
                acc = acc * 16 + d;
            }
            None => {
                proof {
                    assert(ds[k as int] == s@[from as int + k]);
                    assert(!all_hex_digits(ds)) by {
                        assert(!is_hex_digit(ds[k as int]));
                    }
                }
                return None;
            }
        }
        k += 1;
    }
    proof {
        assert(s@.subrange(from as int, from as int + count as int) =~= s@.subrange(
            from as int,
            from as int + k as int,
        ));
    }
    Some(acc)
}

/// Decodes one escape sequence; `start` is the index of the backslash. On
/// success returns the decoded character and the position after the
/// sequence.
#[verifier::rlimit(100)]
pub fn parse_escape(s: &Vec<char>, start: usize) -> (r: Result<(char, usize), LexerError>)
    requires
        start < s@.len(),
        s@.len() < usize::MAX,
    ensures
        match scan_escape(s@, start as int) {
            EscScan::Ch(c, extra) => r matches Ok(p) && p.0 == c && p.1 == start + 2 + extra
                && start + 2 + extra <= s@.len(),
            EscScan::Fail(e) => r matches Err(er) && er@ == e,
        },
{
    if start + 1 >= s.len() {
        return Err(mk_perr(start, start + 1, "Syntax error: "));
    }
    let c = s[start + 1];
    if c == 'x' {
        if start + 3 < s.len() {
            let c1 = s[start + 2];
            let c2 = s[start + 3];
            let h1 = hex_digit_value(c1);
            let h2 = hex_digit_value(c2);
            match (h1, h2) {
                (Some(v1), Some(v2)) => {
                    let code = v1 * 16 + v2;
                    if code > 0x7F {
                        Err(mk_perr(start, start + 4,
                            "Syntax Error: Expected two digits hexadecimal number lower between 0x00 and 0x7F."))
                    } else {
                        Ok(((code as u8) as char, start + 4))
                    }
                }
                _ => Err(mk_perr(start, start + 4,
                    "Syntax Error: Couldn't parse escaped hexadecimal number. Make sure the digits are valid hexadecimal characters (0-9, A-F).")),
            }
        } else if start + 2 < s.len() {
            Err(mk_perr(start, start + 3,
                "Syntax Error: Expected two hexadecimal digits to be escaped, could only find one. Make sure to use two hexadecimal digits like `\\x7F`"))
        } else {
            Err(mk_perr(start, start + 1,
                "Syntax Error: Tried to escape an hexadecimal number 7bit number with \\x but couldn't find the two required hexadecimal digits."))
        }
    } else if c == 'u' {
        if start + 2 >= s.len() {
            Err(mk_perr(start, start + 2,
                "Syntax error: Escaped unicode characters must follow the format: `\\u{07FFFF}` with from 1 to 6 digits. The range of numbers is [0, 10FFFF]."))
        } else {
            let count = count_leading_alnum(s, start + 3);
            if count == 0 {
                Err(mk_perr(start, start + 4,
                    "Syntax Error: Tried to escape a 24bit unicode character but no hexadecimal digits were found. Make sure to specify a hexadecimal number in range [0, 10FFFF]"))
            } else if count == 7 {
                Err(mk_perr(start, start + 9,
                    "Syntax Error: Tried to escape a 24bit unicode character but found 7 or more characters. A 24bit unicode character can at most have 6 hexadecimal digits and has to be in range [0, 10FFFF]."))
            } else {
                let rc = start + 3 + count;
                if rc < s.len() && s[rc] == '}' {
                    match parse_hex_u32(s, start + 3, count) {
                        Some(num) => {
                            proof {
                                let ds = s@.subrange(start + 3, start + 3 + count as int);
                                if all_hex_digits(ds) {
                                    lemma_hex_seq_val_bounds(ds);
                                    lemma_pow16_le(ds.len() as nat, 6);
                                    assert(pow16(6) == 0x1000000) by {
                                        reveal_with_fuel(pow16, 8);
                                    }
                                }
                            }
                            match char_from_u32(num) {
                                Some(ch) => Ok((ch, rc + 1)),
                                None => Err(mk_perr(start, start + count + 4,
                                    "Parsing error: Couldn't convert escaped unicode character back into a single character, make sure the number represented is between in range [0,10FFFF]")),
                            }
                        }
                        None => Err(mk_perr(start, start + count + 4,
                            "Parsing error: Couldn't convert escaped 24bit unicode character into a number. Make sure to use valid hexadecimal digits from 0-9 and A-F")),
                    }
                } else {
                    Err(mk_perr(start, start + count + 4,
                        "Syntax error: Escaped unicode characters must follow the format: `\\u{07FFFF}` with from 1 to 6 digits. The range of numbers is [0, 10FFFF]."))
                }
            }
        }
    } else if c == 'n' {
        Ok(('\n', start + 2))
    } else if c == 'r' {
        Ok(('\r', start + 2))
    } else if c == 't' {
        Ok(('\t', start + 2))
    } else if c == '\\' {
        Ok(('\\', start + 2))
    } else if c == '0' {
        Ok(('\0', start + 2))
    } else if c == '\'' {
        Ok(('\'', start + 2))
    } else if c == '"' {
        Ok(('"', start + 2))
    } else {
        Err(mk_cannot_escape(start, start + 2, c))
    }
}


// ---------------------------------------------------------------------------
// Literal scanners
// ---------------------------------------------------------------------------

/// Result of scanning one literal: the token and the position after it, or a
/// positioned failure.
pub enum Scan {
    Tok(TokenView, int),
    Fail(LexerErrorView),
}

/// The token a finished numeric literal denotes. `digits` is the number of
/// digit characters accumulated (the separator `_` and the point excluded):
/// 1-9 digits give the 32-bit kind, 10-18 the 64-bit kind, 19 or more the
/// 128-bit integer kind; with a point the kind is floating, and there is no
/// 128-bit floating kind. `lit` is the accumulated literal (digits and at
/// most one point), `last` the index of the last consumed character.
pub open spec fn scan_number_finish(
    begin: int,
    i: int,
    digits: nat,
    has_dot: bool,
    lit: Seq<char>,
    last: int,
) -> Scan {
    if digits == 0 {
        Scan::Fail(LexerErrorView::ParsingError {
            start_position: begin,
            end_position: begin + 1,
            message: "Unreachable."@,
        })
    } else if digits <= 9 {
        if has_dot {
            Scan::Tok(TokenView::F32(f32_bits_of_decimal(lit)), i)
        } else {
            Scan::Tok(TokenView::I32(digits_val(lit) as i32), i)
        }
    } else if digits <= 18 {
        if has_dot {
            Scan::Tok(TokenView::F64(f64_bits_of_decimal(lit)), i)
        } else {
            Scan::Tok(TokenView::I64(digits_val(lit) as i64), i)
        }
    } else {
        if has_dot {
            Scan::Tok(TokenView::F64(f64_bits_of_decimal(lit)), i)
        } else if digits_val(lit) <= i128::MAX {
            Scan::Tok(TokenView::I128(digits_val(lit) as i128), i)
        } else {
            Scan::Fail(LexerErrorView::ParsingError {
                start_position: begin,
                end_position: last + 1,
                message: "Parsing Error: Couldn't parse number to a Int128"@,
            })
        }
    }
}

/// One step of numeric scanning: a digit or a point is accumulated, `_` is
/// skipped as a group separator (except right after a point), a second point
/// fails, anything else ends the literal.
pub open spec fn scan_number_loop(
    s: Seq<char>,
    begin: int,
    i: int,
    digits: nat,
    has_dot: bool,
    lit: Seq<char>,
    last: int,
) -> Scan
    decreases s.len() - i,
{
    if i >= s.len() {
        scan_number_finish(begin, i, digits, has_dot, lit, last)
    } else {
        let c = s[i];
        if c == '_' && lit.len() > 0 && lit.last() == '.' {
            Scan::Fail(LexerErrorView::ParsingError {
                start_position: begin,
                end_position: i + 1,
                message: "Syntax Error: Cannot add a `_` in a number right after a floating point `.`"@,
            })
        } else if c == '.' && has_dot {
            Scan::Fail(LexerErrorView::ParsingError {
                start_position: begin,
                end_position: i + 1,
                message: "Syntax Error: A floating point number cannot have multiple `.`"@,
            })
        } else if c == '.' {
            scan_number_loop(s, begin, i + 1, digits, true, lit.push('.'), i)
        } else if c == '_' {
            scan_number_loop(s, begin, i + 1, digits, has_dot, lit, i)
        } else if is_digit(c) {
            scan_number_loop(s, begin, i + 1, (digits + 1) as nat, has_dot, lit.push(c), i)
        } else {
            scan_number_finish(begin, i, digits, has_dot, lit, last)
        }
    }
}

/// What scanning a numeric literal starting at `begin` yields.
pub open spec fn scan_number(s: Seq<char>, begin: int) -> Scan {
    scan_number_loop(s, begin, begin, 0, false, Seq::empty(), begin)
}

/// What the closing quote check of a character literal yields: `k` is the
/// index where the closing `'` must stand.
pub open spec fn scan_char_close(s: Seq<char>, begin: int, content: char, k: int) -> Scan {
    if k < s.len() && s[k] == '\'' {
        Scan::Tok(TokenView::Char(content), k + 1)
    } else {
        Scan::Fail(LexerErrorView::ParsingError {
            start_position: begin,
            end_position: begin + 2,
            message: "Syntax Error: Expected `'` to end the character literal."@,
        })
    }
}

/// What scanning a character literal starting at the quote at `begin`
/// yields: exactly one raw or escaped character, then a closing quote.
pub open spec fn scan_char(s: Seq<char>, begin: int) -> Scan {
    if begin + 1 >= s.len() {
        Scan::Fail(LexerErrorView::ParsingError {
            start_position: begin,
            end_position: begin + 1,
            message: "Syntax Error: Found end of file while trying to parse a character literal. Try removing the trailing `'`"@,
        })
    } else {
        let c = s[begin + 1];
        if c == '\'' {
            Scan::Fail(LexerErrorView::ParsingError {
                start_position: begin,
                end_position: begin + 2,
                message: "Character literal cannot be empty."@,
            })
        } else if c == '\\' {
            match scan_escape(s, begin + 1) {
                EscScan::Fail(e) => Scan::Fail(e),
                EscScan::Ch(ch, extra) => scan_char_close(s, begin, ch, begin + 3 + extra),
            }
        } else {
            scan_char_close(s, begin, c, begin + 2)
        }
    }
}

/// One step of string scanning: characters are taken verbatim up to the
/// closing quote, a backslash starts an escape sequence; the end of input
/// fails with a span from the opening quote to the last consumed verbatim
/// character.
pub open spec fn scan_string_loop(
    s: Seq<char>,
    begin: int,
    j: int,
    content: Seq<char>,
    last: int,
) -> Scan
    decreases s.len() - j,
{
    if j >= s.len() {
        Scan::Fail(LexerErrorView::ParsingError {
            start_position: begin,
            end_position: last + 1,
            message: "Syntax Error: Found end of file while trying to parse string literal. Make sure to close the quotes or remove the trailing `\"`"@,
        })
    } else {
        let c = s[j];
        if c == '"' {
            Scan::Tok(TokenView::String(content), j + 1)
        } else if c == '\\' {
            match scan_escape(s, j) {
                EscScan::Fail(e) => Scan::Fail(e),
                EscScan::Ch(ch, extra) => scan_string_loop(
                    s,
                    begin,
                    if j + 2 + extra <= s.len() {
                        j + 2 + extra
                    } else {
                        s.len() as int
                    },
                    content.push(ch),
                    last,
                ),
            }
        } else {
            scan_string_loop(s, begin, j + 1, content.push(c), j)
        }
    }
}

/// What scanning a string literal starting at the quote at `begin` yields.
pub open spec fn scan_string(s: Seq<char>, begin: int) -> Scan {
    scan_string_loop(s, begin, begin + 1, Seq::empty(), begin)
}

/// Scans a numeric literal at `start`. On success returns the token and the
/// position of the first character after the literal.
#[verifier::rlimit(100)]
pub fn parse_number(s: &Vec<char>, start: usize) -> (r: Result<(Token, usize), LexerError>)
    requires
        start < s@.len(),
        s@.len() < usize::MAX,
    ensures
        match scan_number(s@, start as int) {
            Scan::Tok(t, nx) => r matches Ok(p) && p.0@ == t && p.1 == nx && start < nx <= s@.len(),
            Scan::Fail(e) => r matches Err(er) && er@ == e,
        },
{
    let mut i = start;
    let mut digits: usize = 0;
    let mut has_dot = false;
    let mut lit: Vec<char> = Vec::new();
    let mut last = start;
    loop
        invariant
            start <= i <= s@.len(),
            s@.len() < usize::MAX,
            start <= last < s@.len(),
            last <= i,
            digits <= lit@.len(),
            lit@.len() <= i - start,
            !has_dot ==> all_digits(lit@) && lit@.len() == digits,
            digits > 0 ==> i > start,
            scan_number(s@, start as int) == scan_number_loop(
                s@,
                start as int,
                i as int,
                digits as nat,
                has_dot,
                lit@,
                last as int,
            ),
        ensures
            start <= i <= s@.len(),
            start <= last < s@.len(),
            digits <= lit@.len(),
            !has_dot ==> all_digits(lit@) && lit@.len() == digits,
            digits > 0 ==> i > start,
            scan_number(s@, start as int) == scan_number_finish(
                start as int,
                i as int,
                digits as nat,
                has_dot,
                lit@,
                last as int,
            ),
        decreases s@.len() - i,
    {
        if i < s.len() {
            let c = s[i];
            if c == '_' && lit.len() > 0 && lit[lit.len() - 1] == '.' {
                return Err(mk_perr(start, i + 1,
                    "Syntax Error: Cannot add a `_` in a number right after a floating point `.`"));
            } else if c == '.' && has_dot {
                return Err(mk_perr(start, i + 1,
                    "Syntax Error: A floating point number cannot have multiple `.`"));
            } else if c == '.' {
                has_dot = true;
                lit.push('.');
                last = i;
                i += 1;
            } else if c == '_' {
                last = i;
                i += 1;
            } else if is_digit_exec(c) {
                lit.push(c);
                digits += 1;
                last = i;
                i += 1;
            } else {
                break;
            }
        } else {
            break;
        }
    }
    if digits == 0 {
        return Err(mk_perr(start, start + 1, "Unreachable."));
    }
    if has_dot {
        if digits <= 9 {
            Ok((Token::F32(parse_f32_bits(&lit)), i))
        } else {
            Ok((Token::F64(parse_f64_bits(&lit)), i))
        }
    } else {
        proof {
            lemma_digits_val_bounds(lit@);
        }
        match decimal_value(&lit) {
            Some(v) => {
                if digits <= 9 {
                    proof {
                        lemma_pow10_le(lit@.len() as nat, 9);
                        assert(pow10(9) == 1000000000) by {
                            reveal_with_fuel(pow10, 11);
                        }
                    }
                    Ok((Token::I32(v as i32), i))
                } else if digits <= 18 {
                    proof {
                        lemma_pow10_le(lit@.len() as nat, 18);
                        assert(pow10(18) == 1000000000000000000) by {
                            reveal_with_fuel(pow10, 20);
                        }
                    }
                    Ok((Token::I64(v as i64), i))
                } else {
                    Ok((Token::I128(v), i))
                }
            }
            None => {
                proof {
                    if digits <= 18 {
                        lemma_pow10_le(lit@.len() as nat, 18);
                        assert(pow10(18) == 1000000000000000000) by {
                            reveal_with_fuel(pow10, 20);
                        }
                    }
                }
                Err(mk_perr(start, last + 1, "Parsing Error: Couldn't parse number to a Int128"))
            }
        }
    }
}

/// Scans a character literal at the quote at `start`. On success returns the
/// token and the position after the closing quote.
#[verifier::rlimit(100)]
pub fn parse_char(s: &Vec<char>, start: usize) -> (r: Result<(Token, usize), LexerError>)
    requires
        start < s@.len(),
        s@.len() < usize::MAX,
    ensures
        match scan_char(s@, start as int) {
            Scan::Tok(t, nx) => r matches Ok(p) && p.0@ == t && p.1 == nx && start < nx <= s@.len(),
            Scan::Fail(e) => r matches Err(er) && er@ == e,
        },
{
    if start + 1 >= s.len() {
        return Err(mk_perr(start, start + 1,
            "Syntax Error: Found end of file while trying to parse a character literal. Try removing the trailing `'`"));
    }
    let c = s[start + 1];
    let content: char;
    let k: usize;
    if c == '\'' {
        return Err(mk_perr(start, start + 2, "Character literal cannot be empty."));
    } else if c == '\\' {
        match parse_escape(s, start + 1) {
            Ok((ch, nx)) => {
                content = ch;
                k = nx;
            }
            Err(e) => {
                return Err(e);
            }
        }
    } else {
        content = c;
        k = start + 2;
    }
    if k < s.len() && s[k] == '\'' {
        Ok((Token::Char(content), k + 1))
    } else {
        Err(mk_perr(start, start + 2, "Syntax Error: Expected `'` to end the character literal."))
    }
}

/// Scans a string literal at the quote at `start`. On success returns the
/// token and the position after the closing quote.
#[verifier::rlimit(100)]
pub fn parse_string(s: &Vec<char>, start: usize) -> (r: Result<(Token, usize), LexerError>)
    requires
        start < s@.len(),
        s@.len() < usize::MAX,
    ensures
        match scan_string(s@, start as int) {
            Scan::Tok(t, nx) => r matches Ok(p) && p.0@ == t && p.1 == nx && start < nx <= s@.len(),
            Scan::Fail(e) => r matches Err(er) && er@ == e,
        },
{
    let mut content = String::new();
    let mut j = start + 1;
    let mut last = start;
    loop
        invariant
            start < s@.len(),
            s@.len() < usize::MAX,
            start <= last < s@.len(),
            start + 1 <= j <= s@.len(),
            scan_string(s@, start as int) == scan_string_loop(
                s@,
                start as int,
                j as int,
                content@,
                last as int,
            ),
        decreases s@.len() - j,
    {
        if j < s.len() {
            let c = s[j];
            if c == '"' {
                return Ok((Token::String(content), j + 1));
            } else if c == '\\' {
                match parse_escape(s, j) {
                    Ok((ch, nx)) => {
                        push_char(&mut content, ch);
                        j = nx;
                    }
                    Err(e) => {
                        return Err(e);
                    }
                }
            } else {
                push_char(&mut content, c);
                last = j;
                j += 1;
            }
        } else {
            return Err(mk_perr(start, last + 1,
                "Syntax Error: Found end of file while trying to parse string literal. Make sure to close the quotes or remove the trailing `\"`"));
        }
    }
}

// ---------------------------------------------------------------------------
// The tokenizer
// ---------------------------------------------------------------------------

/// Clamps a scanner's next position into the scanned text.
pub open spec fn advance(s: Seq<char>, i: int, nx: int) -> int {
    if i < nx <= s.len() {
        nx
    } else {
        i + 1
    }
}

/// What tokenizing `s` from `i` on yields, tokens already produced standing
/// in `acc`: operators and parentheses are single characters, quotes open
/// string and character literals, a digit opens a numeric literal,
/// whitespace separates tokens, and any other character fails.
pub open spec fn lex_rec(s: Seq<char>, i: int, acc: Seq<TokenView>) -> Result<
    Seq<TokenView>,
    LexerErrorView,
>
    decreases s.len() - i,
{
    if i >= s.len() {
        Ok(acc)
    } else {
        let c = s[i];
        if c == '+' {
            lex_rec(s, i + 1, acc.push(TokenView::Plus))
        } else if c == '-' {
            lex_rec(s, i + 1, acc.push(TokenView::Minus))
        } else if c == '*' {
            lex_rec(s, i + 1, acc.push(TokenView::Multiply))
        } else if c == '/' {
            lex_rec(s, i + 1, acc.push(TokenView::Divide))
        } else if c == '(' {
            lex_rec(s, i + 1, acc.push(TokenView::LParenthesis))
        } else if c == ')' {
            lex_rec(s, i + 1, acc.push(TokenView::RParenthesis))
        } else if c == '"' {
            match scan_string(s, i) {
                Scan::Tok(t, nx) => lex_rec(s, advance(s, i, nx), acc.push(t)),
                Scan::Fail(e) => Err(e),
            }
        } else if c == '\'' {
            match scan_char(s, i) {
                Scan::Tok(t, nx) => lex_rec(s, advance(s, i, nx), acc.push(t)),
                Scan::Fail(e) => Err(e),
            }
        } else if is_digit(c) {
            match scan_number(s, i) {
                Scan::Tok(t, nx) => lex_rec(s, advance(s, i, nx), acc.push(t)),
                Scan::Fail(e) => Err(e),
            }
        } else if is_whitespace(c) {
            lex_rec(s, i + 1, acc)
        } else {
            Err(LexerErrorView::IllegalCharacter { position: i, message: msg_unrecognized(c) })
        }
    }
}

/// What tokenizing a whole line yields.
pub open spec fn lex_spec(s: Seq<char>) -> Result<Seq<TokenView>, LexerErrorView> {
    lex_rec(s, 0, Seq::empty())
}

/// The token sequence a token vector stands for.
pub open spec fn toks_view(ts: Seq<Token>) -> Seq<TokenView> {
    ts.map_values(|t: Token| t@)
}

proof fn lemma_toks_view_push(ts: Seq<Token>, t: Token)
    ensures
        toks_view(ts.push(t)) == toks_view(ts).push(t@),
{
    assert(toks_view(ts.push(t)) =~= toks_view(ts).push(t@));
}

/// Collects the characters of a string slice.
fn chars_to_vec(s: &str) -> (r: Vec<char>)
    ensures
        r@ == s@,
{
    broadcast use vstd::string::next_postcondition, vstd::string::axiom_spec_iter;

    let mut it = s.chars();
    let mut r: Vec<char> = Vec::new();
    loop
        invariant
            it.decrease() is Some,
            r@ + it.remaining() == s@,
        decreases it.decrease()->0,
    {
        match it.next() {
            Some(c) => {
                r.push(c);
            }
            None => {
                proof {
                    assert(r@ =~= s@);
                }
                return r;
            }
        }
    }
}

/// Tokenizes one line of source text: the token sequence in input order, or
/// the first failure. Whitespace only separates tokens; an unrecognized
/// character fails at once.
#[verifier::rlimit(100)]
pub fn parse_tokens(content: String) -> (r: Result<TokenList, LexerError>)
    requires
        content@.len() < usize::MAX,
    ensures
        match r {
            Ok(ts) => lex_spec(content@) == Ok::<Seq<TokenView>, LexerErrorView>(toks_view(ts@)),
            Err(e) => lex_spec(content@) matches Err(ev) && e@ == ev,
        },
{
    let s: Vec<char> = chars_to_vec(content.as_str());
    let mut out: Vec<Token> = Vec::new();
    let mut i: usize = 0;
    proof {
        assert(toks_view(out@) =~= Seq::<TokenView>::empty());
    }
    loop
        invariant
            s@ == content@,
            s@.len() < usize::MAX,
            i <= s@.len(),
            lex_spec(content@) == lex_rec(s@, i as int, toks_view(out@)),
        decreases s@.len() - i,
    {
        if i < s.len() {
            let c = s[i];
            proof {
                lemma_toks_view_push(out@, Token::Plus);
                lemma_toks_view_push(out@, Token::Minus);
                lemma_toks_view_push(out@, Token::Multiply);
                lemma_toks_view_push(out@, Token::Divide);
                lemma_toks_view_push(out@, Token::LParenthesis);
                lemma_toks_view_push(out@, Token::RParenthesis);
            }
            if c == '+' {
                out.push(Token::Plus);
                i += 1;
            } else if c == '-' {
                out.push(Token::Minus);
                i += 1;
            } else if c == '*' {
                out.push(Token::Multiply);
                i += 1;
            } else if c == '/' {
                out.push(Token::Divide);
                i += 1;
            } else if c == '(' {
                out.push(Token::LParenthesis);
                i += 1;
            } else if c == ')' {
                out.push(Token::RParenthesis);
                i += 1;
            } else if c == '"' {
                match parse_string(&s, i) {
                    Ok((t, nx)) => {
                        proof {
                            lemma_toks_view_push(out@, t);
                        }
                        out.push(t);
                        i = nx;
                    }
                    Err(e) => {
                        return Err(e);
                    }
                }
            } else if c == '\'' {
                match parse_char(&s, i) {
                    Ok((t, nx)) => {
                        proof {
                            lemma_toks_view_push(out@, t);
                        }
                        out.push(t);
                        i = nx;
                    }
                    Err(e) => {
                        return Err(e);
                    }
                }
            } else if is_digit_exec(c) {
                match parse_number(&s, i) {
                    Ok((t, nx)) => {
                        proof {
                            lemma_toks_view_push(out@, t);
                        }
                        out.push(t);
                        i = nx;
                    }
                    Err(e) => {
                        return Err(e);
                    }
                }
            } else if is_whitespace_exec(c) {
                i += 1;
            } else {
                return Err(mk_illegal(i, c));
            }
        } else {
            return Ok(out);
        }
    }
}

/// Tokenizes one line; the entry point the interactive loop uses.
pub fn parse_one(string: String) -> (r: Result<Vec<Token>, LexerError>)
    requires
        string@.len() < usize::MAX,
    ensures
        match r {
            Ok(ts) => lex_spec(string@) == Ok::<Seq<TokenView>, LexerErrorView>(toks_view(ts@)),
            Err(e) => lex_spec(string@) matches Err(ev) && e@ == ev,
        },
{
    parse_tokens(string)
}

// ---------------------------------------------------------------------------
// Caret diagnostics
// ---------------------------------------------------------------------------

/// `n` copies of `c`.
pub open spec fn repeat_char(c: char, n: nat) -> Seq<char> {
    Seq::new(n, |k: int| c)
}

/// The caret diagnostic for an error over `line`: the message, the line, and
/// a caret underline covering the error's character span.
pub open spec fn arrow_error_spec(e: LexerErrorView, line: Seq<char>) -> Seq<char> {
    match e {
        LexerErrorView::IllegalCharacter { position, message } => message + seq!['\n'] + line
            + seq!['\n'] + repeat_char(' ', position as nat) + repeat_char('^', 1),
        LexerErrorView::ParsingError { start_position, end_position, message } => message
            + seq!['\n'] + line + seq!['\n'] + repeat_char(' ', start_position as nat)
            + repeat_char('^', (end_position - start_position) as nat),
    }
}

impl LexerError {
    /// Renders the caret diagnostic for this error over the offending line.
    pub fn arrow_error(&self, line: String) -> (r: String)
        requires
            self matches LexerError::ParsingError { start_position, end_position, message } ==>
                *start_position <= *end_position,
        ensures
            r@ == arrow_error_spec(self@, line@),
    {
        let begin: usize;
        let count: usize;
        let mut r: String;
        match self {
            LexerError::IllegalCharacter { position, message } => {
                begin = *position;
                count = 1;
                r = message.clone();
            }
            LexerError::ParsingError { start_position, end_position, message } => {
                begin = *start_position;
                count = *end_position - *start_position;
                r = message.clone();
            }
        }
        push_char(&mut r, '\n');
        r.append(line.as_str());
        push_char(&mut r, '\n');
        let ghost head = r@;
        let mut k: usize = 0;
        while k < begin
            invariant
                k <= begin,
                r@ == head + repeat_char(' ', k as nat),
            decreases begin - k,
        {
            push_char(&mut r, ' ');
            proof {
                assert(head + repeat_char(' ', k as nat) + seq![' '] =~= head + repeat_char(
                    ' ',
                    (k + 1) as nat,
                ));
                assert(r@ == head + repeat_char(' ', k as nat) + seq![' ']) by {
                    assert((head + repeat_char(' ', k as nat)).push(' ') =~= head + repeat_char(
                        ' ',
                        k as nat,
                    ) + seq![' ']);
                }
            }
            k += 1;
        }
        let ghost mid = r@;
        let mut m: usize = 0;
        while m < count
            invariant
                m <= count,
                r@ == mid + repeat_char('^', m as nat),
            decreases count - m,
        {
            push_char(&mut r, '^');
            proof {
                assert(mid + repeat_char('^', m as nat) + seq!['^'] =~= mid + repeat_char(
                    '^',
                    (m + 1) as nat,
                ));
                assert(r@ == mid + repeat_char('^', m as nat) + seq!['^']) by {
                    assert((mid + repeat_char('^', m as nat)).push('^') =~= mid + repeat_char(
                        '^',
                        m as nat,
                    ) + seq!['^']);
                }
            }
            m += 1;
        }
        proof {
            assert(repeat_char(' ', 0nat) =~= Seq::<char>::empty());
            assert(repeat_char('^', 0nat) =~= Seq::<char>::empty());
            assert(r@ =~= arrow_error_spec(self@, line@));
        }
        r
    }
}


// ---------------------------------------------------------------------------
// Laws of numeric literal classification
// ---------------------------------------------------------------------------

proof fn lemma_scan_all_digits(s: Seq<char>, i: int)
    requires
        all_digits(s),
        s.len() >= 1,
        0 <= i <= s.len(),
    ensures
        scan_number_loop(
            s,
            0,
            i,
            i as nat,
            false,
            s.subrange(0, i),
            if i == 0 { 0int } else { i - 1 },
        ) == scan_number_finish(0, s.len() as int, s.len() as nat, false, s, s.len() - 1),
    decreases s.len() - i,
{
    if i == s.len() {
        assert(s.subrange(0, i) =~= s);
    } else {
        assert(is_digit(s[i]));
        assert(s.subrange(0, i).push(s[i]) =~= s.subrange(0, i + 1));
        lemma_scan_all_digits(s, i + 1);
    }
}

/// Law: an integer literal's kind is selected by its digit count alone, not
/// by its magnitude: 1 to 9 digits give the 32-bit integer kind, 10 to 18
/// the 64-bit kind, 19 or more the 128-bit kind, whose value must fit it.
pub proof fn lemma_integer_literal_kinds(s: Seq<char>)
    requires
        all_digits(s),
        1 <= s.len(),
    ensures
        s.len() <= 9 ==> lex_spec(s) == Ok::<Seq<TokenView>, LexerErrorView>(
            seq![TokenView::I32(digits_val(s) as i32)],
        ),
        10 <= s.len() <= 18 ==> lex_spec(s) == Ok::<Seq<TokenView>, LexerErrorView>(
            seq![TokenView::I64(digits_val(s) as i64)],
        ),
        19 <= s.len() && digits_val(s) <= i128::MAX ==> lex_spec(s) == Ok::<
            Seq<TokenView>,
            LexerErrorView,
        >(seq![TokenView::I128(digits_val(s) as i128)]),
        19 <= s.len() && digits_val(s) > i128::MAX ==> lex_spec(s) == Err::<
            Seq<TokenView>,
            LexerErrorView,
        >(
            LexerErrorView::ParsingError {
                start_position: 0,
                end_position: s.len() as int,
                message: "Parsing Error: Couldn't parse number to a Int128"@,
            },
        ),
{
    reveal_with_fuel(lex_rec, 3);
    lemma_scan_all_digits(s, 0);
    assert(s.subrange(0, 0) =~= Seq::<char>::empty());
    assert(is_digit(s[0]));
    let e0 = Seq::<TokenView>::empty();
    if s.len() <= 9 {
        assert(e0.push(TokenView::I32(digits_val(s) as i32)) =~= seq![
            TokenView::I32(digits_val(s) as i32),
        ]);
    } else if s.len() <= 18 {
        assert(e0.push(TokenView::I64(digits_val(s) as i64)) =~= seq![
            TokenView::I64(digits_val(s) as i64),
        ]);
    } else if digits_val(s) <= i128::MAX {
        assert(e0.push(TokenView::I128(digits_val(s) as i128)) =~= seq![
            TokenView::I128(digits_val(s) as i128),
        ]);
    }
}

proof fn lemma_scan_digits_dot(s: Seq<char>, p: int, i: int)
    requires
        1 <= p < s.len(),
        s[p] == '.',
        forall|k: int| 0 <= k < s.len() && k != p ==> is_digit(#[trigger] s[k]),
        0 <= i <= s.len(),
    ensures
        scan_number_loop(
            s,
            0,
            i,
            (if i <= p { i } else { i - 1 }) as nat,
            i > p,
            s.subrange(0, i),
            if i == 0 { 0int } else { i - 1 },
        ) == scan_number_finish(0, s.len() as int, (s.len() - 1) as nat, true, s, s.len() - 1),
    decreases s.len() - i,
{
    if i == s.len() {
        assert(s.subrange(0, i) =~= s);
    } else {
        if i == p {
            assert(s.subrange(0, i).push('.') =~= s.subrange(0, i + 1));
        } else {
            assert(is_digit(s[i]));
            assert(s.subrange(0, i).push(s[i]) =~= s.subrange(0, i + 1));
        }
        lemma_scan_digits_dot(s, p, i + 1);
    }
}

/// Law: a literal of digits with one decimal point is of a floating kind,
/// selected by its digit count alone (the point not counted): up to 9 digits
/// give the 32-bit floating kind, 10 or more the 64-bit one — there being no
/// wider floating kind, 19 or more digits still give 64 bits.
pub proof fn lemma_float_literal_kinds(s: Seq<char>, p: int)
    requires
        1 <= p < s.len(),
        s[p] == '.',
        forall|k: int| 0 <= k < s.len() && k != p ==> is_digit(#[trigger] s[k]),
    ensures
        s.len() - 1 <= 9 ==> lex_spec(s) == Ok::<Seq<TokenView>, LexerErrorView>(
            seq![TokenView::F32(f32_bits_of_decimal(s))],
        ),
        s.len() - 1 >= 10 ==> lex_spec(s) == Ok::<Seq<TokenView>, LexerErrorView>(
            seq![TokenView::F64(f64_bits_of_decimal(s))],
        ),
{
    reveal_with_fuel(lex_rec, 3);
    lemma_scan_digits_dot(s, p, 0);
    assert(s.subrange(0, 0) =~= Seq::<char>::empty());
    assert(is_digit(s[0]));
    let e0 = Seq::<TokenView>::empty();
    if s.len() - 1 <= 9 {
        assert(e0.push(TokenView::F32(f32_bits_of_decimal(s))) =~= seq![
            TokenView::F32(f32_bits_of_decimal(s)),
        ]);
    } else {
        assert(e0.push(TokenView::F64(f64_bits_of_decimal(s))) =~= seq![
            TokenView::F64(f64_bits_of_decimal(s)),
        ]);
    }
}

} // verus!
