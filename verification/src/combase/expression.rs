//! The language of calculation expressions: arithmetic (`+ - * /`, unary `-` and
//! `+`, parentheses), comparisons (`> < >= <= == !=`) and logic (`&`, `|`, `!`,
//! written `AND`, `OR`, `NOT` before they are prepared), with `true`, `false` and
//! decimal numbers. Parsing gives an expression tree; a number keeps its text, and
//! the tree is evaluated on floating-point values outside the library.

use vstd::prelude::*;
use crate::combase::calculation::{is_white_space, trim_end_of, trim_start_of, trim_text, trimmed_of};
use crate::error::{ComSrvError, text_str_text};
use crate::text::{push_char, string_of};

verus! {

/// A binary operator.
#[derive(Debug, Clone, Copy, PartialEq, Eq, Structural)]
pub enum BinaryOp {
    /// `|`
    Or,
    /// `&`
    And,
    /// `>=`
    Ge,
    /// `<=`
    Le,
    /// `==`
    Eq,
    /// `!=`
    Ne,
    /// `>`
    Gt,
    /// `<`
    Lt,
    /// `+`
    Add,
    /// `-`
    Sub,
    /// `*`
    Mul,
    /// `/`
    Div,
}

/// A parsed expression.
#[derive(Debug)]
pub enum Expression {
    /// A decimal number, as written (digits with at most one point).
    Number(String),
    /// `true` or `false`.
    Boolean(bool),
    /// Unary minus.
    Negate(Box<Expression>),
    /// Logical not.
    Not(Box<Expression>),
    /// A binary operation.
    Binary(BinaryOp, Box<Expression>, Box<Expression>),
}

/// An expression as values.
pub enum ExprView {
    Number(Seq<char>),
    Boolean(bool),
    Negate(Box<ExprView>),
    Not(Box<ExprView>),
    Binary(BinaryOp, Box<ExprView>, Box<ExprView>),
}

/// The value of an expression.
pub open spec fn expr_view(e: Expression) -> ExprView
    decreases e,
{
    match e {
        Expression::Number(t) => ExprView::Number(t@),
        Expression::Boolean(b) => ExprView::Boolean(b),
        Expression::Negate(x) => ExprView::Negate(Box::new(expr_view(*x))),
        Expression::Not(x) => ExprView::Not(Box::new(expr_view(*x))),
        Expression::Binary(op, l, r) => ExprView::Binary(op, Box::new(expr_view(*l)), Box::new(expr_view(*r))),
    }
}

/// What a parse step gives: the expression and the position after it, or an error
/// message.
pub type ParseStep = Result<(ExprView, int), Seq<char>>;

/// The text without its spaces.
pub open spec fn drop_spaces(s: Seq<char>) -> Seq<char>
    decreases s.len(),
{
    if s.len() == 0 {
        s
    } else if s.last() == ' ' {
        drop_spaces(s.drop_last())
    } else {
        drop_spaces(s.drop_last()).push(s.last())
    }
}

/// The text that is parsed: trimmed, then without spaces.
pub open spec fn cleaned(s: Seq<char>) -> Seq<char> {
    drop_spaces(trimmed_of(s))
}

/// Whether `c` is an ASCII digit.
pub open spec fn is_digit(c: char) -> bool {
    '0' <= c <= '9'
}

/// The end of the run of digits and points that starts at `pos`.
pub open spec fn number_end(s: Seq<char>, pos: int) -> int
    decreases s.len() - pos,
{
    if 0 <= pos < s.len() && (is_digit(s[pos]) || s[pos] == '.') {
        number_end(s, pos + 1)
    } else {
        pos
    }
}

/// The number of points in `t`.
pub open spec fn point_count(t: Seq<char>) -> nat
    decreases t.len(),
{
    if t.len() == 0 {
        0
    } else if t.last() == '.' {
        point_count(t.drop_last()) + 1
    } else {
        point_count(t.drop_last())
    }
}

/// Whether a run of digits and points is a number that `f64` parsing accepts: at
/// least one digit and at most one point.
pub open spec fn valid_number(t: Seq<char>) -> bool {
    point_count(t) <= 1 && exists|i: int| 0 <= i < t.len() && #[trigger] is_digit(t[i])
}

/// A number or boolean at `pos`.
pub open spec fn parse_atom(s: Seq<char>, pos: int) -> ParseStep {
    if 0 <= pos && pos + 4 <= s.len() && s.subrange(pos, pos + 4) == seq!['t', 'r', 'u', 'e'] {
        Ok((ExprView::Boolean(true), pos + 4))
    } else if 0 <= pos && pos + 5 <= s.len() && s.subrange(pos, pos + 5) == seq!['f', 'a', 'l', 's', 'e'] {
        Ok((ExprView::Boolean(false), pos + 5))
    } else {
        let e = number_end(s, pos);
        if e == pos {
            Err("Expected number or boolean"@)
        } else if valid_number(s.subrange(pos, e)) {
            Ok((ExprView::Number(s.subrange(pos, e)), e))
        } else {
            Err("Invalid number: "@ + s.subrange(pos, e))
        }
    }
}

/// A factor at `pos`: a parenthesised expression, a sign or `!` before a factor, or
/// a number or boolean.
pub open spec fn parse_factor(s: Seq<char>, pos: int) -> ParseStep
    decreases s.len() - pos, 2int,
{
    if pos < 0 || pos >= s.len() {
        Err("Unexpected end of expression"@)
    } else if s[pos] == '(' {
        match parse_or(s, pos + 1) {
            Err(m) => Err(m),
            Ok((e, p)) => if 0 <= p < s.len() && s[p] == ')' {
                Ok((e, p + 1))
            } else {
                Err("Missing closing parenthesis"@)
            },
        }
    } else if s[pos] == '-' {
        match parse_factor(s, pos + 1) {
            Err(m) => Err(m),
            Ok((e, p)) => Ok((ExprView::Negate(Box::new(e)), p)),
        }
    } else if s[pos] == '+' {
        parse_factor(s, pos + 1)
    } else if s[pos] == '!' {
        match parse_factor(s, pos + 1) {
            Err(m) => Err(m),
            Ok((e, p)) => Ok((ExprView::Not(Box::new(e)), p)),
        }
    } else {
        parse_atom(s, pos)
    }
}

/// The multiplication or division operator at `pos`, if any.
pub open spec fn mul_op_at(s: Seq<char>, pos: int) -> Option<BinaryOp> {
    if 0 <= pos < s.len() && s[pos] == '*' {
        Some(BinaryOp::Mul)
    } else if 0 <= pos < s.len() && s[pos] == '/' {
        Some(BinaryOp::Div)
    } else {
        None
    }
}

/// The addition or subtraction operator at `pos`, if any.
pub open spec fn add_op_at(s: Seq<char>, pos: int) -> Option<BinaryOp> {
    if 0 <= pos < s.len() && s[pos] == '+' {
        Some(BinaryOp::Add)
    } else if 0 <= pos < s.len() && s[pos] == '-' {
        Some(BinaryOp::Sub)
    } else {
        None
    }
}

/// The comparison operator at `pos` and its width, if any: a two-character one
/// first, then `>` or `<`.
pub open spec fn comparison_op_at(s: Seq<char>, pos: int) -> Option<(BinaryOp, int)> {
    if 0 <= pos && pos + 1 < s.len() && s[pos] == '>' && s[pos + 1] == '=' {
        Some((BinaryOp::Ge, 2))
    } else if 0 <= pos && pos + 1 < s.len() && s[pos] == '<' && s[pos + 1] == '=' {
        Some((BinaryOp::Le, 2))
    } else if 0 <= pos && pos + 1 < s.len() && s[pos] == '=' && s[pos + 1] == '=' {
        Some((BinaryOp::Eq, 2))
    } else if 0 <= pos && pos + 1 < s.len() && s[pos] == '!' && s[pos + 1] == '=' {
        Some((BinaryOp::Ne, 2))
    } else if 0 <= pos < s.len() && s[pos] == '>' {
        Some((BinaryOp::Gt, 1))
    } else if 0 <= pos < s.len() && s[pos] == '<' {
        Some((BinaryOp::Lt, 1))
    } else {
        None
    }
}

/// The binary node of `op` over `l` and `r`.
pub open spec fn node(op: BinaryOp, l: ExprView, r: ExprView) -> ExprView {
    ExprView::Binary(op, Box::new(l), Box::new(r))
}

/// Products and quotients at `pos`, left to right.
pub open spec fn parse_mul(s: Seq<char>, pos: int) -> ParseStep
    decreases s.len() - pos, 3int,
{
    if pos < 0 || pos > s.len() {
        Err(Seq::empty())
    } else {
        match parse_factor(s, pos) {
            Err(m) => Err(m),
            Ok((l, p)) => if pos < p <= s.len() {
                parse_mul_rest(s, p, l)
            } else {
                Err(Seq::empty())
            },
        }
    }
}

/// The rest of a product after `left`, which ends at `pos`.
pub open spec fn parse_mul_rest(s: Seq<char>, pos: int, left: ExprView) -> ParseStep
    decreases s.len() - pos, 8int,
{
    match mul_op_at(s, pos) {
        None => Ok((left, pos)),
        Some(op) => match parse_factor(s, pos + 1) {
            Err(m) => Err(m),
            Ok((r, p)) => if pos + 1 < p <= s.len() {
                parse_mul_rest(s, p, node(op, left, r))
            } else {
                Err(Seq::empty())
            },
        },
    }
}

/// Sums and differences at `pos`, left to right.
pub open spec fn parse_add(s: Seq<char>, pos: int) -> ParseStep
    decreases s.len() - pos, 4int,
{
    if pos < 0 || pos > s.len() {
        Err(Seq::empty())
    } else {
        match parse_mul(s, pos) {
            Err(m) => Err(m),
            Ok((l, p)) => if pos < p <= s.len() {
                parse_add_rest(s, p, l)
            } else {
                Err(Seq::empty())
            },
        }
    }
}

/// The rest of a sum after `left`, which ends at `pos`.
pub open spec fn parse_add_rest(s: Seq<char>, pos: int, left: ExprView) -> ParseStep
    decreases s.len() - pos, 8int,
{
    match add_op_at(s, pos) {
        None => Ok((left, pos)),
        Some(op) => match parse_mul(s, pos + 1) {
            Err(m) => Err(m),
            Ok((r, p)) => if pos + 1 < p <= s.len() {
                parse_add_rest(s, p, node(op, left, r))
            } else {
                Err(Seq::empty())
            },
        },
    }
}

/// Comparisons at `pos`, left to right.
pub open spec fn parse_comparison(s: Seq<char>, pos: int) -> ParseStep
    decreases s.len() - pos, 5int,
{
    if pos < 0 || pos > s.len() {
        Err(Seq::empty())
    } else {
        match parse_add(s, pos) {
            Err(m) => Err(m),
            Ok((l, p)) => if pos < p <= s.len() {
                parse_comparison_rest(s, p, l)
            } else {
                Err(Seq::empty())
            },
        }
    }
}

/// The rest of a comparison after `left`, which ends at `pos`.
pub open spec fn parse_comparison_rest(s: Seq<char>, pos: int, left: ExprView) -> ParseStep
    decreases s.len() - pos, 8int,
{
    match comparison_op_at(s, pos) {
        None => Ok((left, pos)),
        Some((op, w)) => match parse_add(s, pos + w) {
            Err(m) => Err(m),
            Ok((r, p)) => if pos + w < p <= s.len() && 0 <= pos {
                parse_comparison_rest(s, p, node(op, left, r))
            } else {
                Err(Seq::empty())
            },
        },
    }
}

/// Conjunctions at `pos`, left to right.
pub open spec fn parse_and(s: Seq<char>, pos: int) -> ParseStep
    decreases s.len() - pos, 6int,
{
    if pos < 0 || pos > s.len() {
        Err(Seq::empty())
    } else {
        match parse_comparison(s, pos) {
            Err(m) => Err(m),
            Ok((l, p)) => if pos < p <= s.len() {
                parse_and_rest(s, p, l)
            } else {
                Err(Seq::empty())
            },
        }
    }
}

/// The rest of a conjunction after `left`, which ends at `pos`.
pub open spec fn parse_and_rest(s: Seq<char>, pos: int, left: ExprView) -> ParseStep
    decreases s.len() - pos, 8int,
{
    if 0 <= pos < s.len() && s[pos] == '&' {
        match parse_comparison(s, pos + 1) {
            Err(m) => Err(m),
            Ok((r, p)) => if pos + 1 < p <= s.len() {
                parse_and_rest(s, p, node(BinaryOp::And, left, r))
            } else {
                Err(Seq::empty())
            },
        }
    } else {
        Ok((left, pos))
    }
}

/// Disjunctions at `pos`, left to right: the whole of an expression.
pub open spec fn parse_or(s: Seq<char>, pos: int) -> ParseStep
    decreases s.len() - pos, 7int,
{
    if pos < 0 || pos > s.len() {
        Err(Seq::empty())
    } else {
        match parse_and(s, pos) {
            Err(m) => Err(m),
            Ok((l, p)) => if pos < p <= s.len() {
                parse_or_rest(s, p, l)
            } else {
                Err(Seq::empty())
            },
        }
    }
}

/// The rest of a disjunction after `left`, which ends at `pos`.
pub open spec fn parse_or_rest(s: Seq<char>, pos: int, left: ExprView) -> ParseStep
    decreases s.len() - pos, 8int,
{
    if 0 <= pos < s.len() && s[pos] == '|' {
        match parse_and(s, pos + 1) {
            Err(m) => Err(m),
            Ok((r, p)) => if pos + 1 < p <= s.len() {
                parse_or_rest(s, p, node(BinaryOp::Or, left, r))
            } else {
                Err(Seq::empty())
            },
        }
    } else {
        Ok((left, pos))
    }
}

/// What parsing an expression gives: the expression at the start of its cleaned
/// text (what follows it is not read), or the message of the first error.
pub open spec fn expression_parse(s: Seq<char>) -> Result<ExprView, Seq<char>> {
    match parse_or(cleaned(s), 0) {
        Ok((e, _)) => Ok(e),
        Err(m) => Err(m),
    }
}

/// A parse step's outcome as the executable result: the expression and position,
/// or a configuration error with the message.
pub open spec fn step_matches(r: Result<(Expression, usize), ComSrvError>, expected: ParseStep) -> bool {
    match expected {
        Ok((v, p)) => r matches Ok((e, q)) && expr_view(e) == v && q as int == p,
        Err(m) => r matches Err(ComSrvError::ConfigError(x)) && x@ == m,
    }
}

/// The error that a parse step that cannot happen gives.
fn no_progress() -> (r: ComSrvError)
    ensures
        r matches ComSrvError::ConfigError(x) && x@ == Seq::<char>::empty(),
{
    ComSrvError::ConfigError(String::new())
}

/// A number or boolean at `pos`.
fn exec_atom(s: &Vec<char>, pos: usize) -> (r: Result<(Expression, usize), ComSrvError>)
    requires
        pos < s@.len(),
    ensures
        step_matches(r, parse_atom(s@, pos as int)),
{
    let n = s.len();
    if n - pos >= 4 && s[pos] == 't' && s[pos + 1] == 'r' && s[pos + 2] == 'u' && s[pos + 3] == 'e' {
        assert(s@.subrange(pos as int, pos + 4) =~= seq!['t', 'r', 'u', 'e']);
        return Ok((Expression::Boolean(true), pos + 4));
    }
    if n - pos >= 4 {
        assert(s@.subrange(pos as int, pos + 4) == seq!['t', 'r', 'u', 'e'] ==> s@.subrange(pos as int, pos + 4)[0]
            == 't' && s@.subrange(pos as int, pos + 4)[1] == 'r' && s@.subrange(pos as int, pos + 4)[2] == 'u'
            && s@.subrange(pos as int, pos + 4)[3] == 'e');
    }
    if n - pos >= 5 && s[pos] == 'f' && s[pos + 1] == 'a' && s[pos + 2] == 'l' && s[pos + 3] == 's' && s[pos + 4]
        == 'e' {
        assert(s@.subrange(pos as int, pos + 5) =~= seq!['f', 'a', 'l', 's', 'e']);
        return Ok((Expression::Boolean(false), pos + 5));
    }
    if n - pos >= 5 {
        assert(s@.subrange(pos as int, pos + 5) == seq!['f', 'a', 'l', 's', 'e'] ==> s@.subrange(pos as int, pos + 5)[0]
            == 'f' && s@.subrange(pos as int, pos + 5)[1] == 'a' && s@.subrange(pos as int, pos + 5)[2] == 'l'
            && s@.subrange(pos as int, pos + 5)[3] == 's' && s@.subrange(pos as int, pos + 5)[4] == 'e');
    }
    let mut e = pos;
    let mut text = String::new();
    let mut points: usize = 0;
    let mut digit = false;
    while e < n && (('0' <= s[e] && s[e] <= '9') || s[e] == '.')
        invariant
            n == s@.len(),
            pos <= e <= n,
            number_end(s@, pos as int) == number_end(s@, e as int),
            text@ == s@.subrange(pos as int, e as int),
            points as nat == point_count(text@),
            points <= e - pos,
            digit == exists|i: int| 0 <= i < text@.len() && #[trigger] is_digit(text@[i]),
        decreases n - e,
    {
        let c = s[e];
        let ghost before = text@;
        push_char(&mut text, c);
        assert(text@.drop_last() == before);
        if c == '.' {
            points = points + 1;
        }
        proof {
            if is_digit(c) {
                assert(is_digit(text@[text@.len() - 1]));
            }
            if exists|i: int| 0 <= i < before.len() && #[trigger] is_digit(before[i]) {
                let i = choose|i: int| 0 <= i < before.len() && #[trigger] is_digit(before[i]);
                assert(text@[i] == before[i]);
            }
            if exists|i: int| 0 <= i < text@.len() && #[trigger] is_digit(text@[i]) {
                let i = choose|i: int| 0 <= i < text@.len() && #[trigger] is_digit(text@[i]);
                if i < before.len() {
                    assert(before[i] == text@[i]);
                }
            }
        }
        if '0' <= c && c <= '9' {
            digit = true;
        }
        e = e + 1;
        assert(text@ =~= s@.subrange(pos as int, e as int));
    }
    assert(number_end(s@, e as int) == e as int);
    if e == pos {
        return Err(ComSrvError::ConfigError(string_of("Expected number or boolean")));
    }
    if points <= 1 && digit {
        Ok((Expression::Number(text), e))
    } else {
        let m = text_str_text("Invalid number: ", text.as_str(), "");
        proof {
            reveal_strlit("");
            assert(m@ =~= "Invalid number: "@ + s@.subrange(pos as int, e as int));
        }
        Err(ComSrvError::ConfigError(m))
    }
}

/// A factor at `pos`.
fn exec_factor(s: &Vec<char>, pos: usize) -> (r: Result<(Expression, usize), ComSrvError>)
    requires
        pos <= s@.len(),
    ensures
        step_matches(r, parse_factor(s@, pos as int)),
    decreases s@.len() - pos, 2int,
{
    let n = s.len();
    if pos >= n {
        return Err(ComSrvError::ConfigError(string_of("Unexpected end of expression")));
    }
    let c = s[pos];
    if c == '(' {
        match exec_or(s, pos + 1) {
            Err(m) => Err(m),
            Ok((e, p)) => {
                if p < n && s[p] == ')' {
                    Ok((e, p + 1))
                } else {
                    Err(ComSrvError::ConfigError(string_of("Missing closing parenthesis")))
                }
            },
        }
    } else if c == '-' {
        match exec_factor(s, pos + 1) {
            Err(m) => Err(m),
            Ok((e, p)) => Ok((Expression::Negate(Box::new(e)), p)),
        }
    } else if c == '+' {
        exec_factor(s, pos + 1)
    } else if c == '!' {
        match exec_factor(s, pos + 1) {
            Err(m) => Err(m),
            Ok((e, p)) => Ok((Expression::Not(Box::new(e)), p)),
        }
    } else {
        exec_atom(s, pos)
    }
}

/// The multiplication or division operator at `pos`, if any.
fn exec_mul_op(s: &Vec<char>, pos: usize) -> (r: Option<BinaryOp>)
    ensures
        r == mul_op_at(s@, pos as int),
        r is Some ==> pos < s@.len(),
{
    if pos < s.len() && s[pos] == '*' {
        Some(BinaryOp::Mul)
    } else if pos < s.len() && s[pos] == '/' {
        Some(BinaryOp::Div)
    } else {
        None
    }
}

/// The addition or subtraction operator at `pos`, if any.
fn exec_add_op(s: &Vec<char>, pos: usize) -> (r: Option<BinaryOp>)
    ensures
        r == add_op_at(s@, pos as int),
        r is Some ==> pos < s@.len(),
{
    if pos < s.len() && s[pos] == '+' {
        Some(BinaryOp::Add)
    } else if pos < s.len() && s[pos] == '-' {
        Some(BinaryOp::Sub)
    } else {
        None
    }
}

/// The comparison operator at `pos` and its width, if any.
fn exec_comparison_op(s: &Vec<char>, pos: usize) -> (r: Option<(BinaryOp, usize)>)
    ensures
        match r {
            Some((op, w)) => comparison_op_at(s@, pos as int) == Some((op, w as int)),
            None => comparison_op_at(s@, pos as int) is None,
        },
        r matches Some((_, w)) ==> 1 <= w <= 2 && pos + w <= s@.len(),
{
    let n = s.len();
    if pos < n && pos + 1 < n {
        let a = s[pos];
        let b = s[pos + 1];
        if a == '>' && b == '=' {
            return Some((BinaryOp::Ge, 2));
        } else if a == '<' && b == '=' {
            return Some((BinaryOp::Le, 2));
        } else if a == '=' && b == '=' {
            return Some((BinaryOp::Eq, 2));
        } else if a == '!' && b == '=' {
            return Some((BinaryOp::Ne, 2));
        }
    }
    if pos < n && s[pos] == '>' {
        Some((BinaryOp::Gt, 1))
    } else if pos < n && s[pos] == '<' {
        Some((BinaryOp::Lt, 1))
    } else {
        None
    }
}

/// Products and quotients at `pos`.
fn exec_mul(s: &Vec<char>, pos: usize) -> (r: Result<(Expression, usize), ComSrvError>)
    requires
        pos <= s@.len(),
    ensures
        step_matches(r, parse_mul(s@, pos as int)),
    decreases s@.len() - pos, 3int,
{
    match exec_factor(s, pos) {
        Err(m) => Err(m),
        Ok((l, p)) => {
            if pos < p && p <= s.len() {
                exec_mul_rest(s, p, l)
            } else {
                Err(no_progress())
            }
        },
    }
}

/// The rest of a product after `left`, which ends at `pos`.
fn exec_mul_rest(s: &Vec<char>, pos: usize, left: Expression) -> (r: Result<(Expression, usize), ComSrvError>)
    requires
        pos <= s@.len(),
    ensures
        step_matches(r, parse_mul_rest(s@, pos as int, expr_view(left))),
    decreases s@.len() - pos, 8int,
{
    let found = exec_mul_op(s, pos);
    match found {
        None => Ok((left, pos)),
        Some(op) => {
            assert(pos < s.len());
            let next = pos + 1;
            match exec_factor(s, next) {
            Err(m) => Err(m),
            Ok((r, p)) => {
                if next < p && p <= s.len() {
                    let e = Expression::Binary(op, Box::new(left), Box::new(r));
                    exec_mul_rest(s, p, e)
                } else {
                    Err(no_progress())
                }
            },
            }
        },
    }
}

/// Sums and differences at `pos`.
fn exec_add(s: &Vec<char>, pos: usize) -> (r: Result<(Expression, usize), ComSrvError>)
    requires
        pos <= s@.len(),
    ensures
        step_matches(r, parse_add(s@, pos as int)),
    decreases s@.len() - pos, 4int,
{
    match exec_mul(s, pos) {
        Err(m) => Err(m),
        Ok((l, p)) => {
            if pos < p && p <= s.len() {
                exec_add_rest(s, p, l)
            } else {
                Err(no_progress())
            }
        },
    }
}

/// The rest of a sum after `left`, which ends at `pos`.
fn exec_add_rest(s: &Vec<char>, pos: usize, left: Expression) -> (r: Result<(Expression, usize), ComSrvError>)
    requires
        pos <= s@.len(),
    ensures
        step_matches(r, parse_add_rest(s@, pos as int, expr_view(left))),
    decreases s@.len() - pos, 8int,
{
    let found = exec_add_op(s, pos);
    match found {
        None => Ok((left, pos)),
        Some(op) => {
            assert(pos < s.len());
            let next = pos + 1;
            match exec_mul(s, next) {
                Err(m) => Err(m),
                Ok((r, p)) => {
                    if next < p && p <= s.len() {
                        let e = Expression::Binary(op, Box::new(left), Box::new(r));
                        exec_add_rest(s, p, e)
                    } else {
                        Err(no_progress())
                    }
                },
            }
        },
    }
}

/// Comparisons at `pos`.
fn exec_comparison(s: &Vec<char>, pos: usize) -> (r: Result<(Expression, usize), ComSrvError>)
    requires
        pos <= s@.len(),
    ensures
        step_matches(r, parse_comparison(s@, pos as int)),
    decreases s@.len() - pos, 5int,
{
    match exec_add(s, pos) {
        Err(m) => Err(m),
        Ok((l, p)) => {
            if pos < p && p <= s.len() {
                exec_comparison_rest(s, p, l)
            } else {
                Err(no_progress())
            }
        },
    }
}

/// The rest of a comparison after `left`, which ends at `pos`.
fn exec_comparison_rest(s: &Vec<char>, pos: usize, left: Expression) -> (r: Result<(Expression, usize), ComSrvError>)
    requires
        pos <= s@.len(),
    ensures
        step_matches(r, parse_comparison_rest(s@, pos as int, expr_view(left))),
    decreases s@.len() - pos, 8int,
{
    let found = exec_comparison_op(s, pos);
    match found {
        None => Ok((left, pos)),
        Some((op, w)) => {
            assert(pos + w <= s.len());
            let next = pos + w;
            match exec_add(s, next) {
                Err(m) => Err(m),
                Ok((r, p)) => {
                    if next < p && p <= s.len() {
                        let e = Expression::Binary(op, Box::new(left), Box::new(r));
                        exec_comparison_rest(s, p, e)
                    } else {
                        Err(no_progress())
                    }
                },
            }
        },
    }
}

/// Conjunctions at `pos`.
fn exec_and(s: &Vec<char>, pos: usize) -> (r: Result<(Expression, usize), ComSrvError>)
    requires
        pos <= s@.len(),
    ensures
        step_matches(r, parse_and(s@, pos as int)),
    decreases s@.len() - pos, 6int,
{
    match exec_comparison(s, pos) {
        Err(m) => Err(m),
        Ok((l, p)) => {
            if pos < p && p <= s.len() {
                exec_and_rest(s, p, l)
            } else {
                Err(no_progress())
            }
        },
    }
}

/// The rest of a conjunction after `left`, which ends at `pos`.
fn exec_and_rest(s: &Vec<char>, pos: usize, left: Expression) -> (r: Result<(Expression, usize), ComSrvError>)
    requires
        pos <= s@.len(),
    ensures
        step_matches(r, parse_and_rest(s@, pos as int, expr_view(left))),
    decreases s@.len() - pos, 8int,
{
    if pos < s.len() && s[pos] == '&' {
        match exec_comparison(s, pos + 1) {
            Err(m) => Err(m),
            Ok((r, p)) => {
                if pos + 1 < p && p <= s.len() {
                    let e = Expression::Binary(BinaryOp::And, Box::new(left), Box::new(r));
                    exec_and_rest(s, p, e)
                } else {
                    Err(no_progress())
                }
            },
        }
    } else {
        Ok((left, pos))
    }
}

/// Disjunctions at `pos`.
fn exec_or(s: &Vec<char>, pos: usize) -> (r: Result<(Expression, usize), ComSrvError>)
    requires
        pos <= s@.len(),
    ensures
        step_matches(r, parse_or(s@, pos as int)),
    decreases s@.len() - pos, 7int,
{
    match exec_and(s, pos) {
        Err(m) => Err(m),
        Ok((l, p)) => {
            if pos < p && p <= s.len() {
                exec_or_rest(s, p, l)
            } else {
                Err(no_progress())
            }
        },
    }
}

/// The rest of a disjunction after `left`, which ends at `pos`.
fn exec_or_rest(s: &Vec<char>, pos: usize, left: Expression) -> (r: Result<(Expression, usize), ComSrvError>)
    requires
        pos <= s@.len(),
    ensures
        step_matches(r, parse_or_rest(s@, pos as int, expr_view(left))),
    decreases s@.len() - pos, 8int,
{
    if pos < s.len() && s[pos] == '|' {
        match exec_and(s, pos + 1) {
            Err(m) => Err(m),
            Ok((r, p)) => {
                if pos + 1 < p && p <= s.len() {
                    let e = Expression::Binary(BinaryOp::Or, Box::new(left), Box::new(r));
                    exec_or_rest(s, p, e)
                } else {
                    Err(no_progress())
                }
            },
        }
    } else {
        Ok((left, pos))
    }
}

/// The characters of the cleaned text: trimmed, then without spaces.
fn clean_chars(expr: &str) -> (r: Vec<char>)
    ensures
        r@ == cleaned(expr@),
{
    let t = trim_text(expr);
    let n = t.unicode_len();
    let mut out: Vec<char> = Vec::new();
    let mut i: usize = 0;
    assert(t@.subrange(0, 0) =~= Seq::<char>::empty());
    while i < n
        invariant
            n == t@.len(),
            i <= n,
            out@ == drop_spaces(t@.subrange(0, i as int)),
        decreases n - i,
    {
        let c = t.get_char(i);
        assert(t@.subrange(0, i + 1).drop_last() =~= t@.subrange(0, i as int));
        assert(t@.subrange(0, i + 1).last() == c);
        if c != ' ' {
            out.push(c);
        }
        i = i + 1;
    }
    assert(t@.subrange(0, n as int) =~= t@);
    out
}

/// Parses an expression: the text is trimmed and its spaces removed, and the
/// expression at its start is read (what follows it is not).
pub fn parse_expression(expr: &str) -> (r: Result<Expression, ComSrvError>)
    ensures
        match expression_parse(expr@) {
            Ok(v) => r matches Ok(e) && expr_view(e) == v,
            Err(m) => r matches Err(ComSrvError::ConfigError(x)) && x@ == m,
        },
{
    let chars = clean_chars(expr);
    match exec_or(&chars, 0) {
        Ok((e, _)) => Ok(e),
        Err(m) => Err(m),
    }
}

/// What `str::replace` gives: every non-overlapping occurrence of `from`, found
/// left to right, replaced by `to`; an empty `from` puts `to` before each
/// character and at the end.
pub open spec fn replaced(s: Seq<char>, from: Seq<char>, to: Seq<char>) -> Seq<char>
    decreases s.len(),
{
    if from.len() == 0 {
        if s.len() == 0 {
            to
        } else {
            to + seq![s[0]] + replaced(s.drop_first(), from, to)
        }
    } else if s.len() == 0 {
        s
    } else if from.len() <= s.len() && s.subrange(0, from.len() as int) == from {
        to + replaced(s.subrange(from.len() as int, s.len() as int), from, to)
    } else {
        seq![s[0]] + replaced(s.drop_first(), from, to)
    }
}

/// The characters of a text.
fn chars_of(s: &str) -> (r: Vec<char>)
    ensures
        r@ == s@,
{
    let n = s.unicode_len();
    let mut out: Vec<char> = Vec::new();
    let mut i: usize = 0;
    while i < n
        invariant
            n == s@.len(),
            i <= n,
            out@ == s@.subrange(0, i as int),
        decreases n - i,
    {
        out.push(s.get_char(i));
        i = i + 1;
        assert(out@ =~= s@.subrange(0, i as int));
    }
    assert(s@.subrange(0, n as int) =~= s@);
    out
}

/// Whether `p` occurs in `s` at position `i`.
fn occurs_at(s: &Vec<char>, i: usize, p: &Vec<char>) -> (r: bool)
    requires
        i <= s@.len(),
    ensures
        r == (p@.len() <= s@.len() - i && s@.subrange(i as int, i + p@.len()) == p@),
{
    let n = s.len();
    let m = p.len();
    if m > n - i {
        return false;
    }
    let mut k: usize = 0;
    while k < m
        invariant
            n == s@.len(),
            m == p@.len(),
            m <= n - i,
            k <= m,
            forall|j: int| 0 <= j < k ==> s@[i + j] == p@[j],
        decreases m - k,
    {
        if s[i + k] != p[k] {
            assert(s@.subrange(i as int, i + m)[k as int] != p@[k as int]);
            return false;
        }
        k = k + 1;
    }
    assert(s@.subrange(i as int, i + m) =~= p@);
    true
}

/// Replaces every occurrence of `from` in `s` by `to`, as `str::replace` does.
pub fn replace_all(s: &str, from: &str, to: &str) -> (r: String)
    ensures
        r@ == replaced(s@, from@, to@),
{
    let cs = chars_of(s);
    let fs = chars_of(from);
    let n = cs.len();
    let m = fs.len();
    let mut out = String::new();
    let mut i: usize = 0;
    assert(cs@.subrange(0, n as int) =~= cs@);
    while i < n
        invariant
            n == cs@.len(),
            cs@ == s@,
            fs@ == from@,
            m == fs@.len(),
            i <= n,
            out@ + replaced(cs@.subrange(i as int, n as int), from@, to@) == replaced(s@, from@, to@),
        decreases n - i,
    {
        let ghost rest = cs@.subrange(i as int, n as int);
        if m > 0 && occurs_at(&cs, i, &fs) {
            assert(rest.subrange(0, m as int) =~= cs@.subrange(i as int, i + m));
            assert(rest.subrange(m as int, rest.len() as int) =~= cs@.subrange(i + m, n as int));
            let ghost before = out@;
            crate::error::push_str(&mut out, to);
            assert(out@ + replaced(cs@.subrange(i + m, n as int), from@, to@) =~= before + replaced(rest, from@, to@));
            i = i + m;
        } else {
            if m > 0 {
                assert(!(m <= rest.len() && rest.subrange(0, m as int) == from@)) by {
                    if m <= rest.len() && rest.subrange(0, m as int) == from@ {
                        assert(rest.subrange(0, m as int) =~= cs@.subrange(i as int, i + m));
                    }
                }
            }
            assert(rest.drop_first() =~= cs@.subrange(i + 1, n as int));
            let ghost before = out@;
            if m == 0 {
                crate::error::push_str(&mut out, to);
            }
            push_char(&mut out, cs[i]);
            assert(out@ + replaced(cs@.subrange(i + 1, n as int), from@, to@) =~= before + replaced(rest, from@, to@));
            i = i + 1;
        }
    }
    let ghost before = out@;
    if m == 0 {
        crate::error::push_str(&mut out, to);
    }
    assert(cs@.subrange(n as int, n as int) =~= Seq::<char>::empty());
    assert(out@ =~= before + replaced(Seq::<char>::empty(), from@, to@));
    out
}

/// The logic words written as operators, as evaluation prepares an expression:
/// ` AND `, ` OR `, ` NOT `, then `AND`, `OR`, `NOT`, become `&`, `|`, `!`.
pub open spec fn prepared(s: Seq<char>) -> Seq<char> {
    replaced(
        replaced(
            replaced(
                replaced(replaced(replaced(s, " AND "@, " & "@), " OR "@, " | "@), " NOT "@, " ! "@),
                "AND"@,
                "&"@,
            ),
            "OR"@,
            "|"@,
        ),
        "NOT"@,
        "!"@,
    )
}

/// Writes the logic words of an expression as operators.
pub fn prepare_expression(expression: &str) -> (r: String)
    ensures
        r@ == prepared(expression@),
{
    let a = replace_all(expression, " AND ", " & ");
    let b = replace_all(a.as_str(), " OR ", " | ");
    let c = replace_all(b.as_str(), " NOT ", " ! ");
    let d = replace_all(c.as_str(), "AND", "&");
    let e = replace_all(d.as_str(), "OR", "|");
    replace_all(e.as_str(), "NOT", "!")
}

/// The text after replacing, in order, each variable whose name has length `l` by
/// its value text.
pub open spec fn replace_names_of_length(s: Seq<char>, vars: Seq<(Seq<char>, Seq<char>)>, l: nat) -> Seq<char>
    decreases vars.len(),
{
    if vars.len() == 0 {
        s
    } else {
        let before = replace_names_of_length(s, vars.drop_last(), l);
        if vars.last().0.len() == l {
            replaced(before, vars.last().0, vars.last().1)
        } else {
            before
        }
    }
}

/// The text after replacing the variables whose names have length `l` or less,
/// longer names first.
pub open spec fn replace_names_from(s: Seq<char>, vars: Seq<(Seq<char>, Seq<char>)>, l: int) -> Seq<char>
    decreases l + 1,
{
    if l < 0 {
        s
    } else {
        replace_names_from(replace_names_of_length(s, vars, l as nat), vars, l - 1)
    }
}

/// The views of a list of (name, value text) pairs.
pub open spec fn pair_views(v: Seq<(String, String)>) -> Seq<(Seq<char>, Seq<char>)> {
    v.map_values(|p: (String, String)| (p.0@, p.1@))
}

/// The length of the longest name.
pub open spec fn longest_name(v: Seq<(Seq<char>, Seq<char>)>) -> nat
    decreases v.len(),
{
    if v.len() == 0 {
        0
    } else if v.last().0.len() > longest_name(v.drop_last()) {
        v.last().0.len()
    } else {
        longest_name(v.drop_last())
    }
}

/// Replaces each variable name by its value text, longer names first so that a
/// short name does not cut into a longer one; among names of one length, in the
/// order given.
pub fn substitute_variables(expression: &str, vars: &Vec<(String, String)>) -> (r: String)
    ensures
        r@ == replace_names_from(expression@, pair_views(vars@), longest_name(pair_views(vars@)) as int),
{
    let n = vars.len();
    let ghost pv = pair_views(vars@);
    let mut longest: usize = 0;
    let mut i: usize = 0;
    assert(pv.subrange(0, 0) =~= Seq::<(Seq<char>, Seq<char>)>::empty());
    while i < n
        invariant
            n == vars@.len(),
            pv == pair_views(vars@),
            i <= n,
            longest as nat == longest_name(pv.subrange(0, i as int)),
        decreases n - i,
    {
        assert(pv.subrange(0, i + 1).drop_last() =~= pv.subrange(0, i as int));
        assert(pv.subrange(0, i + 1).last().0 == vars@[i as int].0@);
        let l = vars[i].0.unicode_len();
        if l > longest {
            longest = l;
        }
        i = i + 1;
    }
    assert(pv.subrange(0, n as int) =~= pv);
    let mut text = string_of(expression);
    let mut l: usize = longest;
    let mut done = false;
    while !done
        invariant
            n == vars@.len(),
            pv == pair_views(vars@),
            l <= longest,
            !done ==> replace_names_from(text@, pv, l as int) == replace_names_from(expression@, pv, longest as int),
            done ==> text@ == replace_names_from(expression@, pv, longest as int),
        decreases (if done { 0int } else { l + 1 }),
    {
        let ghost start = text@;
        let mut k: usize = 0;
        while k < n
            invariant
                n == vars@.len(),
                pv == pair_views(vars@),
                k <= n,
                text@ == replace_names_of_length(start, pv.subrange(0, k as int), l as nat),
            decreases n - k,
        {
            let ghost prev = pv.subrange(0, k as int);
            assert(pv.subrange(0, k + 1).drop_last() =~= prev);
            assert(pv.subrange(0, k + 1).last() == (vars@[k as int].0@, vars@[k as int].1@));
            if vars[k].0.unicode_len() == l {
                text = replace_all(text.as_str(), vars[k].0.as_str(), vars[k].1.as_str());
            }
            k = k + 1;
        }
        assert(pv.subrange(0, n as int) =~= pv);
        if l == 0 {
            assert(replace_names_from(text@, pv, -1) == text@);
            done = true;
        } else {
            l = l - 1;
        }
    }
    text
}


/// Whether `t` is a non-empty run of ASCII digits.
pub open spec fn digit_run(t: Seq<char>) -> bool {
    t.len() > 0 && forall|i: int| 0 <= i < t.len() ==> is_digit(#[trigger] t[i])
}

/// A run of digits that ends where the digits end is read whole as a number's text.
proof fn lemma_number_end_run(s: Seq<char>, pos: int, e: int)
    requires
        0 <= pos <= e <= s.len(),
        forall|i: int| pos <= i < e ==> is_digit(#[trigger] s[i]),
        e == s.len() || !(is_digit(s[e]) || s[e] == '.'),
    ensures
        number_end(s, pos) == e,
    decreases e - pos,
{
    if pos < e {
        lemma_number_end_run(s, pos + 1, e);
    }
}

/// Digits hold no decimal point.
proof fn lemma_digits_have_no_point(t: Seq<char>)
    requires
        forall|i: int| 0 <= i < t.len() ==> is_digit(#[trigger] t[i]),
    ensures
        point_count(t) == 0,
    decreases t.len(),
{
    if t.len() > 0 {
        let p = t.drop_last();
        assert forall|i: int| 0 <= i < p.len() implies is_digit(#[trigger] p[i]) by {
            assert(p[i] == t[i]);
        }
        assert(is_digit(t[t.len() - 1]));
        lemma_digits_have_no_point(p);
    }
}

/// A run of digits at `pos`, ending at `e`, is read as that number.
proof fn lemma_factor_of_digits(s: Seq<char>, pos: int, e: int)
    requires
        0 <= pos < e <= s.len(),
        forall|i: int| pos <= i < e ==> is_digit(#[trigger] s[i]),
        e == s.len() || !(is_digit(s[e]) || s[e] == '.'),
    ensures
        parse_factor(s, pos) == Ok::<(ExprView, int), Seq<char>>((ExprView::Number(s.subrange(pos, e)), e)),
{
    assert(is_digit(s[pos]));
    if pos + 4 <= s.len() && s.subrange(pos, pos + 4) == seq!['t', 'r', 'u', 'e'] {
        assert(s.subrange(pos, pos + 4)[0] == s[pos]);
    }
    if pos + 5 <= s.len() && s.subrange(pos, pos + 5) == seq!['f', 'a', 'l', 's', 'e'] {
        assert(s.subrange(pos, pos + 5)[0] == s[pos]);
    }
    lemma_number_end_run(s, pos, e);
    let t = s.subrange(pos, e);
    assert forall|i: int| 0 <= i < t.len() implies is_digit(#[trigger] t[i]) by {
        assert(t[i] == s[pos + i]);
    }
    lemma_digits_have_no_point(t);
    assert(is_digit(t[0]));
    assert(valid_number(t));
}

/// Text without spaces is left as it is by dropping spaces.
proof fn lemma_drop_spaces_none(s: Seq<char>)
    requires
        forall|i: int| 0 <= i < s.len() ==> #[trigger] s[i] != ' ',
    ensures
        drop_spaces(s) == s,
    decreases s.len(),
{
    if s.len() > 0 {
        let p = s.drop_last();
        assert forall|i: int| 0 <= i < p.len() implies #[trigger] p[i] != ' ' by {
            assert(p[i] == s[i]);
        }
        assert(s[s.len() - 1] != ' ');
        lemma_drop_spaces_none(p);
        assert(p.push(s.last()) =~= s);
    }
}

/// The text of each binary operator in a cleaned expression.
pub open spec fn op_symbol(op: BinaryOp) -> Seq<char> {
    match op {
        BinaryOp::Or => seq!['|'],
        BinaryOp::And => seq!['&'],
        BinaryOp::Ge => seq!['>', '='],
        BinaryOp::Le => seq!['<', '='],
        BinaryOp::Eq => seq!['=', '='],
        BinaryOp::Ne => seq!['!', '='],
        BinaryOp::Gt => seq!['>'],
        BinaryOp::Lt => seq!['<'],
        BinaryOp::Add => seq!['+'],
        BinaryOp::Sub => seq!['-'],
        BinaryOp::Mul => seq!['*'],
        BinaryOp::Div => seq!['/'],
    }
}

/// An expression that runs to the end of the text is read unchanged by every
/// level above a factor.
proof fn lemma_tail_levels(s: Seq<char>, p: int, e: ExprView)
    requires
        0 <= p < s.len(),
        parse_factor(s, p) == Ok::<(ExprView, int), Seq<char>>((e, s.len() as int)),
    ensures
        parse_mul(s, p) == Ok::<(ExprView, int), Seq<char>>((e, s.len() as int)),
        parse_add(s, p) == Ok::<(ExprView, int), Seq<char>>((e, s.len() as int)),
        parse_comparison(s, p) == Ok::<(ExprView, int), Seq<char>>((e, s.len() as int)),
        parse_and(s, p) == Ok::<(ExprView, int), Seq<char>>((e, s.len() as int)),
        parse_or(s, p) == Ok::<(ExprView, int), Seq<char>>((e, s.len() as int)),
{
    let n = s.len() as int;
    assert(parse_mul_rest(s, n, e) == Ok::<(ExprView, int), Seq<char>>((e, n)));
    assert(parse_add_rest(s, n, e) == Ok::<(ExprView, int), Seq<char>>((e, n)));
    assert(parse_comparison_rest(s, n, e) == Ok::<(ExprView, int), Seq<char>>((e, n)));
    assert(parse_and_rest(s, n, e) == Ok::<(ExprView, int), Seq<char>>((e, n)));
    assert(parse_or_rest(s, n, e) == Ok::<(ExprView, int), Seq<char>>((e, n)));
}

/// What two numbers joined by an operator's text give at each end: the left number
/// read up to the operator, the right one read to the end at every level, and the
/// operator's characters in between.
proof fn lemma_operands(a: Seq<char>, b: Seq<char>, t: Seq<char>, q: ExprView)
    requires
        digit_run(a),
        digit_run(b),
        1 <= t.len() <= 2,
        !is_digit(t[0]) && t[0] != '.',
    ensures
        ({
            let s = a + t + b;
            let m = a.len() as int;
            let w = t.len() as int;
            let n = s.len() as int;
            &&& n == m + w + b.len()
            &&& forall|i: int| 0 <= i < w ==> #[trigger] s[m + i] == t[i]
            &&& parse_factor(s, 0) == Ok::<(ExprView, int), Seq<char>>((ExprView::Number(a), m))
            &&& parse_mul(s, m + w) == Ok::<(ExprView, int), Seq<char>>((ExprView::Number(b), n))
            &&& parse_add(s, m + w) == Ok::<(ExprView, int), Seq<char>>((ExprView::Number(b), n))
            &&& parse_comparison(s, m + w) == Ok::<(ExprView, int), Seq<char>>((ExprView::Number(b), n))
            &&& parse_and(s, m + w) == Ok::<(ExprView, int), Seq<char>>((ExprView::Number(b), n))
            &&& parse_factor(s, m + w) == Ok::<(ExprView, int), Seq<char>>((ExprView::Number(b), n))
            &&& parse_mul_rest(s, n, q) == Ok::<(ExprView, int), Seq<char>>((q, n))
            &&& parse_add_rest(s, n, q) == Ok::<(ExprView, int), Seq<char>>((q, n))
            &&& parse_comparison_rest(s, n, q) == Ok::<(ExprView, int), Seq<char>>((q, n))
            &&& parse_and_rest(s, n, q) == Ok::<(ExprView, int), Seq<char>>((q, n))
            &&& parse_or_rest(s, n, q) == Ok::<(ExprView, int), Seq<char>>((q, n))
        }),
{
    let s = a + t + b;
    let m = a.len() as int;
    let w = t.len() as int;
    let n = s.len() as int;
    assert forall|i: int| 0 <= i < m implies is_digit(#[trigger] s[i]) by {
        assert(s[i] == a[i]);
    }
    assert forall|i: int| 0 <= i < w implies #[trigger] s[m + i] == t[i] by {}
    assert forall|i: int| m + w <= i < n implies is_digit(#[trigger] s[i]) by {
        assert(s[i] == b[i - m - w]);
    }
    assert(s[m + 0] == t[0]);
    lemma_factor_of_digits(s, 0, m);
    lemma_factor_of_digits(s, m + w, n);
    assert(s.subrange(0, m) =~= a);
    assert(s.subrange(m + w, n) =~= b);
    lemma_tail_levels(s, m + w, ExprView::Number(b));
    assert(parse_mul_rest(s, n, q) == Ok::<(ExprView, int), Seq<char>>((q, n)));
    assert(parse_add_rest(s, n, q) == Ok::<(ExprView, int), Seq<char>>((q, n)));
    assert(parse_comparison_rest(s, n, q) == Ok::<(ExprView, int), Seq<char>>((q, n)));
    assert(parse_and_rest(s, n, q) == Ok::<(ExprView, int), Seq<char>>((q, n)));
    assert(parse_or_rest(s, n, q) == Ok::<(ExprView, int), Seq<char>>((q, n)));
}

/// The levels above the one that reads the operator pass its node through.
proof fn lemma_upper_levels(s: Seq<char>, q: ExprView, n: int, from_add: bool, from_comparison: bool, from_and: bool)
    requires
        n == s.len(),
        0 < n,
        parse_add_rest(s, n, q) == Ok::<(ExprView, int), Seq<char>>((q, n)),
        parse_comparison_rest(s, n, q) == Ok::<(ExprView, int), Seq<char>>((q, n)),
        parse_and_rest(s, n, q) == Ok::<(ExprView, int), Seq<char>>((q, n)),
        parse_or_rest(s, n, q) == Ok::<(ExprView, int), Seq<char>>((q, n)),
        from_add ==> parse_mul(s, 0) == Ok::<(ExprView, int), Seq<char>>((q, n)),
        from_comparison ==> (from_add || parse_add(s, 0) == Ok::<(ExprView, int), Seq<char>>((q, n))),
        from_and ==> (from_comparison || parse_comparison(s, 0) == Ok::<(ExprView, int), Seq<char>>((q, n))),
        from_and || parse_and(s, 0) == Ok::<(ExprView, int), Seq<char>>((q, n)),
    ensures
        parse_or(s, 0) == Ok::<(ExprView, int), Seq<char>>((q, n)),
{
    if from_add {
        assert(parse_add(s, 0) == Ok::<(ExprView, int), Seq<char>>((q, n)));
    }
    if from_comparison {
        assert(parse_comparison(s, 0) == Ok::<(ExprView, int), Seq<char>>((q, n)));
    }
    if from_and {
        assert(parse_and(s, 0) == Ok::<(ExprView, int), Seq<char>>((q, n)));
    }
}

/// Two numbers joined by the text of a product.
proof fn lemma_a_product_of_numbers(a: Seq<char>, b: Seq<char>, op: BinaryOp)
    requires
        digit_run(a),
        digit_run(b),
        op is Mul || op is Div,
    ensures
        parse_or(a + op_symbol(op) + b, 0) == Ok::<(ExprView, int), Seq<char>>(
            (node(op, ExprView::Number(a), ExprView::Number(b)), (a.len() + op_symbol(op).len() + b.len()) as int),
        ),
{
    let t = op_symbol(op);
    let s = a + t + b;
    let m = a.len() as int;
    let w = t.len() as int;
    let n = s.len() as int;
    let na = ExprView::Number(a);
    let q = node(op, na, ExprView::Number(b));
    lemma_operands(a, b, t, q);
    assert(s[m + 0] == t[0]);
    assert(mul_op_at(s, m) == Some(op));
    assert(parse_mul_rest(s, m, na) == Ok::<(ExprView, int), Seq<char>>((q, n)));
    assert(parse_mul(s, 0) == Ok::<(ExprView, int), Seq<char>>((q, n)));
    lemma_upper_levels(s, q, n, true, true, true);
}

/// Two numbers joined by the text of a sum.
proof fn lemma_a_sum_of_numbers(a: Seq<char>, b: Seq<char>, op: BinaryOp)
    requires
        digit_run(a),
        digit_run(b),
        op is Add || op is Sub,
    ensures
        parse_or(a + op_symbol(op) + b, 0) == Ok::<(ExprView, int), Seq<char>>(
            (node(op, ExprView::Number(a), ExprView::Number(b)), (a.len() + op_symbol(op).len() + b.len()) as int),
        ),
{
    let t = op_symbol(op);
    let s = a + t + b;
    let m = a.len() as int;
    let w = t.len() as int;
    let n = s.len() as int;
    let na = ExprView::Number(a);
    let q = node(op, na, ExprView::Number(b));
    lemma_operands(a, b, t, q);
    assert(s[m + 0] == t[0]);
    assert(mul_op_at(s, m) is None);
    assert(parse_mul(s, 0) == Ok::<(ExprView, int), Seq<char>>((na, m)));
    assert(add_op_at(s, m) == Some(op));
    assert(parse_add_rest(s, m, na) == Ok::<(ExprView, int), Seq<char>>((q, n)));
    assert(parse_add(s, 0) == Ok::<(ExprView, int), Seq<char>>((q, n)));
    lemma_upper_levels(s, q, n, false, true, true);
}

/// A comparison's text at `pos` is read as that comparison, with its width.
proof fn lemma_comparison_symbol(s: Seq<char>, pos: int, op: BinaryOp, next: char)
    requires
        op is Ge || op is Le || op is Eq || op is Ne || op is Gt || op is Lt,
        0 <= pos,
        pos + op_symbol(op).len() < s.len(),
        s[pos] == op_symbol(op)[0],
        op_symbol(op).len() == 2 ==> s[pos + 1] == op_symbol(op)[1],
        op_symbol(op).len() == 1 ==> s[pos + 1] == next && is_digit(next),
    ensures
        comparison_op_at(s, pos) == Some((op, op_symbol(op).len() as int)),
{
}

/// A comparison read at `pos` joins the left operand to the sum after it.
proof fn lemma_comparison_step(s: Seq<char>, pos: int, w: int, op: BinaryOp, l: ExprView, r: ExprView)
    requires
        0 <= pos,
        comparison_op_at(s, pos) == Some((op, w)),
        pos + w < s.len(),
        parse_add(s, pos + w) == Ok::<(ExprView, int), Seq<char>>((r, s.len() as int)),
        parse_comparison_rest(s, s.len() as int, node(op, l, r)) == Ok::<(ExprView, int), Seq<char>>(
            (node(op, l, r), s.len() as int),
        ),
    ensures
        parse_comparison_rest(s, pos, l) == Ok::<(ExprView, int), Seq<char>>((node(op, l, r), s.len() as int)),
{
}

/// A comparison's text starts with `>`, `<`, `=` or `!`.
proof fn lemma_comparison_first_char(op: BinaryOp)
    requires
        op is Ge || op is Le || op is Eq || op is Ne || op is Gt || op is Lt,
    ensures
        1 <= op_symbol(op).len() <= 2,
        op_symbol(op)[0] == '>' || op_symbol(op)[0] == '<' || op_symbol(op)[0] == '=' || op_symbol(op)[0] == '!',
{
}

/// A number followed by a comparison's first character is a whole sum.
proof fn lemma_number_before_comparison(s: Seq<char>, m: int, na: ExprView)
    requires
        0 < m < s.len(),
        parse_factor(s, 0) == Ok::<(ExprView, int), Seq<char>>((na, m)),
        s[m] == '>' || s[m] == '<' || s[m] == '=' || s[m] == '!',
    ensures
        parse_add(s, 0) == Ok::<(ExprView, int), Seq<char>>((na, m)),
{
    assert(mul_op_at(s, m) is None);
    assert(parse_mul_rest(s, m, na) == Ok::<(ExprView, int), Seq<char>>((na, m)));
    assert(parse_mul(s, 0) == Ok::<(ExprView, int), Seq<char>>((na, m)));
    assert(add_op_at(s, m) is None);
    assert(parse_add_rest(s, m, na) == Ok::<(ExprView, int), Seq<char>>((na, m)));
}

/// Two numbers joined by the text of a comparison.
#[verifier::spinoff_prover]
proof fn lemma_a_comparison_of_numbers(a: Seq<char>, b: Seq<char>, op: BinaryOp)
    requires
        digit_run(a),
        digit_run(b),
        op is Ge || op is Le || op is Eq || op is Ne || op is Gt || op is Lt,
    ensures
        parse_or(a + op_symbol(op) + b, 0) == Ok::<(ExprView, int), Seq<char>>(
            (node(op, ExprView::Number(a), ExprView::Number(b)), (a.len() + op_symbol(op).len() + b.len()) as int),
        ),
{
    let t = op_symbol(op);
    let s = a + t + b;
    let m = a.len() as int;
    let w = t.len() as int;
    let n = s.len() as int;
    let na = ExprView::Number(a);
    let q = node(op, na, ExprView::Number(b));
    lemma_comparison_first_char(op);
    lemma_operands(a, b, t, q);
    assert(s[m + 0] == t[0]);
    lemma_number_before_comparison(s, m, na);
    assert(comparison_op_at(s, m) == Some((op, w))) by {
        if w == 2 {
            assert(s[m + 1] == t[1]);
        } else {
            assert(s[m + 1] == b[0]);
        }
        lemma_comparison_symbol(s, m, op, b[0]);
    }
    lemma_comparison_step(s, m, w, op, na, ExprView::Number(b));
    assert(parse_comparison(s, 0) == Ok::<(ExprView, int), Seq<char>>((q, n)));
    lemma_upper_levels(s, q, n, false, false, true);
}

/// Two numbers joined by the text of a conjunction.
proof fn lemma_a_conjunction_of_numbers(a: Seq<char>, b: Seq<char>, op: BinaryOp)
    requires
        digit_run(a),
        digit_run(b),
        op is And,
    ensures
        parse_or(a + op_symbol(op) + b, 0) == Ok::<(ExprView, int), Seq<char>>(
            (node(op, ExprView::Number(a), ExprView::Number(b)), (a.len() + op_symbol(op).len() + b.len()) as int),
        ),
{
    let t = op_symbol(op);
    let s = a + t + b;
    let m = a.len() as int;
    let w = t.len() as int;
    let n = s.len() as int;
    let na = ExprView::Number(a);
    let q = node(op, na, ExprView::Number(b));
    lemma_operands(a, b, t, q);
    assert(s[m + 0] == t[0]);
    assert(mul_op_at(s, m) is None);
    assert(parse_mul(s, 0) == Ok::<(ExprView, int), Seq<char>>((na, m)));
    assert(add_op_at(s, m) is None);
    assert(parse_add(s, 0) == Ok::<(ExprView, int), Seq<char>>((na, m)));
    assert(comparison_op_at(s, m) is None);
    assert(parse_comparison(s, 0) == Ok::<(ExprView, int), Seq<char>>((na, m)));
    assert(parse_and_rest(s, m, na) == Ok::<(ExprView, int), Seq<char>>((q, n)));
    assert(parse_and(s, 0) == Ok::<(ExprView, int), Seq<char>>((q, n)));
    lemma_upper_levels(s, q, n, false, false, false);
}

/// Two numbers joined by the text of a disjunction.
proof fn lemma_a_disjunction_of_numbers(a: Seq<char>, b: Seq<char>, op: BinaryOp)
    requires
        digit_run(a),
        digit_run(b),
        op is Or,
    ensures
        parse_or(a + op_symbol(op) + b, 0) == Ok::<(ExprView, int), Seq<char>>(
            (node(op, ExprView::Number(a), ExprView::Number(b)), (a.len() + op_symbol(op).len() + b.len()) as int),
        ),
{
    let t = op_symbol(op);
    let s = a + t + b;
    let m = a.len() as int;
    let w = t.len() as int;
    let n = s.len() as int;
    let na = ExprView::Number(a);
    let q = node(op, na, ExprView::Number(b));
    lemma_operands(a, b, t, q);
    assert(s[m + 0] == t[0]);
    assert(mul_op_at(s, m) is None);
    assert(parse_mul(s, 0) == Ok::<(ExprView, int), Seq<char>>((na, m)));
    assert(add_op_at(s, m) is None);
    assert(parse_add(s, 0) == Ok::<(ExprView, int), Seq<char>>((na, m)));
    assert(comparison_op_at(s, m) is None);
    assert(parse_comparison(s, 0) == Ok::<(ExprView, int), Seq<char>>((na, m)));
    assert(parse_and_rest(s, m, na) == Ok::<(ExprView, int), Seq<char>>((na, m)));
    assert(parse_and(s, 0) == Ok::<(ExprView, int), Seq<char>>((na, m)));
    assert(parse_or_rest(s, m, na) == Ok::<(ExprView, int), Seq<char>>((q, n)));
    
}

/// Text that starts and ends with a digit and holds no space is left as it is by
/// cleaning.
proof fn lemma_cleaned_keeps(s: Seq<char>)
    requires
        s.len() > 0,
        is_digit(s[0]),
        is_digit(s[s.len() - 1]),
        forall|i: int| 0 <= i < s.len() ==> #[trigger] s[i] != ' ',
    ensures
        cleaned(s) == s,
{
    assert(!is_white_space(s[0]));
    assert(!is_white_space(s[s.len() - 1]));
    assert(trim_start_of(s) == s);
    assert(trim_end_of(s) == s);
    lemma_drop_spaces_none(s);
}

/// Two whole numbers joined by an operator's text parse as that operator applied to
/// the left number and the right one: `a*b`, `a/b`, `a+b`, `a-b`, `a>b`, `a<b`,
/// `a>=b`, `a<=b`, `a==b`, `a!=b`, `a&b` and `a|b`.
pub proof fn lemma_binary_of_numbers(a: Seq<char>, b: Seq<char>, op: BinaryOp)
    requires
        digit_run(a),
        digit_run(b),
    ensures
        parse_or(a + op_symbol(op) + b, 0) == Ok::<(ExprView, int), Seq<char>>(
            (node(op, ExprView::Number(a), ExprView::Number(b)), (a.len() + op_symbol(op).len() + b.len()) as int),
        ),
        expression_parse(a + op_symbol(op) + b) == Ok::<ExprView, Seq<char>>(
            node(op, ExprView::Number(a), ExprView::Number(b)),
        ),
{
    let s = a + op_symbol(op) + b;
    let t = op_symbol(op);
    assert(1 <= t.len() <= 2 && t[0] != ' ' && t[t.len() - 1] != ' ');
    assert forall|i: int| 0 <= i < s.len() implies #[trigger] s[i] != ' ' by {
        if i < a.len() {
            assert(s[i] == a[i] && is_digit(a[i]));
        } else if i < a.len() + t.len() {
            assert(s[i] == t[i - a.len()]);
        } else {
            assert(s[i] == b[i - a.len() - t.len()] && is_digit(b[i - a.len() - t.len()]));
        }
    }
    assert(s[0] == a[0] && is_digit(a[0]));
    assert(s[s.len() - 1] == b[b.len() - 1] && is_digit(b[b.len() - 1]));
    lemma_cleaned_keeps(s);
    match op {
        BinaryOp::Mul | BinaryOp::Div => lemma_a_product_of_numbers(a, b, op),
        BinaryOp::Add | BinaryOp::Sub => lemma_a_sum_of_numbers(a, b, op),
        BinaryOp::And => lemma_a_conjunction_of_numbers(a, b, op),
        BinaryOp::Or => lemma_a_disjunction_of_numbers(a, b, op),
        _ => lemma_a_comparison_of_numbers(a, b, op),
    }
}

/// Wherever a `/` follows a factor, the product read so far becomes the left
/// operand of a division whose right operand is the factor after the `/`.
pub proof fn lemma_slash_divides(s: Seq<char>, pos: int, left: ExprView)
    requires
        0 <= pos < s.len(),
        s[pos] == '/',
        parse_factor(s, pos + 1) is Ok,
        pos + 1 < parse_factor(s, pos + 1)->Ok_0.1 <= s.len(),
    ensures
        parse_mul_rest(s, pos, left) == parse_mul_rest(
            s,
            parse_factor(s, pos + 1)->Ok_0.1,
            ExprView::Binary(BinaryOp::Div, Box::new(left), Box::new(parse_factor(s, pos + 1)->Ok_0.0)),
        ),
{
}

} // verus!
