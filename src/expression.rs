use vstd::prelude::*;
use vstd::string::*;

use crate::ast::{BinaryOperator, ExprModel, Expression};
use crate::token::{next_token_is, quoted, SqlParseError, SqlTokenKind, SqlTokenStream, TokenBuffer};

verus! {

/// The operator a token stands for and how tightly it binds.
pub open spec fn spec_binary_op(k: SqlTokenKind) -> Option<(BinaryOperator, int)> {
    match k {
        SqlTokenKind::Or => Some((BinaryOperator::Or, 1)),
        SqlTokenKind::And => Some((BinaryOperator::And, 2)),
        SqlTokenKind::Equals => Some((BinaryOperator::Equals, 3)),
        SqlTokenKind::NotEquals => Some((BinaryOperator::NotEquals, 3)),
        SqlTokenKind::Less => Some((BinaryOperator::Less, 3)),
        SqlTokenKind::Greater => Some((BinaryOperator::Greater, 3)),
        SqlTokenKind::Plus => Some((BinaryOperator::Add, 4)),
        SqlTokenKind::Minus => Some((BinaryOperator::Subtract, 4)),
        SqlTokenKind::Star => Some((BinaryOperator::Multiply, 5)),
        SqlTokenKind::Slash => Some((BinaryOperator::Divide, 5)),
        _ => None,
    }
}

/// An operand: a column, optionally qualified by a table, a literal, or a parenthesized
/// expression. The result holds the operand and the index just past it.
pub open spec fn spec_primary(b: TokenBuffer, p: int) -> Option<(ExprModel, int)>
    decreases b.tokens.len() - p, 0int,
{
    match b.kind_at(p) {
        Some(SqlTokenKind::Identifier) => {
            if b.kind_at(p + 1) == Some(SqlTokenKind::Dot) {
                if b.kind_at(p + 2) == Some(SqlTokenKind::Identifier) {
                    Some((ExprModel::Column { table: Some(b.text_at(p)), name: b.text_at(p + 2) }, p + 3))
                } else {
                    None
                }
            } else {
                Some((ExprModel::Column { table: None, name: b.text_at(p) }, p + 1))
            }
        },
        Some(SqlTokenKind::Literal) => Some((ExprModel::Literal(b.text_at(p)), p + 1)),
        Some(SqlTokenKind::LParen) => match spec_expr(b, p + 1, 0) {
            Some((e, q)) => if b.kind_at(q) == Some(SqlTokenKind::RParen) {
                Some((e, q + 1))
            } else {
                None
            },
            None => None,
        },
        _ => None,
    }
}

/// One expression at `p` whose operators all bind at least as tightly as `min_bp`,
/// read by precedence climbing.
pub open spec fn spec_expr(b: TokenBuffer, p: int, min_bp: int) -> Option<(ExprModel, int)>
    decreases b.tokens.len() - p, 2int,
{
    match spec_primary(b, p) {
        Some((lhs, q)) => if p < q <= b.tokens.len() {
            spec_expr_tail(b, lhs, q, min_bp)
        } else {
            None
        },
        None => None,
    }
}

/// The operators and right operands that follow `lhs`, which ends at `p`.
pub open spec fn spec_expr_tail(b: TokenBuffer, lhs: ExprModel, p: int, min_bp: int) -> Option<(ExprModel, int)>
    decreases b.tokens.len() - p, 1int,
{
    match b.kind_at(p) {
        Some(k) => match spec_binary_op(k) {
            Some((op, bp)) => if bp >= min_bp {
                match spec_expr(b, p + 1, bp + 1) {
                    Some((rhs, q)) => if p + 1 < q <= b.tokens.len() {
                        spec_expr_tail(
                            b,
                            ExprModel::Binary { left: Box::new(lhs), op, right: Box::new(rhs) },
                            q,
                            min_bp,
                        )
                    } else {
                        None
                    },
                    None => None,
                }
            } else {
                Some((lhs, p))
            },
            None => Some((lhs, p)),
        },
        None => Some((lhs, p)),
    }
}

/// The message of the error for a token at `p` that no expression can go on with.
pub open spec fn expr_message(b: TokenBuffer, p: int) -> Seq<char> {
    if 0 <= p < b.tokens.len() {
        "Unexpected token in expression: "@ + quoted(b.text_at(p))
    } else {
        "Unexpected end of input in expression"@
    }
}

/// Where reading an operand at `p` fails, when `spec_primary` says it does.
pub open spec fn spec_primary_fail(b: TokenBuffer, p: int) -> int
    decreases b.tokens.len() - p, 0int,
{
    match b.kind_at(p) {
        Some(SqlTokenKind::Identifier) => p + 2,
        Some(SqlTokenKind::LParen) => match spec_expr(b, p + 1, 0) {
            Some((_, q)) => q,
            None => spec_expr_fail(b, p + 1, 0),
        },
        _ => p,
    }
}

/// Where reading an expression at `p` fails, when `spec_expr` says it does.
pub open spec fn spec_expr_fail(b: TokenBuffer, p: int, min_bp: int) -> int
    decreases b.tokens.len() - p, 2int,
{
    match spec_primary(b, p) {
        Some((lhs, q)) => if p < q <= b.tokens.len() {
            spec_expr_tail_fail(b, lhs, q, min_bp)
        } else {
            p
        },
        None => spec_primary_fail(b, p),
    }
}

/// Where reading the operators after `lhs` fails, when `spec_expr_tail` says it does.
pub open spec fn spec_expr_tail_fail(b: TokenBuffer, lhs: ExprModel, p: int, min_bp: int) -> int
    decreases b.tokens.len() - p, 1int,
{
    match b.kind_at(p) {
        Some(k) => match spec_binary_op(k) {
            Some((op, bp)) => if bp >= min_bp {
                match spec_expr(b, p + 1, bp + 1) {
                    Some((rhs, q)) => if p + 1 < q <= b.tokens.len() {
                        spec_expr_tail_fail(
                            b,
                            ExprModel::Binary { left: Box::new(lhs), op, right: Box::new(rhs) },
                            q,
                            min_bp,
                        )
                    } else {
                        p
                    },
                    None => spec_expr_fail(b, p + 1, bp + 1),
                }
            } else {
                p
            },
            None => p,
        },
        None => p,
    }
}

/// An expression parse that failed at index `at`: the cursor stands there, and the
/// error names the token there.
pub open spec fn expr_failure(r: Result<Expression, SqlParseError>, b: TokenBuffer, at: int, now: SqlTokenStream) -> bool {
    r is Err ==> r->Err_0.message@ == expr_message(b, at) && now.pos == at
}

/// Whether an expression parse that left the stream as `now` gave what `expected`
/// says: the expression and the index past it, or a failure.
pub open spec fn expr_outcome(
    r: Result<Expression, SqlParseError>,
    expected: Option<(ExprModel, int)>,
    now: SqlTokenStream,
) -> bool {
    match expected {
        Some((e, q)) => r is Ok && r->Ok_0@ == e && now.pos == q,
        None => r is Err,
    }
}

fn binary_op(k: SqlTokenKind) -> (r: Option<(BinaryOperator, u8)>)
    ensures
        match spec_binary_op(k) {
            Some((op, bp)) => r == Some((op, bp as u8)) && 1 <= bp <= 5,
            None => r.is_none(),
        },
{
    match k {
        SqlTokenKind::Or => Some((BinaryOperator::Or, 1)),
        SqlTokenKind::And => Some((BinaryOperator::And, 2)),
        SqlTokenKind::Equals => Some((BinaryOperator::Equals, 3)),
        SqlTokenKind::NotEquals => Some((BinaryOperator::NotEquals, 3)),
        SqlTokenKind::Less => Some((BinaryOperator::Less, 3)),
        SqlTokenKind::Greater => Some((BinaryOperator::Greater, 3)),
        SqlTokenKind::Plus => Some((BinaryOperator::Add, 4)),
        SqlTokenKind::Minus => Some((BinaryOperator::Subtract, 4)),
        SqlTokenKind::Star => Some((BinaryOperator::Multiply, 5)),
        SqlTokenKind::Slash => Some((BinaryOperator::Divide, 5)),
        _ => None,
    }
}

fn unexpected(input: &SqlTokenStream) -> (r: SqlParseError)
    requires
        input.wf(),
    ensures
        r.message@ == expr_message(input.buffer(), input.pos as int),
{
    match input.peek(0) {
        Some(t) => {
            assert(input.tokens@[input.pos as int].start <= input.tokens@[input.pos as int].end);
            let got = input.print(t);
            SqlParseError { message: String::from_str("Unexpected token in expression: ").concat(got.as_str()) }
        },
        None => SqlParseError::new("Unexpected end of input in expression"),
    }
}

fn parse_primary(input: &mut SqlTokenStream) -> (r: Result<Expression, SqlParseError>)
    requires
        old(input).wf(),
    ensures
        final(input).wf(),
        final(input).same_buffer(old(input)),
        expr_outcome(r, spec_primary(old(input).buffer(), old(input).pos as int), *final(input)),
        r is Ok ==> old(input).pos < final(input).pos,
        expr_failure(r, old(input).buffer(), spec_primary_fail(old(input).buffer(), old(input).pos as int), *final(input)),
    decreases old(input).tokens@.len() - old(input).pos, 0int,
{
    let ghost b = input.buffer();
    let ghost p = input.pos as int;
    match input.peek_kind(0) {
        Some(SqlTokenKind::Identifier) => {
            let first = input.next_token().unwrap();
            assert(input.tokens@[p].start <= input.tokens@[p].end);
            let first_text = input.materialize(first);
            if next_token_is(input, SqlTokenKind::Dot) {
                match input.peek_kind(0) {
                    Some(SqlTokenKind::Identifier) => {
                        let second = input.next_token().unwrap();
                        assert(input.tokens@[p + 2].start <= input.tokens@[p + 2].end);
                        let name = input.materialize(second);
                        Ok(Expression::Column { table: Some(first_text), name })
                    },
                    _ => Err(unexpected(input)),
                }
            } else {
                Ok(Expression::Column { table: None, name: first_text })
            }
        },
        Some(SqlTokenKind::Literal) => {
            let t = input.next_token().unwrap();
            assert(input.tokens@[p].start <= input.tokens@[p].end);
            Ok(Expression::Literal(input.materialize(t)))
        },
        Some(SqlTokenKind::LParen) => {
            input.next_token();
            let e = match parse_expr(input, 0) {
                Ok(e) => e,
                Err(err) => return Err(err),
            };
            if next_token_is(input, SqlTokenKind::RParen) {
                Ok(e)
            } else {
                Err(unexpected(input))
            }
        },
        _ => Err(unexpected(input)),
    }
}

/// Parses one expression whose operators bind at least as tightly as `min_bp`.
pub fn parse_expr(input: &mut SqlTokenStream, min_bp: u8) -> (r: Result<Expression, SqlParseError>)
    requires
        old(input).wf(),
    ensures
        final(input).wf(),
        final(input).same_buffer(old(input)),
        expr_outcome(r, spec_expr(old(input).buffer(), old(input).pos as int, min_bp as int), *final(input)),
        r is Ok ==> old(input).pos < final(input).pos,
        expr_failure(
            r,
            old(input).buffer(),
            spec_expr_fail(old(input).buffer(), old(input).pos as int, min_bp as int),
            *final(input),
        ),
    decreases old(input).tokens@.len() - old(input).pos, 2int,
{
    let lhs = match parse_primary(input) {
        Ok(e) => e,
        Err(err) => return Err(err),
    };
    parse_expr_tail(input, lhs, min_bp)
}

fn parse_expr_tail(input: &mut SqlTokenStream, lhs: Expression, min_bp: u8) -> (r: Result<Expression, SqlParseError>)
    requires
        old(input).wf(),
    ensures
        final(input).wf(),
        final(input).same_buffer(old(input)),
        expr_outcome(r, spec_expr_tail(old(input).buffer(), lhs@, old(input).pos as int, min_bp as int), *final(input)),
        r is Ok ==> old(input).pos <= final(input).pos,
        expr_failure(
            r,
            old(input).buffer(),
            spec_expr_tail_fail(old(input).buffer(), lhs@, old(input).pos as int, min_bp as int),
            *final(input),
        ),
    decreases old(input).tokens@.len() - old(input).pos, 1int,
{
    match input.peek_kind(0) {
        Some(k) => match binary_op(k) {
            Some((op, bp)) => {
                if bp >= min_bp {
                    input.next_token();
                    let rhs = match parse_expr(input, bp + 1) {
                        Ok(e) => e,
                        Err(err) => return Err(err),
                    };
                    parse_expr_tail(input, Expression::Binary { left: Box::new(lhs), op, right: Box::new(rhs) }, min_bp)
                } else {
                    Ok(lhs)
                }
            },
            None => Ok(lhs),
        },
        None => Ok(lhs),
    }
}

} // verus!
