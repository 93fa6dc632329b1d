use vstd::prelude::*;
use vstd::string::*;

use crate::ast::{
    Direction, ExprModel, Expression, FromClause, FromModel, Join, JoinModel, JoinType, JoinVariant,
    Table, TableModel, joins_model, opt_expr, opt_text,
};
use crate::expression::{expr_message, parse_expr, spec_expr, spec_expr_fail};
use crate::number::{parse_u64, spec_parse_u64};
use crate::token::{
    expect_token, next_token_is, unexpected_token_message, SqlParseError, SqlTokenKind, SqlTokenStream,
    TokenBuffer,
};

verus! {

/// An optional alias at `p`: `AS name` or a bare identifier.
pub open spec fn spec_alias(b: TokenBuffer, p: int) -> Option<(Option<Seq<char>>, int)> {
    match b.kind_at(p) {
        Some(SqlTokenKind::As) => if b.kind_at(p + 1) == Some(SqlTokenKind::Identifier) {
            Some((Some(b.text_at(p + 1)), p + 2))
        } else {
            None
        },
        Some(SqlTokenKind::Identifier) => Some((Some(b.text_at(p)), p + 1)),
        _ => Some((None, p)),
    }
}

/// A table reference at `p`: an identifier and an optional alias.
pub open spec fn spec_table(b: TokenBuffer, p: int) -> Option<(TableModel, int)> {
    if b.kind_at(p) == Some(SqlTokenKind::Identifier) {
        match spec_alias(b, p + 1) {
            Some((alias, q)) => Some((TableModel { name: b.text_at(p), alias, table_no: None }, q)),
            None => None,
        }
    } else {
        None
    }
}

pub open spec fn is_qualifier(k: Option<SqlTokenKind>) -> bool {
    k == Some(SqlTokenKind::Inner) || k == Some(SqlTokenKind::Outer) || k == Some(SqlTokenKind::Left)
}

pub open spec fn qualifier_variant(k: SqlTokenKind) -> JoinVariant {
    match k {
        SqlTokenKind::Inner => JoinVariant::Inner,
        SqlTokenKind::Outer => JoinVariant::Outer,
        _ => JoinVariant::Left,
    }
}

/// The run of qualifier keywords from `p`, added to `acc`, and the index past the run.
pub open spec fn spec_qualifiers(b: TokenBuffer, p: int, acc: JoinType) -> (JoinType, int)
    decreases b.tokens.len() - p,
{
    if 0 <= p && is_qualifier(b.kind_at(p)) {
        spec_qualifiers(b, p + 1, acc.added(qualifier_variant(b.tokens[p].kind)))
    } else {
        (acc, p)
    }
}

pub open spec fn empty_join_type() -> JoinType {
    JoinType { inner: false, outer: false, left: false }
}

pub open spec fn inner_join_type() -> JoinType {
    JoinType { inner: true, outer: false, left: false }
}

/// What introduces a join at `p`: a comma (an inner join), qualifiers followed by
/// `JOIN`, or a bare `JOIN`. `Some((None, p))` when no join starts there.
pub open spec fn spec_join_type(b: TokenBuffer, p: int) -> Option<(Option<JoinType>, int)> {
    if b.kind_at(p) == Some(SqlTokenKind::Comma) {
        Some((Some(inner_join_type()), p + 1))
    } else {
        let (t, q) = spec_qualifiers(b, p, empty_join_type());
        if q > p {
            if b.kind_at(q) == Some(SqlTokenKind::Join) {
                Some((Some(t), q + 1))
            } else {
                None
            }
        } else if b.kind_at(p) == Some(SqlTokenKind::Join) {
            Some((Some(empty_join_type()), p + 1))
        } else {
            Some((None, p))
        }
    }
}

/// An optional clause introduced by `keyword` and holding one expression.
pub open spec fn spec_keyword_expr(b: TokenBuffer, p: int, keyword: SqlTokenKind) -> Option<(Option<ExprModel>, int)> {
    if b.kind_at(p) == Some(keyword) {
        match spec_expr(b, p + 1, 0) {
            Some((e, q)) => Some((Some(e), q)),
            None => None,
        }
    } else {
        Some((None, p))
    }
}

/// One join at `p`, or `Some((None, p))` when no join starts there.
pub open spec fn spec_join(b: TokenBuffer, p: int) -> Option<(Option<JoinModel>, int)> {
    match spec_join_type(b, p) {
        Some((Some(join_type), q)) => match spec_table(b, q) {
            Some((table, q2)) => match spec_keyword_expr(b, q2, SqlTokenKind::On) {
                Some((on, q3)) => Some((Some(JoinModel { join_type, table, on }), q3)),
                None => None,
            },
            None => None,
        },
        Some((None, q)) => Some((None, q)),
        None => None,
    }
}

/// The joins from `p` on, appended to `acc`.
pub open spec fn spec_joins_from(b: TokenBuffer, p: int, acc: Seq<JoinModel>) -> Option<(Seq<JoinModel>, int)>
    decreases b.tokens.len() - p,
{
    match spec_join(b, p) {
        Some((Some(j), q)) => if p < q <= b.tokens.len() {
            spec_joins_from(b, q, acc.push(j))
        } else {
            None
        },
        Some((None, q)) => Some((acc, q)),
        None => None,
    }
}

/// An optional `FROM` clause at `p`.
pub open spec fn spec_from_clause(b: TokenBuffer, p: int) -> Option<(Option<FromModel>, int)> {
    if b.kind_at(p) == Some(SqlTokenKind::From) {
        match spec_table(b, p + 1) {
            Some((table, q)) => match spec_joins_from(b, q, seq![]) {
                Some((joins, q2)) => Some((
                    Some(FromModel { table, joins: if joins.len() == 0 { None } else { Some(joins) } }),
                    q2,
                )),
                None => None,
            },
            None => None,
        }
    } else {
        Some((None, p))
    }
}

/// The comma-separated expressions from `p` on, appended to `acc`.
pub open spec fn spec_expr_list_from(b: TokenBuffer, p: int, acc: Seq<ExprModel>) -> Option<(Seq<ExprModel>, int)>
    decreases b.tokens.len() - p,
{
    if b.kind_at(p) == Some(SqlTokenKind::Comma) {
        match spec_expr(b, p + 1, 0) {
            Some((e, q)) => if p + 1 < q <= b.tokens.len() {
                spec_expr_list_from(b, q, acc.push(e))
            } else {
                None
            },
            None => None,
        }
    } else {
        Some((acc, p))
    }
}

/// An optional `GROUP BY` clause: the keyword, then one or more comma-separated expressions.
pub open spec fn spec_group_by(b: TokenBuffer, p: int) -> Option<(Option<Seq<ExprModel>>, int)> {
    if b.kind_at(p) == Some(SqlTokenKind::GroupBy) {
        match spec_expr(b, p + 1, 0) {
            Some((e, q)) => match spec_expr_list_from(b, q, seq![e]) {
                Some((list, q2)) => Some((Some(list), q2)),
                None => None,
            },
            None => None,
        }
    } else {
        Some((None, p))
    }
}

/// One `ORDER BY` key: an expression and an optional `ASC` or `DESC`.
pub open spec fn spec_order_item(b: TokenBuffer, p: int) -> Option<((ExprModel, Direction), int)> {
    match spec_expr(b, p, 0) {
        Some((e, q)) => if b.kind_at(q) == Some(SqlTokenKind::Asc) {
            Some(((e, Direction::Ascending), q + 1))
        } else if b.kind_at(q) == Some(SqlTokenKind::Desc) {
            Some(((e, Direction::Descending), q + 1))
        } else {
            Some(((e, Direction::Ascending), q))
        },
        None => None,
    }
}

/// The comma-separated `ORDER BY` keys from `p` on, appended to `acc`.
pub open spec fn spec_order_list_from(b: TokenBuffer, p: int, acc: Seq<(ExprModel, Direction)>) -> Option<
    (Seq<(ExprModel, Direction)>, int),
>
    decreases b.tokens.len() - p,
{
    if b.kind_at(p) == Some(SqlTokenKind::Comma) {
        match spec_order_item(b, p + 1) {
            Some((e, q)) => if p + 1 < q <= b.tokens.len() {
                spec_order_list_from(b, q, acc.push(e))
            } else {
                None
            },
            None => None,
        }
    } else {
        Some((acc, p))
    }
}

/// An optional `ORDER BY` clause: the keyword, then one or more comma-separated keys.
pub open spec fn spec_order_by(b: TokenBuffer, p: int) -> Option<(Option<Seq<(ExprModel, Direction)>>, int)> {
    if b.kind_at(p) == Some(SqlTokenKind::OrderBy) {
        match spec_order_item(b, p + 1) {
            Some((e, q)) => match spec_order_list_from(b, q, seq![e]) {
                Some((list, q2)) => Some((Some(list), q2)),
                None => None,
            },
            None => None,
        }
    } else {
        Some((None, p))
    }
}

/// An optional `LIMIT` clause: the keyword, then a literal that reads as a `u64`.
pub open spec fn spec_limit(b: TokenBuffer, p: int) -> Option<(Option<u64>, int)> {
    if b.kind_at(p) == Some(SqlTokenKind::Limit) {
        if b.kind_at(p + 1) == Some(SqlTokenKind::Literal) {
            match spec_parse_u64(b.text_at(p + 1)) {
                Some(n) => Some((Some(n), p + 2)),
                None => None,
            }
        } else {
            None
        }
    } else {
        Some((None, p))
    }
}

pub open spec fn exprs_model(v: Seq<Expression>) -> Seq<ExprModel> {
    v.map_values(|e: Expression| e@)
}

pub open spec fn order_model(v: Seq<(Expression, Direction)>) -> Seq<(ExprModel, Direction)> {
    v.map_values(|x: (Expression, Direction)| (x.0@, x.1))
}

/// The stream is left where `expected` says, or the parse failed where it says it fails.
pub open spec fn lands<T, E, M>(r: Result<T, E>, expected: Option<(M, int)>, now: SqlTokenStream) -> bool {
    match expected {
        Some((_, q)) => r is Ok && now.pos == q,
        None => r is Err,
    }
}

/// The result of a parse whose outcome is optional, compared to its model.
pub open spec fn opt_string_value(r: Result<Option<String>, SqlParseError>, expected: Option<(Option<Seq<char>>, int)>) -> bool {
    match expected {
        Some((m, _)) => r is Ok && opt_text(r->Ok_0) == m,
        None => true,
    }
}

/// The message of the error raised where `what` was expected at `p`: it names the
/// token found there, quoted, or the end of input.
pub open spec fn expected_message(b: TokenBuffer, p: int, what: Seq<char>) -> Seq<char> {
    if 0 <= p < b.tokens.len() {
        "Expected "@ + what + ", got: "@ + (seq!['\''] + b.text_at(p) + seq!['\''])
    } else {
        "Expected "@ + what + ", got EOF"@
    }
}

fn token_error(input: &SqlTokenStream, expected: &str) -> (r: SqlParseError)
    requires
        input.wf(),
    ensures
        r.message@ == expected_message(input.buffer(), input.pos as int, expected@),
        r.message@.len() > "Expected "@.len() + expected@.len(),
{
    proof {
        reveal_strlit(", got: ");
        reveal_strlit(", got EOF");
    }
    match input.peek(0) {
        Some(t) => {
            assert(input.tokens@[input.pos as int].start <= input.tokens@[input.pos as int].end);
            let got = input.print(t);
            SqlParseError { message: String::from_str("Expected ").concat(expected).concat(", got: ").concat(got.as_str()) }
        },
        None => SqlParseError { message: String::from_str("Expected ").concat(expected).concat(", got EOF") },
    }
}

fn parse_optional_alias(input: &mut SqlTokenStream) -> (r: Result<Option<String>, SqlParseError>)
    requires
        old(input).wf(),
    ensures
        final(input).wf(),
        final(input).same_buffer(old(input)),
        lands(r, spec_alias(old(input).buffer(), old(input).pos as int), *final(input)),
        opt_string_value(r, spec_alias(old(input).buffer(), old(input).pos as int)),
        r is Ok ==> old(input).pos <= final(input).pos,
        r is Err ==> r->Err_0.message@ == unexpected_token_message(old(input).buffer(), old(input).pos + 1)
            && final(input).pos == old(input).pos + 1,
{
    let ghost p = input.pos as int;
    if next_token_is(input, SqlTokenKind::As) {
        let t = match expect_token(input, SqlTokenKind::Identifier) {
            Ok(t) => t,
            Err(err) => return Err(err),
        };
        assert(input.tokens@[p + 1].start <= input.tokens@[p + 1].end);
        Ok(Some(input.materialize(t)))
    } else if input.peek_kind(0) == Some(SqlTokenKind::Identifier) {
        let t = input.next_token().unwrap();
        assert(input.tokens@[p].start <= input.tokens@[p].end);
        Ok(Some(input.materialize(t)))
    } else {
        Ok(None)
    }
}

/// Parses a table reference: an identifier and an optional alias.
pub fn parse_table(input: &mut SqlTokenStream) -> (r: Result<Table, SqlParseError>)
    requires
        old(input).wf(),
    ensures
        final(input).wf(),
        final(input).same_buffer(old(input)),
        lands(r, spec_table(old(input).buffer(), old(input).pos as int), *final(input)),
        r is Ok ==> r->Ok_0@ == spec_table(old(input).buffer(), old(input).pos as int)->Some_0.0,
        old(input).kind_at(old(input).pos as int) != Some(SqlTokenKind::Identifier) ==> r is Err
            && r->Err_0.message@ == expected_message(old(input).buffer(), old(input).pos as int, "identifier"@)
            && final(input).pos == old(input).pos,
        old(input).kind_at(old(input).pos as int) == Some(SqlTokenKind::Identifier) && r is Err ==> r->Err_0.message@
            == unexpected_token_message(old(input).buffer(), old(input).pos + 2) && final(input).pos == old(input).pos + 2,
        r is Ok ==> old(input).pos < final(input).pos,
{
    let ghost p = input.pos as int;
    match input.peek_kind(0) {
        Some(SqlTokenKind::Identifier) => {
            let id_token = input.next_token().unwrap();
            assert(input.tokens@[p].start <= input.tokens@[p].end);
            let name = input.materialize(id_token);
            let alias = match parse_optional_alias(input) {
                Ok(a) => a,
                Err(err) => return Err(err),
            };
            Ok(Table { name, alias, table_no: None })
        },
        _ => Err(token_error(input, "identifier")),
    }
}

/// Reads the qualifiers and keyword that introduce a join. `Ok(None)`, with nothing
/// consumed, when the next tokens do not start a join.
pub fn parse_join_type(input: &mut SqlTokenStream) -> (r: Result<Option<JoinType>, SqlParseError>)
    requires
        old(input).wf(),
    ensures
        final(input).wf(),
        final(input).same_buffer(old(input)),
        lands(r, spec_join_type(old(input).buffer(), old(input).pos as int), *final(input)),
        r is Ok ==> r->Ok_0 == spec_join_type(old(input).buffer(), old(input).pos as int)->Some_0.0,
        r is Ok && r->Ok_0 is Some ==> old(input).pos < final(input).pos,
        r is Err ==> {
            let at = spec_qualifiers(old(input).buffer(), old(input).pos as int, empty_join_type()).1;
            r->Err_0.message@ == unexpected_token_message(old(input).buffer(), at) && final(input).pos == at
        },
{
    let ghost b = input.buffer();
    let ghost p = input.pos as int;
    let mut join_type = JoinType::new();

    if input.peek_kind(0) == Some(SqlTokenKind::Comma) {
        input.next_token();
        return Ok(Some(join_type.with(JoinVariant::Inner)));
    }
    let mut has_qualifiers = false;
    loop
        invariant
            input.wf(),
            input.buffer() == b,
            p <= input.pos,
            has_qualifiers == (p < input.pos),
            spec_qualifiers(b, input.pos as int, join_type) == spec_qualifiers(b, p, empty_join_type()),
        ensures
            !is_qualifier(b.kind_at(input.pos as int)),
        decreases input.tokens@.len() - input.pos,
    {
        match input.peek_kind(0) {
            Some(SqlTokenKind::Inner) => {
                input.next_token();
                join_type = join_type.with(JoinVariant::Inner);
                has_qualifiers = true;
            },
            Some(SqlTokenKind::Outer) => {
                input.next_token();
                join_type = join_type.with(JoinVariant::Outer);
                has_qualifiers = true;
            },
            Some(SqlTokenKind::Left) => {
                input.next_token();
                join_type = join_type.with(JoinVariant::Left);
                has_qualifiers = true;
            },
            _ => break,
        }
    }
    if has_qualifiers {
        match expect_token(input, SqlTokenKind::Join) {
            Ok(_) => Ok(Some(join_type)),
            Err(err) => Err(err),
        }
    } else if input.peek_kind(0) == Some(SqlTokenKind::Join) {
        input.next_token();
        Ok(Some(join_type))
    } else {
        Ok(None)
    }
}

/// Parses an optional `ON` predicate.
pub fn parse_on_clause(input: &mut SqlTokenStream) -> (r: Result<Option<Expression>, SqlParseError>)
    requires
        old(input).wf(),
    ensures
        final(input).wf(),
        final(input).same_buffer(old(input)),
        lands(r, spec_keyword_expr(old(input).buffer(), old(input).pos as int, SqlTokenKind::On), *final(input)),
        r is Ok ==> opt_expr(r->Ok_0) == spec_keyword_expr(old(input).buffer(), old(input).pos as int, SqlTokenKind::On)->Some_0.0,
        r is Ok ==> old(input).pos <= final(input).pos,
        old(input).kind_at(old(input).pos as int) != Some(SqlTokenKind::On) ==> r is Ok && r->Ok_0 is None
            && final(input).pos == old(input).pos,
        old(input).kind_at(old(input).pos as int) == Some(SqlTokenKind::On) && r is Ok ==> r->Ok_0 is Some
            && final(input).pos > old(input).pos,
        old(input).kind_at(old(input).pos as int) == Some(SqlTokenKind::On) && r is Err ==> ({
            let at = spec_expr_fail(old(input).buffer(), old(input).pos + 1, 0);
            r->Err_0.message@ == expr_message(old(input).buffer(), at) && final(input).pos == at
        }),
{
    if next_token_is(input, SqlTokenKind::On) {
        match parse_expr(input, 0) {
            Ok(e) => Ok(Some(e)),
            Err(err) => Err(err),
        }
    } else {
        Ok(None)
    }
}

/// Parses one join, or returns `Ok(None)`, with nothing consumed, when none starts here.
pub fn parse_join(input: &mut SqlTokenStream) -> (r: Result<Option<Join>, SqlParseError>)
    requires
        old(input).wf(),
    ensures
        final(input).wf(),
        final(input).same_buffer(old(input)),
        lands(r, spec_join(old(input).buffer(), old(input).pos as int), *final(input)),
        r is Ok ==> match r->Ok_0 {
            Some(j) => spec_join(old(input).buffer(), old(input).pos as int)->Some_0.0 == Some(j@),
            None => spec_join(old(input).buffer(), old(input).pos as int)->Some_0.0.is_none(),
        },
        r is Ok && r->Ok_0 is Some ==> old(input).pos < final(input).pos,
{
    if let Some(join_type) = parse_join_type(input)? {
        let table = parse_table(input)?;
        let on = parse_on_clause(input)?;
        return Ok(Some(Join { join_type, table, on }));
    }
    Ok(None)
}

/// Parses the joins that follow a table: `None` when there are none.
pub fn parse_joins(input: &mut SqlTokenStream) -> (r: Result<Option<Vec<Join>>, SqlParseError>)
    requires
        old(input).wf(),
    ensures
        final(input).wf(),
        final(input).same_buffer(old(input)),
        lands(r, spec_joins_from(old(input).buffer(), old(input).pos as int, seq![]), *final(input)),
        r is Ok ==> match r->Ok_0 {
            Some(v) => v@.len() > 0 && spec_joins_from(old(input).buffer(), old(input).pos as int, seq![])->Some_0.0
                == joins_model(v@),
            None => spec_joins_from(old(input).buffer(), old(input).pos as int, seq![])->Some_0.0.len() == 0,
        },
        r is Ok ==> old(input).pos <= final(input).pos,
{
    let ghost b = input.buffer();
    let ghost p = input.pos as int;
    let mut joins: Vec<Join> = Vec::new();
    assert(joins_model(joins@) =~= seq![]);
    loop
        invariant
            input.wf(),
            input.buffer() == b,
            b == old(input).buffer(),
            p == old(input).pos,
            p <= input.pos,
            spec_joins_from(b, input.pos as int, joins_model(joins@)) == spec_joins_from(b, p, seq![]),
        ensures
            spec_joins_from(b, p, seq![]) == Some((joins_model(joins@), input.pos as int)),
        decreases input.tokens@.len() - input.pos,
    {
        match parse_join(input)? {
            Some(join) => {
                proof {
                    assert(joins_model(joins@).push(join@) == joins_model(joins@.push(join)));
                }
                joins.push(join);
            },
            None => break,
        }
    }
    if joins.len() == 0 {
        Ok(None)
    } else {
        Ok(Some(joins))
    }
}

/// Parses an optional `FROM` clause: a table and the joins that follow it.
pub fn parse_from_clause(input: &mut SqlTokenStream) -> (r: Result<Option<FromClause>, SqlParseError>)
    requires
        old(input).wf(),
    ensures
        final(input).wf(),
        final(input).same_buffer(old(input)),
        lands(r, spec_from_clause(old(input).buffer(), old(input).pos as int), *final(input)),
        r is Ok ==> match r->Ok_0 {
            Some(f) => spec_from_clause(old(input).buffer(), old(input).pos as int)->Some_0.0 == Some(f@),
            None => spec_from_clause(old(input).buffer(), old(input).pos as int)->Some_0.0.is_none(),
        },
        old(input).kind_at(old(input).pos as int) != Some(SqlTokenKind::From) ==> r is Ok && r->Ok_0 is None
            && final(input).pos == old(input).pos,
        old(input).kind_at(old(input).pos as int) == Some(SqlTokenKind::From) && r is Ok ==> r->Ok_0 is Some
            && final(input).pos > old(input).pos,
        old(input).kind_at(old(input).pos as int) == Some(SqlTokenKind::From) && old(input).kind_at(
            old(input).pos + 1,
        ) != Some(SqlTokenKind::Identifier) ==> r is Err && r->Err_0.message@ == expected_message(
            old(input).buffer(),
            old(input).pos + 1,
            "identifier"@,
        ) && final(input).pos == old(input).pos + 1,
{
    if !next_token_is(input, SqlTokenKind::From) {
        return Ok(None);
    }
    let table = match parse_table(input) {
        Ok(t) => t,
        Err(err) => return Err(err),
    };
    let joins = parse_joins(input)?;
    Ok(Some(FromClause { table, joins }))
}

/// Parses an optional `WHERE` clause.
pub fn parse_where_clause(input: &mut SqlTokenStream) -> (r: Result<Option<Expression>, SqlParseError>)
    requires
        old(input).wf(),
    ensures
        final(input).wf(),
        final(input).same_buffer(old(input)),
        lands(r, spec_keyword_expr(old(input).buffer(), old(input).pos as int, SqlTokenKind::Where), *final(input)),
        r is Ok ==> opt_expr(r->Ok_0) == spec_keyword_expr(old(input).buffer(), old(input).pos as int, SqlTokenKind::Where)->Some_0.0,
        old(input).kind_at(old(input).pos as int) != Some(SqlTokenKind::Where) ==> r is Ok && r->Ok_0 is None
            && final(input).pos == old(input).pos,
        old(input).kind_at(old(input).pos as int) == Some(SqlTokenKind::Where) && r is Ok ==> r->Ok_0 is Some
            && final(input).pos > old(input).pos,
        old(input).kind_at(old(input).pos as int) == Some(SqlTokenKind::Where) && r is Err ==> ({
            let at = spec_expr_fail(old(input).buffer(), old(input).pos + 1, 0);
            r->Err_0.message@ == expr_message(old(input).buffer(), at) && final(input).pos == at
        }),
{
    if next_token_is(input, SqlTokenKind::Where) {
        match parse_expr(input, 0) {
            Ok(e) => Ok(Some(e)),
            Err(err) => Err(err),
        }
    } else {
        Ok(None)
    }
}

/// Parses an optional `GROUP BY` clause into its expressions, in source order.
pub fn parse_group_by_clause(input: &mut SqlTokenStream) -> (r: Result<Option<Vec<Expression>>, SqlParseError>)
    requires
        old(input).wf(),
    ensures
        final(input).wf(),
        final(input).same_buffer(old(input)),
        lands(r, spec_group_by(old(input).buffer(), old(input).pos as int), *final(input)),
        r is Ok ==> match r->Ok_0 {
            Some(v) => spec_group_by(old(input).buffer(), old(input).pos as int)->Some_0.0 == Some(exprs_model(v@)),
            None => spec_group_by(old(input).buffer(), old(input).pos as int)->Some_0.0.is_none(),
        },
        old(input).kind_at(old(input).pos as int) != Some(SqlTokenKind::GroupBy) ==> r is Ok && r->Ok_0 is None
            && final(input).pos == old(input).pos,
        old(input).kind_at(old(input).pos as int) == Some(SqlTokenKind::GroupBy) && r is Ok ==> r->Ok_0 is Some
            && final(input).pos > old(input).pos,
{
    let ghost b = input.buffer();
    let ghost p = input.pos as int;
    if next_token_is(input, SqlTokenKind::GroupBy) {
        let first = parse_expr(input, 0)?;
        let ghost head = first@;
        let mut expressions: Vec<Expression> = Vec::new();
        expressions.push(first);
        let ghost q = input.pos as int;
        assert(exprs_model(expressions@) =~= seq![head]);
        loop
            invariant
                input.wf(),
                input.buffer() == b,
                spec_expr_list_from(b, input.pos as int, exprs_model(expressions@)) == spec_expr_list_from(
                    b,
                    q,
                    seq![head],
                ),
                b == old(input).buffer(),
                p == old(input).pos,
                p < input.pos,
                b.kind_at(p) == Some(SqlTokenKind::GroupBy),
                spec_expr(b, p + 1, 0) == Some((head, q)),
            ensures
                spec_expr_list_from(b, q, seq![head]) == Some((exprs_model(expressions@), input.pos as int)),
            decreases input.tokens@.len() - input.pos,
        {
            if input.peek_kind(0) == Some(SqlTokenKind::Comma) {
                input.next_token();
                let e = parse_expr(input, 0)?;
                proof {
                    assert(exprs_model(expressions@).push(e@) =~= exprs_model(expressions@.push(e)));
                }
                expressions.push(e);
            } else {
                break;
            }
        }
        Ok(Some(expressions))
    } else {
        Ok(None)
    }
}

/// Parses one `ORDER BY` key; the direction is `Ascending` unless `DESC` follows.
pub fn parse_order_by_expr(input: &mut SqlTokenStream) -> (r: Result<(Expression, Direction), SqlParseError>)
    requires
        old(input).wf(),
    ensures
        final(input).wf(),
        final(input).same_buffer(old(input)),
        lands(r, spec_order_item(old(input).buffer(), old(input).pos as int), *final(input)),
        r is Ok ==> spec_order_item(old(input).buffer(), old(input).pos as int)->Some_0.0 == (r->Ok_0.0@, r->Ok_0.1),
        r is Ok ==> old(input).pos < final(input).pos,
{
    let expr = parse_expr(input, 0)?;
    if next_token_is(input, SqlTokenKind::Asc) {
        Ok((expr, Direction::Ascending))
    } else if next_token_is(input, SqlTokenKind::Desc) {
        Ok((expr, Direction::Descending))
    } else {
        Ok((expr, Direction::Ascending))
    }
}

/// Parses an optional `ORDER BY` clause into its keys, in source order.
pub fn parse_order_by_clause(input: &mut SqlTokenStream) -> (r: Result<Option<Vec<(Expression, Direction)>>, SqlParseError>)
    requires
        old(input).wf(),
    ensures
        final(input).wf(),
        final(input).same_buffer(old(input)),
        lands(r, spec_order_by(old(input).buffer(), old(input).pos as int), *final(input)),
        r is Ok ==> match r->Ok_0 {
            Some(v) => spec_order_by(old(input).buffer(), old(input).pos as int)->Some_0.0 == Some(order_model(v@)),
            None => spec_order_by(old(input).buffer(), old(input).pos as int)->Some_0.0.is_none(),
        },
        old(input).kind_at(old(input).pos as int) != Some(SqlTokenKind::OrderBy) ==> r is Ok && r->Ok_0 is None
            && final(input).pos == old(input).pos,
        old(input).kind_at(old(input).pos as int) == Some(SqlTokenKind::OrderBy) && r is Ok ==> r->Ok_0 is Some
            && final(input).pos > old(input).pos,
{
    let ghost b = input.buffer();
    let ghost p = input.pos as int;
    if next_token_is(input, SqlTokenKind::OrderBy) {
        let first = parse_order_by_expr(input)?;
        let mut expressions: Vec<(Expression, Direction)> = Vec::new();
        expressions.push(first);
        let ghost q = input.pos as int;
        let ghost head = (expressions@[0].0@, expressions@[0].1);
        assert(order_model(expressions@) =~= seq![head]);
        loop
            invariant
                input.wf(),
                input.buffer() == b,
                spec_order_list_from(b, input.pos as int, order_model(expressions@)) == spec_order_list_from(
                    b,
                    q,
                    seq![head],
                ),
                b == old(input).buffer(),
                p == old(input).pos,
                p < input.pos,
                b.kind_at(p) == Some(SqlTokenKind::OrderBy),
                spec_order_item(b, p + 1) == Some((head, q)),
            ensures
                spec_order_list_from(b, q, seq![head]) == Some((order_model(expressions@), input.pos as int)),
            decreases input.tokens@.len() - input.pos,
        {
            if input.peek_kind(0) == Some(SqlTokenKind::Comma) {
                input.next_token();
                let e = parse_order_by_expr(input)?;
                proof {
                    assert(order_model(expressions@).push((e.0@, e.1)) =~= order_model(expressions@.push(e)));
                }
                expressions.push(e);
            } else {
                break;
            }
        }
        Ok(Some(expressions))
    } else {
        Ok(None)
    }
}

/// Where none of `WHERE`, `GROUP BY`, `ORDER BY` and `LIMIT` stands at `p`, each of
/// the four clauses is absent there and its parser consumes nothing.
pub proof fn lemma_absent_clauses(b: TokenBuffer, p: int)
    requires
        b.kind_at(p) != Some(SqlTokenKind::Where),
        b.kind_at(p) != Some(SqlTokenKind::GroupBy),
        b.kind_at(p) != Some(SqlTokenKind::OrderBy),
        b.kind_at(p) != Some(SqlTokenKind::Limit),
    ensures
        spec_keyword_expr(b, p, SqlTokenKind::Where) == Some((None::<ExprModel>, p)),
        spec_group_by(b, p) == Some((None::<Seq<ExprModel>>, p)),
        spec_order_by(b, p) == Some((None::<Seq<(ExprModel, Direction)>>, p)),
        spec_limit(b, p) == Some((None::<u64>, p)),
{
}

/// The message of the error for a `LIMIT` literal that is not an unsigned integer.
pub open spec fn bad_limit_message() -> Seq<char> {
    "Expected integer literal after LIMIT"@
}

/// Parses an optional `LIMIT` clause. A token other than a literal after `LIMIT`, and
/// a literal that is not a `u64`, fail with different messages.
pub fn parse_limit_clause(input: &mut SqlTokenStream) -> (r: Result<Option<u64>, SqlParseError>)
    requires
        old(input).wf(),
    ensures
        final(input).wf(),
        final(input).same_buffer(old(input)),
        lands(r, spec_limit(old(input).buffer(), old(input).pos as int), *final(input)),
        r is Ok ==> r->Ok_0 == spec_limit(old(input).buffer(), old(input).pos as int)->Some_0.0,
        r is Err && old(input).kind_at(old(input).pos + 1) == Some(SqlTokenKind::Literal) ==> r->Err_0.message@
            == bad_limit_message(),
        r is Err && old(input).kind_at(old(input).pos + 1) != Some(SqlTokenKind::Literal) ==> r->Err_0.message@
            != bad_limit_message(),
        old(input).kind_at(old(input).pos as int) == Some(SqlTokenKind::Limit) && old(input).kind_at(
            old(input).pos + 1,
        ) != Some(SqlTokenKind::Literal) ==> r is Err && r->Err_0.message@ == expected_message(
            old(input).buffer(),
            old(input).pos + 1,
            "integer literal after LIMIT"@,
        ),
        old(input).kind_at(old(input).pos as int) != Some(SqlTokenKind::Limit) ==> r is Ok && r->Ok_0 is None
            && final(input).pos == old(input).pos,
        old(input).kind_at(old(input).pos as int) == Some(SqlTokenKind::Limit) && r is Ok ==> r->Ok_0 is Some
            && final(input).pos > old(input).pos,
{
    let ghost p = input.pos as int;
    if next_token_is(input, SqlTokenKind::Limit) {
        if input.peek_kind(0) == Some(SqlTokenKind::Literal) {
            let limit_token = input.next_token().unwrap();
            assert(input.tokens@[p + 1].start <= input.tokens@[p + 1].end);
            let text = input.materialize(limit_token);
            match parse_u64(text.as_str()) {
                Some(n) => Ok(Some(n)),
                None => Err(SqlParseError::new("Expected integer literal after LIMIT")),
            }
        } else {
            let e = token_error(input, "integer literal after LIMIT");
            proof {
                reveal_strlit("Expected integer literal after LIMIT");
                reveal_strlit("Expected ");
                reveal_strlit("integer literal after LIMIT");
            }
            assert(e.message@.len() != bad_limit_message().len());
            Err(e)
        }
    } else {
        Ok(None)
    }
}

} // verus!
