use vstd::prelude::*;
use vstd::string::*;

use crate::ast::{BinaryOperator, Direction, Expression, FromClause, Join, JoinType, Table, joins_model};
use crate::clause::order_model;
use crate::printer::{
    operator_token, print_expr, print_from, print_join, print_join_type, print_joins, print_order_by,
    print_order_item, print_order_tail, print_qualifier, print_table, Printed,
};
use crate::token::SqlTokenKind;

verus! {

/// The value of printed tokens held as `(kind, text)` pairs.
pub open spec fn printed_model(v: Seq<(SqlTokenKind, String)>) -> Seq<Printed> {
    v.map_values(|x: (SqlTokenKind, String)| (x.0, x.1@))
}

/// The texts of `toks`, separated by single spaces.
pub open spec fn render(toks: Seq<Printed>) -> Seq<char>
    decreases toks.len(),
{
    if toks.len() == 0 {
        Seq::empty()
    } else if toks.len() == 1 {
        toks[0].1
    } else {
        render(toks.drop_last()) + seq![' '] + toks.last().1
    }
}

fn push_token(out: &mut Vec<(SqlTokenKind, String)>, kind: SqlTokenKind, text: String)
    ensures
        printed_model(final(out)@) == printed_model(old(out)@).push((kind, text@)),
{
    out.push((kind, text));
    assert(printed_model(out@) =~= printed_model(old(out)@).push((kind, text@)));
}

fn keyword_text(text: &str) -> (r: String)
    ensures
        r@ == text@,
{
    String::from_str(text)
}

fn operator_text(op: BinaryOperator) -> (r: (SqlTokenKind, String))
    ensures
        (r.0, r.1@) == operator_token(op),
{
    proof {
        reveal_strlit("OR");
        reveal_strlit("AND");
        reveal_strlit("=");
        reveal_strlit("<>");
        reveal_strlit("<");
        reveal_strlit(">");
        reveal_strlit("+");
        reveal_strlit("-");
        reveal_strlit("*");
        reveal_strlit("/");
    }
    let r = match op {
        BinaryOperator::Or => (SqlTokenKind::Or, keyword_text("OR")),
        BinaryOperator::And => (SqlTokenKind::And, keyword_text("AND")),
        BinaryOperator::Equals => (SqlTokenKind::Equals, keyword_text("=")),
        BinaryOperator::NotEquals => (SqlTokenKind::NotEquals, keyword_text("<>")),
        BinaryOperator::Less => (SqlTokenKind::Less, keyword_text("<")),
        BinaryOperator::Greater => (SqlTokenKind::Greater, keyword_text(">")),
        BinaryOperator::Add => (SqlTokenKind::Plus, keyword_text("+")),
        BinaryOperator::Subtract => (SqlTokenKind::Minus, keyword_text("-")),
        BinaryOperator::Multiply => (SqlTokenKind::Star, keyword_text("*")),
        BinaryOperator::Divide => (SqlTokenKind::Slash, keyword_text("/")),
    };
    assert(r.1@ =~= operator_token(op).1);
    r
}

/// Appends the canonical tokens of `e`.
pub fn push_expr_tokens(e: &Expression, out: &mut Vec<(SqlTokenKind, String)>)
    ensures
        printed_model(final(out)@) == printed_model(old(out)@) + print_expr(e@),
    decreases e,
{
    proof {
        reveal_strlit(".");
        reveal_strlit("(");
        reveal_strlit(")");
    }
    let ghost start = printed_model(out@);
    match e {
        Expression::Column { table, name } => {
            match table {
                Some(t) => {
                    push_token(out, SqlTokenKind::Identifier, t.clone());
                    push_token(out, SqlTokenKind::Dot, keyword_text("."));
                    assert("."@ =~= seq!['.']);
                },
                None => {},
            }
            push_token(out, SqlTokenKind::Identifier, name.clone());
        },
        Expression::Literal(text) => {
            push_token(out, SqlTokenKind::Literal, text.clone());
        },
        Expression::Binary { left, op, right } => {
            push_token(out, SqlTokenKind::LParen, keyword_text("("));
            assert("("@ =~= seq!['(']);
            push_expr_tokens(left, out);
            let (k, t) = operator_text(*op);
            push_token(out, k, t);
            push_expr_tokens(right, out);
            push_token(out, SqlTokenKind::RParen, keyword_text(")"));
            assert(")"@ =~= seq![')']);
        },
    }
    assert(printed_model(out@) =~= start + print_expr(e@));
}

fn push_table_tokens(t: &Table, out: &mut Vec<(SqlTokenKind, String)>)
    ensures
        printed_model(final(out)@) == printed_model(old(out)@) + print_table(t@),
{
    let ghost start = printed_model(out@);
    push_token(out, SqlTokenKind::Identifier, t.name.clone());
    match &t.alias {
        Some(a) => {
            proof {
                reveal_strlit("AS");
            }
            push_token(out, SqlTokenKind::As, keyword_text("AS"));
            assert("AS"@ =~= seq!['A', 'S']);
            push_token(out, SqlTokenKind::Identifier, a.clone());
        },
        None => {},
    }
    assert(printed_model(out@) =~= start + print_table(t@));
}

fn push_join_type_tokens(t: JoinType, out: &mut Vec<(SqlTokenKind, String)>)
    ensures
        printed_model(final(out)@) == printed_model(old(out)@) + print_join_type(t),
{
    proof {
        reveal_strlit("INNER");
        reveal_strlit("OUTER");
        reveal_strlit("LEFT");
        reveal_strlit("JOIN");
    }
    let ghost start = printed_model(out@);
    if t.inner {
        push_token(out, SqlTokenKind::Inner, keyword_text("INNER"));
        assert("INNER"@ =~= seq!['I', 'N', 'N', 'E', 'R']);
    }
    let ghost a = printed_model(out@);
    if t.outer {
        push_token(out, SqlTokenKind::Outer, keyword_text("OUTER"));
        assert("OUTER"@ =~= seq!['O', 'U', 'T', 'E', 'R']);
    }
    let ghost c = printed_model(out@);
    if t.left {
        push_token(out, SqlTokenKind::Left, keyword_text("LEFT"));
        assert("LEFT"@ =~= seq!['L', 'E', 'F', 'T']);
    }
    push_token(out, SqlTokenKind::Join, keyword_text("JOIN"));
    assert("JOIN"@ =~= seq!['J', 'O', 'I', 'N']);
    assert(a =~= start + print_qualifier(t.inner, (SqlTokenKind::Inner, seq!['I', 'N', 'N', 'E', 'R'])));
    assert(c =~= a + print_qualifier(t.outer, (SqlTokenKind::Outer, seq!['O', 'U', 'T', 'E', 'R'])));
    assert(printed_model(out@) =~= start + print_join_type(t));
}

fn push_join_tokens(j: &Join, out: &mut Vec<(SqlTokenKind, String)>)
    ensures
        printed_model(final(out)@) == printed_model(old(out)@) + print_join(j@),
{
    let ghost start = printed_model(out@);
    push_join_type_tokens(j.join_type, out);
    push_table_tokens(&j.table, out);
    let ghost mid = printed_model(out@);
    match &j.on {
        Some(e) => {
            proof {
                reveal_strlit("ON");
            }
            push_token(out, SqlTokenKind::On, keyword_text("ON"));
            assert("ON"@ =~= seq!['O', 'N']);
            push_expr_tokens(e, out);
        },
        None => {},
    }
    assert(printed_model(out@) =~= start + print_join(j@));
}

/// The canonical tokens of a `FROM` clause: qualifiers in the order `INNER`, `OUTER`,
/// `LEFT`, aliases after `AS`, every binary operation in parentheses.
pub fn from_clause_tokens(f: &FromClause) -> (r: Vec<(SqlTokenKind, String)>)
    ensures
        printed_model(r@) == print_from(f@),
{
    proof {
        reveal_strlit("FROM");
    }
    let mut out: Vec<(SqlTokenKind, String)> = Vec::new();
    push_token(&mut out, SqlTokenKind::From, keyword_text("FROM"));
    assert("FROM"@ =~= seq!['F', 'R', 'O', 'M']);
    push_table_tokens(&f.table, &mut out);
    let ghost head = printed_model(out@);
    match &f.joins {
        Some(js) => {
            let ghost m = joins_model(js@);
            let mut i: usize = 0;
            assert(m.subrange(0, m.len() as int) =~= m);
            assert(head + print_joins(m.subrange(0, m.len() as int)) =~= head + print_joins(m));
            while i < js.len()
                invariant
                    i <= js@.len(),
                    m == joins_model(js@),
                    printed_model(out@) + print_joins(m.subrange(i as int, m.len() as int)) == head + print_joins(m),
                decreases js@.len() - i,
            {
                let ghost before = printed_model(out@);
                let ghost rest = m.subrange(i as int, m.len() as int);
                assert(rest.drop_first() =~= m.subrange(i + 1, m.len() as int));
                assert(print_joins(rest) == print_join(m[i as int]) + print_joins(rest.drop_first()));
                push_join_tokens(&js[i], &mut out);
                assert(printed_model(out@) + print_joins(m.subrange(i + 1, m.len() as int)) =~= before
                    + print_joins(rest));
                i = i + 1;
            }
            assert(m.subrange(i as int, m.len() as int) =~= Seq::<crate::ast::JoinModel>::empty());
            assert(printed_model(out@) =~= printed_model(out@) + print_joins(Seq::<crate::ast::JoinModel>::empty()));
        },
        None => {
            assert(printed_model(out@) =~= head + Seq::<Printed>::empty());
        },
    }
    out
}

fn push_order_item_tokens(item: &(Expression, Direction), out: &mut Vec<(SqlTokenKind, String)>)
    ensures
        printed_model(final(out)@) == printed_model(old(out)@) + print_order_item((item.0@, item.1)),
{
    let ghost start = printed_model(out@);
    push_expr_tokens(&item.0, out);
    match item.1 {
        Direction::Descending => {
            proof {
                reveal_strlit("DESC");
            }
            push_token(out, SqlTokenKind::Desc, keyword_text("DESC"));
            assert("DESC"@ =~= seq!['D', 'E', 'S', 'C']);
        },
        Direction::Ascending => {},
    }
    assert(printed_model(out@) =~= start + print_order_item((item.0@, item.1)));
}

/// The canonical tokens of a non-empty `ORDER BY` list: `DESC` written out, ascending
/// keys left bare, every binary operation in parentheses.
pub fn order_by_tokens(items: &Vec<(Expression, Direction)>) -> (r: Vec<(SqlTokenKind, String)>)
    requires
        items@.len() > 0,
    ensures
        printed_model(r@) == print_order_by(order_model(items@)),
{
    proof {
        reveal_strlit("ORDER BY");
        reveal_strlit(",");
    }
    let ghost m = order_model(items@);
    let mut out: Vec<(SqlTokenKind, String)> = Vec::new();
    push_token(&mut out, SqlTokenKind::OrderBy, keyword_text("ORDER BY"));
    assert("ORDER BY"@ =~= seq!['O', 'R', 'D', 'E', 'R', ' ', 'B', 'Y']);
    push_order_item_tokens(&items[0], &mut out);
    let ghost head = printed_model(out@);
    let ghost tail = m.drop_first();
    assert(m.subrange(1, m.len() as int) =~= tail);
    assert(head + print_order_tail(m.subrange(1, m.len() as int)) == head + print_order_tail(tail));
    let mut i: usize = 1;
    while i < items.len()
        invariant
            1 <= i <= items@.len(),
            m == order_model(items@),
            tail == m.drop_first(),
            printed_model(out@) + print_order_tail(m.subrange(i as int, m.len() as int)) == head + print_order_tail(tail),
        decreases items@.len() - i,
    {
        let ghost before = printed_model(out@);
        let ghost rest = m.subrange(i as int, m.len() as int);
        assert(rest.drop_first() =~= m.subrange(i + 1, m.len() as int));
        proof {
            reveal_strlit(",");
        }
        push_token(&mut out, SqlTokenKind::Comma, keyword_text(","));
        assert(","@ =~= seq![',']);
        push_order_item_tokens(&items[i], &mut out);
        assert(printed_model(out@) + print_order_tail(m.subrange(i + 1, m.len() as int)) =~= before
            + print_order_tail(rest));
        i = i + 1;
    }
    assert(m.subrange(i as int, m.len() as int) =~= Seq::<(crate::ast::ExprModel, Direction)>::empty());
    assert(printed_model(out@) =~= printed_model(out@) + print_order_tail(Seq::<(crate::ast::ExprModel, Direction)>::empty()));
    assert(print_order_by(m) =~= seq![(SqlTokenKind::OrderBy, seq!['O', 'R', 'D', 'E', 'R', ' ', 'B', 'Y'])] + print_order_item(m[0]) + print_order_tail(tail));
    out
}

/// The texts of `tokens`, separated by single spaces.
pub fn render_tokens(tokens: &Vec<(SqlTokenKind, String)>) -> (r: String)
    ensures
        r@ == render(printed_model(tokens@)),
{
    proof {
        reveal_strlit(" ");
    }
    let ghost m = printed_model(tokens@);
    let mut out = String::new();
    let mut i: usize = 0;
    assert(m.subrange(0, 0) =~= Seq::<Printed>::empty());
    while i < tokens.len()
        invariant
            i <= tokens@.len(),
            m == printed_model(tokens@),
            out@ == render(m.subrange(0, i as int)),
        decreases tokens@.len() - i,
    {
        let ghost prefix = m.subrange(0, i + 1);
        assert(prefix.drop_last() =~= m.subrange(0, i as int));
        proof {
            reveal_strlit(" ");
        }
        assert(" "@ =~= seq![' ']);
        assert(prefix.last().1 == tokens@[i as int].1@);
        if i > 0 {
            out.append(" ");
        }
        out.append(tokens[i].1.as_str());
        assert(out@ =~= render(prefix));
        i = i + 1;
    }
    assert(m.subrange(0, i as int) =~= m);
    out
}

} // verus!
