use vstd::prelude::*;

use crate::ast::{BinaryOperator, Direction, ExprModel, FromModel, JoinModel, JoinType, TableModel};
use crate::clause::{
    empty_join_type, is_qualifier, spec_from_clause, spec_join,
    spec_join_type, spec_joins_from, spec_keyword_expr, spec_order_by, spec_order_item,
    spec_order_list_from, spec_qualifiers, spec_table,
};
use crate::expression::{spec_binary_op, spec_expr, spec_expr_tail, spec_primary};
use crate::token::{SqlTokenKind, TokenBuffer};

verus! {

/// A token as canonical clause syntax writes it: its kind and its text.
pub type Printed = (SqlTokenKind, Seq<char>);

/// The tokens from `p` on spell `toks`.
pub open spec fn reads(b: TokenBuffer, p: int, toks: Seq<Printed>) -> bool {
    forall|i: int|
        0 <= i < toks.len() ==> b.kind_at(p + i) == Some(#[trigger] toks[i].0) && b.text_at(p + i) == toks[i].1
}

pub open spec fn operator_token(op: BinaryOperator) -> Printed {
    match op {
        BinaryOperator::Or => (SqlTokenKind::Or, seq!['O', 'R']),
        BinaryOperator::And => (SqlTokenKind::And, seq!['A', 'N', 'D']),
        BinaryOperator::Equals => (SqlTokenKind::Equals, seq!['=']),
        BinaryOperator::NotEquals => (SqlTokenKind::NotEquals, seq!['<', '>']),
        BinaryOperator::Less => (SqlTokenKind::Less, seq!['<']),
        BinaryOperator::Greater => (SqlTokenKind::Greater, seq!['>']),
        BinaryOperator::Add => (SqlTokenKind::Plus, seq!['+']),
        BinaryOperator::Subtract => (SqlTokenKind::Minus, seq!['-']),
        BinaryOperator::Multiply => (SqlTokenKind::Star, seq!['*']),
        BinaryOperator::Divide => (SqlTokenKind::Slash, seq!['/']),
    }
}

/// Canonical syntax of an expression: every binary operation in parentheses.
pub open spec fn print_expr(e: ExprModel) -> Seq<Printed>
    decreases e,
{
    match e {
        ExprModel::Column { table: None, name } => seq![(SqlTokenKind::Identifier, name)],
        ExprModel::Column { table: Some(t), name } => seq![
            (SqlTokenKind::Identifier, t),
            (SqlTokenKind::Dot, seq!['.']),
            (SqlTokenKind::Identifier, name),
        ],
        ExprModel::Literal(text) => seq![(SqlTokenKind::Literal, text)],
        ExprModel::Binary { left, op, right } => seq![(SqlTokenKind::LParen, seq!['('])] + print_expr(*left)
            + seq![operator_token(op)] + print_expr(*right) + seq![(SqlTokenKind::RParen, seq![')'])],
    }
}

/// A token that an expression cannot continue with.
pub open spec fn stops_expr(k: Option<SqlTokenKind>) -> bool {
    match k {
        Some(k) => k != SqlTokenKind::Dot && spec_binary_op(k).is_none(),
        None => true,
    }
}

pub proof fn lemma_reads_part(b: TokenBuffer, p: int, whole: Seq<Printed>, off: int, part: Seq<Printed>)
    requires
        reads(b, p, whole),
        0 <= off,
        off + part.len() <= whole.len(),
        whole.subrange(off, off + part.len()) == part,
    ensures
        reads(b, p + off, part),
{
    assert forall|i: int| 0 <= i < part.len() implies b.kind_at(p + off + i) == Some(#[trigger] part[i].0)
        && b.text_at(p + off + i) == part[i].1 by {
        assert(part[i] == whole[off + i]);
    }
}

proof fn lemma_print_expr_nonempty(e: ExprModel)
    ensures
        print_expr(e).len() >= 1,
    decreases e,
{
}

/// A printed operand reads back as itself.
proof fn lemma_primary_round_trip(b: TokenBuffer, p: int, e: ExprModel)
    requires
        0 <= p,
        reads(b, p, print_expr(e)),
        b.kind_at(p + print_expr(e).len()) != Some(SqlTokenKind::Dot),
    ensures
        spec_primary(b, p) == Some((e, p + print_expr(e).len())),
    decreases e,
{
    let toks = print_expr(e);
    assert(b.kind_at(p) == Some(toks[0].0));
    match e {
        ExprModel::Column { table: None, name } => {
            assert(b.kind_at(p) == Some(toks[0].0));
        },
        ExprModel::Column { table: Some(t), name } => {
            assert(b.kind_at(p + 1) == Some(toks[1].0));
            assert(b.kind_at(p + 2) == Some(toks[2].0));
        },
        ExprModel::Literal(text) => {},
        ExprModel::Binary { left, op, right } => {
            let l = *left;
            let r = *right;
            let pl = print_expr(l);
            let pr = print_expr(r);
            let nl = pl.len() as int;
            let nr = pr.len() as int;
            lemma_print_expr_nonempty(l);
            lemma_print_expr_nonempty(r);
            let q = p + 1 + nl;
            let q2 = q + 1 + nr;
            assert(toks.subrange(1, 1 + nl) =~= pl);
            assert(toks.subrange(2 + nl, 2 + nl + nr) =~= pr);
            lemma_reads_part(b, p, toks, 1, pl);
            lemma_reads_part(b, p, toks, 2 + nl, pr);
            assert(toks[1 + nl] == operator_token(op));
            assert(b.kind_at(q) == Some(toks[1 + nl].0));
            assert(toks[2 + nl + nr] == (SqlTokenKind::RParen, seq![')']));
            assert(b.kind_at(q2) == Some(toks[2 + nl + nr].0));
            lemma_primary_round_trip(b, p + 1, l);
            lemma_primary_round_trip(b, q + 1, r);
            let (opk, bp) = spec_binary_op(operator_token(op).0)->Some_0;
            assert(spec_expr_tail(b, r, q2, bp + 1) == Some((r, q2)));
            assert(spec_expr(b, q + 1, bp + 1) == Some((r, q2)));
            let whole = ExprModel::Binary { left: Box::new(l), op, right: Box::new(r) };
            assert(whole == e);
            assert(spec_expr_tail(b, whole, q2, 0) == Some((whole, q2)));
            assert(spec_expr_tail(b, l, q, 0) == Some((whole, q2)));
            assert(spec_expr(b, p + 1, 0) == Some((whole, q2)));
        },
    }
}

/// A printed expression reads back as itself, whatever the binding power it is read at.
pub proof fn lemma_expr_round_trip(b: TokenBuffer, p: int, e: ExprModel, min_bp: int)
    requires
        0 <= p,
        reads(b, p, print_expr(e)),
        stops_expr(b.kind_at(p + print_expr(e).len())),
    ensures
        spec_expr(b, p, min_bp) == Some((e, p + print_expr(e).len())),
{
    lemma_print_expr_nonempty(e);
    let n = print_expr(e).len() as int;
    assert(b.kind_at(p + n - 1) == Some(print_expr(e)[n - 1].0));
    lemma_primary_round_trip(b, p, e);
    assert(spec_expr_tail(b, e, p + n, min_bp) == Some((e, p + n)));
}

pub proof fn lemma_reads_concat(b: TokenBuffer, p: int, x: Seq<Printed>, y: Seq<Printed>)
    requires
        reads(b, p, x + y),
    ensures
        reads(b, p, x),
        reads(b, p + x.len(), y),
{
    assert((x + y).subrange(0, x.len() as int) =~= x);
    assert((x + y).subrange(x.len() as int, (x.len() + y.len()) as int) =~= y);
    lemma_reads_part(b, p, x + y, 0, x);
    lemma_reads_part(b, p, x + y, x.len() as int, y);
}

/// Canonical syntax of a table reference, with `AS` before an alias.
pub open spec fn print_table(t: TableModel) -> Seq<Printed> {
    seq![(SqlTokenKind::Identifier, t.name)] + match t.alias {
        Some(a) => seq![(SqlTokenKind::As, seq!['A', 'S']), (SqlTokenKind::Identifier, a)],
        None => Seq::<Printed>::empty(),
    }
}

pub open spec fn print_qualifier(present: bool, tok: Printed) -> Seq<Printed> {
    if present {
        seq![tok]
    } else {
        Seq::<Printed>::empty()
    }
}

/// Canonical syntax of a join's qualifiers: `INNER`, `OUTER`, `LEFT` as present, then `JOIN`.
pub open spec fn print_join_type(t: JoinType) -> Seq<Printed> {
    print_qualifier(t.inner, (SqlTokenKind::Inner, seq!['I', 'N', 'N', 'E', 'R'])) + print_qualifier(
        t.outer,
        (SqlTokenKind::Outer, seq!['O', 'U', 'T', 'E', 'R']),
    ) + print_qualifier(t.left, (SqlTokenKind::Left, seq!['L', 'E', 'F', 'T'])) + seq![
        (SqlTokenKind::Join, seq!['J', 'O', 'I', 'N']),
    ]
}

pub open spec fn print_join(j: JoinModel) -> Seq<Printed> {
    print_join_type(j.join_type) + print_table(j.table) + match j.on {
        Some(e) => seq![(SqlTokenKind::On, seq!['O', 'N'])] + print_expr(e),
        None => Seq::<Printed>::empty(),
    }
}

pub open spec fn print_joins(js: Seq<JoinModel>) -> Seq<Printed>
    decreases js.len(),
{
    if js.len() == 0 {
        Seq::<Printed>::empty()
    } else {
        print_join(js[0]) + print_joins(js.drop_first())
    }
}

/// Canonical syntax of a `FROM` clause.
pub open spec fn print_from(f: FromModel) -> Seq<Printed> {
    seq![(SqlTokenKind::From, seq!['F', 'R', 'O', 'M'])] + print_table(f.table) + match f.joins {
        Some(js) => print_joins(js),
        None => Seq::<Printed>::empty(),
    }
}

/// A `FROM` clause as the parser builds it: no table number, and a join list that is
/// absent rather than empty.
pub open spec fn from_wf(f: FromModel) -> bool {
    &&& f.table.table_no.is_none()
    &&& match f.joins {
        Some(js) => js.len() > 0 && forall|i: int| 0 <= i < js.len() ==> (#[trigger] js[i]).table.table_no.is_none(),
        None => true,
    }
}

/// A token that may follow a clause: the end, or a token that no clause continues with.
pub open spec fn ends_clause(k: Option<SqlTokenKind>) -> bool {
    match k {
        Some(k) => k == SqlTokenKind::Where || k == SqlTokenKind::GroupBy || k == SqlTokenKind::OrderBy || k
            == SqlTokenKind::Limit || k == SqlTokenKind::Semicolon || k == SqlTokenKind::RParen,
        None => true,
    }
}

/// A token that may follow a join: the start of another join, or the end of the clause.
pub open spec fn follows_join(k: Option<SqlTokenKind>) -> bool {
    is_qualifier(k) || k == Some(SqlTokenKind::Join) || ends_clause(k)
}

proof fn lemma_table_round_trip(b: TokenBuffer, p: int, t: TableModel)
    requires
        0 <= p,
        t.table_no.is_none(),
        reads(b, p, print_table(t)),
        follows_join(b.kind_at(p + print_table(t).len())) || b.kind_at(p + print_table(t).len()) == Some(
            SqlTokenKind::On,
        ),
    ensures
        spec_table(b, p) == Some((t, p + print_table(t).len())),
{
    let toks = print_table(t);
    assert(b.kind_at(p) == Some(toks[0].0));
    match t.alias {
        Some(a) => {
            assert(b.kind_at(p + 1) == Some(toks[1].0));
            assert(b.kind_at(p + 2) == Some(toks[2].0));
            assert(b.text_at(p + 2) == toks[2].1);
        },
        None => {},
    }
    assert(b.text_at(p) == toks[0].1);
}

proof fn lemma_join_type_round_trip(b: TokenBuffer, p: int, t: JoinType)
    requires
        0 <= p,
        reads(b, p, print_join_type(t)),
    ensures
        spec_join_type(b, p) == Some((Some(t), p + print_join_type(t).len())),
{
    let toks = print_join_type(t);
    let n = toks.len() as int;
    assert(forall|i: int| 0 <= i < n ==> b.kind_at(p + i) == Some(#[trigger] toks[i].0));
    let a = if t.inner { 1int } else { 0int };
    let c = a + if t.outer { 1int } else { 0int };
    let d = c + if t.left { 1int } else { 0int };
    assert(n == d + 1);
    assert(toks[d].0 == SqlTokenKind::Join);
    assert(b.kind_at(p + d) == Some(SqlTokenKind::Join));
    let t0 = empty_join_type();
    let t1 = if t.inner { t0.added(crate::ast::JoinVariant::Inner) } else { t0 };
    let t2 = if t.outer { t1.added(crate::ast::JoinVariant::Outer) } else { t1 };
    let t3 = if t.left { t2.added(crate::ast::JoinVariant::Left) } else { t2 };
    assert(t3 == t);
    if t.inner {
        assert(toks[0].0 == SqlTokenKind::Inner);
        assert(b.kind_at(p) == Some(SqlTokenKind::Inner));
    }
    if t.outer {
        assert(toks[a].0 == SqlTokenKind::Outer);
        assert(b.kind_at(p + a) == Some(SqlTokenKind::Outer));
    }
    if t.left {
        assert(toks[c].0 == SqlTokenKind::Left);
        assert(b.kind_at(p + c) == Some(SqlTokenKind::Left));
    }
    assert(spec_qualifiers(b, p + d, t3) == (t3, p + d));
    assert(spec_qualifiers(b, p + c, t2) == (t3, p + d));
    assert(spec_qualifiers(b, p + a, t1) == (t3, p + d));
    assert(spec_qualifiers(b, p, t0) == (t3, p + d));
}

proof fn lemma_join_starts(j: JoinModel)
    ensures
        print_join(j).len() >= 1,
        is_qualifier(Some(print_join(j)[0].0)) || print_join(j)[0].0 == SqlTokenKind::Join,
{
    let jt = print_join_type(j.join_type);
    assert(print_join(j)[0] == jt[0]);
}

proof fn lemma_join_round_trip(b: TokenBuffer, p: int, j: JoinModel)
    requires
        0 <= p,
        j.table.table_no.is_none(),
        reads(b, p, print_join(j)),
        follows_join(b.kind_at(p + print_join(j).len())),
    ensures
        spec_join(b, p) == Some((Some(j), p + print_join(j).len())),
{
    let pt = print_join_type(j.join_type);
    let ptab = print_table(j.table);
    let pon = match j.on {
        Some(e) => seq![(SqlTokenKind::On, seq!['O', 'N'])] + print_expr(e),
        None => Seq::<Printed>::empty(),
    };
    assert(print_join(j) == pt + ptab + pon);
    lemma_reads_concat(b, p, pt + ptab, pon);
    lemma_reads_concat(b, p, pt, ptab);
    lemma_join_type_round_trip(b, p, j.join_type);
    let q = p + pt.len();
    let q2 = q + ptab.len();
    let end = p + print_join(j).len();
    match j.on {
        Some(e) => {
            assert(pon[0].0 == SqlTokenKind::On);
            assert(b.kind_at(q2) == Some(SqlTokenKind::On));
            lemma_table_round_trip(b, q, j.table);
            assert(pon.subrange(1, pon.len() as int) =~= print_expr(e));
            lemma_reads_part(b, q2, pon, 1, print_expr(e));
            lemma_expr_round_trip(b, q2 + 1, e, 0);
            assert(spec_keyword_expr(b, q2, SqlTokenKind::On) == Some((Some(e), end)));
        },
        None => {
            lemma_table_round_trip(b, q, j.table);
            assert(spec_keyword_expr(b, q2, SqlTokenKind::On) == Some((None::<ExprModel>, end)));
        },
    }
}

proof fn lemma_no_join(b: TokenBuffer, p: int)
    requires
        ends_clause(b.kind_at(p)),
    ensures
        spec_join(b, p) == Some((None::<JoinModel>, p)),
{
    assert(spec_qualifiers(b, p, empty_join_type()) == (empty_join_type(), p));
}

proof fn lemma_joins_round_trip(b: TokenBuffer, p: int, js: Seq<JoinModel>, acc: Seq<JoinModel>)
    requires
        0 <= p,
        forall|i: int| 0 <= i < js.len() ==> (#[trigger] js[i]).table.table_no.is_none(),
        reads(b, p, print_joins(js)),
        ends_clause(b.kind_at(p + print_joins(js).len())),
    ensures
        spec_joins_from(b, p, acc) == Some((acc + js, p + print_joins(js).len())),
    decreases js.len(),
{
    if js.len() == 0 {
        lemma_no_join(b, p);
        assert(acc + js =~= acc);
    } else {
        let rest = js.drop_first();
        let pj = print_join(js[0]);
        assert(print_joins(js) == pj + print_joins(rest));
        lemma_reads_concat(b, p, pj, print_joins(rest));
        let q = p + pj.len();
        lemma_join_starts(js[0]);
        if rest.len() > 0 {
            lemma_join_starts(rest[0]);
            assert(print_joins(rest) == print_join(rest[0]) + print_joins(rest.drop_first()));
            assert(print_joins(rest)[0] == print_join(rest[0])[0]);
            assert(b.kind_at(q) == Some(print_joins(rest)[0].0));
        } else {
            assert(print_joins(rest).len() == 0);
        }
        lemma_join_round_trip(b, p, js[0]);
        assert(forall|i: int| 0 <= i < rest.len() ==> rest[i] == js[i + 1]);
        lemma_joins_round_trip(b, q, rest, acc.push(js[0]));
        assert(acc.push(js[0]) + rest =~= acc + js);
        assert(b.kind_at(p) == Some(pj[0].0));
        assert(q <= b.tokens.len()) by {
            assert(b.kind_at(p + pj.len() - 1) == Some(pj[pj.len() - 1].0));
        }
    }
}

/// A well-formed `FROM` clause, written in canonical syntax and read back, gives
/// itself, and the read ends just past what was written.
pub proof fn lemma_from_round_trip(b: TokenBuffer, p: int, f: FromModel)
    requires
        0 <= p,
        from_wf(f),
        reads(b, p, print_from(f)),
        ends_clause(b.kind_at(p + print_from(f).len())),
    ensures
        spec_from_clause(b, p) == Some((Some(f), p + print_from(f).len())),
{
    let head = seq![(SqlTokenKind::From, seq!['F', 'R', 'O', 'M'])];
    let ptab = print_table(f.table);
    let pj = match f.joins {
        Some(js) => print_joins(js),
        None => Seq::<Printed>::empty(),
    };
    assert(print_from(f) == head + ptab + pj);
    lemma_reads_concat(b, p, head + ptab, pj);
    lemma_reads_concat(b, p, head, ptab);
    assert(b.kind_at(p) == Some(head[0].0));
    let q = p + 1 + ptab.len();
    match f.joins {
        Some(js) => {
            lemma_join_starts(js[0]);
            assert(print_joins(js) == print_join(js[0]) + print_joins(js.drop_first()));
            assert(print_joins(js)[0] == print_join(js[0])[0]);
            assert(b.kind_at(q) == Some(pj[0].0));
            lemma_table_round_trip(b, p + 1, f.table);
            lemma_joins_round_trip(b, q, js, seq![]);
            assert(seq![] + js =~= js);
        },
        None => {
            lemma_table_round_trip(b, p + 1, f.table);
            lemma_no_join(b, q);
        },
    }
}

/// Canonical syntax of one `ORDER BY` key: `DESC` written out, ascending left implicit.
pub open spec fn print_order_item(item: (ExprModel, Direction)) -> Seq<Printed> {
    print_expr(item.0) + match item.1 {
        Direction::Descending => seq![(SqlTokenKind::Desc, seq!['D', 'E', 'S', 'C'])],
        Direction::Ascending => Seq::<Printed>::empty(),
    }
}

/// The keys after the first, each after a comma.
pub open spec fn print_order_tail(items: Seq<(ExprModel, Direction)>) -> Seq<Printed>
    decreases items.len(),
{
    if items.len() == 0 {
        Seq::<Printed>::empty()
    } else {
        seq![(SqlTokenKind::Comma, seq![','])] + print_order_item(items[0]) + print_order_tail(items.drop_first())
    }
}

/// Canonical syntax of an `ORDER BY` clause with at least one key.
pub open spec fn print_order_by(items: Seq<(ExprModel, Direction)>) -> Seq<Printed> {
    seq![(SqlTokenKind::OrderBy, seq!['O', 'R', 'D', 'E', 'R', ' ', 'B', 'Y'])] + print_order_item(items[0])
        + print_order_tail(items.drop_first())
}

/// A token that may follow an `ORDER BY` key: a comma or the end of the clause.
pub open spec fn follows_order_item(k: Option<SqlTokenKind>) -> bool {
    k == Some(SqlTokenKind::Comma) || ends_clause(k)
}

proof fn lemma_order_item_round_trip(b: TokenBuffer, p: int, item: (ExprModel, Direction))
    requires
        0 <= p,
        reads(b, p, print_order_item(item)),
        follows_order_item(b.kind_at(p + print_order_item(item).len())),
    ensures
        spec_order_item(b, p) == Some((item, p + print_order_item(item).len())),
{
    let pe = print_expr(item.0);
    let pd = match item.1 {
        Direction::Descending => seq![(SqlTokenKind::Desc, seq!['D', 'E', 'S', 'C'])],
        Direction::Ascending => Seq::<Printed>::empty(),
    };
    assert(print_order_item(item) == pe + pd);
    lemma_reads_concat(b, p, pe, pd);
    let q = p + pe.len();
    match item.1 {
        Direction::Descending => {
            assert(b.kind_at(q) == Some(pd[0].0));
        },
        Direction::Ascending => {},
    }
    lemma_expr_round_trip(b, p, item.0, 0);
}

proof fn lemma_order_tail_round_trip(
    b: TokenBuffer,
    p: int,
    items: Seq<(ExprModel, Direction)>,
    acc: Seq<(ExprModel, Direction)>,
)
    requires
        0 <= p,
        reads(b, p, print_order_tail(items)),
        ends_clause(b.kind_at(p + print_order_tail(items).len())),
    ensures
        spec_order_list_from(b, p, acc) == Some((acc + items, p + print_order_tail(items).len())),
    decreases items.len(),
{
    if items.len() == 0 {
        assert(acc + items =~= acc);
    } else {
        let rest = items.drop_first();
        let comma = seq![(SqlTokenKind::Comma, seq![','])];
        let pi = print_order_item(items[0]);
        assert(print_order_tail(items) == comma + pi + print_order_tail(rest));
        lemma_reads_concat(b, p, comma + pi, print_order_tail(rest));
        lemma_reads_concat(b, p, comma, pi);
        assert(b.kind_at(p) == Some(comma[0].0));
        let q = p + 1 + pi.len();
        if rest.len() > 0 {
            assert(print_order_tail(rest)[0] == comma[0]);
            assert(b.kind_at(q) == Some(print_order_tail(rest)[0].0));
        }
        lemma_print_expr_nonempty(items[0].0);
        assert(b.kind_at(p + 1 + pi.len() - 1) == Some(pi[pi.len() - 1].0));
        lemma_order_item_round_trip(b, p + 1, items[0]);
        lemma_order_tail_round_trip(b, q, rest, acc.push(items[0]));
        assert(acc.push(items[0]) + rest =~= acc + items);
    }
}

/// A non-empty `ORDER BY` list, written in canonical syntax and read back, gives
/// itself, and the read ends just past what was written.
pub proof fn lemma_order_by_round_trip(b: TokenBuffer, p: int, items: Seq<(ExprModel, Direction)>)
    requires
        0 <= p,
        items.len() > 0,
        reads(b, p, print_order_by(items)),
        ends_clause(b.kind_at(p + print_order_by(items).len())),
    ensures
        spec_order_by(b, p) == Some((Some(items), p + print_order_by(items).len())),
{
    let head = seq![(SqlTokenKind::OrderBy, seq!['O', 'R', 'D', 'E', 'R', ' ', 'B', 'Y'])];
    let pi = print_order_item(items[0]);
    let rest = items.drop_first();
    assert(print_order_by(items) == head + pi + print_order_tail(rest));
    lemma_reads_concat(b, p, head + pi, print_order_tail(rest));
    lemma_reads_concat(b, p, head, pi);
    assert(b.kind_at(p) == Some(head[0].0));
    let q = p + 1 + pi.len();
    if rest.len() > 0 {
        assert(print_order_tail(rest)[0].0 == SqlTokenKind::Comma);
        assert(b.kind_at(q) == Some(print_order_tail(rest)[0].0));
    }
    lemma_order_item_round_trip(b, p + 1, items[0]);
    lemma_order_tail_round_trip(b, q, rest, seq![items[0]]);
    assert(seq![items[0]] + rest =~= items);
}

proof fn lemma_joins_from_wf(b: TokenBuffer, p: int, acc: Seq<JoinModel>)
    requires
        forall|i: int| 0 <= i < acc.len() ==> (#[trigger] acc[i]).table.table_no.is_none(),
    ensures
        spec_joins_from(b, p, acc) is Some ==> {
            let js = spec_joins_from(b, p, acc)->Some_0.0;
            &&& js.len() >= acc.len()
            &&& forall|i: int| 0 <= i < js.len() ==> (#[trigger] js[i]).table.table_no.is_none()
        },
    decreases b.tokens.len() - p,
{
    match spec_join(b, p) {
        Some((Some(j), q)) => if p < q <= b.tokens.len() {
            let next = acc.push(j);
            assert(forall|i: int| 0 <= i < next.len() ==> (#[trigger] next[i]).table.table_no.is_none()) by {
                assert(forall|i: int| 0 <= i < acc.len() ==> next[i] == acc[i]);
            }
            lemma_joins_from_wf(b, q, next);
        },
        _ => {},
    }
}

/// Every `FROM` clause the parser produces is well formed.
pub proof fn lemma_parsed_from_wf(b: TokenBuffer, p: int)
    ensures
        spec_from_clause(b, p) matches Some((Some(f), _)) ==> from_wf(f),
{
    if b.kind_at(p) == Some(SqlTokenKind::From) {
        match spec_table(b, p + 1) {
            Some((table, q)) => {
                lemma_joins_from_wf(b, q, seq![]);
            },
            None => {},
        }
    }
}

/// A `FROM` clause that was parsed, written back in canonical syntax and parsed again,
/// gives the same clause.
pub proof fn lemma_from_reparse(b: TokenBuffer, p: int, b2: TokenBuffer, p2: int)
    requires
        spec_from_clause(b, p) matches Some((Some(f), _)),
        0 <= p2,
        reads(b2, p2, print_from(spec_from_clause(b, p)->Some_0.0->Some_0)),
        ends_clause(b2.kind_at(p2 + print_from(spec_from_clause(b, p)->Some_0.0->Some_0).len())),
    ensures
        spec_from_clause(b2, p2) == Some(
            (
                spec_from_clause(b, p)->Some_0.0,
                p2 + print_from(spec_from_clause(b, p)->Some_0.0->Some_0).len(),
            ),
        ),
{
    lemma_parsed_from_wf(b, p);
    lemma_from_round_trip(b2, p2, spec_from_clause(b, p)->Some_0.0->Some_0);
}

proof fn lemma_order_list_grows(b: TokenBuffer, p: int, acc: Seq<(ExprModel, Direction)>)
    ensures
        spec_order_list_from(b, p, acc) is Some ==> spec_order_list_from(b, p, acc)->Some_0.0.len() >= acc.len(),
    decreases b.tokens.len() - p,
{
    if b.kind_at(p) == Some(SqlTokenKind::Comma) {
        match spec_order_item(b, p + 1) {
            Some((e, q)) => if p + 1 < q <= b.tokens.len() {
                lemma_order_list_grows(b, q, acc.push(e));
            },
            None => {},
        }
    }
}

/// An `ORDER BY` list that was parsed, written back in canonical syntax and parsed
/// again, gives the same list.
pub proof fn lemma_order_by_reparse(b: TokenBuffer, p: int, b2: TokenBuffer, p2: int)
    requires
        spec_order_by(b, p) matches Some((Some(items), _)),
        0 <= p2,
        reads(b2, p2, print_order_by(spec_order_by(b, p)->Some_0.0->Some_0)),
        ends_clause(b2.kind_at(p2 + print_order_by(spec_order_by(b, p)->Some_0.0->Some_0).len())),
    ensures
        spec_order_by(b2, p2) == Some(
            (
                spec_order_by(b, p)->Some_0.0,
                p2 + print_order_by(spec_order_by(b, p)->Some_0.0->Some_0).len(),
            ),
        ),
{
    match spec_order_item(b, p + 1) {
        Some((e, q)) => lemma_order_list_grows(b, q, seq![e]),
        None => {},
    }
    lemma_order_by_round_trip(b2, p2, spec_order_by(b, p)->Some_0.0->Some_0);
}

} // verus!
