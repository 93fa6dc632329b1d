use sql_clause::canonical::{from_clause_tokens, order_by_tokens, render_tokens};
use sql_clause::ast::{BinaryOperator, Direction, Expression, JoinType, JoinVariant};
use sql_clause::lexer::tokenize;
use sql_clause::clause::{
    parse_from_clause, parse_group_by_clause, parse_join_type, parse_limit_clause, parse_on_clause,
    parse_order_by_clause, parse_order_by_expr, parse_table, parse_where_clause,
};
use sql_clause::number::parse_u64;
use sql_clause::token::{SqlTokenKind, SqlTokenStream};

fn stream(sql: &str) -> SqlTokenStream {
    SqlTokenStream::from_sql(sql).unwrap()
}

fn col(name: &str) -> Expression {
    Expression::Column { table: None, name: name.to_string() }
}

fn qcol(table: &str, name: &str) -> Expression {
    Expression::Column { table: Some(table.to_string()), name: name.to_string() }
}

#[test]
fn comma_join_is_inner_without_on() {
    let mut s = stream("FROM a, b");
    let from = parse_from_clause(&mut s).unwrap().unwrap();
    assert_eq!(from.table.name, "a");
    let joins = from.joins.unwrap();
    assert_eq!(joins.len(), 1);
    let j = &joins[0];
    assert!(j.join_type.contains(JoinVariant::Inner));
    assert!(!j.join_type.contains(JoinVariant::Outer));
    assert!(!j.join_type.contains(JoinVariant::Left));
    assert_eq!(j.table.name, "b");
    assert!(j.on.is_none());
    assert_eq!(s.pos, 4);
}

#[test]
fn comma_join_matches_inner_join() {
    let mut s1 = stream("FROM a, b");
    let mut s2 = stream("FROM a INNER JOIN b");
    assert_eq!(parse_from_clause(&mut s1).unwrap(), parse_from_clause(&mut s2).unwrap());
}

#[test]
fn left_outer_join_with_on() {
    let mut s = stream("FROM a LEFT OUTER JOIN b ON a.x = b.x");
    let from = parse_from_clause(&mut s).unwrap().unwrap();
    let joins = from.joins.unwrap();
    assert_eq!(joins.len(), 1);
    let j = &joins[0];
    assert!(j.join_type.contains(JoinVariant::Left));
    assert!(j.join_type.contains(JoinVariant::Outer));
    assert!(!j.join_type.contains(JoinVariant::Inner));
    let expected = Expression::Binary {
        left: Box::new(qcol("a", "x")),
        op: BinaryOperator::Equals,
        right: Box::new(qcol("b", "x")),
    };
    assert_eq!(j.on, Some(expected));
    assert_eq!(s.pos, s.tokens.len());
}

#[test]
fn bare_join_has_empty_qualifiers() {
    let mut s = stream("FROM a JOIN b");
    let from = parse_from_clause(&mut s).unwrap().unwrap();
    let joins = from.joins.unwrap();
    assert_eq!(joins.len(), 1);
    let t = joins[0].join_type;
    assert!(!t.contains(JoinVariant::Inner));
    assert!(!t.contains(JoinVariant::Outer));
    assert!(!t.contains(JoinVariant::Left));
}

#[test]
fn qualifier_without_join_keyword_fails() {
    let mut s = stream("FROM a LEFT b");
    assert!(parse_from_clause(&mut s).is_err());
}

#[test]
fn odd_qualifier_combination_is_kept() {
    let mut s = stream("INNER OUTER JOIN");
    let t = parse_join_type(&mut s).unwrap().unwrap();
    assert!(t.contains(JoinVariant::Inner));
    assert!(t.contains(JoinVariant::Outer));
    assert!(!t.contains(JoinVariant::Left));
    assert_eq!(s.pos, 3);
}

#[test]
fn no_join_leaves_token() {
    let mut s = stream("WHERE x");
    assert!(parse_join_type(&mut s).unwrap().is_none());
    assert_eq!(s.pos, 0);
}

#[test]
fn from_without_joins_has_absent_list() {
    let mut s = stream("FROM a WHERE x = 1");
    let from = parse_from_clause(&mut s).unwrap().unwrap();
    assert!(from.joins.is_none());
    assert_eq!(from.table.table_no, None);
    assert_eq!(s.peek_kind(0), Some(SqlTokenKind::Where));
}

#[test]
fn several_joins_in_order() {
    let mut s = stream("FROM a JOIN b ON a.id = b.id LEFT JOIN c, d");
    let from = parse_from_clause(&mut s).unwrap().unwrap();
    let joins = from.joins.unwrap();
    let names: Vec<&str> = joins.iter().map(|j| j.table.name.as_str()).collect();
    assert_eq!(names, vec!["b", "c", "d"]);
    assert!(joins[0].on.is_some());
    assert!(joins[1].join_type.contains(JoinVariant::Left));
    assert!(joins[2].join_type.contains(JoinVariant::Inner));
}

#[test]
fn table_aliases() {
    let mut s = stream("a AS x");
    let t = parse_table(&mut s).unwrap();
    assert_eq!(t.name, "a");
    assert_eq!(t.alias, Some("x".to_string()));
    let mut s = stream("b y");
    let t = parse_table(&mut s).unwrap();
    assert_eq!(t.alias, Some("y".to_string()));
    let mut s = stream("c");
    assert_eq!(parse_table(&mut s).unwrap().alias, None);
}

#[test]
fn table_errors() {
    let mut s = stream("FROM");
    let e = parse_from_clause(&mut s).unwrap_err();
    assert_eq!(e.message, "Expected identifier, got EOF");
    let mut s = stream("FROM ,");
    let e = parse_from_clause(&mut s).unwrap_err();
    assert_eq!(e.message, "Expected identifier, got: ','");
}

#[test]
fn group_by_keeps_source_order() {
    let mut s = stream("GROUP BY x, y, z");
    let list = parse_group_by_clause(&mut s).unwrap().unwrap();
    assert_eq!(list, vec![col("x"), col("y"), col("z")]);
}

#[test]
fn group_by_keeps_duplicates() {
    let mut s = stream("group by x, x");
    let list = parse_group_by_clause(&mut s).unwrap().unwrap();
    assert_eq!(list, vec![col("x"), col("x")]);
}

#[test]
fn group_by_trailing_comma_fails() {
    let mut s = stream("GROUP BY x,");
    assert!(parse_group_by_clause(&mut s).is_err());
}

#[test]
fn order_by_direction_per_key() {
    let mut s = stream("ORDER BY x DESC, y");
    let list = parse_order_by_clause(&mut s).unwrap().unwrap();
    assert_eq!(list, vec![(col("x"), Direction::Descending), (col("y"), Direction::Ascending)]);
}

#[test]
fn order_by_explicit_asc() {
    let mut s = stream("x ASC DESC");
    let (e, d) = parse_order_by_expr(&mut s).unwrap();
    assert_eq!(e, col("x"));
    assert_eq!(d, Direction::Ascending);
    assert_eq!(s.peek_kind(0), Some(SqlTokenKind::Desc));
}

#[test]
fn limit_ten() {
    let mut s = stream("LIMIT 10");
    assert_eq!(parse_limit_clause(&mut s).unwrap(), Some(10));
    assert_eq!(s.pos, 2);
}

#[test]
fn limit_errors_are_distinct() {
    let mut s = stream("LIMIT abc");
    let not_literal = parse_limit_clause(&mut s).unwrap_err();
    let mut s = stream("LIMIT -1");
    let bad_number = parse_limit_clause(&mut s).unwrap_err();
    assert_eq!(bad_number.message, "Expected integer literal after LIMIT");
    assert_eq!(not_literal.message, "Expected integer literal after LIMIT, got: 'abc'");
    assert_ne!(not_literal.message, bad_number.message);
}

#[test]
fn limit_bounds() {
    let mut s = stream("LIMIT 18446744073709551615");
    assert_eq!(parse_limit_clause(&mut s).unwrap(), Some(u64::MAX));
    let mut s = stream("LIMIT 18446744073709551616");
    assert!(parse_limit_clause(&mut s).is_err());
    let mut s = stream("LIMIT");
    assert_eq!(parse_limit_clause(&mut s).unwrap_err().message, "Expected integer literal after LIMIT, got EOF");
}

#[test]
fn decimal_reading() {
    assert_eq!(parse_u64("0"), Some(0));
    assert_eq!(parse_u64("+42"), Some(42));
    assert_eq!(parse_u64("007"), Some(7));
    assert_eq!(parse_u64(""), None);
    assert_eq!(parse_u64("+"), None);
    assert_eq!(parse_u64("-1"), None);
    assert_eq!(parse_u64("1x"), None);
}

#[test]
fn where_clause_reads_full_expression() {
    let mut s = stream("WHERE a = 1 AND b = 2 OR c");
    let e = parse_where_clause(&mut s).unwrap().unwrap();
    let and = Expression::Binary {
        left: Box::new(Expression::Binary {
            left: Box::new(col("a")),
            op: BinaryOperator::Equals,
            right: Box::new(Expression::Literal("1".to_string())),
        }),
        op: BinaryOperator::And,
        right: Box::new(Expression::Binary {
            left: Box::new(col("b")),
            op: BinaryOperator::Equals,
            right: Box::new(Expression::Literal("2".to_string())),
        }),
    };
    let expected = Expression::Binary { left: Box::new(and), op: BinaryOperator::Or, right: Box::new(col("c")) };
    assert_eq!(e, expected);
}

#[test]
fn absent_clauses_leave_stream_alone() {
    let mut s = stream(";");
    assert!(parse_where_clause(&mut s).unwrap().is_none());
    assert!(parse_group_by_clause(&mut s).unwrap().is_none());
    assert!(parse_order_by_clause(&mut s).unwrap().is_none());
    assert!(parse_limit_clause(&mut s).unwrap().is_none());
    assert_eq!(s.pos, 0);
    let mut s = stream("");
    assert!(parse_where_clause(&mut s).unwrap().is_none());
    assert!(parse_group_by_clause(&mut s).unwrap().is_none());
    assert!(parse_order_by_clause(&mut s).unwrap().is_none());
    assert!(parse_limit_clause(&mut s).unwrap().is_none());
    assert!(parse_from_clause(&mut s).unwrap().is_none());
    assert!(parse_on_clause(&mut s).unwrap().is_none());
    assert_eq!(s.pos, 0);
}

#[test]
fn present_clause_consumes_its_keyword() {
    let mut s = stream("WHERE x LIMIT 3");
    assert!(parse_from_clause(&mut s).unwrap().is_none());
    assert_eq!(s.pos, 0);
    assert!(parse_where_clause(&mut s).unwrap().is_some());
    assert_eq!(s.pos, 2);
    assert!(parse_group_by_clause(&mut s).unwrap().is_none());
    assert!(parse_order_by_clause(&mut s).unwrap().is_none());
    assert_eq!(s.pos, 2);
    assert_eq!(parse_limit_clause(&mut s).unwrap(), Some(3));
    assert_eq!(s.pos, 4);
}

#[test]
fn canonical_from_reads_back_equal() {
    let mut s = stream("FROM t1 x LEFT OUTER JOIN t2 ON x.a = t2.b + 1, t3");
    let first = parse_from_clause(&mut s).unwrap();
    let mut c = stream("FROM t1 AS x OUTER LEFT JOIN t2 ON (x.a = (t2.b + 1)) INNER JOIN t3");
    let second = parse_from_clause(&mut c).unwrap();
    assert_eq!(c.pos, c.tokens.len());
    assert_eq!(first, second);
}

#[test]
fn canonical_order_by_reads_back_equal() {
    let mut s = stream("ORDER BY a + b * c DESC, d ASC");
    let first = parse_order_by_clause(&mut s).unwrap();
    let mut c = stream("ORDER BY (a + (b * c)) DESC, d");
    let second = parse_order_by_clause(&mut c).unwrap();
    assert_eq!(first, second);
}

#[test]
fn canonical_from_text() {
    let mut s = stream("from a x left outer join b on a.x = b.x + 1");
    let from = parse_from_clause(&mut s).unwrap().unwrap();
    let text = render_tokens(&from_clause_tokens(&from));
    assert_eq!(text, "FROM a AS x OUTER LEFT JOIN b ON ( a . x = ( b . x + 1 ) )");
}

#[test]
fn printed_from_parses_back_equal() {
    let mut s = stream("FROM t1 x LEFT OUTER JOIN t2 ON x.a = t2.b * -1 OR x.c < 'q', t3 JOIN t4 AS y WHERE z");
    let from = parse_from_clause(&mut s).unwrap().unwrap();
    let text = render_tokens(&from_clause_tokens(&from));
    let mut again = stream(&text);
    let reparsed = parse_from_clause(&mut again).unwrap().unwrap();
    assert_eq!(again.pos, again.tokens.len());
    assert_eq!(reparsed, from);
}

#[test]
fn printed_order_by_parses_back_equal() {
    let mut s = stream("ORDER BY a + b * c DESC, d ASC, (e) DESC LIMIT 5");
    let list = parse_order_by_clause(&mut s).unwrap().unwrap();
    let text = render_tokens(&order_by_tokens(&list));
    assert_eq!(text, "ORDER BY ( a + ( b * c ) ) DESC , d , e DESC");
    let mut again = stream(&text);
    let reparsed = parse_order_by_clause(&mut again).unwrap().unwrap();
    assert_eq!(again.pos, again.tokens.len());
    assert_eq!(reparsed, list);
}

#[test]
fn qualifier_union_is_idempotent() {
    let once = JoinType::new().with(JoinVariant::Left);
    let twice = once.with(JoinVariant::Left);
    assert_eq!(once, twice);
    assert!(JoinType::new().with(JoinVariant::Outer).with(JoinVariant::Left).contains(JoinVariant::Outer));
}

#[test]
fn lexer_rejects_bad_input() {
    assert_eq!(tokenize("'open").unwrap_err().message, "Unterminated string literal");
    assert_eq!(tokenize("a # b").unwrap_err().message, "Unexpected character");
    let kinds: Vec<SqlTokenKind> = tokenize("Order  By x - 1").unwrap().iter().map(|t| t.kind).collect();
    assert_eq!(
        kinds,
        vec![SqlTokenKind::OrderBy, SqlTokenKind::Identifier, SqlTokenKind::Minus, SqlTokenKind::Literal]
    );
}

#[test]
fn table_error_leaves_cursor() {
    let mut s = stream(", a");
    let e = parse_table(&mut s).unwrap_err();
    assert_eq!(e.message, "Expected identifier, got: ','");
    assert_eq!(s.pos, 0);
    let mut s = stream("FROM ;");
    let e = parse_from_clause(&mut s).unwrap_err();
    assert_eq!(e.message, "Expected identifier, got: ';'");
    assert_eq!(s.pos, 1);
}

#[test]
fn alias_error_reaches_table_caller() {
    let mut s = stream("FROM a AS ,");
    let e = parse_from_clause(&mut s).unwrap_err();
    assert_eq!(e.message, "Unexpected token: ','");
    assert_eq!(s.pos, 3);
    let mut s = stream("a AS");
    let e = parse_table(&mut s).unwrap_err();
    assert_eq!(e.message, "Unexpected end of input");
    assert_eq!(s.pos, 2);
}

#[test]
fn expression_errors_pass_through_unchanged() {
    let mut s = stream("WHERE ,");
    let e = parse_where_clause(&mut s).unwrap_err();
    assert_eq!(e.message, "Unexpected token in expression: ','");
    assert_eq!(s.pos, 1);
    let mut s = stream("ON (a = b");
    let e = parse_on_clause(&mut s).unwrap_err();
    assert_eq!(e.message, "Unexpected end of input in expression");
    assert_eq!(s.pos, 5);
    let mut s = stream("WHERE a.");
    let e = parse_where_clause(&mut s).unwrap_err();
    assert_eq!(e.message, "Unexpected end of input in expression");
    assert_eq!(s.pos, 3);
}

#[test]
fn qualifiers_without_join_name_the_token() {
    let mut s = stream("LEFT OUTER b");
    let e = parse_join_type(&mut s).unwrap_err();
    assert_eq!(e.message, "Unexpected token: 'b'");
    assert_eq!(s.pos, 2);
}
