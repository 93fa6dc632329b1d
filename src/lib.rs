//! Clause-level grammar of a SQL-like `SELECT` statement: `FROM`/`JOIN`,
//! `WHERE`, `GROUP BY`, `ORDER BY` and `LIMIT`, over a token stream.
pub mod token;
pub mod ast;
pub mod expression;
pub mod clause;
pub mod number;
pub mod lexer;
pub mod printer;
pub mod canonical;
