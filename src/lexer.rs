use vstd::prelude::*;
use vstd::string::*;

use crate::token::{SqlParseError, SqlToken, SqlTokenKind, SqlTokenStream};

verus! {

pub open spec fn tokens_within(tokens: Seq<SqlToken>, len: int) -> bool {
    forall|i: int| 0 <= i < tokens.len() ==> #[trigger] tokens[i].start <= tokens[i].end <= len
}

fn is_word_char(c: char) -> bool {
    ('a' <= c && c <= 'z') || ('A' <= c && c <= 'Z') || ('0' <= c && c <= '9') || c == '_'
}

fn is_space(c: char) -> bool {
    c == ' ' || c == '\t' || c == '\n' || c == '\r'
}

/// Whether the characters `start..end` of `s` spell `keyword` (upper case), ignoring case.
fn word_is(s: &str, start: usize, end: usize, keyword: &str) -> bool
    requires
        start <= end <= s@.len(),
{
    let n = keyword.unicode_len();
    if end - start != n {
        return false;
    }
    let mut i: usize = 0;
    while i < n
        invariant
            n == keyword@.len(),
            start + n == end <= s@.len(),
            i <= n,
        decreases n - i,
    {
        let c = s.get_char(start + i);
        let k = keyword.get_char(i);
        if !(c == k || (c as u32) == (k as u32) + 32) {
            return false;
        }
        i = i + 1;
    }
    true
}

fn keyword_kind(s: &str, start: usize, end: usize) -> (r: Option<SqlTokenKind>)
    requires
        start <= end <= s@.len(),
{
    if word_is(s, start, end, "SELECT") {
        Some(SqlTokenKind::Select)
    } else if word_is(s, start, end, "FROM") {
        Some(SqlTokenKind::From)
    } else if word_is(s, start, end, "WHERE") {
        Some(SqlTokenKind::Where)
    } else if word_is(s, start, end, "LIMIT") {
        Some(SqlTokenKind::Limit)
    } else if word_is(s, start, end, "INNER") {
        Some(SqlTokenKind::Inner)
    } else if word_is(s, start, end, "OUTER") {
        Some(SqlTokenKind::Outer)
    } else if word_is(s, start, end, "LEFT") {
        Some(SqlTokenKind::Left)
    } else if word_is(s, start, end, "JOIN") {
        Some(SqlTokenKind::Join)
    } else if word_is(s, start, end, "ON") {
        Some(SqlTokenKind::On)
    } else if word_is(s, start, end, "AS") {
        Some(SqlTokenKind::As)
    } else if word_is(s, start, end, "ASC") {
        Some(SqlTokenKind::Asc)
    } else if word_is(s, start, end, "DESC") {
        Some(SqlTokenKind::Desc)
    } else if word_is(s, start, end, "AND") {
        Some(SqlTokenKind::And)
    } else if word_is(s, start, end, "OR") {
        Some(SqlTokenKind::Or)
    } else {
        None
    }
}

/// The end of the run of word characters that starts at `i`.
fn word_end(s: &str, n: usize, i: usize) -> (r: usize)
    requires
        n == s@.len(),
        i <= n,
    ensures
        i <= r <= n,
{
    let mut j = i;
    while j < n && is_word_char(s.get_char(j))
        invariant
            n == s@.len(),
            i <= j <= n,
        decreases n - j,
    {
        j = j + 1;
    }
    j
}

/// The index of the first character at or after `i` that is not white space.
fn skip_space(s: &str, n: usize, i: usize) -> (r: usize)
    requires
        n == s@.len(),
        i <= n,
    ensures
        i <= r <= n,
{
    let mut j = i;
    while j < n && is_space(s.get_char(j))
        invariant
            n == s@.len(),
            i <= j <= n,
        decreases n - j,
    {
        j = j + 1;
    }
    j
}

fn single_char_kind(c: char) -> Option<SqlTokenKind> {
    if c == ',' {
        Some(SqlTokenKind::Comma)
    } else if c == '.' {
        Some(SqlTokenKind::Dot)
    } else if c == '(' {
        Some(SqlTokenKind::LParen)
    } else if c == ')' {
        Some(SqlTokenKind::RParen)
    } else if c == ';' {
        Some(SqlTokenKind::Semicolon)
    } else if c == '=' {
        Some(SqlTokenKind::Equals)
    } else if c == '<' {
        Some(SqlTokenKind::Less)
    } else if c == '>' {
        Some(SqlTokenKind::Greater)
    } else if c == '+' {
        Some(SqlTokenKind::Plus)
    } else if c == '-' {
        Some(SqlTokenKind::Minus)
    } else if c == '*' {
        Some(SqlTokenKind::Star)
    } else if c == '/' {
        Some(SqlTokenKind::Slash)
    } else {
        None
    }
}

/// Whether a token of this kind ends an operand, so that a `-` after it is an operator.
fn ends_operand(k: SqlTokenKind) -> bool {
    match k {
        SqlTokenKind::Identifier | SqlTokenKind::Literal | SqlTokenKind::RParen => true,
        _ => false,
    }
}

/// Splits `s` into tokens. Keywords are matched without regard to case; `GROUP BY`
/// and `ORDER BY` are one token each. A `-` directly before a digit, where no operand
/// precedes it, starts a negative number literal.
pub fn tokenize(s: &str) -> (r: Result<Vec<SqlToken>, SqlParseError>)
    ensures
        r is Ok ==> tokens_within(r->Ok_0@, s@.len() as int),
{
    let n = s.unicode_len();
    let mut tokens: Vec<SqlToken> = Vec::new();
    let mut i: usize = 0;
    while i < n
        invariant
            n == s@.len(),
            i <= n,
            tokens_within(tokens@, n as int),
        decreases n - i,
    {
        let c = s.get_char(i);
        if is_space(c) {
            i = i + 1;
        } else if is_word_char(c) && !('0' <= c && c <= '9') {
            let end = word_end(s, n, i + 1);
            let mut kind = SqlTokenKind::Identifier;
            let mut token_end = end;
            if word_is(s, i, end, "GROUP") || word_is(s, i, end, "ORDER") {
                let next = skip_space(s, n, end);
                let next_end = word_end(s, n, next);
                if next > end && word_is(s, next, next_end, "BY") {
                    kind = if word_is(s, i, end, "GROUP") {
                        SqlTokenKind::GroupBy
                    } else {
                        SqlTokenKind::OrderBy
                    };
                    token_end = next_end;
                }
            } else if let Some(k) = keyword_kind(s, i, end) {
                kind = k;
            }
            tokens.push(SqlToken { kind, start: i, end: token_end });
            i = token_end;
        } else if ('0' <= c && c <= '9') || (c == '-' && i + 1 < n && '0' <= s.get_char(i + 1) && s.get_char(
            i + 1,
        ) <= '9' && (tokens.len() == 0 || !ends_operand(tokens[tokens.len() - 1].kind))) {
            let end = word_end(s, n, i + 1);
            tokens.push(SqlToken { kind: SqlTokenKind::Literal, start: i, end });
            i = end;
        } else if c == '\'' {
            let mut j = i + 1;
            while j < n && s.get_char(j) != '\''
                invariant
                    n == s@.len(),
                    i < j <= n,
                decreases n - j,
            {
                j = j + 1;
            }
            if j == n {
                return Err(SqlParseError::new("Unterminated string literal"));
            }
            tokens.push(SqlToken { kind: SqlTokenKind::Literal, start: i, end: j + 1 });
            i = j + 1;
        } else if c == '<' && i + 1 < n && s.get_char(i + 1) == '>' {
            tokens.push(SqlToken { kind: SqlTokenKind::NotEquals, start: i, end: i + 2 });
            i = i + 2;
        } else if c == '!' && i + 1 < n && s.get_char(i + 1) == '=' {
            tokens.push(SqlToken { kind: SqlTokenKind::NotEquals, start: i, end: i + 2 });
            i = i + 2;
        } else {
            match single_char_kind(c) {
                Some(kind) => {
                    tokens.push(SqlToken { kind, start: i, end: i + 1 });
                    i = i + 1;
                },
                None => {
                    return Err(SqlParseError::new("Unexpected character"));
                },
            }
        }
    }
    Ok(tokens)
}

impl SqlTokenStream {
    /// Tokenizes `source` and positions a stream at its first token.
    pub fn from_sql(source: &str) -> (r: Result<SqlTokenStream, SqlParseError>)
        ensures
            r is Ok ==> r->Ok_0.wf() && r->Ok_0.source@ == source@ && r->Ok_0.pos == 0,
    {
        let tokens = tokenize(source)?;
        Ok(SqlTokenStream::new(String::from_str(source), tokens))
    }
}

} // verus!
