use vstd::prelude::*;
use vstd::string::*;

verus! {

/// The kinds of tokens the lexer produces.
#[derive(Clone, Copy, Debug, PartialEq, Eq, Structural)]
pub enum SqlTokenKind {
    Select,
    From,
    Where,
    GroupBy,
    OrderBy,
    Limit,
    Inner,
    Outer,
    Left,
    Join,
    On,
    As,
    Asc,
    Desc,
    And,
    Or,
    Comma,
    Dot,
    LParen,
    RParen,
    Semicolon,
    Equals,
    NotEquals,
    Less,
    Greater,
    Plus,
    Minus,
    Star,
    Slash,
    Identifier,
    Literal,
}

/// A token: its kind and the range of characters `start..end` of the source it covers.
#[derive(Clone, Copy, Debug, PartialEq, Eq, Structural)]
pub struct SqlToken {
    pub kind: SqlTokenKind,
    pub start: usize,
    pub end: usize,
}

/// A syntax error with a human-readable message.
#[derive(Clone, Debug)]
pub struct SqlParseError {
    pub message: String,
}

impl SqlParseError {
    pub fn new(message: &str) -> (r: SqlParseError)
        ensures
            r.message@ == message@,
    {
        SqlParseError { message: String::from_str(message) }
    }
}

/// A cursor over a fully tokenized source.
pub struct SqlTokenStream {
    pub source: String,
    pub tokens: Vec<SqlToken>,
    pub pos: usize,
}

/// The text a token covers in `source`.
pub open spec fn token_text(source: Seq<char>, t: SqlToken) -> Seq<char> {
    source.subrange(t.start as int, t.end as int)
}

/// The contents a stream reads: the source text and its tokens.
pub struct TokenBuffer {
    pub source: Seq<char>,
    pub tokens: Seq<SqlToken>,
}

impl TokenBuffer {
    /// The kind of the token at index `i`, if there is one.
    pub open spec fn kind_at(&self, i: int) -> Option<SqlTokenKind> {
        if 0 <= i < self.tokens.len() {
            Some(self.tokens[i].kind)
        } else {
            None
        }
    }

    /// The text of the token at index `i`.
    pub open spec fn text_at(&self, i: int) -> Seq<char> {
        token_text(self.source, self.tokens[i])
    }
}

impl SqlTokenStream {
    pub open spec fn buffer(&self) -> TokenBuffer {
        TokenBuffer { source: self.source@, tokens: self.tokens@ }
    }

    /// Every token lies inside the source, and the cursor inside the token buffer.
    pub open spec fn wf(&self) -> bool {
        &&& self.pos <= self.tokens@.len()
        &&& forall|i: int|
            0 <= i < self.tokens@.len() ==> #[trigger] self.tokens@[i].start <= self.tokens@[i].end
                <= self.source@.len()
    }

    /// The kind of the token at absolute index `i`, if there is one.
    pub open spec fn kind_at(&self, i: int) -> Option<SqlTokenKind> {
        self.buffer().kind_at(i)
    }

    /// The same source and tokens, with the cursor possibly elsewhere.
    pub open spec fn same_buffer(&self, other: &SqlTokenStream) -> bool {
        self.buffer() == other.buffer()
    }

    /// A stream positioned at the start of `tokens`.
    pub fn new(source: String, tokens: Vec<SqlToken>) -> (r: SqlTokenStream)
        ensures
            r.source@ == source@,
            r.tokens@ == tokens@,
            r.pos == 0,
    {
        SqlTokenStream { source, tokens, pos: 0 }
    }

    /// The kind of the token `offset` places past the cursor, or `None` past the end.
    pub fn peek_kind(&self, offset: usize) -> (r: Option<SqlTokenKind>)
        requires
            self.wf(),
        ensures
            r == self.kind_at(self.pos + offset),
    {
        if offset < self.tokens.len() - self.pos {
            Some(self.tokens[self.pos + offset].kind)
        } else {
            None
        }
    }

    /// The token `offset` places past the cursor, or `None` past the end.
    pub fn peek(&self, offset: usize) -> (r: Option<SqlToken>)
        requires
            self.wf(),
        ensures
            self.pos + offset < self.tokens@.len() ==> r == Some(self.tokens@[self.pos + offset]),
            self.pos + offset >= self.tokens@.len() ==> r.is_none(),
    {
        if offset < self.tokens.len() - self.pos {
            Some(self.tokens[self.pos + offset])
        } else {
            None
        }
    }

    /// Consumes and returns the current token, or returns `None` at the end.
    pub fn next_token(&mut self) -> (r: Option<SqlToken>)
        requires
            old(self).wf(),
        ensures
            final(self).wf(),
            final(self).same_buffer(old(self)),
            old(self).pos < old(self).tokens@.len() ==> r == Some(old(self).tokens@[old(self).pos as int])
                && final(self).pos == old(self).pos + 1,
            old(self).pos >= old(self).tokens@.len() ==> r.is_none() && final(self).pos == old(self).pos,
    {
        if self.pos < self.tokens.len() {
            let t = self.tokens[self.pos];
            self.pos = self.pos + 1;
            Some(t)
        } else {
            None
        }
    }

    /// The text of `t` in the source.
    pub fn materialize(&self, t: SqlToken) -> (r: String)
        requires
            t.start <= t.end <= self.source@.len(),
        ensures
            r@ == token_text(self.source@, t),
    {
        String::from_str(self.source.as_str().substring_char(t.start, t.end))
    }

    /// A human-readable rendering of `t` for diagnostics: its text in quotes.
    pub fn print(&self, t: SqlToken) -> (r: String)
        requires
            t.start <= t.end <= self.source@.len(),
        ensures
            r@ == seq!['\''] + token_text(self.source@, t) + seq!['\''],
    {
        proof {
            reveal_strlit("'");
        }
        let text = self.materialize(t);
        let r = String::from_str("'").concat(text.as_str()).concat("'");
        r
    }
}

/// A token's text in quotes, as diagnostics show it.
pub open spec fn quoted(text: Seq<char>) -> Seq<char> {
    seq!['\''] + text + seq!['\'']
}

/// The message of the error for a token of the wrong kind at `p`, or for the end of input.
pub open spec fn unexpected_token_message(b: TokenBuffer, p: int) -> Seq<char> {
    if 0 <= p < b.tokens.len() {
        "Unexpected token: "@ + quoted(b.text_at(p))
    } else {
        "Unexpected end of input"@
    }
}

/// If the current token has kind `kind`, consumes it and returns `true`;
/// otherwise returns `false` and leaves the stream as it was.
pub fn next_token_is(input: &mut SqlTokenStream, kind: SqlTokenKind) -> (r: bool)
    requires
        old(input).wf(),
    ensures
        final(input).wf(),
        final(input).same_buffer(old(input)),
        r == (old(input).kind_at(old(input).pos as int) == Some(kind)),
        final(input).pos == if r { old(input).pos + 1 } else { old(input).pos as int },
{
    if input.peek_kind(0) == Some(kind) {
        input.next_token();
        true
    } else {
        false
    }
}

/// Consumes the current token, which must have kind `kind`.
pub fn expect_token(input: &mut SqlTokenStream, kind: SqlTokenKind) -> (r: Result<SqlToken, SqlParseError>)
    requires
        old(input).wf(),
    ensures
        final(input).wf(),
        final(input).same_buffer(old(input)),
        (old(input).kind_at(old(input).pos as int) == Some(kind)) <==> r is Ok,
        r is Ok ==> r->Ok_0 == old(input).tokens@[old(input).pos as int] && final(input).pos
            == old(input).pos + 1,
        r is Err ==> final(input).pos == old(input).pos && r->Err_0.message@ == unexpected_token_message(
            old(input).buffer(),
            old(input).pos as int,
        ),
{
    match input.peek(0) {
        Some(t) => {
            if t.kind == kind {
                input.next_token();
                Ok(t)
            } else {
                assert(input.tokens@[input.pos as int].start <= input.tokens@[input.pos as int].end);
                let got = input.print(t);
                Err(SqlParseError { message: String::from_str("Unexpected token: ").concat(got.as_str()) })
            }
        },
        None => Err(SqlParseError::new("Unexpected end of input")),
    }
}

} // verus!
