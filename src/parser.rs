//! Reads the statements of a program from its tokens.
use crate::ast::{expr_view, Expr, ExprView, Lit, LitView, Statement};
use crate::error::Error;
use crate::lexer::{column_count, lex_from, line_count, Token, TokenIter};
use crate::text::{char_text, concat2, concat3, parse_i64, parsed_i64};
use crate::token::TokenKind;
use vstd::prelude::*;
use vstd::string::StringExecFns;

verus! {

/// The kind of statement that a statement's first token starts: a type
/// keyword a declaration of that type, `*` a write through a pointer, a
/// name an assignment, `delete` a deletion.
pub open spec fn starts(first: TokenKind, st: Statement) -> bool {
    match st {
        Statement::VariableDeclaration { var_type, .. } => var_type == first,
        Statement::VariableDeclarationWithoutAssignment { var_type, .. } => var_type == first,
        Statement::PointerDeclaration { base_type, .. } => base_type == first,
        Statement::PointerDeclarationHeap { base_type, .. } => base_type == first,
        Statement::PointerDeclarationNull { base_type, .. } => base_type == first,
        Statement::VariableAssignment { .. } => first == TokenKind::Identifier,
        Statement::PointerAssignment { .. } => first == TokenKind::Identifier,
        Statement::PointerAssignmentHeap { .. } => first == TokenKind::Identifier,
        Statement::PointerAssignmentNull { .. } => first == TokenKind::Identifier,
        Statement::Deref { .. } => first == TokenKind::Asterisk,
        Statement::Delete { .. } => first == TokenKind::Delete,
    }
}

pub open spec fn is_type_keyword(k: TokenKind) -> bool {
    k == TokenKind::KwInt || k == TokenKind::KwChar || k == TokenKind::KwFloat || k
        == TokenKind::KwDouble || k == TokenKind::KwBool
}

/// The kind of token `i` of `toks`, `EOF` past the end.
pub open spec fn kind_at(toks: Seq<Token>, i: int) -> TokenKind {
    if 0 <= i < toks.len() {
        toks[i].kind
    } else {
        TokenKind::EOF
    }
}

/// The number of `&` and `*` tokens from `i` on.
pub open spec fn prefix_len(toks: Seq<Token>, i: int) -> nat
    decreases toks.len() - i,
{
    if 0 <= i < toks.len() && (toks[i].kind == TokenKind::Reference || toks[i].kind
        == TokenKind::Asterisk) {
        1 + prefix_len(toks, i + 1)
    } else {
        0
    }
}

/// The text of token `t` in `s`.
pub open spec fn token_text(s: Seq<char>, t: Token) -> Seq<char> {
    s.subrange(t.span.start as int, t.span.start + t.span.end)
}

/// The line and column reported for token `i`: those of its last
/// character, or zeros past the end.
pub open spec fn position_of(s: Seq<char>, toks: Seq<Token>, i: int) -> (usize, usize) {
    if 0 <= i < toks.len() {
        let e = toks[i].span.start + toks[i].span.end;
        (line_count(s.subrange(0, e)) as usize, column_count(s.subrange(0, e)) as usize)
    } else {
        (0, 0)
    }
}

/// The expression that token `i` stands for on its own, or the message of
/// the error it gives.
pub open spec fn primary(s: Seq<char>, toks: Seq<Token>, i: int) -> Result<ExprView, Seq<char>> {
    let k = kind_at(toks, i);
    let t = token_text(s, toks[i]);
    if k == TokenKind::Int {
        match parsed_i64(t) {
            Some(v) => Ok(ExprView::Literal(LitView::Int(v))),
            None => Err("invalid integer literal: `"@ + t + "`"@),
        }
    } else if k == TokenKind::Float {
        Ok(ExprView::Literal(LitView::Float(t)))
    } else if k == TokenKind::Bool {
        Ok(ExprView::Literal(LitView::Bool(t == "true"@)))
    } else if k == TokenKind::Char {
        if t.len() >= 2 {
            Ok(ExprView::Literal(LitView::Char(t[1])))
        } else {
            Err("invalid char literal: `"@ + t + "`"@)
        }
    } else if k == TokenKind::Identifier {
        Ok(ExprView::Ident(t))
    } else {
        Err("Expected expression but found `"@ + k.text() + "`"@)
    }
}

/// `e` under the `n` prefix operators from token `i` on, the first one
/// outermost.
pub open spec fn wrap(toks: Seq<Token>, i: int, n: nat, e: ExprView) -> ExprView
    decreases n,
{
    if n == 0 {
        e
    } else if kind_at(toks, i) == TokenKind::Reference {
        ExprView::AddressOf(Box::new(wrap(toks, i + 1, (n - 1) as nat, e)))
    } else {
        ExprView::Dereference(Box::new(wrap(toks, i + 1, (n - 1) as nat, e)))
    }
}

/// The expression that starts at token `i`, with the index of the token
/// after it; or the error, with its message, line and column.
pub open spec fn expression_at(s: Seq<char>, toks: Seq<Token>, i: int) -> Result<
    (ExprView, int),
    (Seq<char>, usize, usize),
> {
    let n = prefix_len(toks, i);
    let j = i + n;
    match primary(s, toks, j) {
        Ok(e) => Ok((wrap(toks, i, n, e), j + 1)),
        Err(m) => Err((m, position_of(s, toks, j).0, position_of(s, toks, j).1)),
    }
}

/// A recursive-descent parser over the tokens of one source text.
pub struct Parser {
    input: Vec<char>,
    tokens: Vec<Token>,
    pos: usize,
}

/// A parse error with message `m` at `line` and `col`.
fn parse_error(m: String, line: usize, col: usize) -> (r: Error)
    ensures
        r == Error::ParserError(m, line, col),
{
    Error::ParserError(m, line, col)
}

impl Parser {
    /// Every token lies inside the text, and the parser has not read past
    /// the last token.
    pub closed spec fn wf(&self) -> bool {
        &&& self.pos <= self.tokens.len()
        &&& forall|i: int|
            0 <= i < self.tokens.len() ==> (#[trigger] self.tokens@[i]).span.start
                + self.tokens@[i].span.end <= self.input.len()
    }

    /// The number of tokens not read yet.
    pub closed spec fn unread(&self) -> nat {
        (self.tokens.len() - self.pos) as nat
    }

    pub closed spec fn source(&self) -> Seq<char> {
        self.input@
    }

    /// The tokens not read yet, in order.
    pub closed spec fn upcoming(&self) -> Seq<Token> {
        self.tokens@.subrange(self.pos as int, self.tokens@.len() as int)
    }

    pub fn new(input: &str) -> (r: Parser)
        ensures
            r.wf(),
            r.source() == input@,
            r.upcoming() == lex_from(input@, 0),
            r.peek_kind() == if lex_from(input@, 0).len() > 0 {
                lex_from(input@, 0)[0].kind
            } else {
                TokenKind::EOF
            },
    {
        let mut it = TokenIter::new(input);
        let mut tokens: Vec<Token> = Vec::new();
        loop
            invariant
                it.wf(),
                it.text() == input@,
                tokens@ + it.pending() == lex_from(input@, 0),
                forall|i: int|
                    0 <= i < tokens.len() ==> (#[trigger] tokens@[i]).span.start
                        + tokens@[i].span.end <= input@.len(),
            ensures
                tokens@ == lex_from(input@, 0),
                forall|i: int|
                    0 <= i < tokens.len() ==> (#[trigger] tokens@[i]).span.start
                        + tokens@[i].span.end <= input@.len(),
            decreases it.remaining(),
        {
            let ghost before = tokens@;
            let ghost rest = it.pending();
            match it.next() {
                Some(t) => {
                    tokens.push(t);
                    proof {
                        assert(tokens@ + it.pending() =~= before + rest);
                    }
                },
                None => {
                    proof {
                        assert(tokens@ + it.pending() =~= tokens@);
                    }
                    break;
                },
            }
        }
        let r = Parser { input: crate::text::chars_of(input), tokens, pos: 0 };
        proof {
            assert(r.upcoming() =~= r.tokens@);
        }
        r
    }

    /// The line of the last character of `token`, counting from 1.
    pub fn line_of(&self, token: Token) -> (r: usize)
        requires
            token.span.start + token.span.end <= self.source().len(),
        ensures
            r == line_count(self.source().subrange(0, token.span.start + token.span.end)),
    {
        let n = self.input.len();
        proof {
            assert(self.source().len() == n);
        }
        let end = token.span.start + token.span.end;
        let mut count: usize = 0;
        let mut i: usize = 0;
        while i < end
            invariant
                end <= self.input.len(),
                i <= end,
                count == line_count(self.input@.subrange(0, i as int)),
                count <= i,
            decreases end - i,
        {
            proof {
                assert(self.input@.subrange(0, i + 1).drop_last() =~= self.input@.subrange(
                    0,
                    i as int,
                ));
            }
            if i == 0 || self.input[i - 1] == '\n' {
                count = count + 1;
            }
            i = i + 1;
        }
        count
    }

    /// The number of characters between the last line break before the end
    /// of `token` and that end.
    pub fn column_of(&self, token: Token) -> (r: usize)
        requires
            token.span.start + token.span.end <= self.source().len(),
        ensures
            r == column_count(self.source().subrange(0, token.span.start + token.span.end)),
    {
        let n = self.input.len();
        proof {
            assert(self.source().len() == n);
        }
        let end = token.span.start + token.span.end;
        let mut column: usize = 0;
        let mut i: usize = 0;
        while i < end
            invariant
                end <= self.input.len(),
                i <= end,
                column == column_count(self.input@.subrange(0, i as int)),
                column <= i,
            decreases end - i,
        {
            proof {
                assert(self.input@.subrange(0, i + 1).drop_last() =~= self.input@.subrange(
                    0,
                    i as int,
                ));
            }
            if self.input[i] == '\n' {
                column = 0;
            } else {
                column = column + 1;
            }
            i = i + 1;
        }
        column
    }

    /// The line and column of the next token, or zeros at the end.
    fn peek_position(&self) -> (r: (usize, usize))
        requires
            self.wf(),
    {
        if self.pos < self.tokens.len() {
            let t = self.tokens[self.pos];
            (self.line_of(t), self.column_of(t))
        } else {
            (0, 0)
        }
    }

    /// The column of the next token, or zero at the end.
    fn peek_column(&self) -> (r: usize)
        requires
            self.wf(),
    {
        if self.pos < self.tokens.len() {
            self.column_of(self.tokens[self.pos])
        } else {
            0
        }
    }

    /// The text of `token`.
    pub fn text(&self, token: Token) -> (r: String)
        requires
            token.span.start + token.span.end <= self.source().len(),
        ensures
            r@ == self.source().subrange(
                token.span.start as int,
                token.span.start + token.span.end,
            ),
    {
        let start = token.span.start;
        let n = self.input.len();
        proof {
            assert(self.source().len() == n);
        }
        let end = token.span.start + token.span.end;
        let mut s = String::new();
        let mut i = start;
        while i < end
            invariant
                end <= self.input.len(),
                start <= i <= end,
                s@ == self.input@.subrange(start as int, i as int),
            decreases end - i,
        {
            let c = char_text(self.input[i]);
            s = s.concat(c.as_str());
            proof {
                assert(s@ =~= self.input@.subrange(start as int, i + 1));
            }
            i = i + 1;
        }
        s
    }

    pub fn peek(&self) -> (r: TokenKind)
        ensures
            r == self.peek_kind(),
    {
        if self.pos < self.tokens.len() {
            self.tokens[self.pos].kind
        } else {
            TokenKind::EOF
        }
    }

    pub fn at(&self, kind: TokenKind) -> (r: bool)
        ensures
            r == (self.peek_kind() == kind),
    {
        self.peek() == kind
    }

    pub closed spec fn peek_kind(&self) -> TokenKind {
        if self.pos < self.tokens.len() {
            self.tokens@[self.pos as int].kind
        } else {
            TokenKind::EOF
        }
    }

    pub fn next(&mut self) -> (r: Option<Token>)
        requires
            old(self).wf(),
        ensures
            final(self).wf(),
            final(self).source() == old(self).source(),
            final(self).unread() <= old(self).unread(),
            r is Some ==> final(self).unread() < old(self).unread(),
            r matches Some(t) ==> t.span.start + t.span.end <= final(self).source().len(),
            r matches Some(t) ==> t.kind == old(self).peek_kind(),
            r is None ==> old(self).peek_kind() == TokenKind::EOF,
            r is None <==> old(self).unread() == 0,
    {
        if self.pos < self.tokens.len() {
            let t = self.tokens[self.pos];
            self.pos = self.pos + 1;
            Some(t)
        } else {
            None
        }
    }

    /// Reads the next token, which must be of kind `expected`.
    pub fn consume(&mut self, expected: TokenKind) -> (r: Result<(), Error>)
        requires
            old(self).wf(),
        ensures
            final(self).wf(),
            final(self).source() == old(self).source(),
            final(self).unread() <= old(self).unread(),
            r is Ok ==> final(self).unread() < old(self).unread(),
            r is Ok <==> (old(self).peek_kind() == expected && old(self).unread() > 0),
    {
        let (line_number, column_number) = self.peek_position();
        let token = match self.next() {
            Some(t) => t,
            None => {
                let e = concat3("Expected to consume `", expected.to_string().as_str(), "`, but found `EOF`");
                return Err(parse_error(e, line_number, column_number));
            },
        };
        if token.kind != expected {
            let head = concat3("Expected to consume `", expected.to_string().as_str(), "`, but found `");
            let e = concat3(head.as_str(), token.kind.to_string().as_str(), "`");
            return Err(parse_error(e, line_number, column_number));
        }
        Ok(())
    }

    /// A literal, a name, or `&` or `*` in front of an expression.
    pub fn parse_expression(&mut self) -> (r: Result<Expr, Error>)
        requires
            old(self).wf(),
        ensures
            final(self).wf(),
            final(self).source() == old(self).source(),
            final(self).unread() <= old(self).unread(),
            r is Ok ==> final(self).unread() < old(self).unread(),
            match expression_at(old(self).source(), old(self).upcoming(), 0) {
                Ok((e, n)) => (r matches Ok(x) && expr_view(x) == e) && final(self).upcoming()
                    == old(self).upcoming().subrange(n, old(self).upcoming().len() as int),
                Err((m, l, c)) => r matches Err(Error::ParserError(m2, l2, c2)) && m2@ == m && l2
                    == l && c2 == c,
            },
    {
        let ghost up = self.upcoming();
        let ghost p0 = self.pos as int;
        let mut prefixes: Vec<bool> = Vec::new();
        while self.pos < self.tokens.len() && (self.tokens[self.pos].kind == TokenKind::Reference
            || self.tokens[self.pos].kind == TokenKind::Asterisk)
            invariant
                self.wf(),
                self.input == old(self).input,
                self.tokens == old(self).tokens,
                p0 == old(self).pos,
                p0 <= self.pos <= self.tokens.len(),
                up == self.tokens@.subrange(p0, self.tokens@.len() as int),
                prefixes@.len() == self.pos - p0,
                forall|j: int|
                    0 <= j < prefixes@.len() ==> #[trigger] prefixes@[j] == (kind_at(up, j)
                        == TokenKind::Reference),
                prefix_len(up, 0) == (self.pos - p0) + prefix_len(up, self.pos - p0),
            decreases self.tokens.len() - self.pos,
        {
            prefixes.push(self.tokens[self.pos].kind == TokenKind::Reference);
            self.pos = self.pos + 1;
        }
        let ghost k = self.pos - p0;
        proof {
            assert(prefix_len(up, k) == 0);
        }
        let (line_number, column_number) = if self.pos < self.tokens.len() {
            let t = self.tokens[self.pos];
            (self.line_of(t), self.column_of(t))
        } else {
            (0, 0)
        };
        let kind = if self.pos < self.tokens.len() {
            self.tokens[self.pos].kind
        } else {
            TokenKind::EOF
        };
        proof {
            assert(kind == kind_at(up, k));
            assert((line_number, column_number) == position_of(self.input@, up, k));
        }
        let prim = if kind == TokenKind::Char || kind == TokenKind::Float || kind == TokenKind::Int
            || kind == TokenKind::Bool || kind == TokenKind::Identifier {
            let t = self.tokens[self.pos];
            self.pos = self.pos + 1;
            let text = self.text(t);
            proof {
                assert(t == up[k]);
                assert(text@ == token_text(self.input@, up[k]));
            }
            let e = if kind == TokenKind::Int {
                match parse_i64(text.as_str()) {
                    Some(i) => Expr::Literal(Lit::Int(i)),
                    None => {
                        return Err(
                            parse_error(
                                concat3("invalid integer literal: `", text.as_str(), "`"),
                                line_number,
                                column_number,
                            ),
                        );
                    },
                }
            } else if kind == TokenKind::Float {
                Expr::Literal(Lit::Float(text))
            } else if kind == TokenKind::Bool {
                Expr::Literal(Lit::Bool(crate::text::text_eq(text.as_str(), "true")))
            } else if kind == TokenKind::Char {
                let chars = crate::text::chars_of(text.as_str());
                proof {
                    assert(chars@ == text@);
                }
                if chars.len() < 2 {
                    return Err(
                        parse_error(
                            concat3("invalid char literal: `", text.as_str(), "`"),
                            line_number,
                            column_number,
                        ),
                    );
                }
                let c = chars[1];
                let e2 = Expr::Literal(Lit::Char(c));
                proof {
                    crate::ast::lemma_literal_view(Lit::Char(c));
                }
                e2
            } else {
                Expr::Ident(text)
            };
            proof {
                assert(primary(self.input@, up, k) == Ok::<ExprView, Seq<char>>(expr_view(e)));
            }
            e
        } else {
            return Err(
                parse_error(
                    concat3("Expected expression but found `", kind.to_string().as_str(), "`"),
                    line_number,
                    column_number,
                ),
            );
        };
        let ghost pv = expr_view(prim);
        let mut expr = prim;
        let n = prefixes.len();
        let mut i = n;
        while i > 0
            invariant
                i <= n,
                n == prefixes@.len(),
                forall|j: int|
                    0 <= j < prefixes@.len() ==> #[trigger] prefixes@[j] == (kind_at(up, j)
                        == TokenKind::Reference),
                expr_view(expr) == wrap(up, i as int, (n - i) as nat, pv),
            decreases i,
        {
            i = i - 1;
            expr = if prefixes[i] {
                Expr::AddressOf(Box::new(expr))
            } else {
                Expr::Dereference(Box::new(expr))
            };
        }
        proof {
            assert(self.upcoming() =~= up.subrange(k + 1, up.len() as int));
        }
        Ok(expr)
    }

    /// Reads the statements up to the end of the text.
    pub fn parse(&mut self) -> (r: Result<Vec<Statement>, Error>)
        requires
            old(self).wf(),
        ensures
            final(self).wf(),
            final(self).source() == old(self).source(),
            r is Ok ==> final(self).peek_kind() == TokenKind::EOF,
            old(self).peek_kind() == TokenKind::EOF ==> (r matches Ok(v) && v@.len() == 0),
    {
        let mut statements: Vec<Statement> = Vec::new();
        while self.peek() != TokenKind::EOF
            invariant
                self.wf(),
                self.source() == old(self).source(),
                old(self).peek_kind() == TokenKind::EOF ==> (self.peek_kind() == TokenKind::EOF
                    && statements@.len() == 0),
            decreases self.unread(),
        {
            let st = self.statement()?;
            statements.push(st);
        }
        proof {
            assert(self.peek_kind() == TokenKind::EOF);
        }
        Ok(statements)
    }

    /// Reads one statement.
    pub fn statement(&mut self) -> (r: Result<Statement, Error>)
        requires
            old(self).wf(),
        ensures
            final(self).wf(),
            final(self).source() == old(self).source(),
            final(self).unread() <= old(self).unread(),
            r is Ok ==> final(self).unread() < old(self).unread(),
            r matches Ok(st) ==> starts(old(self).peek_kind(), st),
            !(is_type_keyword(old(self).peek_kind()) || old(self).peek_kind() == TokenKind::Asterisk
                || old(self).peek_kind() == TokenKind::Identifier || old(self).peek_kind()
                == TokenKind::Delete) ==> (r matches Err(e) && e.message_view() == "Expected statement but found `"@
                + old(self).peek_kind().text() + "`"@),
    {
        let (line_number, column_number) = self.peek_position();
        let first = self.peek();
        match first {
            TokenKind::KwInt | TokenKind::KwChar | TokenKind::KwFloat | TokenKind::KwDouble
            | TokenKind::KwBool => self.declaration(first, line_number, column_number),
            TokenKind::Asterisk => self.deref_statement(line_number, column_number),
            TokenKind::Identifier => self.assignment(line_number, column_number),
            TokenKind::Delete => self.delete_statement(line_number, column_number),
            _ => Err(
                parse_error(
                    concat3("Expected statement but found `", first.to_string().as_str(), "`"),
                    line_number,
                    column_number,
                ),
            ),
        }
    }

    /// `T x;`, `T x = v;`, `T* p = &x;`, `T* p = new T;` or `T* p = nullptr;`.
    fn declaration(&mut self, var_type: TokenKind, line_number: usize, column_number: usize) -> (r:
        Result<Statement, Error>)
        requires
            old(self).wf(),
        ensures
            final(self).wf(),
            final(self).source() == old(self).source(),
            final(self).unread() <= old(self).unread(),
            r is Ok ==> final(self).unread() < old(self).unread(),
            r matches Ok(st) ==> starts(var_type, st),
    {
        self.consume(var_type)?;
        let mut pointer = false;
        if self.peek() == TokenKind::Asterisk {
            pointer = true;
            self.consume(TokenKind::Asterisk)?;
        }
        let ident = match self.next() {
            Some(t) => t,
            None => {
                return Err(
                    parse_error(
                        String::from_str("Expected identifier but found none"),
                        line_number,
                        column_number,
                    ),
                );
            },
        };
        if ident.kind != TokenKind::Identifier {
            return Err(
                parse_error(
                    concat3("Expected identifier but found `", ident.kind.to_string().as_str(), "`"),
                    line_number,
                    column_number,
                ),
            );
        }
        let name = self.text(ident);
        if pointer {
            self.consume(TokenKind::Eq)?;
            let pointer_ident_column = self.column_of(ident);
            if self.peek() == TokenKind::New {
                self.consume(TokenKind::New)?;
                let kw = self.peek();
                if kw == TokenKind::KwBool || kw == TokenKind::KwChar || kw == TokenKind::KwFloat
                    || kw == TokenKind::KwInt || kw == TokenKind::KwDouble {
                    self.consume(kw)?;
                    if var_type != kw {
                        return Err(
                            parse_error(
                                concat2("Expected a pointer to ", var_type.to_string().as_str()),
                                line_number,
                                column_number,
                            ),
                        );
                    }
                } else {
                    return Err(
                        parse_error(
                            concat3("Expected type after `new` but found `", kw.to_string().as_str(), "`"),
                            line_number,
                            column_number,
                        ),
                    );
                }
                self.consume(TokenKind::SemiColon)?;
                return Ok(
                    Statement::PointerDeclarationHeap {
                        base_type: var_type,
                        pointer_name: name,
                        line: line_number,
                        pointer_ident_column,
                    },
                );
            }
            if self.peek() == TokenKind::Null {
                self.consume(TokenKind::Null)?;
                self.consume(TokenKind::SemiColon)?;
                return Ok(
                    Statement::PointerDeclarationNull {
                        base_type: var_type,
                        pointer_name: name,
                        line: line_number,
                        pointer_ident_column,
                    },
                );
            }
            let expression = self.parse_expression()?;
            return match expression {
                Expr::AddressOf(inner_expr) => match *inner_expr {
                    Expr::Ident(id) => {
                        self.consume(TokenKind::SemiColon)?;
                        Ok(
                            Statement::PointerDeclaration {
                                base_type: var_type,
                                pointer_name: name,
                                value: Box::new(Expr::Ident(id)),
                                line: line_number,
                                pointer_ident_column,
                            },
                        )
                    },
                    _ => Err(
                        parse_error(
                            String::from_str("Expected identifier after reference operator"),
                            line_number,
                            column_number,
                        ),
                    ),
                },
                e => Err(
                    parse_error(
                        concat3("Expected reference operator but found `", e.to_string().as_str(), "`"),
                        line_number,
                        column_number,
                    ),
                ),
            };
        }
        if self.peek() == TokenKind::SemiColon {
            self.consume(TokenKind::SemiColon)?;
            return Ok(
                Statement::VariableDeclarationWithoutAssignment {
                    var_type,
                    var_name: name,
                    line: line_number,
                    var_ident_column: self.column_of(ident),
                },
            );
        }
        self.consume(TokenKind::Eq)?;
        let value = self.parse_expression()?;
        self.consume(TokenKind::SemiColon)?;
        Ok(
            Statement::VariableDeclaration {
                var_type,
                var_name: name,
                value: Box::new(value),
                line: line_number,
                var_ident_column: self.column_of(ident),
            },
        )
    }

    /// `*p = v;`.
    fn deref_statement(&mut self, line_number: usize, column_number: usize) -> (r: Result<
        Statement,
        Error,
    >)
        requires
            old(self).wf(),
        ensures
            final(self).wf(),
            final(self).source() == old(self).source(),
            final(self).unread() <= old(self).unread(),
            r is Ok ==> final(self).unread() < old(self).unread(),
            r matches Ok(st) ==> st is Deref,
    {
        self.consume(TokenKind::Asterisk)?;
        let ident = match self.next() {
            Some(t) => t,
            None => {
                return Err(
                    parse_error(
                        String::from_str(
                            "Expected identifier after dereference operator but found none",
                        ),
                        line_number,
                        column_number,
                    ),
                );
            },
        };
        let pointer_ident_column = self.column_of(ident);
        if ident.kind != TokenKind::Identifier {
            return Err(
                parse_error(
                    concat3(
                        "Expected identifier after dereference operator `*`, but found `",
                        ident.kind.to_string().as_str(),
                        "`",
                    ),
                    line_number,
                    column_number,
                ),
            );
        }
        let name = self.text(ident);
        self.consume(TokenKind::Eq)?;
        let new_value_column = self.peek_column();
        let expression = self.parse_expression()?;
        match expression {
            Expr::Ident(id) => {
                self.consume(TokenKind::SemiColon)?;
                Ok(
                    Statement::Deref {
                        pointer_name: name,
                        new_value: Box::new(Expr::Ident(id)),
                        line: line_number,
                        pointer_ident_column,
                        new_value_column,
                    },
                )
            },
            Expr::Literal(lit) => {
                self.consume(TokenKind::SemiColon)?;
                Ok(
                    Statement::Deref {
                        pointer_name: name,
                        new_value: Box::new(Expr::Literal(lit)),
                        line: line_number,
                        pointer_ident_column,
                        new_value_column,
                    },
                )
            },
            e => Err(
                parse_error(
                    concat3("Expected identifier but found `", e.to_string().as_str(), "`"),
                    line_number,
                    column_number,
                ),
            ),
        }
    }

    /// `x = v;`, `p = &x;`, `p = new T;` or `p = nullptr;`.
    fn assignment(&mut self, line_number: usize, column_number: usize) -> (r: Result<Statement, Error>)
        requires
            old(self).wf(),
        ensures
            final(self).wf(),
            final(self).source() == old(self).source(),
            final(self).unread() <= old(self).unread(),
            r is Ok ==> final(self).unread() < old(self).unread(),
            r matches Ok(st) ==> starts(TokenKind::Identifier, st),
    {
        let ident = match self.next() {
            Some(t) => t,
            None => {
                return Err(
                    parse_error(
                        String::from_str("Expected identifier but found none"),
                        line_number,
                        column_number,
                    ),
                );
            },
        };
        let pointer_ident_column = self.column_of(ident);
        let name = self.text(ident);
        let mut assignment_column: usize = 0;
        if self.peek() == TokenKind::Eq {
            assignment_column = self.peek_column();
            self.consume(TokenKind::Eq)?;
        }
        if self.peek() == TokenKind::New {
            self.consume(TokenKind::New)?;
            let new_type_column = self.peek_column();
            let kw = self.peek();
            if kw == TokenKind::KwBool || kw == TokenKind::KwChar || kw == TokenKind::KwFloat || kw
                == TokenKind::KwInt || kw == TokenKind::KwDouble {
                self.consume(kw)?;
            } else {
                return Err(
                    parse_error(
                        concat3("Expected type after `new` but found `", kw.to_string().as_str(), "`"),
                        line_number,
                        column_number,
                    ),
                );
            }
            self.consume(TokenKind::SemiColon)?;
            return Ok(
                Statement::PointerAssignmentHeap {
                    pointer_name: name,
                    new_type: kw,
                    line: line_number,
                    pointer_ident_column,
                    new_type_column,
                },
            );
        }
        if self.peek() == TokenKind::Null {
            self.consume(TokenKind::Null)?;
            self.consume(TokenKind::SemiColon)?;
            return Ok(
                Statement::PointerAssignmentNull {
                    pointer_name: name,
                    line: line_number,
                    pointer_ident_column,
                },
            );
        }
        let expr = self.parse_expression()?;
        if let Expr::AddressOf(inner_expr) = expr {
            return match *inner_expr {
                Expr::Ident(id) => {
                    self.consume(TokenKind::SemiColon)?;
                    Ok(
                        Statement::PointerAssignment {
                            pointer_name: name,
                            new_value: Box::new(Expr::Ident(id)),
                            line: line_number,
                            pointer_ident_column,
                        },
                    )
                },
                _ => Err(
                    parse_error(
                        String::from_str("Expected identifier after reference operator"),
                        line_number,
                        column_number,
                    ),
                ),
            };
        }
        self.consume(TokenKind::SemiColon)?;
        Ok(
            Statement::VariableAssignment {
                var_name: name,
                new_value: Box::new(expr),
                line: line_number,
                var_ident_column: pointer_ident_column,
                assignment_column,
            },
        )
    }

    /// `delete p;`.
    fn delete_statement(&mut self, line_number: usize, column_number: usize) -> (r: Result<
        Statement,
        Error,
    >)
        requires
            old(self).wf(),
        ensures
            final(self).wf(),
            final(self).source() == old(self).source(),
            final(self).unread() <= old(self).unread(),
            r is Ok ==> final(self).unread() < old(self).unread(),
            r matches Ok(st) ==> st is Delete,
    {
        self.consume(TokenKind::Delete)?;
        let ident = match self.next() {
            Some(t) => t,
            None => {
                return Err(
                    parse_error(
                        String::from_str("Expected identifier after delete operator but found none"),
                        line_number,
                        column_number,
                    ),
                );
            },
        };
        if ident.kind != TokenKind::Identifier {
            return Err(
                parse_error(
                    concat3(
                        "Expected identifier after delete operator `delete`, but found `",
                        ident.kind.to_string().as_str(),
                        "`",
                    ),
                    line_number,
                    column_number,
                ),
            );
        }
        let name = self.text(ident);
        self.consume(TokenKind::SemiColon)?;
        Ok(
            Statement::Delete {
                pointer_name: name,
                line: line_number,
                pointer_ident_column: self.column_of(ident),
            },
        )
    }
}

} // verus!
