//! The statements and expressions that the analysis consumes.
use crate::error::Error;
use crate::text::{concat2, concat3, char_text, chars_of, decimal_text, int_text, is_digit, parse_i64, parsed_i64, same_text};
use crate::token::TokenKind;
use vstd::prelude::*;
use vstd::string::StringExecFns;

verus! {

#[derive(Debug)]
pub enum Expr {
    Literal(Lit),
    Ident(String),
    AddressOf(Box<Expr>),
    Dereference(Box<Expr>),
    PrefixOp { op: TokenKind, expr: Box<Expr> },
    InfixOp { op: TokenKind, lhs: Box<Expr>, rhs: Box<Expr> },
    PostfixOp { op: TokenKind, expr: Box<Expr> },
}

impl Expr {
    /// The expression as it is shown in messages.
    pub open spec fn text(&self) -> Seq<char>
        decreases self,
    {
        match self {
            Expr::Literal(l) => l.text(),
            Expr::Ident(s) => s@,
            Expr::AddressOf(e) => "&"@ + e.text(),
            Expr::Dereference(e) => "*"@ + e.text(),
            Expr::PrefixOp { op, expr } => op.text() + expr.text(),
            Expr::InfixOp { op, lhs, rhs } => lhs.text() + (" "@ + op.text() + " "@) + rhs.text(),
            Expr::PostfixOp { op, expr } => expr.text() + op.text(),
        }
    }

    pub fn to_string(&self) -> (r: String)
        ensures
            r@ == self.text(),
        decreases self,
    {
        match self {
            Expr::Literal(l) => l.to_string(),
            Expr::Ident(s) => s.clone(),
            Expr::AddressOf(e) => {
                let inner = (**e).to_string();
                concat2("&", inner.as_str())
            },
            Expr::Dereference(e) => {
                let inner = (**e).to_string();
                concat2("*", inner.as_str())
            },
            Expr::PrefixOp { op, expr } => {
                let inner = (**expr).to_string();
                concat2(op.to_string().as_str(), inner.as_str())
            },
            Expr::InfixOp { op, lhs, rhs } => {
                let l = (**lhs).to_string();
                let r = (**rhs).to_string();
                let mid = concat3(" ", op.to_string().as_str(), " ");
                concat3(l.as_str(), mid.as_str(), r.as_str())
            },
            Expr::PostfixOp { op, expr } => {
                let inner = (**expr).to_string();
                concat2(inner.as_str(), op.to_string().as_str())
            },
        }
    }
}

/// One statement of the program, with the 1-based line and the 0-based
/// columns that errors about it are reported at.
#[derive(Debug)]
pub enum Statement {
    VariableDeclaration {
        var_type: TokenKind,
        var_name: String,
        value: Box<Expr>,
        line: usize,
        var_ident_column: usize,
    },
    VariableDeclarationWithoutAssignment {
        var_type: TokenKind,
        var_name: String,
        line: usize,
        var_ident_column: usize,
    },
    VariableAssignment {
        var_name: String,
        new_value: Box<Expr>,
        line: usize,
        var_ident_column: usize,
        assignment_column: usize,
    },
    PointerDeclaration {
        base_type: TokenKind,
        pointer_name: String,
        value: Box<Expr>,
        line: usize,
        pointer_ident_column: usize,
    },
    PointerDeclarationHeap {
        base_type: TokenKind,
        pointer_name: String,
        line: usize,
        pointer_ident_column: usize,
    },
    PointerDeclarationNull {
        base_type: TokenKind,
        pointer_name: String,
        line: usize,
        pointer_ident_column: usize,
    },
    PointerAssignment {
        pointer_name: String,
        new_value: Box<Expr>,
        line: usize,
        pointer_ident_column: usize,
    },
    PointerAssignmentHeap {
        pointer_name: String,
        new_type: TokenKind,
        line: usize,
        pointer_ident_column: usize,
        new_type_column: usize,
    },
    PointerAssignmentNull { pointer_name: String, line: usize, pointer_ident_column: usize },
    Deref {
        pointer_name: String,
        new_value: Box<Expr>,
        line: usize,
        pointer_ident_column: usize,
        new_value_column: usize,
    },
    Delete { pointer_name: String, line: usize, pointer_ident_column: usize },
}

/// A literal seen as plain values.
pub enum LitView {
    Int(i64),
    Float(Seq<char>),
    Char(char),
    Bool(bool),
}

/// An expression seen as plain values; the operator forms, which the
/// parser never builds, all show as `Operator`.
pub enum ExprView {
    Literal(LitView),
    Ident(Seq<char>),
    AddressOf(Box<ExprView>),
    Dereference(Box<ExprView>),
    Operator,
}

pub open spec fn lit_view(l: Lit) -> LitView {
    match l {
        Lit::Int(i) => LitView::Int(i),
        Lit::Float(t) => LitView::Float(t@),
        Lit::Char(c) => LitView::Char(c),
        Lit::Bool(b) => LitView::Bool(b),
    }
}

pub open spec fn expr_view(e: Expr) -> ExprView
    decreases e,
{
    match e {
        Expr::Literal(l) => ExprView::Literal(lit_view(l)),
        Expr::Ident(s) => ExprView::Ident(s@),
        Expr::AddressOf(b) => ExprView::AddressOf(Box::new(expr_view(*b))),
        Expr::Dereference(b) => ExprView::Dereference(Box::new(expr_view(*b))),
        _ => ExprView::Operator,
    }
}

/// A literal expression shows as its literal.
pub proof fn lemma_literal_view(l: Lit)
    ensures
        expr_view(Expr::Literal(l)) == ExprView::Literal(lit_view(l)),
{
}

/// A literal value. A floating-point literal is kept as the text it was
/// written with.
#[derive(Debug, Clone, PartialEq)]
pub enum Lit {
    Int(i64),
    Float(String),
    Char(char),
    Bool(bool),
}

/// The number of decimal digits at the start of `s`.
pub open spec fn digit_run(s: Seq<char>) -> nat
    decreases s.len(),
{
    if s.len() > 0 && is_digit(s[0]) {
        1 + digit_run(s.drop_first())
    } else {
        0
    }
}

/// An exponent after `e`: an optional sign and one or more digits.
pub open spec fn is_exponent(t: Seq<char>) -> bool {
    let u = if t.len() > 0 && (t[0] == '+' || t[0] == '-') { t.drop_first() } else { t };
    u.len() > 0 && digit_run(u) == u.len()
}

/// Digits with an optional fraction, at least one digit in all, then an
/// optional exponent.
pub open spec fn is_decimal_number(s: Seq<char>) -> bool {
    let a = digit_run(s) as int;
    let has_point = a < s.len() && s[a] == '.';
    let b = if has_point { digit_run(s.subrange(a + 1, s.len() as int)) as int } else { 0 };
    let end = if has_point { a + 1 + b } else { a };
    a + b > 0 && (end == s.len() || ((s[end] == 'e' || s[end] == 'E') && is_exponent(
        s.subrange(end + 1, s.len() as int),
    )))
}

/// The language's floating-point literal, with an optional sign in front.
pub open spec fn is_float_text(s: Seq<char>) -> bool {
    let body = if s.len() > 0 && (s[0] == '+' || s[0] == '-') { s.drop_first() } else { s };
    is_decimal_number(body) || spells(body, "inf"@) || spells(body, "infinity"@) || spells(
        body,
        "nan"@,
    )
}

/// `c` is the lower-case letter `w` in either case.
pub open spec fn same_letter(c: char, w: char) -> bool {
    c == w || (c as u32) + 32 == (w as u32)
}

/// `s` spells the lower-case `word`, letters in either case.
pub open spec fn spells(s: Seq<char>, word: Seq<char>) -> bool {
    s.len() == word.len() && forall|i: int| 0 <= i < s.len() ==> same_letter(s[i], word[i])
}

/// Whether `s` from index `start` on spells the lower-case `word`.
fn spells_from(s: &Vec<char>, start: usize, word: &str) -> (r: bool)
    requires
        start <= s.len(),
    ensures
        r == spells(s@.subrange(start as int, s.len() as int), word@),
{
    let w = crate::text::chars_of(word);
    if s.len() - start != w.len() {
        return false;
    }
    let mut i: usize = 0;
    while i < w.len()
        invariant
            w@ == word@,
            s.len() - start == w.len(),
            i <= w.len(),
            forall|j: int| 0 <= j < i ==> same_letter(s@[start + j], w@[j]),
        decreases w.len() - i,
    {
        let c = s[start + i];
        let x = w[i];
        let cu = c as u32;
        let xu = x as u32;
        if !(c == x || (xu >= 32 && cu == xu - 32)) {
            return false;
        }
        i = i + 1;
    }
    true
}

/// The literal that a stored value text stands for, tried in this order:
/// an integer, a floating-point number, a quoted character, a boolean.
pub open spec fn classify_spec(s: Seq<char>) -> Option<LitKind> {
    if parsed_i64(s) is Some {
        Some(LitKind::Int)
    } else if is_float_text(s) {
        Some(LitKind::Float)
    } else if s.len() >= 2 && s[0] == '\'' && s.last() == '\'' {
        Some(LitKind::Char)
    } else if s == seq!['t', 'r', 'u', 'e'] || s == seq!['f', 'a', 'l', 's', 'e'] {
        Some(LitKind::Bool)
    } else {
        None
    }
}

/// The kind of a literal, without its value.
#[derive(Debug, Clone, Copy, PartialEq, Eq, Structural)]
pub enum LitKind {
    Int,
    Float,
    Char,
    Bool,
}

/// The number of decimal digits in `s` from index `i` on.
fn digit_run_at(s: &Vec<char>, i: usize) -> (r: usize)
    requires
        i <= s.len(),
    ensures
        r == digit_run(s@.subrange(i as int, s.len() as int)),
        i + r <= s.len(),
{
    let mut j = i;
    while j < s.len() && '0' <= s[j] && s[j] <= '9'
        invariant
            i <= j <= s.len(),
            digit_run(s@.subrange(i as int, s.len() as int)) == (j - i) + digit_run(
                s@.subrange(j as int, s.len() as int),
            ),
        decreases s.len() - j,
    {
        assert(s@.subrange(j as int, s.len() as int).drop_first() =~= s@.subrange(
            j + 1,
            s.len() as int,
        ));
        j = j + 1;
    }
    j - i
}

/// Whether `s` from index `start` on is a decimal number.
#[verifier::rlimit(40)]
fn is_decimal_from(s: &Vec<char>, start: usize) -> (r: bool)
    requires
        start <= s.len(),
    ensures
        r == is_decimal_number(s@.subrange(start as int, s.len() as int)),
{
    let n = s.len();
    let ghost body = s@.subrange(start as int, n as int);
    let a = digit_run_at(s, start);
    let p = start + a;
    let has_point = p < n && s[p] == '.';
    let b: usize = if has_point {
        assert(body.subrange(a + 1, body.len() as int) =~= s@.subrange(p + 1, n as int));
        digit_run_at(s, p + 1)
    } else {
        0
    };
    let end: usize = if has_point {
        p + 1 + b
    } else {
        p
    };
    if a + b == 0 {
        return false;
    }
    if end == n {
        return true;
    }
    if !(s[end] == 'e' || s[end] == 'E') {
        return false;
    }
    let e1 = end + 1;
    let ghost t = body.subrange(end - start + 1, body.len() as int);
    assert(t =~= s@.subrange(e1 as int, n as int));
    let e2: usize = if e1 < n && (s[e1] == '+' || s[e1] == '-') {
        e1 + 1
    } else {
        e1
    };
    let ghost u = if t.len() > 0 && (t[0] == '+' || t[0] == '-') {
        t.drop_first()
    } else {
        t
    };
    assert(u =~= s@.subrange(e2 as int, n as int));
    let c = digit_run_at(s, e2);
    e2 < n && e2 + c == n
}

/// Whether `s` is a floating-point literal of the language, signed or not.
fn is_float(s: &Vec<char>) -> (r: bool)
    ensures
        r == is_float_text(s@),
{
    let n = s.len();
    let start: usize = if n > 0 && (s[0] == '+' || s[0] == '-') {
        1
    } else {
        0
    };
    assert(s@.subrange(start as int, n as int) =~= if n > 0 && (s@[0] == '+' || s@[0] == '-') {
        s@.drop_first()
    } else {
        s@
    });
    is_decimal_from(s, start) || spells_from(s, start, "inf") || spells_from(s, start, "infinity")
        || spells_from(s, start, "nan")
}

impl Lit {
    pub open spec fn kind(&self) -> LitKind {
        match self {
            Lit::Int(_) => LitKind::Int,
            Lit::Float(_) => LitKind::Float,
            Lit::Char(_) => LitKind::Char,
            Lit::Bool(_) => LitKind::Bool,
        }
    }

    /// The literal's text as the analysis displays it.
    pub open spec fn text(&self) -> Seq<char> {
        match self {
            Lit::Int(i) => decimal_text(*i as int),
            Lit::Float(t) => t@,
            Lit::Char(c) => seq![*c],
            Lit::Bool(b) => if *b {
                seq!['t', 'r', 'u', 'e']
            } else {
                seq!['f', 'a', 'l', 's', 'e']
            },
        }
    }

    pub fn to_string(&self) -> (r: String)
        ensures
            r@ == self.text(),
    {
        match self {
            Lit::Int(i) => int_text(*i),
            Lit::Float(t) => t.clone(),
            Lit::Char(c) => char_text(*c),
            Lit::Bool(b) => {
                let r = if *b {
                    String::from_str("true")
                } else {
                    String::from_str("false")
                };
                proof {
                    reveal_strlit("true");
                    reveal_strlit("false");
                }
                r
            },
        }
    }

    /// Reads a stored value text back as a literal.
    pub fn from_str(s: &str) -> (r: Result<Lit, Error>)
        ensures
            r is Ok <==> classify_spec(s@) is Some,
            r matches Ok(l) ==> Some(l.kind()) == classify_spec(s@),
            r matches Err(e) ==> e matches Error::ParserError(_, 0, 0),
            r matches Err(e) ==> e.message_view() == "Invalid literal"@,
    {
        if let Some(i) = parse_i64(s) {
            return Ok(Lit::Int(i));
        }
        let chars = chars_of(s);
        if is_float(&chars) {
            return Ok(Lit::Float(String::from_str(s)));
        }
        let n = chars.len();
        if n >= 2 && chars[0] == '\'' && chars[n - 1] == '\'' {
            return Ok(Lit::Char(chars[1]));
        }
        proof {
            reveal_strlit("true");
            reveal_strlit("false");
            assert("true"@ =~= seq!['t', 'r', 'u', 'e']);
            assert("false"@ =~= seq!['f', 'a', 'l', 's', 'e']);
        }
        let t = same_text(&chars, "true");
        if t || same_text(&chars, "false") {
            return Ok(Lit::Bool(t));
        }
        Err(Error::ParserError(String::from_str("Invalid literal"), 0, 0))
    }
}

} // verus!
