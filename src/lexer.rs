//! Splits source text into tokens.
use crate::token::TokenKind;
use crate::text::chars_of;
use vstd::prelude::*;

verus! {

/// Where a token stands: its first character and its length, both counted
/// in characters.
#[derive(Debug, PartialEq, Eq, Structural, Clone, Copy, Hash, Default)]
pub struct Span {
    pub start: usize,
    pub end: usize,
}

#[derive(Debug, PartialEq, Eq, Structural, Clone, Copy, Hash)]
pub struct Token {
    pub kind: TokenKind,
    pub span: Span,
}

impl Token {
    /// The number of characters of the token.
    pub fn len(&self) -> (r: usize)
        ensures
            r == self.span.end,
    {
        self.span.end
    }
}

/// The characters that Unicode counts as white space.
pub open spec fn is_space(c: char) -> bool {
    let u = c as u32;
    (0x9 <= u && u <= 0xD) || u == 0x20 || u == 0x85 || u == 0xA0 || u == 0x1680 || (0x2000 <= u
        && u <= 0x200A) || u == 0x2028 || u == 0x2029 || u == 0x202F || u == 0x205F || u == 0x3000
}

pub open spec fn is_ascii_digit(c: char) -> bool {
    '0' <= c && c <= '9'
}

pub open spec fn is_ident_start(c: char) -> bool {
    ('a' <= c && c <= 'z') || ('A' <= c && c <= 'Z') || c == '_'
}

pub open spec fn is_ident_char(c: char) -> bool {
    is_ident_start(c) || is_ascii_digit(c)
}

/// The number of lines in `s`, a last line without its line break counted.
pub open spec fn line_count(s: Seq<char>) -> nat
    decreases s.len(),
{
    if s.len() == 0 {
        0
    } else {
        let rest = line_count(s.drop_last());
        if s.len() == 1 || s[s.len() - 2] == '\n' {
            rest + 1
        } else {
            rest
        }
    }
}

/// The number of characters after the last line break of `s`.
pub open spec fn column_count(s: Seq<char>) -> nat
    decreases s.len(),
{
    if s.len() == 0 {
        0
    } else if s.last() == '\n' {
        0
    } else {
        column_count(s.drop_last()) + 1
    }
}

fn is_space_char(c: char) -> (r: bool)
    ensures
        r == is_space(c),
{
    let u = c as u32;
    (0x9 <= u && u <= 0xD) || u == 0x20 || u == 0x85 || u == 0xA0 || u == 0x1680 || (0x2000 <= u
        && u <= 0x200A) || u == 0x2028 || u == 0x2029 || u == 0x202F || u == 0x205F || u == 0x3000
}

fn is_digit_char(c: char) -> (r: bool)
    ensures
        r == is_ascii_digit(c),
{
    '0' <= c && c <= '9'
}

fn is_ident_start_char(c: char) -> (r: bool)
    ensures
        r == is_ident_start(c),
{
    ('a' <= c && c <= 'z') || ('A' <= c && c <= 'Z') || c == '_'
}

/// The token kind of the characters that always stand alone.
pub open spec fn single_char_kind(c: char) -> Option<TokenKind> {
    match c {
        '=' => Some(TokenKind::Eq),
        '_' => Some(TokenKind::Underscore),
        ';' => Some(TokenKind::SemiColon),
        '&' => Some(TokenKind::Reference),
        '*' => Some(TokenKind::Asterisk),
        _ => None,
    }
}

pub fn unambiguous_single_char(c: char) -> (r: Option<TokenKind>)
    ensures
        r == single_char_kind(c),
{
    match c {
        '=' => Some(TokenKind::Eq),
        '_' => Some(TokenKind::Underscore),
        ';' => Some(TokenKind::SemiColon),
        '&' => Some(TokenKind::Reference),
        '*' => Some(TokenKind::Asterisk),
        _ => None,
    }
}

/// The length of `keyword` if the text at `i` starts with it.
pub fn match_keyword(s: &Vec<char>, i: usize, keyword: &str) -> (r: Option<usize>)
    requires
        i <= s.len(),
    ensures
        r is Some <==> (i + keyword@.len() <= s.len() && s@.subrange(
            i as int,
            i + keyword@.len(),
        ) == keyword@),
        r matches Some(n) ==> n == keyword@.len(),
        match r {
            Some(n) => keyword_len(s@, i as int, keyword@) == Some(n as nat),
            None => keyword_len(s@, i as int, keyword@) is None,
        },
{
    let k = chars_of(keyword);
    if k.len() > s.len() - i {
        return None;
    }
    let mut j: usize = 0;
    while j < k.len()
        invariant
            i + k.len() <= s.len(),
            j <= k.len(),
            k@ == keyword@,
            forall|x: int| 0 <= x < j ==> s@[i + x] == k@[x],
        decreases k.len() - j,
    {
        if s[i + j] != k[j] {
            assert(s@.subrange(i as int, i + keyword@.len())[j as int] != keyword@[j as int]);
            return None;
        }
        j = j + 1;
    }
    assert(s@.subrange(i as int, i + keyword@.len()) =~= keyword@);
    Some(k.len())
}

/// Whether `c` counts in a run: a decimal digit, or any character that may
/// continue an identifier.
pub open spec fn in_run(c: char, digits: bool) -> bool {
    if digits {
        is_ascii_digit(c)
    } else {
        is_ident_char(c)
    }
}

/// The length of the run that starts at `i`.
pub open spec fn run_len(s: Seq<char>, i: int, digits: bool) -> nat
    decreases s.len() - i,
{
    if 0 <= i < s.len() && in_run(s[i], digits) {
        1 + run_len(s, i + 1, digits)
    } else {
        0
    }
}

/// The length of `kw` if the text at `i` starts with it.
pub open spec fn keyword_len(s: Seq<char>, i: int, kw: Seq<char>) -> Option<nat> {
    if i + kw.len() <= s.len() && s.subrange(i, i + kw.len()) == kw {
        Some(kw.len())
    } else {
        None
    }
}

/// The first line break at or after `j`.
pub open spec fn next_line_break(s: Seq<char>, j: int) -> Option<int>
    decreases s.len() - j,
{
    if j < 0 || j >= s.len() {
        None
    } else if s[j] == '\n' {
        Some(j)
    } else {
        next_line_break(s, j + 1)
    }
}

/// `//`, then anything up to and including the next line break.
pub open spec fn comment_len(s: Seq<char>, i: int) -> Option<nat> {
    if 0 <= i && i + 1 < s.len() && s[i] == '/' && s[i + 1] == '/' {
        match next_line_break(s, i + 2) {
            Some(j) => Some((j + 1 - i) as nat),
            None => None,
        }
    } else {
        None
    }
}

/// One or more decimal digits.
pub open spec fn int_len(s: Seq<char>, i: int) -> Option<nat> {
    if run_len(s, i, true) > 0 {
        Some(run_len(s, i, true))
    } else {
        None
    }
}

/// Digits with an optional fraction (a point and one or more digits), or
/// such a fraction alone; then, where one follows, an exponent: `e` or `E`,
/// an optional sign, one or more digits.
pub open spec fn float_len(s: Seq<char>, i: int) -> Option<nat> {
    let a = run_len(s, i, true) as int;
    let mantissa_end = if a > 0 {
        if i + a < s.len() - 1 && s[i + a] == '.' && run_len(s, i + a + 1, true) > 0 {
            i + a + 1 + run_len(s, i + a + 1, true)
        } else {
            i + a
        }
    } else if i + 1 < s.len() && s[i] == '.' && run_len(s, i + 1, true) > 0 {
        i + 1 + run_len(s, i + 1, true)
    } else {
        -1
    };
    if mantissa_end < 0 {
        None
    } else {
        let p = mantissa_end;
        let q = if p + 1 < s.len() && (s[p + 1] == '+' || s[p + 1] == '-') {
            p + 2
        } else {
            p + 1
        };
        if p < s.len() && (s[p] == 'e' || s[p] == 'E') && run_len(s, q, true) > 0 {
            Some((q + run_len(s, q, true) - i) as nat)
        } else {
            Some((p - i) as nat)
        }
    }
}

/// A quote and the two characters after it.
pub open spec fn char_len(s: Seq<char>, i: int) -> Option<nat> {
    if 0 <= i && i + 3 <= s.len() && s[i] == '\'' {
        Some(3)
    } else {
        None
    }
}

/// A letter or `_`, then letters, digits and `_`.
pub open spec fn ident_len(s: Seq<char>, i: int) -> Option<nat> {
    if 0 <= i < s.len() && is_ident_start(s[i]) {
        Some(1 + run_len(s, i + 1, false))
    } else {
        None
    }
}

/// The match of rule `k` at `i`, rules taken in this order: the keywords
/// `int`, `float`, `double`, `char`, `bool`, `new`, `delete`, `nullptr`,
/// then comments, integers, floating-point numbers, booleans, characters,
/// identifiers.
pub open spec fn rule_match(s: Seq<char>, i: int, k: int) -> Option<(nat, TokenKind)> {
    let (m, kind) = if k == 0 {
        (keyword_len(s, i, "int"@), TokenKind::KwInt)
    } else if k == 1 {
        (keyword_len(s, i, "float"@), TokenKind::KwFloat)
    } else if k == 2 {
        (keyword_len(s, i, "double"@), TokenKind::KwDouble)
    } else if k == 3 {
        (keyword_len(s, i, "char"@), TokenKind::KwChar)
    } else if k == 4 {
        (keyword_len(s, i, "bool"@), TokenKind::KwBool)
    } else if k == 5 {
        (keyword_len(s, i, "new"@), TokenKind::New)
    } else if k == 6 {
        (keyword_len(s, i, "delete"@), TokenKind::Delete)
    } else if k == 7 {
        (keyword_len(s, i, "nullptr"@), TokenKind::Null)
    } else if k == 8 {
        (comment_len(s, i), TokenKind::Comment)
    } else if k == 9 {
        (int_len(s, i), TokenKind::Int)
    } else if k == 10 {
        (float_len(s, i), TokenKind::Float)
    } else if k == 11 {
        (
            if keyword_len(s, i, "true"@) is Some {
                keyword_len(s, i, "true"@)
            } else {
                keyword_len(s, i, "false"@)
            },
            TokenKind::Bool,
        )
    } else if k == 12 {
        (char_len(s, i), TokenKind::Char)
    } else {
        (ident_len(s, i), TokenKind::Identifier)
    };
    match m {
        Some(n) => Some((n, kind)),
        None => None,
    }
}

/// The longest match among the first `k` rules; among matches of equal
/// length, the rule that comes first.
pub open spec fn best_match(s: Seq<char>, i: int, k: int) -> Option<(nat, TokenKind)>
    decreases k,
{
    if k <= 0 {
        None
    } else {
        let prev = best_match(s, i, k - 1);
        match rule_match(s, i, k - 1) {
            Some((n, kind)) => match prev {
                Some((m, _)) => if n > m {
                    Some((n, kind))
                } else {
                    prev
                },
                None => Some((n, kind)),
            },
            None => prev,
        }
    }
}

/// The length of the run of characters from `i` on: decimal digits, or,
/// when `digits` is false, characters that may continue an identifier.
fn run_from(s: &Vec<char>, i: usize, digits: bool) -> (r: usize)
    requires
        i <= s.len(),
    ensures
        r == run_len(s@, i as int, digits),
        i + r <= s.len(),
{
    let mut j = i;
    while j < s.len() && (is_digit_char(s[j]) || (!digits && is_ident_start_char(s[j])))
        invariant
            i <= j <= s.len(),
            run_len(s@, i as int, digits) == (j - i) + run_len(s@, j as int, digits),
        decreases s.len() - j,
    {
        j = j + 1;
    }
    j - i
}

/// A rule's match at `i`: a length that keeps inside the text.
pub open spec fn fits(r: Option<usize>, i: int, len: int) -> bool {
    r matches Some(n) ==> n > 0 && i + n <= len
}

fn match_comment(s: &Vec<char>, i: usize) -> (r: Option<usize>)
    requires
        i < s.len(),
    ensures
        fits(r, i as int, s.len() as int),
        match r {
            Some(n) => comment_len(s@, i as int) == Some(n as nat),
            None => comment_len(s@, i as int) is None,
        },
{
    if i + 1 >= s.len() || s[i] != '/' || s[i + 1] != '/' {
        return None;
    }
    let mut j = i + 2;
    while j < s.len() && s[j] != '\n'
        invariant
            i + 2 <= j <= s.len(),
            next_line_break(s@, i + 2) == next_line_break(s@, j as int),
        decreases s.len() - j,
    {
        j = j + 1;
    }
    if j < s.len() {
        Some(j + 1 - i)
    } else {
        None
    }
}

fn match_float(s: &Vec<char>, i: usize) -> (r: Option<usize>)
    requires
        i < s.len(),
    ensures
        fits(r, i as int, s.len() as int),
        match r {
            Some(n) => float_len(s@, i as int) == Some(n as nat),
            None => float_len(s@, i as int) is None,
        },
{
    let n = s.len();
    let a = run_from(s, i, true);
    let mut p = i + a;
    if a > 0 {
        if p < n - 1 && s[p] == '.' {
            let b = run_from(s, p + 1, true);
            if b > 0 {
                p = p + 1 + b;
            }
        }
    } else {
        if i + 1 < n && s[i] == '.' {
            let b = run_from(s, i + 1, true);
            if b == 0 {
                return None;
            }
            p = i + 1 + b;
        } else {
            return None;
        }
    }
    if p < n && (s[p] == 'e' || s[p] == 'E') {
        let mut q = p + 1;
        if q < n && (s[q] == '+' || s[q] == '-') {
            q = q + 1;
        }
        let d = run_from(s, q, true);
        if d > 0 {
            p = q + d;
        }
    }
    Some(p - i)
}

fn match_char(s: &Vec<char>, i: usize) -> (r: Option<usize>)
    requires
        i < s.len(),
    ensures
        fits(r, i as int, s.len() as int),
        match r {
            Some(n) => char_len(s@, i as int) == Some(n as nat),
            None => char_len(s@, i as int) is None,
        },
{
    if s[i] == '\'' && s.len() - i >= 3 {
        Some(3)
    } else {
        None
    }
}

fn match_identifier(s: &Vec<char>, i: usize) -> (r: Option<usize>)
    requires
        i < s.len(),
    ensures
        fits(r, i as int, s.len() as int),
        match r {
            Some(n) => ident_len(s@, i as int) == Some(n as nat),
            None => ident_len(s@, i as int) is None,
        },
{
    if is_ident_start_char(s[i]) {
        Some(1 + run_from(s, i + 1, false))
    } else {
        None
    }
}

/// The match of rule `k` at `i`.
fn match_rule(s: &Vec<char>, i: usize, k: usize) -> (r: Option<(usize, TokenKind)>)
    requires
        i < s.len(),
    ensures
        r matches Some((n, _)) ==> n > 0 && i + n <= s.len(),
        match r {
            Some((n, kind)) => rule_match(s@, i as int, k as int) == Some((n as nat, kind)),
            None => rule_match(s@, i as int, k as int) is None,
        },
{
    proof {
        reveal_strlit("int");
        reveal_strlit("float");
        reveal_strlit("double");
        reveal_strlit("char");
        reveal_strlit("bool");
        reveal_strlit("new");
        reveal_strlit("delete");
        reveal_strlit("nullptr");
        reveal_strlit("true");
        reveal_strlit("false");
    }
    let (m, kind) = if k == 0 {
        (match_keyword(s, i, "int"), TokenKind::KwInt)
    } else if k == 1 {
        (match_keyword(s, i, "float"), TokenKind::KwFloat)
    } else if k == 2 {
        (match_keyword(s, i, "double"), TokenKind::KwDouble)
    } else if k == 3 {
        (match_keyword(s, i, "char"), TokenKind::KwChar)
    } else if k == 4 {
        (match_keyword(s, i, "bool"), TokenKind::KwBool)
    } else if k == 5 {
        (match_keyword(s, i, "new"), TokenKind::New)
    } else if k == 6 {
        (match_keyword(s, i, "delete"), TokenKind::Delete)
    } else if k == 7 {
        (match_keyword(s, i, "nullptr"), TokenKind::Null)
    } else if k == 8 {
        (match_comment(s, i), TokenKind::Comment)
    } else if k == 9 {
        let d = run_from(s, i, true);
        (
            if d > 0 {
                Some(d)
            } else {
                None
            },
            TokenKind::Int,
        )
    } else if k == 10 {
        (match_float(s, i), TokenKind::Float)
    } else if k == 11 {
        let t = match_keyword(s, i, "true");
        (
            if t.is_some() {
                t
            } else {
                match_keyword(s, i, "false")
            },
            TokenKind::Bool,
        )
    } else if k == 12 {
        (match_char(s, i), TokenKind::Char)
    } else {
        (match_identifier(s, i), TokenKind::Identifier)
    };
    match m {
        Some(n) => Some((n, kind)),
        None => None,
    }
}

/// The number of token rules.
pub const RULE_COUNT: usize = 14;

/// The longest rule match at `i`; among matches of equal length, the rule
/// that comes first.
fn longest_match(s: &Vec<char>, i: usize) -> (r: Option<(usize, TokenKind)>)
    requires
        i < s.len(),
    ensures
        r matches Some((n, _)) ==> n > 0 && i + n <= s.len(),
        match r {
            Some((n, kind)) => best_match(s@, i as int, RULE_COUNT as int) == Some((n as nat, kind)),
            None => best_match(s@, i as int, RULE_COUNT as int) is None,
        },
{
    let mut best: Option<(usize, TokenKind)> = None;
    let mut k: usize = 0;
    while k < RULE_COUNT
        invariant
            i < s.len(),
            k <= RULE_COUNT,
            best matches Some((n, _)) ==> n > 0 && i + n <= s.len(),
            match best {
                Some((n, kind)) => best_match(s@, i as int, k as int) == Some((n as nat, kind)),
                None => best_match(s@, i as int, k as int) is None,
            },
        decreases RULE_COUNT - k,
    {
        if let Some((n, kind)) = match_rule(s, i, k) {
            let better = match best {
                Some((m, _)) => n > m,
                None => true,
            };
            if better {
                best = Some((n, kind));
            }
        }
        k = k + 1;
    }
    best
}

/// The length of the run of white space from `i` on.
pub open spec fn space_len(s: Seq<char>, i: int) -> nat
    decreases s.len() - i,
{
    if 0 <= i < s.len() && is_space(s[i]) {
        1 + space_len(s, i + 1)
    } else {
        0
    }
}

/// The token that starts at `i`, if one does: white space, a character
/// that stands alone, or the best rule match.
pub open spec fn valid_match(s: Seq<char>, i: int) -> Option<(nat, TokenKind)> {
    if is_space(s[i]) {
        Some((space_len(s, i), TokenKind::Whitespace))
    } else if single_char_kind(s[i]) is Some {
        Some((1, single_char_kind(s[i])->0))
    } else {
        best_match(s, i, RULE_COUNT as int)
    }
}

/// The first place at or after `p` where a token starts, or the end.
pub open spec fn next_valid(s: Seq<char>, p: int) -> int
    decreases s.len() - p,
{
    if p < 0 || p >= s.len() {
        s.len() as int
    } else if valid_match(s, p) is Some {
        p
    } else {
        next_valid(s, p + 1)
    }
}

/// The length and kind of the token read at `i`: a valid token, or an error
/// token up to the next place where a valid one starts.
pub open spec fn token_at(s: Seq<char>, i: int) -> (nat, TokenKind) {
    match valid_match(s, i) {
        Some(t) => t,
        None => ((next_valid(s, i + 1) - i) as nat, TokenKind::Error),
    }
}

/// Whether a token of this kind reaches the parser: white space and
/// comments do not.
pub open spec fn is_visible(k: TokenKind) -> bool {
    k != TokenKind::Whitespace && k != TokenKind::Comment
}

/// The tokens the parser sees in `s` from index `i` on: each token read in
/// turn, without white space and comments, then one `EOF` token.
pub open spec fn lex_from(s: Seq<char>, i: int) -> Seq<Token>
    decreases s.len() - i,
{
    if i < 0 || i >= s.len() {
        seq![Token { kind: TokenKind::EOF, span: Span { start: i as usize, end: 0 } }]
    } else {
        let (n, k) = token_at(s, i);
        if n == 0 || i + n > s.len() {
            Seq::empty()
        } else if is_visible(k) {
            seq![Token { kind: k, span: Span { start: i as usize, end: n as usize } }] + lex_from(
                s,
                i + n,
            )
        } else {
            lex_from(s, i + n)
        }
    }
}

/// Reads the source text one token at a time, the end marked by one `EOF`
/// token.
pub struct Lexer {
    input: Vec<char>,
    cursor: usize,
    eof: bool,
}

impl Lexer {
    pub closed spec fn wf(&self) -> bool {
        &&& self.cursor <= self.input.len()
        &&& self.eof ==> self.cursor == self.input.len()
    }

    /// What is left to read: the characters after the cursor, and the `EOF`
    /// token if it has not been given yet.
    pub closed spec fn remaining(&self) -> nat {
        (self.input.len() - self.cursor) as nat + if self.eof {
            0nat
        } else {
            1nat
        }
    }

    pub closed spec fn text(&self) -> Seq<char> {
        self.input@
    }

    /// The index of the next character to read.
    pub closed spec fn position(&self) -> nat {
        self.cursor as nat
    }

    pub closed spec fn at_end(&self) -> bool {
        self.eof
    }

    /// The visible tokens still to come.
    pub closed spec fn pending(&self) -> Seq<Token> {
        if self.eof {
            Seq::empty()
        } else {
            lex_from(self.input@, self.cursor as int)
        }
    }

    pub fn new(input: &str) -> (r: Self)
        ensures
            r.wf(),
            r.text() == input@,
            r.remaining() == input@.len() + 1,
            r.pending() == lex_from(input@, 0),
    {
        Lexer { input: chars_of(input), cursor: 0, eof: false }
    }

    /// The token at the cursor, if a rule matches there.
    fn valid_token(&self, at: usize) -> (r: Option<(usize, TokenKind)>)
        requires
            at < self.input.len(),
        ensures
            r matches Some((n, _)) ==> n > 0 && at + n <= self.input.len(),
            match r {
                Some((n, kind)) => valid_match(self.input@, at as int) == Some((n as nat, kind)),
                None => valid_match(self.input@, at as int) is None,
            },
    {
        let s = &self.input;
        let next = s[at];
        if is_space_char(next) {
            let mut j = at + 1;
            while j < s.len() && is_space_char(s[j])
                invariant
                    at < j <= s.len(),
                    space_len(s@, at as int) == (j - at) + space_len(s@, j as int),
                decreases s.len() - j,
            {
                j = j + 1;
            }
            Some((j - at, TokenKind::Whitespace))
        } else if let Some(kind) = unambiguous_single_char(next) {
            Some((1, kind))
        } else {
            longest_match(s, at)
        }
    }

    /// An error token over everything up to the next place where a valid
    /// token starts.
    fn invalid_token(&self) -> (r: usize)
        requires
            self.cursor < self.input.len(),
        ensures
            0 < r,
            self.cursor + r <= self.input.len(),
            self.cursor + r == next_valid(self.input@, self.cursor + 1),
    {
        let mut p = self.cursor + 1;
        while p < self.input.len() && self.valid_token(p).is_none()
            invariant
                self.cursor < p <= self.input.len(),
                next_valid(self.input@, self.cursor + 1) == next_valid(self.input@, p as int),
            decreases self.input.len() - p,
        {
            p = p + 1;
        }
        p - self.cursor
    }

    pub fn next_token(&mut self) -> (r: Token)
        requires
            old(self).wf(),
            old(self).position() < old(self).text().len(),
        ensures
            final(self).text() == old(self).text(),
            final(self).at_end() == old(self).at_end(),
            final(self).position() > old(self).position(),
            final(self).wf(),
            r.span.start == old(self).position(),
            r.span.start + r.span.end == final(self).position(),
            (r.span.end as nat, r.kind) == token_at(old(self).text(), old(self).position() as int),
    {
        let start = self.cursor;
        let (len, kind) = match self.valid_token(start) {
            Some(t) => t,
            None => (self.invalid_token(), TokenKind::Error),
        };
        self.cursor = start + len;
        Token { kind, span: Span { start, end: len } }
    }

    pub fn next(&mut self) -> (r: Option<Token>)
        requires
            old(self).wf(),
        ensures
            final(self).wf(),
            final(self).text() == old(self).text(),
            r is Some ==> final(self).remaining() < old(self).remaining(),
            r is None ==> old(self).remaining() == 0,
            r matches Some(t) ==> t.span.start + t.span.end <= final(self).text().len(),
            r is None ==> old(self).pending() == Seq::<Token>::empty(),
            r is None ==> final(self).pending() == Seq::<Token>::empty(),
            r matches Some(t) ==> old(self).pending() == if is_visible(t.kind) {
                seq![t] + final(self).pending()
            } else {
                final(self).pending()
            },
    {
        if self.cursor >= self.input.len() {
            if self.eof {
                return None;
            }
            self.eof = true;
            let t = Token { kind: TokenKind::EOF, span: Span { start: self.cursor, end: 0 } };
            proof {
                assert(seq![t] + Seq::<Token>::empty() =~= seq![t]);
            }
            Some(t)
        } else {
            let ghost c = self.cursor as int;
            let ghost s0 = self.input@;
            let t = self.next_token();
            proof {
                let n = t.span.end as nat;
                assert(token_at(s0, c) == (n, t.kind));
                assert(c + n == self.cursor);
                assert(t == Token { kind: t.kind, span: Span { start: c as usize, end: n as usize } });
                assert(lex_from(s0, c) == if is_visible(t.kind) {
                    seq![t] + lex_from(s0, c + n)
                } else {
                    lex_from(s0, c + n)
                });
            }
            Some(t)
        }
    }
}

/// The tokens of a text without its white space and comments.
pub struct TokenIter {
    lexer: Lexer,
}

impl TokenIter {
    pub closed spec fn wf(&self) -> bool {
        self.lexer.wf()
    }

    pub closed spec fn text(&self) -> Seq<char> {
        self.lexer.text()
    }

    pub closed spec fn remaining(&self) -> nat {
        self.lexer.remaining()
    }

    /// The tokens still to come.
    pub closed spec fn pending(&self) -> Seq<Token> {
        self.lexer.pending()
    }

    pub fn new(input: &str) -> (r: Self)
        ensures
            r.wf(),
            r.text() == input@,
            r.pending() == lex_from(input@, 0),
    {
        TokenIter { lexer: Lexer::new(input) }
    }

    pub fn next(&mut self) -> (r: Option<Token>)
        requires
            old(self).wf(),
        ensures
            final(self).wf(),
            final(self).text() == old(self).text(),
            r is Some ==> final(self).remaining() < old(self).remaining(),
            r matches Some(t) ==> t.span.start + t.span.end <= final(self).text().len(),
            r matches Some(t) ==> t.kind != TokenKind::Whitespace && t.kind != TokenKind::Comment,
            r matches Some(t) ==> old(self).pending() == seq![t] + final(self).pending(),
            r is None ==> old(self).pending() == Seq::<Token>::empty(),
            r is None ==> final(self).pending() == Seq::<Token>::empty(),
    {
        loop
            invariant
                self.wf(),
                self.text() == old(self).text(),
                self.remaining() <= old(self).remaining(),
                self.pending() == old(self).pending(),
            decreases self.remaining(),
        {
            let next_token = self.lexer.next();
            match next_token {
                None => {
                    return None;
                },
                Some(t) => {
                    if t.kind != TokenKind::Whitespace && t.kind != TokenKind::Comment {
                        return Some(t);
                    }
                },
            }
        }
    }
}

} // verus!
