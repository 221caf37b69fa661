use vstd::prelude::*;
use vstd::string::StringExecFns;

verus! {

/// The kinds of token of the language; `Kw` marks a keyword.
#[derive(Debug, PartialEq, Eq, Structural, Hash, Copy, Clone)]
pub enum TokenKind {
    KwInt,
    KwFloat,
    KwChar,
    KwDouble,
    KwBool,
    Reference,
    Asterisk,
    New,
    Delete,
    Null,
    Eq,
    Underscore,
    SemiColon,
    Bool,
    Float,
    Char,
    Int,
    Identifier,
    Comment,
    Error,
    Whitespace,
    EOF,
}

impl TokenKind {
    /// How the kind is named in messages.
    pub open spec fn text(self) -> Seq<char> {
        match self {
            TokenKind::KwInt => "int"@,
            TokenKind::KwFloat => "float"@,
            TokenKind::KwChar => "char"@,
            TokenKind::KwDouble => "double"@,
            TokenKind::KwBool => "bool"@,
            TokenKind::Reference => "&"@,
            TokenKind::Asterisk => "*"@,
            TokenKind::New => "new"@,
            TokenKind::Delete => "delete"@,
            TokenKind::Null => "null"@,
            TokenKind::Eq => "="@,
            TokenKind::Underscore => "_"@,
            TokenKind::SemiColon => ";"@,
            TokenKind::Comment => "comment"@,
            TokenKind::Int => "int"@,
            TokenKind::Float => "float"@,
            TokenKind::Bool => "bool"@,
            TokenKind::Char => "char"@,
            TokenKind::Identifier => "identifier"@,
            TokenKind::Error => "error"@,
            TokenKind::Whitespace => "whitespace"@,
            TokenKind::EOF => "EOF"@,
        }
    }

    pub fn to_string(&self) -> (r: String)
        ensures
            r@ == self.text(),
    {
        match self {
            TokenKind::KwInt => String::from_str("int"),
            TokenKind::KwFloat => String::from_str("float"),
            TokenKind::KwChar => String::from_str("char"),
            TokenKind::KwDouble => String::from_str("double"),
            TokenKind::KwBool => String::from_str("bool"),
            TokenKind::Reference => String::from_str("&"),
            TokenKind::Asterisk => String::from_str("*"),
            TokenKind::New => String::from_str("new"),
            TokenKind::Delete => String::from_str("delete"),
            TokenKind::Null => String::from_str("null"),
            TokenKind::Eq => String::from_str("="),
            TokenKind::Underscore => String::from_str("_"),
            TokenKind::SemiColon => String::from_str(";"),
            TokenKind::Comment => String::from_str("comment"),
            TokenKind::Int => String::from_str("int"),
            TokenKind::Float => String::from_str("float"),
            TokenKind::Bool => String::from_str("bool"),
            TokenKind::Char => String::from_str("char"),
            TokenKind::Identifier => String::from_str("identifier"),
            TokenKind::Error => String::from_str("error"),
            TokenKind::Whitespace => String::from_str("whitespace"),
            TokenKind::EOF => String::from_str("EOF"),
        }
    }
}

} // verus!
