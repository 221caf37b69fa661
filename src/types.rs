//! The value types of the language.
use crate::ast::{Lit, LitKind};
use crate::error::Error;
use crate::token::TokenKind;
use vstd::prelude::*;
use vstd::string::StringExecFns;

verus! {

#[derive(Debug, Clone, Copy, PartialEq, Eq, Structural)]
pub enum Type {
    Integer,
    Float,
    Char,
    Double,
    Bool,
}

/// The type that a type keyword names, if it names one.
pub open spec fn type_of_token(kind: TokenKind) -> Option<Type> {
    match kind {
        TokenKind::KwInt => Some(Type::Integer),
        TokenKind::KwFloat => Some(Type::Float),
        TokenKind::KwChar => Some(Type::Char),
        TokenKind::KwDouble => Some(Type::Double),
        TokenKind::KwBool => Some(Type::Bool),
        _ => None,
    }
}

impl Type {
    /// The size of a value of the type, in bytes.
    pub open spec fn size(self) -> nat {
        match self {
            Type::Integer => 4,
            Type::Float => 4,
            Type::Char => 1,
            Type::Double => 8,
            Type::Bool => 1,
        }
    }

    /// Whether a literal of the given kind may be stored in the type; a
    /// floating-point literal serves both `float` and `double`.
    pub open spec fn accepts(self, kind: LitKind) -> bool {
        match kind {
            LitKind::Int => self == Type::Integer,
            LitKind::Bool => self == Type::Bool,
            LitKind::Float => self == Type::Float || self == Type::Double,
            LitKind::Char => self == Type::Char,
        }
    }

    /// The text of the type's zero value.
    pub open spec fn garbage_text(self) -> Seq<char> {
        match self {
            Type::Integer => seq!['0'],
            Type::Float => seq!['0', '.', '0'],
            Type::Char => seq!['\'', '\\', '0', '\''],
            Type::Double => seq!['0', '.', '0'],
            Type::Bool => seq!['f', 'a', 'l', 's', 'e'],
        }
    }

    pub fn from_token(token_type: TokenKind) -> (r: Result<Type, Error>)
        ensures
            r is Ok <==> type_of_token(token_type) is Some,
            r matches Ok(t) ==> type_of_token(token_type) == Some(t),
            r matches Err(e) ==> (e matches Error::Msg(m) && m@ == "Invalid Type"@),
    {
        match token_type {
            TokenKind::KwInt => Ok(Type::Integer),
            TokenKind::KwFloat => Ok(Type::Float),
            TokenKind::KwChar => Ok(Type::Char),
            TokenKind::KwDouble => Ok(Type::Double),
            TokenKind::KwBool => Ok(Type::Bool),
            _ => Err(Error::Msg(String::from_str("Invalid Type"))),
        }
    }

    pub fn is_type(&self, value: TokenKind) -> (r: bool)
        ensures
            r == (type_of_token(value) == Some(*self)),
    {
        match value {
            TokenKind::KwInt => *self == Type::Integer,
            TokenKind::KwFloat => *self == Type::Float,
            TokenKind::KwChar => *self == Type::Char,
            TokenKind::KwDouble => *self == Type::Double,
            TokenKind::KwBool => *self == Type::Bool,
            _ => false,
        }
    }

    pub fn is_correct_literal(&self, value: &Lit) -> (r: bool)
        ensures
            r == self.accepts(value.kind()),
    {
        match value {
            Lit::Int(_) => *self == Type::Integer,
            Lit::Bool(_) => *self == Type::Bool,
            Lit::Float(_) => *self == Type::Float || *self == Type::Double,
            Lit::Char(_) => *self == Type::Char,
        }
    }

    pub fn get_size(&self) -> (r: usize)
        ensures
            r == self.size(),
    {
        match self {
            Type::Integer => 4,
            Type::Float => 4,
            Type::Char => 1,
            Type::Double => 8,
            Type::Bool => 1,
        }
    }

    pub fn get_garbage_value(&self) -> (r: String)
        ensures
            r@ == self.garbage_text(),
    {
        proof {
            reveal_strlit("0");
            reveal_strlit("0.0");
            reveal_strlit("'\\0'");
            reveal_strlit("false");
        }
        match self {
            Type::Integer => String::from_str("0"),
            Type::Float => String::from_str("0.0"),
            Type::Char => String::from_str("'\\0'"),
            Type::Double => String::from_str("0.0"),
            Type::Bool => String::from_str("false"),
        }
    }
}

} // verus!
