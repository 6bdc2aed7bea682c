use vstd::prelude::*;

use crate::analysis::analyse_expr::literal_type;
use crate::value::ValueType;

verus! {

/// The kinds of tokens that the scanner produces.
#[derive(Debug, Clone, Copy, PartialEq, Eq, Structural)]
pub enum TokenType {
    // single-character punctuation
    LeftParen,
    RightParen,
    LeftBracket,
    RightBracket,
    LeftBrace,
    RightBrace,
    Comma,
    Dot,
    Colon,
    DoubleColon,
    Semicolon,
    // operators
    Minus,
    Plus,
    Slash,
    Star,
    Bang,
    BangEqual,
    Equal,
    EqualEqual,
    Greater,
    GreaterEqual,
    Less,
    LessEqual,
    PlusEqual,
    MinEqual,
    MulEqual,
    DivEqual,
    // literals
    Identifier,
    StringLit,
    Num,
    // keywords
    And,
    Or,
    As,
    If,
    Else,
    While,
    For,
    In,
    To,
    Fn,
    Return,
    Break,
    Continue,
    Struct,
    Enum,
    This,
    Print,
    True,
    False,
    Null,
    // type names
    Bool,
    F64,
    I64,
    U64,
    Str,
    Eof,
}

/// The literal value a token carries.
///
/// A floating-point literal is carried as the bit pattern of its IEEE 754
/// binary64 value (what `f64::to_bits` gives).
#[derive(Debug)]
pub enum Literal {
    Str(String),
    F64(u64),
    I64(i64),
    U64(u64),
    True,
    False,
    Null,
}

impl Clone for Literal {
    fn clone(&self) -> (r: Self)
        ensures
            r == *self,
    {
        match self {
            Literal::Str(s) => Literal::Str(s.clone()),
            Literal::F64(n) => Literal::F64(*n),
            Literal::I64(n) => Literal::I64(*n),
            Literal::U64(n) => Literal::U64(*n),
            Literal::True => Literal::True,
            Literal::False => Literal::False,
            Literal::Null => Literal::Null,
        }
    }
}

impl Literal {
    /// Whether the literal is a number.
    pub open spec fn is_number(self) -> bool {
        self is F64 || self is I64 || self is U64
    }
}

/// A token of the source text.
#[derive(Debug)]
pub struct Token {
    pub ty: TokenType,
    pub lexeme: String,
    pub literal: Literal,
    pub line: u32,
}

impl Clone for Token {
    fn clone(&self) -> (r: Self)
        ensures
            r == *self,
    {
        Token { ty: self.ty, lexeme: self.lexeme.clone(), literal: self.literal.clone(), line: self.line }
    }
}

/// The type that a token names when it stands where a type is expected.
pub open spec fn value_type_of(token: Token) -> Option<ValueType> {
    match token.ty {
        TokenType::Bool => Some(ValueType::Bool),
        TokenType::F64 => Some(ValueType::F64),
        TokenType::I64 => Some(ValueType::I64),
        TokenType::U64 => Some(ValueType::U64),
        TokenType::Str => Some(ValueType::Str),
        TokenType::Identifier => Some(ValueType::UnknownType(token.lexeme)),
        _ => None,
    }
}

/// The keyword that names the type of the literals of `lit`'s kind: `bool`
/// for `true` and `false`, `i64`, `u64` and `f64` for numbers of those
/// types, `str` for strings.
pub open spec fn keyword_of_literal(ty: TokenType, lit: Literal) -> bool {
    match lit {
        Literal::True | Literal::False => ty == TokenType::Bool,
        Literal::I64(_) => ty == TokenType::I64,
        Literal::U64(_) => ty == TokenType::U64,
        Literal::F64(_) => ty == TokenType::F64,
        Literal::Str(_) => ty == TokenType::Str,
        Literal::Null => false,
    }
}

/// The tokens that are built-in type names.
pub open spec fn type_keyword(ty: TokenType) -> bool {
    ty == TokenType::Bool || ty == TokenType::F64 || ty == TokenType::I64 || ty == TokenType::U64
        || ty == TokenType::Str
}

/// Each built-in type keyword names the type the type checker gives the
/// literals of its kind, so that `bool b = true;` or `u64 n = 1;` declares a
/// variable of its value's type; distinct keywords name distinct types, a
/// name stands for a user type of that name, and no other token names a
/// type.
pub proof fn lemma_type_keywords(t1: Token, t2: Token, lit: Literal)
    ensures
        keyword_of_literal(t1.ty, lit) ==> value_type_of(t1) == Some(literal_type(lit)),
        type_keyword(t1.ty) && type_keyword(t2.ty) && value_type_of(t1) == value_type_of(t2)
            ==> t1.ty == t2.ty,
        type_keyword(t1.ty) ==> value_type_of(t1) is Some && !(value_type_of(t1)->0 is UnknownType),
        t1.ty == TokenType::Identifier ==> value_type_of(t1) == Some(ValueType::UnknownType(t1.lexeme)),
        !type_keyword(t1.ty) && t1.ty != TokenType::Identifier ==> value_type_of(t1) is None,
{
}

impl Token {
    pub fn new(ty: TokenType, lexeme: String, literal: Literal, line: u32) -> (r: Token)
        ensures
            r == (Token { ty, lexeme, literal, line }),
    {
        Token { ty, lexeme, literal, line }
    }

    /// The type named by this token: a built-in type keyword, or an identifier
    /// that names a user type (still to be resolved).
    pub fn as_value_type(&self) -> (r: Option<ValueType>)
        ensures
            r == value_type_of(*self),
    {
        match self.ty {
            TokenType::Bool => Some(ValueType::Bool),
            TokenType::F64 => Some(ValueType::F64),
            TokenType::I64 => Some(ValueType::I64),
            TokenType::U64 => Some(ValueType::U64),
            TokenType::Str => Some(ValueType::Str),
            TokenType::Identifier => Some(ValueType::UnknownType(self.lexeme.clone())),
            _ => None,
        }
    }
}

} // verus!
