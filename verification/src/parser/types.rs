use vstd::prelude::*;

use crate::binary_op::{is_binary_token, op_of_token, precedence_of, BinaryOp};
use crate::token::TokenType;

verus! {

/// Binding power of operators, from loosest to tightest.
#[derive(Debug, Clone, Copy, PartialEq, Eq, Structural)]
pub enum Precedence {
    Primary,
    Assignment,
    Or,
    And,
    Equality,
    Comparison,
    Term,
    Factor,
    Cast,
    Unary,
    Call,
}

/// The position of a precedence in the order from loosest to tightest.
pub open spec fn level_of(p: Precedence) -> u8 {
    match p {
        Precedence::Primary => 0,
        Precedence::Assignment => 1,
        Precedence::Or => 2,
        Precedence::And => 3,
        Precedence::Equality => 4,
        Precedence::Comparison => 5,
        Precedence::Term => 6,
        Precedence::Factor => 7,
        Precedence::Cast => 8,
        Precedence::Unary => 9,
        Precedence::Call => 10,
    }
}

/// The precedence one step tighter (`Call` wraps around to `Primary`).
pub open spec fn next_precedence(p: Precedence) -> Precedence {
    match p {
        Precedence::Assignment => Precedence::Or,
        Precedence::Or => Precedence::And,
        Precedence::And => Precedence::Equality,
        Precedence::Equality => Precedence::Comparison,
        Precedence::Comparison => Precedence::Term,
        Precedence::Term => Precedence::Factor,
        Precedence::Factor => Precedence::Cast,
        Precedence::Cast => Precedence::Unary,
        Precedence::Unary => Precedence::Call,
        Precedence::Call => Precedence::Primary,
        Precedence::Primary => Precedence::Primary,
    }
}

impl Precedence {
    pub fn to_next_precedency(self) -> (r: Self)
        ensures
            r == next_precedence(self),
    {
        match self {
            Precedence::Assignment => Precedence::Or,
            Precedence::Or => Precedence::And,
            Precedence::And => Precedence::Equality,
            Precedence::Equality => Precedence::Comparison,
            Precedence::Comparison => Precedence::Term,
            Precedence::Term => Precedence::Factor,
            Precedence::Factor => Precedence::Cast,
            Precedence::Cast => Precedence::Unary,
            Precedence::Unary => Precedence::Call,
            Precedence::Call => Precedence::Primary,
            Precedence::Primary => Precedence::Primary,
        }
    }

    /// The position of the precedence in the order from loosest to tightest.
    pub fn level(self) -> (r: u8)
        ensures
            r == level_of(self),
    {
        match self {
            Precedence::Primary => 0,
            Precedence::Assignment => 1,
            Precedence::Or => 2,
            Precedence::And => 3,
            Precedence::Equality => 4,
            Precedence::Comparison => 5,
            Precedence::Term => 6,
            Precedence::Factor => 7,
            Precedence::Cast => 8,
            Precedence::Unary => 9,
            Precedence::Call => 10,
        }
    }

    /// The precedence at a given position of the order.
    pub fn from_u8(value: u8) -> (r: Self)
        requires
            value <= 10,
        ensures
            level_of(r) == value,
    {
        match value {
            0 => Precedence::Primary,
            1 => Precedence::Assignment,
            2 => Precedence::Or,
            3 => Precedence::And,
            4 => Precedence::Equality,
            5 => Precedence::Comparison,
            6 => Precedence::Term,
            7 => Precedence::Factor,
            8 => Precedence::Cast,
            9 => Precedence::Unary,
            _ => Precedence::Call,
        }
    }

    /// The next precedence binds one step tighter, except after the tightest
    /// (`Call`) and the loosest (`Primary`), which both lead to `Primary`.
    pub proof fn lemma_next_is_one_tighter(p: Precedence)
        ensures
            p != Precedence::Call && p != Precedence::Primary ==> level_of(next_precedence(p))
                == level_of(p) + 1,
            p == Precedence::Call || p == Precedence::Primary ==> next_precedence(p)
                == Precedence::Primary,
    {
    }

    /// Levels tell precedences apart: `from_u8` undoes `level`.
    pub proof fn lemma_level_injective(p: Precedence, q: Precedence)
        ensures
            level_of(p) == level_of(q) <==> p == q,
    {
    }
}

/// The way a token can begin or continue an expression.
#[derive(Debug, Clone, Copy, PartialEq, Eq, Structural)]
pub enum FnType {
    Empty,
    Grouping,
    Array,
    Unary,
    Binary,
    Cast,
    Number,
    String,
    Literal,
    Var,
    Call,
    Index,
    Dot,
    DoubleColon,
    This,
}

/// How a token is parsed: as a prefix, as an infix, and how tightly it binds.
#[derive(Debug, Clone, Copy, PartialEq, Eq, Structural)]
pub struct ParseRule {
    pub prefix: FnType,
    pub infix: FnType,
    pub precedence: Precedence,
}

impl ParseRule {
    pub fn new(prefix: FnType, infix: FnType, precedence: Precedence) -> (r: Self)
        ensures
            r == (ParseRule { prefix, infix, precedence }),
    {
        ParseRule { prefix, infix, precedence }
    }
}

/// The parse rule of each kind of token.
pub open spec fn rule_of(ty: TokenType) -> ParseRule {
    let (prefix, infix, precedence) = match ty {
        TokenType::LeftParen => (FnType::Grouping, FnType::Call, Precedence::Call),
        TokenType::LeftBracket => (FnType::Array, FnType::Index, Precedence::Call),
        TokenType::Dot => (FnType::Empty, FnType::Dot, Precedence::Call),
        TokenType::DoubleColon => (FnType::Empty, FnType::DoubleColon, Precedence::Call),
        TokenType::Minus => (FnType::Unary, FnType::Binary, Precedence::Term),
        TokenType::Plus => (FnType::Empty, FnType::Binary, Precedence::Term),
        TokenType::Slash | TokenType::Star => (FnType::Empty, FnType::Binary, Precedence::Factor),
        TokenType::Bang => (FnType::Unary, FnType::Empty, Precedence::Factor),
        TokenType::EqualEqual | TokenType::BangEqual => (
            FnType::Empty,
            FnType::Binary,
            Precedence::Equality,
        ),
        TokenType::Greater | TokenType::GreaterEqual | TokenType::Less | TokenType::LessEqual => (
            FnType::Empty,
            FnType::Binary,
            Precedence::Comparison,
        ),
        TokenType::Identifier => (FnType::Var, FnType::Empty, Precedence::Primary),
        TokenType::StringLit => (FnType::String, FnType::Empty, Precedence::Primary),
        TokenType::Num => (FnType::Number, FnType::Empty, Precedence::Primary),
        TokenType::As => (FnType::Number, FnType::Cast, Precedence::Cast),
        TokenType::And => (FnType::Empty, FnType::Binary, Precedence::And),
        TokenType::Or => (FnType::Empty, FnType::Binary, Precedence::Or),
        TokenType::False | TokenType::True | TokenType::Null => (
            FnType::Literal,
            FnType::Empty,
            Precedence::Primary,
        ),
        TokenType::This => (FnType::This, FnType::Empty, Precedence::Primary),
        _ => (FnType::Empty, FnType::Empty, Precedence::Primary),
    };
    ParseRule { prefix, infix, precedence }
}

/// The tokens parsed as binary operators are exactly the tokens that stand
/// for a binary operator, so reading one never fails, and each binds as
/// tightly as the operator it stands for.
pub proof fn lemma_binary_infix_tokens(ty: TokenType)
    ensures
        rule_of(ty).infix == FnType::Binary <==> is_binary_token(ty),
        is_binary_token(ty) ==> rule_of(ty).precedence == precedence_of(op_of_token(ty)),
{
}

/// Only tokens that can stand at the start of a statement-level expression
/// have a prefix rule: type names and keywords other than literals have none.
pub proof fn lemma_prefix_tokens(ty: TokenType)
    ensures
        rule_of(ty).prefix != FnType::Empty <==> (ty == TokenType::LeftParen || ty
            == TokenType::LeftBracket || ty == TokenType::Minus || ty == TokenType::Bang || ty
            == TokenType::Identifier || ty == TokenType::StringLit || ty == TokenType::Num || ty
            == TokenType::As || ty == TokenType::True || ty == TokenType::False || ty
            == TokenType::Null || ty == TokenType::This),
{
}

/// Operators that multiply or divide.
pub open spec fn multiplicative(op: BinaryOp) -> bool {
    op == BinaryOp::Mul || op == BinaryOp::Div
}

/// Operators that add or subtract.
pub open spec fn additive(op: BinaryOp) -> bool {
    op == BinaryOp::Add || op == BinaryOp::Sub
}

/// Operators that order two values.
pub open spec fn ordering(op: BinaryOp) -> bool {
    op == BinaryOp::Less || op == BinaryOp::LessEqual || op == BinaryOp::Greater || op
        == BinaryOp::GreaterEqual
}

/// Operators that test equality.
pub open spec fn equating(op: BinaryOp) -> bool {
    op == BinaryOp::Equal || op == BinaryOp::NotEqual
}

/// How tightly `op` binds.
pub open spec fn binds(op: BinaryOp) -> int {
    level_of(precedence_of(op)) as int
}

/// The binary operators bind in the usual order: `*` and `/` alike and
/// tighter than `+` and `-`, which bind alike and tighter than the orderings,
/// which bind alike and tighter than `==` and `!=`, which bind alike and
/// tighter than `&&`, which binds tighter than `||`. Every binary operator
/// binds tighter than an assignment and looser than a cast or a unary
/// operator. So `a - b / c` reads as `a - (b / c)` and `a < b == c < d` as
/// `(a < b) == (c < d)`.
pub proof fn lemma_operator_binding(a: BinaryOp, b: BinaryOp)
    ensures
        (multiplicative(a) && multiplicative(b)) || (additive(a) && additive(b)) || (ordering(a)
            && ordering(b)) || (equating(a) && equating(b)) ==> binds(a) == binds(b),
        multiplicative(a) && additive(b) ==> binds(a) > binds(b),
        additive(a) && ordering(b) ==> binds(a) > binds(b),
        ordering(a) && equating(b) ==> binds(a) > binds(b),
        equating(a) && b == BinaryOp::And ==> binds(a) > binds(b),
        a == BinaryOp::And && b == BinaryOp::Or ==> binds(a) > binds(b),
        level_of(Precedence::Assignment) < binds(a) < level_of(Precedence::Cast),
{
}

/// The operator tokens bind as their operators do: `*` and `/` alike and
/// tighter than `+` and `-`, which bind alike and tighter than the
/// comparison tokens.
pub proof fn lemma_token_binding(t1: TokenType, t2: TokenType)
    ensures
        (t1 == TokenType::Star || t1 == TokenType::Slash) && (t2 == TokenType::Star || t2
            == TokenType::Slash) ==> rule_of(t1).precedence == rule_of(t2).precedence,
        (t1 == TokenType::Plus || t1 == TokenType::Minus) && (t2 == TokenType::Plus || t2
            == TokenType::Minus) ==> rule_of(t1).precedence == rule_of(t2).precedence,
        (t1 == TokenType::Star || t1 == TokenType::Slash) && (t2 == TokenType::Plus || t2
            == TokenType::Minus) ==> level_of(rule_of(t1).precedence) > level_of(
            rule_of(t2).precedence,
        ),
        (t1 == TokenType::Plus || t1 == TokenType::Minus) && (t2 == TokenType::Less || t2
            == TokenType::LessEqual || t2 == TokenType::Greater || t2 == TokenType::GreaterEqual)
            ==> level_of(rule_of(t1).precedence) > level_of(rule_of(t2).precedence),
        (t1 == TokenType::Less || t1 == TokenType::LessEqual || t1 == TokenType::Greater || t1
            == TokenType::GreaterEqual) && (t2 == TokenType::EqualEqual || t2
            == TokenType::BangEqual) ==> level_of(rule_of(t1).precedence) > level_of(
            rule_of(t2).precedence,
        ),
{
}

impl TokenType {
    /// How tokens of this kind are parsed.
    pub fn to_parse_rule(self) -> (r: ParseRule)
        ensures
            r == rule_of(self),
    {
        match self {
            TokenType::LeftParen => ParseRule::new(FnType::Grouping, FnType::Call, Precedence::Call),
            TokenType::LeftBracket => ParseRule::new(
                FnType::Array,
                FnType::Index,
                Precedence::Call,
            ),
            TokenType::Dot => ParseRule::new(FnType::Empty, FnType::Dot, Precedence::Call),
            TokenType::DoubleColon => ParseRule::new(
                FnType::Empty,
                FnType::DoubleColon,
                Precedence::Call,
            ),
            TokenType::Minus => ParseRule::new(FnType::Unary, FnType::Binary, Precedence::Term),
            TokenType::Plus => ParseRule::new(FnType::Empty, FnType::Binary, Precedence::Term),
            TokenType::Slash | TokenType::Star => ParseRule::new(
                FnType::Empty,
                FnType::Binary,
                Precedence::Factor,
            ),
            TokenType::Bang => ParseRule::new(FnType::Unary, FnType::Empty, Precedence::Factor),
            TokenType::EqualEqual | TokenType::BangEqual => ParseRule::new(
                FnType::Empty,
                FnType::Binary,
                Precedence::Equality,
            ),
            TokenType::Greater | TokenType::GreaterEqual | TokenType::Less
            | TokenType::LessEqual => ParseRule::new(
                FnType::Empty,
                FnType::Binary,
                Precedence::Comparison,
            ),
            TokenType::Identifier => ParseRule::new(FnType::Var, FnType::Empty, Precedence::Primary),
            TokenType::StringLit => ParseRule::new(
                FnType::String,
                FnType::Empty,
                Precedence::Primary,
            ),
            TokenType::Num => ParseRule::new(FnType::Number, FnType::Empty, Precedence::Primary),
            TokenType::As => ParseRule::new(FnType::Number, FnType::Cast, Precedence::Cast),
            TokenType::And => ParseRule::new(FnType::Empty, FnType::Binary, Precedence::And),
            TokenType::Or => ParseRule::new(FnType::Empty, FnType::Binary, Precedence::Or),
            TokenType::False | TokenType::True | TokenType::Null => ParseRule::new(
                FnType::Literal,
                FnType::Empty,
                Precedence::Primary,
            ),
            TokenType::This => ParseRule::new(FnType::This, FnType::Empty, Precedence::Primary),
            _ => ParseRule::new(FnType::Empty, FnType::Empty, Precedence::Primary),
        }
    }
}

} // verus!
