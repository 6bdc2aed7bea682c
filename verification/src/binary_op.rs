use vstd::prelude::*;

use crate::analysis::types::Operator;
use crate::parser::types::Precedence;
use crate::token::TokenType;

verus! {

/// The binary operators of the source language.
#[derive(Debug, Clone, Copy, PartialEq, Eq, Structural)]
pub enum BinaryOp {
    Add,
    Sub,
    Mul,
    Div,
    Equal,
    NotEqual,
    Less,
    LessEqual,
    Greater,
    GreaterEqual,
    And,
    Or,
}

/// The tokens that stand for a binary operator.
pub open spec fn is_binary_token(ty: TokenType) -> bool {
    ty == TokenType::Plus || ty == TokenType::Minus || ty == TokenType::Star || ty
        == TokenType::Slash || ty == TokenType::EqualEqual || ty == TokenType::BangEqual || ty
        == TokenType::Less || ty == TokenType::LessEqual || ty == TokenType::Greater || ty
        == TokenType::GreaterEqual || ty == TokenType::And || ty == TokenType::Or
}

/// The operator a binary-operator token stands for.
pub open spec fn op_of_token(ty: TokenType) -> BinaryOp
    recommends
        is_binary_token(ty),
{
    match ty {
        TokenType::Plus => BinaryOp::Add,
        TokenType::Minus => BinaryOp::Sub,
        TokenType::Star => BinaryOp::Mul,
        TokenType::Slash => BinaryOp::Div,
        TokenType::EqualEqual => BinaryOp::Equal,
        TokenType::BangEqual => BinaryOp::NotEqual,
        TokenType::Less => BinaryOp::Less,
        TokenType::LessEqual => BinaryOp::LessEqual,
        TokenType::Greater => BinaryOp::Greater,
        TokenType::GreaterEqual => BinaryOp::GreaterEqual,
        TokenType::And => BinaryOp::And,
        _ => BinaryOp::Or,
    }
}

/// The operator of the semantic analysis that a binary operator stands for.
pub open spec fn operator_of(op: BinaryOp) -> Operator {
    match op {
        BinaryOp::Add => Operator::Add,
        BinaryOp::Sub => Operator::Sub,
        BinaryOp::Mul => Operator::Mul,
        BinaryOp::Div => Operator::Div,
        BinaryOp::Equal => Operator::Equal,
        BinaryOp::NotEqual => Operator::NotEqual,
        BinaryOp::Less => Operator::Less,
        BinaryOp::LessEqual => Operator::LessEqual,
        BinaryOp::Greater => Operator::Greater,
        BinaryOp::GreaterEqual => Operator::GreaterEqual,
        BinaryOp::And => Operator::And,
        BinaryOp::Or => Operator::Or,
    }
}

/// The binding power of a binary operator.
pub open spec fn precedence_of(op: BinaryOp) -> Precedence {
    match op {
        BinaryOp::Add | BinaryOp::Sub => Precedence::Term,
        BinaryOp::Mul | BinaryOp::Div => Precedence::Factor,
        BinaryOp::Equal | BinaryOp::NotEqual => Precedence::Equality,
        BinaryOp::Less | BinaryOp::LessEqual | BinaryOp::Greater | BinaryOp::GreaterEqual =>
            Precedence::Comparison,
        BinaryOp::And => Precedence::And,
        BinaryOp::Or => Precedence::Or,
    }
}

/// Distinct binary operators stay distinct as operators of the analysis.
pub proof fn lemma_operator_injective(a: BinaryOp, b: BinaryOp)
    ensures
        operator_of(a) == operator_of(b) ==> a == b,
{
}

/// Every binary operator is read from exactly one token.
pub proof fn lemma_token_op_bijective(a: TokenType, b: TokenType)
    requires
        is_binary_token(a),
        is_binary_token(b),
    ensures
        op_of_token(a) == op_of_token(b) <==> a == b,
{
}

impl BinaryOp {
    /// The operator a binary-operator token stands for.
    pub fn from_token_type(ty: TokenType) -> (r: Self)
        requires
            is_binary_token(ty),
        ensures
            r == op_of_token(ty),
    {
        match ty {
            TokenType::Plus => BinaryOp::Add,
            TokenType::Minus => BinaryOp::Sub,
            TokenType::Star => BinaryOp::Mul,
            TokenType::Slash => BinaryOp::Div,
            TokenType::EqualEqual => BinaryOp::Equal,
            TokenType::BangEqual => BinaryOp::NotEqual,
            TokenType::Less => BinaryOp::Less,
            TokenType::LessEqual => BinaryOp::LessEqual,
            TokenType::Greater => BinaryOp::Greater,
            TokenType::GreaterEqual => BinaryOp::GreaterEqual,
            TokenType::And => BinaryOp::And,
            _ => BinaryOp::Or,
        }
    }

    pub fn to_operator(self) -> (r: Operator)
        ensures
            r == operator_of(self),
    {
        match self {
            BinaryOp::Add => Operator::Add,
            BinaryOp::Sub => Operator::Sub,
            BinaryOp::Mul => Operator::Mul,
            BinaryOp::Div => Operator::Div,
            BinaryOp::Equal => Operator::Equal,
            BinaryOp::NotEqual => Operator::NotEqual,
            BinaryOp::Less => Operator::Less,
            BinaryOp::LessEqual => Operator::LessEqual,
            BinaryOp::Greater => Operator::Greater,
            BinaryOp::GreaterEqual => Operator::GreaterEqual,
            BinaryOp::And => Operator::And,
            BinaryOp::Or => Operator::Or,
        }
    }

    pub fn get_precedency(self) -> (r: Precedence)
        ensures
            r == precedence_of(self),
    {
        match self {
            BinaryOp::Add | BinaryOp::Sub => Precedence::Term,
            BinaryOp::Mul | BinaryOp::Div => Precedence::Factor,
            BinaryOp::Equal | BinaryOp::NotEqual => Precedence::Equality,
            BinaryOp::Less | BinaryOp::LessEqual | BinaryOp::Greater | BinaryOp::GreaterEqual =>
                Precedence::Comparison,
            BinaryOp::And => Precedence::And,
            BinaryOp::Or => Precedence::Or,
        }
    }
}

} // verus!
