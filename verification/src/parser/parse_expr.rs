use vstd::prelude::*;

use super::grammar::{
    chain_form, derives, expr_form, infix_form, lemma_list_head_close, lemma_list_head_last,
    lemma_list_head_push, list_form, list_head, prefix_form, value_prefix, Goal, Wit,
};
use super::types::{level_of, next_precedence, rule_of, FnType, Precedence};
use super::Parser;
use crate::binary_op::{is_binary_token, op_of_token, precedence_of, BinaryOp};
use crate::error::ParseErr;
use crate::expression::{same_expr, Expr, ExprType};
use crate::token::{value_type_of, Literal, Token, TokenType};
use crate::value::ValueType;

verus! {

/// Prefix rules that read a further expression before any other token.
pub open spec fn is_recursive_prefix(f: FnType) -> bool {
    f == FnType::Grouping || f == FnType::Array || f == FnType::Unary
}

/// The compound assignment tokens and the operators they apply.
pub open spec fn is_compound_assign(ty: TokenType) -> bool {
    ty == TokenType::PlusEqual || ty == TokenType::MinEqual || ty == TokenType::MulEqual || ty
        == TokenType::DivEqual
}

/// The operator a compound assignment token stands for.
pub open spec fn compound_op(ty: TokenType) -> BinaryOp {
    match ty {
        TokenType::PlusEqual => BinaryOp::Add,
        TokenType::MinEqual => BinaryOp::Sub,
        TokenType::MulEqual => BinaryOp::Mul,
        _ => BinaryOp::Div,
    }
}

/// An expression of the given kind on the given line, not yet typed.
pub open spec fn expr_of(expr: ExprType, line: u32) -> Expr {
    Expr { expr, line, end_ty: ValueType::Any }
}

/// A token that is a whole operand by itself: a number, a string, `true`,
/// `false`, `null`, `this`, or a name.
pub open spec fn operand_token(t: Token) -> bool {
    ||| t.ty == TokenType::Num && t.literal.is_number()
    ||| t.ty == TokenType::StringLit && t.literal is Str
    ||| t.ty == TokenType::True
    ||| t.ty == TokenType::False
    ||| t.ty == TokenType::Null
    ||| t.ty == TokenType::This
    ||| t.ty == TokenType::Identifier
}

/// The expression an operand token stands for, on the token's line.
pub open spec fn operand_expr(t: Token) -> Expr {
    expr_of(
        match t.ty {
            TokenType::Num | TokenType::StringLit => ExprType::Lit(t.literal),
            TokenType::True => ExprType::Lit(Literal::True),
            TokenType::False => ExprType::Lit(Literal::False),
            TokenType::Null => ExprType::Lit(Literal::Null),
            TokenType::This => ExprType::This,
            _ => ExprType::Identifier(t.lexeme),
        },
        t.line,
    )
}

/// A token before which an expression ends: no operator rule continues the
/// expression with it, and it assigns nothing.
pub open spec fn ends_expr(ty: TokenType) -> bool {
    level_of(rule_of(ty).precedence) == 0 && ty != TokenType::Equal && !is_compound_assign(ty)
}

/// `name op= value` read as `name = name op value`, on the given line.
pub open spec fn compound_assign(name: String, line: u32, op: BinaryOp, value: Expr) -> ExprType {
    ExprType::Assign {
        name,
        new_value: Box::new(
            expr_of(
                ExprType::Binary {
                    left: Box::new(expr_of(ExprType::Identifier(name), line)),
                    op,
                    right: Box::new(value),
                },
                line,
            ),
        ),
    }
}

/// The arguments of a call expression.
pub open spec fn call_args(e: ExprType) -> Seq<Expr> {
    match e {
        ExprType::FuncCall { args, .. } => args@,
        ExprType::MethodCall { args, .. } => args@,
        _ => Seq::empty(),
    }
}

/// An operand standing alone at position `p`: an operand token followed by a
/// token before which the expression ends.
pub open spec fn lone_operand(toks: Seq<Token>, p: int) -> bool {
    &&& 0 <= p
    &&& p + 1 < toks.len()
    &&& operand_token(toks[p])
    &&& ends_expr(toks[p + 1].ty)
}

/// `k` operands standing alone from `p` on, separated by commas and closed
/// by `)`: the `i`-th at `p + 2 * i`.
pub open spec fn lone_args_at(toks: Seq<Token>, p: int, k: int) -> bool {
    &&& 0 <= p
    &&& 1 <= k
    &&& p + 2 * k < toks.len()
    &&& forall|i: int|
        0 <= i < k ==> #[trigger] operand_token(toks[p + 2 * i]) && toks[p + 2 * i + 1].ty == (if i
            + 1 < k {
            TokenType::Comma
        } else {
            TokenType::RightParen
        })
}

/// A list of operands has one length.
pub proof fn lemma_lone_args_unique(toks: Seq<Token>, p: int, k1: int, k2: int)
    requires
        lone_args_at(toks, p, k1),
        lone_args_at(toks, p, k2),
    ensures
        k1 == k2,
{
    if k1 < k2 {
        assert(operand_token(toks[p + 2 * (k1 - 1)]));
    } else if k2 < k1 {
        assert(operand_token(toks[p + 2 * (k2 - 1)]));
    }
}

/// The termination measure's rank of the prefix rule that the token just
/// read selects: rules that parse further expressions rank higher.
pub(crate) open spec fn prefix_rank(p: Parser) -> nat {
    if is_recursive_prefix(rule_of(p.prev_tok().ty).prefix) {
        20
    } else {
        2
    }
}

/// The termination measure's rank of running a prefix rule.
pub open spec fn exec_prefix_rank(f: FnType) -> nat {
    if is_recursive_prefix(f) {
        19
    } else {
        1
    }
}

impl Parser {
    /// Parses an expression.
    pub(super) fn expression(&mut self) -> (r: Result<Expr, ParseErr>)
        requires
            old(self).inv(),
            old(self).started(),
        ensures
            final(self).moved_on(*old(self)),
            !old(self).at_eof() ==> final(self).current_token > old(self).current_token,
            lone_operand(old(self).tokens@, old(self).cur()) ==> r == Ok::<Expr, ParseErr>(
                operand_expr(old(self).next_tok()),
            ) && final(self).current_token == old(self).current_token + 1,
            r matches Ok(e) ==> (!old(self).at_eof() ==> expr_form(old(self).tokens@, old(self).cur(), final(self).cur(), Precedence::Assignment, e)),
            old(self).at_eof() && !value_prefix(rule_of(old(self).prev_tok().ty).prefix) ==> r is Err,
        decreases old(self).measure(), 11nat,
    {
        self.parse_precedence(Precedence::Assignment)
    }

    /// Parses what the prefix rule `fn_type` of the token read last stands for.
    pub(super) fn execute_prefix(&mut self, fn_type: FnType, can_assign: bool) -> (r: Result<
        Expr,
        ParseErr,
    >)
        requires
            old(self).inv(),
            old(self).current_token >= 1,
            fn_type == rule_of(old(self).prev_tok().ty).prefix,
            fn_type != FnType::Empty,
        ensures
            final(self).moved_on(*old(self)),
            operand_token(old(self).prev_tok()) && ends_expr(old(self).next_tok().ty) ==> r
                == Ok::<Expr, ParseErr>(operand_expr(old(self).prev_tok())) && *final(self)
                == *old(self),
            fn_type == FnType::Number && !old(self).prev_tok().literal.is_number() ==> (r matches Err(
                e,
            ) && e.msg@ == "Expected expression."@ && e.line == old(self).prev_tok().line),
            fn_type == FnType::Unary ==> (r matches Ok(e) ==> (e.expr matches ExprType::Unary {
                prefix,
                ..
            } && prefix == old(self).prev_tok().ty)),
            fn_type == FnType::Array ==> (r matches Ok(e) ==> e.expr is Array
                && final(self).prev_tok().ty == TokenType::RightBracket),
            fn_type == FnType::Grouping ==> (r is Ok ==> final(self).prev_tok().ty
                == TokenType::RightParen),
            fn_type == FnType::Grouping && lone_operand(old(self).tokens@, old(self).cur()) && old(
                self,
            ).tok(old(self).cur() + 1).ty == TokenType::RightParen ==> r == Ok::<Expr, ParseErr>(
                operand_expr(old(self).next_tok()),
            ),
            fn_type == FnType::Unary && lone_operand(old(self).tokens@, old(self).cur()) ==> r
                == Ok::<Expr, ParseErr>(
                expr_of(
                    ExprType::Unary {
                        prefix: old(self).prev_tok().ty,
                        value: Box::new(operand_expr(old(self).next_tok())),
                    },
                    old(self).next_tok().line,
                ),
            ),
            fn_type == FnType::Array && old(self).next_tok().ty == TokenType::RightBracket ==> (r
                matches Ok(e) && e.expr matches ExprType::Array(v) && v@ == Seq::<Expr>::empty()),
            fn_type == FnType::Var && can_assign && old(self).next_tok().ty == TokenType::Equal ==> (
            r matches Ok(e) ==> (e.expr matches ExprType::Assign { name, .. } && name == old(
                self,
            ).prev_tok().lexeme)),
            r matches Ok(e) ==> prefix_form(old(self).tokens@, old(self).cur() - 1, final(self).cur(), can_assign, e),
        decreases old(self).measure(), exec_prefix_rank(fn_type),
    {
        let ghost p = old(self).cur() - 1;
        let r = match fn_type {
            FnType::Grouping => self.grouping(),
            FnType::Array => self.array(),
            FnType::Unary => self.unary(),
            FnType::Number => self.number(),
            FnType::String => self.string(),
            FnType::Literal => self.literal(),
            FnType::Var => self.var(can_assign),
            FnType::This => self.this(),
            _ => {
                proof {
                    assert(false);
                }
                Err(ParseErr::new(self.previous().line, "Expected expression."))
            },
        };
        proof {
            let toks = old(self).tokens@;
            let q = self.cur();
            if r is Ok {
                let e = r->Ok_0;
                let g = Goal::Prefix { ca: can_assign, e };
                match fn_type {
                    FnType::Grouping => {
                        let w = choose|w: Wit| #[trigger] derives(
                            toks,
                            Goal::Expr { lvl: Precedence::Assignment, e },
                            p + 1,
                            q - 1,
                            w,
                        );
                        assert(derives(toks, g, p, q, Wit::One(Box::new(w))));
                    },
                    FnType::Unary => {
                        if let ExprType::Unary { value, .. } = e.expr {
                            let w = choose|w: Wit| #[trigger] derives(
                                toks,
                                Goal::Expr { lvl: Precedence::Unary, e: *value },
                                p + 1,
                                q,
                                w,
                            );
                            assert(derives(toks, g, p, q, Wit::One(Box::new(w))));
                        }
                    },
                    FnType::Array => {
                        if let ExprType::Array(v) = e.expr {
                            let w = choose|w: Wit| #[trigger] derives(
                                toks,
                                Goal::List { items: v@, close: TokenType::RightBracket },
                                p + 1,
                                q,
                                w,
                            );
                            assert(derives(toks, g, p, q, Wit::One(Box::new(w))));
                        }
                    },
                    FnType::Var => {},
                    _ => {
                        assert(derives(toks, g, p, q, Wit::Leaf));
                    },
                }
            }
        }
        r
    }

    /// Parses what the infix rule `fn_type` of the token read last stands for,
    /// with `left` as its left operand. A token without an infix rule gives
    /// "Expected expression.".
    pub(super) fn execute_infix(&mut self, left: Expr, fn_type: FnType, can_assign: bool) -> (r:
        Result<Expr, ParseErr>)
        requires
            old(self).inv(),
            old(self).current_token >= 1,
            fn_type == rule_of(old(self).prev_tok().ty).infix,
        ensures
            final(self).moved_on(*old(self)),
            fn_type == FnType::Empty ==> (r matches Err(e) && e.msg@ == "Expected expression."@
                && e.line == old(self).prev_tok().line),
            r matches Ok(e) ==> infix_form(old(self).tokens@, left, old(self).cur() - 1, final(self).cur(), can_assign, e),
        decreases old(self).measure(), 17nat,
    {
        let ghost m = old(self).cur() - 1;
        let ghost l0 = left;
        let r = match fn_type {
            FnType::Binary => self.binary(left),
            FnType::Call => self.call(left),
            FnType::Index => self.index(left, can_assign),
            FnType::Dot => self.dot(left, can_assign),
            FnType::DoubleColon => self.double_colon(left),
            FnType::Cast => self.cast(left),
            _ => Err(ParseErr::new(self.previous().line, "Expected expression.")),
        };
        proof {
            let toks = old(self).tokens@;
            let q = self.cur();
            if r is Ok {
                let e = r->Ok_0;
                let g = Goal::Infix { left: l0, ca: can_assign, e };
                match fn_type {
                    FnType::Binary => {
                        if let ExprType::Binary { op, right, .. } = e.expr {
                            let w = choose|w: Wit| #[trigger] derives(
                                toks,
                                Goal::Expr { lvl: next_precedence(precedence_of(op)), e: *right },
                                m + 1,
                                q,
                                w,
                            );
                            assert(derives(toks, g, m, q, Wit::One(Box::new(w))));
                        }
                    },
                    FnType::Call => {
                        let w = choose|w: Wit| #[trigger] derives(
                            toks,
                            Goal::List { items: call_args(e.expr), close: TokenType::RightParen },
                            m + 1,
                            q,
                            w,
                        );
                        assert(derives(toks, g, m, q, Wit::One(Box::new(w))));
                    },
                    FnType::DoubleColon | FnType::Cast => {
                        assert(derives(toks, g, m, q, Wit::Leaf));
                    },
                    _ => {},
                }
            }
        }
        r
    }

    /// Parses an expression whose operators bind at least as tightly as
    /// `precedence`: a prefix part, then infix parts while the next token
    /// binds tightly enough. When the input is exhausted and the token read
    /// last can only begin an expression that goes on, the parse fails with
    /// "Expected expression.".
    fn parse_precedence(&mut self, precedence: Precedence) -> (r: Result<Expr, ParseErr>)
        requires
            old(self).inv(),
            old(self).started(),
        ensures
            final(self).moved_on(*old(self)),
            !old(self).at_eof() ==> final(self).current_token > old(self).current_token,
            level_of(precedence) >= 1 && lone_operand(old(self).tokens@, old(self).cur()) ==> r
                == Ok::<Expr, ParseErr>(operand_expr(old(self).next_tok()))
                && final(self).current_token == old(self).current_token + 1,
            r matches Ok(e) ==> (!old(self).at_eof() ==> expr_form(old(self).tokens@, old(self).cur(), final(self).cur(), precedence, e)),
            old(self).at_eof() && !value_prefix(rule_of(old(self).prev_tok().ty).prefix) ==> r is Err,
        decreases old(self).measure(), 10nat,
    {
        let start = self.current_token;
        self.advance();
        if self.current_token == start {
            let prefix = self.previous().ty.to_parse_rule().prefix;
            if prefix == FnType::Grouping || prefix == FnType::Array || prefix == FnType::Unary {
                return Err(ParseErr::new(self.previous().line, "Expected expression."));
            }
        }
        let ghost lone = level_of(precedence) >= 1 && lone_operand(old(self).tokens@, old(self).cur());
        let (can_assign, mut expr) = self.parse_prefix(precedence)?;
        proof {
            if !old(self).at_eof() {
                let toks = old(self).tokens@;
                let w = choose|w: Wit| #[trigger] derives(
                    toks,
                    Goal::Prefix { ca: can_assign, e: expr },
                    old(self).cur(),
                    self.cur(),
                    w,
                );
                assert(derives(
                    toks,
                    Goal::Chain { lvl: precedence, e: expr },
                    old(self).cur(),
                    self.cur(),
                    Wit::One(Box::new(w)),
                ));
            }
        }
        while self.peek().ty != TokenType::Eof && precedence.level()
            <= self.peek().ty.to_parse_rule().precedence.level()
            invariant
                can_assign == (level_of(precedence) <= 1),
                !old(self).at_eof() ==> chain_form(old(self).tokens@, old(self).cur(), self.cur(), precedence, expr),
                self.moved_on(*old(self)),
                self.current_token >= 1,
                !old(self).at_eof() ==> self.current_token > old(self).current_token,
                lone == (level_of(precedence) >= 1 && lone_operand(old(self).tokens@, old(self).cur())),
                lone ==> self.current_token == old(self).current_token + 1 && expr == operand_expr(
                    old(self).next_tok(),
                ),
            decreases self.measure(),
        {
            let ghost m = self.cur();
            let ghost left = expr;
            self.advance();
            let infix = self.previous().ty.to_parse_rule().infix;
            expr = self.execute_infix(expr, infix, can_assign)?;
            proof {
                if !old(self).at_eof() {
                    let toks = old(self).tokens@;
                    let wa = choose|w: Wit| #[trigger] derives(
                        toks,
                        Goal::Chain { lvl: precedence, e: left },
                        old(self).cur(),
                        m,
                        w,
                    );
                    let wb = choose|w: Wit| #[trigger] derives(
                        toks,
                        Goal::Infix { left, ca: can_assign, e: expr },
                        m,
                        self.cur(),
                        w,
                    );
                    assert(derives(
                        toks,
                        Goal::Chain { lvl: precedence, e: expr },
                        old(self).cur(),
                        self.cur(),
                        Wit::Two { at: m, left, a: Box::new(wa), b: Box::new(wb) },
                    ));
                }
            }
        }
        proof {
            if !old(self).at_eof() {
                let toks = old(self).tokens@;
                let w = choose|w: Wit| #[trigger] derives(
                    toks,
                    Goal::Chain { lvl: precedence, e: expr },
                    old(self).cur(),
                    self.cur(),
                    w,
                );
                assert(derives(
                    toks,
                    Goal::Expr { lvl: precedence, e: expr },
                    old(self).cur(),
                    self.cur(),
                    Wit::One(Box::new(w)),
                ));
            }
        }
        Ok(expr)
    }

    /// Parses the prefix part of an expression, starting with the token read
    /// last. Gives whether the expression may be assigned to, which holds when
    /// `precedence` is no tighter than assignment.
    fn parse_prefix(&mut self, precedence: Precedence) -> (r: Result<(bool, Expr), ParseErr>)
        requires
            old(self).inv(),
            old(self).current_token >= 1,
        ensures
            final(self).moved_on(*old(self)),
            rule_of(old(self).prev_tok().ty).prefix == FnType::Empty ==> (r matches Err(e)
                && e.msg@ == "Expected expression."@ && e.line == old(self).prev_tok().line
                && *final(self) == *old(self)),
            r matches Ok((can_assign, _)) ==> can_assign == (level_of(precedence) <= 1),
            operand_token(old(self).prev_tok()) && ends_expr(old(self).next_tok().ty) ==> r
                == Ok::<(bool, Expr), ParseErr>(
                (level_of(precedence) <= 1, operand_expr(old(self).prev_tok())),
            ) && *final(self) == *old(self),
            r matches Ok((ca, e)) ==> prefix_form(old(self).tokens@, old(self).cur() - 1, final(self).cur(), ca, e),
        decreases old(self).measure(), prefix_rank(*old(self)),
    {
        let kind = self.previous().ty;
        let prefix = kind.to_parse_rule().prefix;
        if prefix == FnType::Empty {
            let msg = "Expected expression.";
            let err = ParseErr::new(self.previous().line, msg);
            return Err(err);
        }
        let can_assign = precedence.level() <= Precedence::Assignment.level();
        let expr = self.execute_prefix(prefix, can_assign)?;
        Ok((can_assign, expr))
    }

    fn this(&mut self) -> (r: Result<Expr, ParseErr>)
        requires
            old(self).inv(),
            old(self).current_token >= 1,
        ensures
            *final(self) == *old(self),
            r == Ok::<Expr, ParseErr>(expr_of(ExprType::This, old(self).prev_tok().line)),
    {
        Ok(Expr::new(ExprType::This, self.previous().line))
    }

    /// A variable, or an assignment to it when `can_assign` holds and an
    /// assignment operator follows; `x op= e` stands for `x = x op e`.
    fn var(&mut self, can_assign: bool) -> (r: Result<Expr, ParseErr>)
        requires
            rule_of(old(self).prev_tok().ty).prefix == FnType::Var,
            old(self).inv(),
            old(self).current_token >= 1,
        ensures
            final(self).moved_on(*old(self)),
            r matches Ok(e) ==> ({
                let name = old(self).prev_tok().lexeme;
                let next = old(self).next_tok().ty;
                &&& e.line == old(self).prev_tok().line
                &&& e.end_ty == ValueType::Any
                &&& can_assign && next == TokenType::Equal ==> (e.expr matches ExprType::Assign {
                    name: n,
                    ..
                } && n == name)
                &&& can_assign && is_compound_assign(next) ==> {
                    &&& e.expr matches ExprType::Assign { name: n, new_value }
                    &&& n == name
                    &&& new_value.expr matches ExprType::Binary { left, op, .. }
                    &&& op == compound_op(next)
                    &&& left.expr == ExprType::Identifier(name)
                }
                &&& !(can_assign && (next == TokenType::Equal || is_compound_assign(next))) ==> (
                e.expr == ExprType::Identifier(name) && *final(self) == *old(self))
            }),
            !(can_assign && (old(self).next_tok().ty == TokenType::Equal || is_compound_assign(
                old(self).next_tok().ty,
            ))) ==> r is Ok,
            can_assign && old(self).next_tok().ty == TokenType::Equal && lone_operand(
                old(self).tokens@,
                old(self).cur() + 1,
            ) ==> r == Ok::<Expr, ParseErr>(
                expr_of(
                    ExprType::Assign {
                        name: old(self).prev_tok().lexeme,
                        new_value: Box::new(operand_expr(old(self).tok(old(self).cur() + 1))),
                    },
                    old(self).prev_tok().line,
                ),
            ),
            can_assign && is_compound_assign(old(self).next_tok().ty) && lone_operand(
                old(self).tokens@,
                old(self).cur() + 1,
            ) ==> r == Ok::<Expr, ParseErr>(
                expr_of(
                    compound_assign(
                        old(self).prev_tok().lexeme,
                        old(self).prev_tok().line,
                        compound_op(old(self).next_tok().ty),
                        operand_expr(old(self).tok(old(self).cur() + 1)),
                    ),
                    old(self).prev_tok().line,
                ),
            ),
            r matches Ok(e) ==> prefix_form(old(self).tokens@, old(self).cur() - 1, final(self).cur(), can_assign, e),
        decreases old(self).measure(), 0nat,
    {
        let name = self.previous().lexeme.clone();
        let line = self.previous().line;
        let ty = if can_assign && self.matches(TokenType::Equal) {
            let value = Box::new(self.expression()?);
            ExprType::Assign { name, new_value: value }
        } else if can_assign && self.matches(TokenType::PlusEqual) {
            self.get_assign_shorthand(name, line, BinaryOp::Add)?
        } else if can_assign && self.matches(TokenType::MinEqual) {
            self.get_assign_shorthand(name, line, BinaryOp::Sub)?
        } else if can_assign && self.matches(TokenType::MulEqual) {
            self.get_assign_shorthand(name, line, BinaryOp::Mul)?
        } else if can_assign && self.matches(TokenType::DivEqual) {
            self.get_assign_shorthand(name, line, BinaryOp::Div)?
        } else {
            ExprType::Identifier(name)
        };
        let var = Expr::new(ty, line);
        proof {
            let toks = old(self).tokens@;
            let p = old(self).cur() - 1;
            let q = self.cur();
            let nt = toks[p + 1].ty;
            let g = Goal::Prefix { ca: can_assign, e: var };
            if can_assign && nt == TokenType::Equal {
                if var.expr is Assign {
                    let new_value = var.expr->Assign_new_value;
                    let w = choose|w: Wit| #[trigger] derives(
                        toks,
                        Goal::Expr { lvl: Precedence::Assignment, e: *new_value },
                        p + 2,
                        q,
                        w,
                    );
                    assert(derives(toks, g, p, q, Wit::One(Box::new(w))));
                }
            } else if can_assign && is_compound_assign(nt) {
                if var.expr is Assign {
                    let new_value = var.expr->Assign_new_value;
                    if new_value.expr is Binary {
                        let right = new_value.expr->Binary_right;
                        let w = choose|w: Wit| #[trigger] derives(
                            toks,
                            Goal::Expr { lvl: Precedence::Assignment, e: *right },
                            p + 2,
                            q,
                            w,
                        );
                        assert(derives(toks, g, p, q, Wit::One(Box::new(w))));
                    }
                }
            } else {
                assert(derives(toks, g, p, q, Wit::Leaf));
            }
        }
        Ok(var)
    }

    /// `name op= e` stands for `name = name op e`.
    fn get_assign_shorthand(&mut self, name: String, line: u32, op: BinaryOp) -> (r: Result<
        ExprType,
        ParseErr,
    >)
        requires
            old(self).inv(),
            old(self).current_token >= 1,
        ensures
            final(self).moved_on(*old(self)),
            r matches Ok(t) ==> {
                &&& t matches ExprType::Assign { name: n, new_value }
                &&& n == name
                &&& new_value.line == line
                &&& new_value.expr matches ExprType::Binary { left, op: o, .. }
                &&& o == op
                &&& *left == expr_of(ExprType::Identifier(name), line)
            },
            lone_operand(old(self).tokens@, old(self).cur()) ==> r == Ok::<ExprType, ParseErr>(
                compound_assign(name, line, op, operand_expr(old(self).next_tok())),
            ) && final(self).current_token == old(self).current_token + 1,
            r matches Ok(t) ==> (t matches ExprType::Assign { new_value, .. } && new_value.expr
                matches ExprType::Binary { right, .. } && new_value.end_ty == ValueType::Any && (
            !old(self).at_eof() ==> expr_form(old(self).tokens@, old(self).cur(), final(self).cur(), Precedence::Assignment, *right))),
            old(self).at_eof() && !value_prefix(rule_of(old(self).prev_tok().ty).prefix) ==> r is Err,
        decreases old(self).measure(), 12nat,
    {
        let var_ty = ExprType::Identifier(name.clone());
        let var = Box::new(Expr::new(var_ty, line));
        let operand = Box::new(self.expression()?);
        let ty = ExprType::Binary { left: var, op, right: operand };
        let new_value = Box::new(Expr::new(ty, line));
        Ok(ExprType::Assign { name, new_value })
    }

    /// `inst.field op= e` stands for `inst.field = inst.field op e`.
    fn get_assign_shorthand_field(&mut self, field_name: String, line: u32, op: BinaryOp, inst: Expr) -> (r:
        Result<ExprType, ParseErr>)
        requires
            old(self).inv(),
            old(self).current_token >= 1,
        ensures
            final(self).moved_on(*old(self)),
            r matches Ok(t) ==> {
                &&& t matches ExprType::DotAssign { inst: i, property, new_value }
                &&& *i == inst
                &&& property == field_name
                &&& new_value.line == line
                &&& new_value.expr matches ExprType::Binary { left, op: o, .. }
                &&& o == op
                &&& left.line == line
                &&& left.expr matches ExprType::Dot { inst: i2, property: p2 }
                &&& p2 == field_name
                &&& same_expr(*i2, inst)
            },
            lone_operand(old(self).tokens@, old(self).cur()) ==> (r matches Ok(t) && t
                matches ExprType::DotAssign { new_value, .. } && new_value.expr
                matches ExprType::Binary { right, .. } && *right == operand_expr(
                old(self).next_tok(),
            )) && final(self).current_token == old(self).current_token + 1,
            r matches Ok(t) ==> (t matches ExprType::DotAssign { new_value, .. } && new_value.expr
                matches ExprType::Binary { left, right, .. } && new_value.end_ty == ValueType::Any
                && left.end_ty == ValueType::Any && (!old(self).at_eof() ==> expr_form(
                old(self).tokens@,
                old(self).cur(),
                final(self).cur(),
                Precedence::Assignment,
                *right,
            ))),
            old(self).at_eof() && !value_prefix(rule_of(old(self).prev_tok().ty).prefix) ==> r is Err,
        decreases old(self).measure(), 12nat,
    {
        let ty = ExprType::Dot { inst: Box::new(inst.clone()), property: field_name.clone() };
        let left = Box::new(Expr::new(ty, line));
        let operand = Box::new(self.expression()?);
        let ty = ExprType::Binary { left, op, right: operand };
        let new_value = Box::new(Expr::new(ty, line));
        let ty = ExprType::DotAssign { inst: Box::new(inst), property: field_name, new_value };
        Ok(ty)
    }

    fn string(&mut self) -> (r: Result<Expr, ParseErr>)
        requires
            old(self).inv(),
            old(self).current_token >= 1,
            old(self).prev_tok().literal is Str,
        ensures
            *final(self) == *old(self),
            r == Ok::<Expr, ParseErr>(
                expr_of(ExprType::Lit(old(self).prev_tok().literal), old(self).prev_tok().line),
            ),
    {
        let value = match &self.previous().literal {
            Literal::Str(value) => value.clone(),
            _ => {
                proof {
                    assert(false);
                }
                String::new()
            },
        };
        let kind = ExprType::Lit(Literal::Str(value));
        Ok(Expr::new(kind, self.previous().line))
    }

    /// An expression in parentheses.
    fn grouping(&mut self) -> (r: Result<Expr, ParseErr>)
        requires
            old(self).inv(),
            old(self).current_token >= 1,
        ensures
            final(self).moved_on(*old(self)),
            r is Ok ==> final(self).prev_tok().ty == TokenType::RightParen,
            lone_operand(old(self).tokens@, old(self).cur()) && old(self).tok(old(self).cur() + 1).ty
                == TokenType::RightParen ==> r == Ok::<Expr, ParseErr>(
                operand_expr(old(self).next_tok()),
            ) && final(self).current_token == old(self).current_token + 2,
            r matches Ok(e) ==> old(self).cur() < final(self).cur() - 1 && expr_form(old(self).tokens@, old(self).cur(), final(self).cur() - 1, Precedence::Assignment, e),
        decreases old(self).measure(), 18nat,
    {
        let expr = self.expression()?;
        self.consume(TokenType::RightParen, "Expected ')' after expression.")?;
        Ok(expr)
    }

    /// `type_expr::name`.
    fn double_colon(&mut self, type_expr: Expr) -> (r: Result<Expr, ParseErr>)
        requires
            old(self).inv(),
            old(self).current_token >= 1,
        ensures
            final(self).moved_on(*old(self)),
            old(self).next_tok().ty == TokenType::Identifier ==> r == Ok::<Expr, ParseErr>(
                expr_of(
                    ExprType::Colon {
                        inst: Box::new(type_expr),
                        property: old(self).next_tok().lexeme,
                    },
                    old(self).next_tok().line,
                ),
            ),
            old(self).next_tok().ty != TokenType::Identifier ==> (r matches Err(e) && e.msg@
                == "Expected property name after '::'."@ && e.line == old(self).prev_tok().line),
            r is Ok ==> final(self).current_token == old(self).current_token + 1,
        decreases old(self).measure(), 16nat,
    {
        self.consume(TokenType::Identifier, "Expected property name after '::'.")?;
        let property = self.previous();
        let ty = ExprType::Colon { inst: Box::new(type_expr), property: property.lexeme.clone() };
        Ok(Expr::new(ty, property.line))
    }

    /// `inst.name`, or an assignment to it when `can_assign` holds and an
    /// assignment operator follows.
    fn dot(&mut self, inst: Expr, can_assign: bool) -> (r: Result<Expr, ParseErr>)
        requires
            rule_of(old(self).prev_tok().ty).infix == FnType::Dot,
            old(self).inv(),
            old(self).current_token >= 1,
        ensures
            final(self).moved_on(*old(self)),
            old(self).next_tok().ty != TokenType::Identifier ==> (r matches Err(e) && e.msg@
                == "Expected property name after '.'."@ && e.line == old(self).prev_tok().line),
            r matches Ok(e) ==> ({
                let name = old(self).next_tok().lexeme;
                let next = old(self).tok(old(self).cur() + 1).ty;
                &&& e.line == old(self).next_tok().line
                &&& next == TokenType::Equal && can_assign ==> (e.expr matches ExprType::DotAssign {
                    inst: i,
                    property,
                    ..
                } && *i == inst && property == name)
                &&& can_assign && is_compound_assign(next) ==> {
                    &&& e.expr matches ExprType::DotAssign { inst: i, property, new_value }
                    &&& *i == inst
                    &&& property == name
                    &&& new_value.expr matches ExprType::Binary { op, .. }
                    &&& op == compound_op(next)
                }
                &&& !(can_assign && (next == TokenType::Equal || is_compound_assign(next)))
                    ==> e.expr == ExprType::Dot { inst: Box::new(inst), property: name }
            }),
            r matches Ok(e) ==> infix_form(old(self).tokens@, inst, old(self).cur() - 1, final(self).cur(), can_assign, e),
        decreases old(self).measure(), 16nat,
    {
        let ghost l0 = inst;
        self.consume(TokenType::Identifier, "Expected property name after '.'.")?;
        let property = self.previous().lexeme.clone();
        let line = self.previous().line;
        let ty = if self.matches(TokenType::Equal) && can_assign {
            let value = Box::new(self.expression()?);
            ExprType::DotAssign { inst: Box::new(inst), property, new_value: value }
        } else if can_assign && self.matches(TokenType::PlusEqual) {
            self.get_assign_shorthand_field(property, line, BinaryOp::Add, inst)?
        } else if can_assign && self.matches(TokenType::MinEqual) {
            self.get_assign_shorthand_field(property, line, BinaryOp::Sub, inst)?
        } else if can_assign && self.matches(TokenType::MulEqual) {
            self.get_assign_shorthand_field(property, line, BinaryOp::Mul, inst)?
        } else if can_assign && self.matches(TokenType::DivEqual) {
            self.get_assign_shorthand_field(property, line, BinaryOp::Div, inst)?
        } else {
            ExprType::Dot { inst: Box::new(inst), property }
        };
        let e = Expr::new(ty, line);
        proof {
            let toks = old(self).tokens@;
            let m = old(self).cur() - 1;
            let q = self.cur();
            let nt = toks[m + 2].ty;
            let g = Goal::Infix { left: l0, ca: can_assign, e };
            if nt == TokenType::Equal && can_assign {
                if e.expr is DotAssign {
                    let new_value = e.expr->DotAssign_new_value;
                    let w = choose|w: Wit| #[trigger] derives(
                        toks,
                        Goal::Expr { lvl: Precedence::Assignment, e: *new_value },
                        m + 3,
                        q,
                        w,
                    );
                    assert(derives(toks, g, m, q, Wit::One(Box::new(w))));
                }
            } else if nt == TokenType::Equal {
                assert(derives(toks, g, m, q, Wit::Leaf));
            } else if can_assign && is_compound_assign(nt) {
                if e.expr is DotAssign {
                    let new_value = e.expr->DotAssign_new_value;
                    if new_value.expr is Binary {
                        let right = new_value.expr->Binary_right;
                        let w = choose|w: Wit| #[trigger] derives(
                            toks,
                            Goal::Expr { lvl: Precedence::Assignment, e: *right },
                            m + 3,
                            q,
                            w,
                        );
                        assert(derives(toks, g, m, q, Wit::One(Box::new(w))));
                    }
                }
            } else {
                assert(derives(toks, g, m, q, Wit::Leaf));
            }
        }
        Ok(e)
    }

    /// `arr[index]`, or an assignment to it when `can_assign` holds and `=`
    /// follows.
    fn index(&mut self, arr: Expr, can_assign: bool) -> (r: Result<Expr, ParseErr>)
        requires
            rule_of(old(self).prev_tok().ty).infix == FnType::Index,
            old(self).inv(),
            old(self).current_token >= 1,
        ensures
            final(self).moved_on(*old(self)),
            r matches Ok(e) ==> ({
                ||| (e.expr matches ExprType::Index { arr: a, .. } && *a == arr)
                ||| (can_assign && (e.expr matches ExprType::AssignIndex { arr: a, .. } && *a == arr))
            }),
            lone_operand(old(self).tokens@, old(self).cur()) && old(self).tok(old(self).cur() + 1).ty
                == TokenType::RightBracket && !(can_assign && old(self).tok(old(self).cur() + 2).ty
                == TokenType::Equal) ==> r == Ok::<Expr, ParseErr>(
                expr_of(
                    ExprType::Index {
                        arr: Box::new(arr),
                        index: Box::new(operand_expr(old(self).next_tok())),
                    },
                    old(self).tok(old(self).cur() + 1).line,
                ),
            ) && final(self).current_token == old(self).current_token + 2,
            lone_operand(old(self).tokens@, old(self).cur()) && old(self).tok(old(self).cur() + 1).ty
                == TokenType::RightBracket && can_assign && old(self).tok(old(self).cur() + 2).ty
                == TokenType::Equal && lone_operand(old(self).tokens@, old(self).cur() + 3) ==> r
                == Ok::<Expr, ParseErr>(
                expr_of(
                    ExprType::AssignIndex {
                        arr: Box::new(arr),
                        index: Box::new(operand_expr(old(self).next_tok())),
                        new_value: Box::new(operand_expr(old(self).tok(old(self).cur() + 3))),
                    },
                    old(self).tok(old(self).cur() + 3).line,
                ),
            ),
            r matches Ok(e) ==> infix_form(old(self).tokens@, arr, old(self).cur() - 1, final(self).cur(), can_assign, e),
        decreases old(self).measure(), 16nat,
    {
        let ghost l0 = arr;
        let index = Box::new(self.expression()?);
        let ghost k = self.cur();
        self.consume(TokenType::RightBracket, "Expected ']' after index.")?;
        let arr = Box::new(arr);
        let ty = if can_assign && self.matches(TokenType::Equal) {
            let value = Box::new(self.expression()?);
            ExprType::AssignIndex { arr, index, new_value: value }
        } else {
            ExprType::Index { arr, index }
        };
        let expr = Expr::new(ty, self.previous().line);
        proof {
            let toks = old(self).tokens@;
            let m = old(self).cur() - 1;
            let q = self.cur();
            let g = Goal::Infix { left: l0, ca: can_assign, e: expr };
            let wa = choose|w: Wit| #[trigger] derives(
                toks,
                Goal::Expr { lvl: Precedence::Assignment, e: *index },
                m + 1,
                k,
                w,
            );
            if expr.expr is AssignIndex {
                let new_value = expr.expr->AssignIndex_new_value;
                let wb = choose|w: Wit| #[trigger] derives(
                    toks,
                    Goal::Expr { lvl: Precedence::Assignment, e: *new_value },
                    k + 2,
                    q,
                    w,
                );
                assert(derives(
                    toks,
                    g,
                    m,
                    q,
                    Wit::Two { at: k, left: l0, a: Box::new(wa), b: Box::new(wb) },
                ));
            } else {
                assert(derives(toks, g, m, q, Wit::One(Box::new(wa))));
            }
        }
        Ok(expr)
    }

    /// `value as T`, for a type `T`.
    fn cast(&mut self, value: Expr) -> (r: Result<Expr, ParseErr>)
        requires
            old(self).inv(),
            old(self).current_token >= 1,
        ensures
            final(self).moved_on(*old(self)),
            value_type_of(old(self).next_tok()) matches Some(t) ==> r == Ok::<Expr, ParseErr>(
                expr_of(
                    ExprType::Cast { value: Box::new(value), target_ty: t },
                    old(self).prev_tok().line,
                ),
            ),
            value_type_of(old(self).next_tok()) is None ==> (r matches Err(e) && e.msg@
                == "Expected type after 'as' keyword."@ && e.line == old(self).prev_tok().line),
            r is Ok ==> final(self).current_token == old(self).current_token + 1,
        decreases old(self).measure(), 16nat,
    {
        let line = self.previous().line;
        if let Some(target) = self.peek().as_value_type() {
            self.advance();
            let value = Box::new(value);
            let ty = ExprType::Cast { value, target_ty: target };
            Ok(Expr::new(ty, line))
        } else {
            Err(ParseErr::new(line, "Expected type after 'as' keyword."))
        }
    }

    /// A call of what `name` names: a function, a method of an instance, or a
    /// static method. Any other callee gives "Expected expression.".
    fn call(&mut self, name: Expr) -> (r: Result<Expr, ParseErr>)
        requires
            old(self).prev_tok().ty == TokenType::LeftParen,
            old(self).inv(),
            old(self).current_token >= 1,
        ensures
            final(self).moved_on(*old(self)),
            r matches Ok(e) ==> ({
                &&& final(self).prev_tok().ty == TokenType::RightParen
                &&& e.line == final(self).prev_tok().line
                &&& name.expr matches ExprType::Identifier(n) ==> (e.expr matches ExprType::FuncCall {
                    name: m,
                    index,
                    ..
                } && m == n && index is None)
                &&& name.expr matches ExprType::Dot { inst, property } ==> (e.expr
                    matches ExprType::MethodCall { inst: i, property: p, is_static, .. } && i
                    == inst && p == property && !is_static)
                &&& name.expr matches ExprType::Colon { inst, property } ==> (e.expr
                    matches ExprType::MethodCall { inst: i, property: p, is_static, .. } && i
                    == inst && p == property && is_static)
                &&& name.expr is Identifier || name.expr is Dot || name.expr is Colon
            }),
            old(self).next_tok().ty == TokenType::RightParen && (name.expr is Identifier
                || name.expr is Dot || name.expr is Colon) ==> (r matches Ok(e) && call_args(e.expr)
                == Seq::<Expr>::empty() && e.line == old(self).next_tok().line) && final(self).current_token == old(self).current_token + 1,
            lone_operand(old(self).tokens@, old(self).cur()) && old(self).tok(old(self).cur() + 1).ty
                == TokenType::RightParen && (name.expr is Identifier || name.expr is Dot
                || name.expr is Colon) ==> (r matches Ok(e) && call_args(e.expr) == seq![
                operand_expr(old(self).next_tok()),
            ] && e.line == old(self).tok(old(self).cur() + 1).line) && final(self).current_token
                == old(self).current_token + 2,
            r matches Ok(e) ==> (e.end_ty == ValueType::Any && list_form(old(self).tokens@, old(self).cur(), final(self).cur(), call_args(e.expr), TokenType::RightParen)),
            forall|k: int|
                #[trigger] lone_args_at(old(self).tokens@, old(self).cur(), k) && (name.expr is Identifier
                    || name.expr is Dot || name.expr is Colon) ==> (r matches Ok(e) && call_args(
                    e.expr,
                ).len() == k && (forall|i: int|
                    0 <= i < k ==> #[trigger] call_args(e.expr)[i] == operand_expr(
                        old(self).tokens@[old(self).cur() + 2 * i],
                    )) && e.line == old(self).tokens@[old(self).cur() + 2 * k - 1].line)
                    && final(self).cur() == old(self).cur() + 2 * k,
        decreases old(self).measure(), 16nat,
    {
        let ghost p = old(self).cur();
        let ghost toks = old(self).tokens@;
        let ghost k = choose|k: int| lone_args_at(old(self).tokens@, p, k);
        let ghost wf = lone_args_at(old(self).tokens@, p, k);
        proof {
            assert forall|k2: int| #[trigger] lone_args_at(toks, p, k2) implies wf && k2 == k by {
                assert(lone_args_at(toks, p, k));
                lemma_lone_args_unique(toks, p, k, k2);
            }
            if wf {
                assert(operand_token(toks[p + 2 * 0]));
            }
        }
        let mut args: Vec<Expr> = Vec::new();
        let ghost mut brk = false;
        let ghost mut c_last: int = 0;
        proof {
            assert(derives(
                old(self).tokens@,
                Goal::Head { items: args@, close: TokenType::RightParen },
                old(self).cur(),
                old(self).cur(),
                Wit::Leaf,
            ));
        }
        while !self.check(TokenType::RightParen)
            invariant_except_break
                !brk,
                wf ==> args@.len() < k && self.cur() == p + 2 * args@.len() && toks[p + 2
                    * args@.len()].ty != TokenType::RightParen,
            invariant
                toks == old(self).tokens@,
                p == old(self).cur(),
                wf == lone_args_at(toks, p, k),
                forall|k2: int| #[trigger] lone_args_at(toks, p, k2) ==> wf && k2 == k,
                wf ==> args@.len() <= k && forall|i: int|
                    0 <= i < args@.len() ==> #[trigger] args@[i] == operand_expr(toks[p + 2 * i]),
                self.moved_on(*old(self)),
                self.current_token >= 1,
                old(self).next_tok().ty == TokenType::RightParen ==> self.current_token == old(
                    self,
                ).current_token && args@.len() == 0,
                lone_operand(old(self).tokens@, old(self).cur()) && old(self).tok(old(self).cur()
                    + 1).ty == TokenType::RightParen ==> (self.current_token == old(
                    self,
                ).current_token && args@.len() == 0) || (self.current_token == old(
                    self,
                ).current_token + 1 && args@ == seq![operand_expr(old(self).next_tok())]),
                !brk ==> (self.prev_tok().ty == TokenType::LeftParen || self.prev_tok().ty == TokenType::Comma),
                !brk ==> list_head(old(self).tokens@, old(self).cur(), self.cur(), args@, TokenType::RightParen),
                brk ==> args@.len() > 0 && list_head(
                    old(self).tokens@,
                    old(self).cur(),
                    c_last,
                    args@.drop_last(),
                    TokenType::RightParen,
                ) && expr_form(old(self).tokens@, c_last, self.cur(), Precedence::Assignment, args@.last())
                    && old(self).tokens@[c_last].ty != TokenType::RightParen,
            ensures
                self.moved_on(*old(self)),
                self.current_token >= 1,
                !brk ==> list_head(old(self).tokens@, old(self).cur(), self.cur(), args@, TokenType::RightParen),
                brk ==> args@.len() > 0 && list_head(
                    old(self).tokens@,
                    old(self).cur(),
                    c_last,
                    args@.drop_last(),
                    TokenType::RightParen,
                ) && expr_form(old(self).tokens@, c_last, self.cur(), Precedence::Assignment, args@.last())
                    && old(self).tokens@[c_last].ty != TokenType::RightParen,
                !brk ==> self.next_tok().ty == TokenType::RightParen,
                old(self).next_tok().ty == TokenType::RightParen ==> self.current_token == old(
                    self,
                ).current_token && args@.len() == 0,
                lone_operand(old(self).tokens@, old(self).cur()) && old(self).tok(old(self).cur()
                    + 1).ty == TokenType::RightParen ==> self.current_token == old(self).current_token
                    + 1 && args@ == seq![operand_expr(old(self).next_tok())],
                wf ==> brk && args@.len() == k && self.cur() == p + 2 * k - 1 && forall|i: int|
                    0 <= i < k ==> #[trigger] args@[i] == operand_expr(toks[p + 2 * i]),
            decreases self.measure(),
        {
            let ghost c0 = self.cur();
            let ghost before = args@;
            let ghost p0 = *self;
            proof {
                if wf {
                    let j = args@.len() as int;
                    assert(operand_token(toks[p + 2 * j]));
                    assert(lone_operand(toks, p + 2 * j));
                }
            }
            let e = self.expression()?;
            proof {
                if wf {
                    let j = before.len() as int;
                    assert(e == operand_expr(toks[p + 2 * j]));
                    assert(self.cur() == p + 2 * j + 1);
                }
            }
            proof {
                assert(!value_prefix(rule_of(p0.prev_tok().ty).prefix));
                assert(!p0.at_eof());
                assert(expr_form(old(self).tokens@, c0, self.cur(), Precedence::Assignment, e));
            }
            args.push(e);
            proof {
                if wf {
                    let j = before.len() as int;
                    assert(operand_token(toks[p + 2 * j]));
                    assert forall|i: int| 0 <= i < args@.len() implies #[trigger] args@[i]
                        == operand_expr(toks[p + 2 * i]) by {
                        if i < j {
                            assert(args@[i] == before[i]);
                        }
                    }
                }
            }
            if !self.matches(TokenType::Comma) {
                proof {
                    brk = true;
                    c_last = c0;
                    assert(args@.drop_last() =~= before);
                }
                break;
            }
            proof {
                if wf {
                    let j = before.len() as int;
                    assert(j + 1 < k);
                    assert(operand_token(toks[p + 2 * (j + 1)]));
                }
                lemma_list_head_push(
                    old(self).tokens@,
                    old(self).cur(),
                    c0,
                    before,
                    TokenType::RightParen,
                    self.cur() - 1,
                    e,
                );
            }
        }
        proof {
            if wf {
                assert(operand_token(toks[p + 2 * (k - 1)]));
            }
        }
        self.consume(TokenType::RightParen, "Expected ')' after function/constructor call.")?;
        proof {
            if brk {
                lemma_list_head_last(
                    old(self).tokens@,
                    old(self).cur(),
                    c_last,
                    args@.drop_last(),
                    self.cur() - 1,
                    args@.last(),
                    TokenType::RightParen,
                );
                assert(args@.drop_last().push(args@.last()) =~= args@);
            } else {
                lemma_list_head_close(
                    old(self).tokens@,
                    old(self).cur(),
                    self.cur() - 1,
                    args@,
                    TokenType::RightParen,
                );
            }
        }
        let ty = match name.expr {
            ExprType::Identifier(name) => ExprType::FuncCall { name, args, index: None },
            ExprType::Dot { inst, property } => ExprType::MethodCall {
                inst,
                property,
                args,
                is_static: false,
            },
            ExprType::Colon { inst, property } => ExprType::MethodCall {
                inst,
                property,
                args,
                is_static: true,
            },
            _ => {
                return Err(ParseErr::new(self.previous().line, "Expected expression."));
            },
        };
        let expr = Expr::new(ty, self.previous().line);
        Ok(expr)
    }

    /// `left op right`, where `right` binds one step tighter than `op`.
    fn binary(&mut self, left: Expr) -> (r: Result<Expr, ParseErr>)
        requires
            old(self).inv(),
            old(self).current_token >= 1,
            is_binary_token(old(self).prev_tok().ty),
        ensures
            final(self).moved_on(*old(self)),
            r matches Ok(e) ==> (e.expr matches ExprType::Binary { left: l, op, .. } && *l == left
                && op == op_of_token(old(self).prev_tok().ty) && e.end_ty == ValueType::Any),
            lone_operand(old(self).tokens@, old(self).cur()) ==> r == Ok::<Expr, ParseErr>(
                expr_of(
                    ExprType::Binary {
                        left: Box::new(left),
                        op: op_of_token(old(self).prev_tok().ty),
                        right: Box::new(operand_expr(old(self).next_tok())),
                    },
                    old(self).next_tok().line,
                ),
            ) && final(self).current_token == old(self).current_token + 1,
            r matches Ok(e) ==> (e.expr matches ExprType::Binary { op, right, .. } && e.line == final(self).prev_tok().line
                && old(self).cur() < final(self).cur() && expr_form(old(self).tokens@, old(self).cur(), final(self).cur(), next_precedence(precedence_of(op)), *right)),
        decreases old(self).measure(), 16nat,
    {
        let left = Box::new(left);
        let op = BinaryOp::from_token_type(self.previous().ty);
        let precedence = op.get_precedency().to_next_precedency();
        let right = Box::new(self.parse_precedence(precedence)?);
        let line = self.previous().line;
        let kind = ExprType::Binary { left, op, right };
        let expr = Expr::new(kind, line);
        Ok(expr)
    }

    /// An array literal.
    fn array(&mut self) -> (r: Result<Expr, ParseErr>)
        requires
            old(self).prev_tok().ty == TokenType::LeftBracket,
            old(self).inv(),
            old(self).current_token >= 1,
        ensures
            final(self).moved_on(*old(self)),
            r matches Ok(e) ==> e.expr is Array && final(self).prev_tok().ty
                == TokenType::RightBracket && e.line == final(self).prev_tok().line,
            old(self).next_tok().ty == TokenType::RightBracket ==> (r matches Ok(e) && e.expr
                matches ExprType::Array(v) && v@ == Seq::<Expr>::empty()) && final(self).current_token == old(self).current_token + 1,
            lone_operand(old(self).tokens@, old(self).cur()) && old(self).tok(old(self).cur() + 1).ty
                == TokenType::RightBracket ==> (r matches Ok(e) && e.expr matches ExprType::Array(v)
                && v@ == seq![operand_expr(old(self).next_tok())]) && final(self).current_token
                == old(self).current_token + 2,
            r matches Ok(e) ==> (e.expr matches ExprType::Array(v) && e.end_ty == ValueType::Any
                && list_form(old(self).tokens@, old(self).cur(), final(self).cur(), v@, TokenType::RightBracket)),
        decreases old(self).measure(), 18nat,
    {
        let mut values: Vec<Expr> = Vec::new();
        let ghost mut brk = false;
        let ghost mut c_last: int = 0;
        proof {
            assert(derives(
                old(self).tokens@,
                Goal::Head { items: values@, close: TokenType::RightBracket },
                old(self).cur(),
                old(self).cur(),
                Wit::Leaf,
            ));
        }
        while !self.check(TokenType::RightBracket)
            invariant_except_break
                !brk,
            invariant
                self.moved_on(*old(self)),
                self.current_token >= 1,
                old(self).next_tok().ty == TokenType::RightBracket ==> self.current_token == old(
                    self,
                ).current_token && values@.len() == 0,
                lone_operand(old(self).tokens@, old(self).cur()) && old(self).tok(old(self).cur()
                    + 1).ty == TokenType::RightBracket ==> (self.current_token == old(
                    self,
                ).current_token && values@.len() == 0) || (self.current_token == old(
                    self,
                ).current_token + 1 && values@ == seq![operand_expr(old(self).next_tok())]),
                !brk ==> (self.prev_tok().ty == TokenType::LeftBracket || self.prev_tok().ty == TokenType::Comma),
                !brk ==> list_head(old(self).tokens@, old(self).cur(), self.cur(), values@, TokenType::RightBracket),
                brk ==> values@.len() > 0 && list_head(
                    old(self).tokens@,
                    old(self).cur(),
                    c_last,
                    values@.drop_last(),
                    TokenType::RightBracket,
                ) && expr_form(old(self).tokens@, c_last, self.cur(), Precedence::Assignment, values@.last())
                    && old(self).tokens@[c_last].ty != TokenType::RightBracket,
            ensures
                self.moved_on(*old(self)),
                self.current_token >= 1,
                !brk ==> list_head(old(self).tokens@, old(self).cur(), self.cur(), values@, TokenType::RightBracket),
                brk ==> values@.len() > 0 && list_head(
                    old(self).tokens@,
                    old(self).cur(),
                    c_last,
                    values@.drop_last(),
                    TokenType::RightBracket,
                ) && expr_form(old(self).tokens@, c_last, self.cur(), Precedence::Assignment, values@.last())
                    && old(self).tokens@[c_last].ty != TokenType::RightBracket,
                !brk ==> self.next_tok().ty == TokenType::RightBracket,
                old(self).next_tok().ty == TokenType::RightBracket ==> self.current_token == old(
                    self,
                ).current_token && values@.len() == 0,
                lone_operand(old(self).tokens@, old(self).cur()) && old(self).tok(old(self).cur()
                    + 1).ty == TokenType::RightBracket ==> self.current_token == old(self).current_token
                    + 1 && values@ == seq![operand_expr(old(self).next_tok())],
            decreases self.measure(),
        {
            let ghost c0 = self.cur();
            let ghost before = values@;
            let ghost p0 = *self;
            let e = self.expression()?;
            proof {
                assert(!value_prefix(rule_of(p0.prev_tok().ty).prefix));
                assert(!p0.at_eof());
                assert(expr_form(old(self).tokens@, c0, self.cur(), Precedence::Assignment, e));
            }
            values.push(e);
            if !self.matches(TokenType::Comma) {
                proof {
                    brk = true;
                    c_last = c0;
                    assert(values@.drop_last() =~= before);
                }
                break;
            }
            proof {
                lemma_list_head_push(
                    old(self).tokens@,
                    old(self).cur(),
                    c0,
                    before,
                    TokenType::RightBracket,
                    self.cur() - 1,
                    e,
                );
            }
        }
        self.consume(TokenType::RightBracket, "Expected ']' at end of array.")?;
        proof {
            if brk {
                lemma_list_head_last(
                    old(self).tokens@,
                    old(self).cur(),
                    c_last,
                    values@.drop_last(),
                    self.cur() - 1,
                    values@.last(),
                    TokenType::RightBracket,
                );
                assert(values@.drop_last().push(values@.last()) =~= values@);
            } else {
                lemma_list_head_close(
                    old(self).tokens@,
                    old(self).cur(),
                    self.cur() - 1,
                    values@,
                    TokenType::RightBracket,
                );
            }
        }
        let ty = ExprType::Array(values);
        Ok(Expr::new(ty, self.previous().line))
    }

    /// A number literal. A token that carries no number gives "Expected
    /// expression.".
    fn number(&mut self) -> (r: Result<Expr, ParseErr>)
        requires
            old(self).inv(),
            old(self).current_token >= 1,
        ensures
            *final(self) == *old(self),
            old(self).prev_tok().literal.is_number() ==> r == Ok::<Expr, ParseErr>(
                expr_of(ExprType::Lit(old(self).prev_tok().literal), old(self).prev_tok().line),
            ),
            !old(self).prev_tok().literal.is_number() ==> (r matches Err(e) && e.msg@
                == "Expected expression."@ && e.line == old(self).prev_tok().line),
    {
        let kind = match self.previous().literal {
            Literal::F64(n) => ExprType::Lit(Literal::F64(n)),
            Literal::I64(n) => ExprType::Lit(Literal::I64(n)),
            Literal::U64(n) => ExprType::Lit(Literal::U64(n)),
            _ => {
                return Err(ParseErr::new(self.previous().line, "Expected expression."));
            },
        };
        Ok(Expr::new(kind, self.previous().line))
    }

    /// `-e` or `!e`.
    fn unary(&mut self) -> (r: Result<Expr, ParseErr>)
        requires
            rule_of(old(self).prev_tok().ty).prefix == FnType::Unary,
            old(self).inv(),
            old(self).current_token >= 1,
        ensures
            final(self).moved_on(*old(self)),
            r matches Ok(e) ==> (e.expr matches ExprType::Unary { prefix, .. } && prefix == old(
                self,
            ).prev_tok().ty),
            lone_operand(old(self).tokens@, old(self).cur()) ==> r == Ok::<Expr, ParseErr>(
                expr_of(
                    ExprType::Unary {
                        prefix: old(self).prev_tok().ty,
                        value: Box::new(operand_expr(old(self).next_tok())),
                    },
                    old(self).next_tok().line,
                ),
            ) && final(self).current_token == old(self).current_token + 1,
            r matches Ok(e) ==> (e.expr matches ExprType::Unary { value, .. } && e.line == final(self).prev_tok().line
                && e.end_ty == ValueType::Any && old(self).cur() < final(self).cur() && expr_form(old(self).tokens@, old(self).cur(), final(self).cur(), Precedence::Unary, *value)),
        decreases old(self).measure(), 18nat,
    {
        let prefix = self.previous().ty;
        let value = Box::new(self.parse_precedence(Precedence::Unary)?);
        let line = self.previous().line;
        let kind = ExprType::Unary { prefix, value };
        let expr = Expr::new(kind, line);
        Ok(expr)
    }

    /// `true`, `false` or `null`.
    fn literal(&mut self) -> (r: Result<Expr, ParseErr>)
        requires
            old(self).inv(),
            old(self).current_token >= 1,
            rule_of(old(self).prev_tok().ty).prefix == FnType::Literal,
        ensures
            *final(self) == *old(self),
            r == Ok::<Expr, ParseErr>(
                expr_of(
                    ExprType::Lit(
                        match old(self).prev_tok().ty {
                            TokenType::True => Literal::True,
                            TokenType::False => Literal::False,
                            _ => Literal::Null,
                        },
                    ),
                    old(self).prev_tok().line,
                ),
            ),
    {
        let literal = match self.previous().ty {
            TokenType::True => Literal::True,
            TokenType::False => Literal::False,
            _ => Literal::Null,
        };
        let kind = ExprType::Lit(literal);
        Ok(Expr::new(kind, self.previous().line))
    }
}

} // verus!
