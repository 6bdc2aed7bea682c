use vstd::prelude::*;

use super::parse_expr::{
    call_args, compound_op, expr_of, is_compound_assign, operand_expr,
};
use super::types::{level_of, next_precedence, rule_of, FnType, Precedence};
use super::parse_stmt::array_of;
use crate::binary_op::{op_of_token, precedence_of, BinaryOp};
use crate::expression::{same_expr, Expr, ExprType};
use crate::statement::{Stmt, StmtType};
use crate::token::{value_type_of, Token, TokenType};
use crate::value::ValueType;

verus! {

// The grammar of expressions. Each form says of a tree which tokens it is
// read from: `toks[p]` up to, and not including, `toks[q]`. A form carries
// `ca`, whether an assignment may stand there, which holds at the loosest
// binding powers only.

/// Reading an expression at binding power `lvl` stops before position `q`:
/// the input ends there, or the token there binds more loosely than `lvl`.
pub open spec fn stops_at(toks: Seq<Token>, q: int, lvl: Precedence) -> bool {
    toks[q].ty == TokenType::Eof || level_of(rule_of(toks[q].ty).precedence) < level_of(lvl)
}

/// Positions `p` and `q` bound a nonempty stretch of the input with a token
/// after it.
pub open spec fn span(toks: Seq<Token>, p: int, q: int) -> bool {
    0 <= p < q < toks.len()
}

/// What a stretch of tokens is read as: an expression at a binding power
/// (`Expr`, where reading stops at the end of the stretch; `Chain`, where it
/// may go on), what the prefix rule of its first token reads (`Prefix`), what
/// the infix rule of its first token reads after `left` (`Infix`), a list
/// closed by `close` (`List`), or the items of a list before its end, each
/// followed by a comma (`Head`). `ca` tells whether an assignment may stand
/// there, which holds at the loosest binding powers only.
pub enum Goal {
    Expr { lvl: Precedence, e: Expr },
    Chain { lvl: Precedence, e: Expr },
    Prefix { ca: bool, e: Expr },
    Infix { left: Expr, ca: bool, e: Expr },
    List { items: Seq<Expr>, close: TokenType },
    Head { items: Seq<Expr>, close: TokenType },
}

/// How a stretch of tokens is taken apart: by no further reading (`Leaf`),
/// by one reading of a part of it (`One`), or at position `at` into two parts
/// (`Two`), the first of which reads as `left` where an expression before an
/// infix rule is meant.
pub enum Wit {
    Leaf,
    One(Box<Wit>),
    Two { at: int, left: Expr, a: Box<Wit>, b: Box<Wit> },
}

/// The grammar of expressions: the tokens from `p` up to, and not including,
/// `q` are read as goal `g`, taken apart as `w` says.
pub open spec fn derives(toks: Seq<Token>, g: Goal, p: int, q: int, w: Wit) -> bool
    decreases w,
{
    match g {
        Goal::Expr { lvl, e } => span(toks, p, q) && stops_at(toks, q, lvl) && match w {
            Wit::One(w1) => derives(toks, Goal::Chain { lvl, e }, p, q, *w1),
            _ => false,
        },
        Goal::Chain { lvl, e } => {
            let ca = level_of(lvl) <= 1;
            &&& span(toks, p, q)
            &&& match w {
                Wit::One(w1) => derives(toks, Goal::Prefix { ca, e }, p, q, *w1),
                Wit::Two { at: m, left, a, b } => p < m < q && derives(
                    toks,
                    Goal::Chain { lvl, e: left },
                    p,
                    m,
                    *a,
                ) && toks[m].ty != TokenType::Eof && level_of(lvl) <= level_of(
                    rule_of(toks[m].ty).precedence,
                ) && derives(toks, Goal::Infix { left, ca, e }, m, q, *b),
                _ => false,
            }
        },
        Goal::Prefix { ca, e } => {
            let t = toks[p];
            &&& span(toks, p, q)
            &&& match rule_of(t.ty).prefix {
                FnType::Number => q == p + 1 && t.literal.is_number() && e == expr_of(
                    ExprType::Lit(t.literal),
                    t.line,
                ),
                FnType::String => q == p + 1 && e == expr_of(ExprType::Lit(t.literal), t.line),
                FnType::Literal => q == p + 1 && e == operand_expr(t),
                FnType::This => q == p + 1 && e == expr_of(ExprType::This, t.line),
                FnType::Var => {
                    let name = t.lexeme;
                    let line = t.line;
                    let nt = toks[p + 1].ty;
                    if ca && nt == TokenType::Equal {
                        &&& p + 2 < q
                        &&& e.line == line
                        &&& e.end_ty == ValueType::Any
                        &&& e.expr matches ExprType::Assign { name: n, new_value }
                        &&& n == name
                        &&& w matches Wit::One(w1)
                        &&& derives(
                            toks,
                            Goal::Expr { lvl: Precedence::Assignment, e: *new_value },
                            p + 2,
                            q,
                            *w1,
                        )
                    } else if ca && is_compound_assign(nt) {
                        &&& p + 2 < q
                        &&& e.line == line
                        &&& e.end_ty == ValueType::Any
                        &&& e.expr matches ExprType::Assign { name: n, new_value }
                        &&& n == name
                        &&& new_value.line == line
                        &&& new_value.end_ty == ValueType::Any
                        &&& new_value.expr matches ExprType::Binary { left: l, op, right }
                        &&& *l == expr_of(ExprType::Identifier(name), line)
                        &&& op == compound_op(nt)
                        &&& w matches Wit::One(w1)
                        &&& derives(
                            toks,
                            Goal::Expr { lvl: Precedence::Assignment, e: *right },
                            p + 2,
                            q,
                            *w1,
                        )
                    } else {
                        q == p + 1 && e == expr_of(ExprType::Identifier(name), line)
                    }
                },
                FnType::Grouping => {
                    &&& p + 1 < q - 1
                    &&& toks[q - 1].ty == TokenType::RightParen
                    &&& w matches Wit::One(w1)
                    &&& derives(toks, Goal::Expr { lvl: Precedence::Assignment, e }, p + 1, q - 1, *w1)
                },
                FnType::Unary => {
                    &&& p + 1 < q
                    &&& e.line == toks[q - 1].line
                    &&& e.end_ty == ValueType::Any
                    &&& e.expr matches ExprType::Unary { prefix, value }
                    &&& prefix == t.ty
                    &&& w matches Wit::One(w1)
                    &&& derives(toks, Goal::Expr { lvl: Precedence::Unary, e: *value }, p + 1, q, *w1)
                },
                FnType::Array => {
                    &&& p + 1 < q
                    &&& e.line == toks[q - 1].line
                    &&& e.end_ty == ValueType::Any
                    &&& e.expr matches ExprType::Array(v)
                    &&& w matches Wit::One(w1)
                    &&& derives(
                        toks,
                        Goal::List { items: v@, close: TokenType::RightBracket },
                        p + 1,
                        q,
                        *w1,
                    )
                },
                _ => false,
            }
        },
        Goal::Infix { left, ca, e } => {
            let m = p;
            let t = toks[m];
            &&& span(toks, m, q)
            &&& match rule_of(t.ty).infix {
                FnType::Binary => {
                    &&& m + 1 < q
                    &&& e.line == toks[q - 1].line
                    &&& e.end_ty == ValueType::Any
                    &&& e.expr matches ExprType::Binary { left: l, op, right }
                    &&& *l == left
                    &&& op == op_of_token(t.ty)
                    &&& w matches Wit::One(w1)
                    &&& derives(
                        toks,
                        Goal::Expr { lvl: next_precedence(precedence_of(op)), e: *right },
                        m + 1,
                        q,
                        *w1,
                    )
                },
                FnType::Call => {
                    &&& m + 1 < q
                    &&& e.line == toks[q - 1].line
                    &&& e.end_ty == ValueType::Any
                    &&& w matches Wit::One(w1)
                    &&& derives(
                        toks,
                        Goal::List { items: call_args(e.expr), close: TokenType::RightParen },
                        m + 1,
                        q,
                        *w1,
                    )
                    &&& match left.expr {
                        ExprType::Identifier(n) => e.expr matches ExprType::FuncCall {
                            name,
                            index,
                            ..
                        } && name == n && index is None,
                        ExprType::Dot { inst, property } => e.expr matches ExprType::MethodCall {
                            inst: i,
                            property: pr,
                            is_static,
                            ..
                        } && i == inst && pr == property && !is_static,
                        ExprType::Colon { inst, property } => e.expr matches ExprType::MethodCall {
                            inst: i,
                            property: pr,
                            is_static,
                            ..
                        } && i == inst && pr == property && is_static,
                        _ => false,
                    }
                },
                FnType::Index => {
                    &&& e.line == toks[q - 1].line
                    &&& e.end_ty == ValueType::Any
                    &&& match w {
                        Wit::One(w1) => {
                            &&& m + 1 < q - 1
                            &&& toks[q - 1].ty == TokenType::RightBracket
                            &&& !(ca && toks[q].ty == TokenType::Equal)
                            &&& e.expr matches ExprType::Index { arr, index }
                            &&& *arr == left
                            &&& derives(
                                toks,
                                Goal::Expr { lvl: Precedence::Assignment, e: *index },
                                m + 1,
                                q - 1,
                                *w1,
                            )
                        },
                        Wit::Two { at: k, a, b, .. } => {
                            &&& ca
                            &&& e.expr matches ExprType::AssignIndex { arr, index, new_value }
                            &&& *arr == left
                            &&& m + 1 < k
                            &&& k + 2 < q
                            &&& toks[k].ty == TokenType::RightBracket
                            &&& toks[k + 1].ty == TokenType::Equal
                            &&& derives(
                                toks,
                                Goal::Expr { lvl: Precedence::Assignment, e: *index },
                                m + 1,
                                k,
                                *a,
                            )
                            &&& derives(
                                toks,
                                Goal::Expr { lvl: Precedence::Assignment, e: *new_value },
                                k + 2,
                                q,
                                *b,
                            )
                        },
                        _ => false,
                    }
                },
                FnType::Dot => {
                    let name = toks[m + 1].lexeme;
                    let line = toks[m + 1].line;
                    let nt = toks[m + 2].ty;
                    let plain = expr_of(ExprType::Dot { inst: Box::new(left), property: name }, line);
                    &&& toks[m + 1].ty == TokenType::Identifier
                    &&& if nt == TokenType::Equal && ca {
                        &&& m + 3 < q
                        &&& e.line == line
                        &&& e.end_ty == ValueType::Any
                        &&& e.expr matches ExprType::DotAssign { inst, property, new_value }
                        &&& *inst == left
                        &&& property == name
                        &&& w matches Wit::One(w1)
                        &&& derives(
                            toks,
                            Goal::Expr { lvl: Precedence::Assignment, e: *new_value },
                            m + 3,
                            q,
                            *w1,
                        )
                    } else if nt == TokenType::Equal {
                        q == m + 3 && e == plain
                    } else if ca && is_compound_assign(nt) {
                        &&& m + 3 < q
                        &&& e.line == line
                        &&& e.end_ty == ValueType::Any
                        &&& e.expr matches ExprType::DotAssign { inst, property, new_value }
                        &&& *inst == left
                        &&& property == name
                        &&& new_value.line == line
                        &&& new_value.end_ty == ValueType::Any
                        &&& new_value.expr matches ExprType::Binary { left: l, op, right }
                        &&& op == compound_op(nt)
                        &&& l.line == line
                        &&& l.end_ty == ValueType::Any
                        &&& l.expr matches ExprType::Dot { inst: i2, property: p2 }
                        &&& p2 == name
                        &&& same_expr(*i2, left)
                        &&& w matches Wit::One(w1)
                        &&& derives(
                            toks,
                            Goal::Expr { lvl: Precedence::Assignment, e: *right },
                            m + 3,
                            q,
                            *w1,
                        )
                    } else {
                        q == m + 2 && e == plain
                    }
                },
                FnType::DoubleColon => q == m + 2 && toks[m + 1].ty == TokenType::Identifier && e
                    == expr_of(
                    ExprType::Colon { inst: Box::new(left), property: toks[m + 1].lexeme },
                    toks[m + 1].line,
                ),
                FnType::Cast => {
                    &&& q == m + 2
                    &&& value_type_of(toks[m + 1]) matches Some(ty)
                    &&& e == expr_of(ExprType::Cast { value: Box::new(left), target_ty: ty }, t.line)
                },
                _ => false,
            }
        },
        Goal::List { items, close } => {
            &&& span(toks, p, q)
            &&& if items.len() == 0 {
                toks[p].ty == close && q == p + 1
            } else {
                &&& toks[p].ty != close
                &&& w matches Wit::Two { at: k, a, b, .. }
                &&& p < k < q
                &&& derives(
                    toks,
                    Goal::Expr { lvl: Precedence::Assignment, e: items[0] },
                    p,
                    k,
                    *a,
                )
                &&& {
                    ||| (toks[k].ty == TokenType::Comma && derives(
                        toks,
                        Goal::List { items: items.drop_first(), close },
                        k + 1,
                        q,
                        *b,
                    ))
                    ||| (toks[k].ty == close && q == k + 1 && items.len() == 1)
                }
            }
        },
        Goal::Head { items, close } => if items.len() == 0 {
            q == p
        } else {
            &&& 0 <= p < q
            &&& toks[p].ty != close
            &&& w matches Wit::Two { at: k, a, b, .. }
            &&& p < k < q
            &&& derives(toks, Goal::Expr { lvl: Precedence::Assignment, e: items[0] }, p, k, *a)
            &&& toks[k].ty == TokenType::Comma
            &&& derives(toks, Goal::Head { items: items.drop_first(), close }, k + 1, q, *b)
        },
    }
}

/// `e` is the expression read from `p` to `q` at binding power `lvl`, and
/// reading stops at `q`.
pub open spec fn expr_form(toks: Seq<Token>, p: int, q: int, lvl: Precedence, e: Expr) -> bool {
    exists|w: Wit| #[trigger] derives(toks, Goal::Expr { lvl, e }, p, q, w)
}

/// `e` is read from `p` to `q` at binding power `lvl`; reading may go on.
pub open spec fn chain_form(toks: Seq<Token>, p: int, q: int, lvl: Precedence, e: Expr) -> bool {
    exists|w: Wit| #[trigger] derives(toks, Goal::Chain { lvl, e }, p, q, w)
}

/// `e` is what the prefix rule of the token at `p` reads, up to `q`.
pub open spec fn prefix_form(toks: Seq<Token>, p: int, q: int, ca: bool, e: Expr) -> bool {
    exists|w: Wit| #[trigger] derives(toks, Goal::Prefix { ca, e }, p, q, w)
}

/// `e` is what the infix rule of the token at `m` reads after `left`, up to
/// `q`.
pub open spec fn infix_form(toks: Seq<Token>, left: Expr, m: int, q: int, ca: bool, e: Expr) -> bool {
    exists|w: Wit| #[trigger] derives(toks, Goal::Infix { left, ca, e }, m, q, w)
}

/// `items` are read from `s` to `q` as a list of expressions separated by
/// commas, with an optional comma at the end, closed by `close`.
pub open spec fn list_form(toks: Seq<Token>, s: int, q: int, items: Seq<Expr>, close: TokenType) -> bool {
    exists|w: Wit| #[trigger] derives(toks, Goal::List { items, close }, s, q, w)
}

/// `items` are read from `s` to `c`, each followed by a comma, at the start
/// of a list closed by `close`.
pub open spec fn list_head(toks: Seq<Token>, s: int, c: int, items: Seq<Expr>, close: TokenType) -> bool {
    exists|w: Wit| #[trigger] derives(toks, Goal::Head { items, close }, s, c, w)
}

/// The prefix rules that read a whole expression from their one token.
pub open spec fn value_prefix(f: FnType) -> bool {
    f == FnType::Number || f == FnType::String || f == FnType::Literal || f == FnType::Var || f
        == FnType::This
}

/// A list head followed by one more item and a comma is a longer list head.
pub proof fn lemma_list_head_push(
    toks: Seq<Token>,
    s: int,
    c: int,
    items: Seq<Expr>,
    close: TokenType,
    k: int,
    e: Expr,
)
    requires
        list_head(toks, s, c, items, close),
        expr_form(toks, c, k, Precedence::Assignment, e),
        toks[c].ty != close,
        toks[k].ty == TokenType::Comma,
    ensures
        list_head(toks, s, k + 1, items.push(e), close),
    decreases items.len(),
{
    let wh = choose|w: Wit| #[trigger] derives(toks, Goal::Head { items, close }, s, c, w);
    let we = choose|w: Wit|
        #[trigger] derives(toks, Goal::Expr { lvl: Precedence::Assignment, e }, c, k, w);
    let all = items.push(e);
    assert(all[0] == if items.len() == 0 {
        e
    } else {
        items[0]
    });
    if items.len() == 0 {
        assert(all.drop_first() =~= Seq::<Expr>::empty());
        let w = Wit::Two { at: k, left: e, a: Box::new(we), b: Box::new(Wit::Leaf) };
        assert(derives(toks, Goal::Head { items: all.drop_first(), close }, k + 1, k + 1, Wit::Leaf));
        assert(derives(toks, Goal::Head { items: all, close }, s, k + 1, w));
    } else {
        if let Wit::Two { at: k0, a, b, .. } = wh {
            assert(derives(toks, Goal::Head { items: items.drop_first(), close }, k0 + 1, c, *b));
            lemma_list_head_push(toks, k0 + 1, c, items.drop_first(), close, k, e);
            assert(all.drop_first() =~= items.drop_first().push(e));
            let wr = choose|w: Wit|
                #[trigger] derives(
                    toks,
                    Goal::Head { items: all.drop_first(), close },
                    k0 + 1,
                    k + 1,
                    w,
                );
            let w = Wit::Two { at: k0, left: e, a, b: Box::new(wr) };
            assert(derives(toks, Goal::Head { items: all, close }, s, k + 1, w));
        }
    }
}

/// A list head followed by the rest of a list is a list.
pub proof fn lemma_list_head_rest(
    toks: Seq<Token>,
    s: int,
    c: int,
    items: Seq<Expr>,
    q: int,
    rest: Seq<Expr>,
    close: TokenType,
)
    requires
        list_head(toks, s, c, items, close),
        list_form(toks, c, q, rest, close),
    ensures
        list_form(toks, s, q, items + rest, close),
    decreases items.len(),
{
    let wh = choose|w: Wit| #[trigger] derives(toks, Goal::Head { items, close }, s, c, w);
    let all = items + rest;
    if items.len() == 0 {
        assert(all =~= rest);
    } else {
        if let Wit::Two { at: k0, a, b, .. } = wh {
            assert(derives(toks, Goal::Head { items: items.drop_first(), close }, k0 + 1, c, *b));
            lemma_list_head_rest(toks, k0 + 1, c, items.drop_first(), q, rest, close);
            assert(all.drop_first() =~= items.drop_first() + rest);
            assert(all[0] == items[0]);
            let wr = choose|w: Wit|
                #[trigger] derives(toks, Goal::List { items: all.drop_first(), close }, k0 + 1, q, w);
            let w = Wit::Two { at: k0, left: items[0], a, b: Box::new(wr) };
            assert(span(toks, c, q));
            assert(derives(toks, Goal::List { items: all, close }, s, q, w));
        }
    }
}

/// An item closed by `close` after a list head makes a list.
pub proof fn lemma_list_head_last(
    toks: Seq<Token>,
    s: int,
    c: int,
    items: Seq<Expr>,
    k: int,
    e: Expr,
    close: TokenType,
)
    requires
        list_head(toks, s, c, items, close),
        expr_form(toks, c, k, Precedence::Assignment, e),
        toks[c].ty != close,
        toks[k].ty == close,
        k + 1 < toks.len(),
    ensures
        list_form(toks, s, k + 1, items.push(e), close),
{
    let we = choose|w: Wit|
        #[trigger] derives(toks, Goal::Expr { lvl: Precedence::Assignment, e }, c, k, w);
    let w = Wit::Two { at: k, left: e, a: Box::new(we), b: Box::new(Wit::Leaf) };
    assert(seq![e][0] == e);
    assert(derives(toks, Goal::List { items: seq![e], close }, c, k + 1, w));
    lemma_list_head_rest(toks, s, c, items, k + 1, seq![e], close);
    assert(items + seq![e] =~= items.push(e));
}

/// A list head at the close of a list makes a list.
pub proof fn lemma_list_head_close(
    toks: Seq<Token>,
    s: int,
    c: int,
    items: Seq<Expr>,
    close: TokenType,
)
    requires
        list_head(toks, s, c, items, close),
        0 <= c,
        c + 1 < toks.len(),
        toks[c].ty == close,
    ensures
        list_form(toks, s, c + 1, items, close),
{
    assert(derives(toks, Goal::List { items: Seq::empty(), close }, c, c + 1, Wit::Leaf));
    lemma_list_head_rest(toks, s, c, items, c + 1, Seq::empty(), close);
    assert(items + Seq::<Expr>::empty() =~= items);
}

// The grammar of statements, read as the expressions are: each form says
// of a statement which tokens it is read from.

/// Positions `c + 1 .. c + 1 + 2 * n` hold `n` pairs of `[` and `]`.
pub open spec fn brackets_at(toks: Seq<Token>, c: int, n: nat) -> bool {
    forall|i: int|
        0 <= i < n ==> #[trigger] toks[c + 2 * i].ty == TokenType::LeftBracket && toks[c + 2 * i
            + 1].ty == TokenType::RightBracket
}

/// A parameter `T[]... name` read from `c` up to `d`.
pub open spec fn param_at(toks: Seq<Token>, c: int, d: int, param: (ValueType, String)) -> bool {
    exists|n: nat|
        #![trigger brackets_at(toks, c + 1, n)]
        value_type_of(toks[c]) is Some && brackets_at(toks, c + 1, n) && toks[c + 1 + 2 * n].ty
            == TokenType::Identifier && d == c + 2 + 2 * n && param == (
            array_of(value_type_of(toks[c])->0, n),
            toks[c + 1 + 2 * n].lexeme,
        )
}

/// Parameters separated by commas read from `c` up to `e`, the `k`-th
/// ending at `ends[k]`.
pub open spec fn params_at(
    toks: Seq<Token>,
    c: int,
    e: int,
    ps: Seq<(ValueType, String)>,
    ends: Seq<int>,
) -> bool
    decreases ps.len(),
{
    if ps.len() == 0 {
        false
    } else {
        &&& ends.len() == ps.len()
        &&& param_at(toks, c, ends[0], ps[0])
        &&& if ps.len() == 1 {
            e == ends[0]
        } else {
            toks[ends[0]].ty == TokenType::Comma && params_at(
                toks,
                ends[0] + 1,
                e,
                ps.drop_first(),
                ends.drop_first(),
            )
        }
    }
}

/// Where the parameters of a parameter list beginning at `c` begin: after an
/// optional `this` and an optional comma after it.
pub open spec fn params_start(toks: Seq<Token>, c: int) -> int {
    if toks[c].ty == TokenType::This {
        if toks[c + 1].ty == TokenType::Comma {
            c + 2
        } else {
            c + 1
        }
    } else {
        c
    }
}

/// Fields `T[]... name;` read from `c` up to `f`, the `k`-th ending with its
/// `;` at `ends[k]`, none beginning at a `}` or `fn`.
pub open spec fn fields_at(
    toks: Seq<Token>,
    c: int,
    f: int,
    fs: Seq<(ValueType, String)>,
    ends: Seq<int>,
) -> bool
    decreases fs.len(),
{
    if fs.len() == 0 {
        f == c && ends.len() == 0
    } else {
        &&& ends.len() == fs.len()
        &&& toks[c].ty != TokenType::RightBrace
        &&& toks[c].ty != TokenType::Fn
        &&& param_at(toks, c, ends[0], fs[0])
        &&& toks[ends[0]].ty == TokenType::Semicolon
        &&& fields_at(toks, ends[0] + 1, f, fs.drop_first(), ends.drop_first())
    }
}

/// A field after a list of fields makes a longer list.
pub proof fn lemma_fields_push(
    toks: Seq<Token>,
    c: int,
    f: int,
    fs: Seq<(ValueType, String)>,
    ends: Seq<int>,
    d: int,
    x: (ValueType, String),
)
    requires
        fields_at(toks, c, f, fs, ends),
        toks[f].ty != TokenType::RightBrace,
        toks[f].ty != TokenType::Fn,
        param_at(toks, f, d, x),
        toks[d].ty == TokenType::Semicolon,
    ensures
        fields_at(toks, c, d + 1, fs.push(x), ends.push(d)),
    decreases fs.len(),
{
    if fs.len() == 0 {
        assert(fs.push(x).drop_first() =~= Seq::<(ValueType, String)>::empty());
        assert(ends.push(d).drop_first() =~= Seq::<int>::empty());
        assert(fields_at(toks, d + 1, d + 1, Seq::empty(), Seq::empty()));
    } else {
        lemma_fields_push(toks, ends[0] + 1, f, fs.drop_first(), ends.drop_first(), d, x);
        assert(fs.push(x).drop_first() =~= fs.drop_first().push(x));
        assert(ends.push(d).drop_first() =~= ends.drop_first().push(d));
    }
}

/// Methods read one after another, the `i`-th from `starts[i]` up to
/// `starts[i + 1]`, each beginning with `fn`.
pub open spec fn methods_at(toks: Seq<Token>, starts: Seq<int>, ms: Seq<Stmt>) -> bool {
    &&& decls_at(toks, starts, ms)
    &&& forall|i: int| 0 <= i < ms.len() ==> #[trigger] toks[starts[i]].ty == TokenType::Fn
}

/// Methods read one after another, followed by a token other than `fn`, are
/// the methods of a struct.
pub proof fn lemma_methods_close(toks: Seq<Token>, starts: Seq<int>, ms: Seq<Stmt>)
    requires
        starts.len() == ms.len() + 1,
        0 <= starts[0],
        starts[ms.len() as int] < toks.len(),
        toks[starts[ms.len() as int]].ty != TokenType::Fn,
        methods_at(toks, starts, ms),
    ensures
        exists|w: SWit| #[trigger] sderives(
            toks,
            SGoal::Methods { stmts: ms },
            starts[0],
            starts[ms.len() as int],
            w,
        ),
    decreases ms.len(),
{
    let n = ms.len() as int;
    if n == 0 {
        assert(sderives(toks, SGoal::Methods { stmts: ms }, starts[0], starts[0], SWit::Leaf));
    } else {
        let rs = starts.drop_first();
        let rest = ms.drop_first();
        assert forall|i: int| #![trigger rest[i]] 0 <= i < rest.len() implies decl_form(toks, rs[i], rs[i + 1], rest[i])
            && toks[rs[i]].ty != TokenType::RightBrace && toks[rs[i]].ty != TokenType::Eof && rs[i] < rs[i + 1] by {
            assert(rest[i] == ms[i + 1]);
        }
        assert forall|i: int| 0 <= i < rest.len() implies #[trigger] toks[rs[i]].ty == TokenType::Fn by {
            assert(rs[i] == starts[i + 1]);
        }
        assert(ms[0] == ms[0]);
        assert(rs[rest.len() as int] == starts[n]);
        assert(methods_at(toks, rs, rest));
        lemma_methods_close(toks, rs, rest);
        let wd = choose|w: SWit| #[trigger] sderives(toks, SGoal::Decl { s: ms[0] }, starts[0], starts[1], w);
        let wr = choose|w: SWit| #[trigger] sderives(toks, SGoal::Methods { stmts: rest }, starts[1], starts[n], w);
        assert(sderives(
            toks,
            SGoal::Methods { stmts: ms },
            starts[0],
            starts[n],
            SWit::At { at: starts[1], at2: 0, a: Box::new(wd), b: Box::new(wr) },
        ));
    }
}

/// The parameter list of a function read from `c` up to its `)` at `e`: an
/// optional `this` with an optional comma after it, then parameters.
pub open spec fn param_list_at(
    toks: Seq<Token>,
    c: int,
    e: int,
    ps: Seq<(ValueType, String)>,
    use_self: bool,
) -> bool {
    let c1 = params_start(toks, c);
    &&& toks[e].ty == TokenType::RightParen
    &&& use_self == (toks[c].ty == TokenType::This)
    &&& if toks[c].ty == TokenType::RightParen {
        e == c && ps.len() == 0
    } else if toks[c1].ty == TokenType::RightParen {
        e == c1 && ps.len() == 0
    } else {
        exists|ends: Seq<int>| #[trigger] params_at(toks, c1, e, ps, ends)
    }
}

/// What a stretch of tokens is read as: a declaration, a statement, the
/// declarations of a block up to its `}`, the declarations of a function
/// body up to its `}` or the end of the input, or the methods of a struct.
pub enum SGoal {
    Decl { s: Stmt },
    Stmt { s: Stmt },
    Block { stmts: Seq<Stmt> },
    Body { stmts: Seq<Stmt> },
    Methods { stmts: Seq<Stmt> },
}

/// How a stretch of statement tokens is taken apart: at positions `at` and
/// `at2`, with the parts read as `a` and `b` say.
pub enum SWit {
    Leaf,
    At { at: int, at2: int, a: Box<SWit>, b: Box<SWit> },
}

/// The grammar of statements: the tokens from `p` up to, and not including,
/// `q` are read as goal `g`, taken apart as `w` says.
pub open spec fn sderives(toks: Seq<Token>, g: SGoal, p: int, q: int, w: SWit) -> bool
    decreases w,
{
    let t = toks[p];
    &&& 0 <= p <= q < toks.len()
    &&& match g {
        SGoal::Stmt { s } => match w {
            SWit::At { at: k, at2: m, a, b } => match t.ty {
                TokenType::Print => {
                    &&& s.stmt matches StmtType::Println(e)
                    &&& expr_form(toks, p + 1, k, Precedence::Assignment, e)
                    &&& toks[k].ty == TokenType::Semicolon
                    &&& q == k + 1
                    &&& s.line == toks[k].line
                },
                TokenType::LeftBrace => {
                    &&& s.stmt matches StmtType::Block(v)
                    &&& s.line == toks[q - 1].line
                    &&& sderives(toks, SGoal::Block { stmts: v@ }, p + 1, q, *a)
                },
                TokenType::If => {
                    &&& s.stmt matches StmtType::If { condition, body, final_else }
                    &&& s.line == t.line
                    &&& expr_form(toks, p + 1, k, Precedence::Assignment, condition)
                    &&& sderives(toks, SGoal::Stmt { s: *body }, k, m, *a)
                    &&& if toks[m].ty == TokenType::Else {
                        final_else matches Some(fe) && sderives(
                            toks,
                            SGoal::Stmt { s: *fe },
                            m + 1,
                            q,
                            *b,
                        )
                    } else {
                        final_else is None && q == m
                    }
                },
                TokenType::While => {
                    &&& s.stmt matches StmtType::While { condition, body }
                    &&& s.line == toks[q - 1].line
                    &&& expr_form(toks, p + 1, k, Precedence::Assignment, condition)
                    &&& sderives(toks, SGoal::Stmt { s: *body }, k, q, *a)
                },
                TokenType::For => {
                    let name = toks[p + 1].lexeme;
                    let line = toks[p + 1].line;
                    &&& toks[p + 1].ty == TokenType::Identifier
                    &&& toks[p + 2].ty == TokenType::In
                    &&& toks[k].ty == TokenType::To
                    &&& s.line == line
                    &&& s.stmt matches StmtType::For { var, condition, body }
                    &&& var.line == line
                    &&& var.stmt matches StmtType::VarDecl { name: n, value, ty }
                    &&& n == name
                    &&& ty == ValueType::I64
                    &&& expr_form(toks, p + 3, k, Precedence::Assignment, value)
                    &&& condition.line == line
                    &&& condition.end_ty == ValueType::Any
                    &&& condition.expr matches ExprType::Binary { left, op, right }
                    &&& *left == expr_of(ExprType::Identifier(name), line)
                    &&& op == BinaryOp::Less
                    &&& right.line == line
                    &&& right.end_ty == ValueType::Any
                    &&& right.expr matches ExprType::Cast { value: bound, target_ty }
                    &&& target_ty == ValueType::I64
                    &&& expr_form(toks, k + 1, m, Precedence::Assignment, *bound)
                    &&& sderives(toks, SGoal::Stmt { s: *body }, m, q, *a)
                },
                TokenType::Return => {
                    &&& s.stmt matches StmtType::Return(e)
                    &&& toks[q - 1].ty == TokenType::Semicolon
                    &&& s.line == toks[q - 1].line
                    &&& if toks[p + 1].ty == TokenType::Semicolon {
                        q == p + 2 && e == expr_of(ExprType::Lit(crate::token::Literal::Null), t.line)
                    } else {
                        expr_form(toks, p + 1, q - 1, Precedence::Assignment, e)
                    }
                },
                TokenType::Break => q == p + 2 && toks[p + 1].ty == TokenType::Semicolon && s
                    == Stmt { stmt: StmtType::Break, line: toks[p + 1].line },
                TokenType::Continue => q == p + 2 && toks[p + 1].ty == TokenType::Semicolon && s
                    == Stmt { stmt: StmtType::Continue, line: toks[p + 1].line },
                _ => {
                    &&& s.stmt matches StmtType::Expr(e)
                    &&& expr_form(toks, p, k, Precedence::Assignment, e)
                    &&& toks[k].ty == TokenType::Semicolon
                    &&& q == k + 1
                    &&& s.line == toks[k - 1].line
                },
            },
            _ => false,
        },
        SGoal::Decl { s } => match value_type_of(t) {
            Some(vt) => if toks[p + 1].ty != TokenType::Identifier && toks[p + 1].ty
                != TokenType::LeftBracket || toks[p + 2].ty == TokenType::Num {
                w matches SWit::At { a, .. } && sderives(toks, SGoal::Stmt { s }, p, q, *a)
            } else {
                &&& w matches SWit::At { at: j, at2: k, .. }
                &&& s.stmt matches StmtType::VarDecl { name, value, ty }
                &&& toks[j].ty == TokenType::Identifier
                &&& s.line == toks[j].line
                &&& name == toks[j].lexeme
                &&& exists|n: nat|
                    #![trigger brackets_at(toks, p + 1, n)]
                    brackets_at(toks, p + 1, n) && j == p + 1 + 2 * n && ty == array_of(vt, n)
                &&& if toks[j + 1].ty == TokenType::Equal {
                    expr_form(toks, j + 2, k, Precedence::Assignment, value) && toks[k].ty
                        == TokenType::Semicolon && q == k + 1
                } else {
                    toks[j + 1].ty == TokenType::Semicolon && q == j + 2 && value == expr_of(
                        ExprType::Lit(crate::token::Literal::Null),
                        toks[j].line,
                    )
                }
            },
            None => if t.ty == TokenType::Fn {
                let name = toks[p + 1];
                &&& name.ty == TokenType::Identifier
                &&& toks[p + 2].ty == TokenType::LeftParen
                &&& s.line == name.line
                &&& s.stmt matches StmtType::Func { name: n, parameters, body, return_ty, use_self }
                &&& n == name.lexeme
                &&& w matches SWit::At { at: e, at2: r1, a, .. }
                &&& param_list_at(toks, p + 3, e, parameters@, use_self)
                &&& if toks[e + 1].ty == TokenType::Colon {
                    value_type_of(toks[e + 2]) == Some(return_ty) && r1 == e + 3
                } else {
                    return_ty == ValueType::Null && r1 == e + 1
                }
                &&& toks[r1].ty == TokenType::LeftBrace
                &&& sderives(toks, SGoal::Body { stmts: body@ }, r1 + 1, q, *a)
            } else if t.ty == TokenType::Struct {
                &&& toks[p + 1].ty == TokenType::Identifier
                &&& toks[p + 2].ty == TokenType::LeftBrace
                &&& s.line == toks[p + 1].line
                &&& s.stmt matches StmtType::Struct { name, fields, methods }
                &&& name == toks[p + 1].lexeme
                &&& w matches SWit::At { at: f, a, .. }
                &&& (exists|ends: Seq<int>| #[trigger] fields_at(toks, p + 3, f, fields@, ends))
                &&& (toks[f].ty == TokenType::RightBrace || toks[f].ty == TokenType::Fn)
                &&& sderives(toks, SGoal::Methods { stmts: methods@ }, f, q - 1, *a)
                &&& toks[q - 1].ty == TokenType::RightBrace
            } else if t.ty == TokenType::Enum {
                s.stmt matches StmtType::Enum { name, .. } && name == toks[p + 1].lexeme && s.line
                    == toks[p + 1].line && toks[q - 1].ty == TokenType::RightBrace
            } else {
                w matches SWit::At { a, .. } && sderives(toks, SGoal::Stmt { s }, p, q, *a)
            },
        },
        SGoal::Block { stmts } => if stmts.len() == 0 {
            t.ty == TokenType::RightBrace && q == p + 1
        } else {
            &&& t.ty != TokenType::RightBrace
            &&& t.ty != TokenType::Eof
            &&& w matches SWit::At { at: k, a, b, .. }
            &&& p < k
            &&& sderives(toks, SGoal::Decl { s: stmts[0] }, p, k, *a)
            &&& sderives(toks, SGoal::Block { stmts: stmts.drop_first() }, k, q, *b)
        },
        SGoal::Methods { stmts } => if stmts.len() == 0 {
            q == p && t.ty != TokenType::Fn
        } else {
            &&& t.ty == TokenType::Fn
            &&& w matches SWit::At { at: k, a, b, .. }
            &&& p < k
            &&& sderives(toks, SGoal::Decl { s: stmts[0] }, p, k, *a)
            &&& sderives(toks, SGoal::Methods { stmts: stmts.drop_first() }, k, q, *b)
        },
        SGoal::Body { stmts } => if stmts.len() == 0 {
            (t.ty == TokenType::RightBrace && q == p + 1) || (t.ty == TokenType::Eof && q == p)
        } else {
            &&& t.ty != TokenType::RightBrace
            &&& t.ty != TokenType::Eof
            &&& w matches SWit::At { at: k, a, b, .. }
            &&& p < k
            &&& sderives(toks, SGoal::Decl { s: stmts[0] }, p, k, *a)
            &&& sderives(toks, SGoal::Body { stmts: stmts.drop_first() }, k, q, *b)
        },
    }
}

/// `s` is the statement read from `p` up to `q`.
pub open spec fn stmt_form(toks: Seq<Token>, p: int, q: int, s: Stmt) -> bool {
    exists|w: SWit| #[trigger] sderives(toks, SGoal::Stmt { s }, p, q, w)
}

/// `s` is the declaration read from `p` up to `q`.
pub open spec fn decl_form(toks: Seq<Token>, p: int, q: int, s: Stmt) -> bool {
    exists|w: SWit| #[trigger] sderives(toks, SGoal::Decl { s }, p, q, w)
}

/// `stmts` are the declarations of a block read from `p` up to its `}`,
/// which ends at `q`.
pub open spec fn block_form(toks: Seq<Token>, p: int, q: int, stmts: Seq<Stmt>) -> bool {
    exists|w: SWit| #[trigger] sderives(toks, SGoal::Block { stmts }, p, q, w)
}

/// `stmts` are the declarations of a function body read from `p` up to its
/// `}`, or up to the end of the input, which ends at `q`.
pub open spec fn body_form(toks: Seq<Token>, p: int, q: int, stmts: Seq<Stmt>) -> bool {
    exists|w: SWit| #[trigger] sderives(toks, SGoal::Body { stmts }, p, q, w)
}

/// A whole program: the declarations `stmts` read one after another from the
/// beginning of the input up to its end, the `i`-th from `starts[i]` up to
/// `starts[i + 1]`.
pub open spec fn program_form(toks: Seq<Token>, stmts: Seq<Stmt>, starts: Seq<int>) -> bool {
    &&& starts.len() == stmts.len() + 1
    &&& starts[0] == 0
    &&& toks[starts[stmts.len() as int]].ty == TokenType::Eof
    &&& forall|i: int|
        #![trigger stmts[i]]
        0 <= i < stmts.len() ==> decl_form(toks, starts[i], starts[i + 1], stmts[i])
}

/// Declarations read one after another, the `i`-th from `starts[i]` up to
/// `starts[i + 1]`, none of them at a `}` or the end of the input.
pub open spec fn decls_at(toks: Seq<Token>, starts: Seq<int>, stmts: Seq<Stmt>) -> bool {
    &&& starts.len() == stmts.len() + 1
    &&& forall|i: int|
        #![trigger stmts[i]]
        0 <= i < stmts.len() ==> decl_form(toks, starts[i], starts[i + 1], stmts[i])
            && toks[starts[i]].ty != TokenType::RightBrace && toks[starts[i]].ty != TokenType::Eof
            && starts[i] < starts[i + 1]
}

/// Declarations read one after another and closed by a `}` make a block, and
/// a function body, which may also be closed by the end of the input.
pub proof fn lemma_decls_close(toks: Seq<Token>, starts: Seq<int>, stmts: Seq<Stmt>, q: int)
    requires
        decls_at(toks, starts, stmts),
        0 <= starts[0],
        starts[stmts.len() as int] < toks.len(),
        q < toks.len(),
        (toks[starts[stmts.len() as int]].ty == TokenType::RightBrace && q == starts[stmts.len() as int] + 1)
            || (toks[starts[stmts.len() as int]].ty == TokenType::Eof && q == starts[stmts.len() as int]),
    ensures
        body_form(toks, starts[0], q, stmts),
        toks[starts[stmts.len() as int]].ty == TokenType::RightBrace ==> block_form(toks, starts[0], q, stmts),
    decreases stmts.len(),
{
    let n = stmts.len() as int;
    if n == 0 {
        assert(sderives(toks, SGoal::Body { stmts }, starts[0], q, SWit::Leaf));
        if toks[starts[0]].ty == TokenType::RightBrace {
            assert(sderives(toks, SGoal::Block { stmts }, starts[0], q, SWit::Leaf));
        }
    } else {
        let rs = starts.drop_first();
        let rest = stmts.drop_first();
        assert forall|i: int| #![trigger rest[i]] 0 <= i < rest.len() implies decl_form(toks, rs[i], rs[i + 1], rest[i])
            && toks[rs[i]].ty != TokenType::RightBrace && toks[rs[i]].ty != TokenType::Eof && rs[i] < rs[i + 1] by {
            assert(rest[i] == stmts[i + 1]);
        }
        assert(stmts[0] == stmts[0]);
        assert(rs[rest.len() as int] == starts[n]);
        lemma_decls_close(toks, rs, rest, q);
        let wd = choose|w: SWit| #[trigger] sderives(toks, SGoal::Decl { s: stmts[0] }, starts[0], starts[1], w);
        let wb = choose|w: SWit| #[trigger] sderives(toks, SGoal::Body { stmts: rest }, starts[1], q, w);
        assert(sderives(
            toks,
            SGoal::Body { stmts },
            starts[0],
            q,
            SWit::At { at: starts[1], at2: 0, a: Box::new(wd), b: Box::new(wb) },
        ));
        if toks[starts[n]].ty == TokenType::RightBrace {
            let wk = choose|w: SWit| #[trigger] sderives(toks, SGoal::Block { stmts: rest }, starts[1], q, w);
            assert(sderives(
                toks,
                SGoal::Block { stmts },
                starts[0],
                q,
                SWit::At { at: starts[1], at2: 0, a: Box::new(wd), b: Box::new(wk) },
            ));
        }
    }
}

/// A parameter after a list of parameters and a comma makes a longer list.
pub proof fn lemma_params_push(
    toks: Seq<Token>,
    c: int,
    e: int,
    ps: Seq<(ValueType, String)>,
    ends: Seq<int>,
    d: int,
    pm: (ValueType, String),
)
    requires
        params_at(toks, c, e, ps, ends),
        toks[e].ty == TokenType::Comma,
        param_at(toks, e + 1, d, pm),
    ensures
        params_at(toks, c, d, ps.push(pm), ends.push(d)),
    decreases ps.len(),
{
    if ps.len() == 1 {
        assert(ps.push(pm).drop_first() =~= seq![pm]);
        assert(ends.push(d).drop_first() =~= seq![d]);
        assert(params_at(toks, e + 1, d, seq![pm], seq![d]));
    } else {
        lemma_params_push(toks, ends[0] + 1, e, ps.drop_first(), ends.drop_first(), d, pm);
        assert(ps.push(pm).drop_first() =~= ps.drop_first().push(pm));
        assert(ends.push(d).drop_first() =~= ends.drop_first().push(d));
    }
}

} // verus!
