use vstd::prelude::*;

use super::grammar::{
    brackets_at, decl_form, decls_at, fields_at, lemma_decls_close, lemma_fields_push,
    lemma_methods_close, lemma_params_push, methods_at, param_at, param_list_at, params_at,
    params_start, sderives, stmt_form, SGoal, SWit,
};
use super::parse_expr::{expr_of, lone_operand, operand_expr};
use super::{missing_name_msg, name_missing_at, opens_with, Parser};
use crate::binary_op::BinaryOp;
use crate::error::ParseErr;
use crate::expression::{Expr, ExprType};
use crate::statement::{Stmt, StmtType};
use crate::token::{value_type_of, Literal, Token, TokenType};
use crate::value::ValueType;

verus! {

const EXPECTED_SEMICOLON_MSG: &'static str = "Expected ';' at end of statement.";

/// `base` wrapped in `depth` array types.
pub open spec fn array_of(base: ValueType, depth: nat) -> ValueType
    decreases depth,
{
    if depth == 0 {
        base
    } else {
        ValueType::Arr(Box::new(array_of(base, (depth - 1) as nat)))
    }
}

/// The token that reading a token gives: the next one, or at the end of the
/// input the one read last.
pub(crate) open spec fn read_tok(p: Parser) -> Token {
    if p.at_eof() {
        p.prev_tok()
    } else {
        p.next_tok()
    }
}

/// A block with no statements, closed by the token at position `p`.
pub open spec fn empty_block_at(toks: Seq<Token>, p: int, s: Stmt) -> bool {
    &&& s.stmt matches StmtType::Block(v)
    &&& v@.len() == 0
    &&& s.line == toks[p].line
}

/// A statement read where a declaration may stand, when its first tokens
/// begin no variable, function, struct or enum declaration, is that
/// declaration.
proof fn stmt_to_decl(toks: Seq<Token>, p: int, q: int, r: Result<Stmt, ParseErr>)
    requires
        r matches Ok(st) ==> stmt_form(toks, p, q, st),
        0 <= p < toks.len(),
        r is Ok ==> (value_type_of(toks[p]) matches Some(vt) ==> (toks[p + 1].ty != TokenType::Identifier
            && toks[p + 1].ty != TokenType::LeftBracket || toks[p + 2].ty == TokenType::Num)),
        r is Ok ==> (value_type_of(toks[p]) is None ==> toks[p].ty != TokenType::Fn && toks[p].ty
            != TokenType::Struct && toks[p].ty != TokenType::Enum),
    ensures
        r matches Ok(st) ==> decl_form(toks, p, q, st),
{
    if r is Ok {
        let st = r->Ok_0;
        let w = choose|w: SWit| #[trigger] sderives(toks, SGoal::Stmt { s: st }, p, q, w);
        assert(sderives(
            toks,
            SGoal::Decl { s: st },
            p,
            q,
            SWit::At { at: 0, at2: 0, a: Box::new(w), b: Box::new(SWit::Leaf) },
        ));
    }
}

/// From position `p` on, a function's name, `()`, and `{}`: a function
/// without parameters, return type or statements.
pub open spec fn empty_func_at(toks: Seq<Token>, p: int) -> bool {
    &&& 0 <= p
    &&& p + 5 < toks.len()
    &&& toks[p].ty == TokenType::Identifier
    &&& toks[p + 1].ty == TokenType::LeftParen
    &&& toks[p + 2].ty == TokenType::RightParen
    &&& toks[p + 3].ty == TokenType::LeftBrace
    &&& toks[p + 4].ty == TokenType::RightBrace
}

/// The function an empty declaration from `p` on declares.
pub open spec fn empty_func(toks: Seq<Token>, p: int, s: Stmt) -> bool {
    &&& s.line == toks[p].line
    &&& s.stmt matches StmtType::Func { name, parameters, body, return_ty, use_self }
    &&& name == toks[p].lexeme
    &&& parameters@.len() == 0
    &&& body@.len() == 0
    &&& return_ty == ValueType::Null
    &&& !use_self
}

/// A declaration `name(T1 a1, ..., Tk ak) {}` from `p` on, with at least
/// one parameter: each parameter a type and a name, the parameters
/// separated by commas, and an empty body.
pub open spec fn params_func_at(toks: Seq<Token>, p: int, k: int) -> bool {
    &&& 0 <= p
    &&& 1 <= k
    &&& p + 3 * k + 4 < toks.len()
    &&& toks[p].ty == TokenType::Identifier
    &&& toks[p + 1].ty == TokenType::LeftParen
    &&& forall|i: int|
        0 <= i < k ==> #[trigger] value_type_of(toks[p + 2 + 3 * i]) is Some && toks[p + 3 + 3
            * i].ty == TokenType::Identifier && toks[p + 4 + 3 * i].ty == (if i + 1 < k {
            TokenType::Comma
        } else {
            TokenType::RightParen
        })
    &&& toks[p + 2 + 3 * k].ty == TokenType::LeftBrace
    &&& toks[p + 3 + 3 * k].ty == TokenType::RightBrace
}

/// The function such a declaration from `p` on, with `k` parameters,
/// declares.
pub open spec fn params_func(toks: Seq<Token>, p: int, k: int, s: Stmt) -> bool {
    &&& s.line == toks[p].line
    &&& s.stmt matches StmtType::Func { name, parameters, body, return_ty, use_self }
    &&& name == toks[p].lexeme
    &&& parameters@.len() == k
    &&& forall|i: int|
        0 <= i < k ==> (#[trigger] parameters@[i]).0 == value_type_of(toks[p + 2 + 3 * i])->0
            && parameters@[i].1@ == toks[p + 3 + 3 * i].lexeme@
    &&& body@.len() == 0
    &&& return_ty == ValueType::Null
    &&& !use_self
}

/// A declaration with parameters has one number of them.
pub proof fn lemma_params_func_unique(toks: Seq<Token>, p: int, k1: int, k2: int)
    requires
        params_func_at(toks, p, k1),
        params_func_at(toks, p, k2),
    ensures
        k1 == k2,
{
    if k1 < k2 {
        assert(value_type_of(toks[p + 2 + 3 * (k1 - 1)]) is Some);
        assert(value_type_of(toks[p + 2 + 3 * (k1 - 1)]) is Some);
        assert(toks[p + 4 + 3 * (k1 - 1)].ty == TokenType::RightParen);
    } else if k2 < k1 {
        assert(value_type_of(toks[p + 2 + 3 * (k2 - 1)]) is Some);
        assert(toks[p + 4 + 3 * (k2 - 1)].ty == TokenType::RightParen);
    }
}

/// `for name in a to b {}` from `p` on, both bounds operands standing alone.
pub open spec fn operand_for_at(toks: Seq<Token>, p: int) -> bool {
    &&& 0 <= p
    &&& p + 6 < toks.len()
    &&& toks[p].ty == TokenType::Identifier
    &&& toks[p + 1].ty == TokenType::In
    &&& lone_operand(toks, p + 2)
    &&& toks[p + 3].ty == TokenType::To
    &&& lone_operand(toks, p + 4)
    &&& toks[p + 5].ty == TokenType::LeftBrace
    &&& toks[p + 6].ty == TokenType::RightBrace
}

/// The loop such a `for` from `p` on gives: the variable starts at the
/// first bound, the condition compares it with the second, converted to an
/// integer, and the body is the empty block.
pub open spec fn operand_for(toks: Seq<Token>, p: int, s: Stmt) -> bool {
    &&& s.stmt matches StmtType::For { var, condition, body }
    &&& var.stmt matches StmtType::VarDecl { value, .. }
    &&& value == operand_expr(toks[p + 2])
    &&& condition.expr matches ExprType::Binary { right, .. }
    &&& right.expr matches ExprType::Cast { value: bound, .. }
    &&& *bound == operand_expr(toks[p + 4])
    &&& empty_block_at(toks, p + 6, *body)
}

/// The tokens whose statements are not expression statements.
pub open spec fn starts_keyword(ty: TokenType) -> bool {
    ty == TokenType::Print || ty == TokenType::LeftBrace || ty == TokenType::If || ty
        == TokenType::While || ty == TokenType::For || ty == TokenType::Break || ty
        == TokenType::Continue || ty == TokenType::Return
}

/// The keyword a statement begins with, and the kind of statement it is.
pub open spec fn statement_kind_matches(first: TokenType, s: StmtType) -> bool {
    match first {
        TokenType::Print => s is Println,
        TokenType::LeftBrace => s is Block,
        TokenType::If => s is If,
        TokenType::While => s is While,
        TokenType::For => s is For,
        TokenType::Break => s is Break,
        TokenType::Continue => s is Continue,
        TokenType::Return => s is Return,
        _ => s is Expr,
    }
}

impl Parser {
    /// Parses a declaration: a variable, function, struct or enum
    /// declaration, or else a statement.
    pub(super) fn declaration(&mut self) -> (r: Result<Stmt, ParseErr>)
        requires
            old(self).inv(),
            !old(self).at_eof(),
        ensures
            final(self).moved_on(*old(self)),
            final(self).current_token > old(self).current_token,
            r matches Ok(s) ==> {
                &&& opens_with(old(self).tokens@, old(self).cur(), s)
                &&& s.stmt matches StmtType::Struct { methods, .. } ==> forall|j: int|
                    0 <= j < methods@.len() ==> (#[trigger] methods@[j]).stmt is Func
            },
            name_missing_at(old(self).tokens@, old(self).cur()) ==> (r matches Err(e) && e.msg@
                == missing_name_msg(old(self).next_tok().ty) && e.line == old(self).next_tok().line),
            r matches Ok(st) ==> decl_form(old(self).tokens@, old(self).cur(), final(self).cur(), st),
            old(self).next_tok().ty == TokenType::Fn && empty_func_at(old(self).tokens@, old(self).cur() + 1)
                ==> (r matches Ok(st) && empty_func(old(self).tokens@, old(self).cur() + 1, st))
                && final(self).current_token == old(self).current_token + 6,
            forall|k: int|
                old(self).next_tok().ty == TokenType::Fn && #[trigger] params_func_at(
                    old(self).tokens@,
                    old(self).cur() + 1,
                    k,
                ) ==> (r matches Ok(st) && params_func(old(self).tokens@, old(self).cur() + 1, k, st))
                    && final(self).cur() == old(self).cur() + 3 * k + 5,
        decreases old(self).measure(), 32nat,
    {
        let ghost toks = old(self).tokens@;
        let ghost p = old(self).cur();
        let ghost by_stmt = false;
        let r = if let Some(var_type) = self.peek().as_value_type() {
            self.advance();
            if self.peek().ty != TokenType::Identifier && self.peek().ty
                != TokenType::LeftBracket {
                self.regress();
                let r = self.statement();
                proof {
                    stmt_to_decl(toks, p, self.cur(), r);
                }
                return r;
            }
            self.advance();
            if self.peek().ty == TokenType::Num {
                self.regress();
                self.regress();
                let r = self.statement();
                proof {
                    stmt_to_decl(toks, p, self.cur(), r);
                }
                return r;
            }
            self.regress();
            self.var_decl(var_type)
        } else if self.matches(TokenType::Fn) {
            self.func_decl()
        } else if self.matches(TokenType::Struct) {
            self.struct_decl()
        } else if self.matches(TokenType::Enum) {
            self.enum_decl()
        } else {
            let r = self.statement();
            proof {
                stmt_to_decl(toks, p, self.cur(), r);
            }
            r
        };
        r
    }

    /// Parses a statement; its kind follows from the token it begins with.
    fn statement(&mut self) -> (r: Result<Stmt, ParseErr>)
        requires
            old(self).inv(),
            old(self).started(),
        ensures
            final(self).moved_on(*old(self)),
            !old(self).at_eof() ==> final(self).current_token > old(self).current_token,
            r matches Ok(s) ==> statement_kind_matches(old(self).next_tok().ty, s.stmt),
            old(self).next_tok().ty == TokenType::LeftBrace && old(self).tok(old(self).cur() + 1).ty
                == TokenType::RightBrace ==> (r matches Ok(s) && empty_block_at(
                old(self).tokens@,
                old(self).cur() + 1,
                s,
            )) && final(self).current_token == old(self).current_token + 2,
            r matches Ok(st) ==> stmt_form(old(self).tokens@, old(self).cur(), final(self).cur(), st),
            old(self).at_eof() ==> r is Err,
        decreases old(self).measure(), 31nat,
    {
        if self.matches(TokenType::Print) {
            self.print_statement()
        } else if self.matches(TokenType::LeftBrace) {
            self.block()
        } else if self.matches(TokenType::If) {
            self.if_stmt()
        } else if self.matches(TokenType::While) {
            self.while_stmt()
        } else if self.matches(TokenType::For) {
            self.for_stmt()
        } else if self.matches(TokenType::Break) {
            self.break_stmt()
        } else if self.matches(TokenType::Continue) {
            self.continue_stmt()
        } else if self.matches(TokenType::Return) {
            self.return_stmt()
        } else {
            self.expr_stmt()
        }
    }

    /// `T[]... name = value;` or `T[]... name;`, whose value is then `null`.
    fn var_decl(&mut self, ty: ValueType) -> (r: Result<Stmt, ParseErr>)
        requires
            value_type_of(old(self).prev_tok()) == Some(ty),
            old(self).next_tok().ty == TokenType::Identifier || old(self).next_tok().ty == TokenType::LeftBracket,
            old(self).tok(old(self).cur() + 1).ty != TokenType::Num,
            old(self).inv(),
            old(self).current_token >= 1,
        ensures
            final(self).moved_on(*old(self)),
            r matches Ok(s) ==> (s.stmt matches StmtType::VarDecl { ty: t, .. } && exists|n: nat|
                t == array_of(ty, n)),
            old(self).next_tok().ty == TokenType::Identifier && old(self).tok(old(self).cur() + 1).ty
                == TokenType::Semicolon ==> r == Ok::<Stmt, ParseErr>(
                Stmt {
                    stmt: StmtType::VarDecl {
                        name: old(self).next_tok().lexeme,
                        value: expr_of(ExprType::Lit(Literal::Null), old(self).next_tok().line),
                        ty,
                    },
                    line: old(self).next_tok().line,
                },
            ) && final(self).current_token == old(self).current_token + 2,
            old(self).next_tok().ty == TokenType::Identifier && old(self).tok(old(self).cur() + 1).ty
                == TokenType::Equal && lone_operand(old(self).tokens@, old(self).cur() + 2) && old(
                self,
            ).tok(old(self).cur() + 3).ty == TokenType::Semicolon ==> r == Ok::<Stmt, ParseErr>(
                Stmt {
                    stmt: StmtType::VarDecl {
                        name: old(self).next_tok().lexeme,
                        value: operand_expr(old(self).tok(old(self).cur() + 2)),
                        ty,
                    },
                    line: old(self).next_tok().line,
                },
            ) && final(self).current_token == old(self).current_token + 4,
            old(self).next_tok().ty != TokenType::Identifier && old(self).next_tok().ty
                != TokenType::LeftBracket ==> (r matches Err(e) && e.msg@
                == "Expected variable name after type."@ && e.line == old(self).prev_tok().line),
            old(self).next_tok().ty == TokenType::Identifier && old(self).tok(old(self).cur() + 1).ty
                != TokenType::Equal && old(self).tok(old(self).cur() + 1).ty != TokenType::Semicolon
                ==> (r matches Err(e) && e.msg@ == EXPECTED_SEMICOLON_MSG@ && e.line == old(
                self,
            ).next_tok().line),
            r matches Ok(st) ==> decl_form(old(self).tokens@, old(self).cur() - 1, final(self).cur(), st),
        decreases old(self).measure(), 33nat,
    {
        let ghost base = ty;
        let ghost mut depth: nat = 0;
        let mut ty = ty;
        while self.matches(TokenType::LeftBracket)
            invariant
                self.moved_on(*old(self)),
                self.current_token >= 1,
                ty == array_of(base, depth),
                old(self).next_tok().ty != TokenType::LeftBracket ==> self.current_token == old(
                    self,
                ).current_token && depth == 0,
                self.cur() == old(self).cur() + 2 * depth,
                brackets_at(old(self).tokens@, old(self).cur(), depth),
            decreases self.measure(),
        {
            let ghost c = self.cur();
            self.consume(TokenType::RightBracket, "Expected ']' after left bracket.")?;
            ty = ValueType::Arr(Box::new(ty));
            proof {
                let toks = old(self).tokens@;
                let d0 = depth;
                depth = depth + 1;
                assert forall|i: int| 0 <= i < depth implies #[trigger] toks[old(self).cur() + 2 * i].ty
                    == TokenType::LeftBracket && toks[old(self).cur() + 2 * i + 1].ty
                    == TokenType::RightBracket by {
                    if i == d0 {
                        assert(old(self).cur() + 2 * i == c - 1);
                    } else {
                        assert(brackets_at(toks, old(self).cur(), d0));
                        assert(0 <= i < d0);
                    }
                }
            }
        }
        let ghost j = self.cur();
        self.consume(TokenType::Identifier, "Expected variable name after type.")?;
        let name = self.previous().lexeme.clone();
        let line = self.previous().line;
        let ghost mut k: int = 0;
        let value = if self.matches(TokenType::Equal) {
            let value = self.expression()?;
            proof {
                k = self.cur();
            }
            self.consume(TokenType::Semicolon, EXPECTED_SEMICOLON_MSG)?;
            value
        } else {
            self.consume(TokenType::Semicolon, EXPECTED_SEMICOLON_MSG)?;
            Expr::new(ExprType::Lit(Literal::Null), line)
        };
        let kind = StmtType::VarDecl { name, value, ty };
        let var = Stmt::new(kind, line);
        proof {
            let toks = old(self).tokens@;
            assert(brackets_at(toks, old(self).cur(), depth));
            assert(sderives(
                toks,
                SGoal::Decl { s: var },
                old(self).cur() - 1,
                self.cur(),
                SWit::At { at: j, at2: k, a: Box::new(SWit::Leaf), b: Box::new(SWit::Leaf) },
            ));
        }
        Ok(var)
    }

    /// `enum Name { A, B, }`.
    fn enum_decl(&mut self) -> (r: Result<Stmt, ParseErr>)
        requires
            old(self).prev_tok().ty == TokenType::Enum,
            old(self).inv(),
            old(self).current_token >= 1,
        ensures
            final(self).moved_on(*old(self)),
            r matches Ok(s) ==> (s.stmt matches StmtType::Enum { name, .. } && name == old(
                self,
            ).next_tok().lexeme && s.line == old(self).next_tok().line),
            old(self).next_tok().ty != TokenType::Identifier ==> (r matches Err(e) && e.msg@
                == "Expected enum name after 'enum' keyword."@ && e.line == old(self).prev_tok().line),
            r matches Ok(st) ==> decl_form(old(self).tokens@, old(self).cur() - 1, final(self).cur(), st),
    {
        self.consume(TokenType::Identifier, "Expected enum name after 'enum' keyword.")?;
        let name = self.previous().lexeme.clone();
        let line = self.previous().line;
        self.consume(TokenType::LeftBrace, "Expected '{' after enum name.")?;
        let mut variants: Vec<String> = Vec::new();
        while !self.check(TokenType::RightBrace)
            invariant
                self.moved_on(*old(self)),
                self.current_token >= 1,
                old(self).next_tok().ty == TokenType::Identifier,
            decreases self.measure(),
        {
            self.consume(TokenType::Identifier, "Expected variant name.")?;
            let variant_name = self.previous().lexeme.clone();
            variants.push(variant_name);
            self.consume(TokenType::Comma, "Expected ',' after enum variant.")?;
        }
        self.consume(TokenType::RightBrace, "Expected '}' after struct body.")?;
        let ty = StmtType::Enum { name, variants };
        let st = Stmt::new(ty, line);
        proof {
            assert(sderives(
                old(self).tokens@,
                SGoal::Decl { s: st },
                old(self).cur() - 1,
                self.cur(),
                SWit::Leaf,
            ));
        }
        Ok(st)
    }

    /// `struct Name { T field; ... fn method(...) {...} ... }`.
    fn struct_decl(&mut self) -> (r: Result<Stmt, ParseErr>)
        requires
            old(self).prev_tok().ty == TokenType::Struct,
            old(self).inv(),
            old(self).current_token >= 1,
        ensures
            final(self).moved_on(*old(self)),
            r matches Ok(s) ==> {
                &&& s.stmt matches StmtType::Struct { name, methods, .. }
                &&& name == old(self).next_tok().lexeme
                &&& s.line == old(self).next_tok().line
                &&& forall|j: int| 0 <= j < methods@.len() ==> (#[trigger] methods@[j]).stmt is Func
            },
            old(self).next_tok().ty != TokenType::Identifier ==> (r matches Err(e) && e.msg@
                == "Expected struct name after 'struct' keyword."@ && e.line == old(self).prev_tok().line),
            r matches Ok(st) ==> decl_form(old(self).tokens@, old(self).cur() - 1, final(self).cur(), st),
        decreases old(self).measure(), 34nat,
    {
        self.consume(TokenType::Identifier, "Expected struct name after 'struct' keyword.")?;
        let name = self.previous().lexeme.clone();
        let line = self.previous().line;
        self.consume(TokenType::LeftBrace, "Expected '{' after struct name.")?;
        let ghost toks = old(self).tokens@;
        let ghost c0 = self.cur();
        let ghost mut ends: Seq<int> = Seq::empty();
        let mut fields: Vec<(ValueType, String)> = Vec::new();
        while !self.check(TokenType::RightBrace) && !self.check(TokenType::Fn)
            invariant
                self.moved_on(*old(self)),
                self.current_token >= 1,
                old(self).next_tok().ty == TokenType::Identifier,
                toks == old(self).tokens@,
                fields_at(toks, c0, self.cur(), fields@, ends),
                self.prev_tok().ty == TokenType::LeftBrace || self.prev_tok().ty == TokenType::Semicolon,
                self.cur() >= c0,
            decreases self.measure(),
        {
            let ghost iter_start = self.current_token;
            let ghost c = self.cur();
            let ghost fv0 = fields@;
            let ghost at_end = self.at_eof();
            let mut field_ty = match self.advance().as_value_type() {
                Some(ty) => ty,
                None => {
                    let msg = "Expected type for field declaration in struct body.";
                    return Err(ParseErr::new(line, msg));
                },
            };
            let ghost base = field_ty;
            let ghost mut depth: nat = 0;
            proof {
                if at_end {
                    assert(value_type_of(toks[c - 1]) is None);
                }
            }
            while self.matches(TokenType::LeftBracket)
                invariant
                    self.moved_on(*old(self)),
                    self.current_token >= 1,
                    self.current_token >= iter_start,
                    old(self).next_tok().ty == TokenType::Identifier,
                    toks == old(self).tokens@,
                    !at_end,
                    self.cur() == c + 1 + 2 * depth,
                    brackets_at(toks, c + 1, depth),
                    field_ty == array_of(base, depth),
                decreases self.measure(),
            {
                let ghost cc = self.cur();
                self.consume(TokenType::RightBracket, "Expected ']' after left bracket.")?;
                field_ty = ValueType::Arr(Box::new(field_ty));
                proof {
                    let d0 = depth;
                    depth = depth + 1;
                    assert forall|i: int| 0 <= i < depth implies #[trigger] toks[c + 1 + 2 * i].ty
                        == TokenType::LeftBracket && toks[c + 1 + 2 * i + 1].ty
                        == TokenType::RightBracket by {
                        if i == d0 {
                            assert(c + 1 + 2 * i == cc - 1);
                        } else {
                            assert(brackets_at(toks, c + 1, d0));
                        }
                    }
                }
            }
            self.consume(TokenType::Identifier, "Expected variable name after type.")?;
            let field_name = self.previous().lexeme.clone();
            let ghost d = self.cur();
            let ghost x = (field_ty, field_name);
            proof {
                assert(brackets_at(toks, c + 1, depth));
                assert(param_at(toks, c, d, x));
            }
            fields.push((field_ty, field_name));
            self.consume(TokenType::Semicolon, EXPECTED_SEMICOLON_MSG)?;
            proof {
                lemma_fields_push(toks, c0, c, fv0, ends, d, x);
                assert(fv0.push(x) =~= fields@);
                ends = ends.push(d);
            }
        }
        let ghost f = self.cur();
        let mut methods: Vec<Stmt> = Vec::new();
        let ghost mut mstarts: Seq<int> = seq![self.cur()];
        while self.matches(TokenType::Fn)
            invariant
                self.moved_on(*old(self)),
                self.current_token >= 1,
                old(self).next_tok().ty == TokenType::Identifier,
                forall|j: int| 0 <= j < methods@.len() ==> (#[trigger] methods@[j]).stmt is Func,
                toks == old(self).tokens@,
                methods_at(toks, mstarts, methods@),
                mstarts[0] == f,
                mstarts[methods@.len() as int] == self.cur(),
            decreases self.measure(),
        {
            let m = self.func_decl()?;
            let ghost st0 = mstarts;
            let ghost v0 = methods@;
            methods.push(m);
            proof {
                mstarts = mstarts.push(self.cur());
                assert forall|i: int| #![trigger methods@[i]] 0 <= i < methods@.len() implies decl_form(
                    toks,
                    mstarts[i],
                    mstarts[i + 1],
                    methods@[i],
                ) && toks[mstarts[i]].ty != TokenType::RightBrace && toks[mstarts[i]].ty
                    != TokenType::Eof && mstarts[i] < mstarts[i + 1] by {
                    if i < v0.len() {
                        assert(methods@[i] == v0[i]);
                        assert(mstarts[i] == st0[i] && mstarts[i + 1] == st0[i + 1]);
                    }
                }
                assert forall|i: int| 0 <= i < methods@.len() implies #[trigger] toks[mstarts[i]].ty
                    == TokenType::Fn by {
                    if i < v0.len() {
                        assert(mstarts[i] == st0[i]);
                    }
                }
            }
        }
        proof {
            lemma_methods_close(toks, mstarts, methods@);
        }
        self.consume(TokenType::RightBrace, "Expected '}' after struct body.")?;
        let ghost fv = fields@;
        let ghost mv = methods@;
        let ty = StmtType::Struct { name, fields, methods };
        let st = Stmt::new(ty, line);
        proof {
            let wm = choose|w: SWit| #[trigger] sderives(toks, SGoal::Methods { stmts: mv }, f, self.cur() - 1, w);
            assert(fields_at(toks, old(self).cur() - 1 + 3, f, fv, ends));
            assert(toks[f].ty == TokenType::RightBrace || toks[f].ty == TokenType::Fn);
            let p = old(self).cur() - 1;
            let q = self.cur();
            assert(exists|e: Seq<int>| #[trigger] fields_at(toks, p + 3, f, fv, e));
            assert(sderives(toks, SGoal::Methods { stmts: mv }, f, q - 1, wm));
            assert(toks[q - 1].ty == TokenType::RightBrace);
            assert(toks[p + 1].ty == TokenType::Identifier);
            assert(toks[p + 2].ty == TokenType::LeftBrace);
            assert(st.line == toks[p + 1].line);
            assert(0 <= p <= q < toks.len());
            assert(st.stmt->Struct_fields@ == fv);
            assert(st.stmt->Struct_methods@ == mv);
            assert(exists|e: Seq<int>| #[trigger] fields_at(toks, p + 3, f, st.stmt->Struct_fields@, e));
            assert(sderives(
                toks,
                SGoal::Decl { s: st },
                old(self).cur() - 1,
                self.cur(),
                SWit::At { at: f, at2: 0, a: Box::new(wm), b: Box::new(SWit::Leaf) },
            ));
        }
        Ok(st)
    }

    /// `T[]... name` in a parameter list.
    fn parse_parameter(&mut self) -> (r: Result<(ValueType, String), ParseErr>)
        requires
            old(self).inv(),
            old(self).current_token >= 1,
        ensures
            final(self).moved_on(*old(self)),
            value_type_of(read_tok(*old(self))) is None ==> (r matches Err(e) && e.msg@
                == "Expected type for parameter."@),
            r matches Ok((t, _)) ==> exists|n: nat|
                t == array_of(value_type_of(read_tok(*old(self)))->0, n),
            r matches Ok(pm) ==> (!old(self).at_eof() ==> param_at(
                old(self).tokens@,
                old(self).cur(),
                final(self).cur(),
                pm,
            )),
            value_type_of(old(self).next_tok()) is Some && old(self).tok(old(self).cur() + 1).ty
                == TokenType::Identifier ==> (r matches Ok((t, nm)) && t == value_type_of(
                old(self).next_tok(),
            )->0 && nm@ == old(self).tok(old(self).cur() + 1).lexeme@) && final(self).cur()
                == old(self).cur() + 2,
    {
        let ghost first = read_tok(*self);
        let var_ty = match self.advance().as_value_type() {
            Some(var_type) => {
                let ghost mut depth: nat = 0;
                let mut var_type = var_type;
                while self.matches(TokenType::LeftBracket)
                    invariant
                        self.moved_on(*old(self)),
                        self.current_token >= 1,
                        first == read_tok(*old(self)),
                        value_type_of(first) is Some,
                        var_type == array_of(value_type_of(first)->0, depth),
                        !old(self).at_eof() ==> self.cur() == old(self).cur() + 1 + 2 * depth
                            && brackets_at(old(self).tokens@, old(self).cur() + 1, depth),
                        !old(self).at_eof() && old(self).tok(old(self).cur() + 1).ty
                            == TokenType::Identifier ==> depth == 0,
                    decreases self.measure(),
                {
                    let ghost c = self.cur();
                    self.consume(TokenType::RightBracket, "Expected ']' after left bracket.")?;
                    var_type = ValueType::Arr(Box::new(var_type));
                    proof {
                        let toks = old(self).tokens@;
                        let d0 = depth;
                        depth = depth + 1;
                        if !old(self).at_eof() {
                            assert forall|i: int| 0 <= i < depth implies #[trigger] toks[old(self).cur() + 1 + 2 * i].ty
                                == TokenType::LeftBracket && toks[old(self).cur() + 1 + 2 * i + 1].ty
                                == TokenType::RightBracket by {
                                if i == d0 {
                                    assert(old(self).cur() + 1 + 2 * i == c - 1);
                                } else {
                                    assert(brackets_at(toks, old(self).cur() + 1, d0));
                                }
                            }
                        }
                    }
                }
                proof {
                    if !old(self).at_eof() {
                        assert(brackets_at(old(self).tokens@, old(self).cur() + 1, depth));
                        if old(self).tok(old(self).cur() + 1).ty == TokenType::Identifier && depth > 0 {
                            assert(old(self).tokens@[old(self).cur() + 1 + 2 * 0].ty
                                == TokenType::LeftBracket);
                        }
                    }
                }
                var_type
            },
            _ => {
                return Err(ParseErr::new(self.previous().line, "Expected type for parameter."));
            },
        };
        proof {
            if value_type_of(old(self).next_tok()) is Some && old(self).tok(old(self).cur() + 1).ty
                == TokenType::Identifier {
                assert(self.cur() == old(self).cur() + 1);
                assert(var_ty == value_type_of(old(self).next_tok())->0);
            }
        }
        self.consume(TokenType::Identifier, "Expected parameter name.")?;
        let name = self.previous().lexeme.clone();
        Ok((var_ty, name))
    }

    /// `fn name(this, T a, ...): R { ... }`.
    #[verifier::rlimit(60)]
    fn func_decl(&mut self) -> (r: Result<Stmt, ParseErr>)
        requires
            old(self).prev_tok().ty == TokenType::Fn,
            old(self).inv(),
            old(self).current_token >= 1,
        ensures
            final(self).moved_on(*old(self)),
            r matches Ok(s) ==> (s.stmt matches StmtType::Func { name, use_self, .. } && name
                == old(self).next_tok().lexeme && s.line == old(self).next_tok().line && use_self
                == (old(self).tok(old(self).cur() + 2).ty == TokenType::This)),
            old(self).next_tok().ty != TokenType::Identifier ==> (r matches Err(e) && e.msg@
                == "Expected function name after 'fn' keyword."@ && e.line == old(self).prev_tok().line),
            r matches Ok(st) ==> decl_form(old(self).tokens@, old(self).cur() - 1, final(self).cur(), st),
            empty_func_at(old(self).tokens@, old(self).cur()) ==> (r matches Ok(st) && empty_func(
                old(self).tokens@,
                old(self).cur(),
                st,
            )) && final(self).current_token == old(self).current_token + 5,
            forall|k: int|
                #[trigger] params_func_at(old(self).tokens@, old(self).cur(), k) ==> (r matches Ok(
                    st,
                ) && params_func(old(self).tokens@, old(self).cur(), k, st))
                    && final(self).cur() == old(self).cur() + 3 * k + 4,
        decreases old(self).measure(), 33nat,
    {
        let ghost p0 = old(self).cur();
        let ghost k = choose|k: int| params_func_at(old(self).tokens@, p0, k);
        let ghost wf = params_func_at(old(self).tokens@, p0, k);
        proof {
            assert forall|k2: int| #[trigger] params_func_at(old(self).tokens@, p0, k2) implies wf
                && k2 == k by {
                assert(params_func_at(old(self).tokens@, p0, k));
                lemma_params_func_unique(old(self).tokens@, p0, k, k2);
            }
        }
        self.consume(TokenType::Identifier, "Expected function name after 'fn' keyword.")?;
        let name = self.previous().lexeme.clone();
        let line = self.previous().line;
        self.consume(TokenType::LeftParen, "Expected '(' after function name.")?;
        let ghost toks = old(self).tokens@;
        let ghost c = self.cur();
        let ghost mut c1 = self.cur();
        let ghost mut ends: Seq<int> = Seq::empty();
        let mut parameters: Vec<(ValueType, String)> = Vec::new();
        let mut use_self = false;
        if !self.check(TokenType::RightParen) {
            if self.matches(TokenType::This) {
                use_self = true;
                self.matches(TokenType::Comma);
            }
            proof {
                c1 = self.cur();
            }
            if !self.check(TokenType::RightParen) {
                proof {
                    if wf {
                        assert(value_type_of(toks[p0 + 2 + 3 * 0]) is Some);
                    }
                }
                let p = self.parse_parameter()?;
                parameters.push(p);
                proof {
                    ends = seq![self.cur()];
                    assert(parameters@ =~= seq![p]);
                    assert(params_at(toks, c1, self.cur(), parameters@, ends));
                }
                while self.matches(TokenType::Comma)
                    invariant
                        self.moved_on(*old(self)),
                        self.current_token >= 1,
                        old(self).next_tok().ty == TokenType::Identifier,
                        use_self == (old(self).tok(old(self).cur() + 2).ty == TokenType::This),
                        toks == old(self).tokens@,
                        params_at(toks, c1, self.cur(), parameters@, ends),
                        !empty_func_at(toks, old(self).cur()),
                        p0 == old(self).cur(),
                        wf == params_func_at(toks, p0, k),
                        forall|k2: int| #[trigger] params_func_at(toks, p0, k2) ==> wf && k2 == k,
                        wf ==> !use_self && 1 <= parameters@.len() <= k && self.cur() == p0 + 1 + 3
                            * parameters@.len() && forall|i: int|
                            0 <= i < parameters@.len() ==> (#[trigger] parameters@[i]).0
                                == value_type_of(toks[p0 + 2 + 3 * i])->0 && parameters@[i].1@
                                == toks[p0 + 3 + 3 * i].lexeme@,
                    decreases self.measure(),
                {
                    let ghost e0 = self.cur() - 1;
                    proof {
                        if wf {
                            let j = parameters@.len() as int;
                            assert(value_type_of(toks[p0 + 2 + 3 * (j - 1)]) is Some);
                            assert(j < k);
                            assert(value_type_of(toks[p0 + 2 + 3 * j]) is Some);
                            assert(self.cur() == p0 + 2 + 3 * j);
                        }
                    }
                    let p = self.parse_parameter()?;
                    proof {
                        lemma_params_push(toks, c1, e0, parameters@, ends, self.cur(), p);
                        ends = ends.push(self.cur());
                    }
                    let ghost v0 = parameters@;
                    parameters.push(p);
                    proof {
                        if wf {
                            assert forall|i: int| 0 <= i < parameters@.len() implies (#[trigger] parameters@[i]).0
                                == value_type_of(toks[p0 + 2 + 3 * i])->0 && parameters@[i].1@
                                == toks[p0 + 3 + 3 * i].lexeme@ by {
                                if i < v0.len() {
                                    assert(parameters@[i] == v0[i]);
                                }
                            }
                        }
                    }
                }
                proof {
                    if wf {
                        let j = parameters@.len() as int;
                        assert(value_type_of(toks[p0 + 2 + 3 * (j - 1)]) is Some);
                        assert(j == k);
                    }
                }
            }
        }
        let ghost e = self.cur();
        self.consume(TokenType::RightParen, "Expected ')' after function name.")?;
        proof {
            let gc1 = if toks[c].ty == TokenType::This {
                if toks[c + 1].ty == TokenType::Comma {
                    c + 2
                } else {
                    c + 1
                }
            } else {
                c
            };
            assert(toks[e].ty == TokenType::RightParen);
            assert(use_self == (toks[c].ty == TokenType::This));
            if toks[c].ty != TokenType::RightParen {
                assert(gc1 == c1);
                if toks[c1].ty != TokenType::RightParen {
                    assert(params_at(toks, params_start(toks, c), e, parameters@, ends));
                } else {
                    assert(e == c1);
                    assert(parameters@.len() == 0);
                }
            } else {
                assert(e == c);
                assert(parameters@.len() == 0);
            }
            assert(param_list_at(toks, c, e, parameters@, use_self));
        }
        let mut return_ty = ValueType::Null;
        if self.matches(TokenType::Colon) {
            return_ty = match self.advance().as_value_type() {
                Some(return_ty) => return_ty,
                _ => {
                    return Err(
                        ParseErr::new(self.previous().line, "Expected return type after finding ':'."),
                    );
                },
            };
        }
        let ghost r1 = self.cur();
        self.consume(TokenType::LeftBrace, "Expected '{' at begin of function body.")?;
        let mut body: Vec<Stmt> = Vec::new();
        let ghost mut starts: Seq<int> = seq![self.cur()];
        while !self.check(TokenType::RightBrace) && !self.check(TokenType::Eof)
            invariant
                self.moved_on(*old(self)),
                self.current_token >= 1,
                old(self).next_tok().ty == TokenType::Identifier,
                use_self == (old(self).tok(old(self).cur() + 2).ty == TokenType::This),
                toks == old(self).tokens@,
                decls_at(toks, starts, body@),
                starts[0] == r1 + 1,
                starts[body@.len() as int] == self.cur(),
                empty_func_at(toks, old(self).cur()) ==> self.cur() == old(self).cur() + 4
                    && body@.len() == 0 && parameters@.len() == 0 && !use_self && return_ty
                    == ValueType::Null,
                p0 == old(self).cur(),
                wf == params_func_at(toks, p0, k),
                forall|k2: int| #[trigger] params_func_at(toks, p0, k2) ==> wf && k2 == k,
                wf ==> self.cur() == p0 + 3 + 3 * k && body@.len() == 0 && !use_self && return_ty
                    == ValueType::Null && parameters@.len() == k && forall|i: int|
                    0 <= i < k ==> (#[trigger] parameters@[i]).0 == value_type_of(
                        toks[p0 + 2 + 3 * i],
                    )->0 && parameters@[i].1@ == toks[p0 + 3 + 3 * i].lexeme@,
            decreases self.measure(),
        {
            let s = self.declaration()?;
            let ghost st0 = starts;
            let ghost v0 = body@;
            body.push(s);
            proof {
                starts = starts.push(self.cur());
                assert forall|i: int| #![trigger body@[i]] 0 <= i < body@.len() implies decl_form(
                    toks,
                    starts[i],
                    starts[i + 1],
                    body@[i],
                ) && toks[starts[i]].ty != TokenType::RightBrace && toks[starts[i]].ty
                    != TokenType::Eof && starts[i] < starts[i + 1] by {
                    if i < v0.len() {
                        assert(body@[i] == v0[i]);
                        assert(starts[i] == st0[i] && starts[i + 1] == st0[i + 1]);
                    }
                }
            }
        }
        if self.peek().ty != TokenType::Eof {
            self.consume(TokenType::RightBrace, "Expected '}' at end of function body.")?;
        }
        proof {
            lemma_decls_close(toks, starts, body@, self.cur());
        }
        let ghost bv = body@;
        let ghost pv = parameters@;
        let fn_ty = StmtType::Func { name, parameters, body, return_ty, use_self };
        let func = Stmt::new(fn_ty, line);
        proof {
            let wb = choose|w: SWit| #[trigger] sderives(toks, SGoal::Body { stmts: bv }, r1 + 1, self.cur(), w);
            assert(sderives(
                toks,
                SGoal::Decl { s: func },
                old(self).cur() - 1,
                self.cur(),
                SWit::At { at: e, at2: r1, a: Box::new(wb), b: Box::new(SWit::Leaf) },
            ));
            assert forall|k2: int| #[trigger] params_func_at(toks, p0, k2) implies (params_func(
                toks,
                p0,
                k2,
                func,
            ) && self.cur() == p0 + 3 * k2 + 4) by {
                lemma_params_func_unique(toks, p0, k, k2);
            }
        }
        Ok(func)
    }

    /// `{ declarations }`.
    fn block(&mut self) -> (r: Result<Stmt, ParseErr>)
        requires
            old(self).prev_tok().ty == TokenType::LeftBrace,
            old(self).inv(),
            old(self).current_token >= 1,
        ensures
            final(self).moved_on(*old(self)),
            r matches Ok(s) ==> s.stmt is Block && final(self).prev_tok().ty
                == TokenType::RightBrace && s.line == final(self).prev_tok().line,
            old(self).next_tok().ty == TokenType::RightBrace ==> (r matches Ok(s) && empty_block_at(
                old(self).tokens@,
                old(self).cur(),
                s,
            )) && final(self).current_token == old(self).current_token + 1,
            r matches Ok(st) ==> stmt_form(old(self).tokens@, old(self).cur() - 1, final(self).cur(), st),
        decreases old(self).measure(), 33nat,
    {
        let mut stmts: Vec<Stmt> = Vec::new();
        let ghost mut starts: Seq<int> = seq![old(self).cur()];
        while !self.check(TokenType::RightBrace) && !self.check(TokenType::Eof)
            invariant
                self.moved_on(*old(self)),
                self.current_token >= 1,
                old(self).next_tok().ty == TokenType::RightBrace ==> self.current_token == old(
                    self,
                ).current_token && stmts@.len() == 0,
                decls_at(old(self).tokens@, starts, stmts@),
                starts[0] == old(self).cur(),
                starts[stmts@.len() as int] == self.cur(),
            decreases self.measure(),
        {
            let ghost c = self.cur();
            let s = self.declaration()?;
            let ghost st0 = starts;
            let ghost v0 = stmts@;
            stmts.push(s);
            proof {
                starts = starts.push(self.cur());
                assert forall|i: int| #![trigger stmts@[i]] 0 <= i < stmts@.len() implies decl_form(
                    old(self).tokens@,
                    starts[i],
                    starts[i + 1],
                    stmts@[i],
                ) && old(self).tokens@[starts[i]].ty != TokenType::RightBrace && old(self).tokens@[starts[i]].ty
                    != TokenType::Eof && starts[i] < starts[i + 1] by {
                    if i < v0.len() {
                        assert(stmts@[i] == v0[i]);
                        assert(starts[i] == st0[i] && starts[i + 1] == st0[i + 1]);
                    }
                }
            }
        }
        self.consume(TokenType::RightBrace, "Expected '}' at end of block.")?;
        proof {
            lemma_decls_close(old(self).tokens@, starts, stmts@, self.cur());
        }
        let ghost sv = stmts@;
        let ty = StmtType::Block(stmts);
        let block = Stmt::new(ty, self.previous().line);
        proof {
            let toks = old(self).tokens@;
            let w = choose|w: SWit| #[trigger] sderives(
                toks,
                SGoal::Block { stmts: sv },
                old(self).cur(),
                self.cur(),
                w,
            );
            assert(sderives(
                toks,
                SGoal::Stmt { s: block },
                old(self).cur() - 1,
                self.cur(),
                SWit::At { at: 0, at2: 0, a: Box::new(w), b: Box::new(SWit::Leaf) },
            ));
        }
        Ok(block)
    }

    /// `continue;`
    fn continue_stmt(&mut self) -> (r: Result<Stmt, ParseErr>)
        requires
            old(self).prev_tok().ty == TokenType::Continue,
            old(self).inv(),
            old(self).current_token >= 1,
        ensures
            final(self).moved_on(*old(self)),
            old(self).next_tok().ty == TokenType::Semicolon ==> r == Ok::<Stmt, ParseErr>(
                Stmt { stmt: StmtType::Continue, line: old(self).next_tok().line },
            ),
            old(self).next_tok().ty != TokenType::Semicolon ==> (r matches Err(e) && e.msg@
                == EXPECTED_SEMICOLON_MSG@ && e.line == old(self).prev_tok().line),
            r matches Ok(st) ==> stmt_form(old(self).tokens@, old(self).cur() - 1, final(self).cur(), st),
    {
        self.consume(TokenType::Semicolon, EXPECTED_SEMICOLON_MSG)?;
        let stmt = Stmt::new(StmtType::Continue, self.previous().line);
        proof {
            assert(sderives(
                old(self).tokens@,
                SGoal::Stmt { s: stmt },
                old(self).cur() - 1,
                self.cur(),
                SWit::At { at: 0, at2: 0, a: Box::new(SWit::Leaf), b: Box::new(SWit::Leaf) },
            ));
        }
        Ok(stmt)
    }

    /// `break;`
    fn break_stmt(&mut self) -> (r: Result<Stmt, ParseErr>)
        requires
            old(self).prev_tok().ty == TokenType::Break,
            old(self).inv(),
            old(self).current_token >= 1,
        ensures
            final(self).moved_on(*old(self)),
            old(self).next_tok().ty == TokenType::Semicolon ==> r == Ok::<Stmt, ParseErr>(
                Stmt { stmt: StmtType::Break, line: old(self).next_tok().line },
            ),
            old(self).next_tok().ty != TokenType::Semicolon ==> (r matches Err(e) && e.msg@
                == EXPECTED_SEMICOLON_MSG@ && e.line == old(self).prev_tok().line),
            r matches Ok(st) ==> stmt_form(old(self).tokens@, old(self).cur() - 1, final(self).cur(), st),
    {
        self.consume(TokenType::Semicolon, EXPECTED_SEMICOLON_MSG)?;
        let stmt = Stmt::new(StmtType::Break, self.previous().line);
        proof {
            assert(sderives(
                old(self).tokens@,
                SGoal::Stmt { s: stmt },
                old(self).cur() - 1,
                self.cur(),
                SWit::At { at: 0, at2: 0, a: Box::new(SWit::Leaf), b: Box::new(SWit::Leaf) },
            ));
        }
        Ok(stmt)
    }

    /// `return value;` or `return;`, which returns `null`.
    fn return_stmt(&mut self) -> (r: Result<Stmt, ParseErr>)
        requires
            old(self).prev_tok().ty == TokenType::Return,
            old(self).inv(),
            old(self).current_token >= 1,
        ensures
            final(self).moved_on(*old(self)),
            old(self).next_tok().ty == TokenType::Semicolon ==> r == Ok::<Stmt, ParseErr>(
                Stmt {
                    stmt: StmtType::Return(
                        Expr {
                            expr: ExprType::Lit(Literal::Null),
                            line: old(self).prev_tok().line,
                            end_ty: ValueType::Any,
                        },
                    ),
                    line: old(self).next_tok().line,
                },
            ),
            r matches Ok(s) ==> s.stmt is Return && final(self).prev_tok().ty
                == TokenType::Semicolon,
            r matches Ok(st) ==> stmt_form(old(self).tokens@, old(self).cur() - 1, final(self).cur(), st),
        decreases old(self).measure(), 33nat,
    {
        let value_ty = ExprType::Lit(Literal::Null);
        let mut value = Expr::new(value_ty, self.previous().line);
        if !self.check(TokenType::Semicolon) {
            value = self.expression()?;
        }
        self.consume(TokenType::Semicolon, EXPECTED_SEMICOLON_MSG)?;
        let stmt_ty = StmtType::Return(value);
        let stmt = Stmt::new(stmt_ty, self.previous().line);
        proof {
            assert(sderives(
                old(self).tokens@,
                SGoal::Stmt { s: stmt },
                old(self).cur() - 1,
                self.cur(),
                SWit::At { at: 0, at2: 0, a: Box::new(SWit::Leaf), b: Box::new(SWit::Leaf) },
            ));
        }
        Ok(stmt)
    }

    /// `for i in start to end body` stands for a loop over an `Int` variable
    /// `i`, declared with `start`, while `i < (end as Int)`.
    fn for_stmt(&mut self) -> (r: Result<Stmt, ParseErr>)
        requires
            old(self).prev_tok().ty == TokenType::For,
            old(self).inv(),
            old(self).current_token >= 1,
        ensures
            final(self).moved_on(*old(self)),
            r matches Ok(s) ==> {
                let name = old(self).next_tok().lexeme;
                let line = old(self).next_tok().line;
                &&& s.line == line
                &&& s.stmt matches StmtType::For { var, condition, .. }
                &&& var.line == line
                &&& var.stmt matches StmtType::VarDecl { name: n, ty, .. }
                &&& n == name
                &&& ty == ValueType::I64
                &&& condition.line == line
                &&& condition.expr matches ExprType::Binary { left, op, right }
                &&& *left == Expr { expr: ExprType::Identifier(name), line, end_ty: ValueType::Any }
                &&& op == BinaryOp::Less
                &&& right.line == line
                &&& right.expr matches ExprType::Cast { target_ty, .. }
                &&& target_ty == ValueType::I64
            },
            old(self).next_tok().ty != TokenType::Identifier ==> (r matches Err(e) && e.msg@
                == "Expected variable name after 'for'."@),
            r matches Ok(st) ==> stmt_form(old(self).tokens@, old(self).cur() - 1, final(self).cur(), st),
            operand_for_at(old(self).tokens@, old(self).cur()) ==> (r matches Ok(s) && operand_for(
                old(self).tokens@,
                old(self).cur(),
                s,
            )) && final(self).cur() == old(self).cur() + 7,
        decreases old(self).measure(), 33nat,
    {
        self.consume(TokenType::Identifier, "Expected variable name after 'for'.")?;
        let var = self.previous();
        let line = var.line;
        let name = var.lexeme.clone();
        self.consume(TokenType::In, "Expected 'in' after 'for identifier'.")?;
        let value = self.expression()?;
        let ty = ValueType::I64;
        let kind = StmtType::VarDecl { name: name.clone(), value, ty };
        let var = Box::new(Stmt::new(kind, line));
        let ghost k = self.cur();
        self.consume(TokenType::To, "Expected 'to' after 'for identifier'.")?;
        let end = Box::new(self.expression()?);
        let ghost m = self.cur();
        let cast = ExprType::Cast { value: end, target_ty: ValueType::I64 };
        let cast = Expr::new(cast, line);
        let get_var_ty = ExprType::Identifier(name);
        let get_var = Box::new(Expr::new(get_var_ty, line));
        let condition_ty = ExprType::Binary { left: get_var, op: BinaryOp::Less, right: Box::new(cast) };
        let condition = Expr::new(condition_ty, line);
        let body = Box::new(self.statement()?);
        let ghost wb = choose|w: SWit| #[trigger] sderives(
            old(self).tokens@,
            SGoal::Stmt { s: *body },
            m,
            self.cur(),
            w,
        );
        let for_ty = StmtType::For { condition, body, var };
        let stmt = Stmt::new(for_ty, line);
        proof {
            assert(sderives(
                old(self).tokens@,
                SGoal::Stmt { s: stmt },
                old(self).cur() - 1,
                self.cur(),
                SWit::At { at: k, at2: m, a: Box::new(wb), b: Box::new(SWit::Leaf) },
            ));
        }
        Ok(stmt)
    }

    /// `while condition body`.
    fn while_stmt(&mut self) -> (r: Result<Stmt, ParseErr>)
        requires
            old(self).prev_tok().ty == TokenType::While,
            old(self).inv(),
            old(self).current_token >= 1,
        ensures
            final(self).moved_on(*old(self)),
            r matches Ok(s) ==> s.stmt is While,
            lone_operand(old(self).tokens@, old(self).cur()) && old(self).tok(old(self).cur() + 1).ty
                == TokenType::LeftBrace && old(self).tok(old(self).cur() + 2).ty
                == TokenType::RightBrace ==> (r matches Ok(s) && s.stmt matches StmtType::While {
                condition,
                body,
            } && condition == operand_expr(old(self).next_tok()) && empty_block_at(
                old(self).tokens@,
                old(self).cur() + 2,
                *body,
            ) && s.line == old(self).tok(old(self).cur() + 2).line) && final(self).current_token
                == old(self).current_token + 3,
            r matches Ok(st) ==> stmt_form(old(self).tokens@, old(self).cur() - 1, final(self).cur(), st),
        decreases old(self).measure(), 33nat,
    {
        let condition = self.expression()?;
        let ghost k = self.cur();
        let body = Box::new(self.statement()?);
        let ty = StmtType::While { condition, body };
        let stmt = Stmt::new(ty, self.previous().line);
        proof {
            let toks = old(self).tokens@;
            let w = choose|w: SWit| #[trigger] sderives(toks, SGoal::Stmt { s: *body }, k, self.cur(), w);
            assert(sderives(
                toks,
                SGoal::Stmt { s: stmt },
                old(self).cur() - 1,
                self.cur(),
                SWit::At { at: k, at2: 0, a: Box::new(w), b: Box::new(SWit::Leaf) },
            ));
        }
        Ok(stmt)
    }

    /// `if condition body`, with an optional `else body`.
    fn if_stmt(&mut self) -> (r: Result<Stmt, ParseErr>)
        requires
            old(self).prev_tok().ty == TokenType::If,
            old(self).inv(),
            old(self).current_token >= 1,
        ensures
            final(self).moved_on(*old(self)),
            r matches Ok(s) ==> s.stmt is If && s.line == old(self).prev_tok().line,
            lone_operand(old(self).tokens@, old(self).cur()) && old(self).tok(old(self).cur() + 1).ty
                == TokenType::LeftBrace && old(self).tok(old(self).cur() + 2).ty
                == TokenType::RightBrace && old(self).tok(old(self).cur() + 3).ty != TokenType::Else
                ==> (r matches Ok(s) && s.stmt matches StmtType::If { condition, body, final_else }
                && condition == operand_expr(old(self).next_tok()) && empty_block_at(
                old(self).tokens@,
                old(self).cur() + 2,
                *body,
            ) && final_else is None) && final(self).current_token == old(self).current_token + 3,
            lone_operand(old(self).tokens@, old(self).cur()) && old(self).tok(old(self).cur() + 1).ty
                == TokenType::LeftBrace && old(self).tok(old(self).cur() + 2).ty
                == TokenType::RightBrace && old(self).tok(old(self).cur() + 3).ty == TokenType::Else
                && old(self).tok(old(self).cur() + 4).ty == TokenType::LeftBrace && old(self).tok(
                old(self).cur() + 5,
            ).ty == TokenType::RightBrace ==> (r matches Ok(s) && s.stmt matches StmtType::If {
                condition,
                body,
                final_else,
            } && condition == operand_expr(old(self).next_tok()) && empty_block_at(
                old(self).tokens@,
                old(self).cur() + 2,
                *body,
            ) && (final_else matches Some(e) && empty_block_at(
                old(self).tokens@,
                old(self).cur() + 5,
                *e,
            ))) && final(self).current_token == old(self).current_token + 6,
            r matches Ok(st) ==> stmt_form(old(self).tokens@, old(self).cur() - 1, final(self).cur(), st),
        decreases old(self).measure(), 33nat,
    {
        let line = self.previous().line;
        let condition = self.expression()?;
        let ghost k = self.cur();
        let body = Box::new(self.statement()?);
        let ghost m = self.cur();
        let ghost wb = choose|w: SWit| #[trigger] sderives(
            old(self).tokens@,
            SGoal::Stmt { s: *body },
            k,
            m,
            w,
        );
        let ghost mut we = SWit::Leaf;
        let mut final_else: Option<Box<Stmt>> = None;
        if self.matches(TokenType::Else) {
            let e = self.statement()?;
            proof {
                we = choose|w: SWit| #[trigger] sderives(
                    old(self).tokens@,
                    SGoal::Stmt { s: e },
                    m + 1,
                    self.cur(),
                    w,
                );
            }
            final_else = Some(Box::new(e));
        }
        let ty = StmtType::If { condition, body, final_else };
        let stmt = Stmt::new(ty, line);
        proof {
            assert(sderives(
                old(self).tokens@,
                SGoal::Stmt { s: stmt },
                old(self).cur() - 1,
                self.cur(),
                SWit::At { at: k, at2: m, a: Box::new(wb), b: Box::new(we) },
            ));
        }
        Ok(stmt)
    }

    /// `print value;`
    fn print_statement(&mut self) -> (r: Result<Stmt, ParseErr>)
        requires
            old(self).prev_tok().ty == TokenType::Print,
            old(self).inv(),
            old(self).current_token >= 1,
        ensures
            final(self).moved_on(*old(self)),
            r matches Ok(s) ==> s.stmt is Println && final(self).prev_tok().ty
                == TokenType::Semicolon,
            lone_operand(old(self).tokens@, old(self).cur()) && old(self).tok(old(self).cur() + 1).ty
                == TokenType::Semicolon ==> r == Ok::<Stmt, ParseErr>(
                Stmt {
                    stmt: StmtType::Println(operand_expr(old(self).next_tok())),
                    line: old(self).tok(old(self).cur() + 1).line,
                },
            ) && final(self).current_token == old(self).current_token + 2,
            r matches Ok(st) ==> stmt_form(old(self).tokens@, old(self).cur() - 1, final(self).cur(), st),
        decreases old(self).measure(), 33nat,
    {
        let e = self.expression()?;
        let ghost k = self.cur();
        let ghost e0 = e;
        let kind = StmtType::Println(e);
        self.consume(TokenType::Semicolon, EXPECTED_SEMICOLON_MSG)?;
        let stmt = Stmt::new(kind, self.previous().line);
        proof {
            assert(sderives(
                old(self).tokens@,
                SGoal::Stmt { s: stmt },
                old(self).cur() - 1,
                self.cur(),
                SWit::At { at: k, at2: 0, a: Box::new(SWit::Leaf), b: Box::new(SWit::Leaf) },
            ));
        }
        Ok(stmt)
    }

    /// An expression followed by `;`.
    fn expr_stmt(&mut self) -> (r: Result<Stmt, ParseErr>)
        requires
            !starts_keyword(old(self).next_tok().ty),
            old(self).inv(),
            old(self).started(),
        ensures
            final(self).moved_on(*old(self)),
            !old(self).at_eof() ==> final(self).current_token > old(self).current_token,
            r matches Ok(s) ==> s.stmt is Expr,
            r matches Ok(st) ==> stmt_form(old(self).tokens@, old(self).cur(), final(self).cur(), st),
            old(self).at_eof() ==> r is Err,
        decreases old(self).measure(), 30nat,
    {
        let kind = StmtType::Expr(self.expression()?);
        let ghost k = self.cur();
        let stmt = Stmt::new(kind, self.previous().line);
        self.consume(TokenType::Semicolon, EXPECTED_SEMICOLON_MSG)?;
        proof {
            assert(sderives(
                old(self).tokens@,
                SGoal::Stmt { s: stmt },
                old(self).cur(),
                self.cur(),
                SWit::At { at: k, at2: 0, a: Box::new(SWit::Leaf), b: Box::new(SWit::Leaf) },
            ));
        }
        Ok(stmt)
    }
}

} // verus!
