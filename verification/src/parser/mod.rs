use vstd::prelude::*;

use crate::analysis::methods_are_funcs;
use crate::error::ParseErr;
use crate::statement::{Stmt, StmtType};
use crate::token::{value_type_of, Token, TokenType};
use grammar::{decl_form, program_form};
use parse_stmt::{empty_func, empty_func_at, lemma_params_func_unique, params_func, params_func_at, statement_kind_matches};

pub mod grammar;
mod parse_expr;
mod parse_stmt;
pub mod types;

verus! {

/// The token stream holds an end-of-file token.
pub open spec fn has_eof(toks: Seq<Token>) -> bool {
    exists|j: int| 0 <= j < toks.len() && #[trigger] toks[j].ty == TokenType::Eof
}

/// Number tokens carry a number and string tokens carry a string, as the
/// scanner makes them.
pub open spec fn literals_consistent(toks: Seq<Token>) -> bool {
    forall|k: int|
        0 <= k < toks.len() ==> {
            &&& (#[trigger] toks[k]).ty == TokenType::Num ==> toks[k].literal.is_number()
            &&& toks[k].ty == TokenType::StringLit ==> toks[k].literal is Str
        }
}

/// A token stream the parser accepts.
pub open spec fn valid_tokens(toks: Seq<Token>) -> bool {
    has_eof(toks) && literals_consistent(toks)
}

/// No end-of-file token stands before position `n`.
pub open spec fn no_eof_before(toks: Seq<Token>, n: int) -> bool {
    forall|k: int| 0 <= k < n ==> #[trigger] toks[k].ty != TokenType::Eof
}

/// The tokens that begin a new statement, where error recovery stops.
pub open spec fn starts_statement(ty: TokenType) -> bool {
    ty == TokenType::Struct || ty == TokenType::Fn || ty == TokenType::F64 || ty
        == TokenType::Bool || ty == TokenType::Str || ty == TokenType::For || ty == TokenType::If
        || ty == TokenType::While || ty == TokenType::Print || ty == TokenType::Return
}

/// Position `k` is one where error recovery stops: the end of the input, just
/// after a `;` not followed by `}`, or the beginning of a statement.
pub open spec fn recovery_point(toks: Seq<Token>, k: int) -> bool {
    ||| toks[k].ty == TokenType::Eof
    ||| (toks[k - 1].ty == TokenType::Semicolon && toks[k].ty != TokenType::RightBrace)
    ||| starts_statement(toks[k].ty)
}

/// The error a declaration keyword gets when no name follows it.
pub open spec fn missing_name_msg(keyword: TokenType) -> Seq<char> {
    match keyword {
        TokenType::Fn => "Expected function name after 'fn' keyword."@,
        TokenType::Struct => "Expected struct name after 'struct' keyword."@,
        _ => "Expected enum name after 'enum' keyword."@,
    }
}

/// A declaration keyword: `fn`, `struct` or `enum`.
pub open spec fn is_decl_keyword(ty: TokenType) -> bool {
    ty == TokenType::Fn || ty == TokenType::Struct || ty == TokenType::Enum
}

/// The statement parsed from position `p` on is what its first tokens make
/// it: a function, struct or enum named by the token after the keyword and
/// on that token's line, or, where no type or declaration keyword comes
/// first, the kind of statement its first token begins.
pub open spec fn opens_with(toks: Seq<Token>, p: int, s: Stmt) -> bool {
    let first = toks[p].ty;
    let name_tok = toks[p + 1];
    &&& first == TokenType::Fn ==> (s.stmt matches StmtType::Func { name, .. } && name
        == name_tok.lexeme && s.line == name_tok.line)
    &&& first == TokenType::Struct ==> (s.stmt matches StmtType::Struct { name, .. } && name
        == name_tok.lexeme && s.line == name_tok.line)
    &&& first == TokenType::Enum ==> (s.stmt matches StmtType::Enum { name, .. } && name
        == name_tok.lexeme && s.line == name_tok.line)
    &&& (value_type_of(toks[p]) is None && !is_decl_keyword(first)) ==> statement_kind_matches(
        first,
        s.stmt,
    )
}

/// A declaration keyword at position `p` with no name after it.
pub open spec fn name_missing_at(toks: Seq<Token>, p: int) -> bool {
    is_decl_keyword(toks[p].ty) && toks[p + 1].ty != TokenType::Identifier
}

/// The statements begin at the positions `starts`, in order, the first at
/// the beginning of the input, and each is what its first tokens make it.
pub open spec fn starts_of(toks: Seq<Token>, starts: Seq<int>, stmts: Seq<Stmt>) -> bool {
    &&& starts.len() == stmts.len()
    &&& stmts.len() > 0 ==> starts[0] == 0
    &&& forall|i: int| 0 <= i < starts.len() ==> 0 <= #[trigger] starts[i] < toks.len()
    &&& forall|i: int, j: int| 0 <= i < j < starts.len() ==> #[trigger] starts[i] < #[trigger] starts[j]
    &&& forall|i: int| 0 <= i < stmts.len() ==> opens_with(toks, #[trigger] starts[i], stmts[i])
}

/// What parsing a whole program gives.
#[derive(Debug)]
pub enum ParseOutcome {
    /// Every declaration parsed; `all_tokens_parsed` tells whether the
    /// end-of-file token was the last token.
    Parsed { statements: Vec<Stmt>, all_tokens_parsed: bool },
    /// Some declarations failed to parse; the errors in the order found.
    Failed { errors: Vec<ParseErr> },
}

/// A recursive-descent parser over a token stream.
pub struct Parser {
    pub(crate) tokens: Vec<Token>,
    pub(crate) current_token: usize,
}

impl Parser {
    pub(crate) open spec fn inv(self) -> bool {
        &&& valid_tokens(self.tokens@)
        &&& self.current_token < self.tokens@.len()
        &&& no_eof_before(self.tokens@, self.current_token as int)
    }

    pub(crate) open spec fn tok(self, i: int) -> Token {
        self.tokens@[i]
    }

    pub(crate) open spec fn cur(self) -> int {
        self.current_token as int
    }

    /// The token about to be read.
    pub(crate) open spec fn next_tok(self) -> Token {
        self.tokens@[self.current_token as int]
    }

    /// The token read last.
    pub(crate) open spec fn prev_tok(self) -> Token {
        self.tokens@[self.current_token - 1]
    }

    pub(crate) open spec fn at_eof(self) -> bool {
        self.next_tok().ty == TokenType::Eof
    }

    /// A token has been read, or there is one to read.
    pub(crate) open spec fn started(self) -> bool {
        self.current_token >= 1 || !self.at_eof()
    }

    pub(crate) open spec fn measure(self) -> int {
        self.tokens@.len() - self.current_token
    }

    /// `self` is a later state of the parser that was `before`.
    pub(crate) open spec fn moved_on(self, before: Parser) -> bool {
        &&& self.inv()
        &&& self.tokens == before.tokens
        &&& self.current_token >= before.current_token
    }

    /// Parses a whole program: declarations up to the end-of-file token.
    /// After a declaration fails, the parser skips to the next recovery point
    /// and goes on, so that every error is found.
    pub fn compile(tokens: Vec<Token>) -> (r: ParseOutcome)
        requires
            valid_tokens(tokens@),
        ensures
            r matches ParseOutcome::Failed { errors } ==> errors.len() > 0,
            r matches ParseOutcome::Parsed { statements, all_tokens_parsed } ==> (all_tokens_parsed
                <==> no_eof_before(tokens@, tokens@.len() - 1)),
            r matches ParseOutcome::Parsed { statements, .. } ==> methods_are_funcs(statements@),
            tokens@[0].ty == TokenType::Eof ==> (r matches ParseOutcome::Parsed {
                statements,
                all_tokens_parsed,
            } && statements.len() == 0),
            tokens@[0].ty != TokenType::Eof ==> (r matches ParseOutcome::Parsed { statements, .. }
                ==> statements.len() > 0 && opens_with(tokens@, 0, statements@[0])),
            name_missing_at(tokens@, 0) ==> (r matches ParseOutcome::Failed { errors }
                && errors@[0].msg@ == missing_name_msg(tokens@[0].ty) && errors@[0].line
                == tokens@[0].line),
            r matches ParseOutcome::Parsed { statements, .. } ==> exists|starts: Seq<int>|
                #[trigger] starts_of(tokens@, starts, statements@),
            r matches ParseOutcome::Parsed { statements, .. } ==> exists|bounds: Seq<int>|
                #[trigger] program_form(tokens@, statements@, bounds),
            tokens@.len() > 6 && tokens@[0].ty == TokenType::Fn && empty_func_at(tokens@, 1)
                && tokens@[6].ty == TokenType::Eof ==> (r matches ParseOutcome::Parsed {
                statements,
                all_tokens_parsed,
            } && statements.len() == 1 && empty_func(tokens@, 1, statements@[0])
                && all_tokens_parsed == (tokens@.len() == 7)),
            forall|k: int|
                tokens@[0].ty == TokenType::Fn && #[trigger] params_func_at(tokens@, 1, k)
                    && tokens@[3 * k + 5].ty == TokenType::Eof ==> (r matches ParseOutcome::Parsed {
                    statements,
                    all_tokens_parsed,
                } && statements.len() == 1 && params_func(tokens@, 1, k, statements@[0])
                    && all_tokens_parsed == (tokens@.len() == 3 * k + 6)),
    {
        let ghost k = choose|k: int| params_func_at(tokens@, 1, k);
        let ghost one = tokens@[0].ty == TokenType::Fn && params_func_at(tokens@, 1, k)
            && tokens@[3 * k + 5].ty == TokenType::Eof;
        proof {
            assert forall|k2: int| #[trigger] params_func_at(tokens@, 1, k2) implies params_func_at(
                tokens@,
                1,
                k,
            ) && k2 == k by {
                lemma_params_func_unique(tokens@, 1, k, k2);
            }
        }
        let mut parser = Parser { tokens, current_token: 0 };
        let mut had_error = false;
        let mut statements: Vec<Stmt> = Vec::new();
        let mut errors: Vec<ParseErr> = Vec::new();
        let ghost mut starts: Seq<int> = Seq::empty();
        let ghost mut bounds: Seq<int> = seq![0];
        while !parser.check(TokenType::Eof)
            invariant
                errors.len() == 0 ==> starts_of(tokens@, starts, statements@),
                forall|i: int| 0 <= i < starts.len() ==> #[trigger] starts[i] < parser.current_token,
                parser.inv(),
                parser.tokens@ == tokens@,
                had_error <==> errors.len() > 0,
                parser.current_token == 0 ==> statements.len() == 0 && errors.len() == 0,
                parser.current_token > 0 ==> statements.len() + errors.len() > 0,
                statements.len() > 0 && errors.len() == 0 ==> opens_with(tokens@, 0, statements@[0]),
                name_missing_at(tokens@, 0) && parser.current_token > 0 ==> (errors.len() > 0
                    && errors@[0].msg@ == missing_name_msg(tokens@[0].ty) && errors@[0].line
                    == tokens@[0].line),
                methods_are_funcs(statements@),
                tokens@.len() > 6 && tokens@[0].ty == TokenType::Fn && empty_func_at(tokens@, 1)
                    && tokens@[6].ty == TokenType::Eof ==> errors.len() == 0 && ((parser.current_token
                    == 0 && statements.len() == 0) || (parser.current_token == 6 && statements.len()
                    == 1 && empty_func(tokens@, 1, statements@[0]))),
                one == (tokens@[0].ty == TokenType::Fn && params_func_at(tokens@, 1, k)
                    && tokens@[3 * k + 5].ty == TokenType::Eof),
                one ==> errors.len() == 0 && ((parser.current_token == 0 && statements.len() == 0)
                    || (parser.cur() == 3 * k + 5 && statements.len() == 1 && params_func(
                    tokens@,
                    1,
                    k,
                    statements@[0],
                ))),
                errors.len() == 0 ==> bounds.len() == statements@.len() + 1 && bounds[0] == 0
                    && bounds[statements@.len() as int] == parser.cur() && forall|i: int|
                    #![trigger statements@[i]]
                    0 <= i < statements@.len() ==> decl_form(tokens@, bounds[i], bounds[i + 1], statements@[i]),
            decreases parser.measure(),
        {
            let ghost before = parser;
            match parser.declaration() {
                Ok(result) => {
                    let ghost before_stmts = statements@;
                    let ghost before_starts = starts;
                    statements.push(result);
                    proof {
                        if errors.len() == 0 {
                            let b0 = bounds;
                            bounds = bounds.push(parser.cur());
                            assert forall|i: int| #![trigger statements@[i]] 0 <= i < statements@.len()
                                implies decl_form(tokens@, bounds[i], bounds[i + 1], statements@[i]) by {
                                if i < before_stmts.len() {
                                    assert(statements@[i] == before_stmts[i]);
                                    assert(bounds[i] == b0[i] && bounds[i + 1] == b0[i + 1]);
                                }
                            }
                        }
                        starts = starts.push(before.current_token as int);
                        if errors.len() == 0 {
                            assert forall|i: int| 0 <= i < statements@.len() implies opens_with(
                                tokens@,
                                #[trigger] starts[i],
                                statements@[i],
                            ) by {
                                if i < before_stmts.len() {
                                    assert(statements@[i] == before_stmts[i]);
                                    assert(starts[i] == before_starts[i]);
                                }
                            }
                        }
                    }
                    proof {
                        assert forall|i: int| 0 <= i < statements@.len() implies ((
                        #[trigger] statements@[i]).stmt matches StmtType::Struct { methods, .. }
                            ==> forall|j: int|
                            0 <= j < methods@.len() ==> (#[trigger] methods@[j]).stmt is Func) by {
                            if i < before_stmts.len() {
                                assert(statements@[i] == before_stmts[i]);
                            }
                        }
                    }
                },
                Err(err) => {
                    errors.push(err);
                    had_error = true;
                    parser.synchronize();
                },
            }
            assert(parser.current_token > before.current_token);
        }
        let ghost eof_at = parser.current_token;
        assert(parser.tokens@.len() == parser.tokens.len());
        parser.current_token += 1;
        if had_error {
            return ParseOutcome::Failed { errors };
        }
        let all_tokens_parsed = parser.current_token == parser.tokens.len();
        proof {
            let toks = tokens@;
            if all_tokens_parsed {
                assert(no_eof_before(toks, toks.len() - 1));
            } else {
                assert(toks[eof_at as int].ty == TokenType::Eof);
                assert(eof_at < toks.len() - 1);
            }
        }
        assert(starts_of(tokens@, starts, statements@));
        assert(program_form(tokens@, statements@, bounds));
        assert(exists|st: Seq<int>| #[trigger] starts_of(tokens@, st, statements@));
        let r = ParseOutcome::Parsed { statements, all_tokens_parsed };
        assert(r matches ParseOutcome::Parsed { statements: s2, .. } && s2@ == statements@);
        r
    }

    /// Skips tokens until the next recovery point.
    fn synchronize(&mut self)
        requires
            old(self).inv(),
            old(self).current_token >= 1,
        ensures
            final(self).moved_on(*old(self)),
            recovery_point(final(self).tokens@, final(self).cur()),
            forall|k: int|
                old(self).cur() <= k < final(self).cur() ==> !recovery_point(
                    final(self).tokens@,
                    k,
                ),
    {
        while self.peek().ty != TokenType::Eof
            invariant
                self.moved_on(*old(self)),
                self.current_token >= 1,
                forall|k: int|
                    old(self).cur() <= k < self.cur() ==> !recovery_point(self.tokens@, k),
            decreases self.measure(),
        {
            if self.previous().ty == TokenType::Semicolon && self.peek().ty
                != TokenType::RightBrace {
                return;
            }
            match self.peek().ty {
                TokenType::Struct | TokenType::Fn | TokenType::F64 | TokenType::Bool
                | TokenType::Str | TokenType::For | TokenType::If | TokenType::While
                | TokenType::Print | TokenType::Return => {
                    return;
                },
                _ => (),
            }
            self.advance();
        }
    }

    /// Reads a token of the given kind, or reports `msg` on the line of the
    /// token read last.
    fn consume(&mut self, token_type: TokenType, msg: &str) -> (r: Result<(), ParseErr>)
        requires
            old(self).inv(),
            old(self).current_token >= 1,
            token_type != TokenType::Eof,
        ensures
            final(self).moved_on(*old(self)),
            r is Ok <==> old(self).next_tok().ty == token_type,
            r is Ok ==> final(self).current_token == old(self).current_token + 1,
            r matches Err(e) ==> *final(self) == *old(self) && e.line == old(self).prev_tok().line
                && e.msg@ == msg@,
    {
        if self.check(token_type) {
            self.advance();
            Ok(())
        } else {
            Err(ParseErr::new(self.previous().line, msg))
        }
    }

    /// Reads a token of the given kind if it comes next.
    fn matches(&mut self, kind: TokenType) -> (r: bool)
        requires
            old(self).inv(),
            kind != TokenType::Eof,
        ensures
            final(self).inv(),
            final(self).tokens == old(self).tokens,
            r == (old(self).next_tok().ty == kind),
            final(self).current_token == old(self).current_token + if r {
                1int
            } else {
                0int
            },
    {
        if !self.check(kind) {
            false
        } else {
            self.advance();
            true
        }
    }

    fn check(&self, kind: TokenType) -> (r: bool)
        requires
            self.inv(),
        ensures
            r == (self.next_tok().ty == kind),
    {
        self.peek().ty == kind
    }

    /// Reads the next token, unless it is the end of the input; gives the
    /// token read last.
    fn advance(&mut self) -> (r: Token)
        requires
            old(self).inv(),
            old(self).started(),
        ensures
            final(self).inv(),
            final(self).tokens == old(self).tokens,
            final(self).current_token == old(self).current_token + if old(self).at_eof() {
                0int
            } else {
                1int
            },
            final(self).current_token >= 1,
            r == final(self).prev_tok(),
    {
        if self.peek().ty != TokenType::Eof {
            proof {
                let toks = self.tokens@;
                let j = choose|j: int| 0 <= j < toks.len() && #[trigger] toks[j].ty == TokenType::Eof;
                assert(toks[j].ty == TokenType::Eof);
                if j < self.current_token {
                    assert(toks[j].ty != TokenType::Eof);
                }
                assert(j > self.current_token);
                assert(toks.len() == self.tokens.len());
            }
            self.current_token += 1;
        }
        self.previous().clone()
    }

    /// Steps back one token.
    fn regress(&mut self)
        requires
            old(self).inv(),
            old(self).current_token >= 1,
        ensures
            final(self).inv(),
            final(self).tokens == old(self).tokens,
            final(self).current_token == old(self).current_token - 1,
    {
        self.current_token -= 1;
    }

    fn peek(&self) -> (r: &Token)
        requires
            self.inv(),
        ensures
            *r == self.next_tok(),
    {
        &self.tokens[self.current_token]
    }

    fn previous(&self) -> (r: &Token)
        requires
            self.inv(),
            self.current_token >= 1,
        ensures
            *r == self.prev_tok(),
    {
        &self.tokens[self.current_token - 1]
    }
}

} // verus!
