use crs::binary_op::BinaryOp;
use crs::expression::ExprType;
use crs::parser::{ParseOutcome, Parser};
use crs::statement::{Stmt, StmtType};
use crs::token::{Literal, Token, TokenType};
use crs::value::ValueType;

fn tok(ty: TokenType, lexeme: &str, line: u32) -> Token {
    Token::new(ty, lexeme.to_string(), Literal::Null, line)
}

fn num(n: i64, line: u32) -> Token {
    Token::new(TokenType::Num, n.to_string(), Literal::I64(n), line)
}

fn ident(name: &str) -> Token {
    tok(TokenType::Identifier, name, 1)
}

fn eof() -> Token {
    tok(TokenType::Eof, "", 1)
}

/// `fn main() { <body> }` followed by the end of input.
fn main_with(body: Vec<Token>) -> Vec<Token> {
    let mut t = vec![
        tok(TokenType::Fn, "fn", 1),
        ident("main"),
        tok(TokenType::LeftParen, "(", 1),
        tok(TokenType::RightParen, ")", 1),
        tok(TokenType::LeftBrace, "{", 1),
    ];
    t.extend(body);
    t.push(tok(TokenType::RightBrace, "}", 1));
    t.push(eof());
    t
}

fn parsed(tokens: Vec<Token>) -> Vec<Stmt> {
    match Parser::compile(tokens) {
        ParseOutcome::Parsed { statements, all_tokens_parsed } => {
            assert!(all_tokens_parsed);
            statements
        }
        ParseOutcome::Failed { errors } => panic!("unexpected parse errors: {:?}", errors),
    }
}

fn main_body(stmts: &[Stmt]) -> &Vec<Stmt> {
    assert_eq!(stmts.len(), 1);
    match &stmts[0].stmt {
        StmtType::Func { name, parameters, body, return_ty, use_self } => {
            assert_eq!(name, "main");
            assert!(parameters.is_empty());
            assert!(matches!(return_ty, ValueType::Null));
            assert!(!use_self);
            body
        }
        other => panic!("expected a function, found {:?}", other),
    }
}

#[test]
fn empty_input_parses_to_nothing() {
    let stmts = parsed(vec![eof()]);
    assert!(stmts.is_empty());
}

#[test]
fn multiplication_binds_tighter_than_addition() {
    let body = vec![
        tok(TokenType::Print, "print", 1),
        num(1, 1),
        tok(TokenType::Plus, "+", 1),
        num(2, 1),
        tok(TokenType::Star, "*", 1),
        num(3, 1),
        tok(TokenType::Semicolon, ";", 1),
    ];
    let stmts = parsed(main_with(body));
    let body = main_body(&stmts);
    assert_eq!(body.len(), 1);
    let e = match &body[0].stmt {
        StmtType::Println(e) => e,
        other => panic!("expected print, found {:?}", other),
    };
    match &e.expr {
        ExprType::Binary { left, op, right } => {
            assert_eq!(*op, BinaryOp::Add);
            assert!(matches!(left.expr, ExprType::Lit(Literal::I64(1))));
            match &right.expr {
                ExprType::Binary { left, op, right } => {
                    assert_eq!(*op, BinaryOp::Mul);
                    assert!(matches!(left.expr, ExprType::Lit(Literal::I64(2))));
                    assert!(matches!(right.expr, ExprType::Lit(Literal::I64(3))));
                }
                other => panic!("expected a product, found {:?}", other),
            }
        }
        other => panic!("expected a sum, found {:?}", other),
    }
}

#[test]
fn subtraction_is_left_associative() {
    let body = vec![
        tok(TokenType::Print, "print", 1),
        num(8, 1),
        tok(TokenType::Minus, "-", 1),
        num(4, 1),
        tok(TokenType::Minus, "-", 1),
        num(2, 1),
        tok(TokenType::Semicolon, ";", 1),
    ];
    let stmts = parsed(main_with(body));
    let body = main_body(&stmts);
    let e = match &body[0].stmt {
        StmtType::Println(e) => e,
        other => panic!("expected print, found {:?}", other),
    };
    match &e.expr {
        ExprType::Binary { left, op, right } => {
            assert_eq!(*op, BinaryOp::Sub);
            assert!(matches!(right.expr, ExprType::Lit(Literal::I64(2))));
            assert!(matches!(left.expr, ExprType::Binary { op: BinaryOp::Sub, .. }));
        }
        other => panic!("expected a difference, found {:?}", other),
    }
}

#[test]
fn compound_assignment_desugars_to_assignment() {
    let body = vec![
        ident("x"),
        tok(TokenType::MinEqual, "-=", 1),
        num(1, 1),
        tok(TokenType::Semicolon, ";", 1),
    ];
    let stmts = parsed(main_with(body));
    let body = main_body(&stmts);
    match &body[0].stmt {
        StmtType::Expr(e) => match &e.expr {
            ExprType::Assign { name, new_value } => {
                assert_eq!(name, "x");
                match &new_value.expr {
                    ExprType::Binary { left, op, right } => {
                        assert_eq!(*op, BinaryOp::Sub);
                        assert!(matches!(&left.expr, ExprType::Identifier(n) if n == "x"));
                        assert!(matches!(right.expr, ExprType::Lit(Literal::I64(1))));
                    }
                    other => panic!("expected x - 1, found {:?}", other),
                }
            }
            other => panic!("expected an assignment, found {:?}", other),
        },
        other => panic!("expected an expression statement, found {:?}", other),
    }
}

#[test]
fn typed_variable_declaration() {
    let body = vec![
        tok(TokenType::I64, "i64", 1),
        ident("x"),
        tok(TokenType::Equal, "=", 1),
        num(10, 1),
        tok(TokenType::Semicolon, ";", 1),
    ];
    let stmts = parsed(main_with(body));
    let body = main_body(&stmts);
    match &body[0].stmt {
        StmtType::VarDecl { name, value, ty } => {
            assert_eq!(name, "x");
            assert!(matches!(ty, ValueType::I64));
            assert!(matches!(value.expr, ExprType::Lit(Literal::I64(10))));
        }
        other => panic!("expected a declaration, found {:?}", other),
    }
}

#[test]
fn declaration_without_value_is_null() {
    let body = vec![
        tok(TokenType::Str, "str", 1),
        ident("s"),
        tok(TokenType::Semicolon, ";", 1),
    ];
    let stmts = parsed(main_with(body));
    let body = main_body(&stmts);
    match &body[0].stmt {
        StmtType::VarDecl { name, value, ty } => {
            assert_eq!(name, "s");
            assert!(matches!(ty, ValueType::Str));
            assert!(matches!(value.expr, ExprType::Lit(Literal::Null)));
        }
        other => panic!("expected a declaration, found {:?}", other),
    }
}

#[test]
fn for_loop_desugars_to_declaration_and_comparison() {
    let body = vec![
        tok(TokenType::For, "for", 1),
        ident("i"),
        tok(TokenType::In, "in", 1),
        num(0, 1),
        tok(TokenType::To, "to", 1),
        num(3, 1),
        tok(TokenType::Print, "print", 1),
        ident("i"),
        tok(TokenType::Semicolon, ";", 1),
    ];
    let stmts = parsed(main_with(body));
    let body = main_body(&stmts);
    match &body[0].stmt {
        StmtType::For { var, condition, body } => {
            match &var.stmt {
                StmtType::VarDecl { name, value, ty } => {
                    assert_eq!(name, "i");
                    assert!(matches!(ty, ValueType::I64));
                    assert!(matches!(value.expr, ExprType::Lit(Literal::I64(0))));
                }
                other => panic!("expected the loop variable, found {:?}", other),
            }
            match &condition.expr {
                ExprType::Binary { left, op, right } => {
                    assert_eq!(*op, BinaryOp::Less);
                    assert!(matches!(&left.expr, ExprType::Identifier(n) if n == "i"));
                    match &right.expr {
                        ExprType::Cast { value, target_ty } => {
                            assert!(matches!(target_ty, ValueType::I64));
                            assert!(matches!(value.expr, ExprType::Lit(Literal::I64(3))));
                        }
                        other => panic!("expected a cast, found {:?}", other),
                    }
                }
                other => panic!("expected i < end, found {:?}", other),
            }
            assert!(matches!(body.stmt, StmtType::Println(_)));
        }
        other => panic!("expected a for loop, found {:?}", other),
    }
}

#[test]
fn function_with_parameters_and_return_type() {
    let tokens = vec![
        tok(TokenType::Fn, "fn", 1),
        ident("add"),
        tok(TokenType::LeftParen, "(", 1),
        tok(TokenType::I64, "i64", 1),
        ident("a"),
        tok(TokenType::Comma, ",", 1),
        tok(TokenType::I64, "i64", 1),
        ident("b"),
        tok(TokenType::RightParen, ")", 1),
        tok(TokenType::Colon, ":", 1),
        tok(TokenType::I64, "i64", 1),
        tok(TokenType::LeftBrace, "{", 1),
        tok(TokenType::Return, "return", 2),
        ident("a"),
        tok(TokenType::Plus, "+", 2),
        ident("b"),
        tok(TokenType::Semicolon, ";", 2),
        tok(TokenType::RightBrace, "}", 3),
        eof(),
    ];
    let stmts = parsed(tokens);
    assert_eq!(stmts.len(), 1);
    match &stmts[0].stmt {
        StmtType::Func { name, parameters, body, return_ty, use_self } => {
            assert_eq!(name, "add");
            assert_eq!(parameters.len(), 2);
            assert!(matches!(parameters[0].0, ValueType::I64));
            assert_eq!(parameters[0].1, "a");
            assert_eq!(parameters[1].1, "b");
            assert!(matches!(return_ty, ValueType::I64));
            assert!(!use_self);
            assert_eq!(body.len(), 1);
            assert!(matches!(body[0].stmt, StmtType::Return(_)));
        }
        other => panic!("expected a function, found {:?}", other),
    }
}

#[test]
fn missing_semicolon_is_reported() {
    let body = vec![tok(TokenType::Print, "print", 4), num(1, 4)];
    match Parser::compile(main_with(body)) {
        ParseOutcome::Failed { errors } => {
            assert!(!errors.is_empty());
            assert_eq!(errors[0].msg, "Expected ';' at end of statement.");
        }
        ParseOutcome::Parsed { .. } => panic!("expected a parse error"),
    }
}

#[test]
fn each_failed_declaration_is_reported() {
    // Two functions whose names are missing: recovery resumes at the second `fn`.
    let tokens = vec![
        tok(TokenType::Fn, "fn", 1),
        tok(TokenType::LeftParen, "(", 1),
        tok(TokenType::Fn, "fn", 2),
        tok(TokenType::LeftParen, "(", 2),
        eof(),
    ];
    match Parser::compile(tokens) {
        ParseOutcome::Failed { errors } => {
            assert_eq!(errors.len(), 2);
            assert_eq!(errors[0].msg, "Expected function name after 'fn' keyword.");
            assert_eq!(errors[0].line, 1);
            assert_eq!(errors[1].msg, "Expected function name after 'fn' keyword.");
            assert_eq!(errors[1].line, 2);
        }
        ParseOutcome::Parsed { .. } => panic!("expected parse errors"),
    }
}

#[test]
fn tokens_after_end_of_input_are_reported_as_unparsed() {
    let tokens = vec![eof(), num(1, 1), eof()];
    match Parser::compile(tokens) {
        ParseOutcome::Parsed { statements, all_tokens_parsed } => {
            assert!(statements.is_empty());
            assert!(!all_tokens_parsed);
        }
        ParseOutcome::Failed { .. } => panic!("expected an empty program"),
    }
}

#[test]
fn enum_declaration_lists_variants() {
    let tokens = vec![
        tok(TokenType::Enum, "enum", 1),
        ident("Color"),
        tok(TokenType::LeftBrace, "{", 1),
        ident("Red"),
        tok(TokenType::Comma, ",", 1),
        ident("Green"),
        tok(TokenType::Comma, ",", 1),
        tok(TokenType::RightBrace, "}", 1),
        eof(),
    ];
    let stmts = parsed(tokens);
    match &stmts[0].stmt {
        StmtType::Enum { name, variants } => {
            assert_eq!(name, "Color");
            assert_eq!(variants, &vec!["Red".to_string(), "Green".to_string()]);
        }
        other => panic!("expected an enum, found {:?}", other),
    }
}

#[test]
fn struct_and_enum_without_name_are_reported() {
    let tokens = vec![
        tok(TokenType::Struct, "struct", 3),
        tok(TokenType::LeftBrace, "{", 3),
        eof(),
    ];
    match Parser::compile(tokens) {
        ParseOutcome::Failed { errors } => {
            assert_eq!(errors[0].msg, "Expected struct name after 'struct' keyword.");
            assert_eq!(errors[0].line, 3);
        }
        ParseOutcome::Parsed { .. } => panic!("expected a parse error"),
    }
    let tokens = vec![tok(TokenType::Enum, "enum", 5), num(7, 5), eof()];
    match Parser::compile(tokens) {
        ParseOutcome::Failed { errors } => {
            assert_eq!(errors[0].msg, "Expected enum name after 'enum' keyword.");
            assert_eq!(errors[0].line, 5);
        }
        ParseOutcome::Parsed { .. } => panic!("expected a parse error"),
    }
}

#[test]
fn struct_declaration_takes_name_and_line_of_its_name() {
    let tokens = vec![
        tok(TokenType::Struct, "struct", 1),
        tok(TokenType::Identifier, "Point", 2),
        tok(TokenType::LeftBrace, "{", 2),
        tok(TokenType::I64, "i64", 3),
        tok(TokenType::Identifier, "x", 3),
        tok(TokenType::Semicolon, ";", 3),
        tok(TokenType::RightBrace, "}", 4),
        eof(),
    ];
    let stmts = parsed(tokens);
    assert_eq!(stmts[0].line, 2);
    match &stmts[0].stmt {
        StmtType::Struct { name, fields, methods } => {
            assert_eq!(name, "Point");
            assert_eq!(fields.len(), 1);
            assert!(methods.is_empty());
        }
        other => panic!("expected a struct, found {:?}", other),
    }
}

#[test]
fn each_declaration_is_the_kind_its_keyword_starts() {
    let tokens = vec![
        tok(TokenType::Enum, "enum", 1),
        tok(TokenType::Identifier, "E", 1),
        tok(TokenType::LeftBrace, "{", 1),
        tok(TokenType::Identifier, "A", 1),
        tok(TokenType::Comma, ",", 1),
        tok(TokenType::RightBrace, "}", 1),
        tok(TokenType::Fn, "fn", 2),
        tok(TokenType::Identifier, "main", 3),
        tok(TokenType::LeftParen, "(", 3),
        tok(TokenType::RightParen, ")", 3),
        tok(TokenType::LeftBrace, "{", 3),
        tok(TokenType::RightBrace, "}", 3),
        eof(),
    ];
    let stmts = parsed(tokens);
    assert_eq!(stmts.len(), 2);
    assert!(matches!(&stmts[0].stmt, StmtType::Enum { name, .. } if name == "E"));
    assert!(matches!(&stmts[1].stmt, StmtType::Func { name, .. } if name == "main"));
    assert_eq!(stmts[1].line, 3);
}

fn print_of(body: Vec<Token>) -> crs::expression::Expr {
    let mut toks = vec![tok(TokenType::Print, "print", 1)];
    toks.extend(body);
    toks.push(tok(TokenType::Semicolon, ";", 1));
    let stmts = parsed(main_with(toks));
    let body = main_body(&stmts);
    assert_eq!(body.len(), 1);
    match &body[0].stmt {
        StmtType::Println(e) => e.clone(),
        other => panic!("expected print, found {:?}", other),
    }
}

#[test]
fn loop_and_branch_with_empty_bodies() {
    let body = vec![
        tok(TokenType::While, "while", 1),
        ident("go"),
        tok(TokenType::LeftBrace, "{", 1),
        tok(TokenType::RightBrace, "}", 1),
        tok(TokenType::If, "if", 2),
        ident("go"),
        tok(TokenType::LeftBrace, "{", 2),
        tok(TokenType::RightBrace, "}", 2),
        tok(TokenType::Else, "else", 2),
        tok(TokenType::LeftBrace, "{", 3),
        tok(TokenType::RightBrace, "}", 3),
    ];
    let stmts = parsed(main_with(body));
    let body = main_body(&stmts);
    assert_eq!(body.len(), 2);
    match &body[0].stmt {
        StmtType::While { condition, body } => {
            assert!(matches!(&condition.expr, ExprType::Identifier(n) if n == "go"));
            assert!(matches!(&body.stmt, StmtType::Block(v) if v.is_empty()));
        }
        other => panic!("expected a loop, found {:?}", other),
    }
    match &body[1].stmt {
        StmtType::If { condition, body, final_else } => {
            assert!(matches!(&condition.expr, ExprType::Identifier(n) if n == "go"));
            assert!(matches!(&body.stmt, StmtType::Block(v) if v.is_empty()));
            let e = final_else.as_ref().expect("an else branch");
            assert!(matches!(&e.stmt, StmtType::Block(v) if v.is_empty()));
            assert_eq!(e.line, 3);
        }
        other => panic!("expected a branch, found {:?}", other),
    }
}

#[test]
fn calls_with_no_and_one_argument() {
    let e = print_of(vec![ident("f"), tok(TokenType::LeftParen, "(", 1), tok(TokenType::RightParen, ")", 1)]);
    assert!(matches!(&e.expr, ExprType::FuncCall { name, args, index: None } if name == "f" && args.is_empty()));
    let e = print_of(vec![
        ident("f"),
        tok(TokenType::LeftParen, "(", 1),
        num(7, 1),
        tok(TokenType::RightParen, ")", 1),
    ]);
    match &e.expr {
        ExprType::FuncCall { name, args, index: None } => {
            assert_eq!(name, "f");
            assert_eq!(args.len(), 1);
            assert!(matches!(args[0].expr, ExprType::Lit(Literal::I64(7))));
        }
        other => panic!("expected a call, found {:?}", other),
    }
}

#[test]
fn array_grouping_unary_and_index_around_one_operand() {
    let e = print_of(vec![tok(TokenType::LeftBracket, "[", 1), tok(TokenType::RightBracket, "]", 1)]);
    assert!(matches!(&e.expr, ExprType::Array(v) if v.is_empty()));
    let e = print_of(vec![tok(TokenType::LeftParen, "(", 1), num(4, 1), tok(TokenType::RightParen, ")", 1)]);
    assert!(matches!(e.expr, ExprType::Lit(Literal::I64(4))));
    let e = print_of(vec![tok(TokenType::Minus, "-", 1), ident("x")]);
    match &e.expr {
        ExprType::Unary { prefix, value } => {
            assert_eq!(*prefix, TokenType::Minus);
            assert!(matches!(&value.expr, ExprType::Identifier(n) if n == "x"));
        }
        other => panic!("expected a negation, found {:?}", other),
    }
    let e = print_of(vec![
        ident("a"),
        tok(TokenType::LeftBracket, "[", 1),
        num(1, 1),
        tok(TokenType::RightBracket, "]", 1),
    ]);
    match &e.expr {
        ExprType::Index { arr, index } => {
            assert!(matches!(&arr.expr, ExprType::Identifier(n) if n == "a"));
            assert!(matches!(index.expr, ExprType::Lit(Literal::I64(1))));
        }
        other => panic!("expected an index, found {:?}", other),
    }
}

#[test]
fn equality_binds_looser_than_comparison() {
    let e = print_of(vec![
        num(1, 1),
        tok(TokenType::Less, "<", 1),
        num(2, 1),
        tok(TokenType::EqualEqual, "==", 1),
        tok(TokenType::True, "true", 1),
    ]);
    match &e.expr {
        ExprType::Binary { left, op, right } => {
            assert_eq!(*op, BinaryOp::Equal);
            assert!(matches!(left.expr, ExprType::Binary { op: BinaryOp::Less, .. }));
            assert!(matches!(right.expr, ExprType::Lit(Literal::True)));
        }
        other => panic!("expected an equality, found {:?}", other),
    }
}

#[test]
fn one_empty_function_parses() {
    let stmts = parsed(vec![
        tok(TokenType::Fn, "fn", 1),
        ident("f"),
        tok(TokenType::LeftParen, "(", 1),
        tok(TokenType::RightParen, ")", 1),
        tok(TokenType::LeftBrace, "{", 1),
        tok(TokenType::RightBrace, "}", 1),
        eof(),
    ]);
    assert_eq!(stmts.len(), 1);
    match &stmts[0].stmt {
        StmtType::Func { name, parameters, body, return_ty, use_self } => {
            assert_eq!(name, "f");
            assert!(parameters.is_empty() && body.is_empty() && !use_self);
            assert!(matches!(return_ty, ValueType::Null));
        }
        other => panic!("expected a function, found {:?}", other),
    }
}

#[test]
fn for_loop_reads_start_bound_and_body() {
    let body = vec![
        tok(TokenType::For, "for", 1),
        ident("i"),
        tok(TokenType::In, "in", 1),
        num(0, 1),
        tok(TokenType::To, "to", 1),
        num(3, 1),
        tok(TokenType::LeftBrace, "{", 1),
        tok(TokenType::RightBrace, "}", 1),
    ];
    let stmts = parsed(main_with(body));
    let body = main_body(&stmts);
    match &body[0].stmt {
        StmtType::For { var, condition, body } => {
            assert!(matches!(&var.stmt, StmtType::VarDecl { value, .. } if matches!(value.expr, ExprType::Lit(Literal::I64(0)))));
            match &condition.expr {
                ExprType::Binary { right, .. } => match &right.expr {
                    ExprType::Cast { value, .. } => assert!(matches!(value.expr, ExprType::Lit(Literal::I64(3)))),
                    other => panic!("expected a cast, found {:?}", other),
                },
                other => panic!("expected a comparison, found {:?}", other),
            }
            assert!(matches!(&body.stmt, StmtType::Block(v) if v.is_empty()));
        }
        other => panic!("expected a loop, found {:?}", other),
    }
}

#[test]
fn function_with_parameters_parses_them_in_order() {
    let stmts = parsed(vec![
        tok(TokenType::Fn, "fn", 1),
        ident("f"),
        tok(TokenType::LeftParen, "(", 1),
        tok(TokenType::I64, "i64", 1),
        ident("a"),
        tok(TokenType::Comma, ",", 1),
        tok(TokenType::U64, "u64", 1),
        ident("b"),
        tok(TokenType::Comma, ",", 1),
        ident("Point"),
        ident("p"),
        tok(TokenType::RightParen, ")", 1),
        tok(TokenType::LeftBrace, "{", 1),
        tok(TokenType::RightBrace, "}", 1),
        eof(),
    ]);
    assert_eq!(stmts.len(), 1);
    match &stmts[0].stmt {
        StmtType::Func { name, parameters, body, return_ty, use_self } => {
            assert_eq!(name, "f");
            assert_eq!(parameters.len(), 3);
            assert!(matches!(parameters[0].0, ValueType::I64));
            assert_eq!(parameters[0].1, "a");
            assert!(matches!(parameters[1].0, ValueType::U64));
            assert_eq!(parameters[1].1, "b");
            assert!(matches!(&parameters[2].0, ValueType::UnknownType(t) if t == "Point"));
            assert_eq!(parameters[2].1, "p");
            assert!(body.is_empty() && !use_self);
            assert!(matches!(return_ty, ValueType::Null));
        }
        other => panic!("expected a function, found {:?}", other),
    }
}

#[test]
fn call_with_several_operands_keeps_them_in_order() {
    let e = print_of(vec![
        ident("f"),
        tok(TokenType::LeftParen, "(", 1),
        num(7, 1),
        tok(TokenType::Comma, ",", 1),
        ident("x"),
        tok(TokenType::Comma, ",", 1),
        tok(TokenType::True, "true", 2),
        tok(TokenType::RightParen, ")", 2),
    ]);
    assert_eq!(e.line, 2);
    match &e.expr {
        ExprType::FuncCall { name, args, index: None } => {
            assert_eq!(name, "f");
            assert_eq!(args.len(), 3);
            assert!(matches!(args[0].expr, ExprType::Lit(Literal::I64(7))));
            assert!(matches!(&args[1].expr, ExprType::Identifier(n) if n == "x"));
            assert!(matches!(args[2].expr, ExprType::Lit(Literal::True)));
        }
        other => panic!("expected a call, found {:?}", other),
    }
}
