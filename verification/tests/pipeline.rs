use crs::analysis::types::{Operator, SemErrType, UserTypes};
use crs::expression::ExprType;
use crs::analysis::Analyser;
use crs::codegen::builder::CodegenError;
use crs::codegen::ir::{IrFunction, IrType, RetType};
use crs::codegen::CodeGen;
use crs::parser::{ParseOutcome, Parser};
use crs::statement::{Stmt, StmtType};
use crs::token::{Literal, Token, TokenType};
use crs::value::ValueType;

fn tok(ty: TokenType, lexeme: &str) -> Token {
    Token::new(ty, lexeme.to_string(), Literal::Null, 1)
}

fn tok_at(ty: TokenType, lexeme: &str, line: u32) -> Token {
    Token::new(ty, lexeme.to_string(), Literal::Null, line)
}

fn num(n: i64) -> Token {
    Token::new(TokenType::Num, n.to_string(), Literal::I64(n), 1)
}

fn text(s: &str) -> Token {
    Token::new(TokenType::StringLit, s.to_string(), Literal::Str(s.to_string()), 1)
}

fn ident(name: &str) -> Token {
    tok(TokenType::Identifier, name)
}

fn semi() -> Token {
    tok(TokenType::Semicolon, ";")
}

/// `fn <name>() { <body> }`
fn func(name: &str, body: Vec<Token>) -> Vec<Token> {
    let mut t = vec![
        tok(TokenType::Fn, "fn"),
        ident(name),
        tok(TokenType::LeftParen, "("),
        tok(TokenType::RightParen, ")"),
        tok(TokenType::LeftBrace, "{"),
    ];
    t.extend(body);
    t.push(tok(TokenType::RightBrace, "}"));
    t
}

fn program(mut tokens: Vec<Token>) -> Vec<Stmt> {
    tokens.push(tok(TokenType::Eof, ""));
    match Parser::compile(tokens) {
        ParseOutcome::Parsed { statements, all_tokens_parsed } => {
            assert!(all_tokens_parsed);
            statements
        }
        ParseOutcome::Failed { errors } => panic!("unexpected parse errors: {:?}", errors),
    }
}

fn analysed(tokens: Vec<Token>) -> UserTypes {
    let mut stmts = program(tokens);
    match Analyser::analyse_stmts(&mut stmts) {
        Ok(user_types) => user_types,
        Err(e) => panic!("unexpected semantic error: {:?}", e),
    }
}

fn lowered(tokens: Vec<Token>) -> Vec<IrFunction> {
    match CodeGen::compile_checked(analysed(tokens)) {
        Ok(fs) => fs,
        Err(e) => panic!("unexpected lowering error: {:?}", e),
    }
}

fn function<'a>(fs: &'a [IrFunction], name: &str) -> &'a IrFunction {
    fs.iter().find(|f| f.name == name).expect("function not in module")
}

fn block_names(f: &IrFunction) -> Vec<String> {
    f.blocks.iter().map(|b| b.name.clone()).collect()
}

#[test]
fn program_without_main_is_rejected() {
    let mut stmts = program(func("helper", vec![]));
    match Analyser::analyse_stmts(&mut stmts) {
        Err(e) => {
            assert!(matches!(e.ty, SemErrType::NoMainFunc));
            let m = e.message();
            assert_eq!(
                m.before,
                "You have to define a function with the name 'main' as entry point for the program."
            );
            assert_eq!(m.name, "");
            assert_eq!(m.after, "");
        }
        Ok(_) => panic!("a program without main must be rejected"),
    }
}

#[test]
fn undefined_variable_is_reported_with_its_name() {
    let body = vec![tok_at(TokenType::Print, "print", 3), tok_at(TokenType::Identifier, "x", 3), semi()];
    let mut stmts = program(func("main", body));
    match Analyser::analyse_stmts(&mut stmts) {
        Err(e) => {
            assert!(matches!(&e.ty, SemErrType::UndefinedVar(n) if n == "x"));
            let m = e.message();
            assert_eq!(m.before, "Variable '");
            assert_eq!(m.name, "x");
            assert_eq!(m.after, "' has not been defined in this scope.");
        }
        Ok(_) => panic!("an undefined variable must be reported"),
    }
}

#[test]
fn if_condition_must_be_boolean() {
    let body = vec![tok(TokenType::If, "if"), num(1), tok(TokenType::Print, "print"), num(2), semi()];
    let mut stmts = program(func("main", body));
    match Analyser::analyse_stmts(&mut stmts) {
        Err(e) => assert!(matches!(e.ty, SemErrType::InvalidIfCondition(ValueType::I64))),
        Ok(_) => panic!("an integer condition must be rejected"),
    }
}

#[test]
fn declaration_type_must_match_value() {
    let body = vec![
        tok(TokenType::I64, "i64"),
        ident("x"),
        tok(TokenType::Equal, "="),
        tok(TokenType::True, "true"),
        semi(),
    ];
    let mut stmts = program(func("main", body));
    match Analyser::analyse_stmts(&mut stmts) {
        Err(e) => assert!(matches!(e.ty, SemErrType::VarDeclTypeMismatch(ValueType::I64, ValueType::Bool))),
        Ok(_) => panic!("a boolean cannot initialise an integer"),
    }
}

#[test]
fn analysed_program_records_its_functions() {
    let user_types = analysed(func("main", vec![]));
    assert_eq!(user_types.funcs.len(), 1);
    let (name, data) = user_types.funcs.entry_at(0);
    assert_eq!(name, "main");
    assert!(data.parameters.is_empty());
    assert!(matches!(data.return_ty, ValueType::Null));
}

#[test]
fn arithmetic_lowers_in_evaluation_order() {
    let body = vec![
        tok(TokenType::Print, "print"),
        num(1),
        tok(TokenType::Plus, "+"),
        num(2),
        tok(TokenType::Star, "*"),
        num(3),
        semi(),
    ];
    let fs = lowered(func("main", body));
    let names: Vec<&str> = fs.iter().map(|f| f.name.as_str()).collect();
    assert_eq!(names, vec!["print_i64", "print_u64", "print_f64", "print_str", "main"]);
    let main = function(&fs, "main");
    assert!(main.params.is_empty());
    assert!(matches!(main.ret, RetType::Void));
    assert_eq!(block_names(main), vec!["entry"]);
    assert_eq!(
        format!("{:?}", main.blocks[0].instrs),
        "[ConstInt { dst: 0, ty: Int, bits: 1, sign_extend: true }, \
ConstInt { dst: 1, ty: Int, bits: 2, sign_extend: true }, \
ConstInt { dst: 2, ty: Int, bits: 3, sign_extend: true }, \
Int { dst: 3, op: Mul, lhs: 1, rhs: 2, name: \"multmp\" }, \
Int { dst: 4, op: Add, lhs: 0, rhs: 3, name: \"addtmp\" }, \
Call { dst: None, func: \"print_i64\", args: [4], name: \"printtmp\" }, \
Ret { value: None }]"
    );
}

#[test]
fn runtime_functions_are_declared_without_bodies() {
    let fs = lowered(func("main", vec![]));
    let p = function(&fs, "print_str");
    assert!(p.blocks.is_empty());
    assert!(matches!(p.ret, RetType::Void));
    assert!(matches!(p.params.as_slice(), [IrType::Ptr, IrType::Int]));
    let p = function(&fs, "print_f64");
    assert!(matches!(p.params.as_slice(), [IrType::Double]));
    let main = function(&fs, "main");
    assert_eq!(format!("{:?}", main.blocks[0].instrs), "[Ret { value: None }]");
}

#[test]
fn parameters_are_stored_in_slots() {
    let mut tokens = vec![
        tok(TokenType::Fn, "fn"),
        ident("add"),
        tok(TokenType::LeftParen, "("),
        tok(TokenType::I64, "i64"),
        ident("a"),
        tok(TokenType::Comma, ","),
        tok(TokenType::I64, "i64"),
        ident("b"),
        tok(TokenType::RightParen, ")"),
        tok(TokenType::Colon, ":"),
        tok(TokenType::I64, "i64"),
        tok(TokenType::LeftBrace, "{"),
        tok(TokenType::Return, "return"),
        ident("a"),
        tok(TokenType::Plus, "+"),
        ident("b"),
        semi(),
        tok(TokenType::RightBrace, "}"),
    ];
    tokens.extend(func(
        "main",
        vec![
            tok(TokenType::Print, "print"),
            ident("add"),
            tok(TokenType::LeftParen, "("),
            num(2),
            tok(TokenType::Comma, ","),
            num(3),
            tok(TokenType::RightParen, ")"),
            semi(),
        ],
    ));
    let fs = lowered(tokens);
    let add = function(&fs, "add");
    assert!(matches!(add.params.as_slice(), [IrType::Int, IrType::Int]));
    assert!(matches!(add.ret, RetType::Value(IrType::Int)));
    assert_eq!(
        format!("{:?}", add.blocks[0].instrs),
        "[Alloca { dst: 2, ty: Int, name: \"a\" }, Store { ptr: 2, value: 0 }, \
Alloca { dst: 3, ty: Int, name: \"b\" }, Store { ptr: 3, value: 1 }, \
Load { dst: 4, ty: Int, ptr: 2, name: \"a\" }, Load { dst: 5, ty: Int, ptr: 3, name: \"b\" }, \
Int { dst: 6, op: Add, lhs: 4, rhs: 5, name: \"addtmp\" }, Ret { value: Some(6) }]"
    );
    let main = function(&fs, "main");
    assert_eq!(
        format!("{:?}", main.blocks[0].instrs),
        "[ConstInt { dst: 0, ty: Int, bits: 2, sign_extend: true }, \
ConstInt { dst: 1, ty: Int, bits: 3, sign_extend: true }, \
Call { dst: Some(2), func: \"add\", args: [0, 1], name: \"calltmp\" }, \
Call { dst: None, func: \"print_i64\", args: [2], name: \"printtmp\" }, \
Ret { value: None }]"
    );
}

#[test]
fn loops_and_branches_get_their_blocks() {
    let body = vec![
        tok(TokenType::I64, "i64"),
        ident("x"),
        tok(TokenType::Equal, "="),
        num(3),
        semi(),
        tok(TokenType::While, "while"),
        ident("x"),
        tok(TokenType::Greater, ">"),
        num(0),
        tok(TokenType::LeftBrace, "{"),
        ident("x"),
        tok(TokenType::MinEqual, "-="),
        num(1),
        semi(),
        tok(TokenType::RightBrace, "}"),
        tok(TokenType::If, "if"),
        ident("x"),
        tok(TokenType::EqualEqual, "=="),
        num(0),
        tok(TokenType::LeftBrace, "{"),
        tok(TokenType::Print, "print"),
        ident("x"),
        semi(),
        tok(TokenType::RightBrace, "}"),
        tok(TokenType::Else, "else"),
        tok(TokenType::LeftBrace, "{"),
        tok(TokenType::Print, "print"),
        num(1),
        semi(),
        tok(TokenType::RightBrace, "}"),
    ];
    let fs = lowered(func("main", body));
    let main = function(&fs, "main");
    assert_eq!(
        block_names(main),
        vec!["entry", "while_body", "while_condition", "while_end", "then", "else", "if_end"]
    );
    assert_eq!(
        format!("{:?}", main.blocks[0].instrs),
        "[Alloca { dst: 0, ty: Int, name: \"x\" }, \
ConstInt { dst: 1, ty: Int, bits: 3, sign_extend: true }, \
Store { ptr: 0, value: 1 }, Br { target: 2 }]"
    );
    assert_eq!(
        format!("{:?}", main.blocks[2].instrs),
        "[Load { dst: 2, ty: Int, ptr: 0, name: \"x\" }, \
ConstInt { dst: 3, ty: Int, bits: 0, sign_extend: true }, \
IntCmp { dst: 4, pred: SignedGt, lhs: 2, rhs: 3, name: \"sgttmp\" }, \
CondBr { cond: 4, then_block: 1, else_block: 3 }]"
    );
    // The loop body jumps back to the condition; both branches join at `if_end`,
    // which returns.
    assert!(format!("{:?}", main.blocks[1].instrs).ends_with("Br { target: 2 }]"));
    assert!(format!("{:?}", main.blocks[4].instrs).ends_with("Br { target: 6 }]"));
    assert!(format!("{:?}", main.blocks[5].instrs).ends_with("Br { target: 6 }]"));
    assert_eq!(format!("{:?}", main.blocks[6].instrs), "[Ret { value: None }]");
}

#[test]
fn strings_print_through_the_string_printer() {
    let body = vec![tok(TokenType::Print, "print"), text("hi"), semi()];
    let fs = lowered(func("main", body));
    let main = function(&fs, "main");
    assert_eq!(
        format!("{:?}", main.blocks[0].instrs),
        "[ConstStr { dst: 0, text: \"hi\" }, \
Call { dst: None, func: \"print_str\", args: [0], name: \"printtmp\" }, \
Ret { value: None }]"
    );
}

#[test]
fn casts_lower_to_conversions() {
    let body = vec![
        tok(TokenType::Print, "print"),
        num(7),
        tok(TokenType::As, "as"),
        tok(TokenType::F64, "f64"),
        semi(),
    ];
    let fs = lowered(func("main", body));
    let main = function(&fs, "main");
    assert_eq!(
        format!("{:?}", main.blocks[0].instrs),
        "[ConstInt { dst: 0, ty: Int, bits: 7, sign_extend: true }, \
Cast { dst: 1, op: SignedToFloat, value: 0, name: \"cast_i64_f64\" }, \
Call { dst: None, func: \"print_f64\", args: [1], name: \"printtmp\" }, \
Ret { value: None }]"
    );
}

#[test]
fn identity_cast_has_no_lowering() {
    let body = vec![
        tok(TokenType::Print, "print"),
        num(1),
        tok(TokenType::As, "as"),
        tok(TokenType::I64, "i64"),
        semi(),
    ];
    match CodeGen::compile_checked(analysed(func("main", body))) {
        Err(CodegenError::UnsupportedCast(ValueType::I64, ValueType::I64)) => {}
        other => panic!("expected an unsupported cast, found {:?}", other),
    }
}

#[test]
fn calling_a_function_without_value_is_an_error() {
    let mut tokens = func("nothing", vec![]);
    tokens.extend(func(
        "main",
        vec![
            tok(TokenType::I64, "i64"),
            ident("y"),
            tok(TokenType::Equal, "="),
            ident("nothing"),
            tok(TokenType::LeftParen, "("),
            tok(TokenType::RightParen, ")"),
            semi(),
        ],
    ));
    match CodeGen::compile_checked(analysed(tokens)) {
        Err(CodegenError::VoidCall(name)) => assert_eq!(name, "nothing"),
        other => panic!("expected a call without value, found {:?}", other),
    }
}

#[test]
fn break_has_no_lowering() {
    let body = vec![
        tok(TokenType::While, "while"),
        tok(TokenType::True, "true"),
        tok(TokenType::Break, "break"),
        semi(),
    ];
    let stmts = program(func("main", body));
    match &stmts[0].stmt {
        StmtType::Func { body, .. } => assert!(matches!(body[0].stmt, StmtType::While { .. })),
        other => panic!("expected a function, found {:?}", other),
    }
    match CodeGen::compile_checked(analysed(func(
        "main",
        vec![tok(TokenType::While, "while"), tok(TokenType::True, "true"), tok(TokenType::Break, "break"), semi()],
    ))) {
        Err(CodegenError::UnsupportedStatement) => {}
        other => panic!("expected an unsupported statement, found {:?}", other),
    }
}

#[test]
fn duplicate_function_is_rejected() {
    let mut tokens = func("main", vec![]);
    tokens.extend(func("main", vec![]));
    let mut stmts = program(tokens);
    match Analyser::analyse_stmts(&mut stmts) {
        Err(e) => {
            assert!(matches!(&e.ty, SemErrType::AlreadyDefinedFunc(n) if n == "main"));
            let m = e.message();
            assert_eq!(m.before, "Function with name '");
            assert_eq!(m.name, "main");
            assert_eq!(m.after, "' has already been defined.");
        }
        Ok(_) => panic!("a second main must be rejected"),
    }
}

#[test]
fn declared_structs_and_enums_are_recorded() {
    let mut tokens = vec![
        tok(TokenType::Struct, "struct"),
        ident("P"),
        tok(TokenType::LeftBrace, "{"),
        tok(TokenType::I64, "i64"),
        ident("x"),
        semi(),
        tok(TokenType::RightBrace, "}"),
        tok(TokenType::Enum, "enum"),
        ident("E"),
        tok(TokenType::LeftBrace, "{"),
        ident("A"),
        tok(TokenType::Comma, ","),
        tok(TokenType::RightBrace, "}"),
    ];
    tokens.extend(func("main", vec![]));
    let ut = analysed(tokens);
    assert_eq!(ut.structs.len(), 1);
    let (name, data) = ut.structs.entry_at(0);
    assert_eq!(name, "P");
    assert_eq!(data.fields.len(), 1);
    assert_eq!(data.fields[0].1, "x");
    assert_eq!(ut.enums.len(), 1);
    let (name, variants) = ut.enums.entry_at(0);
    assert_eq!(name, "E");
    assert_eq!(variants, &vec!["A".to_string()]);
    assert_eq!(ut.funcs.len(), 1);
}

#[test]
fn a_function_named_like_the_runtime_keeps_the_runtime_signature() {
    let mut tokens = func("print_i64", vec![]);
    tokens.extend(func("main", vec![]));
    let fs = lowered(tokens);
    assert_eq!(fs.len(), 5);
    let p = function(&fs, "print_i64");
    assert!(matches!(p.params.as_slice(), [IrType::Int]));
    assert_eq!(block_names(p), vec!["entry"]);
}

#[test]
fn a_body_reading_more_parameters_than_the_signature_is_an_error() {
    let mut tokens = vec![
        tok(TokenType::Fn, "fn"),
        ident("print_f64"),
        tok(TokenType::LeftParen, "("),
        tok(TokenType::I64, "i64"),
        ident("a"),
        tok(TokenType::Comma, ","),
        tok(TokenType::I64, "i64"),
        ident("b"),
        tok(TokenType::RightParen, ")"),
        tok(TokenType::LeftBrace, "{"),
        tok(TokenType::RightBrace, "}"),
    ];
    tokens.extend(func("main", vec![]));
    match CodeGen::compile_checked(analysed(tokens)) {
        Err(CodegenError::MissingParameter(name)) => assert_eq!(name, "print_f64"),
        other => panic!("expected a missing parameter, found {:?}", other),
    }
}

fn semantic_error(tokens: Vec<Token>) -> SemErrType {
    let mut stmts = program(tokens);
    match Analyser::analyse_stmts(&mut stmts) {
        Err(e) => e.ty,
        Ok(_) => panic!("a semantic error was expected"),
    }
}

fn print_stmt(expr: Vec<Token>) -> Vec<Token> {
    let mut t = vec![tok(TokenType::Print, "print")];
    t.extend(expr);
    t.push(semi());
    t
}

#[test]
fn minus_does_not_apply_to_booleans() {
    let body = print_stmt(vec![tok(TokenType::Minus, "-"), tok(TokenType::True, "true")]);
    assert!(matches!(semantic_error(func("main", body)), SemErrType::InvalidPrefixOp));
}

#[test]
fn operands_of_different_types_are_rejected() {
    let body = print_stmt(vec![num(1), tok(TokenType::Plus, "+"), tok(TokenType::True, "true")]);
    assert!(matches!(
        semantic_error(func("main", body)),
        SemErrType::OpTypeMismatch(ValueType::I64, Operator::Add, ValueType::Bool)
    ));
}

#[test]
fn addition_does_not_apply_to_booleans() {
    let body = print_stmt(vec![
        tok(TokenType::True, "true"),
        tok(TokenType::Plus, "+"),
        tok(TokenType::False, "false"),
    ]);
    assert!(matches!(
        semantic_error(func("main", body)),
        SemErrType::InvalidInfixOp(ValueType::Bool, Operator::Add)
    ));
}

#[test]
fn calling_an_undeclared_function_is_rejected() {
    let body = print_stmt(vec![ident("foo"), tok(TokenType::LeftParen, "("), tok(TokenType::RightParen, ")")]);
    assert!(matches!(semantic_error(func("main", body)), SemErrType::UndefinedFunc(n) if n == "foo"));
}

#[test]
fn self_outside_a_struct_is_rejected() {
    let body = print_stmt(vec![tok(TokenType::This, "this")]);
    assert!(matches!(semantic_error(func("main", body)), SemErrType::SelfOutsideStruct));
}

#[test]
fn returning_a_value_from_main_is_rejected() {
    let body = vec![tok(TokenType::Return, "return"), num(1), semi()];
    assert!(matches!(
        semantic_error(func("main", body)),
        SemErrType::IncorrectReturnTy(ValueType::Null, ValueType::I64)
    ));
}

#[test]
fn function_with_return_type_needs_a_return() {
    let mut tokens = vec![
        tok(TokenType::Fn, "fn"),
        ident("f"),
        tok(TokenType::LeftParen, "("),
        tok(TokenType::RightParen, ")"),
        tok(TokenType::Colon, ":"),
        tok(TokenType::I64, "i64"),
        tok(TokenType::LeftBrace, "{"),
        tok(TokenType::RightBrace, "}"),
    ];
    tokens.extend(func("main", vec![]));
    assert!(matches!(
        semantic_error(tokens),
        SemErrType::NoReturnTy(n, ValueType::I64) if n == "f"
    ));
}

#[test]
fn call_with_too_few_arguments_is_rejected() {
    let mut tokens = vec![
        tok(TokenType::Fn, "fn"),
        ident("f"),
        tok(TokenType::LeftParen, "("),
        tok(TokenType::I64, "i64"),
        ident("a"),
        tok(TokenType::RightParen, ")"),
        tok(TokenType::LeftBrace, "{"),
        tok(TokenType::RightBrace, "}"),
    ];
    let call = vec![ident("f"), tok(TokenType::LeftParen, "("), tok(TokenType::RightParen, ")"), semi()];
    tokens.extend(func("main", call));
    assert!(matches!(
        semantic_error(tokens),
        SemErrType::IncorrectArity(n, 1, 0) if n == "f"
    ));
}

#[test]
fn int_literals_take_the_uint_type_of_a_declaration() {
    let body = vec![
        tok(TokenType::U64, "u64"),
        ident("x"),
        tok(TokenType::Equal, "="),
        num(1),
        tok(TokenType::Plus, "+"),
        num(2),
        semi(),
    ];
    let user_types = analysed(func("main", body));
    let (_, main) = user_types.funcs.entry_at(0);
    match &main.body[0].stmt {
        StmtType::VarDecl { value, ty, .. } => {
            assert!(matches!(ty, ValueType::U64));
            match &value.expr {
                ExprType::Binary { left, right, .. } => {
                    assert!(matches!(left.expr, ExprType::Lit(Literal::U64(1))));
                    assert!(matches!(right.expr, ExprType::Lit(Literal::U64(2))));
                }
                other => panic!("expected a sum, found {:?}", other),
            }
        }
        other => panic!("expected a declaration, found {:?}", other),
    }
}

#[test]
fn for_loop_body_steps_its_variable_and_tests_again() {
    // u64 n = 3; for i in 0 to n { print i; }
    let body = vec![
        tok(TokenType::U64, "u64"),
        ident("n"),
        tok(TokenType::Equal, "="),
        num(3),
        semi(),
        tok(TokenType::For, "for"),
        ident("i"),
        tok(TokenType::In, "in"),
        num(0),
        tok(TokenType::To, "to"),
        ident("n"),
        tok(TokenType::LeftBrace, "{"),
        tok(TokenType::Print, "print"),
        ident("i"),
        semi(),
        tok(TokenType::RightBrace, "}"),
    ];
    let fs = lowered(func("main", body));
    let main = function(&fs, "main");
    assert_eq!(block_names(main), vec!["entry", "for_condition", "for_body", "for_end"]);
    let cond = format!("{:?}", main.blocks[1].instrs);
    assert!(cond.ends_with("then_block: 2, else_block: 3 }]"), "{}", cond);
    let step = format!("{:?}", main.blocks[2].instrs);
    let tail = step.split("Load").last().unwrap();
    assert!(tail.starts_with(" { dst: "), "{}", step);
    assert!(tail.contains("ConstInt {"), "{}", step);
    assert!(tail.contains("bits: 1, sign_extend: false"), "{}", step);
    assert!(tail.contains("op: Add"), "{}", step);
    assert!(tail.contains("Store {"), "{}", step);
    assert!(tail.ends_with("Br { target: 1 }]"), "{}", step);
}

#[test]
fn top_level_expressions_return_from_main() {
    // fn main() { 1 + 2; }
    let body = vec![num(1), tok(TokenType::Plus, "+"), num(2), semi()];
    let stmts = program(func("main", body));
    let main = CodeGen::compile_main_checked(&stmts).expect("main lowers");
    assert_eq!(main.name, "main");
    assert!(main.params.is_empty());
    assert!(matches!(main.ret, RetType::Value(IrType::Int)));
    assert_eq!(block_names(&main), vec!["entry"]);
    assert_eq!(
        format!("{:?}", main.blocks[0].instrs),
        "[ConstInt { dst: 0, ty: Int, bits: 1, sign_extend: false }, \
ConstInt { dst: 1, ty: Int, bits: 2, sign_extend: false }, \
Int { dst: 2, op: Add, lhs: 0, rhs: 1, name: \"addtmp\" }, \
Ret { value: Some(2) }]"
    );
}

#[test]
fn comparisons_in_main_are_signed() {
    // fn main() { 1 < 2; }
    let body = vec![num(1), tok(TokenType::Less, "<"), num(2), semi()];
    let main = CodeGen::compile_main_checked(&program(func("main", body))).expect("main lowers");
    assert!(format!("{:?}", main.blocks[0].instrs).contains("IntCmp { dst: 2, pred: SignedLt"));
}

#[test]
fn print_has_no_lowering_in_main() {
    let body = vec![tok(TokenType::Print, "print"), num(1), semi()];
    let stmts = program(func("main", body));
    assert!(matches!(CodeGen::compile_main_checked(&stmts), Err(CodegenError::UnsupportedStatement)));
}

#[test]
fn strings_have_no_lowering_in_main() {
    let body = vec![text("hi"), semi()];
    let stmts = program(func("main", body));
    assert!(matches!(CodeGen::compile_main_checked(&stmts), Err(CodegenError::UnsupportedExpression)));
}

#[test]
fn variables_of_a_block_are_gone_after_it() {
    // fn main() { { i64 x = 1; } print x; }
    let body = vec![
        tok(TokenType::LeftBrace, "{"),
        tok(TokenType::I64, "i64"),
        ident("x"),
        tok(TokenType::Equal, "="),
        num(1),
        semi(),
        tok(TokenType::RightBrace, "}"),
        tok(TokenType::Print, "print"),
        ident("x"),
        semi(),
    ];
    assert!(matches!(semantic_error(func("main", body)), SemErrType::UndefinedVar(n) if n == "x"));
}

#[test]
fn redeclaring_a_variable_in_one_scope_is_rejected() {
    let body = vec![
        tok(TokenType::I64, "i64"),
        ident("x"),
        tok(TokenType::Equal, "="),
        num(1),
        semi(),
        tok(TokenType::I64, "i64"),
        ident("x"),
        tok(TokenType::Equal, "="),
        num(2),
        semi(),
    ];
    assert!(matches!(semantic_error(func("main", body)), SemErrType::AlreadyDefinedVar(n) if n == "x"));
}

#[test]
fn uint_declaration_makes_its_literal_uint_and_keeps_main_body() {
    let mut stmts = program(func(
        "main",
        vec![tok(TokenType::U64, "u64"), ident("x"), tok(TokenType::Equal, "="), num(5), semi()],
    ));
    let user_types = match Analyser::analyse_stmts(&mut stmts) {
        Ok(user_types) => user_types,
        Err(e) => panic!("unexpected semantic error: {:?}", e),
    };
    let body = match &stmts[0].stmt {
        StmtType::Func { body, .. } => body,
        other => panic!("expected a function, found {:?}", other),
    };
    match &body[0].stmt {
        StmtType::VarDecl { value, ty, .. } => {
            assert!(matches!(ty, ValueType::U64));
            assert!(matches!(value.expr, ExprType::Lit(Literal::U64(5))));
        }
        other => panic!("expected a declaration, found {:?}", other),
    }
    let main = user_types.funcs.get(&"main".to_string()).expect("main is recorded");
    assert_eq!(main.body.len(), 1);
    assert!(matches!(&main.body[0].stmt, StmtType::VarDecl { value, .. } if matches!(value.expr, ExprType::Lit(Literal::U64(5)))));
}

#[test]
fn undefined_declared_type_is_reported_with_its_name() {
    let mut stmts = program(func(
        "main",
        vec![ident("Thing"), ident("t"), semi()],
    ));
    match Analyser::analyse_stmts(&mut stmts) {
        Err(e) => assert!(matches!(e.ty, SemErrType::UndefinedType(ref n) if n == "Thing")),
        Ok(_) => panic!("an undefined type was accepted"),
    }
}

#[test]
fn struct_methods_are_recorded_with_their_heads_and_bodies() {
    let mut toks = vec![
        tok(TokenType::Struct, "struct"),
        ident("S"),
        tok(TokenType::LeftBrace, "{"),
        tok(TokenType::I64, "i64"),
        ident("a"),
        semi(),
    ];
    toks.extend(func("m", vec![tok(TokenType::Print, "print"), num(1), semi()]));
    toks.push(tok(TokenType::RightBrace, "}"));
    toks.extend(func("main", vec![]));
    let mut stmts = program(toks);
    let user_types = match Analyser::analyse_stmts(&mut stmts) {
        Ok(user_types) => user_types,
        Err(e) => panic!("unexpected semantic error: {:?}", e),
    };
    let data = user_types.structs.get(&"S".to_string()).expect("S is recorded");
    assert_eq!(data.fields.len(), 1);
    assert_eq!(data.methods.len(), 1);
    let (name, method) = &data.methods[0];
    assert_eq!(name, "m");
    assert!(method.parameters.is_empty() && !method.use_self);
    assert_eq!(method.body.len(), 1);
    assert!(matches!(&method.body[0].stmt, StmtType::Println(e) if matches!(e.end_ty, ValueType::I64)));
}

#[test]
fn branch_bodies_lower_into_their_own_blocks() {
    let body = vec![
        tok(TokenType::If, "if"),
        tok(TokenType::True, "true"),
        tok(TokenType::LeftBrace, "{"),
        tok(TokenType::Print, "print"),
        num(1),
        semi(),
        tok(TokenType::RightBrace, "}"),
        tok(TokenType::Else, "else"),
        tok(TokenType::LeftBrace, "{"),
        tok(TokenType::Print, "print"),
        num(2),
        semi(),
        tok(TokenType::RightBrace, "}"),
    ];
    let fs = lowered(func("main", body));
    let main = function(&fs, "main");
    assert_eq!(block_names(main), vec!["entry", "then", "else", "if_end"]);
    let then_code = format!("{:?}", main.blocks[1].instrs);
    let else_code = format!("{:?}", main.blocks[2].instrs);
    assert!(then_code.contains("bits: 1,"), "{}", then_code);
    assert!(!then_code.contains("bits: 2,"), "{}", then_code);
    assert!(else_code.contains("bits: 2,"), "{}", else_code);
    assert!(then_code.contains("print_i64"), "{}", then_code);
    assert!(else_code.contains("print_i64"), "{}", else_code);
}

#[test]
fn compile_gives_the_module_that_the_checked_lowering_gives() {
    let body = vec![tok(TokenType::Print, "print"), num(7), semi()];
    let checked = lowered(func("main", body.clone()));
    let module = CodeGen::compile(analysed(func("main", body)));
    assert_eq!(format!("{:?}", module), format!("{:?}", checked));
}

#[test]
fn compile_main_gives_what_the_checked_lowering_gives() {
    let stmts = program(func("main", vec![num(4), semi()]));
    let checked = CodeGen::compile_main_checked(&stmts).expect("main lowers");
    let main = CodeGen::compile_main(&stmts);
    assert_eq!(format!("{:?}", main), format!("{:?}", checked));
}

#[test]
fn each_top_level_function_keeps_its_own_analysed_body() {
    let mut toks = func("f", vec![tok(TokenType::Print, "print"), num(1), semi()]);
    toks.extend(func("main", vec![tok(TokenType::Print, "print"), num(2), semi(), num(3), semi()]));
    let mut stmts = program(toks);
    let user_types = match Analyser::analyse_stmts(&mut stmts) {
        Ok(user_types) => user_types,
        Err(e) => panic!("unexpected semantic error: {:?}", e),
    };
    let f = user_types.funcs.get(&"f".to_string()).expect("f is recorded");
    let main = user_types.funcs.get(&"main".to_string()).expect("main is recorded");
    assert_eq!(f.body.len(), 1);
    assert_eq!(main.body.len(), 2);
    assert!(matches!(&f.body[0].stmt, StmtType::Println(e) if matches!(e.expr, ExprType::Lit(Literal::I64(1)))));
    assert!(matches!(&main.body[1].stmt, StmtType::Expr(e) if matches!(e.end_ty, ValueType::I64)));
}

#[test]
fn a_nested_declaration_replaces_the_body_of_a_function_of_its_name() {
    let mut toks = func("f", vec![tok(TokenType::Print, "print"), num(1), semi()]);
    toks.push(tok(TokenType::LeftBrace, "{"));
    toks.extend(func("f", vec![tok(TokenType::Print, "print"), num(2), semi()]));
    toks.push(tok(TokenType::RightBrace, "}"));
    toks.extend(func("main", vec![]));
    let mut stmts = program(toks);
    let user_types = match Analyser::analyse_stmts(&mut stmts) {
        Ok(user_types) => user_types,
        Err(e) => panic!("unexpected semantic error: {:?}", e),
    };
    let f = user_types.funcs.get(&"f".to_string()).expect("f is recorded");
    assert_eq!(f.body.len(), 1);
    assert!(matches!(&f.body[0].stmt, StmtType::Println(e) if matches!(e.expr, ExprType::Lit(Literal::I64(2)))));
}
