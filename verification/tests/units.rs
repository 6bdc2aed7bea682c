use crs::analysis::analyse_stmt::try_coerce;
use crs::analysis::messages::decimal_text;
use crs::analysis::name_table::NameTable;
use crs::analysis::types::{Operator, SemErr, SemErrType, SemanticScope, StructData, Symbol, UserTypes};
use crs::binary_op::BinaryOp;
use crs::codegen::builder::FnBuilder;
use crs::codegen::ir::{CastOp, FloatOp, FloatPred, Instr, IntOp, IntPred, IrType, RetType};
use crs::codegen::lowering::{binary_result, cast_result, is_int_kind, unary_result};
use crs::codegen::select::{
    binary_instr_name, cast_instr_name, ret_type, select_binary, select_cast, select_print,
    to_llvm_type, BinLowering,
};
use crs::error::ParseErr;
use crs::expression::{Expr, ExprType};
use crs::func_compiler::FuncCompiler;
use crs::parser::types::{FnType, ParseRule, Precedence};
use crs::token::{Literal, Token, TokenType};
use crs::value::{same_type, ValueType};

#[test]
fn name_table_insert_get_remove() {
    let mut t: NameTable<u32> = NameTable::new();
    assert_eq!(t.len(), 0);
    assert_eq!(t.insert("a".to_string(), 1), None);
    assert_eq!(t.insert("b".to_string(), 2), None);
    assert_eq!(t.insert("a".to_string(), 3), Some(1));
    assert_eq!(t.len(), 2);
    assert_eq!(t.get(&"a".to_string()), Some(&3));
    assert!(t.contains_key(&"b".to_string()));
    let (k, v) = t.entry_at(0);
    assert_eq!((k.as_str(), *v), ("a", 3));
    assert_eq!(t.remove(&"a".to_string()), Some(3));
    assert_eq!(t.remove(&"a".to_string()), None);
    assert_eq!(t.len(), 1);
    let (k, v) = t.entry_at(0);
    assert_eq!((k.as_str(), *v), ("b", 2));
}

#[test]
fn scope_declare_resolve_and_shadow() {
    let mut s = SemanticScope::new();
    assert!(s.declare(Symbol::new("x".to_string(), ValueType::I64), 1).is_ok());
    assert!(matches!(s.resolve("x"), Some(Symbol { ty: ValueType::I64, .. })));
    s.begin_scope();
    assert!(s.declare(Symbol::new("x".to_string(), ValueType::Bool), 2).is_ok());
    assert!(matches!(s.resolve("x"), Some(Symbol { ty: ValueType::Bool, .. })));
    s.end_scope();
    assert!(matches!(s.resolve("x"), Some(Symbol { ty: ValueType::I64, .. })));
    assert!(s.resolve("y").is_none());
}

#[test]
fn scope_rejects_redeclaration_in_same_scope() {
    let mut s = SemanticScope::new();
    assert!(s.declare(Symbol::new("x".to_string(), ValueType::I64), 1).is_ok());
    match s.declare(Symbol::new("x".to_string(), ValueType::F64), 7) {
        Err(SemErr { ty: SemErrType::AlreadyDefinedVar(n), line }) => {
            assert_eq!(n, "x");
            assert_eq!(line, 7);
        }
        other => panic!("expected a redeclaration error, found {:?}", other),
    }
    assert!(matches!(s.resolve("x"), Some(Symbol { ty: ValueType::I64, .. })));
}

#[test]
fn struct_field_lookup() {
    let data = StructData::new(vec![(ValueType::I64, "x".to_string()), (ValueType::F64, "y".to_string())]);
    match data.get_field_index("Point".to_string(), "y", 3) {
        Ok(index) => assert_eq!(index, 1),
        Err(e) => panic!("unexpected error {:?}", e),
    }
    match data.get_field_index("Point".to_string(), "z", 3) {
        Err(SemErr { ty: SemErrType::InvalidPubField(n, p), line }) => {
            assert_eq!((n.as_str(), p.as_str(), line), ("Point", "z", 3));
        }
        other => panic!("expected a missing field, found {:?}", other),
    }
}

#[test]
fn unknown_type_names_resolve_to_declared_structs() {
    let mut ut = UserTypes::new();
    ut.structs.insert("Point".to_string(), StructData::new(vec![]));
    let mut t = ValueType::UnknownType("Point".to_string());
    ut.resolve_value_ty(&mut t);
    assert!(matches!(&t, ValueType::Struct(n) if n == "Point"));
    ut.resolve_value_ty(&mut t);
    assert!(matches!(&t, ValueType::Struct(n) if n == "Point"));
    let mut u = ValueType::UnknownType("Nope".to_string());
    ut.resolve_value_ty(&mut u);
    assert!(matches!(&u, ValueType::UnknownType(n) if n == "Nope"));
}

#[test]
fn func_compiler_resolves_latest_local() {
    let mut c = FuncCompiler::new("main".to_string());
    c.add_local("a".to_string());
    c.add_local("b".to_string());
    c.add_local("a".to_string());
    assert_eq!(c.resolve_local("a"), Some(2));
    assert_eq!(c.resolve_local("b"), Some(1));
    assert_eq!(c.resolve_local("c"), None);
    assert_eq!(c.get_local_count(), 3);
    c.emit("push 1");
    c.emit("ret");
    let (out, n) = c.end();
    assert_eq!(out, "push 1\nret\n");
    assert_eq!(n, 3);
}

#[test]
fn binary_operators_from_tokens() {
    assert_eq!(BinaryOp::from_token_type(TokenType::Plus), BinaryOp::Add);
    assert_eq!(BinaryOp::from_token_type(TokenType::Slash), BinaryOp::Div);
    assert_eq!(BinaryOp::from_token_type(TokenType::BangEqual), BinaryOp::NotEqual);
    assert_eq!(BinaryOp::from_token_type(TokenType::Or), BinaryOp::Or);
    assert!(matches!(BinaryOp::Less.to_operator(), Operator::Less));
    assert_eq!(BinaryOp::Less.to_operator().text(), "<");
    assert_eq!(BinaryOp::Mul.get_precedency(), Precedence::Factor);
    assert_eq!(BinaryOp::Or.get_precedency(), Precedence::Or);
}

#[test]
fn precedence_steps_and_levels() {
    assert_eq!(Precedence::Term.to_next_precedency(), Precedence::Factor);
    assert_eq!(Precedence::Call.to_next_precedency(), Precedence::Primary);
    assert_eq!(Precedence::Cast.level(), 8);
    assert_eq!(Precedence::from_u8(5), Precedence::Comparison);
    assert_eq!(Precedence::from_u8(Precedence::Unary.level()), Precedence::Unary);
    let r = TokenType::Minus.to_parse_rule();
    assert_eq!(r.prefix, FnType::Unary);
    assert_eq!(r.infix, FnType::Binary);
    assert_eq!(r.precedence, Precedence::Term);
    let r = TokenType::Semicolon.to_parse_rule();
    assert_eq!(r.prefix, FnType::Empty);
    assert_eq!(r.infix, FnType::Empty);
    let _ = ParseRule::new(FnType::Empty, FnType::Empty, Precedence::Primary);
}

#[test]
fn type_names_and_equality() {
    assert_eq!(ValueType::F64.to_text(), "Double");
    assert_eq!(ValueType::Arr(Box::new(ValueType::I64)).to_text(), "[Int]");
    assert_eq!(ValueType::Struct("P".to_string()).to_text(), "struct P");
    assert!(same_type(&ValueType::Enum("E".to_string()), &ValueType::Enum("E".to_string())));
    assert!(!same_type(&ValueType::I64, &ValueType::U64));
    assert!(ValueType::U64.is_num());
    assert!(!ValueType::Bool.is_num());
    assert!(ValueType::I64 == ValueType::I64);
}

#[test]
fn decimal_text_of_bytes() {
    assert_eq!(decimal_text(0), "0");
    assert_eq!(decimal_text(42), "42");
    assert_eq!(decimal_text(255), "255");
    assert_eq!(decimal_text(100), "100");
}

#[test]
fn arity_message_spells_counts() {
    let e = SemErr::new(4, SemErrType::IncorrectArity("f".to_string(), 2, 3));
    let m = e.message();
    assert_eq!(format!("{}{}{}", m.before, m.name, m.after).contains("f"), true);
    assert!(format!("{}{}{}", m.before, m.name, m.after).contains('2'));
    assert!(format!("{}{}{}", m.before, m.name, m.after).contains('3'));
}

#[test]
fn int_literals_coerce_to_uint() {
    let mut e = ExprType::Lit(Literal::I64(5));
    assert!(try_coerce(&mut e, &ValueType::U64));
    assert!(matches!(e, ExprType::Lit(Literal::U64(5))));
    let mut f = ExprType::Lit(Literal::I64(5));
    assert!(!try_coerce(&mut f, &ValueType::F64));
    assert!(matches!(f, ExprType::Lit(Literal::I64(5))));
    let mut b = ExprType::Binary {
        left: Box::new(Expr::new(ExprType::Lit(Literal::I64(1)), 1)),
        op: BinaryOp::Add,
        right: Box::new(Expr::new(ExprType::Lit(Literal::I64(2)), 1)),
    };
    assert!(try_coerce(&mut b, &ValueType::U64));
    match b {
        ExprType::Binary { left, right, .. } => {
            assert!(matches!(left.expr, ExprType::Lit(Literal::U64(1))));
            assert!(matches!(right.expr, ExprType::Lit(Literal::U64(2))));
        }
        _ => panic!("the shape must not change"),
    }
}

#[test]
fn machine_types_of_source_types() {
    assert_eq!(to_llvm_type(&ValueType::U64), Some(IrType::Int));
    assert_eq!(to_llvm_type(&ValueType::Str), Some(IrType::Str));
    assert_eq!(to_llvm_type(&ValueType::Null), None);
    assert_eq!(ret_type(&ValueType::Null), Some(RetType::Void));
    assert_eq!(ret_type(&ValueType::Bool), Some(RetType::Value(IrType::Bool)));
    assert_eq!(ret_type(&ValueType::Any), None);
}

#[test]
fn operator_selection_by_operand_type() {
    assert_eq!(select_binary(&ValueType::I64, BinaryOp::Div), Some(BinLowering::Int(IntOp::SignedDiv)));
    assert_eq!(select_binary(&ValueType::U64, BinaryOp::Div), Some(BinLowering::Int(IntOp::UnsignedDiv)));
    assert_eq!(select_binary(&ValueType::U64, BinaryOp::Less), Some(BinLowering::IntCmp(IntPred::UnsignedLt)));
    assert_eq!(select_binary(&ValueType::F64, BinaryOp::NotEqual), Some(BinLowering::FloatCmp(FloatPred::Ne)));
    assert_eq!(select_binary(&ValueType::F64, BinaryOp::Mul), Some(BinLowering::Float(FloatOp::Mul)));
    assert_eq!(select_binary(&ValueType::Bool, BinaryOp::And), Some(BinLowering::Int(IntOp::And)));
    assert_eq!(select_binary(&ValueType::Bool, BinaryOp::Add), None);
    assert_eq!(select_binary(&ValueType::Str, BinaryOp::Equal), None);
    assert_eq!(binary_instr_name(BinLowering::IntCmp(IntPred::UnsignedGe)), "ugetmp");
    assert_eq!(binary_instr_name(BinLowering::FloatCmp(FloatPred::Lt)), "slttmp");
}

#[test]
fn conversion_selection() {
    assert_eq!(select_cast(&ValueType::I64, &ValueType::F64), Some(CastOp::SignedToFloat));
    assert_eq!(select_cast(&ValueType::U64, &ValueType::I64), Some(CastOp::Reinterpret));
    assert_eq!(select_cast(&ValueType::Bool, &ValueType::U64), Some(CastOp::BoolToInt));
    assert_eq!(select_cast(&ValueType::F64, &ValueType::Bool), Some(CastOp::FloatToBool));
    assert_eq!(select_cast(&ValueType::F64, &ValueType::F64), None);
    assert_eq!(select_cast(&ValueType::Str, &ValueType::I64), None);
    assert_eq!(cast_instr_name(CastOp::IntToBool), "cast_int_bool");
    assert_eq!(select_print(&ValueType::Bool), Some("print_i64"));
    assert_eq!(select_print(&ValueType::U64), Some("print_u64"));
    assert_eq!(select_print(&ValueType::Null), None);
}

#[test]
fn machine_types_of_results() {
    assert!(is_int_kind(IrType::Bool));
    assert!(!is_int_kind(IrType::Double));
    assert_eq!(binary_result(BinLowering::IntCmp(IntPred::Eq), IrType::Int, IrType::Int), Some(IrType::Bool));
    assert_eq!(binary_result(BinLowering::Int(IntOp::Add), IrType::Double, IrType::Int), None);
    assert_eq!(binary_result(BinLowering::Float(FloatOp::Add), IrType::Double, IrType::Double), Some(IrType::Double));
    assert_eq!(unary_result(&ValueType::F64, IrType::Double), Some(IrType::Double));
    assert_eq!(unary_result(&ValueType::Str, IrType::Str), None);
    assert_eq!(cast_result(CastOp::FloatToSigned, IrType::Double), Some(IrType::Int));
    assert_eq!(cast_result(CastOp::FloatToSigned, IrType::Int), None);
    assert_eq!(cast_result(CastOp::Reinterpret, IrType::Ptr), Some(IrType::Ptr));
}

#[test]
fn builder_only_appends() {
    let mut b = FnBuilder::new(1);
    b.push_scope();
    let v = b.fresh_value();
    assert_eq!(v, 1);
    b.push(Instr::ConstInt { dst: 1, ty: IrType::Int, bits: 9, sign_extend: false });
    assert!(!b.is_terminated());
    let blk = b.append_block("next");
    assert_eq!(blk, 1);
    b.push(Instr::Br { target: blk });
    assert!(b.is_terminated());
    b.position_at_end(blk);
    assert!(!b.is_terminated());
    b.declare_var("x".to_string(), 1, ValueType::I64);
    assert!(b.find_var(&"x".to_string()).is_some());
    b.push_scope();
    b.declare_var("x".to_string(), 0, ValueType::Bool);
    assert!(matches!(b.find_var(&"x".to_string()), Some(s) if s.ptr == 0));
    b.pop_scope();
    assert!(matches!(b.find_var(&"x".to_string()), Some(s) if s.ptr == 1));
    assert_eq!(b.blocks.len(), 2);
    assert_eq!(b.blocks[0].instrs.len(), 2);
    assert_eq!(b.blocks[0].name, "entry");
}

#[test]
fn parse_error_keeps_line_and_message() {
    let e = ParseErr::new(12, "Expected expression.");
    assert_eq!(e.line, 12);
    assert_eq!(e.msg, "Expected expression.");
    let t = Token::new(TokenType::Identifier, "Point".to_string(), Literal::Null, 1);
    assert!(matches!(t.as_value_type(), Some(ValueType::UnknownType(n)) if n == "Point"));
    let t = Token::new(TokenType::U64, "u64".to_string(), Literal::Null, 1);
    assert!(matches!(t.as_value_type(), Some(ValueType::U64)));
}
