use vstd::prelude::*;

use super::ir::{CastOp, FloatOp, FloatPred, IntOp, IntPred, IrType, RetType};
use crate::binary_op::BinaryOp;
use crate::value::ValueType;

verus! {

/// The machine type of values of a source type, for the types that have one.
pub open spec fn lowered_type(t: ValueType) -> Option<IrType> {
    match t {
        ValueType::I64 => Some(IrType::Int),
        ValueType::U64 => Some(IrType::Int),
        ValueType::Bool => Some(IrType::Bool),
        ValueType::F64 => Some(IrType::Double),
        ValueType::Str => Some(IrType::Str),
        _ => None,
    }
}

/// The machine type of values of a source type.
pub fn to_llvm_type(t: &ValueType) -> (r: Option<IrType>)
    ensures
        r == lowered_type(*t),
{
    match t {
        ValueType::I64 => Some(IrType::Int),
        ValueType::U64 => Some(IrType::Int),
        ValueType::Bool => Some(IrType::Bool),
        ValueType::F64 => Some(IrType::Double),
        ValueType::Str => Some(IrType::Str),
        _ => None,
    }
}

/// What a function with the given source return type returns.
pub open spec fn lowered_ret(t: ValueType) -> Option<RetType> {
    match t {
        ValueType::Null => Some(RetType::Void),
        _ => match lowered_type(t) {
            Some(ty) => Some(RetType::Value(ty)),
            None => None,
        },
    }
}

pub fn ret_type(t: &ValueType) -> (r: Option<RetType>)
    ensures
        r == lowered_ret(*t),
{
    match t {
        ValueType::Null => Some(RetType::Void),
        _ => match to_llvm_type(t) {
            Some(ty) => Some(RetType::Value(ty)),
            None => None,
        },
    }
}

/// The instruction a binary operator becomes.
#[derive(Debug, Clone, Copy, PartialEq, Eq, Structural)]
pub enum BinLowering {
    Int(IntOp),
    Float(FloatOp),
    IntCmp(IntPred),
    FloatCmp(FloatPred),
}

/// The instruction for `left op right` when the left operand has type `t`;
/// `None` for the combinations that have none.
pub open spec fn binary_lowering(t: ValueType, op: BinaryOp) -> Option<BinLowering> {
    match t {
        ValueType::Bool => match op {
            BinaryOp::Equal => Some(BinLowering::IntCmp(IntPred::Eq)),
            BinaryOp::NotEqual => Some(BinLowering::IntCmp(IntPred::Ne)),
            BinaryOp::And => Some(BinLowering::Int(IntOp::And)),
            BinaryOp::Or => Some(BinLowering::Int(IntOp::Or)),
            _ => None,
        },
        ValueType::I64 => match op {
            BinaryOp::Add => Some(BinLowering::Int(IntOp::Add)),
            BinaryOp::Sub => Some(BinLowering::Int(IntOp::Sub)),
            BinaryOp::Mul => Some(BinLowering::Int(IntOp::Mul)),
            BinaryOp::Div => Some(BinLowering::Int(IntOp::SignedDiv)),
            BinaryOp::Equal => Some(BinLowering::IntCmp(IntPred::Eq)),
            BinaryOp::NotEqual => Some(BinLowering::IntCmp(IntPred::Ne)),
            BinaryOp::Less => Some(BinLowering::IntCmp(IntPred::SignedLt)),
            BinaryOp::LessEqual => Some(BinLowering::IntCmp(IntPred::SignedLe)),
            BinaryOp::Greater => Some(BinLowering::IntCmp(IntPred::SignedGt)),
            BinaryOp::GreaterEqual => Some(BinLowering::IntCmp(IntPred::SignedGe)),
            _ => None,
        },
        ValueType::F64 => match op {
            BinaryOp::Add => Some(BinLowering::Float(FloatOp::Add)),
            BinaryOp::Sub => Some(BinLowering::Float(FloatOp::Sub)),
            BinaryOp::Mul => Some(BinLowering::Float(FloatOp::Mul)),
            BinaryOp::Div => Some(BinLowering::Float(FloatOp::Div)),
            BinaryOp::Equal => Some(BinLowering::FloatCmp(FloatPred::Eq)),
            BinaryOp::NotEqual => Some(BinLowering::FloatCmp(FloatPred::Ne)),
            BinaryOp::Less => Some(BinLowering::FloatCmp(FloatPred::Lt)),
            BinaryOp::LessEqual => Some(BinLowering::FloatCmp(FloatPred::Le)),
            BinaryOp::Greater => Some(BinLowering::FloatCmp(FloatPred::Gt)),
            BinaryOp::GreaterEqual => Some(BinLowering::FloatCmp(FloatPred::Ge)),
            _ => None,
        },
        ValueType::U64 => match op {
            BinaryOp::Add => Some(BinLowering::Int(IntOp::Add)),
            BinaryOp::Sub => Some(BinLowering::Int(IntOp::Sub)),
            BinaryOp::Mul => Some(BinLowering::Int(IntOp::Mul)),
            BinaryOp::Div => Some(BinLowering::Int(IntOp::UnsignedDiv)),
            BinaryOp::Equal => Some(BinLowering::IntCmp(IntPred::Eq)),
            BinaryOp::NotEqual => Some(BinLowering::IntCmp(IntPred::Ne)),
            BinaryOp::Less => Some(BinLowering::IntCmp(IntPred::UnsignedLt)),
            BinaryOp::LessEqual => Some(BinLowering::IntCmp(IntPred::UnsignedLe)),
            BinaryOp::Greater => Some(BinLowering::IntCmp(IntPred::UnsignedGt)),
            BinaryOp::GreaterEqual => Some(BinLowering::IntCmp(IntPred::UnsignedGe)),
            _ => None,
        },
        _ => None,
    }
}

/// The instruction for `left op right` when the left operand has type `t`.
pub fn select_binary(t: &ValueType, op: BinaryOp) -> (r: Option<BinLowering>)
    ensures
        r == binary_lowering(*t, op),
{
    match t {
        ValueType::Bool => match op {
            BinaryOp::Equal => Some(BinLowering::IntCmp(IntPred::Eq)),
            BinaryOp::NotEqual => Some(BinLowering::IntCmp(IntPred::Ne)),
            BinaryOp::And => Some(BinLowering::Int(IntOp::And)),
            BinaryOp::Or => Some(BinLowering::Int(IntOp::Or)),
            _ => None,
        },
        ValueType::I64 => match op {
            BinaryOp::Add => Some(BinLowering::Int(IntOp::Add)),
            BinaryOp::Sub => Some(BinLowering::Int(IntOp::Sub)),
            BinaryOp::Mul => Some(BinLowering::Int(IntOp::Mul)),
            BinaryOp::Div => Some(BinLowering::Int(IntOp::SignedDiv)),
            BinaryOp::Equal => Some(BinLowering::IntCmp(IntPred::Eq)),
            BinaryOp::NotEqual => Some(BinLowering::IntCmp(IntPred::Ne)),
            BinaryOp::Less => Some(BinLowering::IntCmp(IntPred::SignedLt)),
            BinaryOp::LessEqual => Some(BinLowering::IntCmp(IntPred::SignedLe)),
            BinaryOp::Greater => Some(BinLowering::IntCmp(IntPred::SignedGt)),
            BinaryOp::GreaterEqual => Some(BinLowering::IntCmp(IntPred::SignedGe)),
            _ => None,
        },
        ValueType::F64 => match op {
            BinaryOp::Add => Some(BinLowering::Float(FloatOp::Add)),
            BinaryOp::Sub => Some(BinLowering::Float(FloatOp::Sub)),
            BinaryOp::Mul => Some(BinLowering::Float(FloatOp::Mul)),
            BinaryOp::Div => Some(BinLowering::Float(FloatOp::Div)),
            BinaryOp::Equal => Some(BinLowering::FloatCmp(FloatPred::Eq)),
            BinaryOp::NotEqual => Some(BinLowering::FloatCmp(FloatPred::Ne)),
            BinaryOp::Less => Some(BinLowering::FloatCmp(FloatPred::Lt)),
            BinaryOp::LessEqual => Some(BinLowering::FloatCmp(FloatPred::Le)),
            BinaryOp::Greater => Some(BinLowering::FloatCmp(FloatPred::Gt)),
            BinaryOp::GreaterEqual => Some(BinLowering::FloatCmp(FloatPred::Ge)),
            _ => None,
        },
        ValueType::U64 => match op {
            BinaryOp::Add => Some(BinLowering::Int(IntOp::Add)),
            BinaryOp::Sub => Some(BinLowering::Int(IntOp::Sub)),
            BinaryOp::Mul => Some(BinLowering::Int(IntOp::Mul)),
            BinaryOp::Div => Some(BinLowering::Int(IntOp::UnsignedDiv)),
            BinaryOp::Equal => Some(BinLowering::IntCmp(IntPred::Eq)),
            BinaryOp::NotEqual => Some(BinLowering::IntCmp(IntPred::Ne)),
            BinaryOp::Less => Some(BinLowering::IntCmp(IntPred::UnsignedLt)),
            BinaryOp::LessEqual => Some(BinLowering::IntCmp(IntPred::UnsignedLe)),
            BinaryOp::Greater => Some(BinLowering::IntCmp(IntPred::UnsignedGt)),
            BinaryOp::GreaterEqual => Some(BinLowering::IntCmp(IntPred::UnsignedGe)),
            _ => None,
        },
        _ => None,
    }
}

/// The conversion for `value as to` when `value` has type `from`; `None`
/// for the pairs that have none (a type to itself among them).
pub open spec fn cast_lowering(from: ValueType, to: ValueType) -> Option<CastOp> {
    match (from, to) {
        (ValueType::I64, ValueType::F64) => Some(CastOp::SignedToFloat),
        (ValueType::U64, ValueType::F64) => Some(CastOp::UnsignedToFloat),
        (ValueType::Bool, ValueType::F64) => Some(CastOp::BoolToFloat),
        (ValueType::F64, ValueType::I64) => Some(CastOp::FloatToSigned),
        (ValueType::F64, ValueType::U64) => Some(CastOp::FloatToUnsigned),
        (ValueType::F64, ValueType::Bool) => Some(CastOp::FloatToBool),
        (ValueType::I64, ValueType::U64) | (ValueType::U64, ValueType::I64) => Some(
            CastOp::Reinterpret,
        ),
        (ValueType::I64, ValueType::Bool) | (ValueType::U64, ValueType::Bool) => Some(
            CastOp::IntToBool,
        ),
        (ValueType::Bool, ValueType::I64) | (ValueType::Bool, ValueType::U64) => Some(
            CastOp::BoolToInt,
        ),
        _ => None,
    }
}

pub fn select_cast(from: &ValueType, to: &ValueType) -> (r: Option<CastOp>)
    ensures
        r == cast_lowering(*from, *to),
{
    match (from, to) {
        (ValueType::I64, ValueType::F64) => Some(CastOp::SignedToFloat),
        (ValueType::U64, ValueType::F64) => Some(CastOp::UnsignedToFloat),
        (ValueType::Bool, ValueType::F64) => Some(CastOp::BoolToFloat),
        (ValueType::F64, ValueType::I64) => Some(CastOp::FloatToSigned),
        (ValueType::F64, ValueType::U64) => Some(CastOp::FloatToUnsigned),
        (ValueType::F64, ValueType::Bool) => Some(CastOp::FloatToBool),
        (ValueType::I64, ValueType::U64) | (ValueType::U64, ValueType::I64) => Some(
            CastOp::Reinterpret,
        ),
        (ValueType::I64, ValueType::Bool) | (ValueType::U64, ValueType::Bool) => Some(
            CastOp::IntToBool,
        ),
        (ValueType::Bool, ValueType::I64) | (ValueType::Bool, ValueType::U64) => Some(
            CastOp::BoolToInt,
        ),
        _ => None,
    }
}

/// The name of the instruction a conversion becomes.
pub open spec fn cast_name(op: CastOp) -> Seq<char> {
    match op {
        CastOp::SignedToFloat => "cast_i64_f64"@,
        CastOp::UnsignedToFloat => "cast_u64_f64"@,
        CastOp::BoolToFloat => "cast_bool_f64"@,
        CastOp::FloatToSigned => "cast_f64_i64"@,
        CastOp::FloatToUnsigned => "cast_f64_u64"@,
        CastOp::FloatToBool => "cast_f64_bool"@,
        CastOp::IntToBool => "cast_int_bool"@,
        CastOp::BoolToInt => "cast_bool_int"@,
        CastOp::Reinterpret => ""@,
    }
}

pub fn cast_instr_name(op: CastOp) -> (r: &'static str)
    ensures
        r@ == cast_name(op),
{
    match op {
        CastOp::SignedToFloat => "cast_i64_f64",
        CastOp::UnsignedToFloat => "cast_u64_f64",
        CastOp::BoolToFloat => "cast_bool_f64",
        CastOp::FloatToSigned => "cast_f64_i64",
        CastOp::FloatToUnsigned => "cast_f64_u64",
        CastOp::FloatToBool => "cast_f64_bool",
        CastOp::IntToBool => "cast_int_bool",
        CastOp::BoolToInt => "cast_bool_int",
        CastOp::Reinterpret => "",
    }
}

/// The name of the instruction a binary operator becomes.
pub open spec fn binary_name(b: BinLowering) -> Seq<char> {
    match b {
        BinLowering::Int(IntOp::Add) | BinLowering::Float(FloatOp::Add) => "addtmp"@,
        BinLowering::Int(IntOp::Sub) | BinLowering::Float(FloatOp::Sub) => "subtmp"@,
        BinLowering::Int(IntOp::Mul) | BinLowering::Float(FloatOp::Mul) => "multmp"@,
        BinLowering::Int(IntOp::SignedDiv) | BinLowering::Int(IntOp::UnsignedDiv)
        | BinLowering::Float(FloatOp::Div) => "divtmp"@,
        BinLowering::Int(IntOp::And) => "andtmp"@,
        BinLowering::Int(IntOp::Or) => "ortmp"@,
        BinLowering::IntCmp(IntPred::Eq) | BinLowering::FloatCmp(FloatPred::Eq) => "eqtmp"@,
        BinLowering::IntCmp(IntPred::Ne) | BinLowering::FloatCmp(FloatPred::Ne) => "neqtmp"@,
        BinLowering::IntCmp(IntPred::SignedLt) | BinLowering::FloatCmp(FloatPred::Lt) => "slttmp"@,
        BinLowering::IntCmp(IntPred::SignedLe) | BinLowering::FloatCmp(FloatPred::Le) => "sletmp"@,
        BinLowering::IntCmp(IntPred::SignedGt) | BinLowering::FloatCmp(FloatPred::Gt) => "sgttmp"@,
        BinLowering::IntCmp(IntPred::SignedGe) | BinLowering::FloatCmp(FloatPred::Ge) => "sgetmp"@,
        BinLowering::IntCmp(IntPred::UnsignedLt) => "ulttmp"@,
        BinLowering::IntCmp(IntPred::UnsignedLe) => "uletmp"@,
        BinLowering::IntCmp(IntPred::UnsignedGt) => "ugttmp"@,
        BinLowering::IntCmp(IntPred::UnsignedGe) => "ugetmp"@,
    }
}

pub fn binary_instr_name(b: BinLowering) -> (r: &'static str)
    ensures
        r@ == binary_name(b),
{
    match b {
        BinLowering::Int(IntOp::Add) | BinLowering::Float(FloatOp::Add) => "addtmp",
        BinLowering::Int(IntOp::Sub) | BinLowering::Float(FloatOp::Sub) => "subtmp",
        BinLowering::Int(IntOp::Mul) | BinLowering::Float(FloatOp::Mul) => "multmp",
        BinLowering::Int(IntOp::SignedDiv) | BinLowering::Int(IntOp::UnsignedDiv)
        | BinLowering::Float(FloatOp::Div) => "divtmp",
        BinLowering::Int(IntOp::And) => "andtmp",
        BinLowering::Int(IntOp::Or) => "ortmp",
        BinLowering::IntCmp(IntPred::Eq) | BinLowering::FloatCmp(FloatPred::Eq) => "eqtmp",
        BinLowering::IntCmp(IntPred::Ne) | BinLowering::FloatCmp(FloatPred::Ne) => "neqtmp",
        BinLowering::IntCmp(IntPred::SignedLt) | BinLowering::FloatCmp(FloatPred::Lt) => "slttmp",
        BinLowering::IntCmp(IntPred::SignedLe) | BinLowering::FloatCmp(FloatPred::Le) => "sletmp",
        BinLowering::IntCmp(IntPred::SignedGt) | BinLowering::FloatCmp(FloatPred::Gt) => "sgttmp",
        BinLowering::IntCmp(IntPred::SignedGe) | BinLowering::FloatCmp(FloatPred::Ge) => "sgetmp",
        BinLowering::IntCmp(IntPred::UnsignedLt) => "ulttmp",
        BinLowering::IntCmp(IntPred::UnsignedLe) => "uletmp",
        BinLowering::IntCmp(IntPred::UnsignedGt) => "ugttmp",
        BinLowering::IntCmp(IntPred::UnsignedGe) => "ugetmp",
    }
}

/// The runtime function that prints values of a type.
pub open spec fn print_function(t: ValueType) -> Option<Seq<char>> {
    match t {
        ValueType::Bool => Some("print_i64"@),
        ValueType::F64 => Some("print_f64"@),
        ValueType::I64 => Some("print_i64"@),
        ValueType::U64 => Some("print_u64"@),
        ValueType::Str => Some("print_str"@),
        _ => None,
    }
}

pub fn select_print(t: &ValueType) -> (r: Option<&'static str>)
    ensures
        r matches Some(s) ==> print_function(*t) == Some(s@),
        r is None ==> print_function(*t) is None,
{
    match t {
        ValueType::Bool => Some("print_i64"),
        ValueType::F64 => Some("print_f64"),
        ValueType::I64 => Some("print_i64"),
        ValueType::U64 => Some("print_u64"),
        ValueType::Str => Some("print_str"),
        _ => None,
    }
}

/// Integer instructions are chosen only for integer and boolean operands and
/// float instructions only for floats, and each numeric type has an
/// instruction for every operator but `and` and `or`.
pub proof fn lemma_comparisons_lower_to_compares(t: ValueType, op: BinaryOp)
    ensures
        binary_lowering(t, op) matches Some(BinLowering::IntCmp(_)) ==> (t is Bool || t is I64
            || t is U64),
        binary_lowering(t, op) matches Some(BinLowering::FloatCmp(_)) ==> t is F64,
        binary_lowering(t, op) matches Some(BinLowering::Float(_)) ==> t is F64,
        (t is I64 || t is U64 || t is F64) && op != BinaryOp::And && op != BinaryOp::Or
            ==> binary_lowering(t, op) is Some,
{
}

/// Signed and unsigned integers differ in how they divide and compare, and
/// in nothing else.
pub proof fn lemma_signedness(op: BinaryOp)
    ensures
        (op == BinaryOp::Add || op == BinaryOp::Sub || op == BinaryOp::Mul || op
            == BinaryOp::Equal || op == BinaryOp::NotEqual) ==> binary_lowering(ValueType::I64, op)
            == binary_lowering(ValueType::U64, op),
        binary_lowering(ValueType::I64, BinaryOp::Div) != binary_lowering(
            ValueType::U64,
            BinaryOp::Div,
        ),
{
}

/// Every conversion goes between two different scalar types, and back again
/// where the types are integers.
pub proof fn lemma_cast_pairs(from: ValueType, to: ValueType)
    ensures
        cast_lowering(from, to) is Some ==> from != to && lowered_type(from) is Some
            && lowered_type(to) is Some && !(from is Str) && !(to is Str),
        cast_lowering(from, to) == Some(CastOp::Reinterpret) ==> cast_lowering(to, from) == Some(
            CastOp::Reinterpret,
        ),
{
}

} // verus!
