use vstd::prelude::*;

use super::builder::{add_var, var_slot, var_type, VarSlot};
use super::ir::{CastOp, Instr, IrType, RetType};
use super::select::{
    binary_lowering, cast_lowering, lowered_type, print_function, BinLowering,
};
use crate::analysis::analyse_expr::{castable, unary_applies};
use crate::expression::{Expr, ExprType};
use crate::statement::{Stmt, StmtType};
use crate::token::Literal;
use crate::value::ValueType;

verus! {

/// Machine types that integer instructions take: 64-bit integers and
/// booleans.
pub open spec fn int_kind(t: IrType) -> bool {
    t is Int || t is Bool
}

/// The machine type of a literal.
pub open spec fn lit_ir(l: Literal) -> IrType {
    match l {
        Literal::Str(_) => IrType::Str,
        Literal::F64(_) => IrType::Double,
        Literal::I64(_) => IrType::Int,
        Literal::U64(_) => IrType::Int,
        Literal::True => IrType::Bool,
        Literal::False => IrType::Bool,
        Literal::Null => IrType::Ptr,
    }
}

/// The machine type of a binary instruction on operands of types `a` and
/// `b`, when the instruction takes them.
pub open spec fn binary_ir(l: BinLowering, a: IrType, b: IrType) -> Option<IrType> {
    match l {
        BinLowering::Int(_) => if int_kind(a) && int_kind(b) {
            Some(a)
        } else {
            None
        },
        BinLowering::IntCmp(_) => if int_kind(a) && int_kind(b) {
            Some(IrType::Bool)
        } else {
            None
        },
        BinLowering::Float(_) => if a is Double && b is Double {
            Some(IrType::Double)
        } else {
            None
        },
        BinLowering::FloatCmp(_) => if a is Double && b is Double {
            Some(IrType::Bool)
        } else {
            None
        },
    }
}

/// The machine type of a prefix operation on an operand of source type `t`
/// and machine type `a`: booleans are negated bitwise, integers and floats
/// arithmetically.
pub open spec fn unary_ir(t: ValueType, a: IrType) -> Option<IrType> {
    match t {
        ValueType::Bool => if int_kind(a) {
            Some(a)
        } else {
            None
        },
        ValueType::I64 => if int_kind(a) {
            Some(a)
        } else {
            None
        },
        ValueType::F64 => if a is Double {
            Some(a)
        } else {
            None
        },
        _ => None,
    }
}

/// The machine type of a conversion of an operand of machine type `a`.
pub open spec fn cast_ir(op: CastOp, a: IrType) -> Option<IrType> {
    match op {
        CastOp::SignedToFloat | CastOp::UnsignedToFloat | CastOp::BoolToFloat => if int_kind(a) {
            Some(IrType::Double)
        } else {
            None
        },
        CastOp::FloatToSigned | CastOp::FloatToUnsigned => if a is Double {
            Some(IrType::Int)
        } else {
            None
        },
        CastOp::FloatToBool => if a is Double {
            Some(IrType::Bool)
        } else {
            None
        },
        CastOp::IntToBool => if int_kind(a) {
            Some(IrType::Bool)
        } else {
            None
        },
        CastOp::BoolToInt => if int_kind(a) {
            Some(IrType::Int)
        } else {
            None
        },
        CastOp::Reinterpret => Some(a),
    }
}

/// The machine type of the value an expression lowers to, in the given
/// scopes and with the given functions; `None` when it does not lower.
pub open spec fn expr_ir(
    e: Expr,
    scopes: Seq<Map<Seq<char>, ValueType>>,
    rets: Map<Seq<char>, RetType>,
) -> Option<IrType>
    decreases e,
{
    match e.expr {
        ExprType::Lit(l) => Some(lit_ir(l)),
        ExprType::Identifier(name) => match var_type(scopes, name@) {
            Some(t) => lowered_type(t),
            None => None,
        },
        ExprType::Assign { name, new_value } => if var_type(scopes, name@) is Some {
            expr_ir(*new_value, scopes, rets)
        } else {
            None
        },
        ExprType::Binary { left, op, right } => match (
            binary_lowering(left.end_ty, op),
            expr_ir(*left, scopes, rets),
            expr_ir(*right, scopes, rets),
        ) {
            (Some(l), Some(a), Some(b)) => binary_ir(l, a, b),
            _ => None,
        },
        ExprType::Unary { value, .. } => match expr_ir(*value, scopes, rets) {
            Some(a) => unary_ir(value.end_ty, a),
            None => None,
        },
        ExprType::Cast { value, target_ty } => match (
            cast_lowering(value.end_ty, target_ty),
            expr_ir(*value, scopes, rets),
        ) {
            (Some(op), Some(a)) => cast_ir(op, a),
            _ => None,
        },
        ExprType::FuncCall { name, args, .. } => if rets.contains_key(name@) && args_lower(
            args@,
            scopes,
            rets,
        ) {
            match rets[name@] {
                RetType::Value(t) => Some(t),
                RetType::Void => None,
            }
        } else {
            None
        },
        _ => None,
    }
}

/// Whether every expression of a list lowers.
pub open spec fn args_lower(
    args: Seq<Expr>,
    scopes: Seq<Map<Seq<char>, ValueType>>,
    rets: Map<Seq<char>, RetType>,
) -> bool
    decreases args,
{
    if args.len() == 0 {
        true
    } else {
        args_lower(args.subrange(0, args.len() - 1), scopes, rets) && expr_ir(
            args[args.len() - 1],
            scopes,
            rets,
        ) is Some
    }
}

/// A list lowers exactly when each of its expressions does.
pub proof fn lemma_args_lower(
    args: Seq<Expr>,
    scopes: Seq<Map<Seq<char>, ValueType>>,
    rets: Map<Seq<char>, RetType>,
)
    ensures
        args_lower(args, scopes, rets) <==> forall|k: int|
            0 <= k < args.len() ==> (#[trigger] expr_ir(args[k], scopes, rets)) is Some,
    decreases args.len(),
{
    if args.len() > 0 {
        let t = args.subrange(0, args.len() - 1);
        let n = args.len() - 1;
        lemma_args_lower(t, scopes, rets);
        assert(args_lower(args, scopes, rets) == (args_lower(t, scopes, rets) && expr_ir(
            args[n],
            scopes,
            rets,
        ) is Some));
        if forall|k: int| 0 <= k < args.len() ==> (#[trigger] expr_ir(args[k], scopes, rets)) is Some {
            assert forall|k: int| 0 <= k < t.len() implies (#[trigger] expr_ir(t[k], scopes, rets)) is Some by {
                assert(t[k] == args[k]);
                assert(expr_ir(args[k], scopes, rets) is Some);
            }
            assert(expr_ir(args[n], scopes, rets) is Some);
        }
        if args_lower(args, scopes, rets) {
            assert forall|k: int| 0 <= k < args.len() implies (#[trigger] expr_ir(args[k], scopes, rets)) is Some by {
                if k < n {
                    assert(t[k] == args[k]);
                    assert(expr_ir(t[k], scopes, rets) is Some);
                }
            }
        }
    }
}

/// The constant instruction defining `v` that a literal lowers to.
pub open spec fn lit_def(i: Instr, v: usize, l: Literal) -> bool {
    match l {
        Literal::I64(n) => i == Instr::ConstInt {
            dst: v,
            ty: IrType::Int,
            bits: n as u64,
            sign_extend: true,
        },
        Literal::U64(n) => i == Instr::ConstInt { dst: v, ty: IrType::Int, bits: n, sign_extend: false },
        Literal::F64(bits) => i == Instr::ConstFloat { dst: v, bits },
        Literal::True => i == Instr::ConstInt { dst: v, ty: IrType::Bool, bits: 1, sign_extend: false },
        Literal::False => i == Instr::ConstInt {
            dst: v,
            ty: IrType::Bool,
            bits: 0,
            sign_extend: false,
        },
        Literal::Str(s) => i matches Instr::ConstStr { dst, text } && dst == v && text@ == s@,
        Literal::Null => i == Instr::NullPtr { dst: v },
    }
}

/// Value `v` computes expression `e`, read through the instructions `defs`
/// that define the values: the instruction defining `v` is the one `e`
/// lowers to, and its operands compute the subexpressions. A variable is
/// read from the slot that the innermost scope declaring it gives it; an
/// assignment and a conversion between the integer types compute the value
/// they are given.
pub open spec fn denotes(
    defs: Map<usize, Instr>,
    v: usize,
    e: Expr,
    slots: Seq<Map<Seq<char>, VarSlot>>,
) -> bool
    decreases e,
{
    match e.expr {
        ExprType::Lit(l) => defs.contains_key(v) && lit_def(defs[v], v, l),
        ExprType::Identifier(name) => defs.contains_key(v) && (defs[v] matches Instr::Load {
            dst,
            ptr,
            name: n,
            ..
        } && dst == v && n@ == name@ && (var_slot(slots, name@) matches Some(s) && s.ptr == ptr)),
        ExprType::Assign { new_value, .. } => denotes(defs, v, *new_value, slots),
        ExprType::Binary { left, op, right } => defs.contains_key(v) && match (
            defs[v],
            binary_lowering(left.end_ty, op),
        ) {
            (Instr::Int { dst, op: o, lhs, rhs, .. }, Some(BinLowering::Int(o2))) => dst == v && o
                == o2 && denotes(defs, lhs, *left, slots) && denotes(defs, rhs, *right, slots),
            (Instr::Float { dst, op: o, lhs, rhs, .. }, Some(BinLowering::Float(o2))) => dst == v
                && o == o2 && denotes(defs, lhs, *left, slots) && denotes(defs, rhs, *right, slots),
            (
                Instr::IntCmp { dst, pred, lhs, rhs, .. },
                Some(BinLowering::IntCmp(p2)),
            ) => dst == v && pred == p2 && denotes(defs, lhs, *left, slots) && denotes(
                defs,
                rhs,
                *right,
                slots,
            ),
            (
                Instr::FloatCmp { dst, pred, lhs, rhs, .. },
                Some(BinLowering::FloatCmp(p2)),
            ) => dst == v && pred == p2 && denotes(defs, lhs, *left, slots) && denotes(
                defs,
                rhs,
                *right,
                slots,
            ),
            _ => false,
        },
        ExprType::Unary { value, .. } => defs.contains_key(v) && match (defs[v], value.end_ty) {
            (Instr::Not { dst, value: x }, ValueType::Bool) => dst == v && denotes(
                defs,
                x,
                *value,
                slots,
            ),
            (Instr::Neg { dst, value: x }, ValueType::I64) => dst == v && denotes(
                defs,
                x,
                *value,
                slots,
            ),
            (Instr::FNeg { dst, value: x }, ValueType::F64) => dst == v && denotes(
                defs,
                x,
                *value,
                slots,
            ),
            _ => false,
        },
        ExprType::Cast { value, target_ty } => match cast_lowering(value.end_ty, target_ty) {
            Some(CastOp::Reinterpret) => denotes(defs, v, *value, slots),
            Some(op) => defs.contains_key(v) && (defs[v] matches Instr::Cast { dst, op: o, value: x, .. }
                && dst == v && o == op && denotes(defs, x, *value, slots)),
            None => false,
        },
        ExprType::FuncCall { name, args, .. } => defs.contains_key(v) && (defs[v] matches Instr::Call {
            dst,
            func,
            args: vals,
            ..
        } && dst == Some(v) && func@ == name@ && args_denote(defs, vals@, args@, slots)),
        _ => false,
    }
}

/// Each value of a list computes the expression at the same position.
pub open spec fn args_denote(
    defs: Map<usize, Instr>,
    vals: Seq<usize>,
    args: Seq<Expr>,
    slots: Seq<Map<Seq<char>, VarSlot>>,
) -> bool
    decreases args,
{
    &&& vals.len() == args.len()
    &&& args.len() > 0 ==> args_denote(
        defs,
        vals.subrange(0, vals.len() - 1),
        args.subrange(0, args.len() - 1),
        slots,
    ) && denotes(defs, vals[vals.len() - 1], args[args.len() - 1], slots)
}

/// What a value computes stays so once more values are defined.
pub proof fn lemma_denotes_mono(
    d1: Map<usize, Instr>,
    d2: Map<usize, Instr>,
    v: usize,
    e: Expr,
    slots: Seq<Map<Seq<char>, VarSlot>>,
)
    requires
        d1.submap_of(d2),
        denotes(d1, v, e, slots),
    ensures
        denotes(d2, v, e, slots),
    decreases e,
{
    if d1.dom().contains(v) {
        assert(d2.dom().contains(v) && d2[v] == d1[v]);
    }
    match e.expr {
        ExprType::Assign { new_value, .. } => {
            lemma_denotes_mono(d1, d2, v, *new_value, slots);
        },
        ExprType::Binary { left, op, right } => {
            match d1[v] {
                Instr::Int { lhs, rhs, .. } => {
                    lemma_denotes_mono(d1, d2, lhs, *left, slots);
                    lemma_denotes_mono(d1, d2, rhs, *right, slots);
                },
                Instr::Float { lhs, rhs, .. } => {
                    lemma_denotes_mono(d1, d2, lhs, *left, slots);
                    lemma_denotes_mono(d1, d2, rhs, *right, slots);
                },
                Instr::IntCmp { lhs, rhs, .. } => {
                    lemma_denotes_mono(d1, d2, lhs, *left, slots);
                    lemma_denotes_mono(d1, d2, rhs, *right, slots);
                },
                Instr::FloatCmp { lhs, rhs, .. } => {
                    lemma_denotes_mono(d1, d2, lhs, *left, slots);
                    lemma_denotes_mono(d1, d2, rhs, *right, slots);
                },
                _ => {},
            }
        },
        ExprType::Unary { value, .. } => {
            match d1[v] {
                Instr::Not { value: x, .. } => lemma_denotes_mono(d1, d2, x, *value, slots),
                Instr::Neg { value: x, .. } => lemma_denotes_mono(d1, d2, x, *value, slots),
                Instr::FNeg { value: x, .. } => lemma_denotes_mono(d1, d2, x, *value, slots),
                _ => {},
            }
        },
        ExprType::Cast { value, target_ty } => {
            match cast_lowering(value.end_ty, target_ty) {
                Some(CastOp::Reinterpret) => lemma_denotes_mono(d1, d2, v, *value, slots),
                _ => {
                    if let Instr::Cast { value: x, .. } = d1[v] {
                        lemma_denotes_mono(d1, d2, x, *value, slots);
                    }
                },
            }
        },
        ExprType::FuncCall { args, .. } => {
            if let Instr::Call { args: vals, .. } = d1[v] {
                lemma_args_denote_mono(d1, d2, vals@, args@, slots);
            }
        },
        _ => {},
    }
}

/// What the values of a list compute stays so once more values are defined.
pub proof fn lemma_args_denote_mono(
    d1: Map<usize, Instr>,
    d2: Map<usize, Instr>,
    vals: Seq<usize>,
    args: Seq<Expr>,
    slots: Seq<Map<Seq<char>, VarSlot>>,
)
    requires
        d1.submap_of(d2),
        args_denote(d1, vals, args, slots),
    ensures
        args_denote(d2, vals, args, slots),
    decreases args,
{
    if args.len() > 0 {
        lemma_args_denote_mono(
            d1,
            d2,
            vals.subrange(0, vals.len() - 1),
            args.subrange(0, args.len() - 1),
            slots,
        );
        lemma_denotes_mono(d1, d2, vals[vals.len() - 1], args[args.len() - 1], slots);
    }
}

/// A branch condition lowers to an integer.
pub open spec fn cond_lowers(
    e: Expr,
    scopes: Seq<Map<Seq<char>, ValueType>>,
    rets: Map<Seq<char>, RetType>,
) -> bool {
    expr_ir(e, scopes, rets) matches Some(t) && int_kind(t)
}

/// The scopes after a statement: a variable declaration adds to the
/// innermost scope, and so do the statements it encloses without a block of
/// their own.
pub open spec fn scopes_after(s: Stmt, scopes: Seq<Map<Seq<char>, ValueType>>) -> Seq<
    Map<Seq<char>, ValueType>,
>
    decreases s,
{
    match s.stmt {
        StmtType::VarDecl { name, ty, .. } => add_var(scopes, name@, ty),
        StmtType::If { body, final_else, .. } => match final_else {
            Some(e) => scopes_after(*e, scopes_after(*body, scopes)),
            None => scopes_after(*body, scopes),
        },
        StmtType::While { body, .. } => scopes_after(*body, scopes),
        StmtType::For { var, body, .. } => scopes_after(*body, scopes_after(*var, scopes)),
        _ => scopes,
    }
}

/// The scopes after a list of statements.
pub open spec fn stmts_after(list: Seq<Stmt>, scopes: Seq<Map<Seq<char>, ValueType>>) -> Seq<
    Map<Seq<char>, ValueType>,
>
    decreases list.len(),
{
    if list.len() == 0 {
        scopes
    } else {
        scopes_after(list.last(), stmts_after(list.drop_last(), scopes))
    }
}

/// Whether a statement lowers in the given scopes.
pub open spec fn stmt_lowers(
    s: Stmt,
    scopes: Seq<Map<Seq<char>, ValueType>>,
    rets: Map<Seq<char>, RetType>,
) -> bool
    decreases s,
{
    match s.stmt {
        StmtType::Expr(e) => expr_ir(e, scopes, rets) is Some,
        StmtType::VarDecl { value, ty, .. } => lowered_type(ty) is Some && expr_ir(
            value,
            scopes,
            rets,
        ) is Some,
        StmtType::Println(e) => expr_ir(e, scopes, rets) is Some && print_function(e.end_ty) is Some,
        StmtType::Return(e) => expr_ir(e, scopes, rets) is Some,
        StmtType::Block(stmts) => stmts_lower(stmts@, scopes.push(Map::empty()), rets),
        StmtType::If { condition, body, final_else } => cond_lowers(condition, scopes, rets)
            && stmt_lowers(*body, scopes, rets) && match final_else {
            Some(e) => stmt_lowers(*e, scopes_after(*body, scopes), rets),
            None => true,
        },
        StmtType::While { condition, body } => cond_lowers(condition, scopes, rets) && stmt_lowers(
            *body,
            scopes,
            rets,
        ),
        StmtType::For { var, condition, body } => var.stmt is VarDecl && stmt_lowers(
            *var,
            scopes,
            rets,
        ) && cond_lowers(condition, scopes_after(*var, scopes), rets) && stmt_lowers(
            *body,
            scopes_after(*var, scopes),
            rets,
        ),
        _ => false,
    }
}

/// Whether a list of statements lowers, each in the scopes the ones before
/// it leave.
pub open spec fn stmts_lower(
    list: Seq<Stmt>,
    scopes: Seq<Map<Seq<char>, ValueType>>,
    rets: Map<Seq<char>, RetType>,
) -> bool
    decreases list,
{
    if list.len() == 0 {
        true
    } else {
        stmts_lower(list.subrange(0, list.len() - 1), scopes, rets) && stmt_lowers(
            list[list.len() - 1],
            stmts_after(list.subrange(0, list.len() - 1), scopes),
            rets,
        )
    }
}

/// A statement keeps the number of scopes and all but the innermost one,
/// and only adds to the innermost one.
pub proof fn lemma_scopes_after_shape(s: Stmt, scopes: Seq<Map<Seq<char>, ValueType>>)
    requires
        scopes.len() > 0,
    ensures
        scopes_after(s, scopes).len() == scopes.len(),
        scopes_after(s, scopes).drop_last() == scopes.drop_last(),
        scopes.last().dom().subset_of(scopes_after(s, scopes).last().dom()),
    decreases s,
{
    match s.stmt {
        StmtType::VarDecl { name, ty, .. } => {
            assert(add_var(scopes, name@, ty).drop_last() =~= scopes.drop_last());
        },
        StmtType::If { body, final_else, .. } => {
            lemma_scopes_after_shape(*body, scopes);
            if let Some(e) = final_else {
                lemma_scopes_after_shape(*e, scopes_after(*body, scopes));
            }
        },
        StmtType::While { body, .. } => {
            lemma_scopes_after_shape(*body, scopes);
        },
        StmtType::For { var, body, .. } => {
            lemma_scopes_after_shape(*var, scopes);
            lemma_scopes_after_shape(*body, scopes_after(*var, scopes));
        },
        _ => {},
    }
}

/// A list of statements keeps the number of scopes and all but the innermost
/// one.
pub proof fn lemma_stmts_after_shape(list: Seq<Stmt>, scopes: Seq<Map<Seq<char>, ValueType>>)
    requires
        scopes.len() > 0,
    ensures
        stmts_after(list, scopes).len() == scopes.len(),
        stmts_after(list, scopes).drop_last() == scopes.drop_last(),
    decreases list.len(),
{
    if list.len() > 0 {
        lemma_stmts_after_shape(list.drop_last(), scopes);
        lemma_scopes_after_shape(list.last(), stmts_after(list.drop_last(), scopes));
    }
}

/// Whether integer instructions take values of machine type `t`.
pub fn is_int_kind(t: IrType) -> (r: bool)
    ensures
        r == int_kind(t),
{
    match t {
        IrType::Int | IrType::Bool => true,
        _ => false,
    }
}

/// The machine type of a binary instruction on operands of types `a` and `b`.
pub fn binary_result(l: BinLowering, a: IrType, b: IrType) -> (r: Option<IrType>)
    ensures
        r == binary_ir(l, a, b),
{
    match l {
        BinLowering::Int(_) => if is_int_kind(a) && is_int_kind(b) {
            Some(a)
        } else {
            None
        },
        BinLowering::IntCmp(_) => if is_int_kind(a) && is_int_kind(b) {
            Some(IrType::Bool)
        } else {
            None
        },
        BinLowering::Float(_) => if a == IrType::Double && b == IrType::Double {
            Some(IrType::Double)
        } else {
            None
        },
        BinLowering::FloatCmp(_) => if a == IrType::Double && b == IrType::Double {
            Some(IrType::Bool)
        } else {
            None
        },
    }
}

/// The machine type of a prefix operation.
pub fn unary_result(t: &ValueType, a: IrType) -> (r: Option<IrType>)
    ensures
        r == unary_ir(*t, a),
{
    match t {
        ValueType::Bool | ValueType::I64 => if is_int_kind(a) {
            Some(a)
        } else {
            None
        },
        ValueType::F64 => if a == IrType::Double {
            Some(a)
        } else {
            None
        },
        _ => None,
    }
}

/// The machine type of a conversion.
pub fn cast_result(op: CastOp, a: IrType) -> (r: Option<IrType>)
    ensures
        r == cast_ir(op, a),
{
    match op {
        CastOp::SignedToFloat | CastOp::UnsignedToFloat | CastOp::BoolToFloat => if is_int_kind(a) {
            Some(IrType::Double)
        } else {
            None
        },
        CastOp::FloatToSigned | CastOp::FloatToUnsigned => if a == IrType::Double {
            Some(IrType::Int)
        } else {
            None
        },
        CastOp::FloatToBool => if a == IrType::Double {
            Some(IrType::Bool)
        } else {
            None
        },
        CastOp::IntToBool => if is_int_kind(a) {
            Some(IrType::Bool)
        } else {
            None
        },
        CastOp::BoolToInt => if is_int_kind(a) {
            Some(IrType::Int)
        } else {
            None
        },
        CastOp::Reinterpret => Some(a),
    }
}

/// An operator that semantic analysis accepts on operands of a type has a
/// machine operation, and its machine result type is the machine type of the
/// type analysis gives the operation.
pub proof fn lemma_checked_binary_lowers(op: crate::binary_op::BinaryOp, t: ValueType)
    requires
        crate::analysis::analyse_expr::binary_result(op, t) is Some,
    ensures
        lowered_type(t) is Some,
        binary_lowering(t, op) is Some,
        binary_ir(binary_lowering(t, op)->0, lowered_type(t)->0, lowered_type(t)->0)
            == lowered_type(crate::analysis::analyse_expr::binary_result(op, t)->0),
{
}

/// A prefix operator that semantic analysis accepts on an operand has a
/// machine operation giving a value of the operand's machine type.
pub proof fn lemma_checked_unary_lowers(prefix: crate::token::TokenType, t: ValueType)
    requires
        unary_applies(prefix, t),
    ensures
        lowered_type(t) is Some,
        unary_ir(t, lowered_type(t)->0) == lowered_type(t),
{
}

/// A conversion that semantic analysis accepts between two different types
/// has a machine conversion giving a value of the target's machine type.
/// (A conversion of a type to itself is accepted but has no machine
/// conversion.)
pub proof fn lemma_checked_cast_lowers(from: ValueType, to: ValueType)
    requires
        castable(from, to),
        from@ != to@,
    ensures
        lowered_type(from) is Some,
        cast_lowering(from, to) is Some,
        cast_ir(cast_lowering(from, to)->0, lowered_type(from)->0) == lowered_type(to),
{
}

} // verus!
