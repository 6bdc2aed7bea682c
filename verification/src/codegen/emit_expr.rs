use vstd::prelude::*;

use super::builder::{grows, lemma_grows_refl, lemma_grows_trans, var_slot, CodegenError, FnBuilder};
use super::ir::{CastOp, Instr, IrType, RetType};
use super::lowering::{
    args_denote, binary_result, cast_result, denotes, expr_ir, lemma_args_denote_mono,
    lemma_args_lower, lemma_denotes_mono, unary_result,
};
use vstd::map_lib::lemma_submap_of_trans;
use super::select::{
    binary_instr_name, cast_instr_name, select_binary, select_cast, to_llvm_type, BinLowering,
};
use super::CodeGen;
use crate::expression::{Expr, ExprType};
use crate::token::Literal;
use crate::value::{copy_type, ValueType};

verus! {

impl CodeGen {
    /// Lowers an expression into the current block; gives the value it
    /// computes and that value's machine type.
    pub fn emit_expr(&self, b: &mut FnBuilder, expr: &Expr) -> (r: Result<
        (usize, IrType),
        CodegenError,
    >)
        requires
            old(b).wf(),
        ensures
            final(b).wf(),
            grows(old(b).blocks@, final(b).blocks@),
            final(b).blocks@.len() == old(b).blocks@.len(),
            final(b).current == old(b).current,
            final(b).vars == old(b).vars,
            old(b).next_value <= final(b).next_value,
            forall|k: int|
                0 <= k < old(b).blocks@.len() && k != old(b).current
                    ==> #[trigger] final(b).blocks@[k] == old(b).blocks@[k],
            old(b).defs@.submap_of(final(b).defs@),
            r matches Ok((v, t)) ==> denotes(final(b).defs@, v, *expr, old(b).slots()),
            r matches Ok((v, t)) ==> old(b).next_value <= v < final(b).next_value && expr_ir(
                *expr,
                old(b).scopes(),
                self.rets(),
            ) == Some(t),
            r matches Ok((v, t)) ==> (expr.expr matches ExprType::Assign { name, .. } ==> (var_slot(
                old(b).slots(),
                name@,
            ) matches Some(s) && final(b).current_instrs().len() > 0
                && final(b).current_instrs().last() == (Instr::Store { ptr: s.ptr, value: v }))),
            expr_ir(*expr, old(b).scopes(), self.rets()) is None ==> r is Err,
            expr_ir(*expr, old(b).scopes(), self.rets()) is Some ==> r is Ok,
        decreases expr, 1nat,
    {
        proof {
            lemma_grows_refl(b.blocks@);
        }
        match &expr.expr {
            ExprType::Lit(lit) => self.emit_lit(b, expr),
            ExprType::Identifier(name) => {
                let (ptr, ty) = match b.find_var(name) {
                    Some(slot) => (slot.ptr, copy_type(&slot.ty)),
                    None => return Err(CodegenError::UndefinedVariable(name.clone())),
                };
                let t = match to_llvm_type(&ty) {
                    Some(t) => t,
                    None => return Err(CodegenError::UnsupportedType(ty)),
                };
                let dst = b.fresh_value();
                b.push(Instr::Load { dst, ty: t, ptr, name: name.clone() });
                Ok((dst, t))
            },
            ExprType::Assign { name, new_value } => {
                let ptr = match b.find_var(name) {
                    Some(slot) => slot.ptr,
                    None => return Err(CodegenError::UndefinedVariable(name.clone())),
                };
                let (val, t) = match self.emit_expr(b, new_value) {
                    Ok(vt) => vt,
                    Err(e) => return Err(e),
                };
                let ghost mid = b.blocks@;
                b.push(Instr::Store { ptr, value: val });
                proof {
                    lemma_grows_trans(old(b).blocks@, mid, b.blocks@);
                }
                Ok((val, t))
            },
            ExprType::Binary { .. } => self.emit_binary_expr(b, expr),
            ExprType::Unary { .. } => self.emit_unary_expr(b, expr),
            ExprType::Cast { .. } => self.emit_cast(b, expr),
            ExprType::FuncCall { .. } => self.emit_call(b, expr),
            _ => Err(CodegenError::UnsupportedExpression),
        }
    }

    /// Lowers a literal to a constant.
    fn emit_lit(&self, b: &mut FnBuilder, expr: &Expr) -> (r: Result<(usize, IrType), CodegenError>)
        requires
            old(b).wf(),
            expr.expr is Lit,
        ensures
            final(b).wf(),
            grows(old(b).blocks@, final(b).blocks@),
            final(b).blocks@.len() == old(b).blocks@.len(),
            final(b).current == old(b).current,
            final(b).vars == old(b).vars,
            old(b).next_value <= final(b).next_value,
            forall|k: int|
                0 <= k < old(b).blocks@.len() && k != old(b).current
                    ==> #[trigger] final(b).blocks@[k] == old(b).blocks@[k],
            old(b).defs@.submap_of(final(b).defs@),
            r matches Ok((v, t)) ==> denotes(final(b).defs@, v, *expr, old(b).slots()),
            r matches Ok((v, t)) ==> old(b).next_value <= v < final(b).next_value && expr_ir(
                *expr,
                old(b).scopes(),
                self.rets(),
            ) == Some(t),
            r is Ok,
    {
        proof {
            lemma_grows_refl(b.blocks@);
        }
        let lit = match &expr.expr {
            ExprType::Lit(lit) => lit,
            _ => return Err(CodegenError::UnsupportedExpression),
        };
        let dst = b.fresh_value();
        let (instr, t) = match lit {
            Literal::I64(n) => (
                Instr::ConstInt { dst, ty: IrType::Int, bits: #[verifier::truncate] (*n as u64), sign_extend: true },
                IrType::Int,
            ),
            Literal::U64(n) => (
                Instr::ConstInt { dst, ty: IrType::Int, bits: *n, sign_extend: false },
                IrType::Int,
            ),
            Literal::F64(bits) => (Instr::ConstFloat { dst, bits: *bits }, IrType::Double),
            Literal::True => (
                Instr::ConstInt { dst, ty: IrType::Bool, bits: 1, sign_extend: false },
                IrType::Bool,
            ),
            Literal::False => (
                Instr::ConstInt { dst, ty: IrType::Bool, bits: 0, sign_extend: false },
                IrType::Bool,
            ),
            Literal::Str(text) => (Instr::ConstStr { dst, text: text.clone() }, IrType::Str),
            Literal::Null => (Instr::NullPtr { dst }, IrType::Ptr),
        };
        b.push(instr);
        Ok((dst, t))
    }

    /// Lowers `left op right` to the instruction for the operator and the
    /// left operand's type.
    fn emit_binary_expr(&self, b: &mut FnBuilder, expr: &Expr) -> (r: Result<
        (usize, IrType),
        CodegenError,
    >)
        requires
            old(b).wf(),
            expr.expr is Binary,
        ensures
            final(b).wf(),
            grows(old(b).blocks@, final(b).blocks@),
            final(b).blocks@.len() == old(b).blocks@.len(),
            final(b).current == old(b).current,
            final(b).vars == old(b).vars,
            old(b).next_value <= final(b).next_value,
            forall|k: int|
                0 <= k < old(b).blocks@.len() && k != old(b).current
                    ==> #[trigger] final(b).blocks@[k] == old(b).blocks@[k],
            old(b).defs@.submap_of(final(b).defs@),
            r matches Ok((v, t)) ==> denotes(final(b).defs@, v, *expr, old(b).slots()),
            r matches Ok((v, t)) ==> old(b).next_value <= v < final(b).next_value && expr_ir(
                *expr,
                old(b).scopes(),
                self.rets(),
            ) == Some(t),
            expr_ir(*expr, old(b).scopes(), self.rets()) is None ==> r is Err,
            expr_ir(*expr, old(b).scopes(), self.rets()) is Some ==> r is Ok,
        decreases expr, 0nat,
    {
        proof {
            lemma_grows_refl(b.blocks@);
        }
        let (left, op, right) = match &expr.expr {
            ExprType::Binary { left, op, right } => (left, *op, right),
            _ => return Err(CodegenError::UnsupportedExpression),
        };
        let lowering = match select_binary(&left.end_ty, op) {
            Some(l) => l,
            None => return Err(CodegenError::UnsupportedOperator(copy_type(&left.end_ty))),
        };
        let ghost d0 = b.defs@;
        let ghost slots = b.slots();
        let (lv, lt) = match self.emit_expr(b, left) {
            Ok(vt) => vt,
            Err(e) => return Err(e),
        };
        let ghost b1 = b.blocks@;
        let ghost d1 = b.defs@;
        let (rv, rt) = match self.emit_expr(b, right) {
            Ok(vt) => vt,
            Err(e) => {
                proof {
                    lemma_grows_trans(old(b).blocks@, b1, b.blocks@);
                    lemma_submap_of_trans(d0, d1, b.defs@);
                }
                return Err(e);
            },
        };
        let ghost b2 = b.blocks@;
        let ghost d2 = b.defs@;
        proof {
            lemma_grows_trans(old(b).blocks@, b1, b2);
            lemma_submap_of_trans(d0, d1, d2);
            lemma_denotes_mono(d1, d2, lv, **left, slots);
        }
        let t = match binary_result(lowering, lt, rt) {
            Some(t) => t,
            None => return Err(CodegenError::TypeMismatch),
        };
        let dst = b.fresh_value();
        let name = String::from_str(binary_instr_name(lowering));
        let instr = match lowering {
            BinLowering::Int(o) => Instr::Int { dst, op: o, lhs: lv, rhs: rv, name },
            BinLowering::Float(o) => Instr::Float { dst, op: o, lhs: lv, rhs: rv, name },
            BinLowering::IntCmp(p) => Instr::IntCmp { dst, pred: p, lhs: lv, rhs: rv, name },
            BinLowering::FloatCmp(p) => Instr::FloatCmp { dst, pred: p, lhs: lv, rhs: rv, name },
        };
        let ghost def = instr;
        b.push(instr);
        proof {
            lemma_grows_trans(old(b).blocks@, b2, b.blocks@);
            let d3 = b.defs@;
            assert(d3 == d2.insert(dst, def));
            assert(d2.submap_of(d3));
            lemma_submap_of_trans(d0, d2, d3);
            lemma_denotes_mono(d2, d3, lv, **left, slots);
            lemma_denotes_mono(d2, d3, rv, **right, slots);
            assert(d3[dst] == def);
        }
        Ok((dst, t))
    }

    /// Lowers a prefix operation: the operator is chosen by the operand's
    /// type alone.
    fn emit_unary_expr(&self, b: &mut FnBuilder, expr: &Expr) -> (r: Result<
        (usize, IrType),
        CodegenError,
    >)
        requires
            old(b).wf(),
            expr.expr is Unary,
        ensures
            final(b).wf(),
            grows(old(b).blocks@, final(b).blocks@),
            final(b).blocks@.len() == old(b).blocks@.len(),
            final(b).current == old(b).current,
            final(b).vars == old(b).vars,
            old(b).next_value <= final(b).next_value,
            forall|k: int|
                0 <= k < old(b).blocks@.len() && k != old(b).current
                    ==> #[trigger] final(b).blocks@[k] == old(b).blocks@[k],
            old(b).defs@.submap_of(final(b).defs@),
            r matches Ok((v, t)) ==> denotes(final(b).defs@, v, *expr, old(b).slots()),
            r matches Ok((v, t)) ==> old(b).next_value <= v < final(b).next_value && expr_ir(
                *expr,
                old(b).scopes(),
                self.rets(),
            ) == Some(t),
            expr_ir(*expr, old(b).scopes(), self.rets()) is None ==> r is Err,
            expr_ir(*expr, old(b).scopes(), self.rets()) is Some ==> r is Ok,
        decreases expr, 0nat,
    {
        proof {
            lemma_grows_refl(b.blocks@);
        }
        let value = match &expr.expr {
            ExprType::Unary { value, .. } => value,
            _ => return Err(CodegenError::UnsupportedExpression),
        };
        let ghost slots = b.slots();
        let (v, vt) = match self.emit_expr(b, value) {
            Ok(r) => r,
            Err(e) => return Err(e),
        };
        let ghost b1 = b.blocks@;
        let ghost d1 = b.defs@;
        let t = match unary_result(&value.end_ty, vt) {
            Some(t) => t,
            None => return Err(CodegenError::TypeMismatch),
        };
        let dst = b.fresh_value();
        let instr = match &value.end_ty {
            ValueType::Bool => Instr::Not { dst, value: v },
            ValueType::I64 => Instr::Neg { dst, value: v },
            _ => Instr::FNeg { dst, value: v },
        };
        let ghost def = instr;
        b.push(instr);
        proof {
            lemma_grows_trans(old(b).blocks@, b1, b.blocks@);
            let d2 = b.defs@;
            assert(d2 == d1.insert(dst, def));
            assert(d1.submap_of(d2));
            lemma_submap_of_trans(old(b).defs@, d1, d2);
            lemma_denotes_mono(d1, d2, v, **value, slots);
            assert(d2[dst] == def);
        }
        Ok((dst, t))
    }

    /// Lowers `value as target`; between the two integer types the value is
    /// kept as it is.
    fn emit_cast(&self, b: &mut FnBuilder, expr: &Expr) -> (r: Result<(usize, IrType), CodegenError>)
        requires
            old(b).wf(),
            expr.expr is Cast,
        ensures
            final(b).wf(),
            grows(old(b).blocks@, final(b).blocks@),
            final(b).blocks@.len() == old(b).blocks@.len(),
            final(b).current == old(b).current,
            final(b).vars == old(b).vars,
            old(b).next_value <= final(b).next_value,
            forall|k: int|
                0 <= k < old(b).blocks@.len() && k != old(b).current
                    ==> #[trigger] final(b).blocks@[k] == old(b).blocks@[k],
            old(b).defs@.submap_of(final(b).defs@),
            r matches Ok((v, t)) ==> denotes(final(b).defs@, v, *expr, old(b).slots()),
            r matches Ok((v, t)) ==> old(b).next_value <= v < final(b).next_value && expr_ir(
                *expr,
                old(b).scopes(),
                self.rets(),
            ) == Some(t),
            expr_ir(*expr, old(b).scopes(), self.rets()) is None ==> r is Err,
            expr_ir(*expr, old(b).scopes(), self.rets()) is Some ==> r is Ok,
        decreases expr, 0nat,
    {
        proof {
            lemma_grows_refl(b.blocks@);
        }
        let (value, target_ty) = match &expr.expr {
            ExprType::Cast { value, target_ty } => (value, target_ty),
            _ => return Err(CodegenError::UnsupportedExpression),
        };
        let ghost slots = b.slots();
        let (v, vt) = match self.emit_expr(b, value) {
            Ok(r) => r,
            Err(e) => return Err(e),
        };
        let ghost b1 = b.blocks@;
        let ghost d1 = b.defs@;
        let op = match select_cast(&value.end_ty, target_ty) {
            Some(op) => op,
            None => return Err(
                CodegenError::UnsupportedCast(copy_type(&value.end_ty), copy_type(target_ty)),
            ),
        };
        let t = match cast_result(op, vt) {
            Some(t) => t,
            None => return Err(CodegenError::TypeMismatch),
        };
        match op {
            CastOp::Reinterpret => Ok((v, t)),
            _ => {
                let dst = b.fresh_value();
                let instr = Instr::Cast {
                    dst,
                    op,
                    value: v,
                    name: String::from_str(cast_instr_name(op)),
                };
                let ghost def = instr;
                b.push(instr);
                proof {
                    lemma_grows_trans(old(b).blocks@, b1, b.blocks@);
                    let d2 = b.defs@;
                    assert(d2 == d1.insert(dst, def));
                    assert(d1.submap_of(d2));
                    lemma_submap_of_trans(old(b).defs@, d1, d2);
                    lemma_denotes_mono(d1, d2, v, **value, slots);
                    assert(d2[dst] == def);
                }
                Ok((dst, t))
            },
        }
    }

    /// Lowers a call of a function of the module that returns a value; the
    /// arguments are lowered from left to right.
    fn emit_call(&self, b: &mut FnBuilder, expr: &Expr) -> (r: Result<(usize, IrType), CodegenError>)
        requires
            old(b).wf(),
            expr.expr is FuncCall,
        ensures
            final(b).wf(),
            grows(old(b).blocks@, final(b).blocks@),
            final(b).blocks@.len() == old(b).blocks@.len(),
            final(b).current == old(b).current,
            final(b).vars == old(b).vars,
            old(b).next_value <= final(b).next_value,
            forall|k: int|
                0 <= k < old(b).blocks@.len() && k != old(b).current
                    ==> #[trigger] final(b).blocks@[k] == old(b).blocks@[k],
            old(b).defs@.submap_of(final(b).defs@),
            r matches Ok((v, t)) ==> denotes(final(b).defs@, v, *expr, old(b).slots()),
            r matches Ok((v, t)) ==> old(b).next_value <= v < final(b).next_value && expr_ir(
                *expr,
                old(b).scopes(),
                self.rets(),
            ) == Some(t),
            expr_ir(*expr, old(b).scopes(), self.rets()) is None ==> r is Err,
            expr_ir(*expr, old(b).scopes(), self.rets()) is Some ==> r is Ok,
        decreases expr, 0nat,
    {
        proof {
            lemma_grows_refl(b.blocks@);
        }
        let (name, args) = match &expr.expr {
            ExprType::FuncCall { name, args, .. } => (name, args),
            _ => return Err(CodegenError::UnsupportedExpression),
        };
        let ret = match self.sigs.get(name) {
            Some(sig) => sig.ret,
            None => return Err(CodegenError::UndefinedFunction(name.clone())),
        };
        proof {
            assert(self.rets().contains_key(name@));
            assert(self.rets()[name@] == ret);
        }
        let ghost sc = b.scopes();
        let ghost rets = self.rets();
        let ghost b0 = b.blocks@;
        let ghost d0 = b.defs@;
        let ghost slots = b.slots();
        proof {
            lemma_grows_refl(b0);
            assert(args_denote(d0, Seq::<usize>::empty(), args@.subrange(0, 0), slots));
        }
        let mut vals: Vec<usize> = Vec::new();
        let mut i: usize = 0;
        while i < args.len()
            invariant
                b.wf(),
                i <= args@.len(),
                grows(b0, b.blocks@),
                b.blocks@.len() == b0.len(),
                b.current == old(b).current,
                b.vars == old(b).vars,
                sc == b.scopes(),
                sc == old(b).scopes(),
                b0 == old(b).blocks@,
                rets == self.rets(),
                forall|k: int|
                    0 <= k < b0.len() && k != old(b).current ==> #[trigger] b.blocks@[k] == b0[k],
                old(b).next_value <= b.next_value,
                vals@.len() == i,
                forall|k: int| 0 <= k < i ==> #[trigger] vals@[k] < b.next_value,
                forall|k: int| 0 <= k < i ==> (#[trigger] expr_ir(args@[k], sc, rets)) is Some,
                expr.expr matches ExprType::FuncCall { name: n, args: a, .. } && n == *name && a == *args,
                d0 == old(b).defs@,
                d0.submap_of(b.defs@),
                slots == b.slots(),
                slots == old(b).slots(),
                args_denote(b.defs@, vals@, args@.subrange(0, i as int), slots),
            decreases args@.len() - i,
        {
            proof {
                assert(decreases_to!(*expr => expr.expr));
                assert(decreases_to!(expr.expr => *args));
                assert(decreases_to!(*args => args@));
                assert(decreases_to!(args@ => args@[i as int]));
            }
            let ghost before = b.blocks@;
            let ghost nv = b.next_value;
            let ghost db = b.defs@;
            let ghost old_vals = vals@;
            match self.emit_expr(b, &args[i]) {
                Ok((v, _)) => {
                    vals.push(v);
                },
                Err(e) => {
                    proof {
                        lemma_submap_of_trans(d0, db, b.defs@);
                        lemma_grows_trans(b0, before, b.blocks@);
                        lemma_args_lower(args@, sc, rets);
                        if expr_ir(*expr, sc, rets) is Some {
                            assert(expr_ir(args@[i as int], sc, rets) is Some);
                        }
                    }
                    return Err(e);
                },
            }
            proof {
                lemma_submap_of_trans(d0, db, b.defs@);
                lemma_args_denote_mono(db, b.defs@, old_vals, args@.subrange(0, i as int), slots);
                let na = args@.subrange(0, i + 1);
                assert(na.subrange(0, na.len() - 1) =~= args@.subrange(0, i as int));
                assert(vals@.subrange(0, vals@.len() - 1) =~= old_vals);
                assert(na[na.len() - 1] == args@[i as int]);
                lemma_grows_trans(b0, before, b.blocks@);
                assert forall|k: int| 0 <= k < i + 1 implies #[trigger] vals@[k] < b.next_value by {
                    if k < i {
                        assert(vals@[k] < nv);
                    }
                }
            }
            i += 1;
        }
        proof {
            assert(forall|k: int| 0 <= k < args@.len() ==> (#[trigger] expr_ir(args@[k], sc, rets)) is Some);
            lemma_args_lower(args@, sc, rets);
            assert(args@.subrange(0, i as int) =~= args@);
        }
        let ghost d1 = b.defs@;
        let t = match ret {
            RetType::Value(t) => t,
            RetType::Void => return Err(CodegenError::VoidCall(name.clone())),
        };
        let dst = b.fresh_value();
        let ghost b1 = b.blocks@;
        let ghost vs = vals@;
        let instr = Instr::Call {
            dst: Some(dst),
            func: name.clone(),
            args: vals,
            name: String::from_str("calltmp"),
        };
        let ghost def = instr;
        b.push(instr);
        proof {
            lemma_grows_trans(b0, b1, b.blocks@);
            let d2 = b.defs@;
            assert(d2 == d1.insert(dst, def));
            assert(d1.submap_of(d2));
            lemma_submap_of_trans(d0, d1, d2);
            lemma_args_denote_mono(d1, d2, vs, args@, slots);
            assert(d2[dst] == def);
        }
        Ok((dst, t))
    }
}

} // verus!
