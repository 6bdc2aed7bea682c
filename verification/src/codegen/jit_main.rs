use vstd::prelude::*;

use super::builder::{record, CodegenError, FnBuilder};
use super::ir::{BasicBlock, Instr, IntOp, IntPred, IrFunction, IrType, RetType};
use super::lowering::{binary_ir, binary_result, int_kind, is_int_kind};
use super::select::{binary_instr_name, BinLowering};
use super::CodeGen;
use crate::binary_op::BinaryOp;
use crate::expression::{Expr, ExprType};
use crate::statement::{Stmt, StmtType};
use crate::token::Literal;

verus! {

broadcast use vstd::map_lib::lemma_submap_of_trans;

/// The machine operation that `main` uses for a binary operator: the
/// integer operation or the signed comparison.
pub open spec fn main_op(op: BinaryOp) -> BinLowering {
    match op {
        BinaryOp::Add => BinLowering::Int(IntOp::Add),
        BinaryOp::Sub => BinLowering::Int(IntOp::Sub),
        BinaryOp::Mul => BinLowering::Int(IntOp::Mul),
        BinaryOp::Div => BinLowering::Int(IntOp::SignedDiv),
        BinaryOp::Equal => BinLowering::IntCmp(IntPred::Eq),
        BinaryOp::NotEqual => BinLowering::IntCmp(IntPred::Ne),
        BinaryOp::Less => BinLowering::IntCmp(IntPred::SignedLt),
        BinaryOp::LessEqual => BinLowering::IntCmp(IntPred::SignedLe),
        BinaryOp::Greater => BinLowering::IntCmp(IntPred::SignedGt),
        BinaryOp::GreaterEqual => BinLowering::IntCmp(IntPred::SignedGe),
        BinaryOp::And => BinLowering::Int(IntOp::And),
        BinaryOp::Or => BinLowering::Int(IntOp::Or),
    }
}

fn select_main_op(op: BinaryOp) -> (r: BinLowering)
    ensures
        r == main_op(op),
{
    match op {
        BinaryOp::Add => BinLowering::Int(IntOp::Add),
        BinaryOp::Sub => BinLowering::Int(IntOp::Sub),
        BinaryOp::Mul => BinLowering::Int(IntOp::Mul),
        BinaryOp::Div => BinLowering::Int(IntOp::SignedDiv),
        BinaryOp::Equal => BinLowering::IntCmp(IntPred::Eq),
        BinaryOp::NotEqual => BinLowering::IntCmp(IntPred::Ne),
        BinaryOp::Less => BinLowering::IntCmp(IntPred::SignedLt),
        BinaryOp::LessEqual => BinLowering::IntCmp(IntPred::SignedLe),
        BinaryOp::Greater => BinLowering::IntCmp(IntPred::SignedGt),
        BinaryOp::GreaterEqual => BinLowering::IntCmp(IntPred::SignedGe),
        BinaryOp::And => BinLowering::Int(IntOp::And),
        BinaryOp::Or => BinLowering::Int(IntOp::Or),
    }
}

/// The machine type of the value an expression gives in `main`, when it
/// lowers there: an integer, float or boolean literal, or a binary operation
/// on integers and booleans.
pub open spec fn main_expr_ir(e: Expr) -> Option<IrType>
    decreases e,
{
    match e.expr {
        ExprType::Lit(Literal::I64(_)) => Some(IrType::Int),
        ExprType::Lit(Literal::F64(_)) => Some(IrType::Double),
        ExprType::Lit(Literal::True) | ExprType::Lit(Literal::False) => Some(IrType::Bool),
        ExprType::Binary { left, op, right } => match (main_expr_ir(*left), main_expr_ir(*right)) {
            (Some(a), Some(b)) => if int_kind(a) && int_kind(b) {
                binary_ir(main_op(op), a, b)
            } else {
                None
            },
            _ => None,
        },
        _ => None,
    }
}

/// Value `v` computes the expression `e` in `main`, read through the
/// definitions `defs`.
pub open spec fn main_denotes(defs: Map<usize, Instr>, v: usize, e: Expr) -> bool
    decreases e,
{
    match e.expr {
        ExprType::Lit(Literal::I64(n)) => defs.contains_key(v) && defs[v] == Instr::ConstInt {
            dst: v,
            ty: IrType::Int,
            bits: n as u64,
            sign_extend: false,
        },
        ExprType::Lit(Literal::F64(bits)) => defs.contains_key(v) && defs[v] == Instr::ConstFloat {
            dst: v,
            bits,
        },
        ExprType::Lit(Literal::True) => defs.contains_key(v) && defs[v] == Instr::ConstInt {
            dst: v,
            ty: IrType::Bool,
            bits: 1,
            sign_extend: false,
        },
        ExprType::Lit(Literal::False) => defs.contains_key(v) && defs[v] == Instr::ConstInt {
            dst: v,
            ty: IrType::Bool,
            bits: 0,
            sign_extend: false,
        },
        ExprType::Binary { left, op, right } => defs.contains_key(v) && match (
            defs[v],
            main_op(op),
        ) {
            (Instr::Int { dst, op: o, lhs, rhs, .. }, BinLowering::Int(o2)) => dst == v && o == o2
                && main_denotes(defs, lhs, *left) && main_denotes(defs, rhs, *right),
            (Instr::IntCmp { dst, pred, lhs, rhs, .. }, BinLowering::IntCmp(p2)) => dst == v
                && pred == p2 && main_denotes(defs, lhs, *left) && main_denotes(defs, rhs, *right),
            _ => false,
        },
        _ => false,
    }
}

/// Computing an expression still holds with more definitions.
pub proof fn lemma_main_denotes_mono(d1: Map<usize, Instr>, d2: Map<usize, Instr>, v: usize, e: Expr)
    requires
        d1.submap_of(d2),
        main_denotes(d1, v, e),
    ensures
        main_denotes(d2, v, e),
    decreases e,
{
    assert(d1.contains_key(v));
    assert(d2.contains_key(v) && d2[v] == d1[v]);
    if let ExprType::Binary { left, op, right } = e.expr {
        match d1[v] {
            Instr::Int { lhs, rhs, .. } => {
                lemma_main_denotes_mono(d1, d2, lhs, *left);
                lemma_main_denotes_mono(d1, d2, rhs, *right);
            },
            Instr::IntCmp { lhs, rhs, .. } => {
                lemma_main_denotes_mono(d1, d2, lhs, *left);
                lemma_main_denotes_mono(d1, d2, rhs, *right);
            },
            _ => {},
        }
    }
}

/// A top-level statement lowers in `main`: an expression statement whose
/// value lowers, or a function declaration whose body's statements all do.
pub open spec fn main_stmt_lowers(s: Stmt) -> bool
    decreases s, 1nat,
{
    match s.stmt {
        StmtType::Expr(e) => main_expr_ir(e) is Some,
        StmtType::Func { body, .. } => main_stmts_lower(body),
        _ => false,
    }
}

/// Every statement of a list lowers in `main`.
pub open spec fn main_stmts_lower(v: Vec<Stmt>) -> bool
    decreases v, 0nat,
{
    forall|i: int| 0 <= i < v@.len() ==> main_stmt_lowers(#[trigger] v@[i])
}

/// The expression statements of a statement, in order, with those of the
/// bodies of function declarations.
pub open spec fn stmt_exprs(s: Stmt) -> Seq<Expr>
    decreases s, 1int, 0int,
{
    match s.stmt {
        StmtType::Expr(e) => seq![e],
        StmtType::Func { body, .. } => stmts_exprs(body, 0),
        _ => Seq::empty(),
    }
}

/// The expression statements of a list of statements from position `i` on.
pub open spec fn stmts_exprs(v: Vec<Stmt>, i: int) -> Seq<Expr>
    decreases v, 0int, v@.len() - i,
{
    if i < 0 || i >= v@.len() {
        Seq::empty()
    } else {
        proof {
            assert(decreases_to!(v => v@[i]));
        }
        stmt_exprs(v@[i]) + stmts_exprs(v, i + 1)
    }
}

/// The values the return instructions of a list return, in order.
pub open spec fn returned_values(instrs: Seq<Instr>) -> Seq<usize>
    decreases instrs.len(),
{
    if instrs.len() == 0 {
        Seq::empty()
    } else {
        let rest = returned_values(instrs.drop_last());
        match instrs.last() {
            Instr::Ret { value: Some(v) } => rest.push(v),
            _ => rest,
        }
    }
}

/// Every definition is an instruction of the list.
pub open spec fn defined_in(defs: Map<usize, Instr>, instrs: Seq<Instr>) -> bool {
    forall|d: usize| #[trigger] defs.contains_key(d) ==> instrs.contains(defs[d])
}

/// The returns of `main` compute the expression statements `exprs`, in
/// order: the `k`th return returns a value that computes the `k`th
/// expression, through definitions that are instructions of the block.
pub open spec fn returns_compute(instrs: Seq<Instr>, exprs: Seq<Expr>) -> bool {
    &&& returned_values(instrs).len() == exprs.len()
    &&& exists|defs: Map<usize, Instr>|
        #![trigger defined_in(defs, instrs)]
        defined_in(defs, instrs) && forall|k: int|
            0 <= k < exprs.len() ==> main_denotes(defs, #[trigger] returned_values(instrs)[k], exprs[k])
}

/// The expression statements of the statements before position `i`.
pub open spec fn stmts_exprs_upto(v: Vec<Stmt>, i: int) -> Seq<Expr>
    decreases i,
{
    if i <= 0 || i > v@.len() {
        Seq::empty()
    } else {
        stmts_exprs_upto(v, i - 1) + stmt_exprs(v@[i - 1])
    }
}

/// The expression statements of a list are those before a position followed
/// by those from it on.
proof fn lemma_stmts_exprs_split(v: Vec<Stmt>, i: int)
    requires
        0 <= i <= v@.len(),
    ensures
        stmts_exprs(v, 0) == stmts_exprs_upto(v, i) + stmts_exprs(v, i),
    decreases i,
{
    if i == 0 {
        assert(stmts_exprs_upto(v, 0) + stmts_exprs(v, 0) =~= stmts_exprs(v, 0));
    } else {
        lemma_stmts_exprs_split(v, i - 1);
        let a = stmts_exprs_upto(v, i - 1);
        let b = stmt_exprs(v@[i - 1]);
        let c = stmts_exprs(v, i);
        assert(stmts_exprs(v, i - 1) == b + c);
        assert(a + (b + c) =~= (a + b) + c);
    }
}

/// Appending an instruction keeps every definition among the instructions,
/// the new one included.
proof fn lemma_push_defined(defs: Map<usize, Instr>, instrs: Seq<Instr>, i: Instr)
    requires
        defined_in(defs, instrs),
    ensures
        defined_in(record(defs, i), instrs.push(i)),
{
    let d2 = record(defs, i);
    let s2 = instrs.push(i);
    assert forall|d: usize| #[trigger] d2.contains_key(d) implies s2.contains(d2[d]) by {
        if defs.contains_key(d) && d2[d] == defs[d] {
            let k = choose|k: int| 0 <= k < instrs.len() && instrs[k] == defs[d];
            assert(s2[k] == defs[d]);
        } else {
            assert(s2[instrs.len() as int] == i);
        }
    }
}

/// Appending an instruction that returns nothing keeps the returned values.
proof fn lemma_push_returns(instrs: Seq<Instr>, i: Instr)
    ensures
        i matches Instr::Ret { value: Some(v) } ==> returned_values(instrs.push(i))
            == returned_values(instrs).push(v),
        !(i is Ret) ==> returned_values(instrs.push(i)) == returned_values(instrs),
{
    assert(instrs.push(i).drop_last() =~= instrs);
}

/// Lowers an expression of `main` into its only block.
fn emit_main_expr(b: &mut FnBuilder, e: &Expr) -> (r: Result<(usize, IrType), CodegenError>)
    requires
        old(b).wf(),
        old(b).current == 0,
        old(b).blocks@.len() == 1,
        defined_in(old(b).defs@, old(b).blocks@[0].instrs@),
    ensures
        final(b).wf(),
        final(b).current == 0,
        final(b).blocks@.len() == 1,
        final(b).blocks@[0].name@ == old(b).blocks@[0].name@,
        defined_in(final(b).defs@, final(b).blocks@[0].instrs@),
        old(b).defs@.submap_of(final(b).defs@),
        old(b).next_value <= final(b).next_value,
        returned_values(final(b).blocks@[0].instrs@) == returned_values(old(b).blocks@[0].instrs@),
        r matches Ok((v, t)) ==> v < final(b).next_value && main_expr_ir(*e) == Some(t)
            && main_denotes(final(b).defs@, v, *e),
        main_expr_ir(*e) is None ==> r is Err,
        main_expr_ir(*e) is Some ==> r is Ok,
    decreases e,
{
    match &e.expr {
        ExprType::Lit(lit) => {
            let (is_lit, t) = match lit {
                Literal::I64(_) => (true, IrType::Int),
                Literal::F64(_) => (true, IrType::Double),
                Literal::True | Literal::False => (true, IrType::Bool),
                _ => (false, IrType::Int),
            };
            if !is_lit {
                return Err(CodegenError::UnsupportedExpression);
            }
            let dst = b.fresh_value();
            let instr = match lit {
                Literal::I64(n) => Instr::ConstInt {
                    dst,
                    ty: IrType::Int,
                    bits: #[verifier::truncate] (*n as u64),
                    sign_extend: false,
                },
                Literal::F64(bits) => Instr::ConstFloat { dst, bits: *bits },
                Literal::True => Instr::ConstInt { dst, ty: IrType::Bool, bits: 1, sign_extend: false },
                _ => Instr::ConstInt { dst, ty: IrType::Bool, bits: 0, sign_extend: false },
            };
            proof {
                lemma_push_defined(b.defs@, b.blocks@[0].instrs@, instr);
                lemma_push_returns(b.blocks@[0].instrs@, instr);
            }
            b.push(instr);
            Ok((dst, t))
        },
        ExprType::Binary { left, op, right } => {
            let (l, lt) = match emit_main_expr(b, &**left) {
                Ok(x) => x,
                Err(err) => return Err(err),
            };
            let ghost d1 = b.defs@;
            let (rv, rt) = match emit_main_expr(b, &**right) {
                Ok(x) => x,
                Err(err) => return Err(err),
            };
            proof {
                lemma_main_denotes_mono(d1, b.defs@, l, **left);
            }
            if !(is_int_kind(lt) && is_int_kind(rt)) {
                return Err(CodegenError::TypeMismatch);
            }
            let bl = select_main_op(*op);
            let t = match binary_result(bl, lt, rt) {
                Some(t) => t,
                None => return Err(CodegenError::TypeMismatch),
            };
            let dst = b.fresh_value();
            let name = String::from_str(binary_instr_name(bl));
            let instr = match bl {
                BinLowering::IntCmp(pred) => Instr::IntCmp { dst, pred, lhs: l, rhs: rv, name },
                BinLowering::Int(o) => Instr::Int { dst, op: o, lhs: l, rhs: rv, name },
                _ => return Err(CodegenError::TypeMismatch),
            };
            let ghost d2 = b.defs@;
            proof {
                lemma_push_defined(b.defs@, b.blocks@[0].instrs@, instr);
                lemma_push_returns(b.blocks@[0].instrs@, instr);
            }
            b.push(instr);
            proof {
                lemma_main_denotes_mono(d2, b.defs@, l, **left);
                lemma_main_denotes_mono(d2, b.defs@, rv, **right);
            }
            Ok((dst, t))
        },
        _ => Err(CodegenError::UnsupportedExpression),
    }
}

/// Lowers a top-level statement into `main`: an expression statement
/// returns its value, and a function declaration lowers its body's
/// statements.
fn emit_main_stmt(b: &mut FnBuilder, s: &Stmt) -> (r: Result<(), CodegenError>)
    requires
        old(b).wf(),
        old(b).current == 0,
        old(b).blocks@.len() == 1,
        defined_in(old(b).defs@, old(b).blocks@[0].instrs@),
    ensures
        final(b).wf(),
        final(b).current == 0,
        final(b).blocks@.len() == 1,
        final(b).blocks@[0].name@ == old(b).blocks@[0].name@,
        defined_in(final(b).defs@, final(b).blocks@[0].instrs@),
        old(b).defs@.submap_of(final(b).defs@),
        r is Ok ==> main_stmt_lowers(*s),
        r is Ok ==> {
            let r0 = returned_values(old(b).blocks@[0].instrs@);
            let r1 = returned_values(final(b).blocks@[0].instrs@);
            &&& r1.len() == r0.len() + stmt_exprs(*s).len()
            &&& r1.subrange(0, r0.len() as int) == r0
            &&& forall|k: int|
                0 <= k < stmt_exprs(*s).len() ==> main_denotes(
                    final(b).defs@,
                    #[trigger] r1[r0.len() + k],
                    stmt_exprs(*s)[k],
                )
        },
        main_stmt_lowers(*s) ==> r is Ok,
    decreases s, 1nat,
{
    match &s.stmt {
        StmtType::Expr(e) => {
            let (v, _) = match emit_main_expr(b, e) {
                Ok(x) => x,
                Err(err) => return Err(err),
            };
            let ret = Instr::Ret { value: Some(v) };
            let ghost r0 = returned_values(b.blocks@[0].instrs@);
            let ghost d0 = b.defs@;
            proof {
                lemma_push_defined(b.defs@, b.blocks@[0].instrs@, ret);
                lemma_push_returns(b.blocks@[0].instrs@, ret);
            }
            b.push(ret);
            proof {
                assert(b.defs@ == d0);
                let r1 = returned_values(b.blocks@[0].instrs@);
                assert(r1 == r0.push(v));
                assert(r1.subrange(0, r0.len() as int) =~= r0);
                assert(stmt_exprs(*s) == seq![*e]);
            }
            Ok(())
        },
        StmtType::Func { body, .. } => {
            let r = emit_main_stmts(b, body);
            proof {
                assert(stmt_exprs(*s) == stmts_exprs(*body, 0));
            }
            r
        },
        _ => Err(CodegenError::UnsupportedStatement),
    }
}

/// Lowers statements into `main`, one after another.
fn emit_main_stmts(b: &mut FnBuilder, v: &Vec<Stmt>) -> (r: Result<(), CodegenError>)
    requires
        old(b).wf(),
        old(b).current == 0,
        old(b).blocks@.len() == 1,
        defined_in(old(b).defs@, old(b).blocks@[0].instrs@),
    ensures
        final(b).wf(),
        final(b).current == 0,
        final(b).blocks@.len() == 1,
        final(b).blocks@[0].name@ == old(b).blocks@[0].name@,
        defined_in(final(b).defs@, final(b).blocks@[0].instrs@),
        old(b).defs@.submap_of(final(b).defs@),
        r is Ok ==> main_stmts_lower(*v),
        r is Ok ==> {
            let r0 = returned_values(old(b).blocks@[0].instrs@);
            let r1 = returned_values(final(b).blocks@[0].instrs@);
            &&& r1.len() == r0.len() + stmts_exprs(*v, 0).len()
            &&& r1.subrange(0, r0.len() as int) == r0
            &&& forall|k: int|
                0 <= k < stmts_exprs(*v, 0).len() ==> main_denotes(
                    final(b).defs@,
                    #[trigger] r1[r0.len() + k],
                    stmts_exprs(*v, 0)[k],
                )
        },
        main_stmts_lower(*v) ==> r is Ok,
    decreases v, 0nat,
{
    let ghost r0 = returned_values(b.blocks@[0].instrs@);
    let mut i: usize = 0;
    while i < v.len()
        invariant
            b.wf(),
            b.current == 0,
            b.blocks@.len() == 1,
            b.blocks@[0].name@ == old(b).blocks@[0].name@,
            defined_in(b.defs@, b.blocks@[0].instrs@),
            old(b).defs@.submap_of(b.defs@),
            r0 == returned_values(old(b).blocks@[0].instrs@),
            i <= v@.len(),
            forall|j: int| 0 <= j < i ==> main_stmt_lowers(#[trigger] v@[j]),
            returned_values(b.blocks@[0].instrs@).len() == r0.len() + stmts_exprs_upto(
                *v,
                i as int,
            ).len(),
            returned_values(b.blocks@[0].instrs@).subrange(0, r0.len() as int) == r0,
            forall|k: int|
                0 <= k < stmts_exprs_upto(*v, i as int).len() ==> main_denotes(
                    b.defs@,
                    #[trigger] returned_values(b.blocks@[0].instrs@)[r0.len() + k],
                    stmts_exprs_upto(*v, i as int)[k],
                ),
        decreases v@.len() - i,
    {
        proof {
            assert(decreases_to!(v => v[i as int]));
        }
        let ghost ra = returned_values(b.blocks@[0].instrs@);
        let ghost da = b.defs@;
        match emit_main_stmt(b, &v[i]) {
            Ok(_) => {},
            Err(err) => {
                proof {
                    if main_stmts_lower(*v) {
                        assert(main_stmt_lowers(v@[i as int]));
                    }
                }
                return Err(err);
            },
        }
        proof {
            let rb = returned_values(b.blocks@[0].instrs@);
            let up = stmts_exprs_upto(*v, i as int);
            let se = stmt_exprs(v@[i as int]);
            assert(stmts_exprs_upto(*v, i + 1) == up + se);
            assert(rb.subrange(0, ra.len() as int) == ra);
            assert(rb.subrange(0, r0.len() as int) =~= r0) by {
                assert(ra.subrange(0, r0.len() as int) == r0);
                assert forall|k: int| 0 <= k < r0.len() implies rb[k] == r0[k] by {
                    assert(rb[k] == rb.subrange(0, ra.len() as int)[k]);
                    assert(ra[k] == ra.subrange(0, r0.len() as int)[k]);
                }
            }
            assert forall|k: int| 0 <= k < (up + se).len() implies main_denotes(
                b.defs@,
                #[trigger] rb[r0.len() + k],
                (up + se)[k],
            ) by {
                if k < up.len() {
                    assert(rb[r0.len() + k] == ra[r0.len() + k]) by {
                        assert(rb.subrange(0, ra.len() as int)[r0.len() + k] == ra[r0.len() + k]);
                    }
                    lemma_main_denotes_mono(da, b.defs@, ra[r0.len() + k], up[k]);
                } else {
                    assert((up + se)[k] == se[k - up.len()]);
                    assert(rb[ra.len() + (k - up.len())] == rb[r0.len() + k]);
                }
            }
        }
        i += 1;
    }
    proof {
        lemma_stmts_exprs_split(*v, v@.len() as int);
        assert(stmts_exprs(*v, v@.len() as int) =~= Seq::<Expr>::empty());
        assert(stmts_exprs_upto(*v, v@.len() as int) + Seq::<Expr>::empty() =~= stmts_exprs_upto(
            *v,
            v@.len() as int,
        ));
    }
    Ok(())
}

impl CodeGen {
    /// Lowers the top-level statements of a program into a single function
    /// `main` returning an integer, for running just in time: each
    /// expression statement, and each one in the body of a declared
    /// function, computes its value in `main`'s only block and returns it.
    /// The statements must be ones that lower.
    pub fn compile_main(stmts: &Vec<Stmt>) -> (r: IrFunction)
        requires
            main_stmts_lower(*stmts),
        ensures
            r.name@ == "main"@,
            r.params@.len() == 0,
            r.ret == RetType::Value(IrType::Int),
            r.blocks@.len() == 1,
            r.blocks@[0].name@ == "entry"@,
            returns_compute(r.blocks@[0].instrs@, stmts_exprs(*stmts, 0)),
    {
        match Self::compile_main_checked(stmts) {
            Ok(f) => f,
            Err(_) => {
                proof {
                    assert(false);
                }
                IrFunction {
                    name: String::new(),
                    params: Vec::new(),
                    ret: RetType::Void,
                    blocks: Vec::new(),
                }
            },
        }
    }

    /// Lowers the top-level statements into `main` as `compile_main` does,
    /// or names the construct that has no lowering, exactly when they do
    /// not lower.
    pub fn compile_main_checked(stmts: &Vec<Stmt>) -> (r: Result<IrFunction, CodegenError>)
        ensures
            r is Ok ==> main_stmts_lower(*stmts),
            main_stmts_lower(*stmts) ==> r is Ok,
            r matches Ok(f) ==> {
                &&& f.name@ == "main"@
                &&& f.params@.len() == 0
                &&& f.ret == RetType::Value(IrType::Int)
                &&& f.blocks@.len() == 1
                &&& f.blocks@[0].name@ == "entry"@
                &&& returns_compute(f.blocks@[0].instrs@, stmts_exprs(*stmts, 0))
            },
    {
        let mut b = FnBuilder::new(0);
        proof {
            assert(defined_in(b.defs@, b.blocks@[0].instrs@));
            assert(returned_values(b.blocks@[0].instrs@) =~= Seq::<usize>::empty());
        }
        match emit_main_stmts(&mut b, stmts) {
            Ok(_) => {},
            Err(e) => return Err(e),
        }
        let ghost defs = b.defs@;
        let ghost instrs = b.blocks@[0].instrs@;
        proof {
            let rv = returned_values(instrs);
            assert(forall|k: int|
                0 <= k < stmts_exprs(*stmts, 0).len() ==> main_denotes(
                    defs,
                    #[trigger] rv[k],
                    stmts_exprs(*stmts, 0)[k],
                )) by {
                assert forall|k: int| 0 <= k < stmts_exprs(*stmts, 0).len() implies main_denotes(
                    defs,
                    #[trigger] rv[k],
                    stmts_exprs(*stmts, 0)[k],
                ) by {
                    assert(rv[0 + k] == rv[k]);
                }
            }
            assert(defined_in(defs, instrs));
        }
        let f = IrFunction {
            name: String::from_str("main"),
            params: Vec::new(),
            ret: RetType::Value(IrType::Int),
            blocks: b.blocks,
        };
        proof {
            assert(f.blocks@[0].instrs@ == instrs);
        }
        Ok(f)
    }
}

} // verus!
