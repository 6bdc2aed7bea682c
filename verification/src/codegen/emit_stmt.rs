use vstd::prelude::*;

use super::builder::{
    closed, grows, lemma_grows_contains, var_slot, VarSlot, lemma_grows_refl, lemma_grows_trans, lemma_nested_trans, nested,
    CodegenError, FnBuilder,
};
use super::ir::{is_terminator, BasicBlock, Instr, IntOp, IrType};
use super::lowering::{
    denotes, lemma_denotes_mono, is_int_kind, lemma_scopes_after_shape, lemma_stmts_after_shape, scopes_after, stmt_lowers,
    stmts_after, stmts_lower,
};
use super::select::{lowered_type, print_function, select_print, to_llvm_type};
use super::CodeGen;
use crate::expression::{Expr, ExprType};
use crate::statement::{Stmt, StmtType};
use crate::value::{copy_type, ValueType};

verus! {

broadcast use vstd::map_lib::lemma_submap_of_trans;

/// The blocks a statement appends and where it leaves the builder: a branch
/// or a loop appends its three blocks first, in a fixed order and under fixed
/// names, and leaves the builder at the last of them; a simple statement
/// appends none and stays in the block it started in.
pub open spec fn stmt_shape(
    s: Stmt,
    n: int,
    cur: usize,
    blocks: Seq<BasicBlock>,
    current: usize,
) -> bool {
    match s.stmt {
        StmtType::If { .. } => blocks.len() >= n + 3 && blocks[n].name@ == "then"@
            && blocks[n + 1].name@ == "else"@ && blocks[n + 2].name@ == "if_end"@ && current == n
            + 2,
        StmtType::While { .. } => blocks.len() >= n + 3 && blocks[n].name@
            == "while_body"@ && blocks[n + 1].name@ == "while_condition"@ && blocks[n + 2].name@
            == "while_end"@ && current == n + 2,
        StmtType::For { .. } => blocks.len() >= n + 3 && blocks[n].name@ == "for_condition"@
            && blocks[n + 1].name@ == "for_body"@ && blocks[n + 2].name@ == "for_end"@ && current
            == n + 2,
        StmtType::Expr(_) | StmtType::VarDecl { .. } | StmtType::Println(_) | StmtType::Return(
            _,
        ) => blocks.len() == n && current == cur,
        _ => true,
    }
}

/// The end of the block a `for` loop's body ends in: the loop variable is
/// read from its slot `s`, increased by one and stored back, and the block
/// branches back to the condition block `cond_block`.
pub open spec fn for_step(instrs: Seq<Instr>, s: VarSlot, cond_block: int) -> bool {
    let k = instrs.len() - 5;
    &&& instrs.len() >= 5
    &&& instrs[k] matches Instr::Load { ty: IrType::Int, ptr, .. } && ptr == s.ptr
    &&& instrs[k + 1] matches Instr::ConstInt { ty: IrType::Int, bits, sign_extend, .. } && bits
        == 1 && !sign_extend
    &&& instrs[k + 2] matches Instr::Int { op: IntOp::Add, lhs, rhs, .. } && lhs
        == instrs[k]->Load_dst && rhs == instrs[k + 1]->ConstInt_dst
    &&& instrs[k + 3] == Instr::Store { ptr: s.ptr, value: instrs[k + 2]->Int_dst }
    &&& instrs[k + 4] == Instr::Br { target: cond_block as usize }
}

/// What a statement leaves in the blocks, read through the definitions
/// `defs`: a print ends the current block with a call of the printing
/// function for its value, a return with a return of its value, and a
/// declaration with a store of its value into the variable's new slot,
/// allocated in the entry block; a branch or a loop branches on a value that
/// computes its condition, and a `for` loop's body ends by stepping its
/// variable and branching back to the condition; an expression statement
/// computes its value, and an assignment ends by storing into the variable's
/// slot. `cur` is the block the statement began in, `n`
/// the number of blocks then, `slots` the variables' slots then and `slots2`
/// after.
pub open spec fn stmt_code(
    s: Stmt,
    cur: int,
    n: int,
    slots: Seq<Map<Seq<char>, VarSlot>>,
    blocks: Seq<BasicBlock>,
    defs: Map<usize, Instr>,
    slots2: Seq<Map<Seq<char>, VarSlot>>,
) -> bool {
    match s.stmt {
        StmtType::Println(e) => blocks[cur].instrs@.len() > 0 && (blocks[cur].instrs@.last() matches Instr::Call {
            dst: None,
            func,
            args,
            ..
        } && args@.len() == 1 && denotes(defs, args@[0], e, slots) && print_function(e.end_ty)
            == Some(func@)),
        StmtType::Return(e) => blocks[cur].instrs@.len() > 0 && (blocks[cur].instrs@.last() matches Instr::Ret {
            value: Some(v),
        } && denotes(defs, v, e, slots)),
        StmtType::VarDecl { name, value, ty } => blocks[cur].instrs@.len() > 0 && (
        blocks[cur].instrs@.last() matches Instr::Store { ptr, value: v } && denotes(
            defs,
            v,
            value,
            slots,
        ) && var_slot(slots2, name@) == Some(VarSlot { ptr, ty }) && slots2 == slots.drop_last().push(
            slots.last().insert(name@, VarSlot { ptr, ty }),
        ) && defs.contains_key(ptr) && (
        defs[ptr] matches Instr::Alloca { dst, ty: t, .. } && dst == ptr && lowered_type(ty)
            == Some(t)) && blocks[0].instrs@.contains(defs[ptr])),
        StmtType::For { var, condition, .. } => var.stmt matches StmtType::VarDecl {
            name: vname,
            ..
        } && (exists|c: usize, s: VarSlot|
            #![trigger blocks[n].instrs@.contains(
                Instr::CondBr { cond: c, then_block: (n + 1) as usize, else_block: (n + 2) as usize },
            ), s.ptr]
            blocks[n].instrs@.contains(
                Instr::CondBr { cond: c, then_block: (n + 1) as usize, else_block: (n + 2) as usize },
            ) && denotes(
                defs,
                c,
                condition,
                slots.drop_last().push(slots.last().insert(vname@, s)),
            )) && slots2.last().contains_key(vname@) && (exists|bc: int|
            0 <= bc < blocks.len() && for_step(
                #[trigger] blocks[bc].instrs@,
                slots2.last()[vname@],
                n,
            )),
        StmtType::If { condition, .. } => exists|c: usize|
            denotes(defs, c, condition, slots) && #[trigger] blocks[cur].instrs@.contains(
                Instr::CondBr { cond: c, then_block: n as usize, else_block: (n + 1) as usize },
            ),
        StmtType::While { condition, .. } => exists|c: usize|
            denotes(defs, c, condition, slots) && #[trigger] blocks[n + 1].instrs@.contains(
                Instr::CondBr { cond: c, then_block: n as usize, else_block: (n + 2) as usize },
            ),
        StmtType::Expr(e) => {
            &&& exists|v: usize| #[trigger] denotes(defs, v, e, slots)
            &&& e.expr matches ExprType::Assign { name, .. } ==> {
                &&& var_slot(slots, name@) matches Some(sl)
                &&& blocks[cur].instrs@.len() > 0
                &&& blocks[cur].instrs@.last() matches Instr::Store { ptr, .. }
                &&& ptr == sl.ptr
            }
        },
        _ => true,
    }
}

/// A call of the printing function for `e`'s type on a value that computes
/// `e`.
pub open spec fn prints(i: Instr, e: Expr, defs: Map<usize, Instr>, slots: Seq<Map<Seq<char>, VarSlot>>) -> bool {
    i matches Instr::Call { dst: None, func, args, .. } && args@.len() == 1 && denotes(
        defs,
        args@[0],
        e,
        slots,
    ) && print_function(e.end_ty) == Some(func@)
}

/// A return of a value that computes `e`.
pub open spec fn gives_back(i: Instr, e: Expr, defs: Map<usize, Instr>, slots: Seq<Map<Seq<char>, VarSlot>>) -> bool {
    i matches Instr::Ret { value: Some(v) } && denotes(defs, v, e, slots)
}

/// A store of a value that computes `value` into a slot allocated for type
/// `ty`.
pub open spec fn stores_new(
    i: Instr,
    value: Expr,
    ty: ValueType,
    defs: Map<usize, Instr>,
    slots: Seq<Map<Seq<char>, VarSlot>>,
) -> bool {
    i matches Instr::Store { ptr, value: v } && denotes(defs, v, value, slots) && defs.contains_key(
        ptr,
    ) && (defs[ptr] matches Instr::Alloca { dst, ty: t, .. } && dst == ptr && lowered_type(ty)
        == Some(t))
}

/// Where the code of the parts of a statement began, where the statement
/// itself does not fix it: the block, the number of blocks and the
/// variables' slots then, for a branch's alternative, a `for` loop's body
/// and each later statement of a block, with the same for the parts of the
/// part (`inner`) and of the statements before it (`rest`).
pub enum Placement {
    Nowhere,
    At {
        cur: int,
        n: int,
        slots: Seq<Map<Seq<char>, VarSlot>>,
        inner: Box<Placement>,
        rest: Box<Placement>,
    },
}

impl Placement {
    pub open spec fn cur(self) -> int {
        match self {
            Placement::At { cur, .. } => cur,
            Placement::Nowhere => 0,
        }
    }

    pub open spec fn n(self) -> int {
        match self {
            Placement::At { n, .. } => n,
            Placement::Nowhere => 0,
        }
    }

    pub open spec fn slots(self) -> Seq<Map<Seq<char>, VarSlot>> {
        match self {
            Placement::At { slots, .. } => slots,
            Placement::Nowhere => Seq::empty(),
        }
    }

    pub open spec fn inner(self) -> Placement {
        match self {
            Placement::At { inner, .. } => *inner,
            Placement::Nowhere => Placement::Nowhere,
        }
    }

    pub open spec fn rest(self) -> Placement {
        match self {
            Placement::At { rest, .. } => *rest,
            Placement::Nowhere => Placement::Nowhere,
        }
    }
}

/// The code a statement leaves in the blocks, stated so that code added
/// later cannot undo it: each instruction named stands at a fixed place in
/// its block. A print calls the printing function on a value that computes
/// its expression, a return returns such a value, a declaration stores one
/// into a slot allocated for its type, and an expression statement computes
/// its value, which an assignment stores into the variable's slot. A branch
/// tests its condition in the block it began in, and its body's code begins
/// in `then`, its alternative's in `else`; a `while` loop tests its
/// condition in `while_condition` and its body's code begins in
/// `while_body`; a `for` loop's body begins in `for_body`. A block's first
/// statement begins where the block began, in a scope of its own, and each
/// later one where `p` says. `cur` is the block the statement began in, `n`
/// the number of blocks then and `slots` the variables' slots then.
pub open spec fn emitted(
    s: Stmt,
    cur: int,
    n: int,
    slots: Seq<Map<Seq<char>, VarSlot>>,
    blocks: Seq<BasicBlock>,
    defs: Map<usize, Instr>,
    p: Placement,
) -> bool
    decreases s,
{
    match s.stmt {
        StmtType::Println(e) => 0 <= cur < blocks.len() && exists|k: int|
            0 <= k < blocks[cur].instrs@.len() && #[trigger] prints(blocks[cur].instrs@[k], e, defs, slots),
        StmtType::Return(e) => 0 <= cur < blocks.len() && exists|k: int|
            0 <= k < blocks[cur].instrs@.len() && #[trigger] gives_back(blocks[cur].instrs@[k], e, defs, slots),
        StmtType::VarDecl { value, ty, .. } => 0 <= cur < blocks.len() && exists|k: int|
            0 <= k < blocks[cur].instrs@.len() && #[trigger] stores_new(
                blocks[cur].instrs@[k],
                value,
                ty,
                defs,
                slots,
            ),
        StmtType::Expr(e) => 0 <= cur < blocks.len() && exists|v: usize|
            #[trigger] denotes(defs, v, e, slots) && (e.expr matches ExprType::Assign { name, .. }
                ==> (var_slot(slots, name@) matches Some(sl) && blocks[cur].instrs@.contains(
                Instr::Store { ptr: sl.ptr, value: v },
            ))),
        StmtType::If { condition, body, final_else } => {
            &&& 0 <= cur < blocks.len()
            &&& 0 <= n
            &&& blocks.len() >= n + 3
            &&& exists|c: usize|
                denotes(defs, c, condition, slots) && #[trigger] blocks[cur].instrs@.contains(
                    Instr::CondBr { cond: c, then_block: n as usize, else_block: (n + 1) as usize },
                )
            &&& emitted(*body, n, n + 3, slots, blocks, defs, p.inner())
            &&& final_else matches Some(e) ==> emitted(*e, n + 1, p.n(), p.slots(), blocks, defs, p.rest())
        },
        StmtType::While { condition, body } => {
            &&& 0 <= n
            &&& blocks.len() >= n + 3
            &&& exists|c: usize|
                denotes(defs, c, condition, slots) && #[trigger] blocks[n + 1].instrs@.contains(
                    Instr::CondBr { cond: c, then_block: n as usize, else_block: (n + 2) as usize },
                )
            &&& emitted(*body, n, n + 3, slots, blocks, defs, p.inner())
        },
        StmtType::For { body, .. } => {
            &&& 0 <= n
            &&& blocks.len() >= n + 3
            &&& emitted(*body, n + 1, n + 3, p.slots(), blocks, defs, p.inner())
        },
        StmtType::Block(stmts) => emitted_list(stmts@, cur, n, slots.push(Map::empty()), blocks, defs, p),
        _ => true,
    }
}

/// The code a list of statements leaves: the first begins at `cur`, with
/// `n` blocks and the slots `slots`, and each later one where `p` says.
pub open spec fn emitted_list(
    list: Seq<Stmt>,
    cur: int,
    n: int,
    slots: Seq<Map<Seq<char>, VarSlot>>,
    blocks: Seq<BasicBlock>,
    defs: Map<usize, Instr>,
    p: Placement,
) -> bool
    decreases list,
{
    if list.len() == 0 {
        true
    } else if list.len() == 1 {
        emitted(list[0], cur, n, slots, blocks, defs, p.inner())
    } else {
        &&& emitted_list(list.subrange(0, list.len() - 1), cur, n, slots, blocks, defs, p.rest())
        &&& emitted(list[list.len() - 1], p.cur(), p.n(), p.slots(), blocks, defs, p.inner())
    }
}

/// An instruction at a place in a block stays there as the blocks grow.
proof fn lemma_grows_at(b1: Seq<BasicBlock>, b2: Seq<BasicBlock>, cur: int, k: int)
    requires
        grows(b1, b2),
        0 <= cur < b1.len(),
        0 <= k < b1[cur].instrs@.len(),
    ensures
        cur < b2.len(),
        k < b2[cur].instrs@.len(),
        b2[cur].instrs@[k] == b1[cur].instrs@[k],
{
    assert(b2[cur].instrs@.subrange(0, b1[cur].instrs@.len() as int)[k] == b2[cur].instrs@[k]);
}

/// Code once left stays: adding instructions and blocks, and defining more
/// values, keeps what a statement left.
pub proof fn lemma_emitted_mono(
    s: Stmt,
    cur: int,
    n: int,
    slots: Seq<Map<Seq<char>, VarSlot>>,
    b1: Seq<BasicBlock>,
    d1: Map<usize, Instr>,
    b2: Seq<BasicBlock>,
    d2: Map<usize, Instr>,
    p: Placement,
)
    requires
        emitted(s, cur, n, slots, b1, d1, p),
        grows(b1, b2),
        d1.submap_of(d2),
    ensures
        emitted(s, cur, n, slots, b2, d2, p),
    decreases s,
{
    match s.stmt {
        StmtType::Println(e) => {
            let k = choose|k: int|
                0 <= k < b1[cur].instrs@.len() && #[trigger] prints(b1[cur].instrs@[k], e, d1, slots);
            lemma_grows_at(b1, b2, cur, k);
            let a = b1[cur].instrs@[k]->Call_args;
            lemma_denotes_mono(d1, d2, a@[0], e, slots);
            assert(prints(b2[cur].instrs@[k], e, d2, slots));
        },
        StmtType::Return(e) => {
            let k = choose|k: int|
                0 <= k < b1[cur].instrs@.len() && #[trigger] gives_back(b1[cur].instrs@[k], e, d1, slots);
            lemma_grows_at(b1, b2, cur, k);
            lemma_denotes_mono(d1, d2, b1[cur].instrs@[k]->Ret_value->0, e, slots);
            assert(gives_back(b2[cur].instrs@[k], e, d2, slots));
        },
        StmtType::VarDecl { value, ty, .. } => {
            let k = choose|k: int|
                0 <= k < b1[cur].instrs@.len() && #[trigger] stores_new(
                    b1[cur].instrs@[k],
                    value,
                    ty,
                    d1,
                    slots,
                );
            lemma_grows_at(b1, b2, cur, k);
            lemma_denotes_mono(d1, d2, b1[cur].instrs@[k]->Store_value, value, slots);
            let ptr = b1[cur].instrs@[k]->Store_ptr;
            assert(stores_new(b1[cur].instrs@[k], value, ty, d1, slots));
            assert(d1.dom().contains(ptr));
            assert(d2.dom().contains(ptr));
            assert(d2[ptr] == d1[ptr]);
            assert(stores_new(b2[cur].instrs@[k], value, ty, d2, slots));
        },
        StmtType::Expr(e) => {
            let v = choose|v: usize|
                #[trigger] denotes(d1, v, e, slots) && (e.expr matches ExprType::Assign { name, .. }
                    ==> (var_slot(slots, name@) matches Some(sl) && b1[cur].instrs@.contains(
                    Instr::Store { ptr: sl.ptr, value: v },
                )));
            lemma_denotes_mono(d1, d2, v, e, slots);
            if let ExprType::Assign { name, .. } = e.expr {
                let sl = var_slot(slots, name@)->0;
                lemma_grows_contains(b1, b2, cur, Instr::Store { ptr: sl.ptr, value: v });
            }
        },
        StmtType::If { condition, body, final_else } => {
            let c = choose|c: usize|
                denotes(d1, c, condition, slots) && #[trigger] b1[cur].instrs@.contains(
                    Instr::CondBr { cond: c, then_block: n as usize, else_block: (n + 1) as usize },
                );
            lemma_denotes_mono(d1, d2, c, condition, slots);
            lemma_grows_contains(b1, b2, cur, Instr::CondBr { cond: c, then_block: n as usize, else_block: (n + 1) as usize });
            lemma_emitted_mono(*body, n, n + 3, slots, b1, d1, b2, d2, p.inner());
            if let Some(e) = final_else {
                lemma_emitted_mono(*e, n + 1, p.n(), p.slots(), b1, d1, b2, d2, p.rest());
            }
        },
        StmtType::While { condition, body } => {
            let c = choose|c: usize|
                denotes(d1, c, condition, slots) && #[trigger] b1[n + 1].instrs@.contains(
                    Instr::CondBr { cond: c, then_block: n as usize, else_block: (n + 2) as usize },
                );
            lemma_denotes_mono(d1, d2, c, condition, slots);
            lemma_grows_contains(b1, b2, n + 1, Instr::CondBr { cond: c, then_block: n as usize, else_block: (n + 2) as usize });
            lemma_emitted_mono(*body, n, n + 3, slots, b1, d1, b2, d2, p.inner());
        },
        StmtType::For { body, .. } => {
            lemma_emitted_mono(*body, n + 1, n + 3, p.slots(), b1, d1, b2, d2, p.inner());
        },
        StmtType::Block(stmts) => {
            lemma_emitted_list_mono(stmts@, cur, n, slots.push(Map::empty()), b1, d1, b2, d2, p);
        },
        _ => {},
    }
}

/// Code once left stays, for a list of statements.
pub proof fn lemma_emitted_list_mono(
    list: Seq<Stmt>,
    cur: int,
    n: int,
    slots: Seq<Map<Seq<char>, VarSlot>>,
    b1: Seq<BasicBlock>,
    d1: Map<usize, Instr>,
    b2: Seq<BasicBlock>,
    d2: Map<usize, Instr>,
    p: Placement,
)
    requires
        emitted_list(list, cur, n, slots, b1, d1, p),
        grows(b1, b2),
        d1.submap_of(d2),
    ensures
        emitted_list(list, cur, n, slots, b2, d2, p),
    decreases list,
{
    if list.len() == 1 {
        lemma_emitted_mono(list[0], cur, n, slots, b1, d1, b2, d2, p.inner());
    } else if list.len() > 1 {
        lemma_emitted_list_mono(list.subrange(0, list.len() - 1), cur, n, slots, b1, d1, b2, d2, p.rest());
        lemma_emitted_mono(list[list.len() - 1], p.cur(), p.n(), p.slots(), b1, d1, b2, d2, p.inner());
    }
}

/// A prefix of a list of statements that lowers lowers too.
pub proof fn lemma_stmts_lower_prefix(
    list: Seq<Stmt>,
    i: int,
    scopes: Seq<Map<Seq<char>, crate::value::ValueType>>,
    rets: Map<Seq<char>, super::ir::RetType>,
)
    requires
        0 <= i <= list.len(),
        stmts_lower(list, scopes, rets),
    ensures
        stmts_lower(list.subrange(0, i), scopes, rets),
    decreases list.len(),
{
    if i == list.len() {
        assert(list.subrange(0, i) =~= list);
    } else {
        let t = list.subrange(0, list.len() - 1);
        lemma_stmts_lower_prefix(t, i, scopes, rets);
        assert(t.subrange(0, i) =~= list.subrange(0, i));
    }
}

impl CodeGen {
    /// Lowers a statement of a function body.
    pub fn emit_stmt(&self, b: &mut FnBuilder, stmt: &Stmt) -> (r: Result<(), CodegenError>)
        requires
            old(b).wf(),
            old(b).vars@.len() > 0,
        ensures
            final(b).wf(),
            grows(old(b).blocks@, final(b).blocks@),
            final(b).vars@.len() == old(b).vars@.len(),
            old(b).next_value <= final(b).next_value,
            r is Ok ==> stmt_lowers(*stmt, old(b).scopes(), self.rets()) && final(b).scopes()
                == scopes_after(*stmt, old(b).scopes()),
            stmt_lowers(*stmt, old(b).scopes(), self.rets()) ==> r is Ok,
            r is Ok ==> stmt_shape(*stmt, old(b).blocks@.len() as int, old(b).current, final(b).blocks@, final(b).current),
            r is Ok ==> nested(old(b).blocks@, old(b).current as int, final(b).blocks@, final(b).current as int),
            old(b).defs@.submap_of(final(b).defs@),
            r is Ok ==> stmt_code(
                *stmt,
                old(b).current as int,
                old(b).blocks@.len() as int,
                old(b).slots(),
                final(b).blocks@,
                final(b).defs@,
                final(b).slots(),
            ),
            r is Ok ==> exists|p: Placement|
                #[trigger] emitted(
                    *stmt,
                    old(b).current as int,
                    old(b).blocks@.len() as int,
                    old(b).slots(),
                    final(b).blocks@,
                    final(b).defs@,
                    p,
                ),
        decreases stmt, 1nat,
    {
        proof {
            lemma_grows_refl(b.blocks@);
        }
        match &stmt.stmt {
            StmtType::While { .. } => self.emit_while_stmt(b, stmt),
            StmtType::For { .. } => self.emit_for_stmt(b, stmt),
            StmtType::If { .. } => self.emit_if_stmt(b, stmt),
            StmtType::Block(_) => self.emit_block(b, stmt),
            StmtType::VarDecl { .. } => self.emit_var_decl(b, stmt),
            StmtType::Expr(e) => match self.emit_expr(b, e) {
                Ok((v, _)) => {
                    proof {
                        let c = old(b).current as int;
                        assert(b.blocks@[c].instrs@ == b.current_instrs());
                        if e.expr is Assign {
                            let name = e.expr->Assign_name;
                            let sl = var_slot(old(b).slots(), name@)->0;
                            assert(b.current_instrs()[b.current_instrs().len() - 1] == Instr::Store {
                                ptr: sl.ptr,
                                value: v,
                            });
                            assert(b.blocks@[c].instrs@.contains(Instr::Store { ptr: sl.ptr, value: v }));
                        }
                        assert(emitted(
                            *stmt,
                            c,
                            old(b).blocks@.len() as int,
                            old(b).slots(),
                            b.blocks@,
                            b.defs@,
                            Placement::Nowhere,
                        ));
                    }
                    Ok(())
                },
                Err(e) => Err(e),
            },
            StmtType::Println(e) => {
                let (v, _) = match self.emit_expr(b, e) {
                    Ok(vt) => vt,
                    Err(e) => return Err(e),
                };
                let f = match select_print(&e.end_ty) {
                    Some(f) => f,
                    None => return Err(CodegenError::UnsupportedPrint(copy_type(&e.end_ty))),
                };
                let mut args: Vec<usize> = Vec::new();
                args.push(v);
                let ghost mid = b.blocks@;
                b.push(
                    Instr::Call {
                        dst: None,
                        func: String::from_str(f),
                        args,
                        name: String::from_str("printtmp"),
                    },
                );
                proof {
                    lemma_grows_trans(old(b).blocks@, mid, b.blocks@);
                    let c = old(b).current as int;
                    let k = b.blocks@[c].instrs@.len() - 1;
                    assert(b.blocks@[c].instrs@ == b.current_instrs());
                    assert(prints(b.blocks@[c].instrs@[k], *e, b.defs@, old(b).slots()));
                    assert(emitted(
                        *stmt,
                        c,
                        old(b).blocks@.len() as int,
                        old(b).slots(),
                        b.blocks@,
                        b.defs@,
                        Placement::Nowhere,
                    ));
                }
                Ok(())
            },
            StmtType::Return(e) => {
                let (v, _) = match self.emit_expr(b, e) {
                    Ok(vt) => vt,
                    Err(e) => return Err(e),
                };
                let ghost mid = b.blocks@;
                b.push(Instr::Ret { value: Some(v) });
                proof {
                    lemma_grows_trans(old(b).blocks@, mid, b.blocks@);
                    let c = old(b).current as int;
                    let k = b.blocks@[c].instrs@.len() - 1;
                    assert(b.blocks@[c].instrs@ == b.current_instrs());
                    assert(gives_back(b.blocks@[c].instrs@[k], *e, b.defs@, old(b).slots()));
                    assert(emitted(
                        *stmt,
                        c,
                        old(b).blocks@.len() as int,
                        old(b).slots(),
                        b.blocks@,
                        b.defs@,
                        Placement::Nowhere,
                    ));
                }
                Ok(())
            },
            _ => Err(CodegenError::UnsupportedStatement),
        }
    }

    /// Lowers `let name: ty = value`: the variable's slot is allocated at the
    /// end of the entry block, and the variable is declared once its value
    /// is stored.
    fn emit_var_decl(&self, b: &mut FnBuilder, stmt: &Stmt) -> (r: Result<(), CodegenError>)
        requires
            old(b).wf(),
            old(b).vars@.len() > 0,
            stmt.stmt is VarDecl,
        ensures
            final(b).wf(),
            grows(old(b).blocks@, final(b).blocks@),
            final(b).vars@.len() == old(b).vars@.len(),
            old(b).next_value <= final(b).next_value,
            r is Ok ==> stmt_lowers(*stmt, old(b).scopes(), self.rets()) && final(b).scopes()
                == scopes_after(*stmt, old(b).scopes()),
            stmt_lowers(*stmt, old(b).scopes(), self.rets()) ==> r is Ok,
            r is Ok ==> stmt_shape(*stmt, old(b).blocks@.len() as int, old(b).current, final(b).blocks@, final(b).current),
            r is Ok ==> nested(old(b).blocks@, old(b).current as int, final(b).blocks@, final(b).current as int),
            old(b).defs@.submap_of(final(b).defs@),
            r is Ok ==> stmt_code(
                *stmt,
                old(b).current as int,
                old(b).blocks@.len() as int,
                old(b).slots(),
                final(b).blocks@,
                final(b).defs@,
                final(b).slots(),
            ),
            r is Ok ==> exists|p: Placement|
                #[trigger] emitted(
                    *stmt,
                    old(b).current as int,
                    old(b).blocks@.len() as int,
                    old(b).slots(),
                    final(b).blocks@,
                    final(b).defs@,
                    p,
                ),
        decreases stmt, 0nat,
    {
        proof {
            lemma_grows_refl(b.blocks@);
        }
        let (name, value, ty) = match &stmt.stmt {
            StmtType::VarDecl { name, value, ty } => (name, value, ty),
            _ => return Err(CodegenError::UnsupportedStatement),
        };
        let ir_ty = match to_llvm_type(ty) {
            Some(t) => t,
            None => return Err(CodegenError::UnsupportedType(copy_type(ty))),
        };
        let ptr = b.fresh_value();
        let ghost b0 = b.blocks@;
        let ghost d0 = b.defs@;
        let alloca = Instr::Alloca { dst: ptr, ty: ir_ty, name: name.clone() };
        let ghost def = alloca;
        b.push_to(0, alloca);
        let ghost b1 = b.blocks@;
        let ghost d1 = b.defs@;
        proof {
            assert(d1 == d0.insert(ptr, def));
            assert(d0.submap_of(d1));
            assert(b1[0].instrs@.last() == def);
            assert(b1[0].instrs@.contains(def));
        }
        let (v, _) = match self.emit_expr(b, value) {
            Ok(vt) => vt,
            Err(e) => {
                proof {
                    lemma_grows_trans(b0, b1, b.blocks@);
                }
                return Err(e);
            },
        };
        let ghost b2 = b.blocks@;
        let ghost d2 = b.defs@;
        b.push(Instr::Store { ptr, value: v });
        let ghost b3 = b.blocks@;
        proof {
            lemma_grows_trans(b0, b1, b2);
            lemma_grows_trans(b0, b2, b.blocks@);
            lemma_grows_trans(b1, b2, b.blocks@);
            lemma_grows_contains(b1, b.blocks@, 0, def);
            assert(d1.dom().contains(ptr));
            assert(b.defs@.dom().contains(ptr));
            assert(b.defs@[ptr] == def);
        }
        b.declare_var(name.clone(), ptr, copy_type(ty));
        proof {
            let c = old(b).current as int;
            let k = b3[c].instrs@.len() - 1;
            assert(b.blocks@ == b3);
            assert(b3[c].instrs@[k] == Instr::Store { ptr, value: v });
            lemma_denotes_mono(d2, b.defs@, v, *value, old(b).slots());
            assert(stores_new(b.blocks@[c].instrs@[k], *value, *ty, b.defs@, old(b).slots()));
            assert(emitted(
                *stmt,
                c,
                old(b).blocks@.len() as int,
                old(b).slots(),
                b.blocks@,
                b.defs@,
                Placement::Nowhere,
            ));
        }
        Ok(())
    }

    /// Lowers `if (condition) body else final_else`: the branches go to
    /// blocks `then` and `else`, which both continue at `if_end` unless they
    /// end otherwise.
    fn emit_if_stmt(&self, b: &mut FnBuilder, stmt: &Stmt) -> (r: Result<(), CodegenError>)
        requires
            old(b).wf(),
            old(b).vars@.len() > 0,
            stmt.stmt is If,
        ensures
            final(b).wf(),
            grows(old(b).blocks@, final(b).blocks@),
            final(b).vars@.len() == old(b).vars@.len(),
            old(b).next_value <= final(b).next_value,
            r is Ok ==> stmt_lowers(*stmt, old(b).scopes(), self.rets()) && final(b).scopes()
                == scopes_after(*stmt, old(b).scopes()),
            stmt_lowers(*stmt, old(b).scopes(), self.rets()) ==> r is Ok,
            r is Ok ==> stmt_shape(*stmt, old(b).blocks@.len() as int, old(b).current, final(b).blocks@, final(b).current),
            r is Ok ==> nested(old(b).blocks@, old(b).current as int, final(b).blocks@, final(b).current as int),
            old(b).defs@.submap_of(final(b).defs@),
            r is Ok ==> stmt_code(
                *stmt,
                old(b).current as int,
                old(b).blocks@.len() as int,
                old(b).slots(),
                final(b).blocks@,
                final(b).defs@,
                final(b).slots(),
            ),
            r is Ok ==> exists|p: Placement|
                #[trigger] emitted(
                    *stmt,
                    old(b).current as int,
                    old(b).blocks@.len() as int,
                    old(b).slots(),
                    final(b).blocks@,
                    final(b).defs@,
                    p,
                ),
        decreases stmt, 0nat,
    {
        proof {
            lemma_grows_refl(b.blocks@);
        }
        let (condition, body, final_else) = match &stmt.stmt {
            StmtType::If { condition, body, final_else } => (condition, body, final_else),
            _ => return Err(CodegenError::UnsupportedStatement),
        };
        let ghost sc = b.scopes();
        let ghost b0 = b.blocks@;
        let (c, ct) = match self.emit_expr(b, condition) {
            Ok(vt) => vt,
            Err(e) => return Err(e),
        };
        if !is_int_kind(ct) {
            return Err(CodegenError::TypeMismatch);
        }
        let ghost b1 = b.blocks@;
        let then_block = b.append_block("then");
        let ghost b2 = b.blocks@;
        let else_block = b.append_block("else");
        let ghost b3 = b.blocks@;
        let end_block = b.append_block("if_end");
        let ghost b4 = b.blocks@;
        let ghost slots = old(b).slots();
        let ghost dc = b.defs@;
        let br = Instr::CondBr { cond: c, then_block, else_block };
        let ghost branch = br;
        b.push(br);
        let ghost b5 = b.blocks@;
        proof {
            lemma_grows_trans(b0, b1, b2);
            lemma_grows_trans(b0, b2, b3);
            lemma_grows_trans(b0, b3, b4);
            lemma_grows_trans(b0, b4, b5);
            assert(b5[old(b).current as int].instrs@.last() == branch);
            assert(b5[old(b).current as int].instrs@.contains(branch));
        }
        b.position_at_end(then_block);
        let ghost then_slots = b.slots();
        match self.emit_stmt(b, body) {
            Ok(_) => {},
            Err(e) => {
                proof {
                    lemma_grows_trans(b0, b5, b.blocks@);
                }
                return Err(e);
            },
        }
        let ghost b6 = b.blocks@;
        let ghost d6 = b.defs@;
        proof {
            lemma_grows_trans(b0, b5, b6);
        }
        self.close_block(b, end_block);
        let ghost b7 = b.blocks@;
        proof {
            lemma_grows_trans(b0, b6, b7);
        }
        b.position_at_end(else_block);
        let ghost else_slots = b.slots();
        let ghost else_n = b.blocks@.len() as int;
        match final_else {
            Some(else_stmt) => {
                match self.emit_stmt(b, else_stmt) {
                    Ok(_) => {},
                    Err(e) => {
                        proof {
                            lemma_grows_trans(b0, b7, b.blocks@);
                        }
                        return Err(e);
                    },
                }
            },
            None => {
                proof {
                    lemma_grows_refl(b.blocks@);
                }
            },
        }
        let ghost b8 = b.blocks@;
        let ghost d8 = b.defs@;
        proof {
            lemma_grows_trans(b0, b7, b8);
        }
        self.close_block(b, end_block);
        proof {
            lemma_grows_trans(b0, b8, b.blocks@);
            lemma_grows_trans(b5, b6, b7);
            lemma_grows_trans(b5, b7, b8);
            lemma_grows_trans(b5, b8, b.blocks@);
            lemma_grows_contains(b5, b.blocks@, old(b).current as int, branch);
            lemma_denotes_mono(dc, b.defs@, c, *condition, slots);
            let n = b0.len() as int;
            assert(branch == Instr::CondBr {
                cond: c,
                then_block: n as usize,
                else_block: (n + 1) as usize,
            });
            assert(denotes(b.defs@, c, *condition, slots) && b.blocks@[old(b).current as int].instrs@.contains(
                Instr::CondBr { cond: c, then_block: n as usize, else_block: (n + 1) as usize },
            ));
            assert(then_slots == slots);
            let p1 = choose|p: Placement| #[trigger] emitted(**body, n, n + 3, slots, b6, d6, p);
            lemma_grows_trans(b6, b7, b8);
            lemma_grows_trans(b6, b8, b.blocks@);
            lemma_emitted_mono(**body, n, n + 3, slots, b6, d6, b.blocks@, b.defs@, p1);
            let p2 = if final_else is Some {
                let e = final_else->0;
                let q = choose|p: Placement| #[trigger] emitted(*e, n + 1, else_n, else_slots, b8, d8, p);
                lemma_emitted_mono(*e, n + 1, else_n, else_slots, b8, d8, b.blocks@, b.defs@, q);
                q
            } else {
                Placement::Nowhere
            };
            let pl = Placement::At {
                cur: n + 1,
                n: else_n,
                slots: else_slots,
                inner: Box::new(p1),
                rest: Box::new(p2),
            };
            assert(emitted(*stmt, old(b).current as int, n, slots, b.blocks@, b.defs@, pl));
        }
        b.position_at_end(end_block);
        Ok(())
    }

    /// Ends the current block with a jump to `target`, unless it already
    /// ends otherwise.
    fn close_block(&self, b: &mut FnBuilder, target: usize)
        requires
            old(b).wf(),
            target < old(b).blocks@.len(),
        ensures
            final(b).wf(),
            grows(old(b).blocks@, final(b).blocks@),
            final(b).blocks@.len() == old(b).blocks@.len(),
            final(b).current == old(b).current,
            final(b).next_value == old(b).next_value,
            final(b).vars == old(b).vars,
            closed(final(b).blocks@[final(b).current as int]),
            final(b).defs == old(b).defs,
            forall|c: int|
                0 <= c < old(b).blocks@.len() && c != old(b).current
                    ==> #[trigger] final(b).blocks@[c] == old(b).blocks@[c],
            old(b).current_instrs().len() > 0 && !is_terminator(old(b).current_instrs().last())
                ==> final(b).current_instrs() == old(b).current_instrs().push(
                Instr::Br { target },
            ),
    {
        if !b.is_terminated() {
            b.push(Instr::Br { target });
        } else {
            proof {
                lemma_grows_refl(b.blocks@);
            }
        }
    }

    /// Lowers `while (condition) body`: the condition is tested in block
    /// `while_condition`, the body runs in `while_body`, and the loop is
    /// left to `while_end`.
    fn emit_while_stmt(&self, b: &mut FnBuilder, stmt: &Stmt) -> (r: Result<(), CodegenError>)
        requires
            old(b).wf(),
            old(b).vars@.len() > 0,
            stmt.stmt is While,
        ensures
            final(b).wf(),
            grows(old(b).blocks@, final(b).blocks@),
            final(b).vars@.len() == old(b).vars@.len(),
            old(b).next_value <= final(b).next_value,
            r is Ok ==> stmt_lowers(*stmt, old(b).scopes(), self.rets()) && final(b).scopes()
                == scopes_after(*stmt, old(b).scopes()),
            stmt_lowers(*stmt, old(b).scopes(), self.rets()) ==> r is Ok,
            r is Ok ==> stmt_shape(*stmt, old(b).blocks@.len() as int, old(b).current, final(b).blocks@, final(b).current),
            r is Ok ==> nested(old(b).blocks@, old(b).current as int, final(b).blocks@, final(b).current as int),
            old(b).defs@.submap_of(final(b).defs@),
            r is Ok ==> stmt_code(
                *stmt,
                old(b).current as int,
                old(b).blocks@.len() as int,
                old(b).slots(),
                final(b).blocks@,
                final(b).defs@,
                final(b).slots(),
            ),
            r is Ok ==> exists|p: Placement|
                #[trigger] emitted(
                    *stmt,
                    old(b).current as int,
                    old(b).blocks@.len() as int,
                    old(b).slots(),
                    final(b).blocks@,
                    final(b).defs@,
                    p,
                ),
        decreases stmt, 0nat,
    {
        proof {
            lemma_grows_refl(b.blocks@);
        }
        let (condition, body) = match &stmt.stmt {
            StmtType::While { condition, body } => (condition, body),
            _ => return Err(CodegenError::UnsupportedStatement),
        };
        let ghost b0 = b.blocks@;
        let body_block = b.append_block("while_body");
        let ghost b1 = b.blocks@;
        let condition_block = b.append_block("while_condition");
        let ghost b2 = b.blocks@;
        let end_block = b.append_block("while_end");
        let ghost b3 = b.blocks@;
        b.push(Instr::Br { target: condition_block });
        let ghost b4 = b.blocks@;
        proof {
            lemma_grows_trans(b0, b1, b2);
            lemma_grows_trans(b0, b2, b3);
            lemma_grows_trans(b0, b3, b4);
        }
        b.position_at_end(condition_block);
        let (c, ct) = match self.emit_expr(b, condition) {
            Ok(vt) => vt,
            Err(e) => {
                proof {
                    lemma_grows_trans(b0, b4, b.blocks@);
                }
                return Err(e);
            },
        };
        let ghost b5 = b.blocks@;
        proof {
            lemma_grows_trans(b0, b4, b5);
        }
        if !is_int_kind(ct) {
            return Err(CodegenError::TypeMismatch);
        }
        let ghost slots = old(b).slots();
        let ghost dc = b.defs@;
        let br = Instr::CondBr { cond: c, then_block: body_block, else_block: end_block };
        let ghost branch = br;
        b.push(br);
        let ghost b6 = b.blocks@;
        proof {
            lemma_grows_trans(b0, b5, b6);
            assert(b6[condition_block as int].instrs@.last() == branch);
            assert(b6[condition_block as int].instrs@.contains(branch));
        }
        b.position_at_end(body_block);
        let ghost body_slots = b.slots();
        match self.emit_stmt(b, body) {
            Ok(_) => {},
            Err(e) => {
                proof {
                    lemma_grows_trans(b0, b6, b.blocks@);
                }
                return Err(e);
            },
        }
        let ghost b7 = b.blocks@;
        let ghost d7 = b.defs@;
        proof {
            lemma_grows_trans(b0, b6, b7);
        }
        self.close_block(b, condition_block);
        proof {
            lemma_grows_trans(b0, b7, b.blocks@);
            lemma_grows_trans(b6, b7, b.blocks@);
            lemma_grows_contains(b6, b.blocks@, condition_block as int, branch);
            lemma_denotes_mono(dc, b.defs@, c, *condition, slots);
            let n = b0.len() as int;
            assert(branch == Instr::CondBr {
                cond: c,
                then_block: n as usize,
                else_block: (n + 2) as usize,
            });
            assert(denotes(b.defs@, c, *condition, slots) && b.blocks@[n + 1].instrs@.contains(
                Instr::CondBr { cond: c, then_block: n as usize, else_block: (n + 2) as usize },
            ));
            assert(body_slots == slots);
            let p1 = choose|p: Placement| #[trigger] emitted(**body, n, n + 3, slots, b7, d7, p);
            lemma_emitted_mono(**body, n, n + 3, slots, b7, d7, b.blocks@, b.defs@, p1);
            let pl = Placement::At {
                cur: 0,
                n: 0,
                slots: Seq::empty(),
                inner: Box::new(p1),
                rest: Box::new(Placement::Nowhere),
            };
            assert(emitted(*stmt, old(b).current as int, n, slots, b.blocks@, b.defs@, pl));
        }
        b.position_at_end(end_block);
        Ok(())
    }

    /// Lowers `for (var; condition; step-free) body` as the parser builds it:
    /// the loop variable is declared in the enclosing scope, the condition is
    /// tested in `for_condition`, and after the body, in `for_body`, the
    /// variable is incremented by one.
    #[verifier::rlimit(40)]
    fn emit_for_stmt(&self, b: &mut FnBuilder, stmt: &Stmt) -> (r: Result<(), CodegenError>)
        requires
            old(b).wf(),
            old(b).vars@.len() > 0,
            stmt.stmt is For,
        ensures
            final(b).wf(),
            grows(old(b).blocks@, final(b).blocks@),
            final(b).vars@.len() == old(b).vars@.len(),
            old(b).next_value <= final(b).next_value,
            r is Ok ==> stmt_lowers(*stmt, old(b).scopes(), self.rets()) && final(b).scopes()
                == scopes_after(*stmt, old(b).scopes()),
            stmt_lowers(*stmt, old(b).scopes(), self.rets()) ==> r is Ok,
            r is Ok ==> stmt_shape(*stmt, old(b).blocks@.len() as int, old(b).current, final(b).blocks@, final(b).current),
            r is Ok ==> nested(old(b).blocks@, old(b).current as int, final(b).blocks@, final(b).current as int),
            old(b).defs@.submap_of(final(b).defs@),
            r is Ok ==> stmt_code(
                *stmt,
                old(b).current as int,
                old(b).blocks@.len() as int,
                old(b).slots(),
                final(b).blocks@,
                final(b).defs@,
                final(b).slots(),
            ),
            r is Ok ==> exists|p: Placement|
                #[trigger] emitted(
                    *stmt,
                    old(b).current as int,
                    old(b).blocks@.len() as int,
                    old(b).slots(),
                    final(b).blocks@,
                    final(b).defs@,
                    p,
                ),
        decreases stmt, 0nat,
    {
        proof {
            lemma_grows_refl(b.blocks@);
        }
        let (var, condition, body) = match &stmt.stmt {
            StmtType::For { var, condition, body } => (var, condition, body),
            _ => return Err(CodegenError::UnsupportedStatement),
        };
        let name = match &var.stmt {
            StmtType::VarDecl { name, .. } => name,
            _ => return Err(CodegenError::UnsupportedStatement),
        };
        let ghost sc = b.scopes();
        let ghost b0 = b.blocks@;
        match self.emit_stmt(b, var) {
            Ok(_) => {},
            Err(e) => return Err(e),
        }
        let ghost sc1 = b.scopes();
        let ghost b1 = b.blocks@;
        let ghost slots0 = old(b).slots();
        let ghost slots1 = b.slots();
        let ghost vslot = slots1.last()[name@];
        assert(slots1 == slots0.drop_last().push(slots0.last().insert(name@, vslot)));
        let condition_block = b.append_block("for_condition");
        let ghost b2 = b.blocks@;
        let body_block = b.append_block("for_body");
        let ghost b3 = b.blocks@;
        let end_block = b.append_block("for_end");
        let ghost b4 = b.blocks@;
        b.push(Instr::Br { target: condition_block });
        let ghost b5 = b.blocks@;
        proof {
            lemma_grows_trans(b0, b1, b2);
            lemma_grows_trans(b0, b2, b3);
            lemma_grows_trans(b0, b3, b4);
            lemma_grows_trans(b0, b4, b5);
        }
        b.position_at_end(condition_block);
        let (c, ct) = match self.emit_expr(b, condition) {
            Ok(vt) => vt,
            Err(e) => {
                proof {
                    lemma_grows_trans(b0, b5, b.blocks@);
                }
                return Err(e);
            },
        };
        let ghost b6 = b.blocks@;
        proof {
            lemma_grows_trans(b0, b5, b6);
        }
        if !is_int_kind(ct) {
            return Err(CodegenError::TypeMismatch);
        }
        let ghost d6 = b.defs@;
        let br = Instr::CondBr { cond: c, then_block: body_block, else_block: end_block };
        let ghost branch = br;
        b.push(br);
        let ghost b7 = b.blocks@;
        let ghost d7 = b.defs@;
        proof {
            lemma_grows_trans(b0, b6, b7);
            assert(d6.submap_of(d7));
            assert(b7[condition_block as int].instrs@.last() == branch);
            assert(b7[condition_block as int].instrs@.contains(branch));
        }
        b.position_at_end(body_block);
        let ghost body_slots = b.slots();
        match self.emit_stmt(b, body) {
            Ok(_) => {},
            Err(e) => {
                proof {
                    lemma_grows_trans(b0, b7, b.blocks@);
                }
                return Err(e);
            },
        }
        let ghost b8 = b.blocks@;
        let ghost d8 = b.defs@;
        proof {
            lemma_grows_trans(b0, b7, b8);
            assert(d7.submap_of(d8));
            lemma_scopes_after_shape(**body, sc1);
            assert(sc1.last().contains_key(name@));
        }
        let i_ptr = match b.find_innermost(name) {
            Some(slot) => slot.ptr,
            None => return Err(CodegenError::UndefinedVariable(name.clone())),
        };
        let x = b.fresh_value();
        b.push(Instr::Load { dst: x, ty: IrType::Int, ptr: i_ptr, name: String::from_str("load_i") });
        let ghost b9 = b.blocks@;
        let ghost d9 = b.defs@;
        proof {
            lemma_grows_trans(b0, b8, b9);
            assert(d8.submap_of(d9));
        }
        let one = b.fresh_value();
        b.push(Instr::ConstInt { dst: one, ty: IrType::Int, bits: 1, sign_extend: false });
        let ghost b10 = b.blocks@;
        let ghost d10 = b.defs@;
        proof {
            lemma_grows_trans(b0, b9, b10);
            assert(d9.submap_of(d10));
        }
        let sum = b.fresh_value();
        b.push(
            Instr::Int {
                dst: sum,
                op: IntOp::Add,
                lhs: x,
                rhs: one,
                name: String::from_str("add_i_tmp"),
            },
        );
        let ghost b11 = b.blocks@;
        let ghost d11 = b.defs@;
        proof {
            assert(d10.submap_of(d11));
        }
        b.push(Instr::Store { ptr: i_ptr, value: sum });
        let ghost b12 = b.blocks@;
        proof {
            assert(d11 == b.defs@);
            lemma_grows_trans(b0, b10, b11);
            lemma_grows_trans(b0, b11, b12);
        }
        self.close_block(b, condition_block);
        proof {
            lemma_grows_trans(b0, b12, b.blocks@);
            lemma_grows_trans(b7, b8, b9);
            lemma_grows_trans(b7, b9, b10);
            lemma_grows_trans(b7, b10, b11);
            lemma_grows_trans(b7, b11, b12);
            lemma_grows_trans(b7, b12, b.blocks@);
            lemma_grows_contains(b7, b.blocks@, condition_block as int, branch);
            assert(d6.submap_of(d8));
            assert(d8.submap_of(d11));
            assert(d6.submap_of(b.defs@));
            lemma_denotes_mono(d6, b.defs@, c, *condition, slots1);
            let bc = b.current as int;
            let instrs = b.blocks@[bc].instrs@;
            let k = instrs.len() - 5;
            assert(instrs[k] matches Instr::Load { ty: IrType::Int, ptr, .. } && ptr == i_ptr);
            assert(for_step(instrs, b.slots().last()[name@], old(b).blocks@.len() as int));
            let n = old(b).blocks@.len() as int;
            let p1 = choose|p: Placement| #[trigger] emitted(**body, n + 1, n + 3, body_slots, b8, d8, p);
            lemma_grows_trans(b8, b9, b10);
            lemma_grows_trans(b8, b10, b11);
            lemma_grows_trans(b8, b11, b12);
            lemma_grows_trans(b8, b12, b.blocks@);
            lemma_emitted_mono(**body, n + 1, n + 3, body_slots, b8, d8, b.blocks@, b.defs@, p1);
            let pl = Placement::At {
                cur: 0,
                n: 0,
                slots: body_slots,
                inner: Box::new(p1),
                rest: Box::new(Placement::Nowhere),
            };
            assert(emitted(*stmt, old(b).current as int, n, old(b).slots(), b.blocks@, b.defs@, pl));
        }
        b.position_at_end(end_block);
        Ok(())
    }

    /// Lowers a block: its statements in order, in a scope of their own.
    fn emit_block(&self, b: &mut FnBuilder, stmt: &Stmt) -> (r: Result<(), CodegenError>)
        requires
            old(b).wf(),
            old(b).vars@.len() > 0,
            stmt.stmt is Block,
        ensures
            final(b).wf(),
            grows(old(b).blocks@, final(b).blocks@),
            final(b).vars@.len() == old(b).vars@.len(),
            old(b).next_value <= final(b).next_value,
            r is Ok ==> stmt_lowers(*stmt, old(b).scopes(), self.rets()) && final(b).scopes()
                == scopes_after(*stmt, old(b).scopes()),
            stmt_lowers(*stmt, old(b).scopes(), self.rets()) ==> r is Ok,
            r is Ok ==> stmt_shape(*stmt, old(b).blocks@.len() as int, old(b).current, final(b).blocks@, final(b).current),
            r is Ok ==> nested(old(b).blocks@, old(b).current as int, final(b).blocks@, final(b).current as int),
            old(b).defs@.submap_of(final(b).defs@),
            r is Ok ==> stmt_code(
                *stmt,
                old(b).current as int,
                old(b).blocks@.len() as int,
                old(b).slots(),
                final(b).blocks@,
                final(b).defs@,
                final(b).slots(),
            ),
            r is Ok ==> exists|p: Placement|
                #[trigger] emitted(
                    *stmt,
                    old(b).current as int,
                    old(b).blocks@.len() as int,
                    old(b).slots(),
                    final(b).blocks@,
                    final(b).defs@,
                    p,
                ),
        decreases stmt, 0nat,
    {
        proof {
            lemma_grows_refl(b.blocks@);
        }
        let stmts = match &stmt.stmt {
            StmtType::Block(stmts) => stmts,
            _ => return Err(CodegenError::UnsupportedStatement),
        };
        let ghost sc = b.scopes();
        let ghost rets = self.rets();
        let ghost b0 = b.blocks@;
        let ghost n = b.vars@.len();
        b.push_scope();
        let ghost inner = sc.push(Map::empty());
        let ghost inner_slots = old(b).slots().push(Map::empty());
        let ghost mut pl = Placement::Nowhere;
        let mut i: usize = 0;
        while i < stmts.len()
            invariant
                inner_slots == old(b).slots().push(Map::empty()),
                i == 0 ==> b.blocks@ == b0 && b.current == old(b).current && b.slots() == inner_slots,
                emitted_list(
                    stmts@.subrange(0, i as int),
                    old(b).current as int,
                    b0.len() as int,
                    inner_slots,
                    b.blocks@,
                    b.defs@,
                    pl,
                ),
                b.wf(),
                i <= stmts@.len(),
                b.vars@.len() == n + 1,
                n == old(b).vars@.len(),
                n > 0,
                grows(b0, b.blocks@),
                b0 == old(b).blocks@,
                old(b).wf(),
                nested(b0, old(b).current as int, b.blocks@, b.current as int),
                old(b).defs@.submap_of(b.defs@),
                old(b).next_value <= b.next_value,
                sc == old(b).scopes(),
                inner == sc.push(Map::empty()),
                rets == self.rets(),
                b.scopes() == stmts_after(stmts@.subrange(0, i as int), inner),
                stmts_lower(stmts@.subrange(0, i as int), inner, rets),
                stmt.stmt matches StmtType::Block(s) && s == *stmts,
            decreases stmts@.len() - i,
        {
            proof {
                assert(decreases_to!(*stmt => stmt.stmt));
                assert(decreases_to!(stmt.stmt => *stmts));
                assert(decreases_to!(*stmts => stmts@));
                assert(decreases_to!(stmts@ => stmts@[i as int]));
                lemma_stmts_after_shape(stmts@.subrange(0, i as int), inner);
            }
            let ghost before = b.blocks@;
            let ghost before_defs = b.defs@;
            let ghost before_cur = b.current as int;
            let ghost before_slots = b.slots();
            let ghost pre = stmts@.subrange(0, i as int);
            match self.emit_stmt(b, &stmts[i]) {
                Ok(_) => {},
                Err(e) => {
                    proof {
                        lemma_grows_trans(b0, before, b.blocks@);
                        if stmts_lower(stmts@, inner, rets) {
                            lemma_stmts_lower_prefix(stmts@, i + 1, inner, rets);
                            let next = stmts@.subrange(0, i + 1);
                            assert(next.subrange(0, next.len() - 1) =~= pre);
                        }
                    }
                    b.pop_scope();
                    return Err(e);
                },
            }
            proof {
                lemma_grows_trans(b0, before, b.blocks@);
                lemma_nested_trans(b0, old(b).current as int, before, before_cur, b.blocks@, b.current as int);
                let next = stmts@.subrange(0, i + 1);
                assert(next.subrange(0, next.len() - 1) =~= pre);
                assert(next.drop_last() =~= pre);
                assert(next[next.len() - 1] == stmts@[i as int]);
                let q = choose|p: Placement|
                    #[trigger] emitted(
                        stmts@[i as int],
                        before_cur,
                        before.len() as int,
                        before_slots,
                        b.blocks@,
                        b.defs@,
                        p,
                    );
                lemma_emitted_list_mono(
                    pre,
                    old(b).current as int,
                    b0.len() as int,
                    inner_slots,
                    before,
                    before_defs,
                    b.blocks@,
                    b.defs@,
                    pl,
                );
                pl = Placement::At {
                    cur: before_cur,
                    n: before.len() as int,
                    slots: before_slots,
                    inner: Box::new(q),
                    rest: Box::new(pl),
                };
                assert(emitted_list(
                    next,
                    old(b).current as int,
                    b0.len() as int,
                    inner_slots,
                    b.blocks@,
                    b.defs@,
                    pl,
                ));
            }
            i += 1;
        }
        proof {
            assert(stmts@.subrange(0, i as int) =~= stmts@);
            lemma_stmts_after_shape(stmts@, inner);
        }
        b.pop_scope();
        proof {
            assert(emitted(
                *stmt,
                old(b).current as int,
                b0.len() as int,
                old(b).slots(),
                b.blocks@,
                b.defs@,
                pl,
            ));
        }
        Ok(())
    }
}

} // verus!
