use vstd::prelude::*;

use super::builder::{
    closed, defs_in, grows, lemma_grows_len, lemma_grows_refl, lemma_grows_trans, lemma_nested_trans,
    nested, CodegenError, FnBuilder, FnSig, VarSlot,
};
use super::ir::{BasicBlock, Instr, IrFunction, IrType, RetType};
use super::emit_stmt::{emitted, emitted_list, lemma_emitted_list_mono, lemma_stmts_lower_prefix, Placement};
use super::lowering::{lemma_stmts_after_shape, stmt_lowers, stmts_after, stmts_lower};
use super::select::{lowered_ret, lowered_type, ret_type, to_llvm_type};
use super::CodeGen;
use crate::analysis::name_table::NameTable;
use crate::analysis::types::{FuncData, UserTypes};
use crate::statement::Stmt;
use crate::value::{copy_type, ValueType};

verus! {

/// The signatures of the functions the runtime provides: each prints one
/// value and returns nothing.
pub open spec fn runtime_sig(name: Seq<char>) -> Option<(Seq<IrType>, RetType)> {
    if name == "print_i64"@ {
        Some((seq![IrType::Int], RetType::Void))
    } else if name == "print_u64"@ {
        Some((seq![IrType::Int], RetType::Void))
    } else if name == "print_f64"@ {
        Some((seq![IrType::Double], RetType::Void))
    } else if name == "print_str"@ {
        Some((seq![IrType::Ptr, IrType::Int], RetType::Void))
    } else {
        None
    }
}

/// Whether the parameter and return types of a function have machine types.
pub open spec fn sig_lowers(params: Seq<(ValueType, String)>, ret: ValueType) -> bool {
    &&& lowered_ret(ret) is Some
    &&& forall|k: int| 0 <= k < params.len() ==> (#[trigger] lowered_type(params[k].0)) is Some
}

/// The table has a function named `name`, and its signature has machine
/// types.
pub open spec fn entry_lowers(funcs: Map<Seq<char>, FuncData>, name: Seq<char>) -> bool {
    funcs.contains_key(name) && sig_lowers(funcs[name].parameters@, funcs[name].return_ty)
}

/// The machine types of a list of parameters.
pub open spec fn ir_params(params: Seq<(ValueType, String)>) -> Seq<IrType> {
    params.map_values(|p: (ValueType, String)| lowered_type(p.0)->0)
}

/// The signature the module gives the function `name`: the runtime's, or
/// else the program's own.
pub open spec fn declared_sig(funcs: Map<Seq<char>, FuncData>, name: Seq<char>) -> Option<
    (Seq<IrType>, RetType),
> {
    match runtime_sig(name) {
        Some(s) => Some(s),
        None => if funcs.contains_key(name) {
            Some((ir_params(funcs[name].parameters@), lowered_ret(funcs[name].return_ty)->0))
        } else {
            None
        },
    }
}

/// What each function of the module returns.
pub open spec fn module_rets(funcs: Map<Seq<char>, FuncData>) -> Map<Seq<char>, RetType> {
    Map::new(|k: Seq<char>| declared_sig(funcs, k) is Some, |k: Seq<char>| (declared_sig(funcs, k)->0).1)
}

/// The signatures of a table of functions are those the module gives.
pub open spec fn sigs_match(sigs: Map<Seq<char>, FnSig>, funcs: Map<Seq<char>, FuncData>) -> bool {
    forall|k: Seq<char>|
        #![trigger sigs.contains_key(k)]
        #![trigger declared_sig(funcs, k)]
        (sigs.contains_key(k) <==> declared_sig(funcs, k) is Some) && (sigs.contains_key(k) ==> (
        sigs[k].params@, sigs[k].ret) == declared_sig(funcs, k)->0)
}

/// The variables the parameters of a function declare: a later parameter
/// shadows an earlier one of the same name.
pub open spec fn params_scope(params: Seq<(ValueType, String)>) -> Map<Seq<char>, ValueType>
    decreases params.len(),
{
    if params.len() == 0 {
        Map::empty()
    } else {
        params_scope(params.drop_last()).insert(params.last().1@, params.last().0)
    }
}

/// Whether the body of the function `name` lowers: it reads no parameter
/// the module's signature lacks, and its statements lower in the scope of
/// its parameters.
pub open spec fn body_lowers(f: FuncData, name: Seq<char>, rets: Map<Seq<char>, RetType>) -> bool {
    &&& runtime_sig(name) matches Some(s) ==> f.parameters@.len() <= s.0.len()
    &&& stmts_lower(f.body@, seq![params_scope(f.parameters@)], rets)
}

/// The slots of a function's parameters, numbered from `n` on in order; a
/// later parameter of the same name hides an earlier one.
pub open spec fn param_slots(params: Seq<(ValueType, String)>, n: int) -> Map<Seq<char>, VarSlot>
    decreases params.len(),
{
    if params.len() == 0 {
        Map::empty()
    } else {
        param_slots(params.drop_last(), n).insert(
            params.last().1@,
            VarSlot { ptr: (n + params.len() - 1) as usize, ty: params.last().0 },
        )
    }
}

/// The code of a function body in its blocks: its statements, in the scope
/// of the parameters' slots, begin in the entry block and leave what each
/// leaves, read through instructions that stand in the blocks.
pub open spec fn body_code(
    blocks: Seq<BasicBlock>,
    params: Seq<(ValueType, String)>,
    n: int,
    body: Seq<Stmt>,
) -> bool {
    exists|defs: Map<usize, Instr>, p: Placement|
        defs_in(defs, blocks) && #[trigger] emitted_list(
            body,
            0,
            1,
            seq![param_slots(params, n)],
            blocks,
            defs,
            p,
        )
}

/// Whether a program's functions lower: their signatures and their bodies.
pub open spec fn program_lowers(funcs: Map<Seq<char>, FuncData>) -> bool {
    forall|k: Seq<char>|
        #[trigger] funcs.contains_key(k) ==> sig_lowers(funcs[k].parameters@, funcs[k].return_ty)
            && body_lowers(funcs[k], k, module_rets(funcs))
}

/// The functions of a lowered module are those the module declares, each
/// once and with its signature, and exactly the program's own have bodies:
/// each stores its parameters and holds the code of its statements.
pub open spec fn module_matches(fs: Seq<IrFunction>, funcs: Map<Seq<char>, FuncData>) -> bool {
    &&& fs.len() == module_rets(funcs).dom().len()
    &&& forall|k: int|
        #![trigger fs[k]]
        0 <= k < fs.len() ==> (declared_sig(funcs, fs[k].name@) matches Some(s) && fs[k].params@
            == s.0 && fs[k].ret == s.1 && (fs[k].blocks@.len() > 0 <==> funcs.contains_key(
            fs[k].name@,
        )) && body_closed(fs[k].blocks@) && (fs[k].blocks@.len() > 0 ==> params_stored(
            fs[k].blocks@[0].instrs@,
            funcs[fs[k].name@].parameters@,
            fs[k].params@.len() as int,
        ) && body_code(
            fs[k].blocks@,
            funcs[fs[k].name@].parameters@,
            fs[k].params@.len() as int,
            funcs[fs[k].name@].body@,
        )))
    &&& forall|j: int, k: int|
        0 <= j < fs.len() && 0 <= k < fs.len() && j != k ==> #[trigger] fs[j].name@
            != #[trigger] fs[k].name@
}

/// Every block of a function body but the entry ends in a terminator, and so
/// does the entry when it is the only block.
pub open spec fn body_closed(blocks: Seq<BasicBlock>) -> bool {
    &&& forall|k: int| 1 <= k < blocks.len() ==> #[trigger] closed(blocks[k])
    &&& blocks.len() == 1 ==> closed(blocks[0])
}

/// The entry block of a body begins by storing each parameter in a slot of
/// its own: for the `j`th parameter, a slot named after it and numbered
/// `n + j`, after the `n` values of the parameters, receives value `j`.
pub open spec fn params_stored(instrs: Seq<Instr>, params: Seq<(ValueType, String)>, n: int) -> bool {
    &&& instrs.len() >= 2 * params.len()
    &&& forall|j: int|
        #![trigger params[j]]
        0 <= j < params.len() ==> (instrs[2 * j] matches Instr::Alloca { dst, ty, name } && dst == n
            + j && lowered_type(params[j].0) == Some(ty) && name@ == params[j].1@) && instrs[2 * j
            + 1] == (Instr::Store { ptr: (n + j) as usize, value: j as usize })
}

/// Stored parameters stay stored as the entry block grows.
proof fn lemma_params_stored_prefix(
    a: Seq<Instr>,
    b: Seq<Instr>,
    params: Seq<(ValueType, String)>,
    n: int,
)
    requires
        params_stored(a, params, n),
        a.len() <= b.len(),
        b.subrange(0, a.len() as int) == a,
    ensures
        params_stored(b, params, n),
{
    assert forall|j: int| #![trigger params[j]] 0 <= j < params.len() implies (b[2 * j] matches Instr::Alloca {
        dst,
        ty,
        name,
    } && dst == n + j && lowered_type(params[j].0) == Some(ty) && name@ == params[j].1@) && b[2 * j
        + 1] == (Instr::Store { ptr: (n + j) as usize, value: j as usize }) by {
        assert(b.subrange(0, a.len() as int)[2 * j] == b[2 * j]);
        assert(b.subrange(0, a.len() as int)[2 * j + 1] == b[2 * j + 1]);
    }
}

/// The signature of a function with the given parameters and return type.
fn make_fn_type(ret: &ValueType, params: &Vec<(ValueType, String)>) -> (r: Result<
    FnSig,
    CodegenError,
>)
    ensures
        r matches Ok(sig) ==> sig_lowers(params@, *ret) && sig.params@ == ir_params(params@)
            && Some(sig.ret) == lowered_ret(*ret),
        r is Err ==> !sig_lowers(params@, *ret),
{
    let mut ps: Vec<IrType> = Vec::new();
    let mut i: usize = 0;
    while i < params.len()
        invariant
            i <= params@.len(),
            ps@.len() == i,
            forall|k: int| 0 <= k < i ==> (#[trigger] lowered_type(params@[k].0)) == Some(ps@[k]),
        decreases params@.len() - i,
    {
        match to_llvm_type(&params[i].0) {
            Some(t) => ps.push(t),
            None => return Err(CodegenError::UnsupportedType(copy_type(&params[i].0))),
        }
        i += 1;
    }
    assert(ps@ =~= ir_params(params@));
    match ret_type(ret) {
        Some(r) => Ok(FnSig { params: ps, ret: r }),
        None => Err(CodegenError::UnsupportedType(copy_type(ret))),
    }
}

/// A signature of the runtime: one parameter, or two.
fn runtime_fn(first: IrType, second: Option<IrType>) -> (r: FnSig)
    ensures
        r.params@ == match second {
            Some(t) => seq![first, t],
            None => seq![first],
        },
        r.ret == RetType::Void,
{
    let mut ps: Vec<IrType> = Vec::new();
    ps.push(first);
    match second {
        Some(t) => ps.push(t),
        None => {},
    }
    FnSig { params: ps, ret: RetType::Void }
}

/// A copy of a list of machine types.
fn copy_ir_types(v: &Vec<IrType>) -> (r: Vec<IrType>)
    ensures
        r@ == v@,
{
    let mut r: Vec<IrType> = Vec::new();
    let mut i: usize = 0;
    while i < v.len()
        invariant
            i <= v@.len(),
            r@ == v@.subrange(0, i as int),
        decreases v@.len() - i,
    {
        r.push(v[i]);
        i += 1;
        assert(r@ =~= v@.subrange(0, i as int));
    }
    assert(v@.subrange(0, i as int) =~= v@);
    r
}

impl CodeGen {
    /// Declares the runtime's functions, then each of the program's under
    /// the signature its types give, unless the module already has a
    /// function of that name.
    fn declare_funcs(&mut self) -> (r: Result<(), CodegenError>)
        requires
            old(self).sigs@ == Map::<Seq<char>, FnSig>::empty(),
        ensures
            final(self).user_types == old(self).user_types,
            r is Ok <==> forall|k: Seq<char>|
                #[trigger] old(self).user_types.funcs@.contains_key(k) ==> sig_lowers(
                    old(self).user_types.funcs@[k].parameters@,
                    old(self).user_types.funcs@[k].return_ty,
                ),
            r is Ok ==> sigs_match(final(self).sigs@, old(self).user_types.funcs@),
    {
        let ghost funcs = self.user_types.funcs@;
        let ghost names = self.user_types.funcs.names();
        self.sigs.insert(String::from_str("print_i64"), runtime_fn(IrType::Int, None));
        self.sigs.insert(String::from_str("print_u64"), runtime_fn(IrType::Int, None));
        self.sigs.insert(String::from_str("print_f64"), runtime_fn(IrType::Double, None));
        self.sigs.insert(
            String::from_str("print_str"),
            runtime_fn(IrType::Ptr, Some(IrType::Int)),
        );
        proof {
            reveal_strlit("print_i64");
            reveal_strlit("print_u64");
            reveal_strlit("print_f64");
            reveal_strlit("print_str");
            let (a, b, c, d) = ("print_i64"@, "print_u64"@, "print_f64"@, "print_str"@);
            assert(a[6] == 'i' && b[6] == 'u' && c[6] == 'f' && d[6] == 's');
            assert(names.subrange(0, 0) =~= Seq::<Seq<char>>::empty());
            assert forall|k: Seq<char>| #[trigger]
                self.sigs@.contains_key(k) implies (self.sigs@[k].params@, self.sigs@[k].ret)
                    == declared_sig(funcs, k)->0 && declared_sig(funcs, k) is Some by {
                if k == a {
                    assert(self.sigs@[k].params@ =~= seq![IrType::Int]);
                } else if k == b {
                    assert(self.sigs@[k].params@ =~= seq![IrType::Int]);
                } else if k == c {
                    assert(self.sigs@[k].params@ =~= seq![IrType::Double]);
                } else if k == d {
                    assert(self.sigs@[k].params@ =~= seq![IrType::Ptr, IrType::Int]);
                }
            }
        }
        let n = self.user_types.funcs.len();
        let mut i: usize = 0;
        while i < n
            invariant
                i <= n,
                n == names.len(),
                names == self.user_types.funcs.names(),
                self.user_types == old(self).user_types,
                funcs == self.user_types.funcs@,
                funcs.dom() == names.to_set(),
                forall|j: int| 0 <= j < i ==> #[trigger] entry_lowers(funcs, names[j]),
                forall|k: Seq<char>| #[trigger]
                    self.sigs@.contains_key(k) <==> (runtime_sig(k) is Some || names.subrange(
                        0,
                        i as int,
                    ).contains(k)),
                forall|k: Seq<char>|
                    #[trigger] self.sigs@.contains_key(k) ==> (self.sigs@[k].params@, self.sigs@[k].ret)
                        == declared_sig(funcs, k)->0 && declared_sig(funcs, k) is Some,
            decreases n - i,
        {
            let (name, data) = self.user_types.funcs.entry_at(i);
            let sig = match make_fn_type(&data.return_ty, &data.parameters) {
                Ok(sig) => sig,
                Err(e) => {
                    proof {
                        assert(funcs.contains_key(name@));
                    }
                    return Err(e);
                },
            };
            proof {
                assert(funcs.contains_key(names[i as int]));
                assert(sig_lowers(funcs[names[i as int]].parameters@, funcs[names[i as int]].return_ty));
            }
            let ghost old_sigs = self.sigs@;
            if !self.sigs.contains_key(name) {
                self.sigs.insert(name.clone(), sig);
            }
            proof {
                let nm = names[i as int];
                let s0 = names.subrange(0, i as int);
                let s1 = s0.push(nm);
                assert(names.subrange(0, i + 1) =~= s1);
                assert forall|k: Seq<char>| s1.contains(k) <==> (s0.contains(k) || k == nm) by {
                    if s1.contains(k) && k != nm {
                        let j = choose|j: int| #![trigger s1[j]] 0 <= j < s1.len() && s1[j] == k;
                        assert(s0[j] == k);
                    }
                    if s0.contains(k) {
                        let j = choose|j: int| #![trigger s0[j]] 0 <= j < s0.len() && s0[j] == k;
                        assert(s1[j] == k);
                    }
                    if k == nm {
                        assert(s1[i as int] == k);
                    }
                }
                assert forall|j: int| 0 <= j < i + 1 implies #[trigger] entry_lowers(funcs, names[j]) by {
                    if j == i {
                        assert(funcs.contains_key(names[i as int]));
                    }
                }
            }
            i += 1;
        }
        proof {
            assert(names.subrange(0, n as int) =~= names);
            assert forall|k: Seq<char>| #[trigger] funcs.contains_key(k) implies sig_lowers(
                funcs[k].parameters@,
                funcs[k].return_ty,
            ) by {
                assert(names.to_set().contains(k));
                let j = choose|j: int| 0 <= j < names.len() && names[j] == k;
                assert(entry_lowers(funcs, names[j]));
            }
            assert forall|k: Seq<char>|
                #![trigger self.sigs@.contains_key(k)]
                #![trigger declared_sig(funcs, k)]
                (self.sigs@.contains_key(k) <==> declared_sig(funcs, k) is Some) && (
                self.sigs@.contains_key(k) ==> (self.sigs@[k].params@, self.sigs@[k].ret)
                == declared_sig(funcs, k)->0) by {
                if declared_sig(funcs, k) is Some && runtime_sig(k) is None {
                    assert(funcs.contains_key(k));
                    assert(names.to_set().contains(k));
                }
            }
        }
        Ok(())
    }

    /// The functions of the module return what the program's declarations
    /// and the runtime say.
    proof fn lemma_rets(&self)
        requires
            sigs_match(self.sigs@, self.user_types.funcs@),
        ensures
            self.rets() == module_rets(self.user_types.funcs@),
    {
        let funcs = self.user_types.funcs@;
        assert forall|k: Seq<char>| #[trigger] self.rets().contains_key(k) <==> module_rets(
            funcs,
        ).contains_key(k) by {
            assert(self.sigs@.contains_key(k) <==> declared_sig(funcs, k) is Some);
        }
        assert forall|k: Seq<char>| #[trigger] self.rets().contains_key(k) implies self.rets()[k]
            == module_rets(funcs)[k] by {
            assert(self.sigs@.contains_key(k));
        }
        assert(self.rets() =~= module_rets(funcs));
    }

    /// Lowers the body of the function `name`: its parameters are stored in
    /// slots of the entry block, its statements follow in the scope of the
    /// parameters, and a block left open returns nothing.
    fn build_func_body(&self, name: &String, data: &FuncData) -> (r: Result<
        Vec<BasicBlock>,
        CodegenError,
    >)
        requires
            sigs_match(self.sigs@, self.user_types.funcs@),
            self.user_types.funcs@.contains_key(name@),
            self.user_types.funcs@[name@] == *data,
            sig_lowers(data.parameters@, data.return_ty),
        ensures
            r matches Ok(blocks) ==> blocks@.len() > 0 && body_lowers(*data, name@, self.rets())
                && body_closed(blocks@) && params_stored(
                blocks@[0].instrs@,
                data.parameters@,
                (declared_sig(self.user_types.funcs@, name@)->0).0.len() as int,
            ),
            r matches Ok(blocks) ==> body_code(
                blocks@,
                data.parameters@,
                (declared_sig(self.user_types.funcs@, name@)->0).0.len() as int,
                data.body@,
            ),
            body_lowers(*data, name@, self.rets()) ==> r is Ok,
    {
        let ghost funcs = self.user_types.funcs@;
        let n = match self.sigs.get(name) {
            Some(sig) => sig.params.len(),
            None => return Err(CodegenError::UndefinedFunction(name.clone())),
        };
        proof {
            assert(self.sigs@.contains_key(name@));
            let d = declared_sig(funcs, name@);
            if runtime_sig(name@) is None {
                assert((d->0).0 == ir_params(data.parameters@));
            }
        }
        let mut b = FnBuilder::new(n);
        b.push_scope();
        let ghost params = data.parameters@;
        proof {
            assert(params_stored(b.blocks@[0].instrs@, params.subrange(0, 0), n as int));
            assert(b.scopes() =~= seq![params_scope(params.subrange(0, 0))]);
            assert(b.slots() =~= seq![param_slots(params.subrange(0, 0), n as int)]);
        }
        let mut j: usize = 0;
        while j < data.parameters.len()
            invariant
                b.wf(),
                b.current == 0,
                b.blocks@.len() == 1,
                b.vars@.len() == 1,
                j <= params.len(),
                j <= n,
                params == data.parameters@,
                b.next_value == n + j,
                b.blocks@[0].instrs@.len() == 2 * j,
                params_stored(b.blocks@[0].instrs@, params.subrange(0, j as int), n as int),
                b.scopes() == seq![params_scope(params.subrange(0, j as int))],
                b.slots() == seq![param_slots(params.subrange(0, j as int), n as int)],
                forall|k: int| 0 <= k < params.len() ==> (#[trigger] lowered_type(params[k].0)) is Some,
                runtime_sig(name@) is None ==> n == params.len(),
                runtime_sig(name@) matches Some(s) ==> n == s.0.len(),
            decreases params.len() - j,
        {
            if j >= n {
                return Err(CodegenError::MissingParameter(name.clone()));
            }
            let (ty, pname) = (&data.parameters[j].0, &data.parameters[j].1);
            let ir_ty = match to_llvm_type(ty) {
                Some(t) => t,
                None => return Err(CodegenError::UnsupportedType(copy_type(ty))),
            };
            let ptr = b.fresh_value();
            let ghost i0 = b.blocks@[0].instrs@;
            let alloca = Instr::Alloca { dst: ptr, ty: ir_ty, name: pname.clone() };
            let ghost a = alloca;
            b.push_to(0, alloca);
            b.push(Instr::Store { ptr, value: j });
            proof {
                let i2 = b.blocks@[0].instrs@;
                assert(i2 == i0.push(a).push(Instr::Store { ptr, value: j }));
                let sub = params.subrange(0, j + 1);
                assert forall|k: int| #![trigger sub[k]] 0 <= k < sub.len() implies (i2[2 * k] matches Instr::Alloca {
                    dst,
                    ty,
                    name,
                } && dst == n + k && lowered_type(sub[k].0) == Some(ty) && name@ == sub[k].1@) && i2[2
                    * k + 1] == (Instr::Store { ptr: (n + k) as usize, value: k as usize }) by {
                    if k < j {
                        assert(sub[k] == params.subrange(0, j as int)[k]);
                        assert(i2[2 * k] == i0[2 * k]);
                        assert(i2[2 * k + 1] == i0[2 * k + 1]);
                    } else {
                        assert(sub[k] == params[j as int]);
                    }
                }
            }
            let ghost before = b.scopes();
            b.declare_var(pname.clone(), ptr, copy_type(ty));
            proof {
                let sub = params.subrange(0, j + 1);
                assert(sub.drop_last() =~= params.subrange(0, j as int));
                assert(sub.last() == params[j as int]);
                assert(b.scopes() =~= seq![params_scope(sub)]);
                assert(b.slots() =~= seq![param_slots(sub, n as int)]);
            }
            j += 1;
        }
        proof {
            assert(params.subrange(0, j as int) =~= params);
            self.lemma_rets();
        }
        let ghost sc = b.scopes();
        let ghost rets = self.rets();
        let ghost body = data.body@;
        let ghost b0 = b.blocks@;
        let ghost slots0 = b.slots();
        let ghost mut pl = Placement::Nowhere;
        assert(slots0 == seq![param_slots(data.parameters@, n as int)]);
        assert(b0.len() == 1 && b.current == 0);
        assert(params_stored(b0[0].instrs@, params, n as int));
        proof {
            lemma_grows_refl(b0);
        }
        assert(sc == seq![params_scope(data.parameters@)]);
        proof {
            assert(stmts_lower(body.subrange(0, 0), sc, rets));
            assert(body.subrange(0, 0) =~= Seq::<Stmt>::empty());
        }
        let mut i: usize = 0;
        while i < data.body.len()
            invariant
                b.wf(),
                b.vars@.len() == 1,
                i <= body.len(),
                body == data.body@,
                rets == self.rets(),
                b.scopes() == stmts_after(body.subrange(0, i as int), sc),
                stmts_lower(body.subrange(0, i as int), sc, rets),
                sc.len() == 1,
                sc == seq![params_scope(data.parameters@)],
                b0.len() == 1,
                b0.len() <= b.blocks@.len(),
                nested(b0, 0, b.blocks@, b.current as int),
                grows(b0, b.blocks@),
                i == 0 ==> b.blocks@ == b0 && b.current == 0 && b.slots() == slots0,
                emitted_list(body.subrange(0, i as int), 0, 1, slots0, b.blocks@, b.defs@, pl),
            decreases body.len() - i,
        {
            proof {
                lemma_stmts_after_shape(body.subrange(0, i as int), sc);
            }
            let ghost pre = body.subrange(0, i as int);
            let ghost before = b.blocks@;
            let ghost before_defs = b.defs@;
            let ghost before_slots = b.slots();
            let ghost before_cur = b.current as int;
            match self.emit_stmt(&mut b, &data.body[i]) {
                Ok(_) => {},
                Err(e) => {
                    proof {
                        if stmts_lower(body, sc, rets) {
                            lemma_stmts_lower_prefix(body, i + 1, sc, rets);
                            let next = body.subrange(0, i + 1);
                            assert(next.subrange(0, next.len() - 1) =~= pre);
                            assert(next[next.len() - 1] == body[i as int]);
                            assert(stmt_lowers(body[i as int], stmts_after(pre, sc), rets));
                        }
                    }
                    return Err(e);
                },
            }
            proof {
                lemma_grows_len(before, b.blocks@);
                lemma_grows_trans(b0, before, b.blocks@);
                lemma_nested_trans(b0, 0, before, before_cur, b.blocks@, b.current as int);
                let next = body.subrange(0, i + 1);
                assert(next.subrange(0, next.len() - 1) =~= pre);
                assert(next.drop_last() =~= pre);
                assert(next[next.len() - 1] == body[i as int]);
                let q = choose|p: Placement|
                    #[trigger] emitted(
                        body[i as int],
                        before_cur,
                        before.len() as int,
                        before_slots,
                        b.blocks@,
                        b.defs@,
                        p,
                    );
                lemma_emitted_list_mono(pre, 0, 1, slots0, before, before_defs, b.blocks@, b.defs@, pl);
                pl = Placement::At {
                    cur: before_cur,
                    n: before.len() as int,
                    slots: before_slots,
                    inner: Box::new(q),
                    rest: Box::new(pl),
                };
                assert(emitted_list(next, 0, 1, slots0, b.blocks@, b.defs@, pl));
            }
            i += 1;
        }
        proof {
            assert(body.subrange(0, i as int) =~= body);
        }
        b.pop_scope();
        let ghost cur = b.current as int;
        let ghost before_ret = b.blocks@;
        let ghost defs_ret = b.defs@;
        if !b.is_terminated() {
            b.push(Instr::Ret { value: None });
        } else {
            proof {
                lemma_grows_refl(b.blocks@);
            }
        }
        proof {
            lemma_grows_trans(b0, before_ret, b.blocks@);
            let f = b.blocks@[0].instrs@;
            lemma_params_stored_prefix(b0[0].instrs@, f, params, n as int);
            assert((declared_sig(self.user_types.funcs@, name@)->0).0.len() == n);
            let bl = b.blocks@;
            assert(closed(bl[cur]));
            assert forall|k: int| 1 <= k < bl.len() implies #[trigger] closed(bl[k]) by {
                if k != cur {
                    assert(bl[k] == b.blocks@[k]);
                }
            }
            lemma_emitted_list_mono(body, 0, 1, slots0, before_ret, defs_ret, bl, b.defs@, pl);
            assert(defs_in(b.defs@, bl));
            assert(emitted_list(body, 0, 1, seq![param_slots(params, n as int)], bl, b.defs@, pl));
        }
        Ok(b.blocks)
    }

    /// Lowers the body of each function of the program, in the order the
    /// functions were declared.
    fn build_func_bodies(&self) -> (r: Result<NameTable<Vec<BasicBlock>>, CodegenError>)
        requires
            sigs_match(self.sigs@, self.user_types.funcs@),
            forall|k: Seq<char>|
                #[trigger] self.user_types.funcs@.contains_key(k) ==> sig_lowers(
                    self.user_types.funcs@[k].parameters@,
                    self.user_types.funcs@[k].return_ty,
                ),
        ensures
            r matches Ok(bodies) ==> forall|k: Seq<char>|
                #[trigger] self.user_types.funcs@.contains_key(k) ==> body_lowers(
                    self.user_types.funcs@[k],
                    k,
                    self.rets(),
                ),
            r matches Ok(bodies) ==> forall|k: Seq<char>|
                #[trigger] bodies@.contains_key(k) <==> self.user_types.funcs@.contains_key(k),
            r matches Ok(bodies) ==> forall|k: Seq<char>|
                #[trigger] bodies@.contains_key(k) ==> bodies@[k]@.len() > 0 && body_closed(
                    bodies@[k]@,
                ) && params_stored(
                    bodies@[k]@[0].instrs@,
                    self.user_types.funcs@[k].parameters@,
                    (declared_sig(self.user_types.funcs@, k)->0).0.len() as int,
                ) && body_code(
                    bodies@[k]@,
                    self.user_types.funcs@[k].parameters@,
                    (declared_sig(self.user_types.funcs@, k)->0).0.len() as int,
                    self.user_types.funcs@[k].body@,
                ),
            (forall|k: Seq<char>|
                #[trigger] self.user_types.funcs@.contains_key(k) ==> body_lowers(
                    self.user_types.funcs@[k],
                    k,
                    self.rets(),
                )) ==> r is Ok,
    {
        let ghost funcs = self.user_types.funcs@;
        let ghost names = self.user_types.funcs.names();
        let n = self.user_types.funcs.len();
        let mut bodies: NameTable<Vec<BasicBlock>> = NameTable::new();
        let mut i: usize = 0;
        while i < n
            invariant
                i <= n,
                n == names.len(),
                names == self.user_types.funcs.names(),
                funcs == self.user_types.funcs@,
                funcs.dom() == names.to_set(),
                sigs_match(self.sigs@, self.user_types.funcs@),
                forall|k: Seq<char>|
                    #[trigger] funcs.contains_key(k) ==> sig_lowers(
                        funcs[k].parameters@,
                        funcs[k].return_ty,
                    ),
                forall|j: int| 0 <= j < i ==> #[trigger] funcs.contains_key(names[j]) && body_lowers(
                    funcs[names[j]],
                    names[j],
                    self.rets(),
                ),
                forall|k: Seq<char>| #[trigger]
                    bodies@.contains_key(k) <==> names.subrange(0, i as int).contains(k),
                forall|k: Seq<char>| #[trigger] bodies@.contains_key(k) ==> bodies@[k]@.len() > 0
                    && body_closed(bodies@[k]@) && params_stored(
                    bodies@[k]@[0].instrs@,
                    funcs[k].parameters@,
                    (declared_sig(funcs, k)->0).0.len() as int,
                ) && body_code(
                    bodies@[k]@,
                    funcs[k].parameters@,
                    (declared_sig(funcs, k)->0).0.len() as int,
                    funcs[k].body@,
                ),
            decreases n - i,
        {
            let (name, data) = self.user_types.funcs.entry_at(i);
            proof {
                assert(self.user_types.funcs@.contains_key(name@));
            }
            let blocks = match self.build_func_body(name, data) {
                Ok(bl) => bl,
                Err(e) => {
                    proof {
                        assert(funcs.contains_key(names[i as int]));
                    }
                    return Err(e);
                },
            };
            let ghost before = bodies@;
            bodies.insert(name.clone(), blocks);
            proof {
                let nm = names[i as int];
                let s0 = names.subrange(0, i as int);
                let s1 = s0.push(nm);
                assert(names.subrange(0, i + 1) =~= s1);
                assert forall|k: Seq<char>| s1.contains(k) <==> (s0.contains(k) || k == nm) by {
                    if s1.contains(k) && k != nm {
                        let j = choose|j: int| #![trigger s1[j]] 0 <= j < s1.len() && s1[j] == k;
                        assert(s0[j] == k);
                    }
                    if s0.contains(k) {
                        let j = choose|j: int| #![trigger s0[j]] 0 <= j < s0.len() && s0[j] == k;
                        assert(s1[j] == k);
                    }
                    if k == nm {
                        assert(s1[i as int] == k);
                    }
                }
                assert forall|j: int| 0 <= j < i + 1 implies #[trigger] funcs.contains_key(names[j])
                    && body_lowers(funcs[names[j]], names[j], self.rets()) by {
                    if j == i {
                        assert(funcs.contains_key(names[i as int]));
                    }
                }
                assert forall|k: Seq<char>| #[trigger] bodies@.contains_key(k) implies bodies@[k]@.len()
                    > 0 && body_closed(bodies@[k]@) && params_stored(
                    bodies@[k]@[0].instrs@,
                    funcs[k].parameters@,
                    (declared_sig(funcs, k)->0).0.len() as int,
                ) && body_code(
                    bodies@[k]@,
                    funcs[k].parameters@,
                    (declared_sig(funcs, k)->0).0.len() as int,
                    funcs[k].body@,
                ) by {
                    if k != nm {
                        assert(before.contains_key(k));
                    }
                }
            }
            i += 1;
        }
        proof {
            assert(names.subrange(0, n as int) =~= names);
            assert forall|k: Seq<char>| #[trigger] funcs.contains_key(k) implies body_lowers(
                funcs[k],
                k,
                self.rets(),
            ) by {
                assert(names.to_set().contains(k));
                let j = choose|j: int| 0 <= j < names.len() && names[j] == k;
                assert(funcs.contains_key(names[j]));
            }
            assert forall|k: Seq<char>| #[trigger]
                bodies@.contains_key(k) <==> funcs.contains_key(k) by {
                assert(funcs.contains_key(k) <==> names.to_set().contains(k));
            }
        }
        Ok(bodies)
    }

    /// Lowers an analysed program to a module: the runtime's functions and
    /// the program's, each declared once, with the program's bodies. The
    /// program must be one that lowers: a construct without a lowering has
    /// no code to give.
    pub fn compile(user_types: UserTypes) -> (r: Vec<IrFunction>)
        requires
            program_lowers(user_types.funcs@),
        ensures
            module_matches(r@, user_types.funcs@),
    {
        match Self::compile_checked(user_types) {
            Ok(fs) => fs,
            Err(_) => {
                proof {
                    assert(false);
                }
                Vec::new()
            },
        }
    }

    /// Lowers an analysed program to a module as `compile` does, or names
    /// the construct that has no lowering, exactly when the program does
    /// not lower.
    pub fn compile_checked(user_types: UserTypes) -> (r: Result<Vec<IrFunction>, CodegenError>)
        ensures
            r is Ok ==> program_lowers(user_types.funcs@),
            program_lowers(user_types.funcs@) ==> r is Ok,
            r matches Ok(fs) ==> module_matches(fs@, user_types.funcs@),
    {
        let ghost funcs = user_types.funcs@;
        let mut cg = CodeGen { user_types, sigs: NameTable::new() };
        match cg.declare_funcs() {
            Ok(_) => {},
            Err(e) => return Err(e),
        }
        proof {
            cg.lemma_rets();
        }
        let mut bodies = match cg.build_func_bodies() {
            Ok(bodies) => bodies,
            Err(e) => return Err(e),
        };
        let ghost all_bodies = bodies@;
        let n = cg.sigs.len();
        let ghost names = cg.sigs.names();
        let mut fs: Vec<IrFunction> = Vec::new();
        let mut i: usize = 0;
        while i < n
            invariant
                i <= n,
                n == names.len(),
                names == cg.sigs.names(),
                cg.sigs@.dom() == names.to_set(),
                sigs_match(cg.sigs@, funcs),
                fs@.len() == i,
                forall|k: Seq<char>| #[trigger]
                    all_bodies.contains_key(k) <==> funcs.contains_key(k),
                forall|k: Seq<char>| #[trigger] all_bodies.contains_key(k) ==> all_bodies[k]@.len() > 0
                    && body_closed(all_bodies[k]@) && params_stored(
                    all_bodies[k]@[0].instrs@,
                    funcs[k].parameters@,
                    (declared_sig(funcs, k)->0).0.len() as int,
                ) && body_code(
                    all_bodies[k]@,
                    funcs[k].parameters@,
                    (declared_sig(funcs, k)->0).0.len() as int,
                    funcs[k].body@,
                ),
                forall|j: int|
                    #![trigger names[j]]
                    i <= j < n ==> (bodies@.contains_key(names[j]) <==> all_bodies.contains_key(
                        names[j],
                    )) && (bodies@.contains_key(names[j]) ==> bodies@[names[j]]
                        == all_bodies[names[j]]),
                forall|k: int|
                    #![trigger fs@[k]]
                    0 <= k < i ==> fs@[k].name@ == names[k] && (declared_sig(funcs, fs@[k].name@) matches Some(s) && fs@[k].params@
                        == s.0 && fs@[k].ret == s.1 && (fs@[k].blocks@.len() > 0 <==> funcs.contains_key(
                        fs@[k].name@,
                    )) && body_closed(fs@[k].blocks@) && (fs@[k].blocks@.len() > 0 ==> params_stored(
                        fs@[k].blocks@[0].instrs@,
                        funcs[fs@[k].name@].parameters@,
                        fs@[k].params@.len() as int,
                    ) && body_code(
                        fs@[k].blocks@,
                        funcs[fs@[k].name@].parameters@,
                        fs@[k].params@.len() as int,
                        funcs[fs@[k].name@].body@,
                    ))),
                forall|j: int, k: int|
                    0 <= j < i && 0 <= k < i && j != k ==> #[trigger] names[j] != #[trigger] names[k],
            decreases n - i,
        {
            let (name, sig) = cg.sigs.entry_at(i);
            let ghost nm = name@;
            let blocks = match bodies.remove(name) {
                Some(bl) => bl,
                None => Vec::new(),
            };
            fs.push(
                IrFunction {
                    name: name.clone(),
                    params: copy_ir_types(&sig.params),
                    ret: sig.ret,
                    blocks,
                },
            );
            proof {
                assert(nm == names[i as int]);
                assert(cg.sigs@.contains_key(nm));
                assert forall|j: int| #![trigger names[j]] i + 1 <= j < n implies (bodies@.contains_key(names[j]) <==> all_bodies.contains_key(
                        names[j],
                    )) && (bodies@.contains_key(names[j]) ==> bodies@[names[j]]
                        == all_bodies[names[j]]) by {
                    assert(names[j] != names[i as int]);
                }
            }
            i += 1;
        }
        proof {
            let mr = module_rets(funcs);
            assert(mr.dom() =~= cg.sigs@.dom()) by {
                assert forall|k: Seq<char>| mr.dom().contains(k) <==> cg.sigs@.contains_key(k) by {
                    assert(cg.sigs@.contains_key(k) <==> declared_sig(funcs, k) is Some);
                }
            }
            assert forall|j: int, k: int|
                0 <= j < fs@.len() && 0 <= k < fs@.len() && j != k implies #[trigger] fs@[j].name@
                    != #[trigger] fs@[k].name@ by {
                assert(names[j] != names[k]);
            }
            assert forall|k: Seq<char>| #[trigger] funcs.contains_key(k) implies sig_lowers(
                funcs[k].parameters@,
                funcs[k].return_ty,
            ) && body_lowers(funcs[k], k, module_rets(funcs)) by {}
        }
        Ok(fs)
    }
}

} // verus!
