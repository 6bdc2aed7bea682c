use vstd::prelude::*;

pub mod analyse_expr;
pub mod analyse_stmt;
pub mod messages;
pub mod name_table;
pub mod rules;
pub mod types;

use crate::statement::{copy_params, copy_stmts, same_stmts, Stmt, StmtType};
use crate::value::{copy_type, ValueType};
use rules::{
    check_methods, check_program, check_stmt, check_stmts, declare_all, declare_one, decls_of,
    enums_view, func_head, func_heads, holds_func, lemma_stmt_frame, stmt_head, method_decl, method_decls, method_sigs, no_decls, same_error,
    sig_of, sigs_of, state_of, structs_view, top_state, Decls, StructView,
};
use types::{FuncData, SemErr, SemErrType, SemanticScope, StructData, Symbol, UserTypes};

verus! {

/// The methods of every struct declaration are function declarations, as
/// the parser makes them.
pub open spec fn methods_are_funcs(stmts: Seq<Stmt>) -> bool {
    forall|i: int|
        0 <= i < stmts.len() ==> ((#[trigger] stmts[i]).stmt matches StmtType::Struct {
            methods,
            ..
        } ==> forall|j: int| 0 <= j < methods@.len() ==> (#[trigger] methods@[j]).stmt is Func)
}

/// Some top-level statement declares a function named `name`.
pub open spec fn declares_func(stmts: Seq<Stmt>, name: Seq<char>) -> bool {
    exists|i: int|
        0 <= i < stmts.len() && ((#[trigger] stmts[i]).stmt matches StmtType::Func { name: n, .. }
            && n@ == name)
}

/// The kinds of top-level declarations that give a name.
#[derive(Debug, Clone, Copy, PartialEq, Eq, Structural)]
pub enum DeclKind {
    Func,
    Struct,
    Enum,
}

/// The kind and the name a statement declares, if it declares a function, a
/// struct or an enum.
pub open spec fn decl_of(s: Stmt) -> Option<(DeclKind, Seq<char>)> {
    match s.stmt {
        StmtType::Func { name, .. } => Some((DeclKind::Func, name@)),
        StmtType::Struct { name, .. } => Some((DeclKind::Struct, name@)),
        StmtType::Enum { name, .. } => Some((DeclKind::Enum, name@)),
        _ => None,
    }
}

/// Some statement declares `name` as a `kind`.
pub open spec fn declares(stmts: Seq<Stmt>, kind: DeclKind, name: Seq<char>) -> bool {
    exists|i: int| 0 <= i < stmts.len() && decl_of(#[trigger] stmts[i]) == Some((kind, name))
}

/// No name is declared twice as the same kind.
pub open spec fn distinct_decls(stmts: Seq<Stmt>) -> bool {
    forall|i: int, j: int|
        0 <= i < j < stmts.len() && (#[trigger] decl_of(stmts[i])) is Some ==> decl_of(stmts[i])
            != #[trigger] decl_of(stmts[j])
}

/// Every function declared among `stmts` has an entry under its name whose
/// parameters, return type, line and use of `self` are those it was
/// declared with.
pub open spec fn heads_recorded(stmts: Seq<Stmt>, funcs: Map<Seq<char>, FuncData>) -> bool {
    forall|k: int|
        0 <= k < stmts.len() ==> ((#[trigger] stmts[k]).stmt matches StmtType::Func { name, .. }
            ==> funcs.contains_key(name@) && func_head(funcs[name@]) == stmt_head(stmts[k]))
}

/// No top-level statement but a function declaration declares, at any
/// depth, a function named like one declared at the top: such a nested
/// declaration would replace that function's recorded body with its own.
pub open spec fn top_funcs_unshadowed(stmts: Seq<Stmt>) -> bool {
    forall|j: int, k: int|
        0 <= j < stmts.len() && 0 <= k < stmts.len() && !((#[trigger] stmts[k]).stmt is Func) ==> (
        (#[trigger] stmts[j]).stmt matches StmtType::Func { name, .. } ==> !holds_func(
            stmts[k],
            name@,
        ))
}

/// The body of every function declared among `stmts` is the body recorded in
/// the table under its name.
pub open spec fn bodies_recorded(stmts: Seq<Stmt>, funcs: Map<Seq<char>, FuncData>) -> bool {
    forall|k: int|
        0 <= k < stmts.len() ==> ((#[trigger] stmts[k]).stmt matches StmtType::Func {
            name,
            body,
            ..
        } ==> funcs.contains_key(name@) && same_stmts(funcs[name@].body, body))
}

/// The entry of a method as declaring its struct makes it: its name,
/// parameters, return type and use of `self` as written in `m`, on the line of
/// the struct `line`.
pub open spec fn method_head_ok(entry: (String, FuncData), m: Stmt, line: u32) -> bool {
    &&& m.stmt matches StmtType::Func { name, parameters, return_ty, use_self, .. }
    &&& entry.0 == name
    &&& entry.1.parameters@ == parameters@
    &&& entry.1.return_ty == return_ty
    &&& entry.1.use_self == use_self
    &&& entry.1.line == line
}

/// The entry of a method once its struct is checked: its head as written in
/// `before`, and the body of `after`, the method as checked.
pub open spec fn method_recorded(entry: (String, FuncData), before: Stmt, after: Stmt, line: u32) -> bool {
    &&& method_head_ok(entry, before, line)
    &&& after.stmt matches StmtType::Func { body, .. }
    &&& same_stmts(entry.1.body, body)
}

/// The table holds the struct that `before` declares, with an entry for each
/// of its methods in order, recorded from the method as written and as
/// checked in `after`.
pub open spec fn struct_recorded(structs: Map<Seq<char>, StructData>, before: Stmt, after: Stmt) -> bool {
    before.stmt matches StmtType::Struct { name, methods, .. } ==> {
        &&& after.stmt matches StmtType::Struct { methods: m2, .. }
        &&& structs.contains_key(name@)
        &&& structs[name@].methods@.len() == methods@.len()
        &&& m2@.len() == methods@.len()
        &&& forall|j: int|
            #![trigger structs[name@].methods@[j]]
            0 <= j < methods@.len() ==> method_recorded(
                structs[name@].methods@[j],
                methods@[j],
                m2@[j],
                before.line,
            )
    }
}

/// Whether the table of the given kind has an entry named `name`.
pub open spec fn table_has(ut: UserTypes, kind: DeclKind, name: Seq<char>) -> bool {
    match kind {
        DeclKind::Func => ut.funcs@.contains_key(name),
        DeclKind::Struct => ut.structs@.contains_key(name),
        DeclKind::Enum => ut.enums@.contains_key(name),
    }
}

/// The state of semantic analysis.
pub struct Analyser {
    pub user_types: UserTypes,
    pub symbols: SemanticScope,
    pub current_return_ty: Option<ValueType>,
    pub current_use_self: bool,
    pub return_stmt_found: bool,
    pub current_struct: Option<String>,
}

fn copy_func_data(d: &FuncData) -> (r: FuncData)
    ensures
        r.parameters@ == d.parameters@,
        same_stmts(r.body, d.body),
        r.return_ty == d.return_ty,
        r.line == d.line,
        r.use_self == d.use_self,
{
    FuncData {
        parameters: copy_params(&d.parameters),
        body: copy_stmts(&d.body),
        return_ty: copy_type(&d.return_ty),
        line: d.line,
        use_self: d.use_self,
    }
}

fn copy_methods(v: &Vec<(String, FuncData)>) -> (r: Vec<(String, FuncData)>)
    ensures
        r@.len() == v@.len(),
        forall|i: int| 0 <= i < v@.len() ==> (#[trigger] r@[i]).0 == v@[i].0,
        method_sigs(r@) == method_sigs(v@),
{
    let mut r: Vec<(String, FuncData)> = Vec::new();
    let mut i: usize = 0;
    while i < v.len()
        invariant
            i <= v@.len(),
            r@.len() == i,
            forall|k: int| 0 <= k < i ==> (#[trigger] r@[k]).0 == v@[k].0,
            forall|k: int| 0 <= k < i ==> sig_of((#[trigger] r@[k]).1) == sig_of(v@[k].1),
        decreases v@.len() - i,
    {
        r.push((v[i].0.clone(), copy_func_data(&v[i].1)));
        i += 1;
    }
    assert(method_sigs(r@) =~= method_sigs(v@));
    r
}

impl Analyser {
    fn new() -> (r: Self)
        ensures
            r.symbols@.len() == 1,
            r.symbols@ == seq![Map::<Seq<char>, Symbol>::empty()],
            !r.return_stmt_found,
            r.current_return_ty is None,
            r.current_struct is None,
            !r.current_use_self,
            r.user_types.funcs@ == Map::<Seq<char>, FuncData>::empty(),
            r.user_types.structs@ == Map::<Seq<char>, StructData>::empty(),
            r.user_types.enums@ == Map::<Seq<char>, Vec<String>>::empty(),
    {
        Analyser {
            symbols: SemanticScope::new(),
            current_return_ty: None,
            user_types: UserTypes::new(),
            current_struct: None,
            return_stmt_found: false,
            current_use_self: false,
        }
    }

    /// Checks a whole program: first the declarations of its functions,
    /// structs and enums, then every statement. Gives what the program
    /// defines, or the first error found.
    pub fn analyse_stmts(stmts: &mut Vec<Stmt>) -> (r: Result<UserTypes, SemErr>)
        requires
            methods_are_funcs(old(stmts)@),
        ensures
            !declares_func(old(stmts)@, "main"@) ==> r is Err,
            r matches Ok(ut) ==> ut.funcs@.contains_key("main"@),
            r matches Ok(ut) ==> forall|kind: DeclKind, k: Seq<char>|
                #[trigger] table_has(ut, kind, k) <==> declares(old(stmts)@, kind, k),
            r is Ok ==> distinct_decls(old(stmts)@),
            match check_program(*old(stmts)) {
                Ok(d) => r matches Ok(ut) && sigs_of(ut.funcs@) == d.funcs && structs_view(
                    ut.structs@,
                ) == d.structs && enums_view(ut.enums@) == d.enums,
                Err(err) => r matches Err(e) && e.line == err.line && same_error(e.ty, err.ty),
            },
            r matches Ok(ut) ==> heads_recorded(old(stmts)@, ut.funcs@),
            r matches Ok(ut) ==> forall|k: int|
                0 <= k < old(stmts)@.len() ==> #[trigger] struct_recorded(
                    ut.structs@,
                    old(stmts)@[k],
                    final(stmts)@[k],
                ),
            r matches Ok(ut) ==> (top_funcs_unshadowed(old(stmts)@) ==> bodies_recorded(
                final(stmts)@,
                ut.funcs@,
            )),
    {
        let ghost input = *stmts;
        let mut analyser = Analyser::new();
        analyser.init_type_data(stmts)?;
        let ghost orig = *stmts;
        let ghost structs0 = analyser.user_types.structs@;
        let ghost d = decls_of(analyser);
        proof {
            assert(state_of(analyser) =~= top_state(d, None));
        }
        assert(orig@.len() == stmts.len());
        let mut rest: Vec<Stmt> = Vec::new();
        std::mem::swap(&mut rest, stmts);
        let mut done: Vec<Stmt> = Vec::new();
        let mut i: usize = 0;
        while rest.len() > 0
            invariant
                analyser.symbols@.len() == 1,
                analyser.current_return_ty is None,
                analyser.user_types.funcs@.contains_key("main"@),
                forall|kind: DeclKind, k: Seq<char>|
                    #[trigger] table_has(analyser.user_types, kind, k) <==> declares(
                        input@,
                        kind,
                        k,
                    ),
                distinct_decls(input@),
                input == *old(stmts),
                declare_all(no_decls(), input@, 0) == Ok::<Decls, SemErr>(d),
                d.funcs.contains_key("main"@),
                decls_of(analyser).funcs == d.funcs,
                decls_of(analyser).structs == d.structs,
                decls_of(analyser).enums == d.enums,
                check_stmts(top_state(d, None), input, 0) == check_stmts(
                    state_of(analyser),
                    input,
                    i as int,
                ),
                orig@.len() == input@.len(),
                forall|k: int|
                    0 <= k < input@.len() ==> (#[trigger] orig@[k] == input@[k] || (
                    input@[k].stmt is Struct && orig@[k].stmt is Struct)),
                i + rest@.len() == orig@.len(),
                orig@.len() <= usize::MAX,
                rest@ == orig@.subrange(i as int, orig@.len() as int),
                heads_recorded(input@, analyser.user_types.funcs@),
                done@.len() == i,
                forall|k: int|
                    0 <= k < i ==> ((#[trigger] done@[k]).stmt is Func ==> decl_of(done@[k])
                        == decl_of(input@[k])),
                top_funcs_unshadowed(input@) ==> bodies_recorded(done@, analyser.user_types.funcs@),
                analyser.user_types.structs@ == structs0,
                forall|k: int| 0 <= k < i ==> (#[trigger] orig@[k]).stmt is Struct ==> done@[k] == orig@[k],
                forall|k: int|
                    0 <= k < input@.len() ==> #[trigger] struct_recorded(structs0, input@[k], orig@[k]),
            decreases rest@.len(),
        {
            let mut s = rest.remove(0);
            let ghost s0 = s;
            let ghost done0 = done@;
            let ghost funcs0 = analyser.user_types.funcs@;
            let ghost before = analyser.user_types;
            let ghost a0 = analyser;
            proof {
                assert(s == orig@[i as int]);
                assert(input@[i as int] == orig@[i as int] || (input@[i as int].stmt is Struct
                    && orig@[i as int].stmt is Struct));
                assert(check_stmt(state_of(a0), s) == check_stmt(state_of(a0), input@[i as int]));
                lemma_stmt_frame(state_of(a0), s);
            }
            analyser.analyse_stmt(&mut s)?;
            proof {
                assert forall|kind: DeclKind, k: Seq<char>| #[trigger] table_has(analyser.user_types, kind, k)
                    <==> table_has(before, kind, k) by {
                    match kind {
                        DeclKind::Func => {
                            assert(analyser.user_types.funcs@.dom().contains(k) == before.funcs@.dom().contains(k));
                        },
                        _ => {},
                    }
                }
            }
            proof {
                let funcs1 = analyser.user_types.funcs@;
                assert forall|k: int| 0 <= k < input@.len() implies ((#[trigger] input@[k]).stmt
                    matches StmtType::Func { name, .. } ==> funcs1.contains_key(name@) && func_head(
                    funcs1[name@],
                ) == stmt_head(input@[k])) by {
                    if let StmtType::Func { name, .. } = input@[k].stmt {
                        assert(funcs0.contains_key(name@));
                        assert(func_heads(funcs1)[name@] == func_heads(funcs0)[name@]);
                    }
                }
                if s.stmt is Func {
                    assert(s0.stmt is Func);
                    assert(s0 == input@[i as int]);
                }
                assert forall|k: int| 0 <= k < i + 1 implies (#[trigger] orig@[k]).stmt is Struct
                    ==> done0.push(s)[k] == orig@[k] by {
                    if k == i {
                        assert(orig@[k] == s0);
                    } else {
                        assert(done0.push(s)[k] == done0[k]);
                    }
                }
                if top_funcs_unshadowed(input@) {
                    let d1 = done0.push(s);
                    assert forall|k: int| 0 <= k < d1.len() implies ((#[trigger] d1[k]).stmt
                        matches StmtType::Func { name, body, .. } ==> funcs1.contains_key(name@)
                        && same_stmts(funcs1[name@].body, body)) by {
                        if k < i {
                            assert(d1[k] == done0[k]);
                            if let StmtType::Func { name, body, .. } = d1[k].stmt {
                                assert(decl_of(input@[k]) == Some((DeclKind::Func, name@)));
                                assert(funcs0.contains_key(name@));
                                assert(same_stmts(funcs0[name@].body, body));
                                if let StmtType::Func { name: m, .. } = s0.stmt {
                                    assert(s0 == input@[i as int]);
                                    assert(decl_of(input@[i as int]) == Some((DeclKind::Func, m@)));
                                    assert(m@ != name@);
                                    assert(funcs1[name@] == funcs0[name@]);
                                } else {
                                    assert(input@[k] == orig@[k] || (input@[k].stmt is Struct
                                        && orig@[k].stmt is Struct));
                                    if input@[i as int].stmt is Struct {
                                        assert(s0.stmt is Struct);
                                        assert(!holds_func(s0, name@));
                                    } else {
                                        assert(s0 == input@[i as int]);
                                        assert(!(input@[i as int].stmt is Func));
                                        assert(input@[k].stmt matches StmtType::Func { name: m, .. } && m@ == name@);
                                        assert(!holds_func(input@[i as int], name@));
                                    }
                                    assert(funcs1[name@] == funcs0[name@]);
                                }
                            }
                        } else {
                            assert(d1[k] == s);
                            if let StmtType::Func { name, .. } = s.stmt {
                                if let StmtType::Func { name: m, .. } = s0.stmt {
                                    assert(m == name);
                                    assert(funcs0.contains_key(m@));
                                }
                            }
                        }
                    }
                }
            }
            done.push(s);
            i += 1;
            assert(rest@ == orig@.subrange(i as int, orig@.len() as int));
        }
        *stmts = done;
        proof {
            assert forall|k: int| 0 <= k < input@.len() implies #[trigger] struct_recorded(
                analyser.user_types.structs@,
                input@[k],
                stmts@[k],
            ) by {
                assert(struct_recorded(structs0, input@[k], orig@[k]));
                if input@[k].stmt is Struct {
                    assert(orig@[k].stmt is Struct);
                    assert(stmts@[k] == orig@[k]);
                }
            }
        }
        Ok(analyser.user_types)
    }

    /// Records what one top-level statement declares: an enum, a function, or
    /// a struct, whose methods are checked.
    fn declare_type_data(&mut self, stmt: &mut Stmt) -> (r: Result<(), SemErr>)
        requires
            old(self).symbols@ == seq![Map::<Seq<char>, Symbol>::empty()],
            old(self).current_return_ty is None,
            old(self).current_struct is None,
            !old(self).current_use_self,
            old(stmt).stmt matches StmtType::Struct { methods, .. } ==> forall|j: int|
                0 <= j < methods@.len() ==> (#[trigger] methods@[j]).stmt is Func,
        ensures
            r is Ok ==> final(self).symbols@ == seq![Map::<Seq<char>, Symbol>::empty()],
            r is Ok ==> final(self).current_return_ty is None,
            r is Ok ==> final(self).current_struct is None,
            r is Ok ==> !final(self).current_use_self,
            r is Ok ==> forall|kind: DeclKind, k: Seq<char>|
                #[trigger] table_has(final(self).user_types, kind, k) <==> (table_has(
                    old(self).user_types,
                    kind,
                    k,
                ) || decl_of(*old(stmt)) == Some((kind, k))),
            decl_of(*old(stmt)) matches Some((kind, n)) && table_has(old(self).user_types, kind, n)
                ==> r is Err,
            r is Ok ==> (*final(stmt) == *old(stmt) || (old(stmt).stmt is Struct
                && final(stmt).stmt is Struct)),
            match declare_one(decls_of(*old(self)), *old(stmt)) {
                Ok(d) => r is Ok && decls_of(*final(self)) == d,
                Err(err) => r matches Err(e) && e.line == err.line && same_error(e.ty, err.ty),
            },
            r is Ok ==> (old(stmt).stmt matches StmtType::Func { name, .. } ==> (final(self).user_types.funcs@.contains_key(name@)
                && func_head(final(self).user_types.funcs@[name@]) == stmt_head(*old(stmt))
                && forall|k: Seq<char>|
                k != name@ && old(self).user_types.funcs@.contains_key(k) ==> #[trigger] func_head(
                    final(self).user_types.funcs@[k],
                ) == func_head(old(self).user_types.funcs@[k]))),
            r is Ok ==> (!(old(stmt).stmt is Func) ==> func_heads(final(self).user_types.funcs@)
                == func_heads(old(self).user_types.funcs@)),
            r is Ok ==> struct_recorded(final(self).user_types.structs@, *old(stmt), *final(stmt)),
            r is Ok ==> (old(stmt).stmt matches StmtType::Struct { name, .. } ==> forall|k: Seq<char>|
                k != name@ && old(self).user_types.structs@.contains_key(k) ==> #[trigger] final(self).user_types.structs@[k] == old(self).user_types.structs@[k]),
            r is Ok ==> (!(old(stmt).stmt is Struct) ==> final(self).user_types.structs@ == old(
                self,
            ).user_types.structs@),
    {
        let ghost ut0 = self.user_types;
        let ghost d0 = decls_of(*self);
        let line = stmt.get_line();
        match &mut stmt.stmt {
            StmtType::Enum { name, variants } => {
                let copied = crate::statement::copy_names(variants);
                let ghost vs = copied@;
                if self.user_types.enums.insert(name.clone(), copied).is_some() {
                    let err_ty = SemErrType::AlreadyDefinedEnum(name.clone());
                    return Err(SemErr::new(line, err_ty));
                }
                proof {
                    let ut = self.user_types;
                    assert forall|kind: DeclKind, k: Seq<char>| #[trigger] table_has(ut, kind, k) <==> (
                        table_has(ut0, kind, k) || decl_of(*old(stmt)) == Some((kind, k))) by {
                        match kind {
                            DeclKind::Enum => {},
                            _ => {},
                        }
                    }
                    assert(enums_view(ut.enums@) =~= d0.enums.insert(name@, vs));
                    assert(decls_of(*self) =~= Decls {
                        funcs: d0.funcs,
                        structs: d0.structs,
                        enums: d0.enums.insert(name@, vs),
                        return_found: d0.return_found,
                    });
                }
            },
            StmtType::Func { name, parameters, body: _, return_ty, use_self } => {
                let func_data = FuncData {
                    parameters: copy_params(parameters),
                    body: Vec::new(),
                    return_ty: copy_type(return_ty),
                    line,
                    use_self: *use_self,
                };
                let ghost sig = sig_of(func_data);
                if self.user_types.funcs.insert(name.clone(), func_data).is_some() {
                    let err_ty = SemErrType::AlreadyDefinedFunc(name.clone());
                    return Err(SemErr::new(line, err_ty));
                }
                proof {
                    let ut = self.user_types;
                    assert forall|kind: DeclKind, k: Seq<char>| #[trigger] table_has(ut, kind, k) <==> (
                        table_has(ut0, kind, k) || decl_of(*old(stmt)) == Some((kind, k))) by {
                        match kind {
                            DeclKind::Func => {},
                            _ => {},
                        }
                    }
                    assert(sigs_of(ut.funcs@) =~= d0.funcs.insert(name@, sig));
                    assert(decls_of(*self) =~= Decls {
                        funcs: d0.funcs.insert(name@, sig),
                        structs: d0.structs,
                        enums: d0.enums,
                        return_found: d0.return_found,
                    });
                }
            },
            StmtType::Struct { name, fields, methods } => {
                if self.current_struct.is_some() {
                    let ty = SemErrType::StructDefInFunc(name.clone());
                    return Err(SemErr::new(line, ty));
                }
                let ghost nm = name@;
                assert(decl_of(*old(stmt)) == Some((DeclKind::Struct, nm)));
                self.current_struct = Some(name.clone());
                let struct_data = StructData::new(copy_params(fields));
                if self.user_types.structs.insert(name.clone(), struct_data).is_some() {
                    let err_ty = SemErrType::AlreadyDefinedStruct(name.clone());
                    return Err(SemErr::new(line, err_ty));
                }
                let ghost struct_names = self.user_types.structs@.dom();
                assert(struct_names == ut0.structs@.dom().insert(nm));
                let ghost orig = *methods;
                let mut method_data: Vec<(String, FuncData)> = Vec::new();
                let mut j: usize = 0;
                while j < methods.len()
                    invariant
                        j <= methods@.len(),
                        *methods == orig,
                        method_data@.len() == j,
                        forall|m: int| 0 <= m < methods@.len() ==> (#[trigger] methods@[m]).stmt is Func,
                        forall|m: int|
                            0 <= m < j ==> (#[trigger] method_data@[m]).0 == method_decl(
                                methods@[m],
                            ).0 && sig_of(method_data@[m].1) == method_decl(methods@[m]).1,
                        forall|m: int| 0 <= m < j ==> #[trigger] method_head_ok(method_data@[m], methods@[m], line),
                        line == old(stmt).line,
                    decreases methods@.len() - j,
                {
                    match &methods[j].stmt {
                        StmtType::Func { name, parameters, body: _, return_ty, use_self } => {
                            let func_data = FuncData {
                                parameters: copy_params(parameters),
                                body: Vec::new(),
                                return_ty: copy_type(return_ty),
                                line,
                                use_self: *use_self,
                            };
                            method_data.push((name.clone(), func_data));
                        },
                        _ => {
                            proof {
                                assert(methods@[j as int].stmt is Func);
                            }
                        },
                    }
                    j += 1;
                }
                let ghost view = StructView { fields: fields@, methods: method_decls(orig@) };
                let ghost d2 = Decls {
                    funcs: d0.funcs,
                    structs: d0.structs.insert(nm, view),
                    enums: d0.enums,
                    return_found: d0.return_found,
                };
                assert(method_sigs(method_data@) =~= method_decls(orig@));
                self.set_methods(name, copy_methods(&method_data));
                proof {
                    assert(structs_view(self.user_types.structs@) =~= d0.structs.insert(nm, view));
                    assert(decls_of(*self) =~= d2);
                }
                assert(orig@.len() == methods.len());
                assert(declare_one(decls_of(*old(self)), *old(stmt)) == check_methods(
                    d2,
                    *name,
                    orig,
                    0,
                ));
                let mut rest: Vec<Stmt> = Vec::new();
                std::mem::swap(&mut rest, methods);
                let mut done: Vec<Stmt> = Vec::new();
                let mut i: usize = 0;
                let ghost mid_structs = self.user_types.structs@;
                while rest.len() > 0
                    invariant
                        self.symbols@ == seq![Map::<Seq<char>, Symbol>::empty()],
                        self.current_return_ty is None,
                        self.current_struct == Some(*name),
                        !self.current_use_self,
                        self.user_types.funcs@.dom() == old(self).user_types.funcs@.dom(),
                        self.user_types.structs@.dom() == struct_names,
                        self.user_types.structs@.contains_key(nm),
                        self.user_types.enums@ == ut0.enums@,
                        nm == name@,
                        decls_of(*self).funcs == d2.funcs,
                        decls_of(*self).structs == d2.structs,
                        decls_of(*self).enums == d2.enums,
                        declare_one(decls_of(*old(self)), *old(stmt)) == check_methods(
                            d2,
                            *name,
                            orig,
                            0,
                        ),
                        check_methods(d2, *name, orig, 0) == check_methods(
                            decls_of(*self),
                            *name,
                            orig,
                            i as int,
                        ),
                        forall|m: int| 0 <= m < orig@.len() ==> (#[trigger] orig@[m]).stmt is Func,
                        method_data@.len() == orig@.len(),
                        method_sigs(method_data@) == method_decls(orig@),
                        func_heads(self.user_types.funcs@) == func_heads(ut0.funcs@),
                        self.user_types.structs@ == mid_structs,
                        done@.len() == i,
                        forall|m: int|
                            0 <= m < i ==> #[trigger] method_recorded(
                                method_data@[m],
                                orig@[m],
                                done@[m],
                                line,
                            ),
                        forall|m: int|
                            i <= m < orig@.len() ==> #[trigger] method_head_ok(
                                method_data@[m],
                                orig@[m],
                                line,
                            ),
                        line == old(stmt).line,
                        i + rest@.len() == orig@.len(),
                        orig@.len() <= usize::MAX,
                        rest@ == orig@.subrange(i as int, orig@.len() as int),
                    decreases rest@.len(),
                {
                    let mut method = rest.remove(0);
                    assert(method == orig@[i as int]);
                    let ghost before = *self;
                    proof {
                        assert(state_of(*self) =~= top_state(decls_of(*self), Some(*name)));
                        lemma_stmt_frame(state_of(*self), method);
                    }
                    self.analyse_stmt(&mut method)?;
                    proof {
                        let st = check_stmt(state_of(before), orig@[i as int])->Ok_0;
                        assert(decls_of(*self) =~= Decls {
                            funcs: decls_of(before).funcs,
                            structs: decls_of(before).structs,
                            enums: decls_of(before).enums,
                            return_found: st.return_found,
                        });
                    }
                    let ghost md_before = method_data@;
                    if let StmtType::Func { body, .. } = &method.stmt {
                        let ghost md0 = method_data@;
                        let mut entry = method_data.remove(i);
                        let ghost e0 = entry;
                        entry.1.body = copy_stmts(body);
                        method_data.insert(i, entry);
                        proof {
                            assert(method_data@ =~= md0.update(i as int, entry));
                            assert(method_sigs(method_data@) =~= method_sigs(md0));
                            assert(method_head_ok(e0, orig@[i as int], line));
                            assert(method_recorded(entry, orig@[i as int], method, line));
                        }
                    }
                    let ghost dn0 = done@;
                    done.push(method);
                    proof {
                        assert(method.stmt is Func);
                        assert forall|m: int| 0 <= m < i + 1 implies #[trigger] method_recorded(
                            method_data@[m],
                            orig@[m],
                            done@[m],
                            line,
                        ) by {
                            if m < i {
                                assert(method_data@[m] == md_before[m]);
                                assert(done@[m] == dn0[m]);
                            }
                        }
                        assert forall|m: int| i + 1 <= m < orig@.len() implies #[trigger] method_head_ok(
                            method_data@[m],
                            orig@[m],
                            line,
                        ) by {
                            assert(method_data@[m] == md_before[m]);
                        }
                    }
                    i += 1;
                    assert(rest@ == orig@.subrange(i as int, orig@.len() as int));
                }
                *methods = done;
                let ghost before_set = *self;
                let ghost mdv = method_data@;
                self.set_methods(name, method_data);
                proof {
                    let sv = structs_view(before_set.user_types.structs@);
                    assert(sv[nm] == view);
                    assert(structs_view(self.user_types.structs@) =~= sv);
                }
                self.current_struct = None;
                proof {
                    let ut = self.user_types;
                    assert forall|kind: DeclKind, k: Seq<char>| #[trigger] table_has(ut, kind, k) <==> (
                        table_has(ut0, kind, k) || decl_of(*old(stmt)) == Some((kind, k))) by {
                        match kind {
                            DeclKind::Struct => {
                                assert(ut.structs@.dom().contains(k) == struct_names.contains(k));
                            },
                            DeclKind::Func => {
                                assert(ut.funcs@.dom().contains(k) == ut0.funcs@.dom().contains(k));
                            },
                            DeclKind::Enum => {},
                        }
                    }
                }
            },
            _ => {},
        }
        Ok(())
    }

    /// Replaces the methods of the struct named `name`.
    fn set_methods(&mut self, name: &String, methods: Vec<(String, FuncData)>)
        ensures
            final(self).user_types.structs@.dom() == old(self).user_types.structs@.dom(),
            final(self).user_types.funcs@ == old(self).user_types.funcs@,
            final(self).user_types.enums@ == old(self).user_types.enums@,
            final(self).symbols@ == old(self).symbols@,
            final(self).current_return_ty == old(self).current_return_ty,
            final(self).current_struct == old(self).current_struct,
            final(self).current_use_self == old(self).current_use_self,
            final(self).return_stmt_found == old(self).return_stmt_found,
            old(self).user_types.structs@.contains_key(name@) ==> structs_view(
                final(self).user_types.structs@,
            ) == structs_view(old(self).user_types.structs@).insert(
                name@,
                StructView {
                    fields: old(self).user_types.structs@[name@].fields@,
                    methods: method_sigs(methods@),
                },
            ),
            !old(self).user_types.structs@.contains_key(name@) ==> final(self).user_types.structs@
                == old(self).user_types.structs@,
            old(self).user_types.structs@.contains_key(name@) ==> final(self).user_types.structs@
                == old(self).user_types.structs@.insert(
                name@,
                StructData { fields: old(self).user_types.structs@[name@].fields, methods },
            ),
    {
        let ghost ms = methods@;
        let ghost mv = methods;
        if let Some(mut data) = self.user_types.structs.remove(name) {
            data.methods = methods;
            self.user_types.structs.insert(name.clone(), data);
            assert(self.user_types.structs@.dom() =~= old(self).user_types.structs@.dom());
            assert(self.user_types.structs@ =~= old(self).user_types.structs@.insert(
                name@,
                StructData { fields: old(self).user_types.structs@[name@].fields, methods: mv },
            ));
            assert(structs_view(self.user_types.structs@) =~= structs_view(
                old(self).user_types.structs@,
            ).insert(
                name@,
                StructView { fields: old(self).user_types.structs@[name@].fields@, methods: method_sigs(ms) },
            ));
        }
    }

    /// Records the enums, functions and structs a program declares, checks
    /// the methods of its structs, and checks that it has a `main` function.
    fn init_type_data(&mut self, stmts: &mut Vec<Stmt>) -> (r: Result<(), SemErr>)
        requires
            old(self).symbols@ == seq![Map::<Seq<char>, Symbol>::empty()],
            !old(self).current_use_self,
            !old(self).return_stmt_found,
            old(self).current_return_ty is None,
            old(self).current_struct is None,
            old(self).user_types.funcs@ == Map::<Seq<char>, FuncData>::empty(),
            old(self).user_types.structs@ == Map::<Seq<char>, StructData>::empty(),
            old(self).user_types.enums@ == Map::<Seq<char>, Vec<String>>::empty(),
            methods_are_funcs(old(stmts)@),
        ensures
            r is Ok ==> final(self).symbols@.len() == 1,
            r is Ok ==> final(self).current_return_ty is None,
            r is Ok ==> final(self).current_struct is None,
            r is Ok ==> final(self).user_types.funcs@.contains_key("main"@),
            r is Ok ==> forall|kind: DeclKind, k: Seq<char>|
                #[trigger] table_has(final(self).user_types, kind, k) <==> declares(
                    old(stmts)@,
                    kind,
                    k,
                ),
            r is Ok ==> distinct_decls(old(stmts)@),
            !declares_func(old(stmts)@, "main"@) ==> r is Err,
            r is Ok ==> final(self).symbols@ == seq![Map::<Seq<char>, Symbol>::empty()],
            r is Ok ==> !final(self).current_use_self,
            r is Ok ==> final(stmts)@.len() == old(stmts)@.len(),
            r is Ok ==> forall|k: int|
                0 <= k < old(stmts)@.len() ==> (#[trigger] final(stmts)@[k] == old(stmts)@[k] || (
                old(stmts)@[k].stmt is Struct && final(stmts)@[k].stmt is Struct)),
            match declare_all(no_decls(), old(stmts)@, 0) {
                Err(err) => r matches Err(e) && e.line == err.line && same_error(e.ty, err.ty),
                Ok(d) => if d.funcs.contains_key("main"@) {
                    r is Ok && decls_of(*final(self)) == d
                } else {
                    r matches Err(e) && e.line == 0 && e.ty == SemErrType::NoMainFunc
                },
            },
            r is Ok ==> heads_recorded(old(stmts)@, final(self).user_types.funcs@),
            r is Ok ==> forall|k: int|
                0 <= k < old(stmts)@.len() ==> #[trigger] struct_recorded(
                    final(self).user_types.structs@,
                    old(stmts)@[k],
                    final(stmts)@[k],
                ),
    {
        let ghost orig = *stmts;
        assert(orig@.len() == stmts.len());
        let mut rest: Vec<Stmt> = Vec::new();
        std::mem::swap(&mut rest, stmts);
        let mut done: Vec<Stmt> = Vec::new();
        let mut i: usize = 0;
        proof {
            assert forall|kind: DeclKind, k: Seq<char>| #[trigger] table_has(self.user_types, kind, k)
                <==> declares(orig@.subrange(0, 0), kind, k) by {
                match kind {
                    DeclKind::Func => {},
                    DeclKind::Struct => {},
                    DeclKind::Enum => {},
                }
            }
        }
        proof {
            assert(decls_of(*self) =~= no_decls());
        }
        while rest.len() > 0
            invariant
                self.symbols@ == seq![Map::<Seq<char>, Symbol>::empty()],
                !self.current_use_self,
                self.current_return_ty is None,
                self.current_struct is None,
                orig == *old(stmts),
                declare_all(no_decls(), orig@, 0) == declare_all(decls_of(*self), orig@, i as int),
                done@.len() == i,
                forall|k: int|
                    0 <= k < i ==> (#[trigger] done@[k] == orig@[k] || (orig@[k].stmt is Struct
                        && done@[k].stmt is Struct)),
                methods_are_funcs(orig@),
                i + rest@.len() == orig@.len(),
                orig@.len() <= usize::MAX,
                rest@ == orig@.subrange(i as int, orig@.len() as int),
                forall|kind: DeclKind, k: Seq<char>|
                    #[trigger] table_has(self.user_types, kind, k) <==> declares(
                        orig@.subrange(0, i as int),
                        kind,
                        k,
                    ),
                distinct_decls(orig@.subrange(0, i as int)),
                heads_recorded(orig@.subrange(0, i as int), self.user_types.funcs@),
                forall|k: int|
                    0 <= k < i ==> #[trigger] struct_recorded(
                        self.user_types.structs@,
                        orig@[k],
                        done@[k],
                    ),
            decreases rest@.len(),
        {
            let mut stmt = rest.remove(0);
            proof {
                assert(stmt == orig@[i as int]);
                let _ = orig@[i as int];
            }
            let ghost before = self.user_types;
            let ghost self0 = *self;
            let ghost s0 = stmt;
            self.declare_type_data(&mut stmt)?;
            proof {
                assert(declare_all(decls_of(self0), orig@, i as int) == declare_all(
                    decls_of(*self),
                    orig@,
                    i + 1,
                ));
                let p0 = orig@.subrange(0, i as int);
                let p1 = orig@.subrange(0, i + 1);
                assert(p1 =~= p0.push(s0));
                assert forall|kind: DeclKind, k: Seq<char>| #[trigger] table_has(self.user_types, kind, k)
                    <==> declares(p1, kind, k) by {
                    if declares(p1, kind, k) {
                        let j = choose|j: int| 0 <= j < p1.len() && decl_of(#[trigger] p1[j]) == Some((kind, k));
                        if j < i {
                            assert(p0[j] == p1[j]);
                        }
                    }
                    if declares(p0, kind, k) {
                        let j = choose|j: int| 0 <= j < p0.len() && decl_of(#[trigger] p0[j]) == Some((kind, k));
                        assert(p1[j] == p0[j]);
                    }
                    if decl_of(s0) == Some((kind, k)) {
                        assert(p1[i as int] == s0);
                    }
                }
                assert forall|k: int| 0 <= k < p1.len() implies ((#[trigger] p1[k]).stmt matches StmtType::Func {
                    name,
                    ..
                } ==> self.user_types.funcs@.contains_key(name@) && func_head(self.user_types.funcs@[name@])
                    == stmt_head(p1[k])) by {
                    if k < i {
                        assert(p1[k] == p0[k]);
                        if let StmtType::Func { name, .. } = p1[k].stmt {
                            assert(decl_of(p0[k]) == Some((DeclKind::Func, name@)));
                            assert(declares(p0, DeclKind::Func, name@));
                            assert(table_has(before, DeclKind::Func, name@));
                            assert(before.funcs@.contains_key(name@));
                            assert(func_head(before.funcs@[name@]) == stmt_head(p0[k]));
                            assert(table_has(self.user_types, DeclKind::Func, name@));
                            assert(self.user_types.funcs@.contains_key(name@));
                            if let StmtType::Func { name: m, .. } = s0.stmt {
                                assert(decl_of(s0) == Some((DeclKind::Func, m@)));
                                assert(m@ != name@);
                                assert(func_head(self.user_types.funcs@[name@]) == func_head(before.funcs@[name@]));
                            } else {
                                assert(func_heads(self.user_types.funcs@)[name@] == func_heads(before.funcs@)[name@]);
                            }
                        }
                    } else {
                        assert(p1[k] == s0);
                        if let StmtType::Func { name, .. } = s0.stmt {
                            assert(self.user_types.funcs@.contains_key(name@));
                            assert(func_head(self.user_types.funcs@[name@]) == stmt_head(s0));
                        }
                    }
                }
                assert forall|a: int, b: int|
                    0 <= a < b < p1.len() && (#[trigger] decl_of(p1[a])) is Some implies decl_of(p1[a])
                        != #[trigger] decl_of(p1[b]) by {
                    assert(p1[a] == p0[a]);
                    if b < i {
                        assert(p1[b] == p0[b]);
                    } else {
                        let (kind, k) = decl_of(p0[a])->0;
                        assert(declares(p0, kind, k));
                        assert(table_has(before, kind, k));
                    }
                }
            }
            let ghost dn0 = done@;
            done.push(stmt);
            proof {
                let structs1 = self.user_types.structs@;
                assert forall|k: int| 0 <= k < i + 1 implies #[trigger] struct_recorded(
                    structs1,
                    orig@[k],
                    done@[k],
                ) by {
                    if k < i {
                        assert(done@[k] == dn0[k]);
                        assert(struct_recorded(before.structs@, orig@[k], dn0[k]));
                        if let StmtType::Struct { name, .. } = orig@[k].stmt {
                            assert(decl_of(orig@[k]) == Some((DeclKind::Struct, name@)));
                            assert(orig@.subrange(0, i as int)[k] == orig@[k]);
                            assert(declares(orig@.subrange(0, i as int), DeclKind::Struct, name@));
                            assert(table_has(before, DeclKind::Struct, name@));
                            if let StmtType::Struct { name: m, .. } = s0.stmt {
                                assert(decl_of(s0) == Some((DeclKind::Struct, m@)));
                                assert(m@ != name@);
                            }
                            assert(table_has(self.user_types, DeclKind::Struct, name@));
                            assert(structs1.contains_key(name@));
                            assert(structs1[name@] == before.structs@[name@]);
                            assert(struct_recorded(structs1, orig@[k], dn0[k]));
                        }
                    } else {
                        assert(orig@[k] == s0);
                        assert(done@[k] == stmt);
                        assert(struct_recorded(structs1, s0, stmt));
                    }
                }
            }
            i += 1;
            assert(rest@ == orig@.subrange(i as int, orig@.len() as int));
        }
        proof {
            assert(orig@.subrange(0, i as int) =~= orig@);
            assert(heads_recorded(orig@, self.user_types.funcs@));
            if !declares_func(orig@, "main"@) {
                if declares(orig@, DeclKind::Func, "main"@) {
                    let j = choose|j: int| 0 <= j < orig@.len() && decl_of(#[trigger] orig@[j]) == Some((DeclKind::Func, "main"@));
                    assert(orig@[j].stmt is Func);
                }
                assert(!table_has(self.user_types, DeclKind::Func, "main"@));
            }
        }
        *stmts = done;
        let main_name = String::from_str("main");
        if !self.user_types.funcs.contains_key(&main_name) {
            let err_ty = SemErrType::NoMainFunc;
            return Err(SemErr::new(0, err_ty));
        }
        Ok(())
    }
}

} // verus!
