use vstd::prelude::*;

use super::analyse_expr::{binary_result, castable, literal_type, unary_applies};
use super::analyse_stmt::coerce_spec;
use super::types::{
    first_field_named, first_named, resolve_in, resolved_type, FuncData, SemErr, SemErrType,
    StructData, Symbol,
};
use super::Analyser;
use crate::binary_op::operator_of;
use crate::expression::{Expr, ExprType};
use crate::statement::{Stmt, StmtType};
use crate::value::ValueType;

verus! {

/// What checking an expression reads of the analyser: the variables in
/// scope, the declared functions, structs and enums, and the struct whose
/// method is being checked.
#[verifier::ext_equal]
pub struct CheckEnv {
    pub symbols: Seq<Map<Seq<char>, Symbol>>,
    pub funcs: Map<Seq<char>, FuncSig>,
    pub structs: Map<Seq<char>, StructView>,
    pub enums: Map<Seq<char>, Seq<String>>,
    pub current_struct: Option<String>,
    pub use_self: bool,
}

/// What a call needs to know of a function or method: its parameter types,
/// its return type, and whether it takes `self`.
pub struct FuncSig {
    pub params: Seq<ValueType>,
    pub return_ty: ValueType,
    pub use_self: bool,
}

/// The signature of a function.
pub open spec fn sig_of(d: FuncData) -> FuncSig {
    FuncSig {
        params: d.parameters@.map_values(|p: (ValueType, String)| p.0),
        return_ty: d.return_ty,
        use_self: d.use_self,
    }
}

/// The signatures of the functions in a table.
pub open spec fn sigs_of(funcs: Map<Seq<char>, FuncData>) -> Map<Seq<char>, FuncSig> {
    funcs.map_values(|d: FuncData| sig_of(d))
}

/// What checking reads of a struct: its fields, and its methods by name with
/// their signatures, in the order of declaration.
pub struct StructView {
    pub fields: Seq<(ValueType, String)>,
    pub methods: Seq<(String, FuncSig)>,
}

/// The methods of a struct with their signatures.
pub open spec fn method_sigs(methods: Seq<(String, FuncData)>) -> Seq<(String, FuncSig)> {
    methods.map_values(|m: (String, FuncData)| (m.0, sig_of(m.1)))
}

/// The view of a struct's data.
pub open spec fn struct_view(d: StructData) -> StructView {
    StructView { fields: d.fields@, methods: method_sigs(d.methods@) }
}

/// The views of the structs in a table.
pub open spec fn structs_view(structs: Map<Seq<char>, StructData>) -> Map<Seq<char>, StructView> {
    structs.map_values(|d: StructData| struct_view(d))
}

/// The variants of the enums in a table.
pub open spec fn enums_view(enums: Map<Seq<char>, Vec<String>>) -> Map<Seq<char>, Seq<String>> {
    enums.map_values(|v: Vec<String>| v@)
}

/// The first method of a name keeps its position among the signatures.
pub proof fn lemma_method_sigs_named(methods: Seq<(String, FuncData)>, name: Seq<char>)
    ensures
        forall|k: int| first_named(methods, name, k) ==> first_named(method_sigs(methods), name, k),
        (forall|j: int| 0 <= j < methods.len() ==> #[trigger] methods[j].0@ != name) ==> (forall|
            j: int,
        | 0 <= j < method_sigs(methods).len() ==> #[trigger] method_sigs(methods)[j].0@ != name),
{
    let ms = method_sigs(methods);
    assert forall|k: int| first_named(methods, name, k) implies first_named(ms, name, k) by {
        assert forall|j: int| 0 <= j < k implies #[trigger] ms[j].0@ != name by {
            assert(methods[j].0@ != name);
        }
    }
    if forall|j: int| 0 <= j < methods.len() ==> #[trigger] methods[j].0@ != name {
        assert forall|j: int| 0 <= j < ms.len() implies #[trigger] ms[j].0@ != name by {
            assert(methods[j].0@ != name);
        }
    }
}

/// The part of the analyser's state that checking an expression reads.
pub open spec fn env_of(a: Analyser) -> CheckEnv {
    CheckEnv {
        symbols: a.symbols@,
        funcs: sigs_of(a.user_types.funcs@),
        structs: structs_view(a.user_types.structs@),
        enums: enums_view(a.user_types.enums@),
        current_struct: a.current_struct,
        use_self: a.current_use_self,
    }
}

/// Two errors of the same kind; the names of a missing method or field are
/// compared by their text.
pub open spec fn same_error(x: SemErrType, y: SemErrType) -> bool {
    match (x, y) {
        (SemErrType::InvalidMethod(a, b), SemErrType::InvalidMethod(c, d)) => a@ == c@ && b@
            == d@,
        (SemErrType::InvalidPubField(a, b), SemErrType::InvalidPubField(c, d)) => a@ == c@ && b@
            == d@,
        _ => x == y,
    }
}

/// An outcome and the outcome the rules give agree: the same value, or an
/// error of the same kind on the same line.
pub open spec fn same_outcome<T>(r: Result<T, SemErr>, s: Result<T, SemErr>) -> bool {
    match (r, s) {
        (Ok(x), Ok(y)) => x == y,
        (Err(x), Err(y)) => x.line == y.line && same_error(x.ty, y.ty),
        _ => false,
    }
}

/// Two expressions agree on the literals and binary operators at their top,
/// the part that fitting an expression to a type looks at; below that they
/// only agree on being neither a literal nor a binary expression.
pub open spec fn same_spine(x: ExprType, y: ExprType) -> bool
    decreases x,
{
    match x {
        ExprType::Lit(l) => y == ExprType::Lit(l),
        ExprType::Binary { left, op, right } => y matches ExprType::Binary {
            left: l2,
            op: o2,
            right: r2,
        } && o2 == op && same_spine(left.expr, l2.expr) && same_spine(right.expr, r2.expr),
        _ => !(y is Lit) && !(y is Binary),
    }
}

/// Fitting two expressions with the same spine to a type succeeds for both
/// or for neither, and leaves them with the same spine.
pub proof fn lemma_spine_coerce(x: ExprType, y: ExprType, t: ValueType)
    requires
        same_spine(x, y),
    ensures
        coerce_spec(x, t).0 == coerce_spec(y, t).0,
        same_spine(coerce_spec(x, t).1, coerce_spec(y, t).1),
    decreases x,
{
    if let ExprType::Binary { left, op, right } = x {
        if let ExprType::Binary { left: l2, op: o2, right: r2 } = y {
            lemma_spine_coerce(left.expr, l2.expr, t);
            lemma_spine_coerce(right.expr, r2.expr, t);
        }
    }
}

/// A name that is the name of the first entry: there is only one.
pub proof fn lemma_first_named_unique<V>(s: Seq<(String, V)>, name: Seq<char>, k1: int, k2: int)
    requires
        first_named(s, name, k1),
        first_named(s, name, k2),
    ensures
        k1 == k2,
{
    if k1 < k2 {
        assert(s[k1].0@ != name);
    } else if k2 < k1 {
        assert(s[k2].0@ != name);
    }
}

/// A field name that is the name of the first field: there is only one.
pub proof fn lemma_first_field_unique(s: Seq<(ValueType, String)>, name: Seq<char>, k1: int, k2: int)
    requires
        first_field_named(s, name, k1),
        first_field_named(s, name, k2),
    ensures
        k1 == k2,
{
    if k1 < k2 {
        assert(s[k1].1@ != name);
    } else if k2 < k1 {
        assert(s[k2].1@ != name);
    }
}

/// The position of the first entry named `name`, if there is one.
pub open spec fn entry_index<V>(s: Seq<(String, V)>, name: Seq<char>) -> Option<int> {
    if exists|k: int| first_named(s, name, k) {
        Some(choose|k: int| first_named(s, name, k))
    } else {
        None
    }
}

/// The position of the first field named `name`, if there is one.
pub open spec fn field_index(s: Seq<(ValueType, String)>, name: Seq<char>) -> Option<int> {
    if exists|k: int| first_field_named(s, name, k) {
        Some(choose|k: int| first_field_named(s, name, k))
    } else {
        None
    }
}

/// The first entry of a name is at the position `entry_index` gives.
pub proof fn lemma_entry_index<V>(s: Seq<(String, V)>, name: Seq<char>, k: int)
    requires
        first_named(s, name, k),
    ensures
        entry_index(s, name) == Some(k),
{
    let c = choose|k: int| first_named(s, name, k);
    lemma_first_named_unique(s, name, k, c);
}

/// With no entry of a name, `entry_index` gives nothing.
pub proof fn lemma_entry_index_none<V>(s: Seq<(String, V)>, name: Seq<char>)
    requires
        forall|j: int| 0 <= j < s.len() ==> #[trigger] s[j].0@ != name,
    ensures
        entry_index(s, name) is None,
{
    if exists|k: int| first_named(s, name, k) {
        let k = choose|k: int| first_named(s, name, k);
        assert(s[k].0@ == name);
    }
}

/// The first field of a name is at the position `field_index` gives.
pub proof fn lemma_field_index(s: Seq<(ValueType, String)>, name: Seq<char>, k: int)
    requires
        first_field_named(s, name, k),
    ensures
        field_index(s, name) == Some(k),
{
    let c = choose|k: int| first_field_named(s, name, k);
    lemma_first_field_unique(s, name, k, c);
}

/// With no field of a name, `field_index` gives nothing.
pub proof fn lemma_field_index_none(s: Seq<(ValueType, String)>, name: Seq<char>)
    requires
        forall|j: int| 0 <= j < s.len() ==> #[trigger] s[j].1@ != name,
    ensures
        field_index(s, name) is None,
{
    if exists|k: int| first_field_named(s, name, k) {
        let k = choose|k: int| first_field_named(s, name, k);
        assert(s[k].1@ == name);
    }
}

/// The type of `self` inside a method, or why `self` cannot stand there.
pub open spec fn this_result(env: CheckEnv, line: u32) -> Result<ValueType, SemErr> {
    match env.current_struct {
        None => Err(SemErr { ty: SemErrType::SelfOutsideStruct, line }),
        Some(name) => if !env.use_self {
            Err(SemErr { ty: SemErrType::SelfInMethodWithoutSelfParam, line })
        } else {
            Ok(ValueType::Struct(name))
        },
    }
}

/// The type of the field `property` of a value of type `inst_ty`: the type
/// of the first field of that name of the struct.
pub open spec fn field_result(env: CheckEnv, inst_ty: ValueType, property: String, line: u32) -> Result<
    ValueType,
    SemErr,
> {
    match inst_ty {
        ValueType::Struct(name) => if env.structs.contains_key(name@) {
            let fields = env.structs[name@].fields;
            match field_index(fields, property@) {
                Some(k) => {
                    let idx = (k as u8) as int;
                    if idx < fields.len() {
                        Ok(fields[idx].0)
                    } else {
                        Ok(ValueType::Any)
                    }
                },
                None => Err(SemErr { ty: SemErrType::InvalidPubField(name, property), line }),
            }
        } else {
            Err(SemErr { ty: SemErrType::UndefinedType(name), line })
        },
        _ => Err(SemErr { ty: SemErrType::InvalidTypeFieldAccess(inst_ty), line }),
    }
}

/// A value of type `vt` may stand where type `want` is expected: the types
/// are the same, or the expression (of spine `form`) fits `want`.
pub open spec fn fits(vt: ValueType, want: ValueType, form: ExprType) -> bool {
    vt@ == want@ || coerce_spec(form, want).0
}

/// The spine of a binary expression whose operands have the spines `lf` and
/// `rf`.
pub open spec fn binary_spine(e: Expr, lf: ExprType, rf: ExprType) -> ExprType {
    match e.expr {
        ExprType::Binary { left, op, right } => ExprType::Binary {
            left: Box::new(Expr { expr: lf, line: left.line, end_ty: left.end_ty }),
            op,
            right: Box::new(Expr { expr: rf, line: right.line, end_ty: right.end_ty }),
        },
        _ => e.expr,
    }
}

/// The rules for typing expressions. Checking `e` gives its type and its
/// spine after the literals in it were fitted to the types around them, or
/// the first error found, operands being checked left to right.
pub open spec fn check_expr(env: CheckEnv, e: Expr) -> Result<(ValueType, ExprType), SemErr>
    decreases e, 2int,
{
    let line = e.line;
    match e.expr {
        ExprType::Lit(l) => Ok((literal_type(l), e.expr)),
        ExprType::Identifier(name) => match resolve_in(env.symbols, name@) {
            Some(sym) => Ok((sym.ty, e.expr)),
            None => Err(SemErr { ty: SemErrType::UndefinedVar(name), line }),
        },
        ExprType::Assign { name, new_value } => match resolve_in(env.symbols, name@) {
            None => Err(SemErr { ty: SemErrType::UndefinedVar(name), line }),
            Some(sym) => match check_expr(env, *new_value) {
                Err(err) => Err(err),
                Ok((vt, vf)) => if fits(vt, sym.ty, vf) || vt is Null {
                    Ok((sym.ty, e.expr))
                } else {
                    Err(SemErr { ty: SemErrType::VarDeclTypeMismatch(sym.ty, vt), line })
                },
            },
        },
        ExprType::Binary { left, op, right } => match check_expr(env, *left) {
            Err(err) => Err(err),
            Ok((lt, lf)) => match check_expr(env, *right) {
                Err(err) => Err(err),
                Ok((rt, rf)) => {
                    let (rb, rf2) = coerce_spec(rf, lt);
                    let (lb, lf2) = coerce_spec(lf, rt);
                    let operands = if lt@ == rt@ {
                        Some((lt, lf, rf))
                    } else if rb {
                        Some((lt, lf, rf2))
                    } else if lb {
                        Some((rt, lf2, rf2))
                    } else {
                        None
                    };
                    match operands {
                        None => Err(
                            SemErr {
                                ty: SemErrType::OpTypeMismatch(lt, operator_of(op), rt),
                                line,
                            },
                        ),
                        Some((ot, lf3, rf3)) => match binary_result(op, ot) {
                            Some(t) => Ok((t, binary_spine(e, lf3, rf3))),
                            None => Err(
                                SemErr {
                                    ty: SemErrType::InvalidInfixOp(ot, operator_of(op)),
                                    line,
                                },
                            ),
                        },
                    }
                },
            },
        },
        ExprType::Unary { prefix, value } => match check_expr(env, *value) {
            Err(err) => Err(err),
            Ok((vt, _)) => if unary_applies(prefix, vt) {
                Ok((vt, e.expr))
            } else {
                Err(SemErr { ty: SemErrType::InvalidPrefixOp, line })
            },
        },
        ExprType::Cast { value, target_ty } => match check_expr(env, *value) {
            Err(err) => Err(err),
            Ok((vt, _)) => {
                let tt = resolved_type(env.structs, env.enums, target_ty);
                if castable(vt, tt) {
                    Ok((tt, e.expr))
                } else {
                    Err(SemErr { ty: SemErrType::InvalidCast(tt, vt), line })
                }
            },
        },
        ExprType::FuncCall { name, args, .. } => if env.funcs.contains_key(name@) {
            let sig = env.funcs[name@];
            match check_args(env, name, args, sig.params, line, 0) {
                Ok(_) => Ok((sig.return_ty, e.expr)),
                Err(err) => Err(err),
            }
        } else {
            Err(SemErr { ty: SemErrType::UndefinedFunc(name), line })
        },
        ExprType::Array(values) => match check_array(env, values, line, 0, None) {
            Ok(t) => Ok((t, e.expr)),
            Err(err) => Err(err),
        },
        ExprType::Index { arr, index } => match check_expr(env, *arr) {
            Err(err) => Err(err),
            Ok((at, _)) => match check_expr(env, *index) {
                Err(err) => Err(err),
                Ok(_) => match at {
                    ValueType::Arr(el) => Ok((*el, e.expr)),
                    _ => Err(SemErr { ty: SemErrType::IndexNonArr(at), line }),
                },
            },
        },
        ExprType::AssignIndex { arr, index, new_value } => match check_expr(env, *arr) {
            Err(err) => Err(err),
            Ok((at, _)) => match check_expr(env, *index) {
                Err(err) => Err(err),
                Ok(_) => match at {
                    ValueType::Arr(el) => match check_expr(env, *new_value) {
                        Err(err) => Err(err),
                        Ok((vt, vf)) => if fits(vt, *el, vf) {
                            Ok((*el, e.expr))
                        } else {
                            Err(SemErr { ty: SemErrType::AssignArrTypeMismatch(*el, vt), line })
                        },
                    },
                    _ => Err(SemErr { ty: SemErrType::IndexNonArr(at), line }),
                },
            },
        },
        ExprType::This => match this_result(env, line) {
            Ok(t) => Ok((t, e.expr)),
            Err(err) => Err(err),
        },
        ExprType::Dot { inst, property } => match check_expr(env, *inst) {
            Err(err) => Err(err),
            Ok((it, _)) => match field_result(env, it, property, line) {
                Ok(t) => Ok((t, e.expr)),
                Err(err) => Err(err),
            },
        },
        ExprType::DotAssign { inst, property, new_value } => match check_expr(env, *inst) {
            Err(err) => Err(err),
            Ok((it, _)) => match field_result(env, it, property, line) {
                Err(err) => Err(err),
                Ok(ft) => match check_expr(env, *new_value) {
                    Err(err) => Err(err),
                    Ok((vt, vf)) => if fits(vt, ft, vf) {
                        Ok((ft, e.expr))
                    } else {
                        Err(SemErr { ty: SemErrType::FieldTypeMismatch(ft, vt), line })
                    },
                },
            },
        },
        ExprType::Colon { inst, property } => match inst.expr {
            ExprType::Identifier(ty_name) => if env.enums.contains_key(ty_name@) {
                let variants = env.enums[ty_name@];
                if exists|j: int| 0 <= j < variants.len() && #[trigger] variants[j]@ == property@ {
                    Ok((ValueType::Enum(ty_name), e.expr))
                } else {
                    Err(SemErr { ty: SemErrType::InvalidVariant(ty_name, property), line })
                }
            } else if env.structs.contains_key(ty_name@) {
                Err(SemErr { ty: SemErrType::InvalidStaticAccess, line })
            } else {
                Err(SemErr { ty: SemErrType::UndefinedType(ty_name), line })
            },
            ExprType::This => Err(SemErr { ty: SemErrType::SelfAsStaticStruct, line }),
            _ => Err(SemErr { ty: SemErrType::InvalidStaticAccess, line }),
        },
        ExprType::MethodCall { .. } => match check_method_call(env, e) {
            Ok(t) => Ok((t, e.expr)),
            Err(err) => Err(err),
        },
        ExprType::MethodCallResolved { .. } | ExprType::DotResolved { .. }
        | ExprType::DotAssignResolved { .. } => Ok((e.end_ty, e.expr)),
    }
}

/// The rules for a method call `inst.property(args)`, or `Name::property(args)`
/// when it is static: the struct it calls on, the first method of that
/// name, whether that method takes `self`, and the arguments.
pub open spec fn check_method_call(env: CheckEnv, e: Expr) -> Result<ValueType, SemErr>
    decreases e, 1int,
{
    let line = e.line;
    match e.expr {
        ExprType::MethodCall { inst, property, args, is_static } => {
            let owner: Result<String, SemErr> = if is_static {
                match inst.expr {
                    ExprType::Identifier(n) => Ok(n),
                    ExprType::This => Err(SemErr { ty: SemErrType::SelfAsStaticStruct, line }),
                    _ => Err(SemErr { ty: SemErrType::InvalidStaticAccess, line }),
                }
            } else {
                match check_expr(env, *inst) {
                    Err(err) => Err(err),
                    Ok((ValueType::Struct(n), _)) => Ok(n),
                    Ok((it, _)) => Err(
                        SemErr { ty: SemErrType::InvalidTypeMethodAccess(it), line },
                    ),
                }
            };
            match owner {
                Err(err) => Err(err),
                Ok(sname) => if env.structs.contains_key(sname@) {
                    let methods = env.structs[sname@].methods;
                    if let Some(k) = entry_index(methods, property@) {
                        let m = methods[k].1;
                        if is_static && m.use_self {
                            Err(SemErr { ty: SemErrType::SelfOnStaticMethod, line })
                        } else if !is_static && !m.use_self {
                            Err(SemErr { ty: SemErrType::StaticMethodOnInstance(sname), line })
                        } else {
                            match check_args(env, property, args, m.params, line, 0) {
                                Ok(_) => Ok(m.return_ty),
                                Err(err) => Err(err),
                            }
                        }
                    } else {
                        Err(SemErr { ty: SemErrType::InvalidMethod(sname, property), line })
                    }
                } else if is_static {
                    Err(SemErr { ty: SemErrType::InvalidStaticAccess, line })
                } else {
                    Err(SemErr { ty: SemErrType::UndefinedType(sname), line })
                },
            }
        },
        _ => Ok(e.end_ty),
    }
}

/// Checking the arguments of a call from position `i` on: their number must
/// be that of the parameters, and each must fit its parameter's type.
pub open spec fn check_args(
    env: CheckEnv,
    name: String,
    args: Vec<Expr>,
    params: Seq<ValueType>,
    line: u32,
    i: int,
) -> Result<(), SemErr>
    decreases args, args@.len() - i,
{
    if args@.len() != params.len() {
        Err(
            SemErr {
                ty: SemErrType::IncorrectArity(name, params.len() as u8, args@.len() as u8),
                line,
            },
        )
    } else if i < 0 || i >= args@.len() {
        Ok(())
    } else {
        proof {
            assert(decreases_to!(args => args@[i]));
        }
        match check_expr(env, args@[i]) {
            Err(err) => Err(err),
            Ok((t, f)) => if fits(t, params[i], f) {
                check_args(env, name, args, params, line, i + 1)
            } else {
                Err(SemErr { ty: SemErrType::ParamTypeMismatch(name, params[i], t), line })
            },
        }
    }
}

/// Checking the elements of an array literal from position `i` on, `el`
/// being the type of the first element if it was seen: each element must fit
/// the first one's type. The array's type follows from the first element.
pub open spec fn check_array(
    env: CheckEnv,
    values: Vec<Expr>,
    line: u32,
    i: int,
    el: Option<ValueType>,
) -> Result<ValueType, SemErr>
    decreases values, values@.len() - i,
{
    if i < 0 || i >= values@.len() {
        match el {
            Some(t) => Ok(ValueType::Arr(Box::new(t))),
            None => Ok(ValueType::Arr(Box::new(ValueType::Any))),
        }
    } else {
        proof {
            assert(decreases_to!(values => values@[i]));
        }
        match check_expr(env, values@[i]) {
            Err(err) => Err(err),
            Ok((vt, vf)) => match el {
                None => check_array(env, values, line, i + 1, Some(vt)),
                Some(ex) => if fits(vt, ex, vf) {
                    check_array(env, values, line, i + 1, el)
                } else {
                    Err(SemErr { ty: SemErrType::ArrElTypeMismatch(ex, vt), line })
                },
            },
        }
    }
}

/// What checking statements reads and changes: the environment of the
/// expressions in them, the return type of the function being checked, and
/// whether a `return` statement was seen.
#[verifier::ext_equal]
pub struct StmtState {
    pub env: CheckEnv,
    pub return_ty: Option<ValueType>,
    pub return_found: bool,
}

/// The part of the analyser's state that checking statements reads and
/// changes.
pub open spec fn state_of(a: Analyser) -> StmtState {
    StmtState { env: env_of(a), return_ty: a.current_return_ty, return_found: a.return_stmt_found }
}

/// A state with other variables in scope.
pub open spec fn with_symbols(st: StmtState, symbols: Seq<Map<Seq<char>, Symbol>>) -> StmtState {
    StmtState {
        env: CheckEnv {
            symbols,
            funcs: st.env.funcs,
            structs: st.env.structs,
            enums: st.env.enums,
            current_struct: st.env.current_struct,
            use_self: st.env.use_self,
        },
        return_ty: st.return_ty,
        return_found: st.return_found,
    }
}

/// A state in which a `return` statement was seen.
pub open spec fn with_return_found(st: StmtState) -> StmtState {
    StmtState { env: st.env, return_ty: st.return_ty, return_found: true }
}

/// The scopes after closing the innermost one.
pub open spec fn end_scope_of(symbols: Seq<Map<Seq<char>, Symbol>>) -> Seq<
    Map<Seq<char>, Symbol>,
> {
    if symbols.len() > 0 {
        symbols.drop_last()
    } else {
        symbols
    }
}

/// The scopes after declaring a variable in the innermost one.
pub open spec fn declare_in(symbols: Seq<Map<Seq<char>, Symbol>>, sym: Symbol) -> Seq<
    Map<Seq<char>, Symbol>,
> {
    symbols.drop_last().push(symbols.last().insert(sym.name@, sym))
}

/// Declaring the parameters of a function from position `i` on, each with its
/// type resolved; no two may share a name.
pub open spec fn declare_params(
    structs: Map<Seq<char>, StructView>,
    enums: Map<Seq<char>, Seq<String>>,
    symbols: Seq<Map<Seq<char>, Symbol>>,
    params: Seq<(ValueType, String)>,
    line: u32,
    i: int,
) -> Result<Seq<Map<Seq<char>, Symbol>>, SemErr>
    decreases params.len() - i,
{
    if i < 0 || i >= params.len() {
        Ok(symbols)
    } else {
        let (ty, pname) = params[i];
        if symbols.last().contains_key(pname@) {
            Err(SemErr { ty: SemErrType::AlreadyDefinedVar(pname), line })
        } else {
            let sym = Symbol { name: pname, ty: resolved_type(structs, enums, ty) };
            declare_params(structs, enums, declare_in(symbols, sym), params, line, i + 1)
        }
    }
}

/// The rules for checking statements. Checking `s` in state `st` gives the
/// state after it, or the first error found.
pub open spec fn check_stmt(st: StmtState, s: Stmt) -> Result<StmtState, SemErr>
    decreases s, 2int, 0int,
{
    let line = s.line;
    match s.stmt {
        StmtType::Expr(e) => match check_expr(st.env, e) {
            Ok(_) => Ok(st),
            Err(err) => Err(err),
        },
        StmtType::Println(e) => match check_expr(st.env, e) {
            Ok(_) => Ok(st),
            Err(err) => Err(err),
        },
        StmtType::VarDecl { name, value, ty } => if ty is UnknownType && !st.env.structs.contains_key(
            ty->UnknownType_0@,
        ) && !st.env.enums.contains_key(ty->UnknownType_0@) {
            Err(SemErr { ty: SemErrType::UndefinedType(ty->UnknownType_0), line })
        } else {
            let rt = resolved_type(st.env.structs, st.env.enums, ty);
            match check_expr(st.env, value) {
                Err(err) => Err(err),
                Ok((vt, vf)) => if fits(vt, rt, vf) || vt is Null || vt is Any {
                    if st.env.symbols.last().contains_key(name@) {
                        Err(SemErr { ty: SemErrType::AlreadyDefinedVar(name), line })
                    } else {
                        Ok(with_symbols(st, declare_in(st.env.symbols, Symbol { name, ty: rt })))
                    }
                } else {
                    Err(SemErr { ty: SemErrType::VarDeclTypeMismatch(rt, vt), line })
                },
            }
        },
        StmtType::Return(e) => match check_expr(st.env, e) {
            Err(err) => Err(err),
            Ok((vt, vf)) => match st.return_ty {
                Some(rt) => if fits(vt, rt, vf) || vt is Null {
                    Ok(with_return_found(st))
                } else {
                    Err(SemErr { ty: SemErrType::IncorrectReturnTy(rt, vt), line })
                },
                None => Ok(with_return_found(st)),
            },
        },
        StmtType::Block(stmts) => match check_stmts(
            with_symbols(st, st.env.symbols.push(Map::empty())),
            stmts,
            0,
        ) {
            Err(err) => Err(err),
            Ok(st2) => Ok(with_symbols(st2, end_scope_of(st2.env.symbols))),
        },
        StmtType::If { condition, body, final_else } => match check_expr(st.env, condition) {
            Err(err) => Err(err),
            Ok((ct, _)) => if !(ct is Bool) {
                Err(SemErr { ty: SemErrType::InvalidIfCondition(ct), line })
            } else {
                match check_stmt(st, *body) {
                    Err(err) => Err(err),
                    Ok(st2) => match final_else {
                        Some(fe) => check_stmt(st2, *fe),
                        None => Ok(st2),
                    },
                }
            },
        },
        StmtType::While { condition, body } => match check_expr(st.env, condition) {
            Err(err) => Err(err),
            Ok((ct, _)) => if !(ct is Bool) {
                Err(SemErr { ty: SemErrType::InvalidWhileCondition(ct), line })
            } else {
                check_stmt(st, *body)
            },
        },
        StmtType::For { var, condition, body } => {
            let st1 = with_symbols(st, st.env.symbols.push(Map::empty()));
            match check_stmt(st1, *var) {
                Err(err) => Err(err),
                Ok(st2) => match check_expr(st2.env, condition) {
                    Err(err) => Err(err),
                    Ok(_) => match check_stmt(st2, *body) {
                        Err(err) => Err(err),
                        Ok(st3) => Ok(with_symbols(st3, end_scope_of(st3.env.symbols))),
                    },
                },
            }
        },
        StmtType::Func { name, parameters, body, return_ty, use_self } => check_func(
            st,
            name,
            parameters@,
            body,
            return_ty,
            use_self,
            line,
        ),
        StmtType::Break | StmtType::Continue | StmtType::Struct { .. } | StmtType::Enum { .. } => Ok(
            st,
        ),
    }
}

/// The rules for a function declaration: not inside another function; its
/// parameters are the variables of a new scope, in which the body is checked
/// against the return type, and a function that returns a value must have a
/// `return` statement.
pub open spec fn check_func(
    st: StmtState,
    name: String,
    params: Seq<(ValueType, String)>,
    body: Vec<Stmt>,
    return_ty: ValueType,
    use_self: bool,
    line: u32,
) -> Result<StmtState, SemErr>
    decreases body, 1int, 0int,
{
    if st.return_ty is Some {
        Err(SemErr { ty: SemErrType::FuncDefInFunc(name), line })
    } else {
        let inner = st.env.symbols.push(Map::empty());
        match declare_params(st.env.structs, st.env.enums, inner, params, line, 0) {
            Err(err) => Err(err),
            Ok(syms) => {
                let st2 = StmtState {
                    env: CheckEnv {
                        symbols: syms,
                        funcs: st.env.funcs,
                        structs: st.env.structs,
                        enums: st.env.enums,
                        current_struct: st.env.current_struct,
                        use_self,
                    },
                    return_ty: Some(return_ty),
                    return_found: false,
                };
                match check_stmts(st2, body, 0) {
                    Err(err) => Err(err),
                    Ok(st3) => if !(return_ty is Null) && !st3.return_found {
                        Err(SemErr { ty: SemErrType::NoReturnTy(name, return_ty), line })
                    } else {
                        Ok(
                            StmtState {
                                env: CheckEnv {
                                    symbols: end_scope_of(st3.env.symbols),
                                    funcs: st3.env.funcs,
                                    structs: st3.env.structs,
                                    enums: st3.env.enums,
                                    current_struct: st3.env.current_struct,
                                    use_self: st.env.use_self,
                                },
                                return_ty: None,
                                return_found: st3.return_found,
                            },
                        )
                    },
                }
            },
        }
    }
}

/// Checking statements from position `i` on, one after another, stopping at
/// the first error.
pub open spec fn check_stmts(st: StmtState, stmts: Vec<Stmt>, i: int) -> Result<StmtState, SemErr>
    decreases stmts, 0int, stmts@.len() - i,
{
    if i < 0 || i >= stmts@.len() {
        Ok(st)
    } else {
        proof {
            assert(decreases_to!(stmts => stmts@[i]));
        }
        match check_stmt(st, stmts@[i]) {
            Err(err) => Err(err),
            Ok(st2) => check_stmts(st2, stmts, i + 1),
        }
    }
}

/// What declaring a function fixes of its entry: its parameters, return
/// type, line, and whether it takes `self`.
pub open spec fn func_head(d: FuncData) -> (Seq<(ValueType, String)>, ValueType, u32, bool) {
    (d.parameters@, d.return_ty, d.line, d.use_self)
}

/// The heads of the entries of a function table.
pub open spec fn func_heads(funcs: Map<Seq<char>, FuncData>) -> Map<
    Seq<char>,
    (Seq<(ValueType, String)>, ValueType, u32, bool),
> {
    funcs.map_values(|d: FuncData| func_head(d))
}

/// The head a function statement declares.
pub open spec fn stmt_head(s: Stmt) -> (Seq<(ValueType, String)>, ValueType, u32, bool) {
    match s.stmt {
        StmtType::Func { parameters, return_ty, use_self, .. } => (
            parameters@,
            return_ty,
            s.line,
            use_self,
        ),
        _ => (Seq::empty(), ValueType::Null, s.line, false),
    }
}

/// A function declaration stands in `s`, at its top or nested in it.
pub open spec fn has_func(s: Stmt) -> bool
    decreases s, 2int, 0int,
{
    match s.stmt {
        StmtType::Func { .. } => true,
        StmtType::Block(stmts) => has_func_in(stmts, 0),
        StmtType::If { body, final_else, .. } => has_func(*body) || match final_else {
            Some(fe) => has_func(*fe),
            None => false,
        },
        StmtType::While { body, .. } => has_func(*body),
        StmtType::For { var, body, .. } => has_func(*var) || has_func(*body),
        _ => false,
    }
}

/// A function declaration stands in one of the statements from position `i`
/// on.
pub open spec fn has_func_in(stmts: Vec<Stmt>, i: int) -> bool
    decreases stmts, 0int, stmts@.len() - i,
{
    if i < 0 || i >= stmts@.len() {
        false
    } else {
        proof {
            assert(decreases_to!(stmts => stmts@[i]));
        }
        has_func(stmts@[i]) || has_func_in(stmts, i + 1)
    }
}

/// A function named `n` is declared in `s`: `s` itself, or a statement
/// nested in it, but for the body of a function, where no declaration is
/// accepted.
pub open spec fn holds_func(s: Stmt, n: Seq<char>) -> bool
    decreases s, 2int, 0int,
{
    match s.stmt {
        StmtType::Func { name, .. } => name@ == n,
        StmtType::Block(stmts) => holds_func_in(stmts, 0, n),
        StmtType::If { body, final_else, .. } => holds_func(*body, n) || match final_else {
            Some(fe) => holds_func(*fe, n),
            None => false,
        },
        StmtType::While { body, .. } => holds_func(*body, n),
        StmtType::For { var, body, .. } => holds_func(*var, n) || holds_func(*body, n),
        _ => false,
    }
}

/// A function named `n` is declared in one of the statements from position
/// `i` on.
pub open spec fn holds_func_in(stmts: Vec<Stmt>, i: int, n: Seq<char>) -> bool
    decreases stmts, 0int, stmts@.len() - i,
{
    if i < 0 || i >= stmts@.len() {
        false
    } else {
        proof {
            assert(decreases_to!(stmts => stmts@[i]));
        }
        holds_func(stmts@[i], n) || holds_func_in(stmts, i + 1, n)
    }
}

/// A declaration stands in the statements from `i` on exactly when it stands
/// in the `i`-th or in those after it.
pub proof fn lemma_holds_func_in_step(stmts: Vec<Stmt>, i: int, n: Seq<char>)
    requires
        0 <= i < stmts@.len(),
    ensures
        holds_func_in(stmts, i, n) == (holds_func(stmts@[i], n) || holds_func_in(
            stmts,
            i + 1,
            n,
        )),
{
}

/// The functions of `f1` that none of `stmts` declares are recorded in `f2`
/// as they were, and none of them is declared from position `i` on.
pub open spec fn funcs_kept_from(
    f1: Map<Seq<char>, FuncData>,
    f2: Map<Seq<char>, FuncData>,
    stmts: Vec<Stmt>,
    i: int,
) -> bool {
    forall|n: Seq<char>|
        #![trigger holds_func_in(stmts, 0, n)]
        f1.contains_key(n) && !holds_func_in(stmts, 0, n) ==> !holds_func_in(stmts, i, n)
            && f2[n] == f1[n]
}

/// Checking one more statement keeps the functions that no statement
/// declares.
pub proof fn lemma_funcs_kept_step(
    f: Map<Seq<char>, FuncData>,
    f0: Map<Seq<char>, FuncData>,
    f1: Map<Seq<char>, FuncData>,
    stmts: Vec<Stmt>,
    i: int,
)
    requires
        0 <= i < stmts@.len(),
        funcs_kept_from(f, f0, stmts, i),
        funcs_kept(f0, f1, stmts@[i]),
        f.dom() == f0.dom(),
    ensures
        funcs_kept_from(f, f1, stmts, i + 1),
{
    assert forall|n: Seq<char>|
        #![trigger holds_func_in(stmts, 0, n)]
        (f.contains_key(n) && !holds_func_in(stmts, 0, n)) ==> (!holds_func_in(
            stmts,
            i + 1,
            n,
        ) && f1[n] == f[n]) by {
        if f.contains_key(n) && !holds_func_in(stmts, 0, n) {
            assert(f0[n] == f[n]);
            assert(!holds_func_in(stmts, i, n));
            lemma_holds_func_in_step(stmts, i, n);
            assert(!holds_func(stmts@[i], n));
            assert(f0.contains_key(n));
            assert(f1[n] == f0[n]);
        }
    }
}

/// The functions of `f1` that `s` declares none of are recorded in `f2` as
/// they were.
pub open spec fn funcs_kept(f1: Map<Seq<char>, FuncData>, f2: Map<Seq<char>, FuncData>, s: Stmt) -> bool {
    forall|n: Seq<char>| f1.contains_key(n) && !holds_func(s, n) ==> #[trigger] f2[n] == f1[n]
}

/// The functions of `f1` that none of `stmts` declares are recorded in `f2`
/// as they were.
pub open spec fn funcs_kept_in(
    f1: Map<Seq<char>, FuncData>,
    f2: Map<Seq<char>, FuncData>,
    stmts: Vec<Stmt>,
) -> bool {
    forall|n: Seq<char>|
        f1.contains_key(n) && !holds_func_in(stmts, 0, n) ==> #[trigger] f2[n] == f1[n]
}

/// What checking a statement keeps: the tables, the function context, and
/// the scopes but for the variables of the innermost one.
pub open spec fn keeps_frame(st: StmtState, st2: StmtState) -> bool {
    &&& st2.env.symbols.len() == st.env.symbols.len()
    &&& st2.env.symbols.drop_last() == st.env.symbols.drop_last()
    &&& st2.env.funcs == st.env.funcs
    &&& st2.env.structs == st.env.structs
    &&& st2.env.enums == st.env.enums
    &&& st2.env.current_struct == st.env.current_struct
    &&& st2.env.use_self == st.env.use_self
    &&& st2.return_ty == st.return_ty
}

/// Declaring parameters only adds variables to the innermost scope.
pub proof fn lemma_params_frame(
    structs: Map<Seq<char>, StructView>,
    enums: Map<Seq<char>, Seq<String>>,
    symbols: Seq<Map<Seq<char>, Symbol>>,
    params: Seq<(ValueType, String)>,
    line: u32,
    i: int,
)
    requires
        symbols.len() > 0,
    ensures
        declare_params(structs, enums, symbols, params, line, i) matches Ok(s2) ==> s2.len()
            == symbols.len() && s2.drop_last() == symbols.drop_last(),
    decreases params.len() - i,
{
    if 0 <= i < params.len() {
        let (ty, pname) = params[i];
        if !symbols.last().contains_key(pname@) {
            let sym = Symbol { name: pname, ty: resolved_type(structs, enums, ty) };
            let s1 = declare_in(symbols, sym);
            assert(s1.drop_last() =~= symbols.drop_last());
            lemma_params_frame(structs, enums, s1, params, line, i + 1);
        }
    }
}

/// Checking a statement keeps the frame; a block, a `for` loop and a
/// function declaration leave the scopes as they found them.
pub proof fn lemma_stmt_frame(st: StmtState, s: Stmt)
    requires
        st.env.symbols.len() > 0,
    ensures
        check_stmt(st, s) matches Ok(st2) ==> keeps_frame(st, st2) && ((s.stmt is Block
            || s.stmt is For || s.stmt is Func) ==> st2.env.symbols == st.env.symbols),
    decreases s, 2int, 0int,
{
    match s.stmt {
        StmtType::VarDecl { name, value, ty } => {
            let rt = resolved_type(st.env.structs, st.env.enums, ty);
            let syms = declare_in(st.env.symbols, Symbol { name, ty: rt });
            assert(syms.drop_last() =~= st.env.symbols.drop_last());
        },
        StmtType::Block(stmts) => {
            let st1 = with_symbols(st, st.env.symbols.push(Map::empty()));
            lemma_stmts_frame(st1, stmts, 0);
            assert(st.env.symbols.push(Map::empty()).drop_last() =~= st.env.symbols);
        },
        StmtType::If { condition, body, final_else } => {
            lemma_stmt_frame(st, *body);
            if let Ok(st2) = check_stmt(st, *body) {
                if let Some(fe) = final_else {
                    lemma_stmt_frame(st2, *fe);
                }
            }
        },
        StmtType::While { condition, body } => {
            lemma_stmt_frame(st, *body);
        },
        StmtType::For { var, condition, body } => {
            let st1 = with_symbols(st, st.env.symbols.push(Map::empty()));
            assert(st.env.symbols.push(Map::empty()).drop_last() =~= st.env.symbols);
            lemma_stmt_frame(st1, *var);
            if let Ok(st2) = check_stmt(st1, *var) {
                lemma_stmt_frame(st2, *body);
            }
        },
        StmtType::Func { name, parameters, body, return_ty, use_self } => {
            lemma_func_frame(st, name, parameters@, body, return_ty, use_self, s.line);
        },
        _ => {},
    }
}

/// Checking a function declaration keeps the frame and the scopes.
pub proof fn lemma_func_frame(
    st: StmtState,
    name: String,
    params: Seq<(ValueType, String)>,
    body: Vec<Stmt>,
    return_ty: ValueType,
    use_self: bool,
    line: u32,
)
    requires
        st.env.symbols.len() > 0,
    ensures
        check_func(st, name, params, body, return_ty, use_self, line) matches Ok(st2)
            ==> keeps_frame(st, st2) && st2.env.symbols == st.env.symbols,
    decreases body, 1int, 0int,
{
    if st.return_ty is None {
        let inner = st.env.symbols.push(Map::empty());
        assert(inner.drop_last() =~= st.env.symbols);
        lemma_params_frame(st.env.structs, st.env.enums, inner, params, line, 0);
        if let Ok(syms) = declare_params(st.env.structs, st.env.enums, inner, params, line, 0) {
            let st2 = StmtState {
                env: CheckEnv {
                    symbols: syms,
                    funcs: st.env.funcs,
                    structs: st.env.structs,
                    enums: st.env.enums,
                    current_struct: st.env.current_struct,
                    use_self,
                },
                return_ty: Some(return_ty),
                return_found: false,
            };
            lemma_stmts_frame(st2, body, 0);
        }
    }
}

/// Checking statements one after another keeps the frame.
pub proof fn lemma_stmts_frame(st: StmtState, stmts: Vec<Stmt>, i: int)
    requires
        st.env.symbols.len() > 0,
    ensures
        check_stmts(st, stmts, i) matches Ok(st2) ==> keeps_frame(st, st2),
    decreases stmts, 0int, stmts@.len() - i,
{
    if 0 <= i < stmts@.len() {
        assert(decreases_to!(stmts => stmts@[i]));
        lemma_stmt_frame(st, stmts@[i]);
        if let Ok(st2) = check_stmt(st, stmts@[i]) {
            lemma_stmts_frame(st2, stmts, i + 1);
        }
    }
}

/// The functions a table's signatures name are those of the table.
pub proof fn lemma_sigs_dom(funcs: Map<Seq<char>, FuncData>)
    ensures
        sigs_of(funcs).dom() == funcs.dom(),
{
    assert(sigs_of(funcs).dom() =~= funcs.dom());
}

/// The tables a program's declarations give, and whether a `return`
/// statement was seen in the methods checked so far.
#[verifier::ext_equal]
pub struct Decls {
    pub funcs: Map<Seq<char>, FuncSig>,
    pub structs: Map<Seq<char>, StructView>,
    pub enums: Map<Seq<char>, Seq<String>>,
    pub return_found: bool,
}

/// The tables of the analyser.
pub open spec fn decls_of(a: Analyser) -> Decls {
    Decls {
        funcs: sigs_of(a.user_types.funcs@),
        structs: structs_view(a.user_types.structs@),
        enums: enums_view(a.user_types.enums@),
        return_found: a.return_stmt_found,
    }
}

/// The state in which top-level statements are checked, or, when `current`
/// names a struct, that struct's methods: one empty scope, outside any
/// function.
pub open spec fn top_state(d: Decls, current: Option<String>) -> StmtState {
    StmtState {
        env: CheckEnv {
            symbols: seq![Map::<Seq<char>, Symbol>::empty()],
            funcs: d.funcs,
            structs: d.structs,
            enums: d.enums,
            current_struct: current,
            use_self: false,
        },
        return_ty: None,
        return_found: d.return_found,
    }
}

/// The signature a function declaration gives.
pub open spec fn decl_sig(params: Seq<(ValueType, String)>, return_ty: ValueType, use_self: bool) -> FuncSig {
    FuncSig { params: params.map_values(|p: (ValueType, String)| p.0), return_ty, use_self }
}

/// The name and signature a method declaration gives.
pub open spec fn method_decl(m: Stmt) -> (String, FuncSig) {
    match m.stmt {
        StmtType::Func { name, parameters, return_ty, use_self, .. } => (
            name,
            decl_sig(parameters@, return_ty, use_self),
        ),
        _ => arbitrary(),
    }
}

/// The names and signatures the methods of a struct declaration give.
pub open spec fn method_decls(methods: Seq<Stmt>) -> Seq<(String, FuncSig)> {
    methods.map_values(|m: Stmt| method_decl(m))
}

/// Checking the methods of the struct `name` from position `i` on, each as a
/// function declaration inside the struct.
pub open spec fn check_methods(d: Decls, name: String, methods: Vec<Stmt>, i: int) -> Result<
    Decls,
    SemErr,
>
    decreases methods@.len() - i,
{
    if i < 0 || i >= methods@.len() {
        Ok(d)
    } else {
        match check_stmt(top_state(d, Some(name)), methods@[i]) {
            Err(err) => Err(err),
            Ok(st) => check_methods(
                Decls {
                    funcs: d.funcs,
                    structs: d.structs,
                    enums: d.enums,
                    return_found: st.return_found,
                },
                name,
                methods,
                i + 1,
            ),
        }
    }
}

/// What one top-level statement declares: an enum, a function, or a struct,
/// whose methods are then checked; a name may be declared once as each kind.
pub open spec fn declare_one(d: Decls, s: Stmt) -> Result<Decls, SemErr> {
    let line = s.line;
    match s.stmt {
        StmtType::Enum { name, variants } => if d.enums.contains_key(name@) {
            Err(SemErr { ty: SemErrType::AlreadyDefinedEnum(name), line })
        } else {
            Ok(
                Decls {
                    funcs: d.funcs,
                    structs: d.structs,
                    enums: d.enums.insert(name@, variants@),
                    return_found: d.return_found,
                },
            )
        },
        StmtType::Func { name, parameters, return_ty, use_self, .. } => if d.funcs.contains_key(
            name@,
        ) {
            Err(SemErr { ty: SemErrType::AlreadyDefinedFunc(name), line })
        } else {
            Ok(
                Decls {
                    funcs: d.funcs.insert(name@, decl_sig(parameters@, return_ty, use_self)),
                    structs: d.structs,
                    enums: d.enums,
                    return_found: d.return_found,
                },
            )
        },
        StmtType::Struct { name, fields, methods } => if d.structs.contains_key(name@) {
            Err(SemErr { ty: SemErrType::AlreadyDefinedStruct(name), line })
        } else {
            let view = StructView { fields: fields@, methods: method_decls(methods@) };
            let d2 = Decls {
                funcs: d.funcs,
                structs: d.structs.insert(name@, view),
                enums: d.enums,
                return_found: d.return_found,
            };
            check_methods(d2, name, methods, 0)
        },
        _ => Ok(d),
    }
}

/// The declarations of statements from position `i` on, one after another,
/// stopping at the first error.
pub open spec fn declare_all(d: Decls, stmts: Seq<Stmt>, i: int) -> Result<Decls, SemErr>
    decreases stmts.len() - i,
{
    if i < 0 || i >= stmts.len() {
        Ok(d)
    } else {
        match declare_one(d, stmts[i]) {
            Err(err) => Err(err),
            Ok(d2) => declare_all(d2, stmts, i + 1),
        }
    }
}

/// No declarations yet.
pub open spec fn no_decls() -> Decls {
    Decls { funcs: Map::empty(), structs: Map::empty(), enums: Map::empty(), return_found: false }
}

/// The rules for a whole program: its declarations, then a `main` function,
/// then every statement checked in order. Gives the tables, or the first
/// error found.
pub open spec fn check_program(stmts: Vec<Stmt>) -> Result<Decls, SemErr> {
    match declare_all(no_decls(), stmts@, 0) {
        Err(err) => Err(err),
        Ok(d) => if !d.funcs.contains_key("main"@) {
            Err(SemErr { ty: SemErrType::NoMainFunc, line: 0 })
        } else {
            match check_stmts(top_state(d, None), stmts, 0) {
                Err(err) => Err(err),
                Ok(st) => Ok(d),
            }
        },
    }
}

} // verus!
