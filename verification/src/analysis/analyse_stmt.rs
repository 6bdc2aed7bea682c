use vstd::prelude::*;

use super::rules::{
    check_expr, check_func, check_stmt, check_stmts, declare_params, enums_view, env_of,
    lemma_funcs_kept_step, funcs_kept_from, func_head, func_heads, funcs_kept, funcs_kept_in, has_func,
    has_func_in, lemma_sigs_dom, lemma_spine_coerce, lemma_stmt_frame,
    same_error, same_spine, state_of, structs_view, CheckEnv,
};
use super::types::{resolved_type, SemErr, SemErrType, Symbol};
use super::Analyser;
use crate::expression::{Expr, ExprType};
use crate::statement::{copy_stmts, same_stmts, Stmt, StmtType};
use crate::token::Literal;
use crate::value::{copy_type, ValueType};

verus! {

/// What making an expression fit `target` does to it, and whether it fits:
/// an `Int` literal becomes a `Uint` literal of the same bits when the target
/// is `Uint`, and a binary expression fits when both operands do. The
/// operands are converted left to right, and the conversion stops at the
/// first operand that does not fit.
pub open spec fn coerce_spec(e: ExprType, target: ValueType) -> (bool, ExprType)
    decreases e,
{
    match e {
        ExprType::Lit(Literal::I64(n)) => if target is U64 {
            (true, ExprType::Lit(Literal::U64(n as u64)))
        } else {
            (false, e)
        },
        ExprType::Binary { left, op, right } => {
            let (lb, le) = coerce_spec(left.expr, target);
            let new_left = Box::new(Expr { expr: le, line: left.line, end_ty: left.end_ty });
            if lb {
                let (rb, re) = coerce_spec(right.expr, target);
                let new_right = Box::new(Expr { expr: re, line: right.line, end_ty: right.end_ty });
                (rb, ExprType::Binary { left: new_left, op, right: new_right })
            } else {
                (false, ExprType::Binary { left: new_left, op, right })
            }
        },
        _ => (false, e),
    }
}

/// The spine a checked value of type `vt` and spine `form` takes where a
/// value of type `want` is expected: unchanged when its type already is
/// `want` or `null` (or, where `any_ok` holds, unknown), else fitted to `want`.
pub open spec fn fitted_form(vt: ValueType, want: ValueType, form: ExprType, any_ok: bool) -> ExprType {
    if vt@ == want@ || vt is Null || (any_ok && vt is Any) {
        form
    } else {
        coerce_spec(form, want).1
    }
}

/// The parameters of a function with their types resolved to the structs and
/// enums they name.
pub open spec fn resolved_params<S, E>(
    structs: Map<Seq<char>, S>,
    enums: Map<Seq<char>, E>,
    params: Seq<(ValueType, String)>,
) -> Seq<(ValueType, String)> {
    params.map_values(|p: (ValueType, String)| (resolved_type(structs, enums, p.0), p.1))
}

/// Resolving parameter types reads only which names the tables hold, so the
/// analyser's tables and their views resolve alike.
pub proof fn lemma_resolved_params_views(a: Analyser, params: Seq<(ValueType, String)>)
    ensures
        resolved_params(env_of(a).structs, env_of(a).enums, params) == resolved_params(
            a.user_types.structs@,
            a.user_types.enums@,
            params,
        ),
{
    let x = resolved_params(env_of(a).structs, env_of(a).enums, params);
    let y = resolved_params(a.user_types.structs@, a.user_types.enums@, params);
    assert forall|i: int| 0 <= i < params.len() implies x[i] == y[i] by {
        let t = params[i].0;
        if let ValueType::UnknownType(n) = t {
            assert(env_of(a).structs.contains_key(n@) == a.user_types.structs@.contains_key(n@));
            assert(env_of(a).enums.contains_key(n@) == a.user_types.enums@.contains_key(n@));
        }
    }
    assert(x =~= y);
}

/// A statement as checking leaves it: a declaration keeps its name, its type
/// is resolved, and its value carries its type, its literals fitted to the
/// declared type; a `return` value carries its type, fitted to the return
/// type; the value of an expression or `println` statement carries its type;
/// a function has its parameter types resolved; no other statement becomes
/// a function.
pub open spec fn checked_stmt(
    env: CheckEnv,
    return_ty: Option<ValueType>,
    before: Stmt,
    after: Stmt,
) -> bool {
    &&& after.line == before.line
    &&& match before.stmt {
        StmtType::VarDecl { name, value, ty } => {
            let rt = resolved_type(env.structs, env.enums, ty);
            match check_expr(env, value) {
                Ok((vt, vf)) => after.stmt matches StmtType::VarDecl { name: n2, value: v2, ty: t2 }
                    && n2 == name && t2 == rt && v2.line == value.line && v2.end_ty == vt
                    && same_spine(v2.expr, fitted_form(vt, rt, vf, true)),
                Err(_) => false,
            }
        },
        StmtType::Return(e) => match check_expr(env, e) {
            Ok((vt, vf)) => after.stmt matches StmtType::Return(e2) && e2.line == e.line
                && e2.end_ty == vt && same_spine(
                e2.expr,
                match return_ty {
                    Some(rt) => fitted_form(vt, rt, vf, false),
                    None => vf,
                },
            ),
            Err(_) => false,
        },
        StmtType::Expr(e) => match check_expr(env, e) {
            Ok((vt, vf)) => after.stmt matches StmtType::Expr(e2) && e2.line == e.line && e2.end_ty
                == vt && same_spine(e2.expr, vf),
            Err(_) => false,
        },
        StmtType::Println(e) => match check_expr(env, e) {
            Ok((vt, vf)) => after.stmt matches StmtType::Println(e2) && e2.line == e.line
                && e2.end_ty == vt && same_spine(e2.expr, vf),
            Err(_) => false,
        },
        StmtType::Func { name, parameters, return_ty: frt, use_self, .. } => after.stmt
            matches StmtType::Func { name: n2, parameters: p2, return_ty: r2, use_self: u2, .. }
            && n2 == name && r2 == frt && u2 == use_self && p2@ == resolved_params(
            env.structs,
            env.enums,
            parameters@,
        ),
        _ => !(after.stmt is Func),
    }
}

/// Only `Uint` as a target changes an expression; any other target leaves it
/// as it is and reports that it does not fit.
pub proof fn lemma_coerce_only_to_uint(e: ExprType, target: ValueType)
    requires
        !(target is U64),
    ensures
        coerce_spec(e, target) == (false, e),
    decreases e,
{
    if let ExprType::Binary { left, op, right } = e {
        lemma_coerce_only_to_uint(left.expr, target);
        assert(Box::new(Expr { expr: left.expr, line: left.line, end_ty: left.end_ty }) == left);
    }
}

/// Makes an expression fit the type `target` where it can (see
/// `coerce_spec`); tells whether it fits.
pub fn try_coerce(expr: &mut ExprType, target: &ValueType) -> (r: bool)
    ensures
        (r, *final(expr)) == coerce_spec(*old(expr), *target),
    decreases *old(expr),
{
    match expr {
        ExprType::Lit(lit) => {
            let is_u64 = match target {
                ValueType::U64 => true,
                _ => false,
            };
            match lit {
                Literal::I64(n) => {
                    if is_u64 {
                        let v = *n as u64;
                        *lit = Literal::U64(v);
                        true
                    } else {
                        false
                    }
                },
                _ => false,
            }
        },
        ExprType::Binary { left, right, .. } => {
            if try_coerce(&mut left.expr, target) {
                try_coerce(&mut right.expr, target)
            } else {
                false
            }
        },
        _ => false,
    }
}

impl Analyser {
    /// Checks a statement, recording the types of its expressions and the
    /// variables it declares.
    pub fn analyse_stmt(&mut self, stmt: &mut Stmt) -> (r: Result<(), SemErr>)
        requires
            old(self).symbols@.len() > 0,
        ensures
            r is Ok ==> final(self).symbols@.len() == old(self).symbols@.len(),
            r is Ok ==> final(self).symbols@.drop_last() == old(self).symbols@.drop_last(),
            r is Ok ==> final(self).user_types.structs@ == old(self).user_types.structs@,
            r is Ok ==> final(self).user_types.enums@ == old(self).user_types.enums@,
            r is Ok ==> final(self).user_types.funcs@.dom() == old(self).user_types.funcs@.dom(),
            r is Ok ==> final(self).current_return_ty == old(self).current_return_ty,
            r is Ok ==> final(self).current_use_self == old(self).current_use_self,
            r is Ok ==> final(self).current_struct == old(self).current_struct,
            r is Ok ==> final(stmt).line == old(stmt).line,
            r is Ok && (old(stmt).stmt is Block || old(stmt).stmt is For || old(stmt).stmt is Func)
                ==> final(self).symbols@ == old(self).symbols@,
            r is Ok && old(stmt).stmt is If ==> (final(stmt).stmt matches StmtType::If {
                condition,
                ..
            } && condition.end_ty == ValueType::Bool),
            r is Ok && old(stmt).stmt is While ==> (final(stmt).stmt matches StmtType::While {
                condition,
                ..
            } && condition.end_ty == ValueType::Bool),
            (old(stmt).stmt is Break || old(stmt).stmt is Continue || old(stmt).stmt is Struct
                || old(stmt).stmt is Enum) ==> r is Ok && *final(self) == *old(self) && *final(stmt)
                == *old(stmt),
            match check_stmt(state_of(*old(self)), *old(stmt)) {
                Ok(st) => r is Ok && state_of(*final(self)) == st,
                Err(err) => r matches Err(e) && e.line == err.line && same_error(e.ty, err.ty),
            },
            r is Ok ==> checked_stmt(
                env_of(*old(self)),
                old(self).current_return_ty,
                *old(stmt),
                *final(stmt),
            ),
            old(stmt).stmt matches StmtType::VarDecl { ty: ValueType::UnknownType(t), .. } ==> (
            !old(self).user_types.structs@.contains_key(t@)
                && !old(self).user_types.enums@.contains_key(t@) ==> r == Err::<(), SemErr>(
                SemErr { ty: SemErrType::UndefinedType(t), line: old(stmt).line },
            ) && *final(self) == *old(self) && *final(stmt) == *old(stmt)),
            old(stmt).stmt is Return ==> final(self).return_stmt_found,
            r is Ok ==> func_heads(final(self).user_types.funcs@) == func_heads(
                old(self).user_types.funcs@,
            ),
            r is Ok && (old(self).current_return_ty is Some || !has_func(*old(stmt))) ==> final(self).user_types.funcs@ == old(self).user_types.funcs@,
            r is Ok ==> funcs_kept(old(self).user_types.funcs@, final(self).user_types.funcs@, *old(stmt)),
            r is Ok ==> (old(stmt).stmt matches StmtType::Func { name, .. } ==> forall|k: Seq<char>|
                k != name@ && old(self).user_types.funcs@.contains_key(k) ==> #[trigger] final(self).user_types.funcs@[k] == old(self).user_types.funcs@[k]),
            r is Ok ==> (old(stmt).stmt matches StmtType::Func { name, .. } ==> (old(
                self,
            ).user_types.funcs@.contains_key(name@) ==> (final(stmt).stmt matches StmtType::Func {
                body: b2,
                ..
            } && same_stmts(final(self).user_types.funcs@[name@].body, b2)))),
        decreases *old(stmt), 2nat,
    {
        let r = if matches!(stmt.stmt, StmtType::VarDecl { .. }) {
            self.analyse_var_decl(stmt)
        } else if matches!(stmt.stmt, StmtType::Return(_)) {
            self.analyse_return(stmt)
        } else if matches!(stmt.stmt, StmtType::Block(_)) {
            self.analyse_block(stmt)
        } else if matches!(stmt.stmt, StmtType::If { .. }) {
            self.analyse_if(stmt)
        } else if matches!(stmt.stmt, StmtType::While { .. }) {
            self.analyse_while(stmt)
        } else if matches!(stmt.stmt, StmtType::For { .. }) {
            self.analyse_for(stmt)
        } else {
            self.analyse_simple_stmt(stmt)
        };
        proof {
            let st0 = state_of(*old(self));
            lemma_stmt_frame(st0, *old(stmt));
            lemma_sigs_dom(old(self).user_types.funcs@);
            lemma_sigs_dom(self.user_types.funcs@);
        }
        r
    }

    /// Checks an expression or `println` statement, a function declaration, or a
    /// statement with nothing to check.
    fn analyse_simple_stmt(&mut self, stmt: &mut Stmt) -> (r: Result<(), SemErr>)
        requires
            old(self).symbols@.len() > 0,
            old(stmt).stmt is Expr || old(stmt).stmt is Println || old(stmt).stmt is Func || old(stmt).stmt is Break || old(stmt).stmt is Continue || old(stmt).stmt is Struct || old(stmt).stmt is Enum,
        ensures
            r is Ok ==> final(stmt).line == old(stmt).line,
            r is Ok ==> final(self).user_types.structs@ == old(self).user_types.structs@,
            r is Ok ==> final(self).user_types.enums@ == old(self).user_types.enums@,
            (old(stmt).stmt is Break || old(stmt).stmt is Continue || old(stmt).stmt is Struct
                || old(stmt).stmt is Enum) ==> r is Ok && *final(self) == *old(self) && *final(stmt)
                == *old(stmt),
            match check_stmt(state_of(*old(self)), *old(stmt)) {
                Ok(st) => r is Ok && state_of(*final(self)) == st,
                Err(err) => r matches Err(e) && e.line == err.line && same_error(e.ty, err.ty),
            },
            r is Ok ==> checked_stmt(
                env_of(*old(self)),
                old(self).current_return_ty,
                *old(stmt),
                *final(stmt),
            ),
            r is Ok ==> func_heads(final(self).user_types.funcs@) == func_heads(
                old(self).user_types.funcs@,
            ),
            r is Ok && (old(self).current_return_ty is Some || !has_func(*old(stmt))) ==> final(self).user_types.funcs@ == old(self).user_types.funcs@,
            r is Ok ==> funcs_kept(old(self).user_types.funcs@, final(self).user_types.funcs@, *old(stmt)),
            r is Ok ==> (old(stmt).stmt matches StmtType::Func { name, .. } ==> forall|k: Seq<char>|
                k != name@ && old(self).user_types.funcs@.contains_key(k) ==> #[trigger] final(self).user_types.funcs@[k] == old(self).user_types.funcs@[k]),
            r is Ok ==> (old(stmt).stmt matches StmtType::Func { name, .. } ==> (old(
                self,
            ).user_types.funcs@.contains_key(name@) ==> (final(stmt).stmt matches StmtType::Func {
                body: b2,
                ..
            } && same_stmts(final(self).user_types.funcs@[name@].body, b2)))),
        decreases *old(stmt), 1nat,
    {
        let line = stmt.get_line();
        match &mut stmt.stmt {
            StmtType::Expr(expr) => {
                self.analyse_expr(expr)?;
            },
            StmtType::Println(expr) => {
                self.analyse_expr(expr)?;
            },
            StmtType::Func { name, parameters, body, return_ty, use_self } => {
                proof {
                    lemma_resolved_params_views(*old(self), parameters@);
                }
                self.analyse_func_stmt(copy_type(return_ty), parameters, line, body, name, *use_self)?;
            },
            _ => {},
        }
        proof {
            assert(state_of(*self) =~= state_of(*old(self)) || !(old(stmt).stmt is Expr
                || old(stmt).stmt is Println));
        }
        Ok(())
    }

    /// Checks a variable declaration: its type must exist and its value fit it.
    fn analyse_var_decl(&mut self, stmt: &mut Stmt) -> (r: Result<(), SemErr>)
        requires
            old(self).symbols@.len() > 0,
            old(stmt).stmt is VarDecl,
        ensures
            r is Ok ==> final(stmt).line == old(stmt).line,
            r is Ok ==> final(self).user_types.structs@ == old(self).user_types.structs@,
            r is Ok ==> final(self).user_types.enums@ == old(self).user_types.enums@,
            match check_stmt(state_of(*old(self)), *old(stmt)) {
                Ok(st) => r is Ok && state_of(*final(self)) == st,
                Err(err) => r matches Err(e) && e.line == err.line && same_error(e.ty, err.ty),
            },
            r is Ok ==> checked_stmt(
                env_of(*old(self)),
                old(self).current_return_ty,
                *old(stmt),
                *final(stmt),
            ),
            old(stmt).stmt matches StmtType::VarDecl { ty: ValueType::UnknownType(t), .. } ==> (
            !old(self).user_types.structs@.contains_key(t@)
                && !old(self).user_types.enums@.contains_key(t@) ==> r == Err::<(), SemErr>(
                SemErr { ty: SemErrType::UndefinedType(t), line: old(stmt).line },
            ) && *final(self) == *old(self) && *final(stmt) == *old(stmt)),
            r is Ok ==> func_heads(final(self).user_types.funcs@) == func_heads(
                old(self).user_types.funcs@,
            ),
            r is Ok && (old(self).current_return_ty is Some || !has_func(*old(stmt))) ==> final(self).user_types.funcs@ == old(self).user_types.funcs@,
            r is Ok ==> funcs_kept(old(self).user_types.funcs@, final(self).user_types.funcs@, *old(stmt)),
        decreases *old(stmt), 1nat,
    {
        let line = stmt.get_line();
        match &mut stmt.stmt {
            StmtType::VarDecl { name, value, ty } => {
                let undefined = match &*ty {
                    ValueType::UnknownType(ty_name) => {
                        if !self.user_types.structs.contains_key(ty_name)
                            && !self.user_types.enums.contains_key(ty_name) {
                            Some(ty_name.clone())
                        } else {
                            None
                        }
                    },
                    _ => None,
                };
                if let Some(ty_name) = undefined {
                    let err = SemErrType::UndefinedType(ty_name);
                    return Err(SemErr::new(line, err));
                }
                self.user_types.resolve_value_ty(ty);
                let ghost v0 = *value;
                let value_ty = self.analyse_expr(value)?;
                proof {
                    let vf = check_expr(env_of(*old(self)), v0)->Ok_0.1;
                    lemma_spine_coerce(value.expr, vf, *ty);
                }
                if value_ty != *ty && value_ty != ValueType::Null && value_ty != ValueType::Any
                    && !try_coerce(&mut value.expr, ty) {
                    let err_ty = SemErrType::VarDeclTypeMismatch(copy_type(ty), value_ty);
                    return Err(SemErr::new(line, err_ty));
                }
                self.symbols.declare(Symbol::new(name.clone(), copy_type(ty)), line)?;
                Ok(())
            },
            _ => Ok(()),
        }
    }

    /// Checks a `return` statement against the return type of the function.
    fn analyse_return(&mut self, stmt: &mut Stmt) -> (r: Result<(), SemErr>)
        requires
            old(self).symbols@.len() > 0,
            old(stmt).stmt is Return,
        ensures
            r is Ok ==> final(stmt).line == old(stmt).line,
            r is Ok ==> final(self).user_types.structs@ == old(self).user_types.structs@,
            r is Ok ==> final(self).user_types.enums@ == old(self).user_types.enums@,
            match check_stmt(state_of(*old(self)), *old(stmt)) {
                Ok(st) => r is Ok && state_of(*final(self)) == st,
                Err(err) => r matches Err(e) && e.line == err.line && same_error(e.ty, err.ty),
            },
            r is Ok ==> checked_stmt(
                env_of(*old(self)),
                old(self).current_return_ty,
                *old(stmt),
                *final(stmt),
            ),
            final(self).return_stmt_found,
            r is Ok ==> func_heads(final(self).user_types.funcs@) == func_heads(
                old(self).user_types.funcs@,
            ),
            r is Ok && (old(self).current_return_ty is Some || !has_func(*old(stmt))) ==> final(self).user_types.funcs@ == old(self).user_types.funcs@,
            r is Ok ==> funcs_kept(old(self).user_types.funcs@, final(self).user_types.funcs@, *old(stmt)),
        decreases *old(stmt), 1nat,
    {
        let line = stmt.get_line();
        match &mut stmt.stmt {
            StmtType::Return(expr) => {
                self.return_stmt_found = true;
                let ghost e0 = *expr;
                let return_ty = self.analyse_expr(expr)?;
                if let Some(expected_return_ty) = &self.current_return_ty {
                    proof {
                        let vf = check_expr(env_of(*old(self)), e0)->Ok_0.1;
                        lemma_spine_coerce(expr.expr, vf, *expected_return_ty);
                    }
                    if return_ty != *expected_return_ty && return_ty != ValueType::Null
                        && !try_coerce(&mut expr.expr, expected_return_ty) {
                        let err_ty = SemErrType::IncorrectReturnTy(
                            copy_type(expected_return_ty),
                            return_ty,
                        );
                        return Err(SemErr::new(line, err_ty));
                    }
                }
                Ok(())
            },
            _ => Ok(()),
        }
    }

    /// Checks a block in a scope of its own.
    fn analyse_block(&mut self, stmt: &mut Stmt) -> (r: Result<(), SemErr>)
        requires
            old(self).symbols@.len() > 0,
            old(stmt).stmt is Block,
        ensures
            r is Ok ==> !(final(stmt).stmt is Func),
            r is Ok ==> final(stmt).line == old(stmt).line,
            r is Ok ==> final(self).user_types.structs@ == old(self).user_types.structs@,
            r is Ok ==> final(self).user_types.enums@ == old(self).user_types.enums@,
            match check_stmt(state_of(*old(self)), *old(stmt)) {
                Ok(st) => r is Ok && state_of(*final(self)) == st,
                Err(err) => r matches Err(e) && e.line == err.line && same_error(e.ty, err.ty),
            },
            r is Ok ==> func_heads(final(self).user_types.funcs@) == func_heads(
                old(self).user_types.funcs@,
            ),
            r is Ok && (old(self).current_return_ty is Some || !has_func(*old(stmt))) ==> final(self).user_types.funcs@ == old(self).user_types.funcs@,
            r is Ok ==> funcs_kept(old(self).user_types.funcs@, final(self).user_types.funcs@, *old(stmt)),
        decreases *old(stmt), 1nat,
    {
        let line = stmt.get_line();
        match &mut stmt.stmt {
            StmtType::Block(stmts) => {
                self.symbols.begin_scope();
                self.analyse_stmt_list(stmts)?;
                self.symbols.end_scope();
                Ok(())
            },
            _ => Ok(()),
        }
    }

    /// Checks an `if` statement: its condition must be a `Bool`.
    fn analyse_if(&mut self, stmt: &mut Stmt) -> (r: Result<(), SemErr>)
        requires
            old(self).symbols@.len() > 0,
            old(stmt).stmt is If,
        ensures
            r is Ok ==> !(final(stmt).stmt is Func),
            r is Ok ==> final(stmt).line == old(stmt).line,
            r is Ok ==> final(self).user_types.structs@ == old(self).user_types.structs@,
            r is Ok ==> final(self).user_types.enums@ == old(self).user_types.enums@,
            r is Ok && old(stmt).stmt is If ==> (final(stmt).stmt matches StmtType::If {
                condition,
                ..
            } && condition.end_ty == ValueType::Bool),
            match check_stmt(state_of(*old(self)), *old(stmt)) {
                Ok(st) => r is Ok && state_of(*final(self)) == st,
                Err(err) => r matches Err(e) && e.line == err.line && same_error(e.ty, err.ty),
            },
            r is Ok ==> func_heads(final(self).user_types.funcs@) == func_heads(
                old(self).user_types.funcs@,
            ),
            r is Ok && (old(self).current_return_ty is Some || !has_func(*old(stmt))) ==> final(self).user_types.funcs@ == old(self).user_types.funcs@,
            r is Ok ==> funcs_kept(old(self).user_types.funcs@, final(self).user_types.funcs@, *old(stmt)),
        decreases *old(stmt), 1nat,
    {
        let line = stmt.get_line();
        match &mut stmt.stmt {
            StmtType::If { condition, body, final_else } => {
                let condition_ty = self.analyse_expr(condition)?;
                if condition_ty != ValueType::Bool {
                    let err_ty = SemErrType::InvalidIfCondition(condition_ty);
                    return Err(SemErr::new(line, err_ty));
                }
                self.analyse_stmt(&mut **body)?;
                if let Some(final_else) = final_else {
                    self.analyse_stmt(&mut **final_else)?;
                }
                Ok(())
            },
            _ => Ok(()),
        }
    }

    /// Checks a `while` statement: its condition must be a `Bool`.
    fn analyse_while(&mut self, stmt: &mut Stmt) -> (r: Result<(), SemErr>)
        requires
            old(self).symbols@.len() > 0,
            old(stmt).stmt is While,
        ensures
            r is Ok ==> !(final(stmt).stmt is Func),
            r is Ok ==> final(stmt).line == old(stmt).line,
            r is Ok ==> final(self).user_types.structs@ == old(self).user_types.structs@,
            r is Ok ==> final(self).user_types.enums@ == old(self).user_types.enums@,
            r is Ok && old(stmt).stmt is While ==> (final(stmt).stmt matches StmtType::While {
                condition,
                ..
            } && condition.end_ty == ValueType::Bool),
            match check_stmt(state_of(*old(self)), *old(stmt)) {
                Ok(st) => r is Ok && state_of(*final(self)) == st,
                Err(err) => r matches Err(e) && e.line == err.line && same_error(e.ty, err.ty),
            },
            r is Ok ==> func_heads(final(self).user_types.funcs@) == func_heads(
                old(self).user_types.funcs@,
            ),
            r is Ok && (old(self).current_return_ty is Some || !has_func(*old(stmt))) ==> final(self).user_types.funcs@ == old(self).user_types.funcs@,
            r is Ok ==> funcs_kept(old(self).user_types.funcs@, final(self).user_types.funcs@, *old(stmt)),
        decreases *old(stmt), 1nat,
    {
        let line = stmt.get_line();
        match &mut stmt.stmt {
            StmtType::While { condition, body } => {
                let condition_ty = self.analyse_expr(condition)?;
                if condition_ty != ValueType::Bool {
                    let err_ty = SemErrType::InvalidWhileCondition(condition_ty);
                    return Err(SemErr::new(line, err_ty));
                }
                self.analyse_stmt(&mut **body)?;
                Ok(())
            },
            _ => Ok(()),
        }
    }

    /// Checks a `for` loop in a scope of its own.
    fn analyse_for(&mut self, stmt: &mut Stmt) -> (r: Result<(), SemErr>)
        requires
            old(self).symbols@.len() > 0,
            old(stmt).stmt is For,
        ensures
            r is Ok ==> !(final(stmt).stmt is Func),
            r is Ok ==> final(stmt).line == old(stmt).line,
            r is Ok ==> final(self).user_types.structs@ == old(self).user_types.structs@,
            r is Ok ==> final(self).user_types.enums@ == old(self).user_types.enums@,
            match check_stmt(state_of(*old(self)), *old(stmt)) {
                Ok(st) => r is Ok && state_of(*final(self)) == st,
                Err(err) => r matches Err(e) && e.line == err.line && same_error(e.ty, err.ty),
            },
            r is Ok ==> func_heads(final(self).user_types.funcs@) == func_heads(
                old(self).user_types.funcs@,
            ),
            r is Ok && (old(self).current_return_ty is Some || !has_func(*old(stmt))) ==> final(self).user_types.funcs@ == old(self).user_types.funcs@,
            r is Ok ==> funcs_kept(old(self).user_types.funcs@, final(self).user_types.funcs@, *old(stmt)),
        decreases *old(stmt), 1nat,
    {
        let line = stmt.get_line();
        match &mut stmt.stmt {
            StmtType::For { var, condition, body } => {
                self.symbols.begin_scope();
                self.analyse_stmt(&mut **var)?;
                self.analyse_expr(condition)?;
                self.analyse_stmt(&mut **body)?;
                self.symbols.end_scope();
                Ok(())
            },
            _ => Ok(()),
        }
    }

    /// Checks statements one after another, stopping at the first error.
    fn analyse_stmt_list(&mut self, stmts: &mut Vec<Stmt>) -> (r: Result<(), SemErr>)
        requires
            old(self).symbols@.len() > 0,
        ensures
            r is Ok ==> final(self).symbols@.len() == old(self).symbols@.len(),
            r is Ok ==> final(self).symbols@.drop_last() == old(self).symbols@.drop_last(),
            r is Ok ==> final(self).user_types.structs@ == old(self).user_types.structs@,
            r is Ok ==> final(self).user_types.enums@ == old(self).user_types.enums@,
            r is Ok ==> final(self).user_types.funcs@.dom() == old(self).user_types.funcs@.dom(),
            r is Ok ==> final(self).current_return_ty == old(self).current_return_ty,
            r is Ok ==> final(self).current_use_self == old(self).current_use_self,
            r is Ok ==> final(self).current_struct == old(self).current_struct,
            r is Ok ==> final(stmts)@.len() == old(stmts)@.len(),
            match check_stmts(state_of(*old(self)), *old(stmts), 0) {
                Ok(st) => r is Ok && state_of(*final(self)) == st,
                Err(err) => r matches Err(e) && e.line == err.line && same_error(e.ty, err.ty),
            },
            r is Ok ==> func_heads(final(self).user_types.funcs@) == func_heads(
                old(self).user_types.funcs@,
            ),
            r is Ok && (old(self).current_return_ty is Some || !has_func_in(*old(stmts), 0))
                ==> final(self).user_types.funcs@ == old(self).user_types.funcs@,
            r is Ok ==> funcs_kept_in(old(self).user_types.funcs@, final(self).user_types.funcs@, *old(stmts)),
        decreases *old(stmts), 0nat,
    {
        let ghost orig = *stmts;
        assert(orig@.len() == stmts.len());
        let mut rest: Vec<Stmt> = Vec::new();
        std::mem::swap(&mut rest, stmts);
        let mut done: Vec<Stmt> = Vec::new();
        let mut i: usize = 0;
        while rest.len() > 0
            invariant
                self.symbols@.len() == old(self).symbols@.len(),
                self.symbols@.drop_last() == old(self).symbols@.drop_last(),
                self.user_types.structs@ == old(self).user_types.structs@,
                self.user_types.enums@ == old(self).user_types.enums@,
                self.user_types.funcs@.dom() == old(self).user_types.funcs@.dom(),
                self.current_return_ty == old(self).current_return_ty,
                self.current_use_self == old(self).current_use_self,
                self.current_struct == old(self).current_struct,
                old(self).symbols@.len() > 0,
                orig == *old(stmts),
                i == done@.len(),
                i + rest@.len() == orig@.len(),
                orig@.len() <= usize::MAX,
                rest@ == orig@.subrange(i as int, orig@.len() as int),
                check_stmts(state_of(*old(self)), orig, 0) == check_stmts(
                    state_of(*self),
                    orig,
                    i as int,
                ),
                func_heads(self.user_types.funcs@) == func_heads(old(self).user_types.funcs@),
                (old(self).current_return_ty is Some || !has_func_in(orig, 0))
                    ==> self.user_types.funcs@ == old(self).user_types.funcs@,
                !has_func_in(orig, 0) ==> !has_func_in(orig, i as int),
                funcs_kept_from(old(self).user_types.funcs@, self.user_types.funcs@, orig, i as int),
            decreases rest@.len(),
        {
            let mut s = rest.remove(0);
            proof {
                assert(s == orig@[i as int]);
                assert(decreases_to!(orig => orig[i as int]));
            }
            let ghost f0 = self.user_types.funcs@;
            let ghost i0 = i as int;
            self.analyse_stmt(&mut s)?;
            proof {
                lemma_funcs_kept_step(old(self).user_types.funcs@, f0, self.user_types.funcs@, orig, i0);
            }
            done.push(s);
            i += 1;
            assert(rest@ == orig@.subrange(i as int, orig@.len() as int));
        }
        *stmts = done;
        Ok(())
    }

    /// Checks a function: its parameters become variables of a new scope in
    /// which the body is checked against the return type.
    fn analyse_func_stmt(
        &mut self,
        return_ty: ValueType,
        parameters: &mut Vec<(ValueType, String)>,
        line: u32,
        body: &mut Vec<Stmt>,
        name: &String,
        use_self: bool,
    ) -> (r: Result<(), SemErr>)
        requires
            old(self).symbols@.len() > 0,
        ensures
            old(self).current_return_ty is Some ==> r == Err::<(), SemErr>(
                SemErr { ty: SemErrType::FuncDefInFunc(*name), line },
            ) && *final(self) == *old(self) && *final(parameters) == *old(parameters) && *final(body) == *old(body),
            r is Ok ==> final(parameters)@ == resolved_params(
                old(self).user_types.structs@,
                old(self).user_types.enums@,
                old(parameters)@,
            ),
            r is Ok ==> final(self).symbols@ == old(self).symbols@,
            r is Ok ==> final(self).user_types.structs@ == old(self).user_types.structs@,
            r is Ok ==> final(self).user_types.enums@ == old(self).user_types.enums@,
            r is Ok ==> final(self).user_types.funcs@.dom() == old(self).user_types.funcs@.dom(),
            r is Ok ==> final(self).current_return_ty == old(self).current_return_ty,
            r is Ok ==> final(self).current_use_self == old(self).current_use_self,
            r is Ok ==> final(self).current_struct == old(self).current_struct,
            r is Ok && old(self).user_types.funcs@.contains_key(name@) ==> same_stmts(
                final(self).user_types.funcs@[name@].body,
                *final(body),
            ),
            match check_func(
                state_of(*old(self)),
                *name,
                old(parameters)@,
                *old(body),
                return_ty,
                use_self,
                line,
            ) {
                Ok(st) => r is Ok && state_of(*final(self)) == st,
                Err(err) => r matches Err(e) && e.line == err.line && same_error(e.ty, err.ty),
            },
            r is Ok ==> func_heads(final(self).user_types.funcs@) == func_heads(
                old(self).user_types.funcs@,
            ),
            r is Ok ==> forall|k: Seq<char>|
                k != name@ && old(self).user_types.funcs@.contains_key(k) ==> #[trigger] final(self).user_types.funcs@[k] == old(self).user_types.funcs@[k],
        decreases *old(body), 1nat,
    {
        if self.current_return_ty.is_some() {
            let ty = SemErrType::FuncDefInFunc(name.clone());
            return Err(SemErr::new(line, ty));
        }
        let prev_use_self = self.current_use_self;
        let return_ty_is_null = return_ty == ValueType::Null;
        let kept_return_ty = copy_type(&return_ty);
        self.current_return_ty = Some(return_ty);
        self.current_use_self = use_self;
        self.symbols.begin_scope();
        let ghost frames = self.symbols@;
        let ghost params0 = *parameters;
        let ghost decl = declare_params(
            structs_view(old(self).user_types.structs@),
            enums_view(old(self).user_types.enums@),
            frames,
            params0@,
            line,
            0,
        );
        let mut rest: Vec<(ValueType, String)> = Vec::new();
        std::mem::swap(&mut rest, parameters);
        let mut done: Vec<(ValueType, String)> = Vec::new();
        while rest.len() > 0
            invariant
                self.symbols@.len() == frames.len(),
                self.symbols@.drop_last() == frames.drop_last(),
                frames.len() > 0,
                self.user_types.structs@ == old(self).user_types.structs@,
                self.user_types.enums@ == old(self).user_types.enums@,
                self.user_types.funcs@ == old(self).user_types.funcs@,
                self.current_struct == old(self).current_struct,
                old(self).current_return_ty is None,
                self.current_return_ty == Some(return_ty),
                self.current_use_self == use_self,
                self.return_stmt_found == old(self).return_stmt_found,
                frames == old(self).symbols@.push(Map::<Seq<char>, Symbol>::empty()),
                params0 == *old(parameters),
                decl == declare_params(
                    structs_view(old(self).user_types.structs@),
                    enums_view(old(self).user_types.enums@),
                    frames,
                    params0@,
                    line,
                    0,
                ),
                done@.len() + rest@.len() == params0@.len(),
                rest@ == params0@.subrange(done@.len() as int, params0@.len() as int),
                done@ == resolved_params(
                    old(self).user_types.structs@,
                    old(self).user_types.enums@,
                    params0@.subrange(0, done@.len() as int),
                ),
                decl == declare_params(
                    structs_view(old(self).user_types.structs@),
                    enums_view(old(self).user_types.enums@),
                    self.symbols@,
                    params0@,
                    line,
                    done@.len() as int,
                ),
            decreases rest@.len(),
        {
            let ghost k = done@.len();
            assert(rest@[0] == params0@[k as int]);
            let (mut ty, param_name) = rest.remove(0);
            self.user_types.resolve_value_ty(&mut ty);
            let declared = self.symbols.declare(Symbol::new(param_name.clone(), copy_type(&ty)), line);
            if declared.is_err() {
                return declared;
            }
            done.push((ty, param_name));
            assert(rest@ == params0@.subrange(done@.len() as int, params0@.len() as int));
            assert(params0@.subrange(0, done@.len() as int) =~= params0@.subrange(0, k as int).push(
                params0@[k as int],
            ));
        }
        assert(params0@.subrange(0, done@.len() as int) =~= params0@);
        *parameters = done;
        self.return_stmt_found = false;
        self.analyse_stmt_list(body)?;
        if let Some(mut func) = self.user_types.funcs.remove(name) {
            let ghost f0 = func;
            func.body = copy_stmts(body);
            self.user_types.funcs.insert(name.clone(), func);
            assert(self.user_types.funcs@.dom() =~= old(self).user_types.funcs@.dom());
            assert(func_head(func) == func_head(f0));
            assert(func_heads(self.user_types.funcs@) =~= func_heads(old(self).user_types.funcs@));
        }
        if !return_ty_is_null && !self.return_stmt_found {
            let ty = SemErrType::NoReturnTy(name.clone(), kept_return_ty);
            return Err(SemErr::new(line, ty));
        }
        self.symbols.end_scope();
        self.current_return_ty = None;
        self.current_use_self = prev_use_self;
        assert(self.symbols@ =~= old(self).symbols@);
        Ok(())
    }
}

} // verus!
