use vstd::prelude::*;

use super::analyse_stmt::try_coerce;
use super::rules::{
    check_args, check_array, check_expr, check_method_call, env_of, field_result,
    lemma_entry_index, lemma_entry_index_none, lemma_field_index, lemma_field_index_none,
    lemma_method_sigs_named, method_sigs,
    lemma_spine_coerce, same_error, same_outcome, same_spine, this_result,
};
use super::types::{first_field_named, first_named, SemErr, SemErrType};
use super::Analyser;
use crate::binary_op::BinaryOp;
use crate::expression::{Expr, ExprType};
use crate::token::{Literal, TokenType};
use crate::value::{copy_type, ValueType};

verus! {

/// The type of a literal.
pub open spec fn literal_type(l: Literal) -> ValueType {
    match l {
        Literal::Str(_) => ValueType::Str,
        Literal::F64(_) => ValueType::F64,
        Literal::I64(_) => ValueType::I64,
        Literal::U64(_) => ValueType::U64,
        Literal::True | Literal::False => ValueType::Bool,
        Literal::Null => ValueType::Null,
    }
}

/// The type of `left op right` when both operands have type `t`, or `None`
/// when the operator does not apply to `t`.
pub open spec fn binary_result(op: BinaryOp, t: ValueType) -> Option<ValueType> {
    let numeric = t is I64 || t is U64 || t is F64;
    match op {
        BinaryOp::Add | BinaryOp::Sub | BinaryOp::Mul | BinaryOp::Div => if numeric {
            Some(t)
        } else {
            None
        },
        BinaryOp::Less | BinaryOp::LessEqual | BinaryOp::Greater | BinaryOp::GreaterEqual =>
            if numeric {
            Some(ValueType::Bool)
        } else {
            None
        },
        BinaryOp::Equal | BinaryOp::NotEqual => if numeric || t is Bool {
            Some(ValueType::Bool)
        } else {
            None
        },
        BinaryOp::And | BinaryOp::Or => if t is Bool {
            Some(ValueType::Bool)
        } else {
            None
        },
    }
}

/// Whether a value of type `from` can be cast to type `to`.
pub open spec fn castable(from: ValueType, to: ValueType) -> bool {
    let scalar = |t: ValueType| t is I64 || t is U64 || t is F64 || t is Bool;
    scalar(from) && scalar(to)
}

/// Whether a prefix operator applies to a value of type `t`.
pub open spec fn unary_applies(prefix: TokenType, t: ValueType) -> bool {
    (prefix == TokenType::Minus && (t is I64 || t is F64)) || (prefix == TokenType::Bang
        && t is Bool)
}

fn binary_type(op: BinaryOp, t: &ValueType) -> (r: Option<ValueType>)
    ensures
        r == binary_result(op, *t),
{
    let numeric = match t {
        ValueType::I64 | ValueType::U64 | ValueType::F64 => true,
        _ => false,
    };
    let is_bool = match t {
        ValueType::Bool => true,
        _ => false,
    };
    match op {
        BinaryOp::Add | BinaryOp::Sub | BinaryOp::Mul | BinaryOp::Div => if numeric {
            Some(copy_type(t))
        } else {
            None
        },
        BinaryOp::Less | BinaryOp::LessEqual | BinaryOp::Greater | BinaryOp::GreaterEqual =>
            if numeric {
            Some(ValueType::Bool)
        } else {
            None
        },
        BinaryOp::Equal | BinaryOp::NotEqual => if numeric || is_bool {
            Some(ValueType::Bool)
        } else {
            None
        },
        BinaryOp::And | BinaryOp::Or => if is_bool {
            Some(ValueType::Bool)
        } else {
            None
        },
    }
}

fn is_scalar(t: &ValueType) -> (r: bool)
    ensures
        r == (*t is I64 || *t is U64 || *t is F64 || *t is Bool),
{
    match t {
        ValueType::I64 | ValueType::U64 | ValueType::F64 | ValueType::Bool => true,
        _ => false,
    }
}

impl Analyser {
    /// Checks the arguments of a call against the parameter types.
    fn analyse_args(&mut self, name: &String, args: &mut Vec<Expr>, params: &Vec<ValueType>, line: u32) -> (r: Result<(), SemErr>)
        requires
            old(self).symbols@.len() > 0,
        ensures
            final(self).symbols@ == old(self).symbols@,
            final(self).user_types.funcs@ == old(self).user_types.funcs@,
            final(self).user_types.structs@ == old(self).user_types.structs@,
            final(self).user_types.enums@ == old(self).user_types.enums@,
            final(self).current_struct == old(self).current_struct,
            final(self).current_use_self == old(self).current_use_self,
            final(self).current_return_ty == old(self).current_return_ty,
            final(self).return_stmt_found == old(self).return_stmt_found,
            r is Ok ==> final(args)@.len() == params@.len(),
            same_outcome(r, check_args(env_of(*old(self)), *name, *old(args), params@, line, 0)),
        decreases *old(args), 0nat,
    {
        if args.len() != params.len() {
            let err = SemErrType::IncorrectArity(name.clone(), params.len() as u8, args.len() as u8);
            return Err(SemErr::new(line, err));
        }
        let ghost orig = *args;
        let mut rest: Vec<Expr> = Vec::new();
        std::mem::swap(&mut rest, args);
        let mut done: Vec<Expr> = Vec::new();
        let mut i: usize = 0;
        while rest.len() > 0
            invariant
                self.symbols@ == old(self).symbols@,
                self.user_types.funcs@ == old(self).user_types.funcs@,
                self.user_types.structs@ == old(self).user_types.structs@,
                self.user_types.enums@ == old(self).user_types.enums@,
                self.current_struct == old(self).current_struct,
                self.current_use_self == old(self).current_use_self,
                self.current_return_ty == old(self).current_return_ty,
                self.return_stmt_found == old(self).return_stmt_found,
                orig@.len() == params@.len(),
                orig == *old(args),
                old(self).symbols@.len() > 0,
                i == done@.len(),
                i + rest@.len() == orig@.len(),
                orig@.len() <= usize::MAX,
                rest@ == orig@.subrange(i as int, orig@.len() as int),
                check_args(env_of(*old(self)), *name, orig, params@, line, 0) == check_args(
                    env_of(*old(self)),
                    *name,
                    orig,
                    params@,
                    line,
                    i as int,
                ),
            decreases rest@.len(),
        {
            let mut arg = rest.remove(0);
            proof {
                assert(arg == orig@[i as int]);
                assert(decreases_to!(orig => orig[i as int]));
            }
            let ghost env = env_of(*old(self));
            assert(env_of(*self) == env);
            let arg_ty = self.analyse_expr(&mut arg)?;
            let param_ty = &params[i];
            proof {
                let form = check_expr(env, orig@[i as int])->Ok_0.1;
                lemma_spine_coerce(arg.expr, form, *param_ty);
            }
            if arg_ty != *param_ty && !try_coerce(&mut arg.expr, param_ty) {
                let err = SemErrType::ParamTypeMismatch(name.clone(), copy_type(param_ty), arg_ty);
                return Err(SemErr::new(line, err));
            }
            done.push(arg);
            i += 1;
            assert(rest@ == orig@.subrange(i as int, orig@.len() as int));
        }
        *args = done;
        Ok(())
    }

    /// Checks that the elements of an array literal share one type; gives the
    /// array type.
    fn analyse_array(&mut self, values: &mut Vec<Expr>, line: u32) -> (r: Result<ValueType, SemErr>)
        requires
            old(self).symbols@.len() > 0,
        ensures
            final(self).symbols@ == old(self).symbols@,
            final(self).user_types.funcs@ == old(self).user_types.funcs@,
            final(self).user_types.structs@ == old(self).user_types.structs@,
            final(self).user_types.enums@ == old(self).user_types.enums@,
            final(self).current_struct == old(self).current_struct,
            final(self).current_use_self == old(self).current_use_self,
            final(self).current_return_ty == old(self).current_return_ty,
            final(self).return_stmt_found == old(self).return_stmt_found,
            same_outcome(r, check_array(env_of(*old(self)), *old(values), line, 0, None)),
        decreases *old(values), 0nat,
    {
        let ghost orig = *values;
        assert(orig@.len() == values.len());
        let mut rest: Vec<Expr> = Vec::new();
        std::mem::swap(&mut rest, values);
        let mut done: Vec<Expr> = Vec::new();
        let mut el_ty: Option<ValueType> = None;
        let mut i: usize = 0;
        while rest.len() > 0
            invariant
                self.symbols@ == old(self).symbols@,
                self.user_types.funcs@ == old(self).user_types.funcs@,
                self.user_types.structs@ == old(self).user_types.structs@,
                self.user_types.enums@ == old(self).user_types.enums@,
                self.current_struct == old(self).current_struct,
                self.current_use_self == old(self).current_use_self,
                self.current_return_ty == old(self).current_return_ty,
                self.return_stmt_found == old(self).return_stmt_found,
                i + rest@.len() == orig@.len(),
                orig@.len() <= usize::MAX,
                orig == *old(values),
                old(self).symbols@.len() > 0,
                rest@ == orig@.subrange(i as int, orig@.len() as int),
                check_array(env_of(*old(self)), orig, line, 0, None) == check_array(
                    env_of(*old(self)),
                    orig,
                    line,
                    i as int,
                    el_ty,
                ),
            decreases rest@.len(),
        {
            let mut value = rest.remove(0);
            proof {
                assert(value == orig@[i as int]);
                assert(decreases_to!(orig => orig[i as int]));
            }
            let ghost env = env_of(*old(self));
            assert(env_of(*self) == env);
            let value_ty = self.analyse_expr(&mut value)?;
            proof {
                if el_ty is Some {
                    let form = check_expr(env, orig@[i as int])->Ok_0.1;
                    lemma_spine_coerce(value.expr, form, el_ty->0);
                }
            }
            match &el_ty {
                None => {
                    el_ty = Some(value_ty);
                },
                Some(expected) => {
                    if value_ty != *expected && !try_coerce(&mut value.expr, expected) {
                        let err = SemErrType::ArrElTypeMismatch(copy_type(expected), value_ty);
                        return Err(SemErr::new(line, err));
                    }
                },
            }
            done.push(value);
            i += 1;
            assert(rest@ == orig@.subrange(i as int, orig@.len() as int));
        }
        *values = done;
        match el_ty {
            Some(t) => Ok(ValueType::Arr(Box::new(t))),
            None => Ok(ValueType::Arr(Box::new(ValueType::Any))),
        }
    }

    /// Checks an expression and records its type in it; gives the type.
    pub fn analyse_expr(&mut self, expr: &mut Expr) -> (r: Result<ValueType, SemErr>)
        requires
            old(self).symbols@.len() > 0,
        ensures
            final(self).symbols@ == old(self).symbols@,
            final(self).user_types.funcs@ == old(self).user_types.funcs@,
            final(self).user_types.structs@ == old(self).user_types.structs@,
            final(self).user_types.enums@ == old(self).user_types.enums@,
            final(self).current_struct == old(self).current_struct,
            final(self).current_use_self == old(self).current_use_self,
            final(self).current_return_ty == old(self).current_return_ty,
            final(self).return_stmt_found == old(self).return_stmt_found,
            match check_expr(env_of(*old(self)), *old(expr)) {
                Ok((t, form)) => r == Ok::<ValueType, SemErr>(t) && final(expr).end_ty == t
                    && final(expr).line == old(expr).line && same_spine(final(expr).expr, form),
                Err(err) => r matches Err(e) && e.line == err.line && same_error(e.ty, err.ty),
            },
        decreases *old(expr), 1nat,
    {
        let line = expr.get_line();
        let is_method_call = match &expr.expr {
            ExprType::MethodCall { .. } => true,
            _ => false,
        };
        if is_method_call {
            let ty = self.analyse_method_call(expr)?;
            expr.end_ty = copy_type(&ty);
            return Ok(ty);
        }
        let ty: ValueType = match &mut expr.expr {
            ExprType::Lit(l) => match l {
                Literal::Str(_) => ValueType::Str,
                Literal::F64(_) => ValueType::F64,
                Literal::I64(_) => ValueType::I64,
                Literal::U64(_) => ValueType::U64,
                Literal::True | Literal::False => ValueType::Bool,
                Literal::Null => ValueType::Null,
            },
            ExprType::Identifier(name) => match self.symbols.resolve(name.as_str()) {
                Some(sym) => sym.ty,
                None => {
                    return Err(SemErr::new(line, SemErrType::UndefinedVar(name.clone())));
                },
            },
            ExprType::Assign { name, new_value } => {
                let var_ty = match self.symbols.resolve(name.as_str()) {
                    Some(sym) => sym.ty,
                    None => {
                        return Err(SemErr::new(line, SemErrType::UndefinedVar(name.clone())));
                    },
                };
                let ghost nv0 = **new_value;
                let value_ty = self.analyse_expr(&mut **new_value)?;
                proof {
                    let vf = check_expr(env_of(*old(self)), nv0)->Ok_0.1;
                    lemma_spine_coerce(new_value.expr, vf, var_ty);
                }
                if value_ty != var_ty && value_ty != ValueType::Null && !try_coerce(
                    &mut new_value.expr,
                    &var_ty,
                ) {
                    let err = SemErrType::VarDeclTypeMismatch(var_ty, value_ty);
                    return Err(SemErr::new(line, err));
                }
                var_ty
            },
            ExprType::Binary { left, op, right } => {
                let ghost l0 = **left;
                let ghost r0 = **right;
                let left_ty = self.analyse_expr(&mut **left)?;
                let right_ty = self.analyse_expr(&mut **right)?;
                let ghost lf = check_expr(env_of(*old(self)), l0)->Ok_0.1;
                let ghost rf = check_expr(env_of(*old(self)), r0)->Ok_0.1;
                proof {
                    lemma_spine_coerce(right.expr, rf, left_ty);
                    lemma_spine_coerce(left.expr, lf, right_ty);
                }
                let operand_ty = if left_ty == right_ty {
                    left_ty
                } else if try_coerce(&mut right.expr, &left_ty) {
                    left_ty
                } else if try_coerce(&mut left.expr, &right_ty) {
                    right_ty
                } else {
                    let err = SemErrType::OpTypeMismatch(left_ty, op.to_operator(), right_ty);
                    return Err(SemErr::new(line, err));
                };
                match binary_type(*op, &operand_ty) {
                    Some(t) => t,
                    None => {
                        let err = SemErrType::InvalidInfixOp(operand_ty, op.to_operator());
                        return Err(SemErr::new(line, err));
                    },
                }
            },
            ExprType::Unary { prefix, value } => {
                let value_ty = self.analyse_expr(&mut **value)?;
                let applies = match (*prefix, &value_ty) {
                    (TokenType::Minus, ValueType::I64) => true,
                    (TokenType::Minus, ValueType::F64) => true,
                    (TokenType::Bang, ValueType::Bool) => true,
                    _ => false,
                };
                if !applies {
                    return Err(SemErr::new(line, SemErrType::InvalidPrefixOp));
                }
                value_ty
            },
            ExprType::Cast { value, target_ty } => {
                let value_ty = self.analyse_expr(&mut **value)?;
                self.user_types.resolve_value_ty(target_ty);
                if !(is_scalar(&value_ty) && is_scalar(target_ty)) {
                    let err = SemErrType::InvalidCast(copy_type(target_ty), value_ty);
                    return Err(SemErr::new(line, err));
                }
                copy_type(target_ty)
            },
            ExprType::FuncCall { name, args, index: _ } => {
                let (params, return_ty) = match self.user_types.funcs.get(name) {
                    Some(data) => (super::types::param_types(&data.parameters), copy_type(
                        &data.return_ty,
                    )),
                    None => {
                        return Err(SemErr::new(line, SemErrType::UndefinedFunc(name.clone())));
                    },
                };
                self.analyse_args(name, args, &params, line)?;
                return_ty
            },
            ExprType::Array(values) => self.analyse_array(values, line)?,
            ExprType::Index { arr, index } => {
                let arr_ty = self.analyse_expr(&mut **arr)?;
                self.analyse_expr(&mut **index)?;
                match arr_ty {
                    ValueType::Arr(el) => *el,
                    _ => {
                        return Err(SemErr::new(line, SemErrType::IndexNonArr(arr_ty)));
                    },
                }
            },
            ExprType::AssignIndex { arr, index, new_value } => {
                let arr_ty = self.analyse_expr(&mut **arr)?;
                self.analyse_expr(&mut **index)?;
                let el_ty = match arr_ty {
                    ValueType::Arr(el) => *el,
                    _ => {
                        return Err(SemErr::new(line, SemErrType::IndexNonArr(arr_ty)));
                    },
                };
                let ghost nv0 = **new_value;
                let value_ty = self.analyse_expr(&mut **new_value)?;
                proof {
                    let vf = check_expr(env_of(*old(self)), nv0)->Ok_0.1;
                    lemma_spine_coerce(new_value.expr, vf, el_ty);
                }
                if value_ty != el_ty && !try_coerce(&mut new_value.expr, &el_ty) {
                    let err = SemErrType::AssignArrTypeMismatch(el_ty, value_ty);
                    return Err(SemErr::new(line, err));
                }
                el_ty
            },
            ExprType::This => self.this_type(line)?,
            ExprType::Dot { inst, property } => {
                let inst_ty = self.analyse_expr(&mut **inst)?;
                self.field_type(inst_ty, property, line)?
            },
            ExprType::DotAssign { inst, property, new_value } => {
                let inst_ty = self.analyse_expr(&mut **inst)?;
                let field_ty = self.field_type(inst_ty, property, line)?;
                let ghost nv0 = **new_value;
                let value_ty = self.analyse_expr(&mut **new_value)?;
                proof {
                    let vf = check_expr(env_of(*old(self)), nv0)->Ok_0.1;
                    lemma_spine_coerce(new_value.expr, vf, field_ty);
                }
                if value_ty != field_ty && !try_coerce(&mut new_value.expr, &field_ty) {
                    let err = SemErrType::FieldTypeMismatch(field_ty, value_ty);
                    return Err(SemErr::new(line, err));
                }
                field_ty
            },
            ExprType::Colon { inst, property } => {
                let ty_name = match &inst.expr {
                    ExprType::Identifier(n) => n.clone(),
                    ExprType::This => {
                        return Err(SemErr::new(line, SemErrType::SelfAsStaticStruct));
                    },
                    _ => {
                        return Err(SemErr::new(line, SemErrType::InvalidStaticAccess));
                    },
                };
                match self.user_types.enums.get(&ty_name) {
                    Some(variants) => {
                        let mut found = false;
                        let mut i: usize = 0;
                        while i < variants.len()
                            invariant
                                i <= variants@.len(),
                                found == exists|j: int|
                                    0 <= j < i && #[trigger] variants@[j]@ == property@,
                            decreases variants@.len() - i,
                        {
                            if variants[i] == *property {
                                found = true;
                            }
                            i += 1;
                        }
                        if !found {
                            let err = SemErrType::InvalidVariant(ty_name, property.clone());
                            return Err(SemErr::new(line, err));
                        }
                        ValueType::Enum(ty_name)
                    },
                    None => {
                        if self.user_types.structs.contains_key(&ty_name) {
                            return Err(SemErr::new(line, SemErrType::InvalidStaticAccess));
                        }
                        return Err(SemErr::new(line, SemErrType::UndefinedType(ty_name)));
                    },
                }
            },
            ExprType::MethodCall { .. } => ValueType::Any,
            ExprType::MethodCallResolved { .. } | ExprType::DotResolved { .. }
            | ExprType::DotAssignResolved { .. } => copy_type(&expr.end_ty),
        };
        expr.end_ty = copy_type(&ty);
        Ok(ty)
    }

    /// Checks a method call: the struct it calls on, the method, and the
    /// arguments; gives the method's return type.
    fn analyse_method_call(&mut self, expr: &mut Expr) -> (r: Result<ValueType, SemErr>)
        requires
            old(self).symbols@.len() > 0,
            old(expr).expr is MethodCall,
        ensures
            final(self).symbols@ == old(self).symbols@,
            final(self).user_types.funcs@ == old(self).user_types.funcs@,
            final(self).user_types.structs@ == old(self).user_types.structs@,
            final(self).user_types.enums@ == old(self).user_types.enums@,
            final(self).current_struct == old(self).current_struct,
            final(self).current_use_self == old(self).current_use_self,
            final(self).current_return_ty == old(self).current_return_ty,
            final(self).return_stmt_found == old(self).return_stmt_found,
            final(expr).line == old(expr).line,
            final(expr).expr is MethodCall,
            same_outcome(r, check_method_call(env_of(*old(self)), *old(expr))),
        decreases *old(expr), 0nat,
    {
        let line = expr.get_line();
        match &mut expr.expr {
            ExprType::MethodCall { inst, property, args, is_static } => {
                let struct_name = if *is_static {
                    match &inst.expr {
                        ExprType::Identifier(n) => n.clone(),
                        ExprType::This => {
                            return Err(SemErr::new(line, SemErrType::SelfAsStaticStruct));
                        },
                        _ => {
                            return Err(SemErr::new(line, SemErrType::InvalidStaticAccess));
                        },
                    }
                } else {
                    let inst_ty = self.analyse_expr(&mut **inst)?;
                    match inst_ty {
                        ValueType::Struct(n) => n,
                        _ => {
                            let err = SemErrType::InvalidTypeMethodAccess(inst_ty);
                            return Err(SemErr::new(line, err));
                        },
                    }
                };
                let (params, return_ty, use_self) = match self.user_types.structs.get(
                    &struct_name,
                ) {
                    Some(data) => {
                        let found = data.get_method_data(
                            struct_name.as_str(),
                            property.as_str(),
                            line,
                        );
                        let (idx, return_ty, use_self, params) = match found {
                            Ok(f) => f,
                            Err(e) => {
                                proof {
                                    lemma_method_sigs_named(data.methods@, property@);
                                    lemma_entry_index_none(method_sigs(data.methods@), property@);
                                }
                                return Err(e);
                            },
                        };
                        proof {
                            let methods = data.methods@;
                            let kk = choose|k: int|
                                {
                                    &&& first_named(methods, property@, k)
                                    &&& idx == k as u8
                                    &&& return_ty == methods[k].1.return_ty
                                    &&& use_self == methods[k].1.use_self
                                    &&& params@ == methods[k].1.parameters@.map_values(
                                        |p: (ValueType, String)| p.0,
                                    )
                                };
                            lemma_method_sigs_named(methods, property@);
                            lemma_entry_index(method_sigs(methods), property@, kk);
                        }
                        (params, return_ty, use_self)
                    },
                    None => {
                        if *is_static {
                            return Err(SemErr::new(line, SemErrType::InvalidStaticAccess));
                        }
                        return Err(SemErr::new(line, SemErrType::UndefinedType(struct_name)));
                    },
                };
                if *is_static && use_self {
                    return Err(SemErr::new(line, SemErrType::SelfOnStaticMethod));
                }
                if !*is_static && !use_self {
                    let err = SemErrType::StaticMethodOnInstance(struct_name);
                    return Err(SemErr::new(line, err));
                }
                self.analyse_args(property, args, &params, line)?;
                Ok(return_ty)
            },
            _ => Ok(ValueType::Any),
        }
    }

    /// The type of `self` inside a method that takes it.
    fn this_type(&self, line: u32) -> (r: Result<ValueType, SemErr>)
        ensures
            r == this_result(env_of(*self), line),
    {
        match &self.current_struct {
            None => Err(SemErr::new(line, SemErrType::SelfOutsideStruct)),
            Some(name) => {
                if !self.current_use_self {
                    return Err(SemErr::new(line, SemErrType::SelfInMethodWithoutSelfParam));
                }
                Ok(ValueType::Struct(name.clone()))
            },
        }
    }

    /// The type of the field `property` of a value of type `inst_ty`.
    fn field_type(&self, inst_ty: ValueType, property: &String, line: u32) -> (r: Result<
        ValueType,
        SemErr,
    >)
        ensures
            same_outcome(r, field_result(env_of(*self), inst_ty, *property, line)),
    {
        match inst_ty {
            ValueType::Struct(name) => {
                match self.user_types.structs.get(&name) {
                    Some(data) => {
                        let ghost fields = data.fields@;
                        let index = match data.get_field_index(name, property.as_str(), line) {
                            Ok(i) => i,
                            Err(e) => {
                                proof {
                                    lemma_field_index_none(fields, property@);
                                }
                                return Err(e);
                            },
                        };
                        proof {
                            let k = choose|k: int|
                                first_field_named(fields, property@, k) && index == k as u8;
                            lemma_field_index(fields, property@, k);
                        }
                        if (index as usize) < data.fields.len() {
                            Ok(copy_type(&data.fields[index as usize].0))
                        } else {
                            Ok(ValueType::Any)
                        }
                    },
                    None => Err(SemErr::new(line, SemErrType::UndefinedType(name))),
                }
            },
            _ => Err(SemErr::new(line, SemErrType::InvalidTypeFieldAccess(inst_ty))),
        }
    }
}

} // verus!
