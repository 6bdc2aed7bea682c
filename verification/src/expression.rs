use vstd::prelude::*;

use crate::binary_op::BinaryOp;
use crate::token::{Literal, TokenType};
use crate::value::ValueType;

verus! {

/// An expression of the source language, with the line it stands on and the
/// type that semantic analysis found for it (`Any` until then).
#[derive(Debug)]
pub struct Expr {
    pub expr: ExprType,
    pub line: u32,
    pub end_ty: ValueType,
}

impl Expr {
    pub fn new(expr: ExprType, line: u32) -> (r: Expr)
        ensures
            r.expr == expr,
            r.line == line,
            r.end_ty == ValueType::Any,
    {
        Expr { expr, line, end_ty: ValueType::Any }
    }

    pub fn get_line(&self) -> (r: u32)
        ensures
            r == self.line,
    {
        self.line
    }
}

#[derive(Debug)]
pub enum ExprType {
    Lit(Literal),
    Array(Vec<Expr>),
    Identifier(String),
    FuncCall { name: String, args: Vec<Expr>, index: Option<usize> },
    Cast { value: Box<Expr>, target_ty: ValueType },
    MethodCall { inst: Box<Expr>, property: String, args: Vec<Expr>, is_static: bool },
    MethodCallResolved { inst: Box<Expr>, index: u8, args: Vec<Expr>, use_self: bool },
    Dot { inst: Box<Expr>, property: String },
    Colon { inst: Box<Expr>, property: String },
    DotResolved { inst_name: String, index: u8 },
    DotAssign { inst: Box<Expr>, property: String, new_value: Box<Expr> },
    DotAssignResolved { inst_name: String, index: u8, new_value: Box<Expr> },
    Index { arr: Box<Expr>, index: Box<Expr> },
    AssignIndex { arr: Box<Expr>, index: Box<Expr>, new_value: Box<Expr> },
    Assign { name: String, new_value: Box<Expr> },
    Unary { prefix: TokenType, value: Box<Expr> },
    Binary { left: Box<Expr>, op: BinaryOp, right: Box<Expr> },
    This,
}

/// Two expressions are the same: of the same kind, on the same line, with
/// the same recorded type and the same parts, lists of expressions compared
/// element by element.
pub open spec fn same_expr(a: Expr, b: Expr) -> bool
    decreases a, 1nat,
{
    &&& a.line == b.line
    &&& a.end_ty == b.end_ty
    &&& match (a.expr, b.expr) {
        (ExprType::Lit(x), ExprType::Lit(y)) => x == y,
        (ExprType::Array(v), ExprType::Array(w)) => same_exprs(v, w),
        (ExprType::Identifier(x), ExprType::Identifier(y)) => x == y,
        (
            ExprType::FuncCall { name: n1, args: a1, index: i1 },
            ExprType::FuncCall { name: n2, args: a2, index: i2 },
        ) => n1 == n2 && i1 == i2 && same_exprs(a1, a2),
        (
            ExprType::Cast { value: v1, target_ty: t1 },
            ExprType::Cast { value: v2, target_ty: t2 },
        ) => t1 == t2 && same_expr(*v1, *v2),
        (
            ExprType::MethodCall { inst: i1, property: p1, args: a1, is_static: s1 },
            ExprType::MethodCall { inst: i2, property: p2, args: a2, is_static: s2 },
        ) => p1 == p2 && s1 == s2 && same_expr(*i1, *i2) && same_exprs(a1, a2),
        (
            ExprType::MethodCallResolved { inst: i1, index: x1, args: a1, use_self: u1 },
            ExprType::MethodCallResolved { inst: i2, index: x2, args: a2, use_self: u2 },
        ) => x1 == x2 && u1 == u2 && same_expr(*i1, *i2) && same_exprs(a1, a2),
        (ExprType::Dot { inst: i1, property: p1 }, ExprType::Dot { inst: i2, property: p2 }) => p1
            == p2 && same_expr(*i1, *i2),
        (
            ExprType::Colon { inst: i1, property: p1 },
            ExprType::Colon { inst: i2, property: p2 },
        ) => p1 == p2 && same_expr(*i1, *i2),
        (
            ExprType::DotResolved { inst_name: n1, index: x1 },
            ExprType::DotResolved { inst_name: n2, index: x2 },
        ) => n1 == n2 && x1 == x2,
        (
            ExprType::DotAssign { inst: i1, property: p1, new_value: v1 },
            ExprType::DotAssign { inst: i2, property: p2, new_value: v2 },
        ) => p1 == p2 && same_expr(*i1, *i2) && same_expr(*v1, *v2),
        (
            ExprType::DotAssignResolved { inst_name: n1, index: x1, new_value: v1 },
            ExprType::DotAssignResolved { inst_name: n2, index: x2, new_value: v2 },
        ) => n1 == n2 && x1 == x2 && same_expr(*v1, *v2),
        (ExprType::Index { arr: r1, index: x1 }, ExprType::Index { arr: r2, index: x2 }) =>
            same_expr(*r1, *r2) && same_expr(*x1, *x2),
        (
            ExprType::AssignIndex { arr: r1, index: x1, new_value: v1 },
            ExprType::AssignIndex { arr: r2, index: x2, new_value: v2 },
        ) => same_expr(*r1, *r2) && same_expr(*x1, *x2) && same_expr(*v1, *v2),
        (
            ExprType::Assign { name: n1, new_value: v1 },
            ExprType::Assign { name: n2, new_value: v2 },
        ) => n1 == n2 && same_expr(*v1, *v2),
        (ExprType::Unary { prefix: p1, value: v1 }, ExprType::Unary { prefix: p2, value: v2 }) =>
            p1 == p2 && same_expr(*v1, *v2),
        (
            ExprType::Binary { left: l1, op: o1, right: r1 },
            ExprType::Binary { left: l2, op: o2, right: r2 },
        ) => o1 == o2 && same_expr(*l1, *l2) && same_expr(*r1, *r2),
        (ExprType::This, ExprType::This) => true,
        _ => false,
    }
}

/// Two lists of expressions are the same, element by element.
pub open spec fn same_exprs(v: Vec<Expr>, w: Vec<Expr>) -> bool
    decreases v, 0nat,
{
    &&& v@.len() == w@.len()
    &&& forall|i: int| 0 <= i < v@.len() ==> #[trigger] same_expr(v@[i], w@[i])
}

/// A copy of a list of expressions.
pub fn copy_exprs(v: &Vec<Expr>) -> (r: Vec<Expr>)
    ensures
        r.len() == v.len(),
        same_exprs(r, *v),
    decreases v, 0nat,
{
    let mut r: Vec<Expr> = Vec::new();
    let mut i: usize = 0;
    while i < v.len()
        invariant
            i <= v.len(),
            r.len() == i,
            forall|k: int| 0 <= k < i ==> same_expr(#[trigger] r@[k], v@[k]),
        decreases v.len() - i,
    {
        proof {
            assert(decreases_to!(v => v[i as int]));
        }
        let e = copy_expr(&v[i]);
        r.push(e);
        i += 1;
    }
    r
}


/// A copy of an expression.
pub fn copy_expr(e: &Expr) -> (r: Expr)
    ensures
        r.line == e.line,
        r.end_ty == e.end_ty,
        same_expr(r, *e),
    decreases e, 1nat,
{
    let kind = match &e.expr {
        ExprType::Lit(l) => ExprType::Lit(l.clone()),
        ExprType::Array(v) => ExprType::Array(copy_exprs(v)),
        ExprType::Identifier(n) => ExprType::Identifier(n.clone()),
        ExprType::FuncCall { name, args, index } => ExprType::FuncCall {
            name: name.clone(),
            args: copy_exprs(args),
            index: *index,
        },
        ExprType::Cast { value, target_ty } => ExprType::Cast {
            value: Box::new(copy_expr(&**value)),
            target_ty: target_ty.clone(),
        },
        ExprType::MethodCall { inst, property, args, is_static } => ExprType::MethodCall {
            inst: Box::new(copy_expr(&**inst)),
            property: property.clone(),
            args: copy_exprs(args),
            is_static: *is_static,
        },
        ExprType::MethodCallResolved { inst, index, args, use_self } =>
            ExprType::MethodCallResolved {
            inst: Box::new(copy_expr(&**inst)),
            index: *index,
            args: copy_exprs(args),
            use_self: *use_self,
        },
        ExprType::Dot { inst, property } => ExprType::Dot {
            inst: Box::new(copy_expr(&**inst)),
            property: property.clone(),
        },
        ExprType::Colon { inst, property } => ExprType::Colon {
            inst: Box::new(copy_expr(&**inst)),
            property: property.clone(),
        },
        ExprType::DotResolved { inst_name, index } => ExprType::DotResolved {
            inst_name: inst_name.clone(),
            index: *index,
        },
        ExprType::DotAssign { inst, property, new_value } => ExprType::DotAssign {
            inst: Box::new(copy_expr(&**inst)),
            property: property.clone(),
            new_value: Box::new(copy_expr(&**new_value)),
        },
        ExprType::DotAssignResolved { inst_name, index, new_value } =>
            ExprType::DotAssignResolved {
            inst_name: inst_name.clone(),
            index: *index,
            new_value: Box::new(copy_expr(&**new_value)),
        },
        ExprType::Index { arr, index } => ExprType::Index {
            arr: Box::new(copy_expr(&**arr)),
            index: Box::new(copy_expr(&**index)),
        },
        ExprType::AssignIndex { arr, index, new_value } => ExprType::AssignIndex {
            arr: Box::new(copy_expr(&**arr)),
            index: Box::new(copy_expr(&**index)),
            new_value: Box::new(copy_expr(&**new_value)),
        },
        ExprType::Assign { name, new_value } => ExprType::Assign {
            name: name.clone(),
            new_value: Box::new(copy_expr(&**new_value)),
        },
        ExprType::Unary { prefix, value } => ExprType::Unary {
            prefix: *prefix,
            value: Box::new(copy_expr(&**value)),
        },
        ExprType::Binary { left, op, right } => ExprType::Binary {
            left: Box::new(copy_expr(&**left)),
            op: *op,
            right: Box::new(copy_expr(&**right)),
        },
        ExprType::This => ExprType::This,
    };
    Expr { expr: kind, line: e.line, end_ty: e.end_ty.clone() }
}

impl Clone for Expr {
    fn clone(&self) -> (r: Self)
        ensures
            same_expr(r, *self),
    {
        copy_expr(self)
    }
}

} // verus!
