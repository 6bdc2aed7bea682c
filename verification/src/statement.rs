use vstd::prelude::*;

use crate::expression::{copy_expr, same_expr, Expr};
use crate::value::{copy_type, ValueType};

verus! {

/// A statement of the source language with the line it ends on.
#[derive(Debug)]
pub struct Stmt {
    pub stmt: StmtType,
    pub line: u32,
}

impl Stmt {
    pub fn new(stmt: StmtType, line: u32) -> (r: Stmt)
        ensures
            r == (Stmt { stmt, line }),
    {
        Stmt { stmt, line }
    }

    pub fn get_line(&self) -> (r: u32)
        ensures
            r == self.line,
    {
        self.line
    }
}

#[derive(Debug)]
pub enum StmtType {
    Expr(Expr),
    VarDecl { name: String, value: Expr, ty: ValueType },
    Println(Expr),
    Return(Expr),
    Break,
    Continue,
    Block(Vec<Stmt>),
    If { condition: Expr, body: Box<Stmt>, final_else: Option<Box<Stmt>> },
    While { condition: Expr, body: Box<Stmt> },
    For { var: Box<Stmt>, condition: Expr, body: Box<Stmt> },
    Func {
        name: String,
        parameters: Vec<(ValueType, String)>,
        body: Vec<Stmt>,
        return_ty: ValueType,
        use_self: bool,
    },
    Struct { name: String, fields: Vec<(ValueType, String)>, methods: Vec<Stmt> },
    Enum { name: String, variants: Vec<String> },
}

/// A copy of a list of typed names.
pub fn copy_params(v: &Vec<(ValueType, String)>) -> (r: Vec<(ValueType, String)>)
    ensures
        r@ == v@,
{
    let mut r: Vec<(ValueType, String)> = Vec::new();
    let mut i: usize = 0;
    while i < v.len()
        invariant
            i <= v.len(),
            r@ == v@.subrange(0, i as int),
        decreases v.len() - i,
    {
        let (ty, name) = &v[i];
        r.push((copy_type(ty), name.clone()));
        i += 1;
        assert(r@ == v@.subrange(0, i as int));
    }
    assert(r@ == v@);
    r
}

/// A copy of a list of names.
pub fn copy_names(v: &Vec<String>) -> (r: Vec<String>)
    ensures
        r@ == v@,
{
    let mut r: Vec<String> = Vec::new();
    let mut i: usize = 0;
    while i < v.len()
        invariant
            i <= v.len(),
            r@ == v@.subrange(0, i as int),
        decreases v.len() - i,
    {
        r.push(v[i].clone());
        i += 1;
        assert(r@ == v@.subrange(0, i as int));
    }
    assert(r@ == v@);
    r
}

/// Two statements are the same: of the same kind, on the same line, with
/// the same parts; expressions and lists are compared part by part, lists of
/// names and typed names by their elements.
pub open spec fn same_stmt(a: Stmt, b: Stmt) -> bool
    decreases a, 1nat,
{
    &&& a.line == b.line
    &&& match (a.stmt, b.stmt) {
        (StmtType::Expr(x), StmtType::Expr(y)) => same_expr(x, y),
        (
            StmtType::VarDecl { name: n1, value: v1, ty: t1 },
            StmtType::VarDecl { name: n2, value: v2, ty: t2 },
        ) => n1 == n2 && t1 == t2 && same_expr(v1, v2),
        (StmtType::Println(x), StmtType::Println(y)) => same_expr(x, y),
        (StmtType::Return(x), StmtType::Return(y)) => same_expr(x, y),
        (StmtType::Break, StmtType::Break) => true,
        (StmtType::Continue, StmtType::Continue) => true,
        (StmtType::Block(v), StmtType::Block(w)) => same_stmts(v, w),
        (
            StmtType::If { condition: c1, body: b1, final_else: e1 },
            StmtType::If { condition: c2, body: b2, final_else: e2 },
        ) => same_expr(c1, c2) && same_stmt(*b1, *b2) && match (e1, e2) {
            (Some(x), Some(y)) => same_stmt(*x, *y),
            (None, None) => true,
            _ => false,
        },
        (
            StmtType::While { condition: c1, body: b1 },
            StmtType::While { condition: c2, body: b2 },
        ) => same_expr(c1, c2) && same_stmt(*b1, *b2),
        (
            StmtType::For { var: v1, condition: c1, body: b1 },
            StmtType::For { var: v2, condition: c2, body: b2 },
        ) => same_stmt(*v1, *v2) && same_expr(c1, c2) && same_stmt(*b1, *b2),
        (
            StmtType::Func { name: n1, parameters: p1, body: b1, return_ty: r1, use_self: u1 },
            StmtType::Func { name: n2, parameters: p2, body: b2, return_ty: r2, use_self: u2 },
        ) => n1 == n2 && p1@ == p2@ && r1 == r2 && u1 == u2 && same_stmts(b1, b2),
        (
            StmtType::Struct { name: n1, fields: f1, methods: m1 },
            StmtType::Struct { name: n2, fields: f2, methods: m2 },
        ) => n1 == n2 && f1@ == f2@ && same_stmts(m1, m2),
        (
            StmtType::Enum { name: n1, variants: v1 },
            StmtType::Enum { name: n2, variants: v2 },
        ) => n1 == n2 && v1@ == v2@,
        _ => false,
    }
}

/// Two lists of statements are the same, element by element.
pub open spec fn same_stmts(v: Vec<Stmt>, w: Vec<Stmt>) -> bool
    decreases v, 0nat,
{
    &&& v@.len() == w@.len()
    &&& forall|i: int| 0 <= i < v@.len() ==> #[trigger] same_stmt(v@[i], w@[i])
}

/// A copy of a list of statements.
pub fn copy_stmts(v: &Vec<Stmt>) -> (r: Vec<Stmt>)
    ensures
        r.len() == v.len(),
        same_stmts(r, *v),
    decreases v, 0nat,
{
    let mut r: Vec<Stmt> = Vec::new();
    let mut i: usize = 0;
    while i < v.len()
        invariant
            i <= v.len(),
            r.len() == i,
            forall|k: int| 0 <= k < i ==> same_stmt(#[trigger] r@[k], v@[k]),
        decreases v.len() - i,
    {
        proof {
            assert(decreases_to!(v => v[i as int]));
        }
        let s = copy_stmt(&v[i]);
        r.push(s);
        i += 1;
    }
    r
}


/// A copy of a statement.
pub fn copy_stmt(s: &Stmt) -> (r: Stmt)
    ensures
        r.line == s.line,
        same_stmt(r, *s),
    decreases s, 1nat,
{
    let kind = match &s.stmt {
        StmtType::Expr(e) => StmtType::Expr(copy_expr(e)),
        StmtType::VarDecl { name, value, ty } => StmtType::VarDecl {
            name: name.clone(),
            value: copy_expr(value),
            ty: copy_type(ty),
        },
        StmtType::Println(e) => StmtType::Println(copy_expr(e)),
        StmtType::Return(e) => StmtType::Return(copy_expr(e)),
        StmtType::Break => StmtType::Break,
        StmtType::Continue => StmtType::Continue,
        StmtType::Block(v) => StmtType::Block(copy_stmts(v)),
        StmtType::If { condition, body, final_else } => StmtType::If {
            condition: copy_expr(condition),
            body: Box::new(copy_stmt(&**body)),
            final_else: match final_else {
                Some(b) => Some(Box::new(copy_stmt(&**b))),
                None => None,
            },
        },
        StmtType::While { condition, body } => StmtType::While {
            condition: copy_expr(condition),
            body: Box::new(copy_stmt(&**body)),
        },
        StmtType::For { var, condition, body } => StmtType::For {
            var: Box::new(copy_stmt(&**var)),
            condition: copy_expr(condition),
            body: Box::new(copy_stmt(&**body)),
        },
        StmtType::Func { name, parameters, body, return_ty, use_self } => StmtType::Func {
            name: name.clone(),
            parameters: copy_params(parameters),
            body: copy_stmts(body),
            return_ty: copy_type(return_ty),
            use_self: *use_self,
        },
        StmtType::Struct { name, fields, methods } => StmtType::Struct {
            name: name.clone(),
            fields: copy_params(fields),
            methods: copy_stmts(methods),
        },
        StmtType::Enum { name, variants } => StmtType::Enum {
            name: name.clone(),
            variants: copy_names(variants),
        },
    };
    Stmt { stmt: kind, line: s.line }
}

impl Clone for Stmt {
    fn clone(&self) -> (r: Self)
        ensures
            same_stmt(r, *self),
    {
        copy_stmt(self)
    }
}

} // verus!
