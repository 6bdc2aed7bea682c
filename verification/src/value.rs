use vstd::prelude::*;
use vstd::string::*;

verus! {

/// Types of values in the source language.
#[derive(Debug)]
pub enum ValueType {
    Null,
    /// Stands for any type; useful for built-ins such as `println`.
    Any,
    Bool,
    F64,
    I64,
    U64,
    Str,
    Arr(Box<ValueType>),
    Struct(String),
    Enum(String),
    UnknownType(String),
}

/// The mathematical model of a `ValueType`: names are sequences of characters.
pub enum TypeModel {
    Null,
    Any,
    Bool,
    F64,
    I64,
    U64,
    Str,
    Arr(Box<TypeModel>),
    Struct(Seq<char>),
    Enum(Seq<char>),
    UnknownType(Seq<char>),
}

/// The model of a type: its names as sequences of characters.
pub open spec fn model_of(t: ValueType) -> TypeModel
    decreases t,
{
    match t {
        ValueType::Null => TypeModel::Null,
        ValueType::Any => TypeModel::Any,
        ValueType::Bool => TypeModel::Bool,
        ValueType::F64 => TypeModel::F64,
        ValueType::I64 => TypeModel::I64,
        ValueType::U64 => TypeModel::U64,
        ValueType::Str => TypeModel::Str,
        ValueType::Arr(inner) => TypeModel::Arr(Box::new(model_of(*inner))),
        ValueType::Struct(s) => TypeModel::Struct(s@),
        ValueType::Enum(s) => TypeModel::Enum(s@),
        ValueType::UnknownType(s) => TypeModel::UnknownType(s@),
    }
}

impl View for ValueType {
    type V = TypeModel;

    open spec fn view(&self) -> TypeModel {
        model_of(*self)
    }
}

/// The name under which a type is shown to the user.
pub open spec fn type_text(t: TypeModel) -> Seq<char>
    decreases t,
{
    match t {
        TypeModel::Arr(inner) => "["@ + type_text(*inner) + "]"@,
        TypeModel::Any => "Any"@,
        TypeModel::Null => "Null"@,
        TypeModel::Bool => "Bool"@,
        TypeModel::F64 => "Double"@,
        TypeModel::I64 => "Int"@,
        TypeModel::U64 => "Uint"@,
        TypeModel::Str => "String"@,
        TypeModel::Struct(s) => "struct "@ + s,
        TypeModel::Enum(e) => "enum "@ + e,
        TypeModel::UnknownType(t) => "type "@ + t,
    }
}

/// Whether two types are the same type.
pub fn same_type(a: &ValueType, b: &ValueType) -> (r: bool)
    ensures
        r == (a@ == b@),
    decreases a,
{
    match (a, b) {
        (ValueType::Null, ValueType::Null) => true,
        (ValueType::Any, ValueType::Any) => true,
        (ValueType::Bool, ValueType::Bool) => true,
        (ValueType::F64, ValueType::F64) => true,
        (ValueType::I64, ValueType::I64) => true,
        (ValueType::U64, ValueType::U64) => true,
        (ValueType::Str, ValueType::Str) => true,
        (ValueType::Arr(x), ValueType::Arr(y)) => same_type(&**x, &**y),
        (ValueType::Struct(x), ValueType::Struct(y)) => *x == *y,
        (ValueType::Enum(x), ValueType::Enum(y)) => *x == *y,
        (ValueType::UnknownType(x), ValueType::UnknownType(y)) => *x == *y,
        _ => false,
    }
}

/// A copy of a type.
pub fn copy_type(t: &ValueType) -> (r: ValueType)
    ensures
        r == *t,
    decreases t,
{
    match t {
        ValueType::Null => ValueType::Null,
        ValueType::Any => ValueType::Any,
        ValueType::Bool => ValueType::Bool,
        ValueType::F64 => ValueType::F64,
        ValueType::I64 => ValueType::I64,
        ValueType::U64 => ValueType::U64,
        ValueType::Str => ValueType::Str,
        ValueType::Arr(inner) => ValueType::Arr(Box::new(copy_type(&**inner))),
        ValueType::Struct(s) => ValueType::Struct(s.clone()),
        ValueType::Enum(s) => ValueType::Enum(s.clone()),
        ValueType::UnknownType(s) => ValueType::UnknownType(s.clone()),
    }
}

impl Clone for ValueType {
    fn clone(&self) -> (r: Self)
        ensures
            r == *self,
    {
        copy_type(self)
    }
}

impl PartialEq for ValueType {
    fn eq(&self, other: &Self) -> (r: bool) {
        same_type(self, other)
    }
}

impl vstd::std_specs::cmp::PartialEqSpecImpl for ValueType {
    open spec fn obeys_eq_spec() -> bool {
        true
    }

    open spec fn eq_spec(&self, other: &Self) -> bool {
        self@ == other@
    }
}

impl ValueType {
    /// Whether the type is a numeric one (enums are represented by numbers).
    pub fn is_num(&self) -> (r: bool)
        ensures
            r <==> (self is F64 || self is I64 || self is U64 || self is Enum),
    {
        match self {
            ValueType::F64 | ValueType::I64 | ValueType::U64 | ValueType::Enum(_) => true,
            _ => false,
        }
    }

    /// The name under which the type is shown in messages.
    pub fn to_text(&self) -> (r: String)
        ensures
            r@ == type_text(self@),
        decreases self,
    {
        match self {
            ValueType::Arr(inner) => {
                let mut s = String::from_str("[");
                let t = inner.to_text();
                s.append(t.as_str());
                s.append("]");
                s
            },
            ValueType::Any => String::from_str("Any"),
            ValueType::Null => String::from_str("Null"),
            ValueType::Bool => String::from_str("Bool"),
            ValueType::F64 => String::from_str("Double"),
            ValueType::I64 => String::from_str("Int"),
            ValueType::U64 => String::from_str("Uint"),
            ValueType::Str => String::from_str("String"),
            ValueType::Struct(name) => {
                let mut s = String::from_str("struct ");
                s.append(name.as_str());
                s
            },
            ValueType::Enum(name) => {
                let mut s = String::from_str("enum ");
                s.append(name.as_str());
                s
            },
            ValueType::UnknownType(name) => {
                let mut s = String::from_str("type ");
                s.append(name.as_str());
                s
            },
        }
    }
}

} // verus!
