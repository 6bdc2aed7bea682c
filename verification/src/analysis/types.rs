use vstd::prelude::*;

use super::name_table::NameTable;
use crate::statement::Stmt;
use crate::value::{copy_type, ValueType};

verus! {

/// The operators that semantic analysis checks operand types for.
#[derive(Debug, Clone, Copy, PartialEq, Eq, Structural)]
pub enum Operator {
    Add,
    Sub,
    Mul,
    Div,
    Equal,
    NotEqual,
    Less,
    LessEqual,
    Greater,
    GreaterEqual,
    And,
    Or,
    Minus,
    Bang,
}

/// The symbol an operator is shown as.
pub open spec fn operator_text(op: Operator) -> Seq<char> {
    match op {
        Operator::Add => "+"@,
        Operator::Sub => "-"@,
        Operator::Mul => "*"@,
        Operator::Div => "/"@,
        Operator::Equal => "=="@,
        Operator::NotEqual => "=="@,
        Operator::Less => "<"@,
        Operator::LessEqual => "<="@,
        Operator::Greater => ">"@,
        Operator::GreaterEqual => ">="@,
        Operator::And => "&&"@,
        Operator::Or => "||"@,
        Operator::Minus => "-"@,
        Operator::Bang => "!"@,
    }
}

impl Operator {
    /// The symbol the operator is shown as in messages.
    pub fn text(self) -> (r: &'static str)
        ensures
            r@ == operator_text(self),
    {
        match self {
            Operator::Add => "+",
            Operator::Sub => "-",
            Operator::Mul => "*",
            Operator::Div => "/",
            Operator::Equal => "==",
            Operator::NotEqual => "==",
            Operator::Less => "<",
            Operator::LessEqual => "<=",
            Operator::Greater => ">",
            Operator::GreaterEqual => ">=",
            Operator::And => "&&",
            Operator::Or => "||",
            Operator::Minus => "-",
            Operator::Bang => "!",
        }
    }
}

/// What is known of a function of the program.
#[derive(Debug)]
pub struct FuncData {
    pub parameters: Vec<(ValueType, String)>,
    pub body: Vec<Stmt>,
    pub return_ty: ValueType,
    pub line: u32,
    pub use_self: bool,
}

/// What is known of a function provided by the runtime.
#[derive(Debug)]
pub struct NatFuncData {
    pub parameters: Vec<ValueType>,
    pub return_ty: ValueType,
    pub use_self: bool,
}

/// What is known of a struct provided by the runtime.
#[derive(Debug)]
pub struct NatStructData {
    pub fields: Vec<(ValueType, String)>,
    pub methods: Vec<(String, NatFuncData)>,
}

/// The position of the first entry named `name`, if any.
pub open spec fn first_named<V>(s: Seq<(String, V)>, name: Seq<char>, k: int) -> bool {
    &&& 0 <= k < s.len()
    &&& s[k].0@ == name
    &&& forall|j: int| 0 <= j < k ==> #[trigger] s[j].0@ != name
}

/// The position of the first field named `name`, if any.
pub open spec fn first_field_named(s: Seq<(ValueType, String)>, name: Seq<char>, k: int) -> bool {
    &&& 0 <= k < s.len()
    &&& s[k].1@ == name
    &&& forall|j: int| 0 <= j < k ==> #[trigger] s[j].1@ != name
}

fn string_of(s: &str) -> (r: String)
    ensures
        r@ == s@,
{
    proof {
        broadcast use vstd::string::to_string_from_display_ensures_for_str;
    }
    s.to_string()
}

fn copy_types(v: &Vec<ValueType>) -> (r: Vec<ValueType>)
    ensures
        r@ == v@,
{
    let mut r: Vec<ValueType> = Vec::new();
    let mut i: usize = 0;
    while i < v.len()
        invariant
            i <= v.len(),
            r@ == v@.subrange(0, i as int),
        decreases v.len() - i,
    {
        r.push(copy_type(&v[i]));
        i += 1;
        assert(r@ == v@.subrange(0, i as int));
    }
    assert(r@ == v@);
    r
}

pub(crate) fn param_types(v: &Vec<(ValueType, String)>) -> (r: Vec<ValueType>)
    ensures
        r@ == v@.map_values(|p: (ValueType, String)| p.0),
{
    let mut r: Vec<ValueType> = Vec::new();
    let mut i: usize = 0;
    while i < v.len()
        invariant
            i <= v.len(),
            r@ == v@.subrange(0, i as int).map_values(|p: (ValueType, String)| p.0),
        decreases v.len() - i,
    {
        r.push(copy_type(&v[i].0));
        i += 1;
        assert(r@ == v@.subrange(0, i as int).map_values(|p: (ValueType, String)| p.0));
    }
    assert(v@.subrange(0, i as int) == v@);
    r
}

impl NatStructData {
    /// The position, return type, `self` use and parameter types of the
    /// method named `property` of the struct named `name`.
    pub fn get_method_data(&self, name: &str, property: &str, line: u32) -> (r: Result<
        (u8, ValueType, bool, Vec<ValueType>),
        SemErr,
    >)
        ensures
            r matches Ok((i, rt, us, ps)) ==> exists|k: int|
                {
                    &&& first_named(self.methods@, property@, k)
                    &&& i == k as u8
                    &&& rt == self.methods@[k].1.return_ty
                    &&& us == self.methods@[k].1.use_self
                    &&& ps@ == self.methods@[k].1.parameters@
                },
            r is Err <==> forall|j: int|
                0 <= j < self.methods@.len() ==> #[trigger] self.methods@[j].0@ != property@,
            r matches Err(e) ==> e.line == line && (e.ty matches SemErrType::InvalidMethod(n, p)
                && n@ == name@ && p@ == property@),
    {
        let property_name = string_of(property);
        let mut index: usize = 0;
        while index < self.methods.len()
            invariant
                index <= self.methods@.len(),
                property_name@ == property@,
                forall|j: int| 0 <= j < index ==> #[trigger] self.methods@[j].0@ != property@,
            decreases self.methods@.len() - index,
        {
            let (method_name, data) = &self.methods[index];
            if *method_name == property_name {
                let params = copy_types(&data.parameters);
                proof {
                    assert(first_named(self.methods@, property@, index as int));
                }
                return Ok((index as u8, copy_type(&data.return_ty), data.use_self, params));
            }
            index += 1;
        }
        let ty = SemErrType::InvalidMethod(string_of(name), property_name);
        Err(SemErr::new(line, ty))
    }
}

/// What is known of a struct of the program.
#[derive(Debug)]
pub struct StructData {
    pub fields: Vec<(ValueType, String)>,
    pub methods: Vec<(String, FuncData)>,
}

impl StructData {
    pub fn new(fields: Vec<(ValueType, String)>) -> (r: Self)
        ensures
            r.fields == fields,
            r.methods@.len() == 0,
    {
        StructData { fields, methods: Vec::new() }
    }

    /// The position, return type, `self` use and parameter types of the
    /// method named `property` of the struct named `name`.
    pub fn get_method_data(&self, name: &str, property: &str, line: u32) -> (r: Result<
        (u8, ValueType, bool, Vec<ValueType>),
        SemErr,
    >)
        ensures
            r matches Ok((i, rt, us, ps)) ==> exists|k: int|
                {
                    &&& first_named(self.methods@, property@, k)
                    &&& i == k as u8
                    &&& rt == self.methods@[k].1.return_ty
                    &&& us == self.methods@[k].1.use_self
                    &&& ps@ == self.methods@[k].1.parameters@.map_values(
                        |p: (ValueType, String)| p.0,
                    )
                },
            r is Err <==> forall|j: int|
                0 <= j < self.methods@.len() ==> #[trigger] self.methods@[j].0@ != property@,
            r matches Err(e) ==> e.line == line && (e.ty matches SemErrType::InvalidMethod(n, p)
                && n@ == name@ && p@ == property@),
    {
        let property_name = string_of(property);
        let mut index: usize = 0;
        while index < self.methods.len()
            invariant
                index <= self.methods@.len(),
                property_name@ == property@,
                forall|j: int| 0 <= j < index ==> #[trigger] self.methods@[j].0@ != property@,
            decreases self.methods@.len() - index,
        {
            let (method_name, data) = &self.methods[index];
            if *method_name == property_name {
                let params = param_types(&data.parameters);
                proof {
                    assert(first_named(self.methods@, property@, index as int));
                }
                return Ok((index as u8, copy_type(&data.return_ty), data.use_self, params));
            }
            index += 1;
        }
        let ty = SemErrType::InvalidMethod(string_of(name), property_name);
        Err(SemErr::new(line, ty))
    }

    /// The position of the field named `property` of the struct named `name`.
    pub fn get_field_index(&self, name: String, property: &str, line: u32) -> (r: Result<
        u8,
        SemErr,
    >)
        ensures
            r matches Ok(i) ==> exists|k: int|
                first_field_named(self.fields@, property@, k) && i == k as u8,
            r is Err <==> forall|j: int|
                0 <= j < self.fields@.len() ==> #[trigger] self.fields@[j].1@ != property@,
            r matches Err(e) ==> e.line == line && (e.ty matches SemErrType::InvalidPubField(n, p)
                && n == name && p@ == property@),
    {
        let property_name = string_of(property);
        let mut index: usize = 0;
        while index < self.fields.len()
            invariant
                index <= self.fields@.len(),
                property_name@ == property@,
                forall|j: int| 0 <= j < index ==> #[trigger] self.fields@[j].1@ != property@,
            decreases self.fields@.len() - index,
        {
            if self.fields[index].1 == property_name {
                proof {
                    assert(first_field_named(self.fields@, property@, index as int));
                }
                return Ok(index as u8);
            }
            index += 1;
        }
        let ty = SemErrType::InvalidPubField(name, property_name);
        Err(SemErr::new(line, ty))
    }
}

/// The type a type name stands for once the program's structs and enums are
/// known: an unknown name becomes the struct or the enum of that name.
pub open spec fn resolved_type<S, E>(
    structs: Map<Seq<char>, S>,
    enums: Map<Seq<char>, E>,
    t: ValueType,
) -> ValueType {
    match t {
        ValueType::UnknownType(n) => if structs.contains_key(n@) {
            ValueType::Struct(n)
        } else if enums.contains_key(n@) {
            ValueType::Enum(n)
        } else {
            t
        },
        _ => t,
    }
}

/// The functions, structs and enums a program defines.
pub struct UserTypes {
    pub funcs: NameTable<FuncData>,
    pub structs: NameTable<StructData>,
    pub enums: NameTable<Vec<String>>,
}

impl UserTypes {
    pub fn new() -> (r: Self)
        ensures
            r.funcs@ == Map::<Seq<char>, FuncData>::empty(),
            r.structs@ == Map::<Seq<char>, StructData>::empty(),
            r.enums@ == Map::<Seq<char>, Vec<String>>::empty(),
    {
        UserTypes { funcs: NameTable::new(), structs: NameTable::new(), enums: NameTable::new() }
    }

    /// Replaces a still unknown type name by the struct or enum it names.
    pub fn resolve_value_ty(&self, ty: &mut ValueType)
        ensures
            *final(ty) == resolved_type(self.structs@, self.enums@, *old(ty)),
    {
        let new_ty = match &*ty {
            ValueType::UnknownType(name) => {
                if self.structs.contains_key(name) {
                    Some(ValueType::Struct(name.clone()))
                } else if self.enums.contains_key(name) {
                    Some(ValueType::Enum(name.clone()))
                } else {
                    None
                }
            },
            _ => None,
        };
        if let Some(t) = new_ty {
            *ty = t;
        }
    }

    /// Resolving a type twice gives what resolving it once gives.
    pub proof fn lemma_resolve_idempotent(self, t: ValueType)
        ensures
            resolved_type(self.structs@, self.enums@, resolved_type(self.structs@, self.enums@, t))
                == resolved_type(self.structs@, self.enums@, t),
    {
    }
}

/// A variable: its name and type.
#[derive(Debug)]
pub struct Symbol {
    pub name: String,
    pub ty: ValueType,
}

impl Clone for Symbol {
    fn clone(&self) -> (r: Self)
        ensures
            r == *self,
    {
        Symbol { name: self.name.clone(), ty: copy_type(&self.ty) }
    }
}

impl Symbol {
    pub fn new(name: String, ty: ValueType) -> (r: Self)
        ensures
            r == (Symbol { name, ty }),
    {
        Symbol { name, ty }
    }
}

/// The variable a name refers to in nested scopes: the one declared in the
/// innermost scope that declares the name.
pub open spec fn resolve_in(frames: Seq<Map<Seq<char>, Symbol>>, name: Seq<char>) -> Option<Symbol>
    decreases frames.len(),
{
    if frames.len() == 0 {
        None
    } else if frames.last().contains_key(name) {
        Some(frames.last()[name])
    } else {
        resolve_in(frames.drop_last(), name)
    }
}

/// The variables declared in each of the nested scopes, outermost first.
#[derive(Debug)]
pub struct SemanticScope {
    stack: Vec<NameTable<Symbol>>,
}

impl View for SemanticScope {
    type V = Seq<Map<Seq<char>, Symbol>>;

    closed spec fn view(&self) -> Seq<Map<Seq<char>, Symbol>> {
        self.stack@.map_values(|t: NameTable<Symbol>| t@)
    }
}

impl SemanticScope {
    /// A single empty scope.
    pub fn new() -> (r: Self)
        ensures
            r@ == seq![Map::<Seq<char>, Symbol>::empty()],
    {
        let mut stack: Vec<NameTable<Symbol>> = Vec::new();
        stack.push(NameTable::new());
        let r = SemanticScope { stack };
        assert(r@ =~= seq![Map::<Seq<char>, Symbol>::empty()]);
        r
    }

    /// Opens an inner scope.
    pub fn begin_scope(&mut self)
        ensures
            final(self)@ == old(self)@.push(Map::<Seq<char>, Symbol>::empty()),
    {
        self.stack.push(NameTable::new());
        assert(self@ =~= old(self)@.push(Map::<Seq<char>, Symbol>::empty()));
    }

    /// Closes the innermost scope.
    pub fn end_scope(&mut self)
        ensures
            old(self)@.len() > 0 ==> final(self)@ == old(self)@.drop_last(),
            old(self)@.len() == 0 ==> final(self)@ == old(self)@,
    {
        self.stack.pop();
        assert(old(self)@.len() > 0 ==> self@ =~= old(self)@.drop_last());
        assert(old(self)@.len() == 0 ==> self@ =~= old(self)@);
    }

    /// Declares a variable in the innermost scope, unless the innermost scope
    /// already declares its name.
    pub fn declare(&mut self, symbol: Symbol, line: u32) -> (r: Result<(), SemErr>)
        requires
            old(self)@.len() > 0,
        ensures
            old(self)@.last().contains_key(symbol.name@) ==> r == Err::<(), SemErr>(
                SemErr { ty: SemErrType::AlreadyDefinedVar(symbol.name), line },
            ) && final(self)@ == old(self)@,
            !old(self)@.last().contains_key(symbol.name@) ==> r is Ok && final(self)@ == old(
                self,
            )@.drop_last().push(old(self)@.last().insert(symbol.name@, symbol)),
    {
        let ghost frames = self@;
        let mut current = self.stack.pop().unwrap();
        assert(self@ =~= frames.drop_last());
        if current.contains_key(&symbol.name) {
            self.stack.push(current);
            assert(self@ =~= frames);
            return Err(SemErr::new(line, SemErrType::AlreadyDefinedVar(symbol.name)));
        }
        let ghost sym = symbol;
        let key = symbol.name.clone();
        current.insert(key, symbol);
        self.stack.push(current);
        assert(self@ =~= frames.drop_last().push(frames.last().insert(sym.name@, sym)));
        Ok(())
    }

    /// The variable `name` refers to.
    pub fn resolve(&self, name: &str) -> (r: Option<Symbol>)
        ensures
            r == resolve_in(self@, name@),
    {
        let key = string_of(name);
        let mut i = self.stack.len();
        assert(self@.subrange(0, i as int) =~= self@);
        while i > 0
            invariant
                i <= self.stack@.len(),
                key@ == name@,
                resolve_in(self@, name@) == resolve_in(self@.subrange(0, i as int), name@),
            decreases i,
        {
            let ghost f = self@.subrange(0, i as int);
            assert(f.drop_last() =~= self@.subrange(0, i - 1));
            assert(f.last() == self.stack@[i - 1]@);
            if let Some(sym) = self.stack[i - 1].get(&key) {
                return Some(sym.clone());
            }
            i -= 1;
        }
        None
    }
}

/// A variable declared in the innermost scope is what its name refers to.
pub proof fn lemma_declared_resolves(
    frames: Seq<Map<Seq<char>, Symbol>>,
    symbol: Symbol,
)
    requires
        frames.len() > 0,
    ensures
        resolve_in(frames.drop_last().push(frames.last().insert(symbol.name@, symbol)), symbol.name@)
            == Some(symbol),
{
    let f = frames.drop_last().push(frames.last().insert(symbol.name@, symbol));
    assert(f.last() == frames.last().insert(symbol.name@, symbol));
}

/// Closing a scope just opened gives back the scopes as they were: the
/// variables declared in it are gone.
pub proof fn lemma_scope_round_trip(
    frames: Seq<Map<Seq<char>, Symbol>>,
    inner: Map<Seq<char>, Symbol>,
    name: Seq<char>,
)
    ensures
        frames.push(inner).drop_last() == frames,
        resolve_in(frames.push(inner).drop_last(), name) == resolve_in(frames, name),
{
    assert(frames.push(inner).drop_last() =~= frames);
}

/// A variable of an inner scope hides the variables of the same name in the
/// outer scopes, and names it does not declare resolve as before.
pub proof fn lemma_shadowing(
    frames: Seq<Map<Seq<char>, Symbol>>,
    inner: Map<Seq<char>, Symbol>,
    name: Seq<char>,
)
    ensures
        inner.contains_key(name) ==> resolve_in(frames.push(inner), name) == Some(inner[name]),
        !inner.contains_key(name) ==> resolve_in(frames.push(inner), name) == resolve_in(
            frames,
            name,
        ),
{
    assert(frames.push(inner).drop_last() =~= frames);
}

/// A semantic error with the line it was found on.
#[derive(Debug)]
pub struct SemErr {
    pub ty: SemErrType,
    pub line: u32,
}

impl SemErr {
    pub fn new(line: u32, ty: SemErrType) -> (r: Self)
        ensures
            r == (SemErr { ty, line }),
    {
        SemErr { ty, line }
    }
}

#[derive(Debug)]
pub enum SemErrType {
    NoMainFunc,
    InvalidInfixOp(ValueType, Operator),
    InvalidPrefixOp,
    SelfOutsideStruct,
    SelfAsStaticStruct,
    InvalidStaticAccess,
    SelfInMethodWithoutSelfParam,
    UndefinedVar(String),
    FuncDefInFunc(String),
    UndefinedFunc(String),
    IndexNonArr(ValueType),
    StructDefInFunc(String),
    UndefinedType(String),
    AlreadyDefinedVar(String),
    AlreadyDefinedFunc(String),
    AlreadyDefinedEnum(String),
    AlreadyDefinedStruct(String),
    NatParamTypeMismatch(String),
    StaticMethodOnInstance(String),
    SelfOnStaticMethod,
    NoSelfOnMethod,
    InvalidIfCondition(ValueType),
    InvalidWhileCondition(ValueType),
    InvalidTypeFieldAccess(ValueType),
    InvalidTypeMethodAccess(ValueType),
    NoReturnTy(String, ValueType),
    InvalidMethod(String, String),
    InvalidPubField(String, String),
    InvalidCast(ValueType, ValueType),
    InvalidVariant(String, String),
    IncorrectReturnTy(ValueType, ValueType),
    FieldTypeMismatch(ValueType, ValueType),
    ArrElTypeMismatch(ValueType, ValueType),
    VarDeclTypeMismatch(ValueType, ValueType),
    AssignArrTypeMismatch(ValueType, ValueType),
    IncorrectArity(String, u8, u8),
    OpTypeMismatch(ValueType, Operator, ValueType),
    ParamTypeMismatch(String, ValueType, ValueType),
}

} // verus!
