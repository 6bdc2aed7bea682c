use vstd::prelude::*;
use vstd::string::*;

use super::types::{operator_text, SemErr, SemErrType};
use crate::value::type_text;

verus! {

/// A message in three parts; the middle part is a name the printer
/// highlights (it is empty when the message names nothing).
#[derive(Debug)]
pub struct ErrorMessage {
    pub before: String,
    pub name: String,
    pub after: String,
}

/// The decimal digits of a number.
pub open spec fn decimal(n: nat) -> Seq<char>
    decreases n,
{
    if n < 10 {
        seq![digit_char(n)]
    } else {
        decimal(n / 10) + seq![digit_char(n % 10)]
    }
}

/// The character of a decimal digit.
pub open spec fn digit_char(d: nat) -> char {
    if d == 0 {
        '0'
    } else if d == 1 {
        '1'
    } else if d == 2 {
        '2'
    } else if d == 3 {
        '3'
    } else if d == 4 {
        '4'
    } else if d == 5 {
        '5'
    } else if d == 6 {
        '6'
    } else if d == 7 {
        '7'
    } else if d == 8 {
        '8'
    } else {
        '9'
    }
}

fn digit(d: u8) -> (r: &'static str)
    requires
        d < 10,
    ensures
        r@ == seq![digit_char(d as nat)],
{
    proof {
        reveal_strlit("0");
        reveal_strlit("1");
        reveal_strlit("2");
        reveal_strlit("3");
        reveal_strlit("4");
        reveal_strlit("5");
        reveal_strlit("6");
        reveal_strlit("7");
        reveal_strlit("8");
        reveal_strlit("9");
    }
    match d {
        0 => "0",
        1 => "1",
        2 => "2",
        3 => "3",
        4 => "4",
        5 => "5",
        6 => "6",
        7 => "7",
        8 => "8",
        _ => "9",
    }
}

/// The decimal text of a byte.
pub fn decimal_text(n: u8) -> (r: String)
    ensures
        r@ == decimal(n as nat),
{
    if n < 10 {
        String::from_str(digit(n))
    } else if n < 100 {
        let mut s = String::from_str(digit(n / 10));
        s.append(digit(n % 10));
        assert(decimal((n / 10) as nat) == seq![digit_char((n / 10) as nat)]);
        s
    } else {
        let mut s = String::from_str(digit(n / 100));
        s.append(digit((n / 10) % 10));
        s.append(digit(n % 10));
        assert(decimal((n / 100) as nat) == seq![digit_char((n / 100) as nat)]);
        assert((n / 10) as nat / 10 == (n / 100) as nat);
        assert(decimal((n / 10) as nat) == decimal((n / 100) as nat) + seq![
            digit_char(((n / 10) % 10) as nat),
        ]);
        s
    }
}

/// The message shown for a semantic error: the text before the highlighted
/// name, the name, and the text after it.
pub open spec fn message_parts(ty: SemErrType) -> (Seq<char>, Seq<char>, Seq<char>) {
    match ty {
        SemErrType::NoMainFunc => ("You have to define a function with the name 'main' as entry point for the program."@, Seq::<char>::empty(), Seq::<char>::empty()),
        SemErrType::InvalidInfixOp(ty, op) => ("Cannot apply operator '"@ + operator_text(op) + "' to types "@ + type_text(ty@) + "."@, Seq::<char>::empty(), Seq::<char>::empty()),
        SemErrType::InvalidPrefixOp => ("invalid prefix."@, Seq::<char>::empty(), Seq::<char>::empty()),
        SemErrType::SelfOutsideStruct => ("'self.property' can only be used inside methods of structs."@, Seq::<char>::empty(), Seq::<char>::empty()),
        SemErrType::SelfAsStaticStruct => ("'self::property' is invalid syntax as self is not static. Did you mean 'self.property'?"@, Seq::<char>::empty(), Seq::<char>::empty()),
        SemErrType::InvalidStaticAccess => ("You can only use the '::' syntax for static methods."@, Seq::<char>::empty(), Seq::<char>::empty()),
        SemErrType::SelfInMethodWithoutSelfParam => ("'self.property' can only be used inside methods with 'self' as parameter."@, Seq::<char>::empty(), Seq::<char>::empty()),
        SemErrType::UndefinedVar(name) => ("Variable '"@, name@, "' has not been defined in this scope."@),
        SemErrType::FuncDefInFunc(name) => ("You attempted to define the function '"@, name@, "' inside another function, which is illegal."@),
        SemErrType::UndefinedFunc(name) => ("Function '"@, name@, "' has not been defined."@),
        SemErrType::IndexNonArr(ty) => ("You can only index arrays, but you tried to index the type '"@ + type_text(ty@) + "'."@, Seq::<char>::empty(), Seq::<char>::empty()),
        SemErrType::StructDefInFunc(name) => ("You attempted to define the struct '"@, name@, "' inside a function, which is illegal."@),
        SemErrType::UndefinedType(name) => ("Type '"@, name@, "' has not been defined."@),
        SemErrType::AlreadyDefinedVar(name) => ("Variable with name '"@, name@, "' has already been defined in this scope."@),
        SemErrType::AlreadyDefinedFunc(name) => ("Function with name '"@, name@, "' has already been defined."@),
        SemErrType::AlreadyDefinedEnum(name) => ("Enum with name '"@, name@, "' has already been defined."@),
        SemErrType::AlreadyDefinedStruct(name) => ("Struct with name '"@, name@, "' has already been defined."@),
        SemErrType::NatParamTypeMismatch(name) => ("The types of the parameters of function '"@, name@, "' and the types of the given arguments don't match."@),
        SemErrType::StaticMethodOnInstance(name) => ("You cannot use a static method on an instance ("@, name@, ")."@),
        SemErrType::SelfOnStaticMethod => ("'struct::property' can only be used for static methods which don't have self as parameter."@, Seq::<char>::empty(), Seq::<char>::empty()),
        SemErrType::NoSelfOnMethod => ("'instance.property' can only be used for non-static methods which have self as parameter."@, Seq::<char>::empty(), Seq::<char>::empty()),
        SemErrType::InvalidIfCondition(found) => ("If statement only accepts condition of type 'bool', found '"@ + type_text(found@) + "'."@, Seq::<char>::empty(), Seq::<char>::empty()),
        SemErrType::InvalidWhileCondition(found) => ("While statement only accepts condition of type 'bool', found '"@ + type_text(found@) + "'."@, Seq::<char>::empty(), Seq::<char>::empty()),
        SemErrType::InvalidTypeFieldAccess(ty) => ("You can only access fields of instances, but you tried to access a field of type '"@ + type_text(ty@) + "'."@, Seq::<char>::empty(), Seq::<char>::empty()),
        SemErrType::InvalidTypeMethodAccess(ty) => ("You can only access methods of instances, but you tried to access a method of type '"@ + type_text(ty@) + "'."@, Seq::<char>::empty(), Seq::<char>::empty()),
        SemErrType::NoReturnTy(name, return_ty) => ("Function '"@ + name@ + "' has return type '"@ + type_text(return_ty@) + "', but no return statement was found."@, Seq::<char>::empty(), Seq::<char>::empty()),
        SemErrType::InvalidMethod(name, property) => ("Struct '"@ + name@ + "' has no method named '"@ + property@ + "'."@, Seq::<char>::empty(), Seq::<char>::empty()),
        SemErrType::InvalidPubField(name, property) => ("Struct '"@ + name@ + "' has no field named '"@ + property@ + "'."@, Seq::<char>::empty(), Seq::<char>::empty()),
        SemErrType::InvalidCast(expected, found) => ("You can't cast an expression of type '"@ + type_text(found@) + "' to type '"@ + type_text(expected@) + "'."@, Seq::<char>::empty(), Seq::<char>::empty()),
        SemErrType::InvalidVariant(name, property) => ("Enum '"@ + name@ + "' has no variant named '"@ + property@ + "'."@, Seq::<char>::empty(), Seq::<char>::empty()),
        SemErrType::IncorrectReturnTy(expected, found) => ("Function expected return type '"@ + type_text(expected@) + "', but found type '"@ + type_text(found@) + "'."@, Seq::<char>::empty(), Seq::<char>::empty()),
        SemErrType::FieldTypeMismatch(expected, found) => ("Field was given type '"@ + type_text(expected@) + "', but found type '"@ + type_text(found@) + "'."@, Seq::<char>::empty(), Seq::<char>::empty()),
        SemErrType::ArrElTypeMismatch(expected, found) => ("Not all elements in the array are of the same type. Array expected type '"@ + type_text(expected@) + "', but found type '"@ + type_text(found@) + "'."@, Seq::<char>::empty(), Seq::<char>::empty()),
        SemErrType::VarDeclTypeMismatch(expected, found) => ("Variable was given type '"@ + type_text(expected@) + "', but found type '"@ + type_text(found@) + "'."@, Seq::<char>::empty(), Seq::<char>::empty()),
        SemErrType::AssignArrTypeMismatch(expected, found) => ("Array is of type '["@ + type_text(expected@) + "]', but you tried to assign a value of type '"@ + type_text(found@) + "' to one of its elements."@, Seq::<char>::empty(), Seq::<char>::empty()),
        SemErrType::IncorrectArity(name, expected, found) => ("Function '"@, name@, "' expected "@ + decimal(expected as nat) + " argument(s), but found "@ + decimal(found as nat) + "."@),
        SemErrType::OpTypeMismatch(expected, op, found) => ("Operator '"@ + operator_text(op) + "' Expects type '"@ + type_text(expected@) + "', but found type '"@ + type_text(found@) + "'."@, Seq::<char>::empty(), Seq::<char>::empty()),
        SemErrType::ParamTypeMismatch(name, expected, found) => ("Parameter of function '"@ + name@ + "' has type '"@ + type_text(expected@) + "', but found type '"@ + type_text(found@) + "'."@, Seq::<char>::empty(), Seq::<char>::empty()),
    }
}

impl SemErr {
    /// The message that describes the error.
    pub fn message(&self) -> (r: ErrorMessage)
        ensures
            (r.before@, r.name@, r.after@) == message_parts(self.ty),
    {
        match &self.ty {
            SemErrType::NoMainFunc => {
                let mut before = String::from_str("You have to define a function with the name 'main' as entry point for the program.");
                let name = String::new();
                let after = String::new();
                ErrorMessage { before, name, after }
            },
            SemErrType::InvalidInfixOp(ty, op) => {
                let mut before = String::from_str("Cannot apply operator '");
                before.append(op.text());
                before.append("' to types ");
                before.append(ty.to_text().as_str());
                before.append(".");
                let name = String::new();
                let after = String::new();
                ErrorMessage { before, name, after }
            },
            SemErrType::InvalidPrefixOp => {
                let mut before = String::from_str("invalid prefix.");
                let name = String::new();
                let after = String::new();
                ErrorMessage { before, name, after }
            },
            SemErrType::SelfOutsideStruct => {
                let mut before = String::from_str("'self.property' can only be used inside methods of structs.");
                let name = String::new();
                let after = String::new();
                ErrorMessage { before, name, after }
            },
            SemErrType::SelfAsStaticStruct => {
                let mut before = String::from_str("'self::property' is invalid syntax as self is not static. Did you mean 'self.property'?");
                let name = String::new();
                let after = String::new();
                ErrorMessage { before, name, after }
            },
            SemErrType::InvalidStaticAccess => {
                let mut before = String::from_str("You can only use the '::' syntax for static methods.");
                let name = String::new();
                let after = String::new();
                ErrorMessage { before, name, after }
            },
            SemErrType::SelfInMethodWithoutSelfParam => {
                let mut before = String::from_str("'self.property' can only be used inside methods with 'self' as parameter.");
                let name = String::new();
                let after = String::new();
                ErrorMessage { before, name, after }
            },
            SemErrType::UndefinedVar(name) => {
                let mut before = String::from_str("Variable '");
                let name = name.clone();
                let mut after = String::from_str("' has not been defined in this scope.");
                ErrorMessage { before, name, after }
            },
            SemErrType::FuncDefInFunc(name) => {
                let mut before = String::from_str("You attempted to define the function '");
                let name = name.clone();
                let mut after = String::from_str("' inside another function, which is illegal.");
                ErrorMessage { before, name, after }
            },
            SemErrType::UndefinedFunc(name) => {
                let mut before = String::from_str("Function '");
                let name = name.clone();
                let mut after = String::from_str("' has not been defined.");
                ErrorMessage { before, name, after }
            },
            SemErrType::IndexNonArr(ty) => {
                let mut before = String::from_str("You can only index arrays, but you tried to index the type '");
                before.append(ty.to_text().as_str());
                before.append("'.");
                let name = String::new();
                let after = String::new();
                ErrorMessage { before, name, after }
            },
            SemErrType::StructDefInFunc(name) => {
                let mut before = String::from_str("You attempted to define the struct '");
                let name = name.clone();
                let mut after = String::from_str("' inside a function, which is illegal.");
                ErrorMessage { before, name, after }
            },
            SemErrType::UndefinedType(name) => {
                let mut before = String::from_str("Type '");
                let name = name.clone();
                let mut after = String::from_str("' has not been defined.");
                ErrorMessage { before, name, after }
            },
            SemErrType::AlreadyDefinedVar(name) => {
                let mut before = String::from_str("Variable with name '");
                let name = name.clone();
                let mut after = String::from_str("' has already been defined in this scope.");
                ErrorMessage { before, name, after }
            },
            SemErrType::AlreadyDefinedFunc(name) => {
                let mut before = String::from_str("Function with name '");
                let name = name.clone();
                let mut after = String::from_str("' has already been defined.");
                ErrorMessage { before, name, after }
            },
            SemErrType::AlreadyDefinedEnum(name) => {
                let mut before = String::from_str("Enum with name '");
                let name = name.clone();
                let mut after = String::from_str("' has already been defined.");
                ErrorMessage { before, name, after }
            },
            SemErrType::AlreadyDefinedStruct(name) => {
                let mut before = String::from_str("Struct with name '");
                let name = name.clone();
                let mut after = String::from_str("' has already been defined.");
                ErrorMessage { before, name, after }
            },
            SemErrType::NatParamTypeMismatch(name) => {
                let mut before = String::from_str("The types of the parameters of function '");
                let name = name.clone();
                let mut after = String::from_str("' and the types of the given arguments don't match.");
                ErrorMessage { before, name, after }
            },
            SemErrType::StaticMethodOnInstance(name) => {
                let mut before = String::from_str("You cannot use a static method on an instance (");
                let name = name.clone();
                let mut after = String::from_str(").");
                ErrorMessage { before, name, after }
            },
            SemErrType::SelfOnStaticMethod => {
                let mut before = String::from_str("'struct::property' can only be used for static methods which don't have self as parameter.");
                let name = String::new();
                let after = String::new();
                ErrorMessage { before, name, after }
            },
            SemErrType::NoSelfOnMethod => {
                let mut before = String::from_str("'instance.property' can only be used for non-static methods which have self as parameter.");
                let name = String::new();
                let after = String::new();
                ErrorMessage { before, name, after }
            },
            SemErrType::InvalidIfCondition(found) => {
                let mut before = String::from_str("If statement only accepts condition of type 'bool', found '");
                before.append(found.to_text().as_str());
                before.append("'.");
                let name = String::new();
                let after = String::new();
                ErrorMessage { before, name, after }
            },
            SemErrType::InvalidWhileCondition(found) => {
                let mut before = String::from_str("While statement only accepts condition of type 'bool', found '");
                before.append(found.to_text().as_str());
                before.append("'.");
                let name = String::new();
                let after = String::new();
                ErrorMessage { before, name, after }
            },
            SemErrType::InvalidTypeFieldAccess(ty) => {
                let mut before = String::from_str("You can only access fields of instances, but you tried to access a field of type '");
                before.append(ty.to_text().as_str());
                before.append("'.");
                let name = String::new();
                let after = String::new();
                ErrorMessage { before, name, after }
            },
            SemErrType::InvalidTypeMethodAccess(ty) => {
                let mut before = String::from_str("You can only access methods of instances, but you tried to access a method of type '");
                before.append(ty.to_text().as_str());
                before.append("'.");
                let name = String::new();
                let after = String::new();
                ErrorMessage { before, name, after }
            },
            SemErrType::NoReturnTy(name, return_ty) => {
                let mut before = String::from_str("Function '");
                before.append(name.as_str());
                before.append("' has return type '");
                before.append(return_ty.to_text().as_str());
                before.append("', but no return statement was found.");
                let name = String::new();
                let after = String::new();
                ErrorMessage { before, name, after }
            },
            SemErrType::InvalidMethod(name, property) => {
                let mut before = String::from_str("Struct '");
                before.append(name.as_str());
                before.append("' has no method named '");
                before.append(property.as_str());
                before.append("'.");
                let name = String::new();
                let after = String::new();
                ErrorMessage { before, name, after }
            },
            SemErrType::InvalidPubField(name, property) => {
                let mut before = String::from_str("Struct '");
                before.append(name.as_str());
                before.append("' has no field named '");
                before.append(property.as_str());
                before.append("'.");
                let name = String::new();
                let after = String::new();
                ErrorMessage { before, name, after }
            },
            SemErrType::InvalidCast(expected, found) => {
                let mut before = String::from_str("You can't cast an expression of type '");
                before.append(found.to_text().as_str());
                before.append("' to type '");
                before.append(expected.to_text().as_str());
                before.append("'.");
                let name = String::new();
                let after = String::new();
                ErrorMessage { before, name, after }
            },
            SemErrType::InvalidVariant(name, property) => {
                let mut before = String::from_str("Enum '");
                before.append(name.as_str());
                before.append("' has no variant named '");
                before.append(property.as_str());
                before.append("'.");
                let name = String::new();
                let after = String::new();
                ErrorMessage { before, name, after }
            },
            SemErrType::IncorrectReturnTy(expected, found) => {
                let mut before = String::from_str("Function expected return type '");
                before.append(expected.to_text().as_str());
                before.append("', but found type '");
                before.append(found.to_text().as_str());
                before.append("'.");
                let name = String::new();
                let after = String::new();
                ErrorMessage { before, name, after }
            },
            SemErrType::FieldTypeMismatch(expected, found) => {
                let mut before = String::from_str("Field was given type '");
                before.append(expected.to_text().as_str());
                before.append("', but found type '");
                before.append(found.to_text().as_str());
                before.append("'.");
                let name = String::new();
                let after = String::new();
                ErrorMessage { before, name, after }
            },
            SemErrType::ArrElTypeMismatch(expected, found) => {
                let mut before = String::from_str("Not all elements in the array are of the same type. Array expected type '");
                before.append(expected.to_text().as_str());
                before.append("', but found type '");
                before.append(found.to_text().as_str());
                before.append("'.");
                let name = String::new();
                let after = String::new();
                ErrorMessage { before, name, after }
            },
            SemErrType::VarDeclTypeMismatch(expected, found) => {
                let mut before = String::from_str("Variable was given type '");
                before.append(expected.to_text().as_str());
                before.append("', but found type '");
                before.append(found.to_text().as_str());
                before.append("'.");
                let name = String::new();
                let after = String::new();
                ErrorMessage { before, name, after }
            },
            SemErrType::AssignArrTypeMismatch(expected, found) => {
                let mut before = String::from_str("Array is of type '[");
                before.append(expected.to_text().as_str());
                before.append("]', but you tried to assign a value of type '");
                before.append(found.to_text().as_str());
                before.append("' to one of its elements.");
                let name = String::new();
                let after = String::new();
                ErrorMessage { before, name, after }
            },
            SemErrType::IncorrectArity(name, expected, found) => {
                let mut before = String::from_str("Function '");
                let name = name.clone();
                let mut after = String::from_str("' expected ");
                after.append(decimal_text(*expected).as_str());
                after.append(" argument(s), but found ");
                after.append(decimal_text(*found).as_str());
                after.append(".");
                ErrorMessage { before, name, after }
            },
            SemErrType::OpTypeMismatch(expected, op, found) => {
                let mut before = String::from_str("Operator '");
                before.append(op.text());
                before.append("' Expects type '");
                before.append(expected.to_text().as_str());
                before.append("', but found type '");
                before.append(found.to_text().as_str());
                before.append("'.");
                let name = String::new();
                let after = String::new();
                ErrorMessage { before, name, after }
            },
            SemErrType::ParamTypeMismatch(name, expected, found) => {
                let mut before = String::from_str("Parameter of function '");
                before.append(name.as_str());
                before.append("' has type '");
                before.append(expected.to_text().as_str());
                before.append("', but found type '");
                before.append(found.to_text().as_str());
                before.append("'.");
                let name = String::new();
                let after = String::new();
                ErrorMessage { before, name, after }
            },
        }
    }
}
} // verus!
