use vstd::prelude::*;

use vstd::arithmetic::div_mod::{
    lemma_add_mod_noop, lemma_mod_add_multiples_vanish, lemma_mul_mod_noop, lemma_small_mod,
    lemma_sub_mod_noop,
};

use super::ir::{FloatOp, FloatPred, IntOp, IntPred};
use super::jit_main::main_op;
use super::select::{binary_lowering, BinLowering};
use crate::binary_op::BinaryOp;
use crate::value::ValueType;

verus! {

/// The number of distinct 64-bit words.
pub open spec fn modulus() -> int {
    0x1_0000_0000_0000_0000int
}

/// The 64 bits that hold the integer `x`: `x` modulo 2^64.
pub open spec fn word(x: int) -> int {
    x % modulus()
}

/// A word read as a two's-complement signed integer.
pub open spec fn signed_reading(w: int) -> int {
    if w < 0x8000_0000_0000_0000int {
        w
    } else {
        w - modulus()
    }
}

/// The values of a source type, as integers: a boolean is 0 or 1.
pub open spec fn in_range(t: ValueType, x: int) -> bool {
    match t {
        ValueType::I64 => -0x8000_0000_0000_0000int <= x < 0x8000_0000_0000_0000int,
        ValueType::U64 => 0 <= x < modulus(),
        ValueType::Bool => x == 0 || x == 1,
        _ => false,
    }
}

/// Integer division that rounds toward zero.
pub open spec fn trunc_div(a: int, b: int) -> int {
    let q = (if a < 0 {
        -a
    } else {
        a
    }) / (if b < 0 {
        -b
    } else {
        b
    });
    if (a < 0) == (b < 0) {
        q
    } else {
        -q
    }
}

/// What `x op y` computes in the source language, for the operators that
/// compute a number (or, on booleans, a truth value as 0 or 1).
pub open spec fn source_value(t: ValueType, op: BinaryOp, x: int, y: int) -> Option<int> {
    if t is I64 || t is U64 {
        match op {
            BinaryOp::Add => Some(x + y),
            BinaryOp::Sub => Some(x - y),
            BinaryOp::Mul => Some(x * y),
            BinaryOp::Div => if y == 0 {
                None
            } else {
                Some(trunc_div(x, y))
            },
            _ => None,
        }
    } else if t is Bool {
        match op {
            BinaryOp::And => Some(if x == 1 && y == 1 { 1int } else { 0int }),
            BinaryOp::Or => Some(if x == 1 || y == 1 { 1int } else { 0int }),
            _ => None,
        }
    } else {
        None
    }
}

/// Whether `x op y` holds in the source language, for the operators that
/// compare.
pub open spec fn source_holds(t: ValueType, op: BinaryOp, x: int, y: int) -> Option<bool> {
    if t is I64 || t is U64 {
        match op {
            BinaryOp::Equal => Some(x == y),
            BinaryOp::NotEqual => Some(x != y),
            BinaryOp::Less => Some(x < y),
            BinaryOp::LessEqual => Some(x <= y),
            BinaryOp::Greater => Some(x > y),
            BinaryOp::GreaterEqual => Some(x >= y),
            _ => None,
        }
    } else if t is Bool {
        match op {
            BinaryOp::Equal => Some(x == y),
            BinaryOp::NotEqual => Some(x != y),
            _ => None,
        }
    } else {
        None
    }
}

/// Whether an integer comparison instruction holds of two words: equality
/// of the bits, or the order of the words read as signed or as unsigned
/// integers.
pub open spec fn int_pred_holds(p: IntPred, w1: int, w2: int) -> bool {
    match p {
        IntPred::Eq => w1 == w2,
        IntPred::Ne => w1 != w2,
        IntPred::SignedLt => signed_reading(w1) < signed_reading(w2),
        IntPred::SignedLe => signed_reading(w1) <= signed_reading(w2),
        IntPred::SignedGt => signed_reading(w1) > signed_reading(w2),
        IntPred::SignedGe => signed_reading(w1) >= signed_reading(w2),
        IntPred::UnsignedLt => w1 < w2,
        IntPred::UnsignedLe => w1 <= w2,
        IntPred::UnsignedGt => w1 > w2,
        IntPred::UnsignedGe => w1 >= w2,
    }
}

/// The word an integer instruction gives for two words: sums, differences
/// and products wrap around, a signed division divides the signed readings
/// rounding toward zero, an unsigned one the words; `and` and `or` combine
/// one-bit values. `None` where the instruction has no result (a division
/// by zero).
pub open spec fn int_op_word(o: IntOp, w1: int, w2: int) -> Option<int> {
    match o {
        IntOp::Add => Some(word(w1 + w2)),
        IntOp::Sub => Some(word(w1 - w2)),
        IntOp::Mul => Some(word(w1 * w2)),
        IntOp::SignedDiv => if signed_reading(w2) == 0 {
            None
        } else {
            Some(word(trunc_div(signed_reading(w1), signed_reading(w2))))
        },
        IntOp::UnsignedDiv => if w2 == 0 {
            None
        } else {
            Some(w1 / w2)
        },
        IntOp::And => Some(if w1 != 0 && w2 != 0 { 1int } else { 0int }),
        IntOp::Or => Some(if w1 != 0 || w2 != 0 { 1int } else { 0int }),
    }
}

/// `l` is a comparison that holds of the words `w1` and `w2` exactly when
/// `b` does.
pub open spec fn compares_as(l: Option<BinLowering>, w1: int, w2: int, b: bool) -> bool {
    l matches Some(BinLowering::IntCmp(p)) && int_pred_holds(p, w1, w2) == b
}

/// `l` is an operation that gives, for the words `w1` and `w2`, the bits of
/// `v`.
pub open spec fn gives_bits_of(l: Option<BinLowering>, w1: int, w2: int, v: int) -> bool {
    l matches Some(BinLowering::Int(o)) && int_op_word(o, w1, w2) == Some(word(v))
}

/// The cases in which `x op y` must be computed exactly: every comparison,
/// and every operation but a quotient that is not a value of the type.
pub open spec fn value_owed(t: ValueType, op: BinaryOp, x: int, y: int) -> bool {
    source_value(t, op, x, y) is Some && (op != BinaryOp::Div || in_range(
        t,
        source_value(t, op, x, y)->0,
    ))
}

/// The instruction `l` computes `x op y` for all values `x` and `y` of type
/// `t`: a comparison holds exactly when the source relation does, and an
/// operation gives the bits of the source result (a quotient only where it
/// is a value of the type).
pub open spec fn lowering_computes(t: ValueType, op: BinaryOp, l: Option<BinLowering>) -> bool {
    forall|x: int, y: int|
        #![trigger source_holds(t, op, x, y), source_value(t, op, x, y)]
        in_range(t, x) && in_range(t, y) ==> (source_holds(t, op, x, y) is Some ==> compares_as(l, word(x), word(y), source_holds(t, op, x, y)->0)) && (value_owed(t, op, x, y) ==> gives_bits_of(l, word(x), word(y), source_value(t, op, x, y)->0))
}

/// The bits of a value of an integer type, and back.
proof fn lemma_word(t: ValueType, x: int)
    requires
        in_range(t, x),
    ensures
        word(x) == (if x < 0 {
            x + modulus()
        } else {
            x
        }),
        t is I64 ==> signed_reading(word(x)) == x,
        t is U64 || t is Bool ==> word(x) == x,
{
    if x < 0 {
        lemma_mod_add_multiples_vanish(x, modulus());
        lemma_small_mod((x + modulus()) as nat, modulus() as nat);
    } else {
        lemma_small_mod(x as nat, modulus() as nat);
    }
}

/// One instance of `lowering_computes`.
proof fn lemma_computes_at(t: ValueType, op: BinaryOp, l: Option<BinLowering>, x: int, y: int)
    requires
        in_range(t, x),
        in_range(t, y),
        l == binary_lowering(t, op) || (t == ValueType::I64 && l == Some(main_op(op))),
    ensures
        source_holds(t, op, x, y) is Some ==> compares_as(l, word(x), word(y), source_holds(t, op, x, y)->0),
        value_owed(t, op, x, y) ==> gives_bits_of(l, word(x), word(y), source_value(t, op, x, y)->0),
{
    lemma_word(t, x);
    lemma_word(t, y);
    lemma_add_mod_noop(x, y, modulus());
    lemma_sub_mod_noop(x, y, modulus());
    lemma_mul_mod_noop(x, y, modulus());
    if let Some(v) = source_value(t, op, x, y) {
        if op == BinaryOp::Div && in_range(t, v) {
            lemma_word(t, v);
        }
        if t is Bool {
            lemma_word(t, v);
        }
    }
}

/// Each binary operator on integers and booleans lowers to an instruction
/// that computes it: a comparison to a comparison that holds exactly when
/// the source relation holds between the two values (signed order for
/// `Int`, unsigned for `Uint`), an arithmetic or logical operator to the
/// instruction whose result has the bits of the source result. So distinct
/// operators get instructions that differ wherever the operators do.
pub proof fn lemma_binary_lowering_computes(t: ValueType, op: BinaryOp)
    requires
        t is I64 || t is U64 || t is Bool,
    ensures
        lowering_computes(t, op, binary_lowering(t, op)),
{
    assert forall|x: int, y: int|
        #![trigger source_holds(t, op, x, y), source_value(t, op, x, y)]
        in_range(t, x) && in_range(t, y) implies (source_holds(t, op, x, y) is Some ==> compares_as(
        binary_lowering(t, op),
        word(x),
        word(y),
        source_holds(t, op, x, y)->0,
    )) && (value_owed(t, op, x, y) ==> gives_bits_of(
        binary_lowering(t, op),
        word(x),
        word(y),
        source_value(t, op, x, y)->0,
    )) by {
        lemma_computes_at(t, op, binary_lowering(t, op), x, y);
    }
}

/// In the just-in-time `main`, where every value is an `Int`, each binary
/// operator lowers to an instruction that computes it: `left - right`
/// gives the bits of the difference, `left <= right` holds exactly when the
/// signed values are so ordered, and so on for every operator.
pub proof fn lemma_main_op_computes(op: BinaryOp)
    ensures
        lowering_computes(ValueType::I64, op, Some(main_op(op))),
{
    let t = ValueType::I64;
    assert forall|x: int, y: int|
        #![trigger source_holds(t, op, x, y), source_value(t, op, x, y)]
        in_range(t, x) && in_range(t, y) implies (source_holds(t, op, x, y) is Some ==> compares_as(Some(main_op(op)), word(x), word(y), source_holds(t, op, x, y)->0)) && (value_owed(t, op, x, y) ==> gives_bits_of(Some(main_op(op)), word(x), word(y), source_value(t, op, x, y)->0)) by {
        lemma_computes_at(t, op, Some(main_op(op)), x, y);
    }
}

/// Whether `c` is the exact result of `a op b` on numbers, for the
/// arithmetic operators of the source language; a quotient `c` of `a` by a
/// non-zero `b` is the number with `c * b == a`.
pub open spec fn exact_result(op: BinaryOp, a: int, b: int, c: int) -> Option<bool> {
    match op {
        BinaryOp::Add => Some(c == a + b),
        BinaryOp::Sub => Some(c == a - b),
        BinaryOp::Mul => Some(c == a * b),
        BinaryOp::Div => if b == 0 {
            None
        } else {
            Some(c * b == a)
        },
        _ => None,
    }
}

/// Whether a float instruction, before rounding, gives `c` for `a` and `b`.
pub open spec fn float_op_gives(o: FloatOp, a: int, b: int, c: int) -> bool {
    match o {
        FloatOp::Add => c == a + b,
        FloatOp::Sub => c == a - b,
        FloatOp::Mul => c == a * b,
        FloatOp::Div => c * b == a,
    }
}

/// Whether an ordered float comparison holds of two (non-NaN) values.
pub open spec fn float_pred_holds(p: FloatPred, a: int, b: int) -> bool {
    match p {
        FloatPred::Eq => a == b,
        FloatPred::Ne => a != b,
        FloatPred::Lt => a < b,
        FloatPred::Le => a <= b,
        FloatPred::Gt => a > b,
        FloatPred::Ge => a >= b,
    }
}

/// On floats, each comparison lowers to an ordered comparison that holds of
/// two numbers exactly when the source relation does, and each arithmetic
/// operator to the float instruction that computes the same exact result
/// before rounding; numbers are shown here by integers, on which the
/// relations and results are the same as on the reals they stand for.
pub proof fn lemma_float_lowering_computes(op: BinaryOp, a: int, b: int, c: int)
    ensures
        source_holds(ValueType::I64, op, a, b) matches Some(h) ==> (binary_lowering(
            ValueType::F64,
            op,
        ) matches Some(BinLowering::FloatCmp(p)) && float_pred_holds(p, a, b) == h),
        exact_result(op, a, b, c) matches Some(h) ==> (binary_lowering(ValueType::F64, op) matches Some(
            BinLowering::Float(o),
        ) && float_op_gives(o, a, b, c) == h),
{
}

/// The code generator and the type checker agree on the binary operators:
/// an operator has an instruction for operands of type `t` exactly when the
/// type checker accepts it on `t`, and the type it gives is `Bool` for the
/// instructions that compare and `t` for the others.
pub proof fn lemma_lowering_agrees_with_typing(t: ValueType, op: BinaryOp)
    ensures
        binary_lowering(t, op) is Some <==> crate::analysis::analyse_expr::binary_result(op, t) is Some,
        binary_lowering(t, op) matches Some(l) ==> crate::analysis::analyse_expr::binary_result(op, t)
            == Some(if l is IntCmp || l is FloatCmp {
            ValueType::Bool
        } else {
            t
        }),
{
}

} // verus!
