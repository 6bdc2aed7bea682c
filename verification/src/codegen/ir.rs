use vstd::prelude::*;

verus! {

/// The machine types values are lowered to.
#[derive(Debug, Clone, Copy, PartialEq, Eq, Structural)]
pub enum IrType {
    /// A 64-bit integer (`Int` and `Uint` alike).
    Int,
    /// A 1-bit integer.
    Bool,
    /// A 64-bit float.
    Double,
    /// A string: a pointer to the bytes and a 64-bit length.
    Str,
    /// An untyped pointer.
    Ptr,
}

/// What a function returns.
#[derive(Debug, Clone, Copy, PartialEq, Eq, Structural)]
pub enum RetType {
    Void,
    Value(IrType),
}

#[derive(Debug, Clone, Copy, PartialEq, Eq, Structural)]
pub enum IntOp {
    Add,
    Sub,
    Mul,
    SignedDiv,
    UnsignedDiv,
    And,
    Or,
}

#[derive(Debug, Clone, Copy, PartialEq, Eq, Structural)]
pub enum FloatOp {
    Add,
    Sub,
    Mul,
    Div,
}

/// Integer comparisons: equality, and signed or unsigned order.
#[derive(Debug, Clone, Copy, PartialEq, Eq, Structural)]
pub enum IntPred {
    Eq,
    Ne,
    SignedLt,
    SignedLe,
    SignedGt,
    SignedGe,
    UnsignedLt,
    UnsignedLe,
    UnsignedGt,
    UnsignedGe,
}

/// Ordered float comparisons.
#[derive(Debug, Clone, Copy, PartialEq, Eq, Structural)]
pub enum FloatPred {
    Eq,
    Ne,
    Lt,
    Le,
    Gt,
    Ge,
}

/// Conversions between the scalar types.
#[derive(Debug, Clone, Copy, PartialEq, Eq, Structural)]
pub enum CastOp {
    /// signed integer to float
    SignedToFloat,
    /// unsigned integer to float
    UnsignedToFloat,
    /// boolean to float (as an unsigned integer)
    BoolToFloat,
    /// float to signed integer
    FloatToSigned,
    /// float to unsigned integer
    FloatToUnsigned,
    /// float compared unequal to zero
    FloatToBool,
    /// integer compared unequal to zero
    IntToBool,
    /// boolean zero-extended to 64 bits
    BoolToInt,
    /// the same bits, read as the other integer type
    Reinterpret,
}

/// An instruction. Values are numbered in the order they are defined; the
/// parameters of a function are the values `0..n`. Blocks are numbered in the
/// order they were appended to the function.
#[derive(Debug)]
pub enum Instr {
    Alloca { dst: usize, ty: IrType, name: String },
    Store { ptr: usize, value: usize },
    Load { dst: usize, ty: IrType, ptr: usize, name: String },
    ConstInt { dst: usize, ty: IrType, bits: u64, sign_extend: bool },
    ConstFloat { dst: usize, bits: u64 },
    ConstStr { dst: usize, text: String },
    NullPtr { dst: usize },
    Int { dst: usize, op: IntOp, lhs: usize, rhs: usize, name: String },
    Float { dst: usize, op: FloatOp, lhs: usize, rhs: usize, name: String },
    IntCmp { dst: usize, pred: IntPred, lhs: usize, rhs: usize, name: String },
    FloatCmp { dst: usize, pred: FloatPred, lhs: usize, rhs: usize, name: String },
    Not { dst: usize, value: usize },
    Neg { dst: usize, value: usize },
    FNeg { dst: usize, value: usize },
    Cast { dst: usize, op: CastOp, value: usize, name: String },
    Call { dst: Option<usize>, func: String, args: Vec<usize>, name: String },
    Br { target: usize },
    CondBr { cond: usize, then_block: usize, else_block: usize },
    Ret { value: Option<usize> },
}

/// A named block of instructions.
#[derive(Debug)]
pub struct BasicBlock {
    pub name: String,
    pub instrs: Vec<Instr>,
}

/// A function with its signature and blocks; the first block is the entry.
#[derive(Debug)]
pub struct IrFunction {
    pub name: String,
    pub params: Vec<IrType>,
    pub ret: RetType,
    pub blocks: Vec<BasicBlock>,
}

/// The values an instruction reads and the blocks it names are among the
/// first `values` values and `blocks` blocks.
pub open spec fn instr_refs_ok(i: Instr, values: nat, blocks: nat) -> bool {
    match i {
        Instr::Alloca { dst, .. } => dst < values,
        Instr::Store { ptr, value } => ptr < values && value < values,
        Instr::Load { dst, ptr, .. } => dst < values && ptr < values,
        Instr::ConstInt { dst, .. } => dst < values,
        Instr::ConstFloat { dst, .. } => dst < values,
        Instr::ConstStr { dst, .. } => dst < values,
        Instr::NullPtr { dst } => dst < values,
        Instr::Int { dst, lhs, rhs, .. } => dst < values && lhs < values && rhs < values,
        Instr::Float { dst, lhs, rhs, .. } => dst < values && lhs < values && rhs < values,
        Instr::IntCmp { dst, lhs, rhs, .. } => dst < values && lhs < values && rhs < values,
        Instr::FloatCmp { dst, lhs, rhs, .. } => dst < values && lhs < values && rhs < values,
        Instr::Not { dst, value } => dst < values && value < values,
        Instr::Neg { dst, value } => dst < values && value < values,
        Instr::FNeg { dst, value } => dst < values && value < values,
        Instr::Cast { dst, value, .. } => dst < values && value < values,
        Instr::Call { dst, args, .. } => (dst matches Some(d) ==> d < values) && forall|k: int|
            0 <= k < args@.len() ==> #[trigger] args@[k] < values,
        Instr::Br { target } => target < blocks,
        Instr::CondBr { cond, then_block, else_block } => cond < values && then_block < blocks
            && else_block < blocks,
        Instr::Ret { value } => value matches Some(v) ==> v < values,
    }
}

/// Whether an instruction ends a block.
pub open spec fn is_terminator(i: Instr) -> bool {
    i is Br || i is CondBr || i is Ret
}

} // verus!
