pub mod builder;
pub mod emit_expr;
pub mod emit_stmt;
pub mod functions;
pub mod ir;
pub mod jit_main;
pub mod lowering;
pub mod meaning;
pub mod select;

use vstd::prelude::*;

use crate::analysis::name_table::NameTable;
use crate::analysis::types::UserTypes;
use builder::FnSig;
use ir::RetType;

verus! {

/// Lowers the functions of an analysed program to machine instructions.
pub struct CodeGen {
    pub user_types: UserTypes,
    /// The functions of the module, by name.
    pub sigs: NameTable<FnSig>,
}

impl CodeGen {
    /// What each function of the module returns.
    pub open spec fn rets(self) -> Map<Seq<char>, RetType> {
        self.sigs@.map_values(|s: FnSig| s.ret)
    }
}

} // verus!
