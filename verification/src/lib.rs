pub mod analysis;
pub mod binary_op;
pub mod codegen;
pub mod error;
pub mod expression;
pub mod func_compiler;
pub mod parser;
pub mod statement;
pub mod token;
pub mod value;
