pub mod ir;
pub mod naming;
pub mod grammar;
pub mod parser;
pub mod typechecker;
pub mod codegen_rs;
pub mod codegen_ts;
pub mod determinism;
