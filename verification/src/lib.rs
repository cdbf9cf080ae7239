//! Code generation planning for `rain` programs targeting LLVM.
//!
//! The library decides how `rain` types are represented in LLVM, how function
//! parameters are mapped onto LLVM parameters, how shims and constants look,
//! and keeps the bookkeeping (symbol-table arena, representation cache,
//! function naming) of a code generation session.
pub mod repr;
pub mod error;
pub mod ir;
pub mod codegen;
