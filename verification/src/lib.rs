//! A compiler from a small imperative scripting language to a linear
//! stack-machine bytecode program, rendered as two textual artifacts — an
//! instruction stream and a constant pool — for an external virtual machine
//! to consume.
//!
//! The pipeline: source text -> [`parser::parse`] -> AST ([`ast`]) ->
//! [`compiler::compile`] -> [`compiler::Program`]. The [`model`] module is
//! the mathematical description of compilation that every executable
//! function is proved against, and [`laws`] holds the proved properties:
//! stable slot allocation, stack balance of expressions, the exact control
//! shapes of `if` and `while`, and the failures of unresolved names.

pub mod ast;
pub mod compiler;
pub mod laws;
pub mod model;
pub mod numfmt;
pub mod ops;
pub mod parser;
