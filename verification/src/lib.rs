//! Aria, the verified core: the adaptive range coder, the language front
//! matter (syntax trees, builtins, diagnostics), the whole-program analyses and
//! the native code generator, each with its contract.

pub mod agent;
pub mod agent_bench;
pub mod agent_tasks;
pub mod analyze;
pub mod arith;
pub mod ast;
pub mod builtins;
pub mod c_backend;
pub mod dataflow;
pub mod diagnostics;
pub mod embed;
pub mod gbnf;
pub mod grad_native;
pub mod ir;
pub mod names;
pub mod text;
pub mod types;
