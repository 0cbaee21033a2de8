//! Core of a Lisp-family scripting runtime: a swappable program store of
//! namespaced definitions, a preprocessing pass that resolves symbols and
//! expands macros while accumulating warnings, a tree-walking interpreter,
//! and code-generation gating that refuses to emit sources while warnings
//! are outstanding. Call stacks are pure values, so capturing a backtrace
//! never disturbs the computation that raised it.

pub mod code;
pub mod codegen;
pub mod diagnostics;
pub mod effects;
pub mod entries;
pub mod expr;
pub mod loader;
pub mod options;
pub mod preprocess;
pub mod runner;
pub mod snapshot;
pub mod stack;
pub mod store;
pub mod strings;
pub mod table;
pub mod value;
