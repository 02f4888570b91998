//! An ahead-of-time compiler that lowers a restricted, directive-annotated
//! subset of a dynamic scripting language into optimized, statically typed
//! native source text: parsing into an abstract syntax tree, static type
//! inference over that tree, a control-flow-graph intermediate
//! representation with a fixed-point optimization pipeline, and final
//! lowering to native source. The interactive shell, the on-disk cache, and
//! the native toolchain are boundary collaborators driven from outside; the
//! decision core they consult lives here.
pub mod ast_types;
pub mod cache;
pub mod codegen;
pub mod compiler;
pub mod diagnostics;
pub mod directives;
pub mod ir;
pub mod ir_builder;
pub mod optimizer;
pub mod parser;
pub mod profiler;
pub mod text;
pub mod type_inference;

pub use directives::{Directive, DirectiveSet};
