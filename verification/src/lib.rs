//! A verified middle end for a small statically typed, expression oriented
//! language: it lowers a syntax tree into a block structured, SSA form
//! intermediate representation with explicit block parameters, interprets
//! that representation directly, and emits WebAssembly modules in both
//! binary and text form.
//!
//! The two emitters are pinned byte for byte to specification functions of
//! the function table, and the interpreter is pinned to a specification
//! level run of the representation ([`sem::model_exec`]); only host
//! floating point arithmetic, which enters through an interface the
//! surrounding program implements, is outside the model.

pub mod ast;
pub mod cfg;
pub mod dump;
pub mod emit;
pub mod interp;
pub mod ir;
pub mod laws;
pub mod leb128;
pub mod module;
pub mod scope;
pub mod sem;
pub mod text;
pub mod value;
pub mod wasm;
pub mod wf;
