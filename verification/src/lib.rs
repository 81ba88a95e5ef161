//! Core of a stack-oriented, concatenative language runtime in the Forth
//! family: a scanner, an immediate-aware compiler that turns tokens into
//! bytecode, and a bytecode interpreter running against a value stack,
//! variables, a word dictionary and structure definitions, all scoped by a
//! stack of nested contexts.

pub mod byte_buffer;
pub mod call_stack;
pub mod code;
pub mod compilation;
pub mod contextual_data;
pub mod contextual_list;
pub mod dictionary;
pub mod error;
pub mod interpreter;
pub mod laws;
pub mod location;
pub mod source_buffer;
pub mod store;
pub mod text;
pub mod tokenizing;
pub mod value;
pub mod words;
