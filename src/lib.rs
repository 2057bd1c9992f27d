//! Front end and IR translation for a small expression language with
//! integer literals, `var` declarations, `+`, `-`, `*`, parentheses and
//! `return`.
//!
//! - `source`: the program text with a cursor and line/column lookup.
//! - `lexer`: text to tokens.
//! - `render`: tokens back to text, and the law that lexing it again gives
//!   the same tokens.
//! - `ast`: recursive-descent parser from tokens to statements.
//! - `codegen`: statements to a flat sequence of IR-building steps.
//! - `backend`: those steps built into an LLVM module and emitted as an
//!   object file.
//! - `error`, `compiler`: diagnostics and the per-phase error report.
//! - `text`: character classes and conversions shared by the above.

pub mod ast;
pub mod backend;
pub mod codegen;
pub mod compiler;
pub mod error;
pub mod lexer;
pub mod render;
pub mod source;
pub mod text;
