//! The error of a whole compilation, labelled by the phase that failed.

use vstd::prelude::*;

use crate::ast::{ast_error_text, ASTError};
use crate::backend::{renders_backend_error, BackendError};
use crate::lexer::{lexer_error_text, LexerError};
use crate::text::{push_str, string_of};

verus! {

#[derive(Debug)]
pub enum CompilerError {
    /// Reading the program failed; the text says why.
    IO(String),
    Lexer(LexerError),
    Ast(ASTError),
    Backend(BackendError),
}

/// The report for every error but a backend one: the phase's label on a
/// line, then the phase's own message on the next.
pub open spec fn compiler_error_text(e: CompilerError) -> Seq<char> {
    match e {
        CompilerError::IO(m) => "IO error\n"@ + m@ + "\n"@,
        CompilerError::Lexer(l) => "Lexer failed\n"@ + lexer_error_text(l) + "\n"@,
        CompilerError::Ast(a) => "Ast parsing failed\n"@ + ast_error_text(a) + "\n"@,
        CompilerError::Backend(_) => "Codegen failure\n"@,
    }
}

impl CompilerError {
    /// The report for this error.
    pub fn render(&self) -> (r: String)
        ensures
            match *self {
                CompilerError::Backend(b) => exists|t: Seq<char>|
                    #[trigger] renders_backend_error(b, t) && r@ == "Codegen failure\n"@ + t
                        + "\n"@,
                _ => r@ == compiler_error_text(*self),
            },
    {
        let mut out: Vec<char> = Vec::new();
        match self {
            CompilerError::IO(m) => {
                push_str(&mut out, "IO error\n");
                push_str(&mut out, m.as_str());
            },
            CompilerError::Lexer(e) => {
                push_str(&mut out, "Lexer failed\n");
                push_str(&mut out, e.render().as_str());
            },
            CompilerError::Ast(e) => {
                push_str(&mut out, "Ast parsing failed\n");
                push_str(&mut out, e.render().as_str());
            },
            CompilerError::Backend(e) => {
                push_str(&mut out, "Codegen failure\n");
                let inner = e.render();
                push_str(&mut out, inner.as_str());
                assert(renders_backend_error(*e, inner@));
            },
        }
        push_str(&mut out, "\n");
        string_of(out.as_slice())
    }
}

} // verus!
