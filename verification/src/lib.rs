//! A tiny compiler for a C-like language fragment: one function containing a
//! single `return` statement whose value is an integer literal under an
//! optional chain of unary operators.  Source text is lexed into tokens,
//! parsed by recursive descent into an abstract syntax tree, and translated
//! into x86 assembly text driven by a single accumulator register.

use vstd::prelude::*;

use crate::ast::{Parsed, ParseError, Program, spec_asm_program, spec_parse_program};
use crate::rusty_lexer::{RustyLexer, spec_lex};

pub mod ast;
pub mod chars;
pub mod laws;
pub mod rusty_lexer;
pub mod semantics;
pub mod token;

verus! {

/// Why a compilation run produced no assembly.
#[derive(Clone, Copy, Debug, PartialEq, Eq, Structural)]
pub enum CompileError {
    /// Scanning stopped on a character matching no token category.
    Lexical { offending: char },
    /// A grammar rule failed; no partial tree is kept.
    Parse { error: ParseError },
}

/// The whole pipeline at the specification level: the assembly text owed
/// for a source text, or the error the run fails with.
pub open spec fn spec_compile(s: Seq<char>) -> Result<Seq<char>, CompileError> {
    let lexed = spec_lex(s);
    match lexed.error {
        Some(c) => Err(CompileError::Lexical { offending: c }),
        None => match spec_parse_program(lexed.tokens) {
            Parsed::Good { value, .. } => Ok(spec_asm_program(value)),
            Parsed::Bad { error, .. } => Err(CompileError::Parse { error }),
        },
    }
}

/// Runs the pipeline on one source text: lexing, then parsing, then code
/// generation.  Each stage is a pure transformation and the result is
/// pinned to a function of the source text alone, so identical inputs
/// always yield byte-identical assembly.  A failure at any stage ends the
/// run before any assembly is produced.
pub fn compile(source: &str) -> (r: Result<String, CompileError>)
    ensures
        match spec_compile(source@) {
            Ok(text) => r matches Ok(out) && out@ == text,
            Err(e) => r matches Err(err) && err == e,
        },
{
    let mut lexed = RustyLexer::parse(source);
    match lexed.error {
        Some(c) => Err(CompileError::Lexical { offending: c }),
        None => match Program::parse(&mut lexed.tokens) {
            Ok(prog) => Ok(prog.to_asm()),
            Err(error) => Err(CompileError::Parse { error }),
        },
    }
}

} // verus!
