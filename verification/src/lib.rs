//! A compiler front-end for a small imperative language: a lexical analyzer
//! that turns source text into a line-tagged token stream, and a
//! recursive-descent parser that turns the stream into an abstract syntax
//! tree of statements, or into a structured diagnostic at the first failure.

use vstd::prelude::*;

pub mod ast;
pub mod diag;
pub mod lexer;
pub mod parser;
pub mod token;

use crate::ast::{stmts_sview, Stmt};
use crate::diag::Diagnostic;
use crate::lexer::{lemma_lex_wf, opt_diag_view, spec_lex, tokenize};
use crate::parser::{s_parse_program, PRes, Parser};
use crate::token::{toks_view, Token};

verus! {

/// What one compile call hands back to the boundary: the token sequence
/// produced (complete on a clean scan, the tokens recognized so far on a
/// lexical failure), the statement sequence if parsing succeeded, and the
/// one diagnostic if either phase failed.
pub struct CompilerOutput {
    pub tokens: Vec<(Token, u64)>,
    pub ast: Option<Vec<Stmt>>,
    pub error: Option<Diagnostic>,
}

/// One compile call over one in-memory compilation unit: scan the source,
/// and on a clean scan parse the token stream. The result is exactly what
/// `spec_lex` and `s_parse_program` describe: a lexical failure returns the
/// tokens recognized before it and its diagnostic; a syntactic failure
/// returns the complete token stream and its diagnostic; otherwise the
/// complete stream and the statement sequence come back with no error.
pub fn compile(source: Vec<u8>) -> (r: CompilerOutput)
    requires
        source@.len() + 1 < u64::MAX as int,
    ensures
        toks_view(r.tokens@) == spec_lex(source@, 0, 1).0,
        match spec_lex(source@, 0, 1).1 {
            Option::Some(d) => {
                &&& opt_diag_view(r.error) == Option::Some(d)
                &&& r.ast is None
            },
            Option::None => match s_parse_program(spec_lex(source@, 0, 1).0, 0) {
                PRes::Parsed { v, pos } => {
                    &&& r.ast matches Option::Some(a) && stmts_sview(a@) == v && a@.len() <= pos
                    &&& r.error is None
                },
                PRes::Failed { kind, line } => {
                    &&& r.ast is None
                    &&& r.error matches Option::Some(d) && d@.kind == kind && d@.line == line
                        && d@.phase == crate::diag::Phase::Syntactic
                },
            },
        },
{
    let (tokens, lex_err) = tokenize(source);
    match lex_err {
        Option::Some(d) => CompilerOutput { tokens, ast: Option::None, error: Option::Some(d) },
        Option::None => {
            proof {
                lemma_lex_wf(source@, 0, 1);
            }
            let mut parser = Parser::new(&tokens);
            match parser.parse() {
                Ok(ast) => CompilerOutput {
                    tokens,
                    ast: Option::Some(ast),
                    error: Option::None,
                },
                Err(d) => CompilerOutput { tokens, ast: Option::None, error: Option::Some(d) },
            }
        },
    }
}

} // verus!
