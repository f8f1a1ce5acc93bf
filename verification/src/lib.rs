//! A compiler for bugu, a small C-like language, to RISC-V assembly: source
//! text to tokens, tokens to a syntax tree, the tree to an intermediate
//! representation with virtual registers, physical register allocation, and
//! assembly text. Each stage is proved to compute its specification.
use vstd::prelude::*;

pub mod text;
pub mod seqs;
pub mod regeister;
pub mod lexer;
pub mod ast;
pub mod symbols;
pub mod ir;
pub mod ir_handle;
pub mod codegen;
pub mod parser;
pub mod meaning;
pub mod laws;

use crate::lexer::{Token, TokenTypeV, tokenize, lex, tokens_view};
use crate::ast::{Prog, ProgV};
use crate::parser::{ParseError, check_syntax, parsing, spec_parsing};
use crate::ir::{IrProg, IrProgV, ast2ir, lowerable, spec_ast2ir};
use crate::ir_handle::op;
use crate::ir_handle::dataflow::{allocatable, spec_dataflow};
use crate::codegen::{write_asm, writable, spec_write_asm};

verus! {

/// The stage at which a compilation stopped.
#[derive(Debug)]
pub enum CompileError {
    /// A character that starts no token, or a number that does not fit an `i32`.
    Lex,
    /// The tokens do not form a program.
    Parse(ParseError),
    /// The program has no intermediate representation (see `spec_ast2ir`).
    Ir,
    /// The registers ran out in the allocation of physical registers.
    Dataflow,
    /// The assembly text could not be made (see `spec_write_asm`).
    Codegen,
}

/// What each stage of a compilation produced.
#[derive(Debug)]
pub struct Compilation {
    pub tokens: Vec<Token>,
    pub prog: Prog,
    pub ir: IrProg,
    pub optimized: IrProg,
    pub assembly: String,
}

/// `r` is the outcome of compiling `src`: each stage applied to what the one
/// before produced, the symbol table passed along, and the first stage that
/// fails named.
pub open spec fn compiled(src: Seq<char>, r: Result<Compilation, CompileError>) -> bool {
    match lex(src) {
        None => r matches Err(CompileError::Lex),
        Some(ts) => match spec_parsing(ts) {
            Err((q, m)) => r matches Err(CompileError::Parse(e)) && e.pos == q && e.msg@ == m,
            Ok((pv, t0)) => match spec_ast2ir(pv, t0) {
                None => r matches Err(CompileError::Ir),
                Some((ir, t1)) => match spec_dataflow(ir, t1) {
                    None => r matches Err(CompileError::Dataflow),
                    Some((ir2, t2)) => match spec_write_asm(ir2, t2) {
                        None => r matches Err(CompileError::Codegen),
                        Some(text) => r matches Ok(c) && tokens_view(c.tokens@) == ts && c.prog@ == pv
                            && c.ir@ == ir && c.optimized@ == ir2 && c.assembly@ == text,
                    },
                },
            },
        },
    }
}

/// Compiles bugu source text to RISC-V assembly, keeping what each stage
/// produced.
pub fn compile(src: String) -> (r: Result<Compilation, CompileError>)
    ensures
        compiled(src@, r),
{
    let tokens = match tokenize(src) {
        Some(t) => t,
        None => {
            return Err(CompileError::Lex);
        },
    };
    match check_syntax(&tokens) {
        Ok(()) => {},
        Err(e) => {
            return Err(CompileError::Parse(e));
        },
    }
    let (prog, mut table) = parsing(&tokens);
    if !lowerable(&prog, &table) {
        return Err(CompileError::Ir);
    }
    let ir = ast2ir(&prog, &mut table);
    if !allocatable(&ir, &table) {
        return Err(CompileError::Dataflow);
    }
    let optimized = op(&ir, &mut table);
    if !writable(&optimized, &table) {
        return Err(CompileError::Codegen);
    }
    let assembly = write_asm(&optimized, &table);
    Ok(Compilation { tokens, prog, ir, optimized, assembly })
}

} // verus!
