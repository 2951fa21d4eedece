use vstd::prelude::*;

use crate::analyzer::{check_stmts, Analyzer, AnalyzerState};
use crate::bytecode::{Chunk, ChunkV};
use crate::codegen::{code_fits, compile_stmts, initial_compiler, CompilerState};
use crate::compiler::Compiler;
use crate::error::{ErrorView, ScriptError};
use crate::grammar::spec_parse;
use crate::lexer::{lemma_tokens_end_with_eof, spec_tokenize, Lexer};
use crate::parser::Parser;
use crate::token::{tokens_view, TokenKind, TokenType};

verus! {

/// What the analyzer knows before it reads a program: no blocks, outside any
/// function and any loop.
pub open spec fn fresh_analysis() -> AnalyzerState {
    AnalyzerState { scopes: seq![], in_function: false, in_loop: false }
}

/// The chunk a compiler state holds.
pub open spec fn chunk_of(st: CompilerState) -> ChunkV {
    ChunkV { code: st.code, constants: st.constants, lines: st.lines }
}

/// What a source text compiles to: its tokens, then its statements, then the
/// semantic checks, then the code; the first stage that fails gives the error.
pub open spec fn spec_compile_source(s: Seq<char>) -> Result<ChunkV, ErrorView> {
    match spec_tokenize(s) {
        Err(e) => Err(e),
        Ok(ts) => match spec_parse(ts) {
            Err(e) => Err(e),
            Ok(ss) => match check_stmts(fresh_analysis(), ss).1 {
                Some(e) => Err(e),
                None => Ok(chunk_of(compile_stmts(initial_compiler(), ss))),
            },
        },
    }
}

/// Reads, parses, checks and compiles a source text: every stage of running a
/// script but the execution of its code.
pub fn compile_source(source: &str) -> (r: Result<Chunk, ScriptError>)
    requires
        source@.len() < usize::MAX,
    ensures
        match r {
            Ok(c) => spec_compile_source(source@) == Ok::<ChunkV, ErrorView>(c@) && code_fits(
                c@.code,
                c@.constants,
                c@.lines,
            ),
            Err(e) => spec_compile_source(source@) == Err::<ChunkV, ErrorView>(e@),
        },
{
    let lexer = Lexer::new(source);
    let tokens = match lexer.tokenize() {
        Ok(ts) => ts,
        Err(e) => return Err(e),
    };
    proof {
        lemma_tokens_end_with_eof(source@);
        let tv = tokens_view(tokens@);
        assert(tv.last() == tokens@.last()@);
        assert(tv.last().kind is Eof);
        assert(tokens@.last().kind is Eof) by {
            match tokens@.last().kind {
                TokenType::Eof => {},
                _ => {},
            }
        }
    }
    let mut parser = Parser::new(tokens);
    let ast = match parser.parse() {
        Ok(v) => v,
        Err(e) => return Err(e),
    };
    let mut analyzer = Analyzer::new();
    match analyzer.analyze(ast.as_slice()) {
        Ok(()) => {},
        Err(e) => return Err(e),
    }
    let compiler = Compiler::new();
    let chunk = compiler.compile(ast);
    Ok(chunk)
}

} // verus!
