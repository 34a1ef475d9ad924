//! A small compiler for flat arithmetic expressions.
//!
//! The input is one textual expression of the form `n0 (op ni)*` with
//! `op` one of `+` and `-` and each `ni` a decimal integer literal. The
//! pipeline runs in three stages: the tokenizer turns the string into a
//! token sequence terminated by an end-of-input sentinel, the parser turns
//! the tokens into a sequence of signed terms, and the code generator turns
//! the terms into the instructions of an accumulator machine, rendered as
//! assembly text line by line.

use vstd::prelude::*;

pub mod codegen;
pub mod cursor;
pub mod errors;
pub mod parser;
pub mod render;
pub mod token;
pub mod tokenizer;

use crate::codegen::{Instruction, spec_generate};
use crate::errors::{LexError, ParseError};
use crate::parser::{parse, spec_parse};
use crate::tokenizer::{spec_tokenize, tokenize};

verus! {

/// A failure of either stage of the pipeline.
#[derive(Clone, Copy, PartialEq, Eq, Structural, Debug)]
pub enum CompileError {
    Lex(LexError),
    Parse(ParseError),
}

/// What the whole pipeline makes of an input: its instructions, or the
/// first error of the stage that failed.
pub open spec fn spec_compile(s: Seq<char>) -> Result<Seq<Instruction>, CompileError> {
    match spec_tokenize(s) {
        Err(e) => Err(CompileError::Lex(e)),
        Ok(ts) => match spec_parse(ts) {
            Err(e) => Err(CompileError::Parse(e)),
            Ok(terms) => Ok(spec_generate(terms)),
        },
    }
}

/// End-to-end correctness: for every input the pipeline accepts, running
/// the generated program on the accumulator machine yields the
/// arithmetic value of the parsed expression, evaluated strictly left to
/// right.
pub proof fn lemma_compile_computes_expression(s: Seq<char>)
    requires
        spec_compile(s) is Ok,
    ensures
        spec_tokenize(s) is Ok,
        spec_parse(spec_tokenize(s)->Ok_0) is Ok,
        codegen::spec_machine_result(spec_compile(s)->Ok_0) == codegen::spec_eval(
            spec_parse(spec_tokenize(s)->Ok_0)->Ok_0,
        ),
{
    let terms = spec_parse(spec_tokenize(s)->Ok_0)->Ok_0;
    parser::lemma_spec_parse_shape(spec_tokenize(s)->Ok_0);
    codegen::lemma_generated_program_computes_expression(terms);
}

/// Whitespace invariance: inserting a run of whitespace characters
/// anywhere that does not split a digit run changes neither whether the
/// input parses, nor the parsed term sequence, nor the generated
/// instructions. Read from the padded string to the plain one, the same
/// statement covers removing a whitespace run.
pub proof fn lemma_whitespace_invariance(s: Seq<char>, p: int, ws: Seq<char>)
    requires
        0 <= p <= s.len(),
        forall|k: int| 0 <= k < ws.len() ==> tokenizer::is_space_char(ws[k]),
        !(0 < p < s.len() && tokenizer::is_digit_char(s[p - 1]) && tokenizer::is_digit_char(
            s[p],
        )),
        spec_tokenize(s) is Ok,
    ensures
        spec_tokenize(s.take(p) + ws + s.skip(p)) is Ok,
        spec_parse(spec_tokenize(s.take(p) + ws + s.skip(p))->Ok_0) is Ok <==> spec_parse(
            spec_tokenize(s)->Ok_0,
        ) is Ok,
        spec_parse(spec_tokenize(s)->Ok_0) is Ok ==> spec_parse(
            spec_tokenize(s.take(p) + ws + s.skip(p))->Ok_0,
        ) == spec_parse(spec_tokenize(s)->Ok_0) && spec_compile(s.take(p) + ws + s.skip(p))
            == spec_compile(s),
{
    tokenizer::lemma_tokenize_insert_space_run(s, p, ws);
    parser::lemma_parse_kinds(
        spec_tokenize(s.take(p) + ws + s.skip(p))->Ok_0,
        spec_tokenize(s)->Ok_0,
    );
}

/// Runs the three stages on one input string: tokenize, parse, generate.
/// The result is exactly what `spec_compile` says of the input's
/// characters, and the first error met aborts the run.
pub fn compile(input: &str) -> (r: Result<Vec<Instruction>, CompileError>)
    ensures
        r matches Ok(instrs) ==> spec_compile(input@) == Ok::<Seq<Instruction>, CompileError>(
            instrs@,
        ),
        r matches Err(e) ==> spec_compile(input@) == Err::<Seq<Instruction>, CompileError>(e),
{
    let toks = match tokenize(input) {
        Ok(t) => t,
        Err(e) => {
            return Err(CompileError::Lex(e));
        },
    };
    let terms = match parse(&toks) {
        Ok(t) => t,
        Err(e) => {
            return Err(CompileError::Parse(e));
        },
    };
    Ok(crate::codegen::generate(&terms))
}

} // verus!
