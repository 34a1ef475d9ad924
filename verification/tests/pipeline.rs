//! End-to-end tests of the three-stage pipeline.

use exprc::codegen::Instruction;
use exprc::errors::{LexError, ParseError};
use exprc::parser::{parse, Sign, Term};
use exprc::render::render_program;
use exprc::token::TokenKind;
use exprc::tokenizer::tokenize;
use exprc::{compile, CompileError};

/// A reference accumulator machine: load sets, add and subtract update,
/// return stops.
fn run_machine(instrs: &[Instruction]) -> i128 {
    let mut acc: i128 = 0;
    for i in instrs {
        match i {
            Instruction::LoadImmediate { value } => acc = *value as i128,
            Instruction::AddImmediate { value } => acc += *value as i128,
            Instruction::SubtractImmediate { value } => acc -= *value as i128,
            Instruction::Return => return acc,
        }
    }
    acc
}

#[test]
fn generated_program_computes_left_to_right() {
    let instrs = compile("12+5-3").unwrap();
    assert_eq!(
        instrs,
        vec![
            Instruction::LoadImmediate { value: 12 },
            Instruction::AddImmediate { value: 5 },
            Instruction::SubtractImmediate { value: 3 },
            Instruction::Return,
        ]
    );
    assert_eq!(run_machine(&instrs), 12 + 5 - 3);
    assert_eq!(run_machine(&instrs), 14);
}

#[test]
fn left_to_right_no_precedence() {
    // 10 - 3 + 2 is (10 - 3) + 2 = 9, never 10 - (3 + 2) = 5.
    let instrs = compile("10-3+2").unwrap();
    assert_eq!(run_machine(&instrs), 9);
}

#[test]
fn tokenize_twice_is_identical() {
    let a = tokenize("12 + 5 - 3").unwrap();
    let b = tokenize("12 + 5 - 3").unwrap();
    assert_eq!(a.tokens, b.tokens);
}

#[test]
fn whitespace_between_tokens_changes_nothing() {
    let bare = compile("12+5-3").unwrap();
    let spaced = compile(" 12 + 5 - 3 ").unwrap();
    let tabbed = compile("\t12\t+ 5\n-\r3 ").unwrap();
    assert_eq!(bare, spaced);
    assert_eq!(bare, tabbed);
}

#[test]
fn whitespace_between_tokens_keeps_terms() {
    let bare = parse(&tokenize("7-2").unwrap()).unwrap();
    let spaced = parse(&tokenize("  7 -  2").unwrap()).unwrap();
    assert_eq!(bare, spaced);
    assert_eq!(
        bare,
        vec![
            Term { sign: Sign::Positive, magnitude: 7 },
            Term { sign: Sign::Negative, magnitude: 2 },
        ]
    );
}

#[test]
fn single_number_is_load_then_return() {
    let instrs = compile("42").unwrap();
    assert_eq!(
        instrs,
        vec![Instruction::LoadImmediate { value: 42 }, Instruction::Return]
    );
    assert_eq!(render_program(&instrs), "  mov rax, 42\n  ret\n");
}

#[test]
fn dangling_operator_expects_number() {
    let err = compile("1 + ").unwrap_err();
    match err {
        CompileError::Parse(ParseError::ExpectedNumber { found }) => {
            assert_eq!(found.kind, TokenKind::EndOfInput);
            assert_eq!(found.offset, 4);
        }
        other => panic!("wrong error: {:?}", other),
    }
}

#[test]
fn unexpected_character_is_reported_with_offset() {
    let err = compile("1 # 2").unwrap_err();
    assert_eq!(
        err,
        CompileError::Lex(LexError::UnexpectedChar { offset: 2, ch: '#' })
    );
}

#[test]
fn empty_input_expects_number() {
    let err = compile("").unwrap_err();
    match err {
        CompileError::Parse(ParseError::ExpectedNumber { found }) => {
            assert_eq!(found.kind, TokenKind::EndOfInput);
            assert_eq!(found.offset, 0);
        }
        other => panic!("wrong error: {:?}", other),
    }
}

#[test]
fn leading_minus_is_rejected() {
    let err = compile("-1").unwrap_err();
    match err {
        CompileError::Parse(ParseError::ExpectedNumber { found }) => {
            assert_eq!(found.kind, TokenKind::Operator { symbol: '-' });
            assert_eq!(found.offset, 0);
        }
        other => panic!("wrong error: {:?}", other),
    }
}

#[test]
fn adjacent_numbers_expect_operator() {
    let err = compile("1 2").unwrap_err();
    match err {
        CompileError::Parse(ParseError::ExpectedOperator { found }) => {
            assert_eq!(found.kind, TokenKind::Number { magnitude: 2 });
            assert_eq!(found.offset, 2);
        }
        other => panic!("wrong error: {:?}", other),
    }
}

#[test]
fn magnitude_at_width_limit_is_accepted() {
    let instrs = compile("18446744073709551615").unwrap();
    assert_eq!(
        instrs,
        vec![
            Instruction::LoadImmediate { value: u64::MAX },
            Instruction::Return,
        ]
    );
}

#[test]
fn magnitude_past_width_limit_overflows() {
    let err = compile("18446744073709551616").unwrap_err();
    assert_eq!(
        err,
        CompileError::Lex(LexError::NumericOverflow { offset: 0 })
    );
}

#[test]
fn overflow_offset_names_the_run_start() {
    let err = compile("1+99999999999999999999").unwrap_err();
    assert_eq!(
        err,
        CompileError::Lex(LexError::NumericOverflow { offset: 2 })
    );
}
