//! Tests of the individual stages: tokenizer, cursor, renderer.

use exprc::codegen::Instruction;
use exprc::cursor::Cursor;
use exprc::errors::ParseError;
use exprc::render::decimal_string;
use exprc::token::{new_token, Token, TokenKind};
use exprc::tokenizer::tokenize;

#[test]
fn tokens_record_kinds_and_offsets() {
    let ts = tokenize("12+5-3").unwrap();
    let expected = vec![
        (TokenKind::Number { magnitude: 12 }, 0),
        (TokenKind::Operator { symbol: '+' }, 2),
        (TokenKind::Number { magnitude: 5 }, 3),
        (TokenKind::Operator { symbol: '-' }, 4),
        (TokenKind::Number { magnitude: 3 }, 5),
        (TokenKind::EndOfInput, 6),
    ];
    let got: Vec<(TokenKind, usize)> = ts.tokens.iter().map(|t| (t.kind, t.offset)).collect();
    assert_eq!(got, expected);
}

#[test]
fn whitespace_is_skipped_not_tokenized() {
    let ts = tokenize(" \t1\n+\r2 ").unwrap();
    let kinds: Vec<TokenKind> = ts.tokens.iter().map(|t| t.kind).collect();
    assert_eq!(
        kinds,
        vec![
            TokenKind::Number { magnitude: 1 },
            TokenKind::Operator { symbol: '+' },
            TokenKind::Number { magnitude: 2 },
            TokenKind::EndOfInput,
        ]
    );
}

#[test]
fn empty_token_is_the_sentinel() {
    let t = Token::Empty();
    assert_eq!(t.kind, TokenKind::EndOfInput);
    assert_eq!(t.offset, 0);
}

#[test]
fn new_token_keeps_kind_and_offset() {
    let t = new_token(TokenKind::Operator { symbol: '+' }, 7);
    assert_eq!(t.kind, TokenKind::Operator { symbol: '+' });
    assert_eq!(t.offset, 7);
}

#[test]
fn cursor_walks_the_sequence() {
    let ts = tokenize("1+2").unwrap();
    let c = Cursor::new(&ts);
    assert!(!c.at_eof());
    assert_eq!(c.peek().kind, TokenKind::Number { magnitude: 1 });
    let (m, c) = c.expect_number().unwrap();
    assert_eq!(m, 1);
    assert!(c.consume('-').is_none());
    let c = c.consume('+').unwrap();
    let (m, c) = c.expect_number().unwrap();
    assert_eq!(m, 2);
    assert!(c.at_eof());
}

#[test]
fn expect_reports_demanded_and_found() {
    let ts = tokenize("1+2").unwrap();
    let c = Cursor::new(&ts);
    match c.expect('+') {
        Err(ParseError::ExpectedSymbol { expected, found }) => {
            assert_eq!(expected, '+');
            assert_eq!(found.kind, TokenKind::Number { magnitude: 1 });
        }
        Err(other) => panic!("wrong error: {:?}", other),
        Ok(_) => panic!("a number is no operator"),
    }
    let c2 = c.expect_number().unwrap().1;
    let c3 = c2.expect('+').unwrap();
    assert_eq!(c3.peek().kind, TokenKind::Number { magnitude: 2 });
}

#[test]
fn decimal_rendering_is_exact() {
    assert_eq!(decimal_string(0), "0");
    assert_eq!(decimal_string(7), "7");
    assert_eq!(decimal_string(10), "10");
    assert_eq!(decimal_string(12345), "12345");
    assert_eq!(decimal_string(u64::MAX), "18446744073709551615");
}

#[test]
fn instruction_text_is_one_line_each() {
    assert_eq!(Instruction::LoadImmediate { value: 12 }.text(), "  mov rax, 12");
    assert_eq!(Instruction::AddImmediate { value: 5 }.text(), "  add rax, 5");
    assert_eq!(Instruction::SubtractImmediate { value: 3 }.text(), "  sub rax, 3");
    assert_eq!(Instruction::Return.text(), "  ret");
}
