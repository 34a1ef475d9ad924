//! A forward-only cursor over a token sequence.
//!
//! Cursor values are immutable: every consuming operation returns a new
//! cursor advanced past what it read, so advancement is an explicit return
//! value and consumed input can never silently be read again. The
//! end-of-input sentinel keeps every position valid, so peeking never
//! fails.

use vstd::prelude::*;
use crate::errors::ParseError;
use crate::token::{Token, TokenKind, TokenSeq};

verus! {

/// Does the token carry the given operator symbol?
pub open spec fn is_operator_token(t: Token, c: char) -> bool {
    t.kind matches TokenKind::Operator { symbol } && symbol == c
}

/// A position inside a well-formed token sequence.
pub struct Cursor<'a> {
    pub seq: &'a TokenSeq,
    pub pos: usize,
}

impl<'a> Cursor<'a> {
    /// A cursor is well formed when its sequence is and its position is in
    /// bounds; the sentinel guarantees a token stands at every position.
    pub open spec fn wf(&self) -> bool {
        &&& self.seq.wf()
        &&& self.pos < self.seq@.len()
    }

    /// The token at the current position.
    pub open spec fn cur(&self) -> Token {
        self.seq@[self.pos as int]
    }

    /// A cursor at the start of the sequence.
    pub fn new(seq: &'a TokenSeq) -> (c: Cursor<'a>)
        requires
            seq.wf(),
        ensures
            c.wf(),
            c.seq == seq,
            c.pos == 0,
    {
        Cursor { seq, pos: 0 }
    }

    /// Returns the current token without advancing.
    pub fn peek(&self) -> (t: Token)
        requires
            self.wf(),
        ensures
            t == self.cur(),
    {
        self.seq.tokens[self.pos]
    }

    /// True exactly when the cursor stands on the end-of-input sentinel.
    pub fn at_eof(&self) -> (b: bool)
        requires
            self.wf(),
        ensures
            b == (self.cur().kind is EndOfInput),
    {
        match self.peek().kind {
            TokenKind::EndOfInput => true,
            _ => false,
        }
    }

    /// If the current token is the operator `op`, returns a cursor
    /// advanced past it; otherwise returns nothing. This is the "try"
    /// form used for optional grammar branches.
    pub fn consume(&self, op: char) -> (r: Option<Cursor<'a>>)
        requires
            self.wf(),
        ensures
            r is Some <==> is_operator_token(self.cur(), op),
            r matches Some(c2) ==> c2.wf() && c2.seq == self.seq && c2.pos == self.pos + 1,
    {
        let t = self.peek();
        match t.kind {
            TokenKind::Operator { symbol } if symbol == op => {
                proof {
                    // The current token is no sentinel, so it is not the
                    // last one and the advanced position stays in bounds.
                    vstd::std_specs::vec::axiom_spec_len(&self.seq.tokens);
                    assert(self.pos < self.seq@.len() - 1);
                }
                Some(Cursor { seq: self.seq, pos: self.pos + 1 })
            },
            _ => None,
        }
    }

    /// Like `consume`, but the grammar mandates the symbol: a mismatch is
    /// an error recording what was demanded and what stood there.
    pub fn expect(&self, op: char) -> (r: Result<Cursor<'a>, ParseError>)
        requires
            self.wf(),
        ensures
            r is Ok <==> is_operator_token(self.cur(), op),
            r matches Ok(c2) ==> c2.wf() && c2.seq == self.seq && c2.pos == self.pos + 1,
            r matches Err(e) ==> e == (ParseError::ExpectedSymbol { expected: op, found: self.cur() }),
    {
        match self.consume(op) {
            Some(c2) => Ok(c2),
            None => Err(ParseError::ExpectedSymbol { expected: op, found: self.peek() }),
        }
    }

    /// If the current token is a number, returns its magnitude and a
    /// cursor advanced past it; otherwise an error recording the token
    /// actually found.
    pub fn expect_number(&self) -> (r: Result<(u64, Cursor<'a>), ParseError>)
        requires
            self.wf(),
        ensures
            r is Ok <==> self.cur().kind is Number,
            r matches Ok((m, c2)) ==> self.cur().kind == (TokenKind::Number { magnitude: m })
                && c2.wf() && c2.seq == self.seq && c2.pos == self.pos + 1,
            r matches Err(e) ==> e == (ParseError::ExpectedNumber { found: self.cur() }),
    {
        let t = self.peek();
        match t.kind {
            TokenKind::Number { magnitude } => {
                proof {
                    vstd::std_specs::vec::axiom_spec_len(&self.seq.tokens);
                    assert(self.pos < self.seq@.len() - 1);
                }
                Ok((magnitude, Cursor { seq: self.seq, pos: self.pos + 1 }))
            },
            _ => Err(ParseError::ExpectedNumber { found: t }),
        }
    }
}

} // verus!
