//! The parser: token sequence to signed terms.
//!
//! The grammar is `expr := number (('+' | '-') number)*`, read strictly
//! left to right with expectation-checked consumption: the first token
//! must be a number, and after it the parser alternates between an
//! operator and a number until the end-of-input sentinel. The first term
//! is positive by construction; a leading `-` is a syntax error, not a
//! unary minus.

use vstd::prelude::*;
use crate::cursor::{Cursor, is_operator_token};
use crate::errors::ParseError;
use crate::token::{Token, TokenKind, TokenSeq, token_kinds};

verus! {

/// The sign of a term.
#[derive(Clone, Copy, PartialEq, Eq, Structural, Debug)]
pub enum Sign {
    Positive,
    Negative,
}

/// One signed term of the expression: a sign and an unsigned magnitude.
#[derive(Clone, Copy, PartialEq, Eq, Structural, Debug)]
pub struct Term {
    pub sign: Sign,
    pub magnitude: u64,
}

/// The terms after the first one: at position `i` the parser either
/// stands on the sentinel and is done, or reads one operator and the
/// number that must follow it.
pub open spec fn spec_parse_rest(ts: Seq<Token>, i: int) -> Result<Seq<Term>, ParseError>
    decreases ts.len() - i,
{
    if i < 0 || i >= ts.len() {
        Ok(Seq::empty())
    } else if ts[i].kind is EndOfInput {
        Ok(Seq::empty())
    } else if is_operator_token(ts[i], '+') || is_operator_token(ts[i], '-') {
        let sign = if is_operator_token(ts[i], '+') {
            Sign::Positive
        } else {
            Sign::Negative
        };
        if i + 1 < ts.len() && ts[i + 1].kind is Number {
            let magnitude = ts[i + 1].kind->magnitude;
            match spec_parse_rest(ts, i + 2) {
                Ok(rest) => Ok(seq![Term { sign, magnitude }] + rest),
                Err(e) => Err(e),
            }
        } else {
            Err(ParseError::ExpectedNumber { found: ts[i + 1] })
        }
    } else {
        Err(ParseError::ExpectedOperator { found: ts[i] })
    }
}

/// The term sequence (or parse error) of a token sequence: a leading
/// number, then operator-number pairs until the sentinel.
pub open spec fn spec_parse(ts: Seq<Token>) -> Result<Seq<Term>, ParseError> {
    if ts.len() > 0 && ts[0].kind is Number {
        let magnitude = ts[0].kind->magnitude;
        match spec_parse_rest(ts, 1) {
            Ok(rest) => Ok(seq![Term { sign: Sign::Positive, magnitude }] + rest),
            Err(e) => Err(e),
        }
    } else if ts.len() > 0 {
        Err(ParseError::ExpectedNumber { found: ts[0] })
    } else {
        Err(ParseError::ExpectedNumber { found: Token { kind: TokenKind::EndOfInput, offset: 0 } })
    }
}

/// The tail of the parse depends on the token kinds alone: two token
/// sequences with the same kinds succeed together and, when they
/// succeed, yield the same terms. Offsets matter only to error values.
proof fn lemma_parse_rest_kinds(ts1: Seq<Token>, ts2: Seq<Token>, i: int)
    requires
        token_kinds(ts1) == token_kinds(ts2),
    ensures
        spec_parse_rest(ts1, i) is Ok <==> spec_parse_rest(ts2, i) is Ok,
        spec_parse_rest(ts1, i) is Ok ==> spec_parse_rest(ts1, i) == spec_parse_rest(ts2, i),
    decreases ts1.len() - i,
{
    assert(ts1.len() == ts2.len()) by {
        assert(token_kinds(ts1).len() == ts1.len());
        assert(token_kinds(ts2).len() == ts2.len());
    }
    assert(forall|k: int| 0 <= k < ts1.len() ==> (#[trigger] ts1[k]).kind == ts2[k].kind) by {
        assert(forall|k: int| 0 <= k < ts1.len() ==> token_kinds(ts1)[k] == (
        #[trigger] ts1[k]).kind);
        assert(forall|k: int| 0 <= k < ts2.len() ==> token_kinds(ts2)[k] == (
        #[trigger] ts2[k]).kind);
    }
    if 0 <= i < ts1.len() && !(ts1[i].kind is EndOfInput) && (is_operator_token(ts1[i], '+')
        || is_operator_token(ts1[i], '-')) {
        if i + 1 < ts1.len() && ts1[i + 1].kind is Number {
            lemma_parse_rest_kinds(ts1, ts2, i + 2);
        }
    }
}

/// The parse depends on the token kinds alone: same kinds, same
/// success, and on success the same term sequence.
pub proof fn lemma_parse_kinds(ts1: Seq<Token>, ts2: Seq<Token>)
    requires
        token_kinds(ts1) == token_kinds(ts2),
    ensures
        spec_parse(ts1) is Ok <==> spec_parse(ts2) is Ok,
        spec_parse(ts1) is Ok ==> spec_parse(ts1) == spec_parse(ts2),
{
    assert(ts1.len() == ts2.len()) by {
        assert(token_kinds(ts1).len() == ts1.len());
        assert(token_kinds(ts2).len() == ts2.len());
    }
    if ts1.len() > 0 {
        assert(ts1[0].kind == ts2[0].kind) by {
            assert(token_kinds(ts1)[0] == ts1[0].kind);
            assert(token_kinds(ts2)[0] == ts2[0].kind);
        }
        lemma_parse_rest_kinds(ts1, ts2, 1);
    }
}

/// A successful parse yields at least one term, and its first term is
/// positive: the grammar starts with a bare number.
pub proof fn lemma_spec_parse_shape(ts: Seq<Token>)
    requires
        spec_parse(ts) is Ok,
    ensures
        spec_parse(ts)->Ok_0.len() >= 1,
        spec_parse(ts)->Ok_0[0].sign == Sign::Positive,
{
}

/// Consumes the whole token sequence and returns its terms, or the first
/// parse error met. The result is exactly what `spec_parse` says of the
/// tokens.
#[verifier::loop_isolation(false)]
pub fn parse(tokens: &TokenSeq) -> (r: Result<Vec<Term>, ParseError>)
    requires
        tokens.wf(),
    ensures
        r matches Ok(terms) ==> spec_parse(tokens@) == Ok::<Seq<Term>, ParseError>(terms@)
            && terms@.len() >= 1 && terms@[0].sign == Sign::Positive,
        r matches Err(e) ==> spec_parse(tokens@) == Err::<Seq<Term>, ParseError>(e),
{
    let ghost ts = tokens@;
    let cur0 = Cursor::new(tokens);
    let (first, mut cur) = match cur0.expect_number() {
        Ok(x) => x,
        Err(e) => {
            return Err(e);
        },
    };
    let mut terms: Vec<Term> = Vec::new();
    terms.push(Term { sign: Sign::Positive, magnitude: first });
    loop
        invariant
            cur.wf(),
            cur.seq == tokens,
            terms@.len() >= 1,
            terms@[0].sign == Sign::Positive,
            spec_parse_rest(ts, cur.pos as int) matches Ok(rest) ==> spec_parse(ts)
                == Ok::<Seq<Term>, ParseError>(terms@ + rest),
            spec_parse_rest(ts, cur.pos as int) matches Err(e) ==> spec_parse(ts)
                == Err::<Seq<Term>, ParseError>(e),
        decreases ts.len() - cur.pos,
    {
        if cur.at_eof() {
            proof {
                assert(spec_parse_rest(ts, cur.pos as int) == Ok::<Seq<Term>, ParseError>(
                    Seq::empty(),
                ));
                assert(terms@ + Seq::<Term>::empty() =~= terms@);
            }
            return Ok(terms);
        }
        let (sign, after_op) = match cur.consume('+') {
            Some(c2) => (Sign::Positive, c2),
            None => match cur.consume('-') {
                Some(c2) => (Sign::Negative, c2),
                None => {
                    return Err(ParseError::ExpectedOperator { found: cur.peek() });
                },
            },
        };
        let (m, after_num) = match after_op.expect_number() {
            Ok(x) => x,
            Err(e) => {
                return Err(e);
            },
        };
        let t = Term { sign, magnitude: m };
        let ghost terms0 = terms@;
        terms.push(t);
        proof {
            if spec_parse_rest(ts, after_num.pos as int) is Ok {
                let rest = spec_parse_rest(ts, after_num.pos as int)->Ok_0;
                assert(spec_parse_rest(ts, cur.pos as int) == Ok::<Seq<Term>, ParseError>(
                    seq![t] + rest,
                ));
                assert((terms@ + rest) =~= (terms0 + (seq![t] + rest)));
            }
        }
        cur = after_num;
    }
}

} // verus!
