//! Tokens and the token sequence produced by the tokenizer.

use vstd::prelude::*;

verus! {

/// The kind of a token: a number with its magnitude, an operator with its
/// symbol, or the end-of-input sentinel that terminates every sequence.
#[derive(Clone, Copy, PartialEq, Eq, Structural, Debug)]
pub enum TokenKind {
    Number { magnitude: u64 },
    Operator { symbol: char },
    EndOfInput,
}

/// A token together with the character offset at which it began in the
/// input string; the offset serves error reporting only.
#[derive(Clone, Copy, PartialEq, Eq, Structural, Debug)]
pub struct Token {
    pub kind: TokenKind,
    pub offset: usize,
}

impl Token {
    /// The empty token: an end-of-input sentinel at offset 0, the value a
    /// token sequence starts from before any input has been read.
    #[allow(non_snake_case)]
    pub fn Empty() -> (t: Token)
        ensures
            t.kind == TokenKind::EndOfInput,
            t.offset == 0,
    {
        Token { kind: TokenKind::EndOfInput, offset: 0 }
    }
}

/// Builds a token of the given kind at the given character offset.
pub fn new_token(kind: TokenKind, offset: usize) -> (t: Token)
    ensures
        t.kind == kind,
        t.offset == offset,
{
    Token { kind, offset }
}

/// A well-formed token sequence is non-empty, ends with exactly one
/// end-of-input sentinel, and has no sentinel anywhere before the end.
pub open spec fn wf_token_seq(ts: Seq<Token>) -> bool {
    &&& ts.len() > 0
    &&& ts[ts.len() - 1].kind is EndOfInput
    &&& forall|i: int| 0 <= i < ts.len() - 1 ==> !((#[trigger] ts[i]).kind is EndOfInput)
}

/// The kinds of a token sequence, with the character offsets stripped:
/// everything later stages decide by, since offsets serve error messages
/// only.
pub open spec fn token_kinds(ts: Seq<Token>) -> Seq<TokenKind> {
    ts.map_values(|t: Token| t.kind)
}

/// `token_kinds` distributes over concatenation.
pub proof fn lemma_token_kinds_concat(a: Seq<Token>, b: Seq<Token>)
    ensures
        token_kinds(a + b) == token_kinds(a) + token_kinds(b),
{
    assert(token_kinds(a + b) =~= token_kinds(a) + token_kinds(b));
}

/// The token sequence handed from the tokenizer to the parser.
pub struct TokenSeq {
    pub tokens: Vec<Token>,
}

impl View for TokenSeq {
    type V = Seq<Token>;

    open spec fn view(&self) -> Seq<Token> {
        self.tokens@
    }
}

impl TokenSeq {
    /// The invariant every sequence returned by the tokenizer satisfies.
    pub open spec fn wf(&self) -> bool {
        wf_token_seq(self@)
    }
}

} // verus!
