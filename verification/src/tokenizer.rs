//! The tokenizer: one left-to-right scan of the input string.
//!
//! Whitespace runs are skipped, `+` and `-` become operator tokens, a
//! maximal run of decimal digits becomes one number token, and any other
//! character aborts the scan. The returned sequence always ends with
//! exactly one end-of-input sentinel.

use vstd::prelude::*;
use crate::errors::LexError;
use crate::token::{Token, TokenKind, TokenSeq, lemma_token_kinds_concat, new_token, token_kinds};

verus! {

/// The whitespace characters the tokenizer skips: space, horizontal tab,
/// line feed, vertical tab, form feed, and carriage return.
pub open spec fn is_space_char(c: char) -> bool {
    c == ' ' || c == '\t' || c == '\n' || c == '\u{b}' || c == '\u{c}' || c == '\r'
}

/// A decimal digit.
pub open spec fn is_digit_char(c: char) -> bool {
    '0' <= c && c <= '9'
}

/// The numeric value of a decimal digit.
pub open spec fn digit_val(c: char) -> nat {
    (c as nat - '0' as nat) as nat
}

/// Executable test for `is_space_char`.
pub fn is_space(c: char) -> (b: bool)
    ensures
        b == is_space_char(c),
{
    c == ' ' || c == '\t' || c == '\n' || c == '\u{b}' || c == '\u{c}' || c == '\r'
}

/// Executable test for `is_digit_char`.
pub fn is_digit(c: char) -> (b: bool)
    ensures
        b == is_digit_char(c),
{
    '0' <= c && c <= '9'
}

/// The first position at or after `i` that is past the end or holds a
/// non-digit: the exclusive end of the digit run starting at `i`.
pub open spec fn digit_run_end(s: Seq<char>, i: nat) -> nat
    decreases s.len() - i,
{
    if i >= s.len() {
        i
    } else if is_digit_char(s[i as int]) {
        digit_run_end(s, i + 1)
    } else {
        i
    }
}

/// The value of the digit run `s[i..j)`, read as a decimal numeral.
pub open spec fn digits_val(s: Seq<char>, i: int, j: int) -> nat
    decreases j - i,
{
    if j <= i {
        0
    } else {
        digits_val(s, i, j - 1) * 10 + digit_val(s[j - 1])
    }
}

/// The bounds and content of a digit run: it starts at `i`, stays inside
/// the string, consists of digits only, and ends at the end of the string
/// or just before a non-digit.
pub proof fn lemma_digit_run_end(s: Seq<char>, i: nat)
    requires
        i <= s.len(),
    ensures
        i <= digit_run_end(s, i) <= s.len(),
        forall|k: int| i <= k < digit_run_end(s, i) ==> is_digit_char(s[k]),
        digit_run_end(s, i) < s.len() ==> !is_digit_char(s[digit_run_end(s, i) as int]),
    decreases s.len() - i,
{
    if i < s.len() && is_digit_char(s[i as int]) {
        lemma_digit_run_end(s, i + 1);
    }
}

/// Extending a digit run never shrinks its value: the numeral over a
/// prefix of the run is at most the numeral over the whole run.
pub proof fn lemma_digits_val_mono(s: Seq<char>, i: int, k: int, j: int)
    requires
        i <= k <= j,
    ensures
        digits_val(s, i, k) <= digits_val(s, i, j),
    decreases j - k,
{
    if k < j {
        lemma_digits_val_mono(s, i, k, j - 1);
        assert(digits_val(s, i, j) == digits_val(s, i, j - 1) * 10 + digit_val(s[j - 1]));
    }
}

/// The token sequence (or lexical error) of the input suffix starting at
/// position `i`, with tokens recording their character offsets.
pub open spec fn spec_tokenize_from(s: Seq<char>, i: nat) -> Result<Seq<Token>, LexError>
    decreases s.len() - i,
    via spec_tokenize_from_decreases
{
    if i >= s.len() {
        Ok(seq![Token { kind: TokenKind::EndOfInput, offset: i as usize }])
    } else if is_space_char(s[i as int]) {
        spec_tokenize_from(s, i + 1)
    } else if s[i as int] == '+' || s[i as int] == '-' {
        match spec_tokenize_from(s, i + 1) {
            Ok(rest) => Ok(
                seq![Token { kind: TokenKind::Operator { symbol: s[i as int] }, offset: i as usize }]
                    + rest,
            ),
            Err(e) => Err(e),
        }
    } else if is_digit_char(s[i as int]) {
        let j = digit_run_end(s, i + 1);
        if digits_val(s, i as int, j as int) > u64::MAX {
            Err(LexError::NumericOverflow { offset: i as usize })
        } else {
            match spec_tokenize_from(s, j) {
                Ok(rest) => Ok(
                    seq![
                        Token {
                            kind: TokenKind::Number {
                                magnitude: digits_val(s, i as int, j as int) as u64,
                            },
                            offset: i as usize,
                        },
                    ] + rest,
                ),
                Err(e) => Err(e),
            }
        }
    } else {
        Err(LexError::UnexpectedChar { offset: i as usize, ch: s[i as int] })
    }
}

#[via_fn]
proof fn spec_tokenize_from_decreases(s: Seq<char>, i: nat) {
    if i < s.len() && is_digit_char(s[i as int]) {
        lemma_digit_run_end(s, i + 1);
    }
}

/// The token sequence (or lexical error) of the whole input.
pub open spec fn spec_tokenize(s: Seq<char>) -> Result<Seq<Token>, LexError> {
    spec_tokenize_from(s, 0)
}

/// Tokenization is a function of the input characters alone, so
/// tokenizing the same input twice yields structurally identical token
/// sequences.
pub proof fn lemma_tokenize_idempotent(s1: Seq<char>, s2: Seq<char>)
    requires
        s1 == s2,
    ensures
        spec_tokenize(s1) == spec_tokenize(s2),
{
}

/// A digit run is determined by its content: if `s[i..j)` holds digits
/// only and the run cannot be extended past `j`, then `j` is its end.
pub proof fn lemma_digit_run_end_is(s: Seq<char>, i: nat, j: nat)
    requires
        i <= j <= s.len(),
        forall|k: int| i <= k < j ==> is_digit_char(s[k]),
        j < s.len() ==> !is_digit_char(s[j as int]),
    ensures
        digit_run_end(s, i) == j,
    decreases j - i,
{
    if i < j {
        lemma_digit_run_end_is(s, i + 1, j);
    }
}

/// The value of a digit run depends on its characters alone: runs that
/// hold the same characters, at positions shifted by `d`, have the same
/// value.
pub proof fn lemma_digits_val_congruent(s1: Seq<char>, s2: Seq<char>, i: int, j: int, d: int)
    requires
        forall|k: int| i <= k < j ==> s2[k + d] == s1[k],
    ensures
        digits_val(s2, i + d, j + d) == digits_val(s1, i, j),
    decreases j - i,
{
    if i < j {
        lemma_digits_val_congruent(s1, s2, i, j - 1, d);
    }
}

/// Scans the input once, left to right, and returns its token sequence,
/// or the first lexical error met. On success the sequence is well
/// formed and is exactly what `spec_tokenize` says of the input.
#[verifier::loop_isolation(false)]
pub fn tokenize(input: &str) -> (r: Result<TokenSeq, LexError>)
    ensures
        r matches Ok(ts) ==> ts.wf() && spec_tokenize(input@) == Ok::<Seq<Token>, LexError>(ts@),
        r matches Err(e) ==> spec_tokenize(input@) == Err::<Seq<Token>, LexError>(e),
{
    let ghost s = input@;
    let n = input.unicode_len();
    let mut toks: Vec<Token> = Vec::new();
    let mut i: usize = 0;
    while i < n
        invariant
            n == s.len(),
            s == input@,
            i <= n,
            forall|k: int| 0 <= k < toks@.len() ==> !((#[trigger] toks@[k]).kind is EndOfInput),
            spec_tokenize_from(s, i as nat) matches Ok(rest) ==> spec_tokenize(s)
                == Ok::<Seq<Token>, LexError>(toks@ + rest),
            spec_tokenize_from(s, i as nat) matches Err(e) ==> spec_tokenize(s)
                == Err::<Seq<Token>, LexError>(e),
        decreases n - i,
    {
        let c = input.get_char(i);
        if is_space(c) {
            assert(spec_tokenize_from(s, i as nat) == spec_tokenize_from(s, (i + 1) as nat));
            i = i + 1;
        } else if c == '+' || c == '-' {
            let t = new_token(TokenKind::Operator { symbol: c }, i);
            let ghost toks0 = toks@;
            toks.push(t);
            proof {
                if spec_tokenize_from(s, (i + 1) as nat) is Ok {
                    let rest = spec_tokenize_from(s, (i + 1) as nat)->Ok_0;
                    assert(spec_tokenize_from(s, i as nat) == Ok::<Seq<Token>, LexError>(
                        seq![t] + rest,
                    ));
                    assert((toks@ + rest) =~= (toks0 + (seq![t] + rest)));
                } else {
                    let e = spec_tokenize_from(s, (i + 1) as nat)->Err_0;
                    assert(spec_tokenize_from(s, i as nat) == Err::<Seq<Token>, LexError>(e));
                }
            }
            i = i + 1;
        } else if is_digit(c) {
            let start = i;
            // First find the end of the maximal digit run.
            let mut j = i;
            proof {
                lemma_digit_run_end(s, i as nat);
            }
            while j < n && is_digit(input.get_char(j))
                invariant
                    n == s.len(),
                    s == input@,
                    i <= j <= n,
                    digit_run_end(s, i as nat) == digit_run_end(s, j as nat),
                decreases n - j,
            {
                assert(digit_run_end(s, j as nat) == digit_run_end(s, (j + 1) as nat));
                j = j + 1;
            }
            assert(digit_run_end(s, i as nat) == j);
            assert(digit_run_end(s, (i + 1) as nat) == j);
            // Then accumulate its value, watching for overflow.
            let ghost jj = j as int;
            let mut val: u64 = 0;
            let mut k = i;
            while k < j
                invariant
                    n == s.len(),
                    s == input@,
                    i <= k <= j <= n,
                    forall|m: int| i <= m < jj ==> is_digit_char(s[m]),
                    jj == j,
                    val == digits_val(s, i as int, k as int),
                decreases j - k,
            {
                let c2 = input.get_char(k);
                let d: u64 = (c2 as u32 - 48) as u64;
                assert(d == digit_val(s[k as int]) && d <= 9);
                let mul = match val.checked_mul(10) {
                    Some(v) => v,
                    None => {
                        proof {
                            assert(digits_val(s, i as int, k as int + 1)
                                == val * 10 + digit_val(s[k as int]));
                            lemma_digits_val_mono(s, i as int, k as int + 1, jj);
                            assert(digits_val(s, i as int, jj) > u64::MAX);
                            assert(spec_tokenize_from(s, i as nat)
                                == Err::<Seq<Token>, LexError>(
                                LexError::NumericOverflow { offset: start },
                            ));
                        }
                        return Err(LexError::NumericOverflow { offset: start });
                    },
                };
                let sum = match mul.checked_add(d) {
                    Some(v) => v,
                    None => {
                        proof {
                            assert(digits_val(s, i as int, k as int + 1)
                                == val * 10 + digit_val(s[k as int]));
                            lemma_digits_val_mono(s, i as int, k as int + 1, jj);
                            assert(digits_val(s, i as int, jj) > u64::MAX);
                            assert(spec_tokenize_from(s, i as nat)
                                == Err::<Seq<Token>, LexError>(
                                LexError::NumericOverflow { offset: start },
                            ));
                        }
                        return Err(LexError::NumericOverflow { offset: start });
                    },
                };
                val = sum;
                assert(val == digits_val(s, i as int, k as int + 1));
                k = k + 1;
            }
            let t = new_token(TokenKind::Number { magnitude: val }, start);
            let ghost toks0 = toks@;
            toks.push(t);
            proof {
                assert(digits_val(s, i as int, jj) == val);
                if spec_tokenize_from(s, j as nat) is Ok {
                    let rest = spec_tokenize_from(s, j as nat)->Ok_0;
                    assert(spec_tokenize_from(s, i as nat) == Ok::<Seq<Token>, LexError>(
                        seq![t] + rest,
                    ));
                    assert((toks@ + rest) =~= (toks0 + (seq![t] + rest)));
                } else {
                    let e = spec_tokenize_from(s, j as nat)->Err_0;
                    assert(spec_tokenize_from(s, i as nat) == Err::<Seq<Token>, LexError>(e));
                }
            }
            i = j;
        } else {
            return Err(LexError::UnexpectedChar { offset: i, ch: c });
        }
    }
    let eof = new_token(TokenKind::EndOfInput, i);
    let ghost toks0 = toks@;
    toks.push(eof);
    proof {
        assert(spec_tokenize_from(s, i as nat) == Ok::<Seq<Token>, LexError>(seq![eof]));
        assert(toks@ =~= toks0 + seq![eof]);
        assert(spec_tokenize(s) == Ok::<Seq<Token>, LexError>(toks@));
    }
    let ts = TokenSeq { tokens: toks };
    proof {
        assert(ts.wf());
    }
    Ok(ts)
}

/// Scanning past the inserted character: from any position at or after
/// the insertion point, the suffix of the grown string tokenizes to the
/// same token kinds as the suffix of the plain string, every position
/// shifted by one.
proof fn lemma_tokenize_from_shifted(s: Seq<char>, p: int, c: char, i: int)
    requires
        0 <= p <= i <= s.len(),
        spec_tokenize_from(s, i as nat) is Ok,
    ensures
        spec_tokenize_from(s.insert(p, c), (i + 1) as nat) is Ok,
        token_kinds(spec_tokenize_from(s.insert(p, c), (i + 1) as nat)->Ok_0) == token_kinds(
            spec_tokenize_from(s, i as nat)->Ok_0,
        ),
    decreases s.len() - i,
{
    let s2 = s.insert(p, c);
    s.insert_ensures(p, c);
    let r1 = spec_tokenize_from(s, i as nat)->Ok_0;
    let r2 = spec_tokenize_from(s2, (i + 1) as nat)->Ok_0;
    if i >= s.len() {
        assert(r1 =~= seq![Token { kind: TokenKind::EndOfInput, offset: i as usize }]);
        assert(token_kinds(r1) =~= token_kinds(r2));
    } else if is_space_char(s[i]) {
        lemma_tokenize_from_shifted(s, p, c, i + 1);
    } else if s[i] == '+' || s[i] == '-' {
        lemma_tokenize_from_shifted(s, p, c, i + 1);
        let rest1 = spec_tokenize_from(s, (i + 1) as nat)->Ok_0;
        let rest2 = spec_tokenize_from(s2, (i + 2) as nat)->Ok_0;
        let t1 = Token { kind: TokenKind::Operator { symbol: s[i] }, offset: i as usize };
        let t2 = Token { kind: TokenKind::Operator { symbol: s2[i + 1] }, offset: (i + 1) as usize };
        assert(r1 == seq![t1] + rest1);
        assert(r2 == seq![t2] + rest2);
        lemma_token_kinds_concat(seq![t1], rest1);
        lemma_token_kinds_concat(seq![t2], rest2);
        assert(token_kinds(seq![t1]) =~= token_kinds(seq![t2]));
    } else {
        let j = digit_run_end(s, (i + 1) as nat);
        lemma_digit_run_end(s, (i + 1) as nat);
        assert(forall|k: int| i + 1 <= k < j ==> s2[k + 1] == s[k]);
        lemma_digit_run_end_is(s2, (i + 2) as nat, (j + 1) as nat);
        assert(digit_run_end(s2, (i + 2) as nat) == j + 1);
        lemma_digits_val_congruent(s, s2, i, j as int, 1);
        assert(digits_val(s2, i + 1, j as int + 1) == digits_val(s, i, j as int));
        lemma_tokenize_from_shifted(s, p, c, j as int);
        let rest1 = spec_tokenize_from(s, j)->Ok_0;
        let rest2 = spec_tokenize_from(s2, (j + 1) as nat)->Ok_0;
        let m = digits_val(s, i, j as int) as u64;
        let t1 = Token { kind: TokenKind::Number { magnitude: m }, offset: i as usize };
        let t2 = Token { kind: TokenKind::Number { magnitude: m }, offset: (i + 1) as usize };
        assert(r1 == seq![t1] + rest1);
        assert(r2 == seq![t2] + rest2);
        lemma_token_kinds_concat(seq![t1], rest1);
        lemma_token_kinds_concat(seq![t2], rest2);
        assert(token_kinds(seq![t1]) =~= token_kinds(seq![t2]));
    }
}

/// Scanning up to the inserted character: from any position at or before
/// the insertion point, the grown string tokenizes to the same token
/// kinds as the plain string, provided the insertion does not split a digit
/// run.
proof fn lemma_tokenize_from_prefix(s: Seq<char>, p: int, c: char, i: int)
    requires
        0 <= i <= p <= s.len(),
        is_space_char(c),
        !(0 < p < s.len() && is_digit_char(s[p - 1]) && is_digit_char(s[p])),
        spec_tokenize_from(s, i as nat) is Ok,
    ensures
        spec_tokenize_from(s.insert(p, c), i as nat) is Ok,
        token_kinds(spec_tokenize_from(s.insert(p, c), i as nat)->Ok_0) == token_kinds(
            spec_tokenize_from(s, i as nat)->Ok_0,
        ),
    decreases p - i,
{
    let s2 = s.insert(p, c);
    s.insert_ensures(p, c);
    let r1 = spec_tokenize_from(s, i as nat)->Ok_0;
    if i == p {
        // The scan stands on the inserted whitespace and skips it.
        assert(spec_tokenize_from(s2, i as nat) == spec_tokenize_from(s2, (i + 1) as nat));
        lemma_tokenize_from_shifted(s, p, c, i);
    } else if is_space_char(s[i]) {
        lemma_tokenize_from_prefix(s, p, c, i + 1);
    } else if s[i] == '+' || s[i] == '-' {
        lemma_tokenize_from_prefix(s, p, c, i + 1);
        let rest1 = spec_tokenize_from(s, (i + 1) as nat)->Ok_0;
        let rest2 = spec_tokenize_from(s2, (i + 1) as nat)->Ok_0;
        let t1 = Token { kind: TokenKind::Operator { symbol: s[i] }, offset: i as usize };
        assert(r1 == seq![t1] + rest1);
        assert(spec_tokenize_from(s2, i as nat)->Ok_0 == seq![t1] + rest2);
        lemma_token_kinds_concat(seq![t1], rest1);
        lemma_token_kinds_concat(seq![t1], rest2);
        assert(token_kinds(seq![t1]) =~= token_kinds(seq![t1]));
    } else {
        // A digit run; by the boundary condition it ends at or before the
        // insertion point, so the inserted character does not split it.
        let j = digit_run_end(s, (i + 1) as nat);
        lemma_digit_run_end(s, (i + 1) as nat);
        assert(j <= p) by {
            if j > p {
                assert(is_digit_char(s[p - 1]));
                assert(is_digit_char(s[p]));
            }
        }
        assert(forall|k: int| i + 1 <= k < j ==> s2[k] == s[k]);
        lemma_digit_run_end_is(s2, (i + 1) as nat, j);
        lemma_digits_val_congruent(s, s2, i, j as int, 0);
        assert(digits_val(s2, i, j as int) == digits_val(s, i, j as int));
        lemma_tokenize_from_prefix(s, p, c, j as int);
        let rest1 = spec_tokenize_from(s, j)->Ok_0;
        let rest2 = spec_tokenize_from(s2, j)->Ok_0;
        let m = digits_val(s, i, j as int) as u64;
        let t1 = Token { kind: TokenKind::Number { magnitude: m }, offset: i as usize };
        assert(r1 == seq![t1] + rest1);
        assert(spec_tokenize_from(s2, i as nat)->Ok_0 == seq![t1] + rest2);
        lemma_token_kinds_concat(seq![t1], rest1);
        lemma_token_kinds_concat(seq![t1], rest2);
    }
}

/// Whitespace invariance at the token level: inserting one whitespace
/// character anywhere that does not split a digit run leaves the kinds
/// of the tokens — and so every magnitude and operator — unchanged;
/// only the recorded offsets shift. Read from `s.insert(p, c)` to `s`,
/// the same statement covers removing a whitespace character.
pub proof fn lemma_tokenize_insert_space(s: Seq<char>, p: int, c: char)
    requires
        0 <= p <= s.len(),
        is_space_char(c),
        !(0 < p < s.len() && is_digit_char(s[p - 1]) && is_digit_char(s[p])),
        spec_tokenize(s) is Ok,
    ensures
        spec_tokenize(s.insert(p, c)) is Ok,
        token_kinds(spec_tokenize(s.insert(p, c))->Ok_0) == token_kinds(spec_tokenize(s)->Ok_0),
{
    lemma_tokenize_from_prefix(s, p, c, 0);
}

/// Whitespace invariance for a whole run: inserting any run of
/// whitespace characters at a position that does not split a digit run
/// leaves the token kinds unchanged. The run is inserted one character
/// at a time; after the first, the character to the right of the
/// insertion point is whitespace, so no later insertion can split a
/// digit run.
pub proof fn lemma_tokenize_insert_space_run(s: Seq<char>, p: int, ws: Seq<char>)
    requires
        0 <= p <= s.len(),
        forall|k: int| 0 <= k < ws.len() ==> is_space_char(ws[k]),
        !(0 < p < s.len() && is_digit_char(s[p - 1]) && is_digit_char(s[p])),
        spec_tokenize(s) is Ok,
    ensures
        spec_tokenize(s.take(p) + ws + s.skip(p)) is Ok,
        token_kinds(spec_tokenize(s.take(p) + ws + s.skip(p))->Ok_0) == token_kinds(
            spec_tokenize(s)->Ok_0,
        ),
    decreases ws.len(),
{
    if ws.len() == 0 {
        assert(s.take(p) + ws + s.skip(p) =~= s);
    } else {
        let c = ws[0];
        lemma_tokenize_insert_space(s, p, c);
        let s1 = s.insert(p, c);
        s.insert_ensures(p, c);
        lemma_tokenize_insert_space_run(s1, p + 1, ws.drop_first());
        assert(s1.take(p + 1) + ws.drop_first() + s1.skip(p + 1) =~= s.take(p) + ws + s.skip(p));
    }
}

} // verus!
