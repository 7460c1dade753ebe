//! Lexer for plural-rule condition strings.
//!
//! A one-shot pure pass over the input bytes: it yields the tokens covering
//! the whole input, ending in an end-of-input token, or the position of the
//! first unrecognized byte. Whitespace between tokens is skipped and never
//! emitted; identifiers and numbers are maximal runs of ASCII letters and
//! digits. No semantic validation happens here: an identifier that is not
//! a keyword is still a token, and only the parser rejects it.

use vstd::prelude::*;
use crate::operands::{digit_run_end, is_digit, is_digits, lemma_digit_run_end, scan_digits};

verus! {

/// Whether `b` is an ASCII letter.
pub open spec fn is_letter(b: u8) -> bool {
    (65 <= b <= 90) || (97 <= b <= 122)
}

/// Whether `b` is whitespace the lexer skips.
pub open spec fn is_space(b: u8) -> bool {
    b == 32 || b == 9 || b == 10 || b == 13
}

/// The first position at or after `k` whose byte is not a letter (or the
/// length of `s` when letters run to the end).
pub open spec fn letter_run_end(s: Seq<u8>, k: int) -> int
    decreases s.len() - k,
{
    if k < 0 || k >= s.len() {
        k
    } else if is_letter(s[k]) {
        letter_run_end(s, k + 1)
    } else {
        k
    }
}

proof fn lemma_letter_run_end(s: Seq<u8>, k: int)
    requires
        0 <= k <= s.len(),
    ensures
        k <= letter_run_end(s, k) <= s.len(),
    decreases s.len() - k,
{
    if k < s.len() && is_letter(s[k]) {
        lemma_letter_run_end(s, k + 1);
    }
}

/// Scans the letter run of `s` that starts at `k`.
fn scan_letters(s: &[u8], k: usize) -> (r: usize)
    requires
        k <= s@.len(),
    ensures
        r == letter_run_end(s@, k as int),
        k <= r <= s@.len(),
    decreases s@.len() - k,
{
    proof {
        lemma_letter_run_end(s@, k as int);
    }
    if k < s.len() {
        let b = s[k];
        if (65 <= b && b <= 90) || (97 <= b && b <= 122) {
            return scan_letters(s, k + 1);
        }
    }
    k
}

/// The kind of a lexical token.
#[derive(PartialEq, Eq, Structural, Copy, Clone, Debug)]
pub enum TokenKind {
    /// A maximal run of ASCII letters: an operand name or a keyword.
    Ident,
    /// A maximal run of ASCII digits.
    Number,
    /// `..` or `...`, the two accepted range separators.
    Ellipsis,
    /// `,`
    Comma,
    /// `@`
    At,
    /// `=`
    Eq,
    /// `!=`
    NotEq,
    /// `%`
    Percent,
    /// End of input.
    Eof,
}

/// A token together with the span of input bytes it covers.
#[derive(PartialEq, Eq, Structural, Copy, Clone, Debug)]
pub struct Token {
    pub kind: TokenKind,
    pub start: usize,
    pub end: usize,
}

/// A lexical error: the position of the first unrecognized byte.
#[derive(PartialEq, Eq, Structural, Copy, Clone, Debug)]
pub struct LexerError {
    pub pos: usize,
}

/// The token that starts at position `i` of `s` (not whitespace and not
/// end of input), with the position just after it, or the position of the
/// offending byte.
pub open spec fn spec_token_at(s: Seq<u8>, i: int) -> Result<(Token, int), int> {
    let b = s[i];
    if is_letter(b) {
        Ok((
            Token { kind: TokenKind::Ident, start: i as usize, end: letter_run_end(s, i) as usize },
            letter_run_end(s, i),
        ))
    } else if is_digit(b) {
        Ok((
            Token { kind: TokenKind::Number, start: i as usize, end: digit_run_end(s, i) as usize },
            digit_run_end(s, i),
        ))
    } else if b == 46 {
        if i + 1 < s.len() && s[i + 1] == 46 {
            if i + 2 < s.len() && s[i + 2] == 46 {
                Ok((Token { kind: TokenKind::Ellipsis, start: i as usize, end: (i + 3) as usize }, i + 3))
            } else {
                Ok((Token { kind: TokenKind::Ellipsis, start: i as usize, end: (i + 2) as usize }, i + 2))
            }
        } else {
            Err(i)
        }
    } else if b == 44 {
        Ok((Token { kind: TokenKind::Comma, start: i as usize, end: (i + 1) as usize }, i + 1))
    } else if b == 64 {
        Ok((Token { kind: TokenKind::At, start: i as usize, end: (i + 1) as usize }, i + 1))
    } else if b == 61 {
        Ok((Token { kind: TokenKind::Eq, start: i as usize, end: (i + 1) as usize }, i + 1))
    } else if b == 33 {
        if i + 1 < s.len() && s[i + 1] == 61 {
            Ok((Token { kind: TokenKind::NotEq, start: i as usize, end: (i + 2) as usize }, i + 2))
        } else {
            Err(i)
        }
    } else if b == 37 {
        Ok((Token { kind: TokenKind::Percent, start: i as usize, end: (i + 1) as usize }, i + 1))
    } else {
        Err(i)
    }
}

/// The token stream of `s` from position `i` on, ending in an `Eof` token,
/// or the position of the first unrecognized byte.
pub open spec fn spec_lex_from(s: Seq<u8>, i: int) -> Result<Seq<Token>, int>
    decreases s.len() - i,
{
    if i < 0 || i >= s.len() {
        Ok(seq![Token { kind: TokenKind::Eof, start: s.len() as usize, end: s.len() as usize }])
    } else if is_space(s[i]) {
        spec_lex_from(s, i + 1)
    } else {
        match spec_token_at(s, i) {
            Err(p) => Err(p),
            Ok((t, j)) => if i < j <= s.len() {
                match spec_lex_from(s, j) {
                    Ok(rest) => Ok(seq![t] + rest),
                    Err(p) => Err(p),
                }
            } else {
                Err(i)
            },
        }
    }
}

/// Whether a token's span lies inside the input, and is nonempty for the
/// kinds whose bytes carry information.
pub open spec fn token_wf(s: Seq<u8>, t: Token) -> bool {
    &&& t.start <= t.end <= s.len()
    &&& (t.kind == TokenKind::Ident || t.kind == TokenKind::Number) ==> t.start < t.end
    &&& t.kind == TokenKind::Number ==> is_digits(s.subrange(t.start as int, t.end as int))
}

/// Whether every token of `ts` is well formed with respect to `s`.
pub open spec fn tokens_wf(s: Seq<u8>, ts: Seq<Token>) -> bool {
    forall|k: int| 0 <= k < ts.len() ==> token_wf(s, #[trigger] ts[k])
}

/// A successful lex yields only well-formed tokens, at least one of them.
pub proof fn lemma_lex_wf(s: Seq<u8>, i: int)
    requires
        0 <= i <= s.len(),
        s.len() <= usize::MAX,
    ensures
        spec_lex_from(s, i) matches Ok(ts) ==> tokens_wf(s, ts) && ts.len() >= 1,
    decreases s.len() - i,
{
    if i >= s.len() {
    } else if is_space(s[i]) {
        lemma_lex_wf(s, i + 1);
    } else {
        match spec_token_at(s, i) {
            Err(_) => {},
            Ok((t, j)) => {
                if i < j <= s.len() {
                    lemma_lex_wf(s, j);
                    lemma_letter_run_end(s, i);
                    lemma_digit_run_end(s, i);
                    match spec_lex_from(s, j) {
                        Ok(rest) => {
                            assert(token_wf(s, t));
                            assert forall|k: int| 0 <= k < (seq![t] + rest).len() implies token_wf(
                                s,
                                #[trigger] (seq![t] + rest)[k],
                            ) by {
                                if k > 0 {
                                    assert((seq![t] + rest)[k] == rest[k - 1]);
                                }
                            }
                        },
                        Err(_) => {},
                    }
                }
            },
        }
    }
}

/// Reads the token that starts at position `i` of `s`.
fn token_at(s: &[u8], i: usize) -> (r: Result<(Token, usize), LexerError>)
    requires
        i < s@.len(),
    ensures
        match r {
            Ok((t, j)) => {
                &&& spec_token_at(s@, i as int) == Ok::<(Token, int), int>((t, j as int))
                &&& i < j <= s@.len()
            },
            Err(e) => spec_token_at(s@, i as int) == Err::<(Token, int), int>(e.pos as int),
        },
{
    let b = s[i];
    if (65 <= b && b <= 90) || (97 <= b && b <= 122) {
        proof {
            lemma_letter_run_end(s@, i + 1);
            assert(letter_run_end(s@, i as int) == letter_run_end(s@, i + 1));
        }
        let e = scan_letters(s, i);
        Ok((Token { kind: TokenKind::Ident, start: i, end: e }, e))
    } else if 48 <= b && b <= 57 {
        proof {
            lemma_digit_run_end(s@, i + 1);
            assert(digit_run_end(s@, i as int) == digit_run_end(s@, i + 1));
        }
        let e = scan_digits(s, i);
        Ok((Token { kind: TokenKind::Number, start: i, end: e }, e))
    } else if b == 46 {
        if i + 1 < s.len() && s[i + 1] == 46 {
            if i + 2 < s.len() && s[i + 2] == 46 {
                Ok((Token { kind: TokenKind::Ellipsis, start: i, end: i + 3 }, i + 3))
            } else {
                Ok((Token { kind: TokenKind::Ellipsis, start: i, end: i + 2 }, i + 2))
            }
        } else {
            Err(LexerError { pos: i })
        }
    } else if b == 44 {
        Ok((Token { kind: TokenKind::Comma, start: i, end: i + 1 }, i + 1))
    } else if b == 64 {
        Ok((Token { kind: TokenKind::At, start: i, end: i + 1 }, i + 1))
    } else if b == 61 {
        Ok((Token { kind: TokenKind::Eq, start: i, end: i + 1 }, i + 1))
    } else if b == 33 {
        if i + 1 < s.len() && s[i + 1] == 61 {
            Ok((Token { kind: TokenKind::NotEq, start: i, end: i + 2 }, i + 2))
        } else {
            Err(LexerError { pos: i })
        }
    } else if b == 37 {
        Ok((Token { kind: TokenKind::Percent, start: i, end: i + 1 }, i + 1))
    } else {
        Err(LexerError { pos: i })
    }
}

/// Lexes `s` from position `i` to the end.
fn lex_from(s: &[u8], i: usize) -> (r: Result<Vec<Token>, LexerError>)
    requires
        i <= s@.len(),
    ensures
        match r {
            Ok(v) => spec_lex_from(s@, i as int) == Ok::<Seq<Token>, int>(v@),
            Err(e) => spec_lex_from(s@, i as int) == Err::<Seq<Token>, int>(e.pos as int),
        },
    decreases s@.len() - i,
{
    if i >= s.len() {
        let mut v: Vec<Token> = Vec::new();
        v.push(Token { kind: TokenKind::Eof, start: s.len(), end: s.len() });
        assert(v@ =~= seq![
            Token { kind: TokenKind::Eof, start: s@.len() as usize, end: s@.len() as usize },
        ]);
        Ok(v)
    } else {
        let b = s[i];
        if b == 32 || b == 9 || b == 10 || b == 13 {
            lex_from(s, i + 1)
        } else {
            match token_at(s, i) {
                Err(e) => Err(e),
                Ok((t, j)) => match lex_from(s, j) {
                    Err(e) => Err(e),
                    Ok(rest) => {
                        let ghost r0 = rest@;
                        let mut rest = rest;
                        rest.insert(0, t);
                        assert(rest@ =~= seq![t] + r0);
                        Ok(rest)
                    },
                },
            }
        }
    }
}

/// A one-shot lexer over a rule-condition byte string.
pub struct Lexer<'a> {
    pub input: &'a [u8],
}

impl<'a> Lexer<'a> {
    /// Wraps the input bytes; nothing is read until `tokenize` is called.
    pub fn new(input: &'a [u8]) -> (r: Lexer<'a>)
        ensures
            r.input@ == input@,
    {
        Lexer { input }
    }

    /// Produces the tokens covering the whole input, ending in `Eof`, or
    /// the position of the first unrecognized byte.
    pub fn tokenize(&self) -> (r: Result<Vec<Token>, LexerError>)
        ensures
            match r {
                Ok(v) => {
                    &&& spec_lex_from(self.input@, 0) == Ok::<Seq<Token>, int>(v@)
                    &&& tokens_wf(self.input@, v@)
                    &&& v@.len() >= 1
                },
                Err(e) => spec_lex_from(self.input@, 0) == Err::<Seq<Token>, int>(e.pos as int),
            },
    {
        proof {
            assert(self.input.len() <= usize::MAX);
            lemma_lex_wf(self.input@, 0);
        }
        lex_from(self.input, 0)
    }
}

} // verus!
