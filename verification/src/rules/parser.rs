//! Recursive-descent parser for plural-rule condition strings.
//!
//! Grammar, precedence low to high, with one token of lookahead:
//!
//! ```text
//! condition     := <empty> | and_condition ("or" and_condition)*
//! and_condition := relation ("and" relation)*
//! relation      := ["not"] operand [("mod" | "%") number] operator
//! operator      := "=" range_list | "!=" range_list
//!                | ["not"] "in" range_list | ["not"] "within" range_list
//!                | "is" ["not"] number
//! operand       := "n" | "i" | "v" | "w" | "f" | "t" | "c" | "e"
//! range_list    := range ("," range)*
//! range         := number [(".." | "...") number]
//! ```
//!
//! The input must be consumed in full. A leading `not`, a `not` before
//! `in`/`within`, `!=` and `is not` all normalize to the relation's
//! negation flag; when two apply they cancel. An `is` after a modulus
//! clause normalizes to an exact single-value range list, which tests the
//! same thing. A zero modulus and a number beyond the supported range are
//! rejected as their own errors.

use vstd::prelude::*;
use crate::operands::{
    digits_val, is_digit, lemma_digits_prefix_le, lemma_digits_val_snoc,
};
use crate::rules::ast::{
    AndCondition, Condition, InOrWithin, Operand, RangeOrValue, Relation, RelationKind,
    SpecAndCondition, SpecCondition, SpecInOrWithin, SpecRelation, SpecRelationKind,
};
use crate::rules::lexer::{spec_lex_from, token_wf, tokens_wf, Lexer, Token, TokenKind};
use crate::rules::resolver::{and_wf, condition_wf, relation_wf};

verus! {

/// A parse failure, with the byte position it was noticed at.
#[derive(PartialEq, Eq, Structural, Copy, Clone, Debug)]
pub enum ParseError {
    /// An unrecognized byte in the rule text.
    Lexical { pos: usize },
    /// An unexpected token, a missing expected token, or trailing input
    /// after a complete condition.
    Syntax { pos: usize },
    /// A number literal beyond the supported numeric range.
    ValueOutOfRange { pos: usize },
    /// A modulus of zero.
    ZeroModulus { pos: usize },
}

/// What a run of letters means to the parser.
#[derive(PartialEq, Eq, Structural, Copy, Clone, Debug)]
pub enum IdentClass {
    KwAnd,
    KwOr,
    KwMod,
    KwIn,
    KwWithin,
    KwIs,
    KwNot,
    OpN,
    OpI,
    OpV,
    OpW,
    OpF,
    OpT,
    OpC,
    OpE,
    Unknown,
}

/// The bytes an identifier or number token covers.
pub open spec fn token_bytes(s: Seq<u8>, t: Token) -> Seq<u8> {
    s.subrange(t.start as int, t.end as int)
}

/// Classifies the letters of an identifier token into a keyword, an
/// operand name, or an unknown word.
pub open spec fn spec_classify_ident(s: Seq<u8>, t: Token) -> IdentClass {
    let n = t.end - t.start;
    if n == 1 {
        let b0 = s[t.start as int];
        if b0 == 110 {
            IdentClass::OpN
        } else if b0 == 105 {
            IdentClass::OpI
        } else if b0 == 118 {
            IdentClass::OpV
        } else if b0 == 119 {
            IdentClass::OpW
        } else if b0 == 102 {
            IdentClass::OpF
        } else if b0 == 116 {
            IdentClass::OpT
        } else if b0 == 99 {
            IdentClass::OpC
        } else if b0 == 101 {
            IdentClass::OpE
        } else {
            IdentClass::Unknown
        }
    } else if n == 2 {
        let b0 = s[t.start as int];
        let b1 = s[t.start + 1];
        if b0 == 105 && b1 == 110 {
            IdentClass::KwIn
        } else if b0 == 105 && b1 == 115 {
            IdentClass::KwIs
        } else if b0 == 111 && b1 == 114 {
            IdentClass::KwOr
        } else {
            IdentClass::Unknown
        }
    } else if n == 3 {
        let b0 = s[t.start as int];
        let b1 = s[t.start + 1];
        let b2 = s[t.start + 2];
        if b0 == 97 && b1 == 110 && b2 == 100 {
            IdentClass::KwAnd
        } else if b0 == 109 && b1 == 111 && b2 == 100 {
            IdentClass::KwMod
        } else if b0 == 110 && b1 == 111 && b2 == 116 {
            IdentClass::KwNot
        } else {
            IdentClass::Unknown
        }
    } else if n == 6 {
        let b0 = s[t.start as int];
        let b1 = s[t.start + 1];
        let b2 = s[t.start + 2];
        let b3 = s[t.start + 3];
        let b4 = s[t.start + 4];
        let b5 = s[t.start + 5];
        if b0 == 119 && b1 == 105 && b2 == 116 && b3 == 104 && b4 == 105 && b5 == 110 {
            IdentClass::KwWithin
        } else {
            IdentClass::Unknown
        }
    } else {
        IdentClass::Unknown
    }
}

/// Whether the token at hand is the identifier classified as `c`.
pub open spec fn is_kw(s: Seq<u8>, t: Token, c: IdentClass) -> bool {
    t.kind == TokenKind::Ident && spec_classify_ident(s, t) == c
}

/// The operand an identifier class names, if any.
pub open spec fn class_operand(c: IdentClass) -> Option<Operand> {
    match c {
        IdentClass::OpN => Some(Operand::N),
        IdentClass::OpI => Some(Operand::I),
        IdentClass::OpV => Some(Operand::V),
        IdentClass::OpW => Some(Operand::W),
        IdentClass::OpF => Some(Operand::F),
        IdentClass::OpT => Some(Operand::T),
        IdentClass::OpC => Some(Operand::C),
        IdentClass::OpE => Some(Operand::E),
        _ => None,
    }
}

/// The byte position to report for the token at index `i`: its start, or
/// the input's end when the index runs past the stream.
pub open spec fn token_pos(s: Seq<u8>, ts: Seq<Token>, i: int) -> usize {
    if 0 <= i < ts.len() {
        ts[i].start
    } else {
        s.len() as usize
    }
}

/// The model of `Relation`s held in a vector.
pub open spec fn rels_view(v: Seq<Relation>) -> Seq<SpecRelation> {
    v.map_values(|r: Relation| r@)
}

/// The model of `AndCondition`s held in a vector.
pub open spec fn ands_view(v: Seq<AndCondition>) -> Seq<SpecAndCondition> {
    v.map_values(|a: AndCondition| a@)
}

/// Parses a number token into its value: the token at `i` must be a
/// number whose value fits in `u64`.
pub open spec fn sp_value(s: Seq<u8>, ts: Seq<Token>, i: int) -> Result<(u64, int), ParseError> {
    if 0 <= i < ts.len() && ts[i].kind == TokenKind::Number {
        if digits_val(token_bytes(s, ts[i])) > u64::MAX {
            Err(ParseError::ValueOutOfRange { pos: ts[i].start })
        } else {
            Ok((digits_val(token_bytes(s, ts[i])) as u64, i + 1))
        }
    } else {
        Err(ParseError::Syntax { pos: token_pos(s, ts, i) })
    }
}

/// Parses one entry of a range list: a number, optionally followed by a
/// range separator and a second number.
pub open spec fn sp_range(s: Seq<u8>, ts: Seq<Token>, i: int) -> Result<(RangeOrValue, int), ParseError> {
    match sp_value(s, ts, i) {
        Err(e) => Err(e),
        Ok((lo, j)) => if j < ts.len() && ts[j].kind == TokenKind::Ellipsis {
            match sp_value(s, ts, j + 1) {
                Err(e) => Err(e),
                Ok((hi, k)) => Ok((RangeOrValue::Range(lo, hi), k)),
            }
        } else {
            Ok((RangeOrValue::Value(lo), j))
        },
    }
}

/// Parses the comma-separated continuation of a range list.
pub open spec fn sp_range_list_rest(s: Seq<u8>, ts: Seq<Token>, i: int, acc: Seq<RangeOrValue>) -> Result<
    (Seq<RangeOrValue>, int),
    ParseError,
>
    decreases ts.len() - i,
{
    if 0 <= i < ts.len() && ts[i].kind == TokenKind::Comma {
        match sp_range(s, ts, i + 1) {
            Err(e) => Err(e),
            Ok((rv, j)) => if i < j <= ts.len() {
                sp_range_list_rest(s, ts, j, acc.push(rv))
            } else {
                Err(ParseError::Syntax { pos: token_pos(s, ts, i) })
            },
        }
    } else {
        Ok((acc, i))
    }
}

/// Parses a nonempty comma-separated range list.
pub open spec fn sp_range_list(s: Seq<u8>, ts: Seq<Token>, i: int) -> Result<(Seq<RangeOrValue>, int), ParseError> {
    match sp_range(s, ts, i) {
        Err(e) => Err(e),
        Ok((rv, j)) => sp_range_list_rest(s, ts, j, seq![rv]),
    }
}

/// Parses an optional modulus clause, rejecting a zero modulus.
pub open spec fn sp_mod_clause(s: Seq<u8>, ts: Seq<Token>, i: int) -> Result<(Option<u64>, int), ParseError> {
    if 0 <= i < ts.len() && (ts[i].kind == TokenKind::Percent || is_kw(s, ts[i], IdentClass::KwMod)) {
        match sp_value(s, ts, i + 1) {
            Err(e) => Err(e),
            Ok((m, j)) => if m == 0 {
                Err(ParseError::ZeroModulus { pos: ts[i].start })
            } else {
                Ok((Some(m), j))
            },
        }
    } else {
        Ok((None, i))
    }
}

/// Parses the operator and range list of a relation whose leading
/// negation, operand and modulus are already read.
pub open spec fn sp_relation_tail(
    s: Seq<u8>,
    ts: Seq<Token>,
    i: int,
    lead_not: bool,
    op: Operand,
    m: Option<u64>,
) -> Result<(SpecRelation, int), ParseError> {
    if !(0 <= i < ts.len()) {
        Err(ParseError::Syntax { pos: token_pos(s, ts, i) })
    } else {
        let t = ts[i];
        if t.kind == TokenKind::Eq {
            sp_finish_ranges(s, ts, i + 1, lead_not, false, true, op, m)
        } else if t.kind == TokenKind::NotEq {
            sp_finish_ranges(s, ts, i + 1, lead_not, true, true, op, m)
        } else if is_kw(s, t, IdentClass::KwIn) {
            sp_finish_ranges(s, ts, i + 1, lead_not, false, true, op, m)
        } else if is_kw(s, t, IdentClass::KwWithin) {
            sp_finish_ranges(s, ts, i + 1, lead_not, false, false, op, m)
        } else if is_kw(s, t, IdentClass::KwNot) {
            if i + 1 < ts.len() && is_kw(s, ts[i + 1], IdentClass::KwIn) {
                sp_finish_ranges(s, ts, i + 2, lead_not, true, true, op, m)
            } else if i + 1 < ts.len() && is_kw(s, ts[i + 1], IdentClass::KwWithin) {
                sp_finish_ranges(s, ts, i + 2, lead_not, true, false, op, m)
            } else {
                Err(ParseError::Syntax { pos: token_pos(s, ts, i + 1) })
            }
        } else if is_kw(s, t, IdentClass::KwIs) {
            let op_neg = i + 1 < ts.len() && is_kw(s, ts[i + 1], IdentClass::KwNot);
            let i4 = if op_neg {
                i + 2
            } else {
                i + 1
            };
            match sp_value(s, ts, i4) {
                Err(e) => Err(e),
                Ok((v, j)) => {
                    let kind = match m {
                        None => SpecRelationKind::Is(v),
                        Some(_) => SpecRelationKind::InOrWithin(
                            SpecInOrWithin { exact: true, ranges: seq![RangeOrValue::Value(v)], modulus: m },
                        ),
                    };
                    Ok((SpecRelation { operand: op, negated: lead_not != op_neg, kind }, j))
                },
            }
        } else {
            Err(ParseError::Syntax { pos: t.start })
        }
    }
}

/// Builds an `in`/`within`-shaped relation from a parsed range list.
pub open spec fn sp_finish_ranges(
    s: Seq<u8>,
    ts: Seq<Token>,
    i: int,
    lead_not: bool,
    op_neg: bool,
    exact: bool,
    op: Operand,
    m: Option<u64>,
) -> Result<(SpecRelation, int), ParseError> {
    match sp_range_list(s, ts, i) {
        Err(e) => Err(e),
        Ok((ranges, j)) => Ok((
            SpecRelation {
                operand: op,
                negated: lead_not != op_neg,
                kind: SpecRelationKind::InOrWithin(SpecInOrWithin { exact, ranges, modulus: m }),
            },
            j,
        )),
    }
}

/// Parses one atomic relation.
pub open spec fn sp_relation(s: Seq<u8>, ts: Seq<Token>, i: int) -> Result<(SpecRelation, int), ParseError> {
    let lead_not = 0 <= i < ts.len() && is_kw(s, ts[i], IdentClass::KwNot);
    let i1 = if lead_not {
        i + 1
    } else {
        i
    };
    if !(0 <= i1 < ts.len() && ts[i1].kind == TokenKind::Ident) {
        Err(ParseError::Syntax { pos: token_pos(s, ts, i1) })
    } else {
        match class_operand(spec_classify_ident(s, ts[i1])) {
            None => Err(ParseError::Syntax { pos: ts[i1].start }),
            Some(op) => match sp_mod_clause(s, ts, i1 + 1) {
                Err(e) => Err(e),
                Ok((m, i3)) => sp_relation_tail(s, ts, i3, lead_not, op, m),
            },
        }
    }
}

/// Parses the `and`-separated continuation of a conjunction.
pub open spec fn sp_and_rest(s: Seq<u8>, ts: Seq<Token>, i: int, acc: Seq<SpecRelation>) -> Result<
    (Seq<SpecRelation>, int),
    ParseError,
>
    decreases ts.len() - i,
{
    if 0 <= i < ts.len() && is_kw(s, ts[i], IdentClass::KwAnd) {
        match sp_relation(s, ts, i + 1) {
            Err(e) => Err(e),
            Ok((r, j)) => if i < j <= ts.len() {
                sp_and_rest(s, ts, j, acc.push(r))
            } else {
                Err(ParseError::Syntax { pos: token_pos(s, ts, i) })
            },
        }
    } else {
        Ok((acc, i))
    }
}

/// Parses a conjunction of relations.
pub open spec fn sp_and_condition(s: Seq<u8>, ts: Seq<Token>, i: int) -> Result<(SpecAndCondition, int), ParseError> {
    match sp_relation(s, ts, i) {
        Err(e) => Err(e),
        Ok((r, j)) => match sp_and_rest(s, ts, j, seq![r]) {
            Err(e) => Err(e),
            Ok((rels, j2)) => Ok((SpecAndCondition { relations: rels }, j2)),
        },
    }
}

/// Parses the `or`-separated continuation of a condition.
pub open spec fn sp_cond_rest(s: Seq<u8>, ts: Seq<Token>, i: int, acc: Seq<SpecAndCondition>) -> Result<
    (Seq<SpecAndCondition>, int),
    ParseError,
>
    decreases ts.len() - i,
{
    if 0 <= i < ts.len() && is_kw(s, ts[i], IdentClass::KwOr) {
        match sp_and_condition(s, ts, i + 1) {
            Err(e) => Err(e),
            Ok((a, j)) => if i < j <= ts.len() {
                sp_cond_rest(s, ts, j, acc.push(a))
            } else {
                Err(ParseError::Syntax { pos: token_pos(s, ts, i) })
            },
        }
    } else {
        Ok((acc, i))
    }
}

/// Parses a disjunction of conjunctions.
pub open spec fn sp_condition(s: Seq<u8>, ts: Seq<Token>, i: int) -> Result<(SpecCondition, int), ParseError> {
    match sp_and_condition(s, ts, i) {
        Err(e) => Err(e),
        Ok((a, j)) => match sp_cond_rest(s, ts, j, seq![a]) {
            Err(e) => Err(e),
            Ok((ands, j2)) => Ok((SpecCondition { ands }, j2)),
        },
    }
}

/// Parses a full token stream into a condition: an immediate `Eof` is the
/// empty, always-true condition, and anything after a parsed condition
/// other than `Eof` is a syntax error.
pub open spec fn sp_parse_tokens(s: Seq<u8>, ts: Seq<Token>) -> Result<SpecCondition, ParseError> {
    if ts.len() > 0 && ts[0].kind == TokenKind::Eof {
        Ok(SpecCondition { ands: seq![] })
    } else {
        match sp_condition(s, ts, 0) {
            Err(e) => Err(e),
            Ok((c, j)) => if 0 <= j < ts.len() && ts[j].kind == TokenKind::Eof {
                Ok(c)
            } else {
                Err(ParseError::Syntax { pos: token_pos(s, ts, j) })
            },
        }
    }
}

/// What parsing a raw rule-condition byte string yields: the condition
/// tree, or the first lexical, syntax or data error.
pub open spec fn spec_parse_condition(s: Seq<u8>) -> Result<SpecCondition, ParseError> {
    match spec_lex_from(s, 0) {
        Err(p) => Err(ParseError::Lexical { pos: p as usize }),
        Ok(ts) => sp_parse_tokens(s, ts),
    }
}

/// Parsing is idempotent: a rule string determines its parse result, so
/// parsing the same string twice yields structurally equal trees (or the
/// same error). The results of `parse_condition` are pinned to
/// `spec_parse_condition`, which this lemma ties together.
pub proof fn lemma_parse_idempotent(
    s: Seq<u8>,
    r1: Result<SpecCondition, ParseError>,
    r2: Result<SpecCondition, ParseError>,
)
    requires
        r1 == spec_parse_condition(s),
        r2 == spec_parse_condition(s),
    ensures
        r1 == r2,
{
}

/// Reads the error position for the token at index `i`.
fn err_token_pos(s: &[u8], ts: &Vec<Token>, i: usize) -> (r: usize)
    ensures
        r == token_pos(s@, ts@, i as int),
{
    if i < ts.len() {
        ts[i].start
    } else {
        s.len()
    }
}

/// Classifies the letters of an identifier token.
fn classify_ident(s: &[u8], t: Token) -> (r: IdentClass)
    requires
        token_wf(s@, t),
        t.kind == TokenKind::Ident,
    ensures
        r == spec_classify_ident(s@, t),
{
    let n = t.end - t.start;
    if n == 1 {
        let b0 = s[t.start];
        if b0 == 110 {
            IdentClass::OpN
        } else if b0 == 105 {
            IdentClass::OpI
        } else if b0 == 118 {
            IdentClass::OpV
        } else if b0 == 119 {
            IdentClass::OpW
        } else if b0 == 102 {
            IdentClass::OpF
        } else if b0 == 116 {
            IdentClass::OpT
        } else if b0 == 99 {
            IdentClass::OpC
        } else if b0 == 101 {
            IdentClass::OpE
        } else {
            IdentClass::Unknown
        }
    } else if n == 2 {
        let b0 = s[t.start];
        let b1 = s[t.start + 1];
        if b0 == 105 && b1 == 110 {
            IdentClass::KwIn
        } else if b0 == 105 && b1 == 115 {
            IdentClass::KwIs
        } else if b0 == 111 && b1 == 114 {
            IdentClass::KwOr
        } else {
            IdentClass::Unknown
        }
    } else if n == 3 {
        let b0 = s[t.start];
        let b1 = s[t.start + 1];
        let b2 = s[t.start + 2];
        if b0 == 97 && b1 == 110 && b2 == 100 {
            IdentClass::KwAnd
        } else if b0 == 109 && b1 == 111 && b2 == 100 {
            IdentClass::KwMod
        } else if b0 == 110 && b1 == 111 && b2 == 116 {
            IdentClass::KwNot
        } else {
            IdentClass::Unknown
        }
    } else if n == 6 {
        let b0 = s[t.start];
        let b1 = s[t.start + 1];
        let b2 = s[t.start + 2];
        let b3 = s[t.start + 3];
        let b4 = s[t.start + 4];
        let b5 = s[t.start + 5];
        if b0 == 119 && b1 == 105 && b2 == 116 && b3 == 104 && b4 == 105 && b5 == 110 {
            IdentClass::KwWithin
        } else {
            IdentClass::Unknown
        }
    } else {
        IdentClass::Unknown
    }
}

/// Reads a number token's value, detecting overflow exactly.
fn parse_number(s: &[u8], t: Token) -> (r: Option<u64>)
    requires
        token_wf(s@, t),
        t.kind == TokenKind::Number,
    ensures
        match r {
            Some(v) => digits_val(token_bytes(s@, t)) <= u64::MAX && v == digits_val(token_bytes(s@, t)),
            None => digits_val(token_bytes(s@, t)) > u64::MAX,
        },
{
    let ghost b = token_bytes(s@, t);
    let mut acc: u64 = 0;
    let mut k: usize = t.start;
    assert(b.subrange(0, 0) =~= Seq::<u8>::empty());
    while k < t.end
        invariant
            t.start <= k <= t.end,
            token_wf(s@, t),
            t.kind == TokenKind::Number,
            b == token_bytes(s@, t),
            acc == digits_val(b.subrange(0, k - t.start)),
            digits_val(b.subrange(0, k - t.start)) <= u64::MAX,
        decreases t.end - k,
    {
        let by = s[k];
        assert(b[k - t.start] == s@[k as int]);
        assert(is_digit(by));
        let dv: u64 = (by - 48) as u64;
        proof {
            lemma_digits_val_snoc(b, k - t.start);
        }
        if acc > (u64::MAX - dv) / 10 {
            proof {
                assert(acc * 10 + dv > u64::MAX) by (nonlinear_arith)
                    requires
                        acc > (u64::MAX - dv) / 10,
                        dv <= u64::MAX,
                ;
                lemma_digits_prefix_le(b, k - t.start + 1, b.len() as int);
                assert(b.subrange(0, b.len() as int) =~= b);
            }
            return None;
        }
        proof {
            assert(acc * 10 + dv <= u64::MAX) by (nonlinear_arith)
                requires
                    acc <= (u64::MAX - dv) / 10,
                    dv <= u64::MAX,
            ;
        }
        acc = acc * 10 + dv;
        k = k + 1;
    }
    assert(b.subrange(0, b.len() as int) =~= b);
    Some(acc)
}

/// Parses the number token at index `i`.
fn p_value(s: &[u8], ts: &Vec<Token>, i: usize) -> (r: Result<(u64, usize), ParseError>)
    requires
        tokens_wf(s@, ts@),
        i <= ts@.len(),
    ensures
        match r {
            Ok((v, j)) => {
                &&& sp_value(s@, ts@, i as int) == Ok::<(u64, int), ParseError>((v, j as int))
                &&& j == i + 1 <= ts@.len()
            },
            Err(e) => sp_value(s@, ts@, i as int) == Err::<(u64, int), ParseError>(e),
        },
{
    if i >= ts.len() {
        return Err(ParseError::Syntax { pos: err_token_pos(s, ts, i) });
    }
    let t = ts[i];
    if t.kind != TokenKind::Number {
        return Err(ParseError::Syntax { pos: t.start });
    }
    assert(token_wf(s@, ts@[i as int]));
    match parse_number(s, t) {
        None => Err(ParseError::ValueOutOfRange { pos: t.start }),
        Some(v) => Ok((v, i + 1)),
    }
}

/// Parses one entry of a range list at index `i`.
fn p_range(s: &[u8], ts: &Vec<Token>, i: usize) -> (r: Result<(RangeOrValue, usize), ParseError>)
    requires
        tokens_wf(s@, ts@),
        i <= ts@.len(),
    ensures
        match r {
            Ok((rv, j)) => {
                &&& sp_range(s@, ts@, i as int) == Ok::<(RangeOrValue, int), ParseError>((rv, j as int))
                &&& i < j <= ts@.len()
            },
            Err(e) => sp_range(s@, ts@, i as int) == Err::<(RangeOrValue, int), ParseError>(e),
        },
{
    match p_value(s, ts, i) {
        Err(e) => Err(e),
        Ok((lo, j)) => {
            if j < ts.len() {
                let t = ts[j];
                if t.kind == TokenKind::Ellipsis {
                    return match p_value(s, ts, j + 1) {
                        Err(e) => Err(e),
                        Ok((hi, k)) => Ok((RangeOrValue::Range(lo, hi), k)),
                    };
                }
            }
            Ok((RangeOrValue::Value(lo), j))
        },
    }
}

/// Parses the comma-separated continuation of a range list.
fn p_range_list_rest(s: &[u8], ts: &Vec<Token>, i: usize, acc: Vec<RangeOrValue>) -> (r: Result<
    (Vec<RangeOrValue>, usize),
    ParseError,
>)
    requires
        tokens_wf(s@, ts@),
        i <= ts@.len(),
    ensures
        match r {
            Ok((v, j)) => {
                &&& sp_range_list_rest(s@, ts@, i as int, acc@) == Ok::<(Seq<RangeOrValue>, int), ParseError>(
                    (v@, j as int),
                )
                &&& i <= j <= ts@.len()
            },
            Err(e) => sp_range_list_rest(s@, ts@, i as int, acc@) == Err::<(Seq<RangeOrValue>, int), ParseError>(e),
        },
    decreases ts@.len() - i,
{
    if i < ts.len() {
        let t = ts[i];
        if t.kind == TokenKind::Comma {
            return match p_range(s, ts, i + 1) {
                Err(e) => Err(e),
                Ok((rv, j)) => {
                    let ghost acc0 = acc@;
                    let mut acc2 = acc;
                    acc2.push(rv);
                    assert(acc2@ =~= acc0.push(rv));
                    p_range_list_rest(s, ts, j, acc2)
                },
            };
        }
    }
    Ok((acc, i))
}

/// Parses a nonempty range list at index `i`.
fn p_range_list(s: &[u8], ts: &Vec<Token>, i: usize) -> (r: Result<(Vec<RangeOrValue>, usize), ParseError>)
    requires
        tokens_wf(s@, ts@),
        i <= ts@.len(),
    ensures
        match r {
            Ok((v, j)) => {
                &&& sp_range_list(s@, ts@, i as int) == Ok::<(Seq<RangeOrValue>, int), ParseError>((v@, j as int))
                &&& i < j <= ts@.len()
            },
            Err(e) => sp_range_list(s@, ts@, i as int) == Err::<(Seq<RangeOrValue>, int), ParseError>(e),
        },
{
    match p_range(s, ts, i) {
        Err(e) => Err(e),
        Ok((rv, j)) => {
            let mut acc: Vec<RangeOrValue> = Vec::new();
            acc.push(rv);
            assert(acc@ =~= seq![rv]);
            p_range_list_rest(s, ts, j, acc)
        },
    }
}

/// Parses an optional modulus clause at index `i`.
fn p_mod_clause(s: &[u8], ts: &Vec<Token>, i: usize) -> (r: Result<(Option<u64>, usize), ParseError>)
    requires
        tokens_wf(s@, ts@),
        i <= ts@.len(),
    ensures
        match r {
            Ok((m, j)) => {
                &&& sp_mod_clause(s@, ts@, i as int) == Ok::<(Option<u64>, int), ParseError>((m, j as int))
                &&& i <= j <= ts@.len()
                &&& m != Some(0u64)
            },
            Err(e) => sp_mod_clause(s@, ts@, i as int) == Err::<(Option<u64>, int), ParseError>(e),
        },
{
    if i < ts.len() {
        let t = ts[i];
        let mut is_mod = t.kind == TokenKind::Percent;
        if !is_mod && t.kind == TokenKind::Ident {
            assert(token_wf(s@, ts@[i as int]));
            if classify_ident(s, t) == IdentClass::KwMod {
                is_mod = true;
            }
        }
        if is_mod {
            return match p_value(s, ts, i + 1) {
                Err(e) => Err(e),
                Ok((m, j)) => {
                    if m == 0 {
                        Err(ParseError::ZeroModulus { pos: t.start })
                    } else {
                        Ok((Some(m), j))
                    }
                },
            };
        }
    }
    Ok((None, i))
}

/// Builds an `in`/`within`-shaped relation from a parsed range list.
fn p_finish_ranges(
    s: &[u8],
    ts: &Vec<Token>,
    i: usize,
    lead_not: bool,
    op_neg: bool,
    exact: bool,
    op: Operand,
    m: Option<u64>,
) -> (r: Result<(Relation, usize), ParseError>)
    requires
        tokens_wf(s@, ts@),
        i <= ts@.len(),
        m != Some(0u64),
    ensures
        match r {
            Ok((rel, j)) => {
                &&& sp_finish_ranges(s@, ts@, i as int, lead_not, op_neg, exact, op, m)
                    == Ok::<(SpecRelation, int), ParseError>((rel@, j as int))
                &&& i < j <= ts@.len()
                &&& relation_wf(rel@)
            },
            Err(e) => sp_finish_ranges(s@, ts@, i as int, lead_not, op_neg, exact, op, m)
                == Err::<(SpecRelation, int), ParseError>(e),
        },
{
    match p_range_list(s, ts, i) {
        Err(e) => Err(e),
        Ok((ranges, j)) => {
            let rel = Relation {
                operand: op,
                negated: lead_not != op_neg,
                kind: RelationKind::InOrWithin(InOrWithin { exact, ranges, modulus: m }),
            };
            Ok((rel, j))
        },
    }
}

/// Parses one atomic relation at index `i`.
fn p_relation(s: &[u8], ts: &Vec<Token>, i: usize) -> (r: Result<(Relation, usize), ParseError>)
    requires
        tokens_wf(s@, ts@),
        i <= ts@.len(),
    ensures
        match r {
            Ok((rel, j)) => {
                &&& sp_relation(s@, ts@, i as int) == Ok::<(SpecRelation, int), ParseError>((rel@, j as int))
                &&& i < j <= ts@.len()
                &&& relation_wf(rel@)
            },
            Err(e) => sp_relation(s@, ts@, i as int) == Err::<(SpecRelation, int), ParseError>(e),
        },
{
    let mut lead_not = false;
    let mut i1 = i;
    if i < ts.len() {
        let t = ts[i];
        if t.kind == TokenKind::Ident {
            assert(token_wf(s@, ts@[i as int]));
            if classify_ident(s, t) == IdentClass::KwNot {
                lead_not = true;
                i1 = i + 1;
            }
        }
    }
    if i1 >= ts.len() {
        return Err(ParseError::Syntax { pos: err_token_pos(s, ts, i1) });
    }
    let t1 = ts[i1];
    if t1.kind != TokenKind::Ident {
        return Err(ParseError::Syntax { pos: t1.start });
    }
    assert(token_wf(s@, ts@[i1 as int]));
    let c1 = classify_ident(s, t1);
    let op = match c1 {
        IdentClass::OpN => Operand::N,
        IdentClass::OpI => Operand::I,
        IdentClass::OpV => Operand::V,
        IdentClass::OpW => Operand::W,
        IdentClass::OpF => Operand::F,
        IdentClass::OpT => Operand::T,
        IdentClass::OpC => Operand::C,
        IdentClass::OpE => Operand::E,
        _ => {
            return Err(ParseError::Syntax { pos: t1.start });
        },
    };
    assert(class_operand(spec_classify_ident(s@, ts@[i1 as int])) == Some(op));
    let (m, i3) = match p_mod_clause(s, ts, i1 + 1) {
        Err(e) => {
            return Err(e);
        },
        Ok((m, i3)) => (m, i3),
    };
    if i3 >= ts.len() {
        return Err(ParseError::Syntax { pos: err_token_pos(s, ts, i3) });
    }
    let t3 = ts[i3];
    if t3.kind == TokenKind::Eq {
        return p_finish_ranges(s, ts, i3 + 1, lead_not, false, true, op, m);
    }
    if t3.kind == TokenKind::NotEq {
        return p_finish_ranges(s, ts, i3 + 1, lead_not, true, true, op, m);
    }
    if t3.kind == TokenKind::Ident {
        assert(token_wf(s@, ts@[i3 as int]));
        let c3 = classify_ident(s, t3);
        if c3 == IdentClass::KwIn {
            return p_finish_ranges(s, ts, i3 + 1, lead_not, false, true, op, m);
        }
        if c3 == IdentClass::KwWithin {
            return p_finish_ranges(s, ts, i3 + 1, lead_not, false, false, op, m);
        }
        if c3 == IdentClass::KwNot {
            if i3 + 1 < ts.len() {
                let t4 = ts[i3 + 1];
                if t4.kind == TokenKind::Ident {
                    assert(token_wf(s@, ts@[i3 + 1]));
                    let c4 = classify_ident(s, t4);
                    if c4 == IdentClass::KwIn {
                        return p_finish_ranges(s, ts, i3 + 2, lead_not, true, true, op, m);
                    }
                    if c4 == IdentClass::KwWithin {
                        return p_finish_ranges(s, ts, i3 + 2, lead_not, true, false, op, m);
                    }
                }
            }
            return Err(ParseError::Syntax { pos: err_token_pos(s, ts, i3 + 1) });
        }
        if c3 == IdentClass::KwIs {
            let mut op_neg = false;
            let mut i4 = i3 + 1;
            if i3 + 1 < ts.len() {
                let t4 = ts[i3 + 1];
                if t4.kind == TokenKind::Ident {
                    assert(token_wf(s@, ts@[i3 + 1]));
                    if classify_ident(s, t4) == IdentClass::KwNot {
                        op_neg = true;
                        i4 = i3 + 2;
                    }
                }
            }
            return match p_value(s, ts, i4) {
                Err(e) => Err(e),
                Ok((v, j)) => {
                    let kind = match m {
                        None => RelationKind::Is(v),
                        Some(_) => {
                            let mut rv: Vec<RangeOrValue> = Vec::new();
                            rv.push(RangeOrValue::Value(v));
                            assert(rv@ =~= seq![RangeOrValue::Value(v)]);
                            RelationKind::InOrWithin(InOrWithin { exact: true, ranges: rv, modulus: m })
                        },
                    };
                    Ok((Relation { operand: op, negated: lead_not != op_neg, kind }, j))
                },
            };
        }
    }
    Err(ParseError::Syntax { pos: t3.start })
}

/// Parses the `and`-separated continuation of a conjunction.
fn p_and_rest(s: &[u8], ts: &Vec<Token>, i: usize, acc: Vec<Relation>) -> (r: Result<
    (Vec<Relation>, usize),
    ParseError,
>)
    requires
        tokens_wf(s@, ts@),
        i <= ts@.len(),
        forall|k: int| 0 <= k < acc@.len() ==> relation_wf(#[trigger] rels_view(acc@)[k]),
    ensures
        match r {
            Ok((v, j)) => {
                &&& sp_and_rest(s@, ts@, i as int, rels_view(acc@)) == Ok::<(Seq<SpecRelation>, int), ParseError>(
                    (rels_view(v@), j as int),
                )
                &&& i <= j <= ts@.len()
                &&& forall|k: int| 0 <= k < v@.len() ==> relation_wf(#[trigger] rels_view(v@)[k])
            },
            Err(e) => sp_and_rest(s@, ts@, i as int, rels_view(acc@)) == Err::<(Seq<SpecRelation>, int), ParseError>(e),
        },
    decreases ts@.len() - i,
{
    if i < ts.len() {
        let t = ts[i];
        if t.kind == TokenKind::Ident {
            assert(token_wf(s@, ts@[i as int]));
            if classify_ident(s, t) == IdentClass::KwAnd {
                return match p_relation(s, ts, i + 1) {
                    Err(e) => Err(e),
                    Ok((rel, j)) => {
                        let ghost acc0 = acc@;
                        let mut acc2 = acc;
                        acc2.push(rel);
                        assert(rels_view(acc2@) =~= rels_view(acc0).push(rel@));
                        p_and_rest(s, ts, j, acc2)
                    },
                };
            }
        }
    }
    Ok((acc, i))
}

/// Parses a conjunction of relations at index `i`.
fn p_and_condition(s: &[u8], ts: &Vec<Token>, i: usize) -> (r: Result<(AndCondition, usize), ParseError>)
    requires
        tokens_wf(s@, ts@),
        i <= ts@.len(),
    ensures
        match r {
            Ok((a, j)) => {
                &&& sp_and_condition(s@, ts@, i as int) == Ok::<(SpecAndCondition, int), ParseError>((a@, j as int))
                &&& i < j <= ts@.len()
                &&& and_wf(a@)
            },
            Err(e) => sp_and_condition(s@, ts@, i as int) == Err::<(SpecAndCondition, int), ParseError>(e),
        },
{
    match p_relation(s, ts, i) {
        Err(e) => Err(e),
        Ok((rel, j)) => {
            let mut acc: Vec<Relation> = Vec::new();
            acc.push(rel);
            assert(rels_view(acc@) =~= seq![rel@]);
            match p_and_rest(s, ts, j, acc) {
                Err(e) => Err(e),
                Ok((rels, j2)) => Ok((AndCondition { relations: rels }, j2)),
            }
        },
    }
}

/// Parses the `or`-separated continuation of a condition.
fn p_cond_rest(s: &[u8], ts: &Vec<Token>, i: usize, acc: Vec<AndCondition>) -> (r: Result<
    (Vec<AndCondition>, usize),
    ParseError,
>)
    requires
        tokens_wf(s@, ts@),
        i <= ts@.len(),
        forall|k: int| 0 <= k < acc@.len() ==> and_wf(#[trigger] ands_view(acc@)[k]),
    ensures
        match r {
            Ok((v, j)) => {
                &&& sp_cond_rest(s@, ts@, i as int, ands_view(acc@)) == Ok::<(Seq<SpecAndCondition>, int), ParseError>(
                    (ands_view(v@), j as int),
                )
                &&& i <= j <= ts@.len()
                &&& forall|k: int| 0 <= k < v@.len() ==> and_wf(#[trigger] ands_view(v@)[k])
            },
            Err(e) => sp_cond_rest(s@, ts@, i as int, ands_view(acc@)) == Err::<
                (Seq<SpecAndCondition>, int),
                ParseError,
            >(e),
        },
    decreases ts@.len() - i,
{
    if i < ts.len() {
        let t = ts[i];
        if t.kind == TokenKind::Ident {
            assert(token_wf(s@, ts@[i as int]));
            if classify_ident(s, t) == IdentClass::KwOr {
                return match p_and_condition(s, ts, i + 1) {
                    Err(e) => Err(e),
                    Ok((a, j)) => {
                        let ghost acc0 = acc@;
                        let mut acc2 = acc;
                        acc2.push(a);
                        assert(ands_view(acc2@) =~= ands_view(acc0).push(a@));
                        p_cond_rest(s, ts, j, acc2)
                    },
                };
            }
        }
    }
    Ok((acc, i))
}

/// Parses a disjunction of conjunctions at index `i`.
fn p_condition(s: &[u8], ts: &Vec<Token>, i: usize) -> (r: Result<(Condition, usize), ParseError>)
    requires
        tokens_wf(s@, ts@),
        i <= ts@.len(),
    ensures
        match r {
            Ok((c, j)) => {
                &&& sp_condition(s@, ts@, i as int) == Ok::<(SpecCondition, int), ParseError>((c@, j as int))
                &&& i < j <= ts@.len()
                &&& condition_wf(c@)
            },
            Err(e) => sp_condition(s@, ts@, i as int) == Err::<(SpecCondition, int), ParseError>(e),
        },
{
    match p_and_condition(s, ts, i) {
        Err(e) => Err(e),
        Ok((a, j)) => {
            let mut acc: Vec<AndCondition> = Vec::new();
            acc.push(a);
            assert(ands_view(acc@) =~= seq![a@]);
            match p_cond_rest(s, ts, j, acc) {
                Err(e) => Err(e),
                Ok((ands, j2)) => Ok((Condition { ands }, j2)),
            }
        },
    }
}

/// Parses a full rule-condition byte string into its condition tree, or
/// reports the first lexical, syntax or data error. The result is pinned
/// to `spec_parse_condition`, so equal inputs always yield structurally
/// equal trees; a returned tree is well formed and never holds a zero
/// modulus.
pub fn parse_condition(input: &[u8]) -> (r: Result<Condition, ParseError>)
    ensures
        match r {
            Ok(c) => {
                &&& spec_parse_condition(input@) == Ok::<SpecCondition, ParseError>(c@)
                &&& condition_wf(c@)
            },
            Err(e) => spec_parse_condition(input@) == Err::<SpecCondition, ParseError>(e),
        },
{
    let lexer = Lexer::new(input);
    match lexer.tokenize() {
        Err(e) => Err(ParseError::Lexical { pos: e.pos }),
        Ok(ts) => {
            if ts[0].kind == TokenKind::Eof {
                let c = Condition { ands: Vec::new() };
                assert(c@.ands =~= Seq::<SpecAndCondition>::empty());
                return Ok(c);
            }
            match p_condition(input, &ts, 0) {
                Err(e) => Err(e),
                Ok((c, j)) => {
                    if j < ts.len() {
                        let t = ts[j];
                        if t.kind == TokenKind::Eof {
                            return Ok(c);
                        }
                    }
                    Err(ParseError::Syntax { pos: err_token_pos(input, &ts, j) })
                },
            }
        },
    }
}

} // verus!
