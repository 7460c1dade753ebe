//! Plural operands: the fixed set of numeric properties a plural rule may
//! test, extracted once from a decimal number's digit representation.

use vstd::prelude::*;
use vstd::slice::slice_subrange;

verus! {

/// Whether `b` is an ASCII decimal digit.
pub open spec fn is_digit(b: u8) -> bool {
    48 <= b <= 57
}

/// Whether every byte of `s` is an ASCII decimal digit.
pub open spec fn is_digits(s: Seq<u8>) -> bool {
    forall|k: int| 0 <= k < s.len() ==> is_digit(s[k])
}

/// Numeric value of a single ASCII digit byte (0 for non-digits).
pub open spec fn digit_val(b: u8) -> nat {
    if is_digit(b) {
        (b - 48) as nat
    } else {
        0
    }
}

/// Value of a digit string read as a base-10 integer, most significant
/// digit first.
pub open spec fn digits_val(s: Seq<u8>) -> nat
    decreases s.len(),
{
    if s.len() == 0 {
        0
    } else {
        digits_val(s.drop_last()) * 10 + digit_val(s.last())
    }
}

/// The digit string with its trailing zero digits removed.
pub open spec fn strip_trailing_zeros(s: Seq<u8>) -> Seq<u8>
    decreases s.len(),
{
    if s.len() > 0 && s.last() == 48 {
        strip_trailing_zeros(s.drop_last())
    } else {
        s
    }
}

/// `x` clamped to the range of `u64`.
pub open spec fn sat64(x: nat) -> u64 {
    if x > u64::MAX {
        u64::MAX
    } else {
        x as u64
    }
}

/// The operand record of a number, as the CLDR plural syntax defines it.
/// The absolute value `n` of the number is not stored: it is determined by
/// the record as `i + f / 10^v`, and the evaluator reads it through `i`,
/// `f` and `v`.
#[derive(PartialEq, Eq, Structural, Copy, Clone, Debug)]
pub struct PluralOperands {
    /// Integer part of the number, truncated toward zero (saturating).
    pub i: u64,
    /// Count of visible fraction digits, with trailing zeros.
    pub v: u64,
    /// Count of visible fraction digits, without trailing zeros.
    pub w: u64,
    /// Visible fraction digits read as an integer, with trailing zeros.
    pub f: u64,
    /// Visible fraction digits read as an integer, without trailing zeros.
    pub t: u64,
    /// Compact-decimal exponent (0 when absent).
    pub c: u64,
}

/// The invariant every extracted operand record satisfies.
pub open spec fn operands_invariant(o: PluralOperands) -> bool {
    &&& o.w <= o.v
    &&& o.t <= o.f
    &&& o.v == 0 ==> o.f == 0 && o.t == 0
}

/// What `from_parts` computes for given digit strings and exponent.
pub open spec fn spec_operands(int_digits: Seq<u8>, frac_digits: Seq<u8>, exponent: u64) -> PluralOperands {
    PluralOperands {
        i: sat64(digits_val(int_digits)),
        v: frac_digits.len() as u64,
        w: strip_trailing_zeros(frac_digits).len() as u64,
        f: sat64(digits_val(frac_digits)),
        t: sat64(digits_val(strip_trailing_zeros(frac_digits))),
        c: exponent,
    }
}

/// Stripping trailing zeros never lengthens a digit string.
proof fn lemma_strip_len(s: Seq<u8>)
    ensures
        strip_trailing_zeros(s).len() <= s.len(),
    decreases s.len(),
{
    if s.len() > 0 && s.last() == 48 {
        lemma_strip_len(s.drop_last());
    }
}

/// Stripping trailing zeros never increases the value of a digit string.
proof fn lemma_strip_val(s: Seq<u8>)
    ensures
        digits_val(strip_trailing_zeros(s)) <= digits_val(s),
    decreases s.len(),
{
    if s.len() > 0 && s.last() == 48 {
        lemma_strip_val(s.drop_last());
        assert(digits_val(s) == digits_val(s.drop_last()) * 10 + digit_val(s.last()));
        assert(digits_val(s.drop_last()) <= digits_val(s.drop_last()) * 10) by (nonlinear_arith);
    }
}

/// Appending a digit multiplies the value by ten and adds the digit.
pub proof fn lemma_digits_val_snoc(s: Seq<u8>, n: int)
    requires
        0 <= n < s.len(),
    ensures
        digits_val(s.subrange(0, n + 1)) == digits_val(s.subrange(0, n)) * 10 + digit_val(s[n]),
{
    let pre = s.subrange(0, n + 1);
    assert(pre.drop_last() =~= s.subrange(0, n));
    assert(pre.last() == s[n]);
}

/// Operand invariants: whatever the digit strings and the exponent, the
/// extracted record satisfies `w <= v`, `t <= f`, and `v == 0` forces
/// `f == t == 0`.
pub proof fn lemma_operands_invariant(int_digits: Seq<u8>, frac_digits: Seq<u8>, exponent: u64)
    requires
        frac_digits.len() <= u64::MAX,
    ensures
        operands_invariant(spec_operands(int_digits, frac_digits, exponent)),
{
    lemma_strip_len(frac_digits);
    lemma_strip_val(frac_digits);
}

/// A longer prefix of a digit string never has a smaller value.
pub proof fn lemma_digits_prefix_le(s: Seq<u8>, a: int, b: int)
    requires
        0 <= a <= b <= s.len(),
    ensures
        digits_val(s.subrange(0, a)) <= digits_val(s.subrange(0, b)),
    decreases b - a,
{
    if a < b {
        lemma_digits_prefix_le(s, a, b - 1);
        lemma_digits_val_snoc(s, b - 1);
        let p = digits_val(s.subrange(0, b - 1));
        assert(p <= p * 10) by (nonlinear_arith)
            requires
                p >= 0,
        ;
    } else {
        assert(s.subrange(0, a) =~= s.subrange(0, b));
    }
}

/// Reads the first `n` bytes of `s` as a base-10 integer, saturating at
/// `u64::MAX` when the value does not fit.
fn digits_to_u64_saturating(s: &[u8], n: usize) -> (r: u64)
    requires
        n <= s@.len(),
        is_digits(s@),
    ensures
        r == sat64(digits_val(s@.subrange(0, n as int))),
{
    let mut acc: u64 = 0;
    let mut k: usize = 0;
    assert(s@.subrange(0, 0) =~= Seq::<u8>::empty());
    while k < n
        invariant
            k <= n <= s@.len(),
            is_digits(s@),
            acc == sat64(digits_val(s@.subrange(0, k as int))),
        decreases n - k,
    {
        let b = s[k];
        assert(is_digit(b));
        let dv: u64 = (b - 48) as u64;
        proof {
            lemma_digits_val_snoc(s@, k as int);
        }
        let ghost p = digits_val(s@.subrange(0, k as int));
        let ghost np = digits_val(s@.subrange(0, k as int + 1));
        assert(np == p * 10 + dv);
        if acc > (u64::MAX - dv) / 10 {
            proof {
                if p <= u64::MAX {
                    assert(acc == p);
                    assert(acc * 10 > u64::MAX - dv) by (nonlinear_arith)
                        requires
                            acc > (u64::MAX - dv) / 10,
                            dv <= u64::MAX,
                    ;
                    assert(np > u64::MAX);
                } else {
                    assert(np >= p) by (nonlinear_arith)
                        requires
                            np == p * 10 + dv,
                            p >= 0,
                            dv >= 0,
                    ;
                }
            }
            acc = u64::MAX;
        } else {
            proof {
                assert(acc * 10 + dv <= u64::MAX) by (nonlinear_arith)
                    requires
                        acc <= (u64::MAX - dv) / 10,
                        dv <= u64::MAX,
                ;
                if p > u64::MAX {
                    assert(acc == u64::MAX);
                    assert(u64::MAX > (u64::MAX - dv) / 10) by (nonlinear_arith)
                        requires
                            dv <= 9,
                    ;
                    assert(false);
                }
            }
            acc = acc * 10 + dv;
            assert(acc == np);
        }
        k = k + 1;
    }
    assert(s@.subrange(0, n as int) =~= s@.subrange(0, k as int));
    acc
}

/// Length of the fraction string with trailing zero digits removed.
fn stripped_len(frac_digits: &[u8]) -> (r: usize)
    ensures
        r <= frac_digits@.len(),
        frac_digits@.subrange(0, r as int) == strip_trailing_zeros(frac_digits@),
{
    let ghost s = frac_digits@;
    let mut wlen: usize = frac_digits.len();
    assert(s.subrange(0, s.len() as int) =~= s);
    while wlen > 0 && frac_digits[wlen - 1] == 48
        invariant
            wlen <= s.len(),
            frac_digits@ == s,
            strip_trailing_zeros(s) == strip_trailing_zeros(s.subrange(0, wlen as int)),
        decreases wlen,
    {
        proof {
            let pre = s.subrange(0, wlen as int);
            assert(pre.last() == s[wlen - 1]);
            assert(pre.drop_last() =~= s.subrange(0, wlen - 1));
        }
        wlen = wlen - 1;
    }
    proof {
        let pre = s.subrange(0, wlen as int);
        if wlen > 0 {
            assert(pre.last() == s[wlen - 1]);
        }
        assert(strip_trailing_zeros(pre) == pre);
    }
    wlen
}

impl PluralOperands {
    /// Extracts the operand record from a decomposed decimal number: its
    /// integer digits, its fraction digits exactly as written (so that
    /// trailing zeros are counted), and its compact-decimal exponent.
    /// The sign is ignored by plural rules and is not taken.
    pub fn from_parts(int_digits: &[u8], frac_digits: &[u8], exponent: u64) -> (r: PluralOperands)
        requires
            is_digits(int_digits@),
            is_digits(frac_digits@),
        ensures
            r == spec_operands(int_digits@, frac_digits@, exponent),
            operands_invariant(r),
    {
        let ilen = int_digits.len();
        let flen = frac_digits.len();
        assert(int_digits@.subrange(0, ilen as int) =~= int_digits@);
        assert(frac_digits@.subrange(0, flen as int) =~= frac_digits@);
        let i = digits_to_u64_saturating(int_digits, ilen);
        let f = digits_to_u64_saturating(frac_digits, flen);
        let wlen = stripped_len(frac_digits);
        let t = digits_to_u64_saturating(frac_digits, wlen);
        proof {
            lemma_strip_len(frac_digits@);
            lemma_strip_val(frac_digits@);
            if frac_digits@.len() == 0 {
                assert(strip_trailing_zeros(frac_digits@) =~= frac_digits@);
            }
        }
        PluralOperands { i, v: flen as u64, w: wlen as u64, f, t, c: exponent }
    }
}

/// Why a textual number was rejected.
#[derive(PartialEq, Eq, Structural, Copy, Clone, Debug)]
pub enum OperandsError {
    /// The text is not an optional minus sign, then integer digits, then
    /// optionally a dot and fraction digits.
    Malformed,
}

/// The first position at or after `k` whose byte is not a digit (or the
/// length of `s` when digits run to the end).
pub open spec fn digit_run_end(s: Seq<u8>, k: int) -> int
    decreases s.len() - k,
{
    if k < 0 || k >= s.len() {
        k
    } else if is_digit(s[k]) {
        digit_run_end(s, k + 1)
    } else {
        k
    }
}

/// `s` without one leading minus sign.
pub open spec fn sans_sign(s: Seq<u8>) -> Seq<u8> {
    if s.len() > 0 && s[0] == 45 {
        s.subrange(1, s.len() as int)
    } else {
        s
    }
}

/// Whether `b` is well formed as a textual decimal number without sign:
/// integer digits, then optionally a dot and at least one fraction digit.
pub open spec fn unsigned_text_well_formed(b: Seq<u8>) -> bool {
    let d = digit_run_end(b, 0);
    &&& d > 0
    &&& (d < b.len() ==> {
        &&& b[d] == 46
        &&& d + 1 < b.len()
        &&& digit_run_end(b, d + 1) == b.len()
    })
}

/// The integer-digit part of a well-formed unsigned number text.
pub open spec fn text_int_digits(b: Seq<u8>) -> Seq<u8> {
    b.subrange(0, digit_run_end(b, 0))
}

/// The fraction-digit part of a well-formed unsigned number text (empty
/// when there is no dot).
pub open spec fn text_frac_digits(b: Seq<u8>) -> Seq<u8> {
    let d = digit_run_end(b, 0);
    if d < b.len() {
        b.subrange(d + 1, b.len() as int)
    } else {
        Seq::empty()
    }
}

/// Every byte of a digit run is a digit, and the run ends at a non-digit.
pub proof fn lemma_digit_run_end(s: Seq<u8>, k: int)
    requires
        0 <= k <= s.len(),
    ensures
        k <= digit_run_end(s, k) <= s.len(),
        forall|j: int| k <= j < digit_run_end(s, k) ==> is_digit(s[j]),
        digit_run_end(s, k) < s.len() ==> !is_digit(s[digit_run_end(s, k)]),
    decreases s.len() - k,
{
    if k < s.len() && is_digit(s[k]) {
        lemma_digit_run_end(s, k + 1);
    }
}

/// Scans the digit run of `s` that starts at `k`.
pub(crate) fn scan_digits(s: &[u8], k: usize) -> (r: usize)
    requires
        k <= s@.len(),
    ensures
        r == digit_run_end(s@, k as int),
        k <= r <= s@.len(),
        forall|j: int| k <= j < r ==> is_digit(s@[j]),
    decreases s@.len() - k,
{
    proof {
        lemma_digit_run_end(s@, k as int);
    }
    if k < s.len() {
        let b = s[k];
        if 48 <= b && b <= 57 {
            return scan_digits(s, k + 1);
        }
    }
    k
}

impl PluralOperands {
    /// Parses a textual decimal number such as `1`, `-2.50` or `0.05` and
    /// extracts its operand record; the compact exponent of a record made
    /// this way is 0. Rejects any other shape of text.
    pub fn from_text(s: &[u8]) -> (r: Result<PluralOperands, OperandsError>)
        ensures
            match r {
                Ok(o) => unsigned_text_well_formed(sans_sign(s@)) && o == spec_operands(
                    text_int_digits(sans_sign(s@)),
                    text_frac_digits(sans_sign(s@)),
                    0,
                ),
                Err(e) => !unsigned_text_well_formed(sans_sign(s@)) && e == OperandsError::Malformed,
            },
    {
        let start: usize = if s.len() > 0 && s[0] == 45 {
            1
        } else {
            0
        };
        let body = slice_subrange(s, start, s.len());
        let ghost b = sans_sign(s@);
        proof {
            assert(body@ =~= b);
            lemma_digit_run_end(b, 0);
        }
        let d = scan_digits(body, 0);
        if d == 0 {
            return Err(OperandsError::Malformed);
        }
        let int_digits = slice_subrange(body, 0, d);
        if d == body.len() {
            let frac = slice_subrange(body, d, d);
            assert(frac@ =~= Seq::<u8>::empty());
            assert(text_frac_digits(b) == Seq::<u8>::empty());
            return Ok(PluralOperands::from_parts(int_digits, frac, 0));
        }
        if body[d] != 46 {
            return Err(OperandsError::Malformed);
        }
        if d + 1 == body.len() {
            return Err(OperandsError::Malformed);
        }
        let fend = scan_digits(body, d + 1);
        if fend != body.len() {
            return Err(OperandsError::Malformed);
        }
        let frac_digits = slice_subrange(body, d + 1, body.len());
        Ok(PluralOperands::from_parts(int_digits, frac_digits, 0))
    }
}

} // verus!
