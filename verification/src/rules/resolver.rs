//! Evaluation of a parsed condition against the operands of a number.
//!
//! The number behind an operand record is `i + f / 10^v` in absolute value.
//! Its integer part runs through `int_value`; whether a fraction part is
//! present runs through `frac_nonzero`. A `within` relation admits any real
//! value inside one of its ranges, an exact (`in`, `=`, `!=`, `is`)
//! relation only integer values.

use vstd::prelude::*;
use crate::operands::PluralOperands;
use crate::rules::ast::{
    AndCondition, Condition, InOrWithin, Operand, RangeOrValue, Relation, RelationKind,
    SpecAndCondition, SpecCondition, SpecInOrWithin, SpecRelation, SpecRelationKind,
};

verus! {

/// The integer part of the operand `k` selects: for `n` and `i` the
/// integer part of the number, for the others the operand itself.
pub open spec fn int_value(o: PluralOperands, k: Operand) -> u64 {
    match k {
        Operand::N => o.i,
        Operand::I => o.i,
        Operand::V => o.v,
        Operand::W => o.w,
        Operand::F => o.f,
        Operand::T => o.t,
        Operand::C => o.c,
        Operand::E => o.c,
    }
}

/// Whether the value the operand selects has a nonzero fraction part;
/// only `n` keeps the fraction of the number.
pub open spec fn frac_nonzero(o: PluralOperands, k: Operand) -> bool {
    k == Operand::N && o.f != 0
}

/// The integer part of the operand after an optional modulus. Since the
/// fraction part of the number lies in `[0, 1)`, the real remainder of
/// `n` is the integer remainder of `i` with the fraction kept.
pub open spec fn reduced(o: PluralOperands, k: Operand, m: Option<u64>) -> int {
    match m {
        Option::None => int_value(o, k) as int,
        Option::Some(mv) => if mv == 0 {
            int_value(o, k) as int
        } else {
            int_value(o, k) as int % mv as int
        },
    }
}

/// Whether an integer value `x` lies in one entry of a range list.
pub open spec fn range_match_exact(x: int, rv: RangeOrValue) -> bool {
    match rv {
        RangeOrValue::Value(v) => x == v,
        RangeOrValue::Range(lo, hi) => lo <= x <= hi,
    }
}

/// Whether the real value `x + frac` (with `frac` nonzero iff `fnz`, and
/// `0 <= frac < 1`) lies in one entry of a range list.
pub open spec fn range_match_within(x: int, fnz: bool, rv: RangeOrValue) -> bool {
    match rv {
        RangeOrValue::Value(v) => x == v && !fnz,
        RangeOrValue::Range(lo, hi) => lo <= x && (x < hi || (x == hi && !fnz)),
    }
}

/// One entry of a range list, tested exactly or as a real range.
pub open spec fn range_hit(x: int, fnz: bool, exact: bool, rv: RangeOrValue) -> bool {
    if exact {
        range_match_exact(x, rv)
    } else {
        range_match_within(x, fnz, rv)
    }
}

/// Whether a relation matches before its negation is applied.
pub open spec fn spec_relation_core(r: SpecRelation, o: PluralOperands) -> bool {
    match r.kind {
        SpecRelationKind::Is(v) => int_value(o, r.operand) == v && !frac_nonzero(o, r.operand),
        SpecRelationKind::InOrWithin(iw) => {
            let x = reduced(o, r.operand, iw.modulus);
            let fnz = frac_nonzero(o, r.operand);
            let any = exists|j: int| 0 <= j < iw.ranges.len() && range_hit(x, fnz, iw.exact, #[trigger] iw.ranges[j]);
            if iw.exact {
                !fnz && any
            } else {
                any
            }
        },
    }
}

/// Whether a relation matches: its core test, inverted when negated.
pub open spec fn spec_relation_matches(r: SpecRelation, o: PluralOperands) -> bool {
    if r.negated {
        !spec_relation_core(r, o)
    } else {
        spec_relation_core(r, o)
    }
}

/// Whether a conjunction matches: every relation does.
pub open spec fn spec_and_matches(a: SpecAndCondition, o: PluralOperands) -> bool {
    forall|j: int| 0 <= j < a.relations.len() ==> spec_relation_matches(#[trigger] a.relations[j], o)
}

/// Whether a condition matches: it is empty, or some conjunction matches.
pub open spec fn spec_condition_matches(c: SpecCondition, o: PluralOperands) -> bool {
    c.ands.len() == 0 || exists|j: int| 0 <= j < c.ands.len() && spec_and_matches(#[trigger] c.ands[j], o)
}

/// A relation is well formed when its modulus, if any, is not zero; a
/// zero modulus is a data error the parser rejects.
pub open spec fn relation_wf(r: SpecRelation) -> bool {
    match r.kind {
        SpecRelationKind::Is(_) => true,
        SpecRelationKind::InOrWithin(iw) => iw.modulus != Option::Some(0u64),
    }
}

/// Every relation of the conjunction is well formed.
pub open spec fn and_wf(a: SpecAndCondition) -> bool {
    forall|j: int| 0 <= j < a.relations.len() ==> relation_wf(#[trigger] a.relations[j])
}

/// Every relation of the condition is well formed.
pub open spec fn condition_wf(c: SpecCondition) -> bool {
    forall|j: int| 0 <= j < c.ands.len() ==> and_wf(#[trigger] c.ands[j])
}

/// The relation with its negation flag inverted.
pub open spec fn negate_relation(r: SpecRelation) -> SpecRelation {
    SpecRelation { negated: !r.negated, operand: r.operand, kind: r.kind }
}

/// Negation symmetry: a negated relation matches exactly when the
/// relation itself does not, for every operand record.
pub proof fn lemma_negation_symmetry(r: SpecRelation, o: PluralOperands)
    ensures
        spec_relation_matches(negate_relation(r), o) == !spec_relation_matches(r, o),
{
}

/// The empty condition matches every operand record.
pub proof fn lemma_empty_condition_matches(c: SpecCondition, o: PluralOperands)
    requires
        c.ands.len() == 0,
    ensures
        spec_condition_matches(c, o),
{
}

/// The integer value the relation's operand selects, after the modulus.
fn reduced_value(rel: &Relation, iw: &InOrWithin, operands: &PluralOperands) -> (r: u64)
    requires
        iw.modulus != Option::<u64>::Some(0u64),
    ensures
        r as int == reduced(*operands, rel.operand, iw.modulus),
{
    let x = match rel.operand {
        Operand::N => operands.i,
        Operand::I => operands.i,
        Operand::V => operands.v,
        Operand::W => operands.w,
        Operand::F => operands.f,
        Operand::T => operands.t,
        Operand::C => operands.c,
        Operand::E => operands.c,
    };
    match iw.modulus {
        Option::Some(m) => x % m,
        Option::None => x,
    }
}

/// Tests one entry of a range list against the reduced value.
fn range_matches(x: u64, fnz: bool, exact: bool, rv: &RangeOrValue) -> (r: bool)
    ensures
        r == range_hit(x as int, fnz, exact, *rv),
{
    match rv {
        RangeOrValue::Value(v) => if exact {
            x == *v
        } else {
            x == *v && !fnz
        },
        RangeOrValue::Range(lo, hi) => if exact {
            *lo <= x && x <= *hi
        } else {
            *lo <= x && (x < *hi || (x == *hi && !fnz))
        },
    }
}

/// Tests a single relation against an operand record.
pub fn test_relation(rel: &Relation, operands: &PluralOperands) -> (r: bool)
    requires
        relation_wf(rel@),
    ensures
        r == spec_relation_matches(rel@, *operands),
{
    let base: bool = match &rel.kind {
        RelationKind::Is(v) => {
            let x = match rel.operand {
                Operand::N => operands.i,
                Operand::I => operands.i,
                Operand::V => operands.v,
                Operand::W => operands.w,
                Operand::F => operands.f,
                Operand::T => operands.t,
                Operand::C => operands.c,
                Operand::E => operands.c,
            };
            let fnz = rel.operand == Operand::N && operands.f != 0;
            x == *v && !fnz
        },
        RelationKind::InOrWithin(iw) => {
            let x = reduced_value(rel, iw, operands);
            let fnz = rel.operand == Operand::N && operands.f != 0;
            if iw.exact && fnz {
                assert(!spec_relation_core(rel@, *operands));
                false
            } else {
                let ghost gx = x as int;
                let mut found = false;
                let mut k: usize = 0;
                while k < iw.ranges.len()
                    invariant
                        k <= iw.ranges@.len(),
                        gx == x as int,
                        found == exists|j: int| 0 <= j < k && range_hit(gx, fnz, iw.exact, #[trigger] iw.ranges@[j]),
                    decreases iw.ranges@.len() - k,
                {
                    let hit = range_matches(x, fnz, iw.exact, &iw.ranges[k]);
                    proof {
                        if hit {
                            assert(range_hit(gx, fnz, iw.exact, iw.ranges@[k as int]));
                        }
                    }
                    if hit {
                        found = true;
                    }
                    k = k + 1;
                }
                assert(iw@.ranges == iw.ranges@);
                found
            }
        },
    };
    if rel.negated {
        !base
    } else {
        base
    }
}

/// Tests a conjunction: every relation must match.
pub fn test_and_condition(and: &AndCondition, operands: &PluralOperands) -> (r: bool)
    requires
        and_wf(and@),
    ensures
        r == spec_and_matches(and@, *operands),
{
    let mut k: usize = 0;
    while k < and.relations.len()
        invariant
            k <= and.relations@.len(),
            and_wf(and@),
            forall|j: int| 0 <= j < k ==> spec_relation_matches(#[trigger] and@.relations[j], *operands),
        decreases and.relations@.len() - k,
    {
        assert(and@.relations[k as int] == and.relations@[k as int]@);
        let hit = test_relation(&and.relations[k], operands);
        if !hit {
            assert(!spec_and_matches(and@, *operands));
            return false;
        }
        k = k + 1;
    }
    true
}

/// Tests a condition: it matches when empty, else when some conjunction
/// matches.
pub fn test_condition(condition: &Condition, operands: &PluralOperands) -> (r: bool)
    requires
        condition_wf(condition@),
    ensures
        r == spec_condition_matches(condition@, *operands),
{
    let n = condition.ands.len();
    let mut k: usize = 0;
    while k < n
        invariant
            n == condition.ands@.len(),
            k <= n,
            condition_wf(condition@),
            forall|j: int| 0 <= j < k ==> !spec_and_matches(#[trigger] condition@.ands[j], *operands),
        decreases n - k,
    {
        assert(condition@.ands[k as int] == condition.ands@[k as int]@);
        let hit = test_and_condition(&condition.ands[k], operands);
        if hit {
            assert(spec_condition_matches(condition@, *operands));
            return true;
        }
        k = k + 1;
    }
    n == 0
}

} // verus!
