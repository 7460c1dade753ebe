//! The abstract syntax tree of a parsed plural-rule condition, together
//! with its mathematical model.
//!
//! A condition is a disjunction of conjunctions of atomic relations; an
//! empty disjunction stands for the always-true condition of the default
//! category. Once parsed, a tree is immutable and may be shared.

use vstd::prelude::*;

verus! {

/// The operand of a number that a relation tests.
#[derive(PartialEq, Eq, Structural, Copy, Clone, Debug)]
pub enum Operand {
    /// Absolute value of the number.
    N,
    /// Integer part of the number.
    I,
    /// Count of visible fraction digits, with trailing zeros.
    V,
    /// Count of visible fraction digits, without trailing zeros.
    W,
    /// Visible fraction digits as an integer, with trailing zeros.
    F,
    /// Visible fraction digits as an integer, without trailing zeros.
    T,
    /// Compact-decimal exponent.
    C,
    /// Synonym of `C` in the CLDR syntax.
    E,
}

/// One entry of a range list: a single integer or an inclusive range.
#[derive(PartialEq, Eq, Structural, Copy, Clone, Debug)]
pub enum RangeOrValue {
    Value(u64),
    Range(u64, u64),
}

/// The body of an `in`, `within`, `=` or `!=` relation: whether only
/// integer values count, the ranges tested, and an optional modulus
/// applied to the operand first.
#[derive(Debug, Clone, PartialEq)]
pub struct InOrWithin {
    pub exact: bool,
    pub ranges: Vec<RangeOrValue>,
    pub modulus: Option<u64>,
}

/// What an atomic relation tests of its operand.
#[derive(Debug, Clone, PartialEq)]
pub enum RelationKind {
    /// `is`: exact equality with a single integer.
    Is(u64),
    /// `in`, `within`, `=` or `!=`: membership in a range list.
    InOrWithin(InOrWithin),
}

/// One atomic test of a single operand.
#[derive(Debug, Clone, PartialEq)]
pub struct Relation {
    pub operand: Operand,
    pub negated: bool,
    pub kind: RelationKind,
}

/// A conjunction of relations: matches when every relation matches.
#[derive(Debug, Clone, PartialEq)]
pub struct AndCondition {
    pub relations: Vec<Relation>,
}

/// A disjunction of conjunctions: matches when any conjunction matches,
/// and vacuously when empty.
#[derive(Debug, Clone, PartialEq)]
pub struct Condition {
    pub ands: Vec<AndCondition>,
}

/// Model of `InOrWithin`.
pub struct SpecInOrWithin {
    pub exact: bool,
    pub ranges: Seq<RangeOrValue>,
    pub modulus: Option<u64>,
}

/// Model of `RelationKind`.
pub enum SpecRelationKind {
    Is(u64),
    InOrWithin(SpecInOrWithin),
}

/// Model of `Relation`.
pub struct SpecRelation {
    pub operand: Operand,
    pub negated: bool,
    pub kind: SpecRelationKind,
}

/// Model of `AndCondition`.
pub struct SpecAndCondition {
    pub relations: Seq<SpecRelation>,
}

/// Model of `Condition`.
pub struct SpecCondition {
    pub ands: Seq<SpecAndCondition>,
}

impl View for InOrWithin {
    type V = SpecInOrWithin;

    open spec fn view(&self) -> SpecInOrWithin {
        SpecInOrWithin { exact: self.exact, ranges: self.ranges@, modulus: self.modulus }
    }
}

impl View for RelationKind {
    type V = SpecRelationKind;

    open spec fn view(&self) -> SpecRelationKind {
        match self {
            RelationKind::Is(v) => SpecRelationKind::Is(*v),
            RelationKind::InOrWithin(iw) => SpecRelationKind::InOrWithin(iw@),
        }
    }
}

impl View for Relation {
    type V = SpecRelation;

    open spec fn view(&self) -> SpecRelation {
        SpecRelation { operand: self.operand, negated: self.negated, kind: self.kind@ }
    }
}

impl View for AndCondition {
    type V = SpecAndCondition;

    open spec fn view(&self) -> SpecAndCondition {
        SpecAndCondition { relations: self.relations@.map_values(|r: Relation| r@) }
    }
}

impl View for Condition {
    type V = SpecCondition;

    open spec fn view(&self) -> SpecCondition {
        SpecCondition { ands: self.ands@.map_values(|a: AndCondition| a@) }
    }
}

} // verus!
