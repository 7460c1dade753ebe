//! A CLDR plural-rule grammar engine.
//!
//! The engine lexes and parses a CLDR plural-rule condition string into an
//! abstract syntax tree, computes the fixed set of plural operands from a
//! decimal number representation, and evaluates the tree against those
//! operands to decide whether the rule matches the number.

use vstd::prelude::*;

pub mod decimal;
pub mod operands;
pub mod rules;

verus! {

/// A key identifying a piece of locale data that a data provider can serve.
#[derive(PartialEq, Eq, Structural, Copy, Clone, Debug)]
pub enum Key {
    Decimal(decimal::Key),
}

} // verus!
