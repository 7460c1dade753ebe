//! Keys and symbol data for decimal formatting served by a data provider.

use vstd::prelude::*;

verus! {

/// The kinds of decimal data a provider can be asked for.
#[derive(PartialEq, Eq, Structural, Copy, Clone, Debug)]
pub enum Key {
    SymbolsV1,
}

impl From<Key> for crate::Key {
    fn from(value: Key) -> (r: crate::Key) {
        crate::Key::Decimal(value)
    }
}

impl vstd::std_specs::convert::FromSpecImpl<Key> for crate::Key {
    open spec fn obeys_from_spec() -> bool {
        true
    }

    open spec fn from_spec(value: Key) -> crate::Key {
        crate::Key::Decimal(value)
    }
}

/// The symbols a decimal formatter places around digits.
#[derive(Debug, Clone, PartialEq)]
pub struct SymbolsV1 {
    pub zero_digit: char,
    pub decimal_separator: String,
    pub grouping_separator: String,
}

} // verus!
