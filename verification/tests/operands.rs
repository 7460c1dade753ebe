use plural_rules::decimal;
use plural_rules::operands::{OperandsError, PluralOperands};
use plural_rules::Key;

fn ops(text: &str) -> PluralOperands {
    PluralOperands::from_text(text.as_bytes()).expect("operand text must be well formed")
}

#[test]
fn test_operand_invariants() {
    for text in ["1", "1.50", "0.007", "123.450", "0", "2.000", "-3.14"] {
        let operands = ops(text);
        assert!(operands.w <= operands.v, "{}", text);
        assert!(operands.t <= operands.f, "{}", text);
        if operands.v == 0 {
            assert_eq!(operands.f, 0);
            assert_eq!(operands.t, 0);
        }
    }
}

#[test]
fn test_fraction_extraction() {
    let operands = ops("1.50");
    assert_eq!(operands.i, 1);
    assert_eq!(operands.v, 2);
    assert_eq!(operands.w, 1);
    assert_eq!(operands.f, 50);
    assert_eq!(operands.t, 5);
    let operands = ops("1");
    assert_eq!(operands.i, 1);
    assert_eq!(operands.v, 0);
    assert_eq!(operands.w, 0);
    assert_eq!(operands.f, 0);
    assert_eq!(operands.t, 0);
}

#[test]
fn test_leading_fraction_zeros() {
    // "1.05": the fraction reads as the integer 5, but two digits stay
    // visible.
    let operands = ops("1.05");
    assert_eq!(operands.v, 2);
    assert_eq!(operands.w, 2);
    assert_eq!(operands.f, 5);
    assert_eq!(operands.t, 5);
    let operands = ops("3.0001");
    assert_eq!(operands.v, 4);
    assert_eq!(operands.w, 4);
    assert_eq!(operands.f, 1);
    assert_eq!(operands.t, 1);
    let operands = ops("2.000");
    assert_eq!(operands.v, 3);
    assert_eq!(operands.w, 0);
    assert_eq!(operands.f, 0);
    assert_eq!(operands.t, 0);
}

#[test]
fn test_sign_ignored() {
    assert_eq!(ops("-1.5"), ops("1.5"));
    let operands = ops("-1.5");
    assert_eq!(operands.i, 1);
    assert_eq!(operands.v, 1);
    assert_eq!(operands.f, 5);
}

#[test]
fn test_from_parts() {
    let operands = PluralOperands::from_parts("12".as_bytes(), "345".as_bytes(), 0);
    assert_eq!(operands.i, 12);
    assert_eq!(operands.v, 3);
    assert_eq!(operands.w, 3);
    assert_eq!(operands.f, 345);
    assert_eq!(operands.t, 345);
    assert_eq!(operands.c, 0);
    let operands = PluralOperands::from_parts("".as_bytes(), "".as_bytes(), 0);
    assert_eq!(operands.i, 0);
    assert_eq!(operands.v, 0);
}

#[test]
fn test_integer_saturation() {
    // Far beyond the native width: the integer part saturates instead of
    // overflowing.
    let operands = ops("99999999999999999999999");
    assert_eq!(operands.i, u64::MAX);
    let operands = ops("18446744073709551615");
    assert_eq!(operands.i, u64::MAX);
    let operands = ops("18446744073709551614");
    assert_eq!(operands.i, u64::MAX - 1);
}

#[test]
fn test_malformed_operand_text() {
    for text in ["abc", "", "-", "1.", ".5", "1..2", "1.2.3", "1a", "--1", "1.5c6"] {
        let result = PluralOperands::from_text(text.as_bytes());
        assert_eq!(result, Err(OperandsError::Malformed), "{:?}", text);
    }
}

#[test]
fn test_decimal_key() {
    let key = Key::from(decimal::Key::SymbolsV1);
    assert_eq!(key, Key::Decimal(decimal::Key::SymbolsV1));
}

#[test]
fn test_decimal_symbols() {
    let symbols = decimal::SymbolsV1 {
        zero_digit: '0',
        decimal_separator: String::from("."),
        grouping_separator: String::from(","),
    };
    let copy = symbols.clone();
    assert_eq!(symbols, copy);
    assert_eq!(copy.zero_digit, '0');
}
