use plural_rules::operands::PluralOperands;
use plural_rules::rules::ast::{AndCondition, InOrWithin, Operand, RangeOrValue, Relation, RelationKind};
use plural_rules::rules::lexer::{Lexer, TokenKind};
use plural_rules::rules::parser::{parse_condition, ParseError};
use plural_rules::rules::resolver::{test_and_condition, test_condition, test_relation};

fn ops(text: &str) -> PluralOperands {
    PluralOperands::from_text(text.as_bytes()).expect("operand text must be well formed")
}

fn matches_rule(rule: &str, number: &str) -> bool {
    let condition = parse_condition(rule.as_bytes()).expect("rule must parse");
    test_condition(&condition, &ops(number))
}

#[test]
fn test_parsing_operands() {
    let cases: &[(&str, &str, bool)] = &[
        ("i = 1", "1", true),
        ("i = 1", "2", false),
        ("i = 1 and v = 0", "1", true),
        ("i = 1 and v = 0", "1.0", false),
        ("n = 1000", "1000", true),
        ("v = 2", "1.50", true),
        ("w = 1 and t = 5", "1.50", true),
        ("f = 50", "1.50", true),
        ("n = 0 or n = 1", "0.5", false),
        ("n within 0..1", "0.5", true),
    ];
    for (rule, number, expected) in cases {
        let lex = Lexer::new(rule.as_bytes());
        assert!(lex.tokenize().expect("rule must lex").len() > 0);
        let condition = parse_condition(rule.as_bytes()).expect("Failed to parse.");
        let operands = ops(number);
        if *expected {
            assert!(test_condition(&condition, &operands));
        } else {
            assert!(!test_condition(&condition, &operands));
        }
    }
}

#[test]
fn test_parse_idempotent() {
    let rule = "v = 0 and i % 10 = 1..4 and i % 100 != 11..14";
    let first = parse_condition(rule.as_bytes()).expect("parse");
    let second = parse_condition(rule.as_bytes()).expect("parse");
    assert_eq!(first, second);
    let third = parse_condition("n is not 7 or n within 2..4, 9".as_bytes()).expect("parse");
    let fourth = parse_condition("n is not 7 or n within 2..4, 9".as_bytes()).expect("parse");
    assert_eq!(third, fourth);
}

#[test]
fn test_negation_symmetry() {
    for number in ["0", "1", "1.5", "2", "11"] {
        let plain = matches_rule("n = 1", number);
        let negated = matches_rule("n != 1", number);
        assert_eq!(plain, !negated);
    }
    let relation = Relation {
        operand: Operand::N,
        negated: false,
        kind: RelationKind::InOrWithin(InOrWithin {
            exact: true,
            ranges: vec![RangeOrValue::Value(1)],
            modulus: None,
        }),
    };
    let mut flipped = relation.clone();
    flipped.negated = true;
    for number in ["1", "1.5", "3"] {
        let operands = ops(number);
        assert_eq!(test_relation(&relation, &operands), !test_relation(&flipped, &operands));
    }
}

#[test]
fn test_range_membership() {
    for number in ["1", "1.5", "2", "3", "3.0"] {
        assert!(matches_rule("n within 1..3", number), "{} should match", number);
    }
    for number in ["3.0001", "0.9", "0", "4"] {
        assert!(!matches_rule("n within 1..3", number), "{} should not match", number);
    }
}

#[test]
fn test_exact_vs_within() {
    assert!(!matches_rule("n in 1..3", "1.5"));
    assert!(matches_rule("n within 1..3", "1.5"));
    // The operand `i` of 1.5 is the integer 1, so an exact test on `i`
    // accepts it.
    assert!(matches_rule("i in 1..3", "1.5"));
}

#[test]
fn test_modulus() {
    for number in ["1", "11", "21"] {
        assert!(matches_rule("n mod 10 = 1", number), "{} should match", number);
        assert!(matches_rule("n % 10 = 1", number), "{} should match", number);
    }
    for number in ["10", "12"] {
        assert!(!matches_rule("n mod 10 = 1", number), "{} should not match", number);
        assert!(!matches_rule("n % 10 = 1", number), "{} should not match", number);
    }
}

#[test]
fn test_one_rule_english() {
    assert!(matches_rule("i = 1 and v = 0", "1"));
    assert!(!matches_rule("i = 1 and v = 0", "1.0"));
}

#[test]
fn test_range_rule() {
    let rule = "v = 0 and i % 10 = 1..4 and i % 100 != 11..14";
    assert!(matches_rule(rule, "1"));
    assert!(!matches_rule(rule, "11"));
    assert!(matches_rule(rule, "102"));
}

#[test]
fn test_parse_error() {
    // After `n =` the next `=` is already unexpected: the error points at
    // byte 3.
    let err = parse_condition("n === 1".as_bytes()).unwrap_err();
    assert_eq!(err, ParseError::Syntax { pos: 3 });
}

#[test]
fn test_fallback_empty() {
    for rule in ["", "   ", "\t \n"] {
        let condition = parse_condition(rule.as_bytes()).expect("parse");
        assert!(condition.ands.is_empty());
        for number in ["0", "1", "1.5", "999"] {
            assert!(test_condition(&condition, &ops(number)));
        }
    }
}

#[test]
fn test_lexical_error() {
    assert_eq!(parse_condition("n # 1".as_bytes()).unwrap_err(), ParseError::Lexical { pos: 2 });
    assert_eq!(parse_condition("#".as_bytes()).unwrap_err(), ParseError::Lexical { pos: 0 });
    assert_eq!(parse_condition("n . 1".as_bytes()).unwrap_err(), ParseError::Lexical { pos: 2 });
    assert_eq!(parse_condition("n ! 1".as_bytes()).unwrap_err(), ParseError::Lexical { pos: 2 });
}

#[test]
fn test_value_out_of_range() {
    // One past the largest supported value.
    let err = parse_condition("n = 18446744073709551616".as_bytes()).unwrap_err();
    assert_eq!(err, ParseError::ValueOutOfRange { pos: 4 });
    // The largest supported value itself parses.
    assert!(parse_condition("n = 18446744073709551615".as_bytes()).is_ok());
}

#[test]
fn test_zero_modulus() {
    assert_eq!(
        parse_condition("n mod 0 = 1".as_bytes()).unwrap_err(),
        ParseError::ZeroModulus { pos: 2 },
    );
    assert_eq!(
        parse_condition("n % 0 = 1".as_bytes()).unwrap_err(),
        ParseError::ZeroModulus { pos: 2 },
    );
}

#[test]
fn test_trailing_input() {
    assert_eq!(parse_condition("n = 1 foo".as_bytes()).unwrap_err(), ParseError::Syntax { pos: 6 });
    assert_eq!(parse_condition("n = 1 and".as_bytes()).unwrap_err(), ParseError::Syntax { pos: 9 });
    assert_eq!(parse_condition("x = 1".as_bytes()).unwrap_err(), ParseError::Syntax { pos: 0 });
    assert_eq!(parse_condition("n blah 1".as_bytes()).unwrap_err(), ParseError::Syntax { pos: 2 });
    assert_eq!(parse_condition("@integer 1".as_bytes()).unwrap_err(), ParseError::Syntax { pos: 0 });
}

#[test]
fn test_lexer_tokens() {
    let tokens = Lexer::new("i % 10 = 1..4, 7".as_bytes()).tokenize().expect("lex");
    let kinds: Vec<TokenKind> = tokens.iter().map(|t| t.kind).collect();
    assert_eq!(
        kinds,
        vec![
            TokenKind::Ident,
            TokenKind::Percent,
            TokenKind::Number,
            TokenKind::Eq,
            TokenKind::Number,
            TokenKind::Ellipsis,
            TokenKind::Number,
            TokenKind::Comma,
            TokenKind::Number,
            TokenKind::Eof,
        ],
    );
    assert_eq!(tokens[0].start, 0);
    assert_eq!(tokens[0].end, 1);
    assert_eq!(tokens[2].start, 4);
    assert_eq!(tokens[2].end, 6);
    assert_eq!(tokens[5].start, 10);
    assert_eq!(tokens[5].end, 12);
    let three_dots = Lexer::new("1...3".as_bytes()).tokenize().expect("lex");
    assert_eq!(three_dots[1].kind, TokenKind::Ellipsis);
    assert_eq!(three_dots[1].end, 4);
    assert!(matches_rule("n = 1...3", "2"));
}

#[test]
fn test_is_relation() {
    assert!(matches_rule("n is 1", "1"));
    assert!(matches_rule("n is 1", "1.0"));
    assert!(!matches_rule("n is 1", "1.5"));
    assert!(!matches_rule("n is 1", "2"));
    assert!(!matches_rule("n is not 1", "1"));
    assert!(matches_rule("n is not 1", "2"));
    assert!(matches_rule("n mod 10 is 1", "11"));
    assert!(!matches_rule("n mod 10 is 1", "12"));
    assert!(!matches_rule("not n is 1", "1"));
    assert!(matches_rule("not n is 1", "2"));
}

#[test]
fn test_not_in() {
    assert!(!matches_rule("n not in 1..3", "2"));
    assert!(matches_rule("n not in 1..3", "5"));
    assert!(!matches_rule("not n in 1..3", "2"));
    assert!(matches_rule("not n in 1..3", "5"));
    // Two negations cancel.
    assert!(matches_rule("not n not in 1..3", "2"));
    assert!(!matches_rule("not n not within 1..3", "5"));
}

#[test]
fn test_range_list_shapes() {
    assert!(matches_rule("n within 2", "2"));
    assert!(!matches_rule("n within 2", "2.5"));
    assert!(matches_rule("n in 1,3..5", "1"));
    assert!(!matches_rule("n in 1,3..5", "2"));
    assert!(matches_rule("n in 1,3..5", "4"));
    assert!(matches_rule("n = 01", "1"));
}

#[test]
fn test_and_or_precedence() {
    let rule = "n = 1 or n = 2 and n = 3";
    assert!(matches_rule(rule, "1"));
    assert!(!matches_rule(rule, "2"));
    assert!(!matches_rule(rule, "3"));
    let and = AndCondition {
        relations: vec![
            Relation {
                operand: Operand::I,
                negated: false,
                kind: RelationKind::InOrWithin(InOrWithin {
                    exact: true,
                    ranges: vec![RangeOrValue::Range(1, 4)],
                    modulus: None,
                }),
            },
            Relation { operand: Operand::V, negated: false, kind: RelationKind::Is(0) },
        ],
    };
    assert!(test_and_condition(&and, &ops("3")));
    assert!(!test_and_condition(&and, &ops("3.0")));
    assert!(!test_and_condition(&and, &ops("5")));
}

#[test]
fn test_compact_exponent() {
    let operands = PluralOperands::from_parts("12".as_bytes(), "".as_bytes(), 6);
    assert_eq!(operands.i, 12);
    assert_eq!(operands.c, 6);
    let condition = parse_condition("e = 6".as_bytes()).expect("parse");
    assert!(test_condition(&condition, &operands));
    let condition = parse_condition("c = 6".as_bytes()).expect("parse");
    assert!(test_condition(&condition, &operands));
    let condition = parse_condition("e = 0".as_bytes()).expect("parse");
    assert!(!test_condition(&condition, &operands));
}

#[test]
fn test_whitespace_insignificant() {
    assert!(matches_rule("  i  =  1  ", "1"));
    assert!(matches_rule("i=1", "1"));
    assert!(matches_rule("\ti =\n1", "1"));
}
