use luar::error::ParseError;
use luar::operator::Operator;
use luar::parser::{Expr, Parser};

fn parse(code: &str) -> Result<Expr, ParseError> {
    let mut parser = Parser::read_source(code);
    parser.parse()
}

fn operand_word(e: &Expr) -> &str {
    match e {
        Expr::Operand(t) => t.word(),
        Expr::Binary(..) => panic!("expected an operand"),
    }
}

#[test]
fn test_precedence_climbing_groups_multiplication() {
    // With ADD=10 and MUL=14, `1 + 2 * 3` groups as `1 + (2 * 3)`.
    let e = parse("1 + 2 * 3").unwrap();
    match e {
        Expr::Binary(op, l, r) => {
            assert_eq!(op, Operator::ADD);
            assert_eq!(operand_word(&l), "1");
            match *r {
                Expr::Binary(op2, l2, r2) => {
                    assert_eq!(op2, Operator::MUL);
                    assert_eq!(operand_word(&l2), "2");
                    assert_eq!(operand_word(&r2), "3");
                }
                _ => panic!("expected the multiplication grouped tighter"),
            }
        }
        _ => panic!("expected a binary expression"),
    }
}

#[test]
fn test_left_associative_addition() {
    // Equal binding powers group to the left: `1 + 2 + 3` is `(1 + 2) + 3`.
    let e = parse("1 + 2 + 3").unwrap();
    match e {
        Expr::Binary(op, l, r) => {
            assert_eq!(op, Operator::ADD);
            assert_eq!(operand_word(&r), "3");
            match *l {
                Expr::Binary(op2, l2, r2) => {
                    assert_eq!(op2, Operator::ADD);
                    assert_eq!(operand_word(&l2), "1");
                    assert_eq!(operand_word(&r2), "2");
                }
                _ => panic!("expected the first addition grouped to the left"),
            }
        }
        _ => panic!("expected a binary expression"),
    }
}

#[test]
fn test_multiplication_before_comparison() {
    // `1 * 2 > 3` groups as `(1 * 2) > 3`.
    let e = parse("1 * 2 > 3").unwrap();
    match e {
        Expr::Binary(op, l, r) => {
            assert_eq!(op, Operator::GT);
            assert_eq!(operand_word(&r), "3");
            match *l {
                Expr::Binary(op2, _, _) => assert_eq!(op2, Operator::MUL),
                _ => panic!("expected the multiplication grouped to the left"),
            }
        }
        _ => panic!("expected a binary expression"),
    }
}

#[test]
fn test_primary_operands() {
    // Numbers, strings, identifiers and true/false/nil all stand alone.
    assert_eq!(operand_word(&parse("42").unwrap()), "42");
    assert_eq!(operand_word(&parse("'text'").unwrap()), "text");
    assert_eq!(operand_word(&parse("[[long]]").unwrap()), "long");
    assert_eq!(operand_word(&parse("name").unwrap()), "name");
    assert_eq!(operand_word(&parse("true").unwrap()), "true");
    assert_eq!(operand_word(&parse("false").unwrap()), "false");
    assert_eq!(operand_word(&parse("nil").unwrap()), "nil");
}

#[test]
fn test_parse_stops_before_weaker_operator() {
    // An operator with binding power 0 never extends an expression; the
    // parse ends at the single operand.
    let e = parse("x = 1").unwrap();
    assert_eq!(operand_word(&e), "x");
}

#[test]
fn test_parse_empty_input() {
    match parse("") {
        Err(ParseError::ExpectedOperand(t)) => assert!(t.is_none()),
        _ => panic!("expected a missing-operand failure"),
    }
}

#[test]
fn test_parse_missing_right_operand() {
    match parse("1 +") {
        Err(ParseError::ExpectedOperand(t)) => assert!(t.is_none()),
        _ => panic!("expected a missing-operand failure"),
    }
}

#[test]
fn test_parse_keyword_not_operand() {
    match parse("do") {
        Err(ParseError::ExpectedOperand(Some(t))) => assert_eq!(t.word(), "do"),
        _ => panic!("expected a missing-operand failure carrying the token"),
    }
}

#[test]
fn test_parse_propagates_scan_fault() {
    match parse("1 + @") {
        Err(ParseError::Lex(e)) => {
            assert_eq!(e.kind, luar::error::LexErrorKind::UnexpectedCharacter)
        }
        _ => panic!("expected the scanner's fault to surface"),
    }
}
