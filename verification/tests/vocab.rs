use luar::keyword::Keyword;
use luar::operator::Operator;
use luar::separator::Separator;
use luar::srcpos::SrcPos;

#[test]
fn test_operator_identify() {
    assert_eq!(Operator::identify("+"), Some(Operator::ADD));
    assert_eq!(Operator::identify("-"), Some(Operator::SUB_MINUS));
    assert_eq!(Operator::identify("//"), Some(Operator::FLRDIV));
    assert_eq!(Operator::identify("~="), Some(Operator::NEQ));
    assert_eq!(Operator::identify("..."), Some(Operator::VARARG));
    assert_eq!(Operator::identify(".."), Some(Operator::CONCAT));
    assert_eq!(Operator::identify("<<"), Some(Operator::LSHIFT));
    assert_eq!(Operator::identify("word"), None);
    assert_eq!(Operator::identify(","), None);
}

#[test]
fn test_separator_identify() {
    assert_eq!(Separator::identify(","), Some(Separator::COMMA));
    assert_eq!(Separator::identify("::"), Some(Separator::DOUBLECOLON));
    assert_eq!(Separator::identify("{"), Some(Separator::LBRACE));
    assert_eq!(Separator::identify("+"), None);
    assert_eq!(Separator::identify(""), None);
}

#[test]
fn test_keyword_identify_case_sensitive() {
    assert_eq!(Keyword::identify("if"), Some(Keyword::IF));
    assert_eq!(Keyword::identify("IF"), None);
    assert_eq!(Keyword::identify("If"), None);
    assert_eq!(Keyword::identify("while"), Some(Keyword::WHILE));
    assert_eq!(Keyword::identify("elseif"), Some(Keyword::ELSEIF));
    assert_eq!(Keyword::identify("whilst"), None);
}

#[test]
fn test_token_payloads() {
    let mut s = luar::scanner::Scanner::read_source("( if ..");
    let t = s.next_token().unwrap().unwrap();
    assert_eq!(t.separator(), Some(&Separator::LPAREN));
    assert!(t.keyword().is_none());
    assert!(t.operator().is_none());
    let t = s.next_token().unwrap().unwrap();
    assert_eq!(t.keyword(), Some(&Keyword::IF));
    assert!(t.operator().is_none());
    assert!(t.separator().is_none());
    let t = s.next_token().unwrap().unwrap();
    assert_eq!(t.operator(), Some(&Operator::CONCAT));
    assert!(t.keyword().is_none());
    assert!(t.separator().is_none());
}

#[test]
fn test_srcpos_tracking() {
    let mut p = SrcPos::build();
    assert_eq!(p.position(), (1, 1));
    p.update('a');
    assert_eq!(p.position(), (1, 2));
    p.update('\n');
    assert_eq!(p.position(), (2, 1));
    p.update('x');
    p.update('y');
    assert_eq!(p.position(), (2, 3));
}
