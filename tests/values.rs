use mv_core::updates::MVUpdater;
use mv_core::ast::Lit;
use mv_core::error::Error;
use mv_core::token::TokenKind;
use mv_core::types::Type;

#[test]
fn type_sizes_and_zero_values() {
    assert_eq!(Type::Integer.get_size(), 4);
    assert_eq!(Type::Float.get_size(), 4);
    assert_eq!(Type::Char.get_size(), 1);
    assert_eq!(Type::Double.get_size(), 8);
    assert_eq!(Type::Bool.get_size(), 1);
    assert_eq!(Type::Integer.get_garbage_value(), "0");
    assert_eq!(Type::Float.get_garbage_value(), "0.0");
    assert_eq!(Type::Char.get_garbage_value(), "'\\0'");
    assert_eq!(Type::Double.get_garbage_value(), "0.0");
    assert_eq!(Type::Bool.get_garbage_value(), "false");
}

#[test]
fn types_from_keywords() {
    assert_eq!(Type::from_token(TokenKind::KwDouble).unwrap(), Type::Double);
    match Type::from_token(TokenKind::Identifier) {
        Err(Error::Msg(m)) => assert_eq!(m, "Invalid Type"),
        _ => panic!("not a type"),
    }
    assert!(Type::Char.is_type(TokenKind::KwChar));
    assert!(!Type::Char.is_type(TokenKind::Char));
}

#[test]
fn literal_compatibility() {
    assert!(Type::Double.is_correct_literal(&Lit::Float("1.5".to_string())));
    assert!(Type::Float.is_correct_literal(&Lit::Float("1.5".to_string())));
    assert!(!Type::Integer.is_correct_literal(&Lit::Float("1.5".to_string())));
    assert!(Type::Integer.is_correct_literal(&Lit::Int(3)));
    assert!(Type::Bool.is_correct_literal(&Lit::Bool(false)));
    assert!(Type::Char.is_correct_literal(&Lit::Char('c')));
}

#[test]
fn literal_text() {
    assert_eq!(Lit::Int(-42).to_string(), "-42");
    assert_eq!(Lit::Char('q').to_string(), "q");
    assert_eq!(Lit::Bool(true).to_string(), "true");
    assert_eq!(Lit::Float("2.50".to_string()).to_string(), "2.50");
}

#[test]
fn stored_values_read_back() {
    assert!(matches!(Lit::from_str("-17"), Ok(Lit::Int(-17))));
    assert!(matches!(Lit::from_str("+5"), Ok(Lit::Int(5))));
    assert!(matches!(Lit::from_str("2.5"), Ok(Lit::Float(_))));
    assert!(matches!(Lit::from_str(".5e-3"), Ok(Lit::Float(_))));
    assert!(matches!(Lit::from_str("'a'"), Ok(Lit::Char('a'))));
    assert!(matches!(Lit::from_str("false"), Ok(Lit::Bool(false))));
    assert!(matches!(Lit::from_str("c"), Err(Error::ParserError(_, 0, 0))));
    assert!(matches!(Lit::from_str("1."), Ok(Lit::Float(_))));
    assert!(matches!(Lit::from_str("1e"), Err(Error::ParserError(_, 0, 0))));
    assert!(matches!(Lit::from_str("inf"), Ok(Lit::Float(_))));
    assert!(matches!(Lit::from_str("-Infinity"), Ok(Lit::Float(_))));
    assert!(matches!(Lit::from_str("NaN"), Ok(Lit::Float(_))));
    assert!(matches!(Lit::from_str("nana"), Err(Error::ParserError(_, 0, 0))));
}

#[test]
fn update_checks_follow_the_period() {
    let mut u = MVUpdater::new();
    assert!(u.is_update_check_due(0));
    u.record_check(1000);
    assert!(!u.is_update_check_due(1000 + 12 * 3600 - 1));
    assert!(u.is_update_check_due(1000 + 12 * 3600));
    assert!(!u.is_update_check_due(10));
}
