use mv_core::ast::{Expr, Lit, Statement};
use mv_core::error::Error;
use mv_core::parser::Parser;
use mv_core::token::TokenKind;

#[test]
fn parses_each_statement_form() {
    let src = "int x = 5;\nint y;\ny = x;\nint* p = &x;\nint* q = new int;\nint* r = nullptr;\np = &y;\nq = new int;\nr = nullptr;\n*q = 3;\ndelete q;\n";
    let statements = Parser::new(src).parse().unwrap();
    assert_eq!(statements.len(), 11);
    match &statements[0] {
        Statement::VariableDeclaration { var_type, var_name, value, line, var_ident_column } => {
            assert_eq!(*var_type, TokenKind::KwInt);
            assert_eq!(var_name, "x");
            assert!(matches!(**value, Expr::Literal(Lit::Int(5))));
            assert_eq!(*line, 1);
            assert_eq!(*var_ident_column, 5);
        }
        other => panic!("unexpected {:?}", other),
    }
    assert!(matches!(statements[1], Statement::VariableDeclarationWithoutAssignment { .. }));
    assert!(matches!(statements[2], Statement::VariableAssignment { .. }));
    assert!(matches!(statements[3], Statement::PointerDeclaration { .. }));
    assert!(matches!(statements[4], Statement::PointerDeclarationHeap { .. }));
    assert!(matches!(statements[5], Statement::PointerDeclarationNull { .. }));
    assert!(matches!(statements[6], Statement::PointerAssignment { .. }));
    assert!(matches!(statements[7], Statement::PointerAssignmentHeap { .. }));
    assert!(matches!(statements[8], Statement::PointerAssignmentNull { .. }));
    match &statements[9] {
        Statement::Deref { pointer_name, line, pointer_ident_column, new_value_column, .. } => {
            assert_eq!(pointer_name, "q");
            assert_eq!(*line, 10);
            assert_eq!(*pointer_ident_column, 2);
            assert_eq!(*new_value_column, 6);
        }
        other => panic!("unexpected {:?}", other),
    }
    assert!(matches!(statements[10], Statement::Delete { .. }));
}

#[test]
fn literals_and_comments() {
    let src = "// a comment\nfloat f = 1.5e3;\nchar c = 'z';\nbool b = true;\n";
    let statements = Parser::new(src).parse().unwrap();
    assert_eq!(statements.len(), 3);
    match &statements[0] {
        Statement::VariableDeclaration { value, line, .. } => {
            assert_eq!(*line, 2);
            match &**value {
                Expr::Literal(Lit::Float(t)) => assert_eq!(t, "1.5e3"),
                other => panic!("unexpected {:?}", other),
            }
        }
        other => panic!("unexpected {:?}", other),
    }
    match &statements[1] {
        Statement::VariableDeclaration { value, .. } => {
            assert!(matches!(**value, Expr::Literal(Lit::Char('z'))))
        }
        other => panic!("unexpected {:?}", other),
    }
    match &statements[2] {
        Statement::VariableDeclaration { value, .. } => {
            assert!(matches!(**value, Expr::Literal(Lit::Bool(true))))
        }
        other => panic!("unexpected {:?}", other),
    }
}

#[test]
fn parse_errors_carry_position() {
    match Parser::new("int x = ;").parse() {
        Err(Error::ParserError(m, line, col)) => {
            assert_eq!(m, "Expected expression but found `;`");
            assert_eq!(line, 1);
            assert_eq!(col, 9);
        }
        other => panic!("unexpected {:?}", other),
    }
    match Parser::new("int x = 99999999999999999999;").parse() {
        Err(Error::ParserError(m, _, _)) => {
            assert_eq!(m, "invalid integer literal: `99999999999999999999`")
        }
        other => panic!("unexpected {:?}", other),
    }
    match Parser::new("int x = 1").parse() {
        Err(Error::ParserError(m, _, _)) => {
            assert_eq!(m, "Expected to consume `;`, but found `EOF`")
        }
        other => panic!("unexpected {:?}", other),
    }
}

#[test]
fn empty_source_has_no_statements() {
    assert_eq!(Parser::new("").parse().unwrap().len(), 0);
    assert_eq!(Parser::new("  \n\t ").parse().unwrap().len(), 0);
}

#[test]
fn expressions_read_from_single_tokens() {
    let forms = ["int* p = &x;", "char c = 'a';", "double d = 2.5;", "bool b = true;", "int i = 7;"];
    let statements: Vec<Statement> = forms.iter().map(|s| Parser::new(s).parse().unwrap().remove(0)).collect();
    match &statements[0] {
        Statement::PointerDeclaration { value, .. } => assert!(matches!(&**value, Expr::Ident(x) if x == "x")),
        other => panic!("unexpected {:?}", other),
    }
    let values: Vec<&Expr> = statements[1..]
        .iter()
        .map(|s| match s {
            Statement::VariableDeclaration { value, .. } => &**value,
            other => panic!("unexpected {:?}", other),
        })
        .collect();
    assert!(matches!(values[0], Expr::Literal(Lit::Char('a'))));
    assert!(matches!(values[1], Expr::Literal(Lit::Float(t)) if t == "2.5"));
    assert!(matches!(values[2], Expr::Literal(Lit::Bool(true))));
    assert!(matches!(values[3], Expr::Literal(Lit::Int(7))));
}

#[test]
fn blank_text_and_comments_give_no_statements() {
    assert_eq!(Parser::new(" \n\t// note\n").parse().unwrap().len(), 0);
}

#[test]
fn new_bool_declares_a_heap_pointer() {
    match Parser::new("bool* p = new bool;").parse().unwrap().remove(0) {
        Statement::PointerDeclarationHeap { base_type, pointer_name, line, .. } => {
            assert_eq!(base_type, TokenKind::KwBool);
            assert_eq!(pointer_name, "p");
            assert_eq!(line, 1);
        }
        other => panic!("unexpected {:?}", other),
    }
}
