use indexmap::IndexMap;
use mv_core::analyzer::Analyzer;
use mv_core::error::Error;
use mv_core::heap::{HeapBlock, HeapBlockState};
use mv_core::parser::Parser;
use mv_core::symbol::{AllocationType, Symbol};
use mv_core::types::Type;

fn run(src: &str) -> Result<(Vec<Symbol>, Vec<HeapBlock>, IndexMap<String, usize>), Error> {
    let mut parser = Parser::new(src);
    let statements = parser.parse().expect("parses");
    Analyzer::default().analyze_statements(statements, IndexMap::new())
}

fn block_at(heap: &[HeapBlock], addr: usize) -> &HeapBlock {
    heap.iter().find(|b| b.pointer == addr && b.block_state != HeapBlockState::Unallocated).expect("block")
}

fn pointer_of(stack: &[Symbol], wanted: &str) -> (AllocationType, Option<usize>, Option<String>) {
    for s in stack {
        if let Symbol::Pointer { name, allocation_type, heap_pointer, value, .. } = s {
            if name == wanted {
                let shown = match value.as_deref() {
                    Some(Symbol::Literal { value }) => Some(value.clone()),
                    Some(Symbol::Variable { name, .. }) => Some(name.clone()),
                    _ => None,
                };
                return (*allocation_type, *heap_pointer, shown);
            }
        }
    }
    panic!("no pointer {}", wanted);
}

#[test]
fn pointer_to_stack_variable() {
    let (stack, _, _) = run("int x = 5; int* p = &x;").unwrap();
    assert_eq!(stack.len(), 2);
    match &stack[0] {
        Symbol::Variable { vtype, name, value, size } => {
            assert_eq!(*vtype, Type::Integer);
            assert_eq!(name, "x");
            assert_eq!(value.as_deref(), Some("5"));
            assert_eq!(*size, 4);
        }
        _ => panic!("x is a variable"),
    }
    let (kind, heap, shown) = pointer_of(&stack, "p");
    assert_eq!(kind, AllocationType::Stack);
    assert_eq!(heap, None);
    assert_eq!(shown.as_deref(), Some("x"));
}

#[test]
fn write_through_deleted_pointer() {
    let (stack, heap, _) = run("int* p = new int; *p = 7; delete p;").unwrap();
    let (kind, addr, _) = pointer_of(&stack, "p");
    assert_eq!(kind, AllocationType::Dangling);
    let addr = addr.unwrap();
    let b = block_at(&heap, addr);
    assert_eq!(b.block_state, HeapBlockState::Free);
    assert_eq!(b.dangling_pointer_identifiers, Some(vec!["p".to_string()]));
    assert_eq!(b.size, 4);

    let (stack, heap, _) = run("int* p = new int; *p = 7; delete p; *p = 8;").unwrap();
    let (kind, addr, shown) = pointer_of(&stack, "p");
    assert_eq!(kind, AllocationType::Dangling);
    assert_eq!(shown.as_deref(), Some("8"));
    let b = block_at(&heap, addr.unwrap());
    assert_eq!(b.metadata, "8");
    assert_eq!(b.dangling_pointer_identifiers, Some(vec!["p".to_string()]));
}

#[test]
fn reassigned_heap_pointer_leaks_old_block() {
    let (stack, heap, _) = run("int* p = new int; int* q = new int; p = new int;").unwrap();
    let (kind, p_addr, _) = pointer_of(&stack, "p");
    assert_eq!(kind, AllocationType::Heap);
    let leaked: Vec<&HeapBlock> =
        heap.iter().filter(|b| b.block_state == HeapBlockState::Leaked).collect();
    assert_eq!(leaked.len(), 1);
    assert_eq!(leaked[0].current_pointer_identifier.as_deref(), Some("Leaked Block"));
    assert_eq!(leaked[0].metadata, "Leaked Block");
    assert_ne!(Some(leaked[0].pointer), p_addr);
    let b = block_at(&heap, p_addr.unwrap());
    assert_eq!(b.block_state, HeapBlockState::Allocated);
    assert_eq!(b.current_pointer_identifier.as_deref(), Some("p"));
}

#[test]
fn pointer_to_pointer_assignment_leaks_and_aliases() {
    let (stack, heap, _) = run("int* p = new int; int* q = new int; p = q;").unwrap();
    let (p_kind, p_addr, _) = pointer_of(&stack, "p");
    let (_, q_addr, _) = pointer_of(&stack, "q");
    assert_eq!(p_kind, AllocationType::Heap);
    assert_eq!(p_addr, q_addr);
    let leaked: Vec<&HeapBlock> =
        heap.iter().filter(|b| b.block_state == HeapBlockState::Leaked).collect();
    assert_eq!(leaked.len(), 1);
    assert_ne!(Some(leaked[0].pointer), q_addr);
    assert_eq!(block_at(&heap, q_addr.unwrap()).block_state, HeapBlockState::Allocated);
}

#[test]
fn pointer_assignment_needs_matching_types() {
    assert_eq!(
        analyzer_message("int* p = new int; double* q = new double; p = q;"),
        "Cannot assign `q` to pointer `p` (incorrect type)"
    );
    assert_eq!(
        analyzer_message("int* p = new int; int x = 1; p = x;"),
        "Invalid use case of assignment operator for symbol `p`"
    );
}

#[test]
fn invalid_type_error_carries_position() {
    let statements = vec![mv_core::ast::Statement::VariableDeclarationWithoutAssignment {
        var_type: mv_core::token::TokenKind::Identifier,
        var_name: "x".to_string(),
        line: 3,
        var_ident_column: 7,
    }];
    match Analyzer::default().analyze_statements(statements, IndexMap::new()) {
        Err(Error::AnalyzerError(m, 3, 7)) => assert_eq!(m, "Invalid Type"),
        other => panic!("unexpected {:?}", other.err()),
    }
}

#[test]
fn null_dereference_is_reported() {
    let err = run("int* p = nullptr;\n*p = 1;").unwrap_err();
    match err {
        Error::AnalyzerError(m, line, col) => {
            assert_eq!(m, "Cannot dereference null pointer `p`");
            assert_eq!(line, 2);
            assert_eq!(col, 2);
        }
        _ => panic!("analysis error expected"),
    }
}

fn analyzer_message(src: &str) -> String {
    match run(src).unwrap_err() {
        Error::AnalyzerError(m, _, _) => m,
        Error::ParserError(m, _, _) => panic!("parse error {}", m),
        Error::Msg(m) => panic!("plain error {}", m),
    }
}

#[test]
fn delete_refusals_are_distinct() {
    assert_eq!(analyzer_message("int x = 1; int* p = &x; delete p;"), "Cannot delete stack pointer `p`");
    assert_eq!(analyzer_message("int* p = nullptr; delete p;"), "Cannot delete null pointer `p`");
    assert_eq!(
        analyzer_message("int* p = new int; delete p; delete p;"),
        "Cannot delete dangling pointer `p`"
    );
    assert_eq!(analyzer_message("delete p;"), "Pointer `p` not found!");
}

#[test]
fn variable_rules() {
    assert_eq!(analyzer_message("int x = 1; int x = 2;"), "Variable `x` already declared!");
    assert_eq!(analyzer_message("int x = true;"), "Cannot assign `true` to variable `x` (incorrect type)");
    assert_eq!(analyzer_message("int y; int x = y;"), "Variable `y` not initialized!");
    assert_eq!(analyzer_message("int x = y;"), "Variable `y` not found!");
    assert_eq!(analyzer_message("x = 3;"), "Variable `x` not found!");
    let (stack, _, _) = run("int x = 1; int y = x; y = 9; double d = 2.5; char c = 'a'; bool b = false;").unwrap();
    let values: Vec<Option<String>> = stack
        .iter()
        .map(|s| match s {
            Symbol::Variable { value, .. } => value.clone(),
            _ => None,
        })
        .collect();
    assert_eq!(
        values,
        vec![
            Some("1".to_string()),
            Some("9".to_string()),
            Some("2.5".to_string()),
            Some("a".to_string()),
            Some("false".to_string())
        ]
    );
}

#[test]
fn stack_pointer_write_reaches_variable() {
    let (stack, heap, _) = run("int x = 5; int* p = &x; *p = 6;").unwrap();
    match &stack[0] {
        Symbol::Variable { value, .. } => assert_eq!(value.as_deref(), Some("6")),
        _ => panic!("x is a variable"),
    }
    assert!(heap.iter().all(|b| b.block_state == HeapBlockState::Unallocated));
}

#[test]
fn heap_write_updates_block() {
    let (stack, heap, _) = run("int* p = new int; *p = 7;").unwrap();
    let (_, addr, shown) = pointer_of(&stack, "p");
    assert_eq!(shown.as_deref(), Some("7"));
    let b = block_at(&heap, addr.unwrap());
    assert_eq!(b.metadata, "7");
    assert_eq!(b.size, 4);
    assert_eq!(b.block_state, HeapBlockState::Allocated);
}

#[test]
fn heap_declaration_shows_garbage_value() {
    let (stack, _, hints) = run("double* d = new double;").unwrap();
    let (kind, addr, shown) = pointer_of(&stack, "d");
    assert_eq!(kind, AllocationType::Heap);
    assert_eq!(shown.as_deref(), Some("0.0"));
    assert_eq!(hints.get("d").copied(), addr);
}

#[test]
fn hints_keep_addresses_stable() {
    let mut parser = Parser::new("int* p = new int;");
    let statements = parser.parse().unwrap();
    let (_, _, hints) = Analyzer::default().analyze_statements(statements, IndexMap::new()).unwrap();
    let first = hints.get("p").copied().unwrap();
    for _ in 0..5 {
        let mut parser = Parser::new("int* p = new int;");
        let statements = parser.parse().unwrap();
        let (stack, _, again) =
            Analyzer::default().analyze_statements(statements, hints.clone()).unwrap();
        assert_eq!(pointer_of(&stack, "p").1, Some(first));
        assert_eq!(again.get("p").copied(), Some(first));
    }
}

#[test]
fn hints_of_undeclared_names_are_dropped() {
    let mut start = IndexMap::new();
    start.insert("gone".to_string(), 3usize);
    let mut parser = Parser::new("int x = 1;");
    let statements = parser.parse().unwrap();
    let (_, _, hints) = Analyzer::default().analyze_statements(statements, start).unwrap();
    assert!(hints.is_empty());
}

#[test]
fn heap_grows_when_full() {
    let mut src = String::new();
    for i in 0..10 {
        src.push_str(&format!("double* p{} = new double; ", i));
    }
    let (stack, heap, _) = run(&src).unwrap();
    assert_eq!(stack.len(), 10);
    let allocated = heap.iter().filter(|b| b.block_state == HeapBlockState::Allocated).count();
    assert_eq!(allocated, 10);
    let total: usize = heap.iter().map(|b| b.size).sum();
    assert!(total > 20);
}

#[test]
fn pointer_type_must_match_new() {
    assert_eq!(
        analyzer_message("int* p = nullptr; p = new double;"),
        "Cannot assign `double` to pointer `p` (incorrect type)"
    );
}

#[test]
fn deref_through_identifier() {
    let (stack, _, _) = run("int* p = new int; int y = 3; *p = y;").unwrap();
    assert_eq!(pointer_of(&stack, "p").2.as_deref(), Some("3"));
    assert_eq!(
        analyzer_message("int* p = new int; bool y = true; *p = y;"),
        "Cannot assign `true` to pointer `p` (incorrect type)"
    );
}

#[test]
fn double_free_through_an_alias_is_reported() {
    assert_eq!(
        analyzer_message("int* p = new int; int* q = nullptr; q = p; delete p; delete q;"),
        "Heap block of `q` is not allocated"
    );
}

#[test]
fn pointer_statements_on_a_variable_are_errors() {
    assert_eq!(analyzer_message("int x = 1; delete x;"), "Symbol `x` is not a pointer!");
    assert_eq!(analyzer_message("int x = 1; x = nullptr;"), "Symbol `x` is not a pointer!");
    assert_eq!(analyzer_message("int x = 1; x = new int;"), "Symbol `x` is not a pointer!");
    assert_eq!(analyzer_message("int x = 1; *x = 2;"), "Symbol `x` is not a pointer!");
}

#[test]
fn write_through_pointer_needs_a_plain_value() {
    let mut statements = Parser::new("int x = 1; int* p = &x;").parse().unwrap();
    statements.push(mv_core::ast::Statement::Deref {
        pointer_name: "p".to_string(),
        new_value: Box::new(mv_core::ast::Expr::AddressOf(Box::new(mv_core::ast::Expr::Ident(
            "x".to_string(),
        )))),
        line: 2,
        pointer_ident_column: 2,
        new_value_column: 6,
    });
    match Analyzer::default().analyze_statements(statements, IndexMap::new()) {
        Err(Error::AnalyzerError(m, 2, 6)) => {
            assert_eq!(m, "Expected a identifier or literal but found `&x`")
        }
        other => panic!("unexpected {:?}", other.err()),
    }
}

#[test]
fn heap_declaration_of_each_type() {
    let (stack, _, _) =
        run("bool* b = new bool; char* c = new char; float* f = new float; double* d = new double; int* i = new int;")
            .unwrap();
    assert_eq!(pointer_of(&stack, "b").0, AllocationType::Heap);
    assert_eq!(pointer_of(&stack, "b").2.as_deref(), Some("false"));
    assert_eq!(pointer_of(&stack, "c").2.as_deref(), Some("'\\0'"));
    assert_eq!(pointer_of(&stack, "i").2.as_deref(), Some("0"));
}
