//! The statement interpreter: applies statements one at a time to a symbol
//! table and a simulated heap, checking each against the type rules and the
//! memory-safety rules of the language.
use crate::ast::{classify_spec, Expr, Lit, Statement};
use crate::error::Error;
use crate::heap::{
    allocate_error,    free_text, fits_somewhere, grown_size, hint_usable, leaked_text, updated_unit, with_metadata,
    without_dangling,
    blank_unit, blocks_view, snapshot, HeapAllocator, HeapBlock, HeapBlockState, HeapBlockView,
};
use crate::ordered::{
    has_key, hint_entries, hint_keys, hint_remove, lookup, new_symbol_table, symbol_contains,
    symbol_entries, symbol_get, symbol_insert, symbol_values, unique_keys, upsert,
};
use crate::symbol::{AllocationType, Symbol, SymbolView};
use crate::text::{concat2, concat3};
use crate::token::TokenKind;
use crate::types::{Type, type_of_token};
use indexmap::IndexMap;
use vstd::prelude::*;
use vstd::string::StringExecFns;

verus! {

/// The symbol table as plain values: each name with its symbol.
pub type Table = Seq<(Seq<char>, SymbolView)>;

/// Every pointer in the table records the size of the type it points to.
pub open spec fn sized_pointers(t: Table) -> bool {
    forall|i: int|
        0 <= i < t.len() ==> match #[trigger] t[i].1 {
            SymbolView::Pointer { ptype, value_size, .. } => value_size == ptype.size(),
            _ => true,
        }
}

/// `pre`, then `n`, then `post`.
pub open spec fn msg(pre: &str, n: Seq<char>, post: &str) -> Seq<char> {
    pre@ + n + post@
}

/// `r` is an analysis error with message `m` at `line` and `col`.
pub open spec fn is_analyzer_error<T>(r: Result<T, Error>, m: Seq<char>, line: usize, col: usize) -> bool {
    match r {
        Err(Error::AnalyzerError(s, l, c)) => s@ == m && l == line && c == col,
        _ => false,
    }
}

/// The text that assigning `value` to the variable `var_name` of type
/// `vtype` stores, or the message of the error it gives: a literal of the
/// right kind gives its text; a name gives the value of the initialised
/// variable of that name.
pub open spec fn assigned_text(value: Expr, var_name: Seq<char>, vtype: Type, t: Table) -> Result<
    Seq<char>,
    Seq<char>,
> {
    match value {
        Expr::Literal(lit) => if vtype.accepts(lit.kind()) {
            Ok(lit.text())
        } else {
            Err(msg("Cannot assign `", lit.text(), "` to variable `") + var_name + "` (incorrect type)"@)
        },
        Expr::Ident(id) => match lookup(t, id@) {
            None => Err(msg("Variable `", id@, "` not found!")),
            Some(SymbolView::Variable { value: Some(v), .. }) => Ok(v),
            Some(SymbolView::Variable { value: None, .. }) => Err(
                msg("Variable `", id@, "` not initialized!"),
            ),
            Some(_) => Err("Can only assign variables to variables!"@),
        },
        e => Err(msg("Expected a identifier or literal but found `", e.text(), "`")),
    }
}

/// What a pointer set to `value` points at, or the message of the error it
/// gives: a literal, or the variable of that name.
pub open spec fn pointee(value: Expr, t: Table) -> Result<SymbolView, Seq<char>> {
    match value {
        Expr::Literal(lit) => Ok(SymbolView::Literal { value: lit.text() }),
        Expr::Ident(id) => match lookup(t, id@) {
            None => Err(msg("Variable `", id@, "` not found!")),
            Some(s) => if s is Variable {
                Ok(s)
            } else {
                Err("Pointers can only point to variables or literals!"@)
            },
        },
        e => Err(msg("Expected a identifier or literal but found `", e.text(), "`")),
    }
}

/// The error `e`, reported at the statement's `line` and `col`.
fn with_position(e: Error, line: usize, col: usize) -> (r: Error)
    ensures
        is_analyzer_error(Err::<(), Error>(r), e.message_view(), line, col),
{
    let m = e.message().clone();
    Error::AnalyzerError(m, line, col)
}

/// Checks that `value` may be assigned to the variable `var_name` of type
/// `var_type`, and gives the text to store.
pub fn validate_variable_assignment(
    value: Box<Expr>,
    var_name: &str,
    var_type: &Type,
    symbols: &IndexMap<String, Symbol>,
    line: usize,
    var_ident_column: usize,
) -> (r: Result<Option<String>, Error>)
    ensures
        match assigned_text(*value, var_name@, *var_type, symbol_entries(*symbols)) {
            Ok(t) => r matches Ok(Some(s)) && s@ == t,
            Err(m) => is_analyzer_error(r, m, line, var_ident_column),
        },
{
    match *value {
        Expr::Literal(lit) => {
            if !var_type.is_correct_literal(&lit) {
                let l = lit.to_string();
                let head = concat3("Cannot assign `", l.as_str(), "` to variable `");
                return Err(
                    Error::AnalyzerError(
                        concat3(head.as_str(), var_name, "` (incorrect type)"),
                        line,
                        var_ident_column,
                    ),
                );
            }
            Ok(Some(lit.to_string()))
        },
        Expr::Ident(ident_name) => {
            match symbol_get(symbols, &ident_name) {
                Some(symbol) => match symbol {
                    Symbol::Variable { value, .. } => match value {
                        Some(v) => Ok(Some(v.clone())),
                        None => Err(
                            Error::AnalyzerError(
                                concat3("Variable `", ident_name.as_str(), "` not initialized!"),
                                line,
                                var_ident_column,
                            ),
                        ),
                    },
                    _ => Err(
                        Error::AnalyzerError(
                            String::from_str("Can only assign variables to variables!"),
                            line,
                            var_ident_column,
                        ),
                    ),
                },
                None => Err(
                    Error::AnalyzerError(
                        concat3("Variable `", ident_name.as_str(), "` not found!"),
                        line,
                        var_ident_column,
                    ),
                ),
            }
        },
        expr => {
            let e = expr.to_string();
            Err(
                Error::AnalyzerError(
                    concat3("Expected a identifier or literal but found `", e.as_str(), "`"),
                    line,
                    var_ident_column,
                ),
            )
        },
    }
}

/// Checks that a pointer may be set to `value`, and gives what it then
/// points at.
pub fn validate_pointer_assignment(
    value: Box<Expr>,
    symbols: &IndexMap<String, Symbol>,
    line: usize,
    pointer_ident_column: usize,
) -> (r: Result<Option<Box<Symbol>>, Error>)
    ensures
        match pointee(*value, symbol_entries(*symbols)) {
            Ok(p) => r matches Ok(Some(b)) && (*b)@ == p,
            Err(m) => is_analyzer_error(r, m, line, pointer_ident_column),
        },
{
    match *value {
        Expr::Literal(lit) => Ok(Some(Box::new(Symbol::Literal { value: lit.to_string() }))),
        Expr::Ident(ident_name) => {
            match symbol_get(symbols, &ident_name) {
                Some(symbol) => {
                    if let Symbol::Variable { .. } = symbol {
                        Ok(Some(Box::new(symbol.duplicate())))
                    } else {
                        Err(
                            Error::AnalyzerError(
                                String::from_str(
                                    "Pointers can only point to variables or literals!",
                                ),
                                line,
                                pointer_ident_column,
                            ),
                        )
                    }
                },
                None => Err(
                    Error::AnalyzerError(
                        concat3("Variable `", ident_name.as_str(), "` not found!"),
                        line,
                        pointer_ident_column,
                    ),
                ),
            }
        },
        expr => {
            let e = expr.to_string();
            Err(
                Error::AnalyzerError(
                    concat3("Expected a identifier or literal but found `", e.as_str(), "`"),
                    line,
                    pointer_ident_column,
                ),
            )
        },
    }
}

/// A variable of type `vt` named `name` holding `value`.
pub open spec fn variable_view(vt: Type, name: Seq<char>, value: Option<Seq<char>>) -> SymbolView {
    SymbolView::Variable { vtype: vt, name, value, size: vt.size() as usize }
}

/// A pointer to `pt` named `name`.
pub open spec fn pointer_view(
    pt: Type,
    name: Seq<char>,
    value: Option<Box<SymbolView>>,
    heap_pointer: Option<usize>,
    allocation_type: AllocationType,
) -> SymbolView {
    SymbolView::Pointer {
        ptype: pt,
        name,
        value,
        heap_pointer,
        allocation_type,
        pointer_size: 4,
        value_size: pt.size() as usize,
    }
}

/// `int x = v;` and the like: the type is read first, then the value is
/// checked, then the name must be new.
pub open spec fn declare_variable_outcome(
    var_type: TokenKind,
    var_name: Seq<char>,
    value: Expr,
    line: usize,
    col: usize,
    t0: Table,
    t1: Table,
    r: Result<(), Error>,
) -> bool {
    match type_of_token(var_type) {
        None => is_analyzer_error(r, "Invalid Type"@, line, col) && t1 == t0,
        Some(vt) => match assigned_text(value, var_name, vt, t0) {
            Err(m) => is_analyzer_error(r, m, line, col) && t1 == t0,
            Ok(txt) => if has_key(t0, var_name) {
                is_analyzer_error(r, msg("Variable `", var_name, "` already declared!"), line, col)
                    && t1 == t0
            } else {
                r is Ok && t1 == t0.push((var_name, variable_view(vt, var_name, Some(txt))))
            },
        },
    }
}

/// `int x;`: the name must be new; the variable starts uninitialised.
pub open spec fn declare_uninitialised_outcome(
    var_type: TokenKind,
    var_name: Seq<char>,
    line: usize,
    col: usize,
    t0: Table,
    t1: Table,
    r: Result<(), Error>,
) -> bool {
    if has_key(t0, var_name) {
        is_analyzer_error(r, msg("Variable `", var_name, "` already declared!"), line, col) && t1
            == t0
    } else {
        match type_of_token(var_type) {
            None => is_analyzer_error(r, "Invalid Type"@, line, col) && t1 == t0,
            Some(vt) => r is Ok && t1 == t0.push((var_name, variable_view(vt, var_name, None))),
        }
    }
}

/// `x = v;`: `x` must be a variable, and `v` must fit its type.
pub open spec fn assign_variable_outcome(
    var_name: Seq<char>,
    new_value: Expr,
    line: usize,
    col: usize,
    assignment_column: usize,
    t0: Table,
    t1: Table,
    a0: HeapAllocator,
    a1: HeapAllocator,
    r: Result<(), Error>,
) -> bool {
    match lookup(t0, var_name) {
        None => is_analyzer_error(r, msg("Variable `", var_name, "` not found!"), line, col) && t1
            == t0 && a1 == a0,
        Some(SymbolView::Variable { vtype, name, value, size }) => match assigned_text(
            new_value,
            var_name,
            vtype,
            t0,
        ) {
            Err(m) => is_analyzer_error(r, m, line, col) && t1 == t0 && a1 == a0,
            Ok(txt) => r is Ok && a1 == a0 && t1 == upsert(
                t0,
                var_name,
                SymbolView::Variable { vtype, name, value: Some(txt), size },
            ),
        },
        Some(SymbolView::Pointer { .. }) => copy_pointer_outcome(
            var_name,
            new_value,
            line,
            col,
            assignment_column,
            t0,
            t1,
            a0,
            a1,
            r,
        ),
        Some(_) => is_analyzer_error(
            r,
            msg("Invalid use case of assignment operator for symbol `", var_name, "`"),
            line,
            assignment_column,
        ) && t1 == t0 && a1 == a0,
    }
}

/// `p = q;` for two pointers: `p` must be of `q`'s type; `p` gives up its
/// target (a live block is leaked) and then points where `q` points. Any
/// other value on the right is an invalid use of `=`.
pub open spec fn copy_pointer_outcome(
    var_name: Seq<char>,
    new_value: Expr,
    line: usize,
    col: usize,
    assignment_column: usize,
    t0: Table,
    t1: Table,
    a0: HeapAllocator,
    a1: HeapAllocator,
    r: Result<(), Error>,
) -> bool {
    let invalid = is_analyzer_error(
        r,
        msg("Invalid use case of assignment operator for symbol `", var_name, "`"),
        line,
        assignment_column,
    ) && t1 == t0 && a1 == a0;
    match lookup(t0, var_name) {
        Some(
            SymbolView::Pointer {
                ptype,
                name,
                value,
                heap_pointer,
                allocation_type,
                pointer_size,
                value_size,
            },
        ) => match new_value {
            Expr::Ident(id) => match lookup(t0, id@) {
                Some(
                    SymbolView::Pointer {
                        ptype: qt,
                        value: qv,
                        heap_pointer: qh,
                        allocation_type: qa,
                        ..
                    },
                ) => if id@ == var_name {
                    r is Ok && t1 == t0 && a1 == a0
                } else if qt != ptype {
                    is_analyzer_error(
                        r,
                        msg("Cannot assign `", id@, "` to pointer `") + var_name
                            + "` (incorrect type)"@,
                        line,
                        col,
                    ) && t1 == t0 && a1 == a0
                } else if release_ok(allocation_type, heap_pointer, value_size, a0) {
                    &&& r is Ok
                    &&& released(var_name, allocation_type, heap_pointer, value_size, a0, a1)
                    &&& t1 == upsert(
                        t0,
                        var_name,
                        SymbolView::Pointer {
                            ptype,
                            name,
                            value: qv,
                            heap_pointer: qh,
                            allocation_type: qa,
                            pointer_size,
                            value_size,
                        },
                    )
                } else {
                    release_error(r, var_name, allocation_type, line, col) && t1 == t0 && a1 == a0
                },
                _ => invalid,
            },
            _ => invalid,
        },
        _ => true,
    }
}

/// `int* p = &x;`: the name must be new and the target a literal or a
/// variable.
pub open spec fn declare_pointer_outcome(
    base_type: TokenKind,
    pointer_name: Seq<char>,
    value: Expr,
    line: usize,
    col: usize,
    t0: Table,
    t1: Table,
    r: Result<(), Error>,
) -> bool {
    if has_key(t0, pointer_name) {
        is_analyzer_error(r, msg("Pointer `", pointer_name, "` already declared!"), line, col) && t1
            == t0
    } else {
        match pointee(value, t0) {
            Err(m) => is_analyzer_error(r, m, line, col) && t1 == t0,
            Ok(p) => match type_of_token(base_type) {
                None => is_analyzer_error(r, "Invalid Type"@, line, col) && t1 == t0,
                Some(pt) => r is Ok && t1 == t0.push(
                    (
                        pointer_name,
                        pointer_view(
                            pt,
                            pointer_name,
                            Some(Box::new(p)),
                            None,
                            AllocationType::Stack,
                        ),
                    ),
                ),
            },
        }
    }
}

/// `int* p = nullptr;`: the name must be new.
pub open spec fn declare_null_outcome(
    base_type: TokenKind,
    pointer_name: Seq<char>,
    line: usize,
    col: usize,
    t0: Table,
    t1: Table,
    r: Result<(), Error>,
) -> bool {
    if has_key(t0, pointer_name) {
        is_analyzer_error(r, msg("Pointer `", pointer_name, "` already declared!"), line, col) && t1
            == t0
    } else {
        match type_of_token(base_type) {
            None => is_analyzer_error(r, "Invalid Type"@, line, col) && t1 == t0,
            Some(pt) => r is Ok && t1 == t0.push(
                (pointer_name, pointer_view(pt, pointer_name, None, None, AllocationType::Null)),
            ),
        }
    }
}

/// The analyzer. It holds no state: each analysis starts from an empty
/// symbol table and a fresh heap.
pub struct Analyzer {}

impl Default for Analyzer {
    fn default() -> (r: Self)
        ensures
            r == (Analyzer {}),
    {
        Analyzer {}
    }
}

impl Analyzer {
    pub(crate) fn declare_variable(
        &self,
        var_type: TokenKind,
        var_name: String,
        value: Box<Expr>,
        line: usize,
        var_ident_column: usize,
        stack_symbols: &mut IndexMap<String, Symbol>,
    ) -> (r: Result<(), Error>)
        requires
            unique_keys(symbol_entries(*old(stack_symbols))),
            sized_pointers(symbol_entries(*old(stack_symbols))),
        ensures
            unique_keys(symbol_entries(*final(stack_symbols))),
            sized_pointers(symbol_entries(*final(stack_symbols))),
            declare_variable_outcome(
                var_type,
                var_name@,
                *value,
                line,
                var_ident_column,
                symbol_entries(*old(stack_symbols)),
                symbol_entries(*final(stack_symbols)),
                r,
            ),
    {
        let vtype = match Type::from_token(var_type) {
            Ok(t) => t,
            Err(e) => {
                return Err(with_position(e, line, var_ident_column));
            },
        };
        let value = match validate_variable_assignment(
            value,
            var_name.as_str(),
            &vtype,
            stack_symbols,
            line,
            var_ident_column,
        ) {
            Ok(v) => v,
            Err(e) => {
                return Err(e);
            },
        };
        if symbol_contains(stack_symbols, &var_name) {
            return Err(
                Error::AnalyzerError(
                    concat3("Variable `", var_name.as_str(), "` already declared!"),
                    line,
                    var_ident_column,
                ),
            );
        }
        let name = var_name.clone();
        symbol_insert(
            stack_symbols,
            var_name,
            Symbol::Variable { vtype, name, value, size: vtype.get_size() },
        );
        Ok(())
    }

    pub(crate) fn declare_uninitialised(
        &self,
        var_type: TokenKind,
        var_name: String,
        line: usize,
        var_ident_column: usize,
        stack_symbols: &mut IndexMap<String, Symbol>,
    ) -> (r: Result<(), Error>)
        requires
            unique_keys(symbol_entries(*old(stack_symbols))),
            sized_pointers(symbol_entries(*old(stack_symbols))),
        ensures
            unique_keys(symbol_entries(*final(stack_symbols))),
            sized_pointers(symbol_entries(*final(stack_symbols))),
            declare_uninitialised_outcome(
                var_type,
                var_name@,
                line,
                var_ident_column,
                symbol_entries(*old(stack_symbols)),
                symbol_entries(*final(stack_symbols)),
                r,
            ),
    {
        if symbol_contains(stack_symbols, &var_name) {
            return Err(
                Error::AnalyzerError(
                    concat3("Variable `", var_name.as_str(), "` already declared!"),
                    line,
                    var_ident_column,
                ),
            );
        }
        let vtype = match Type::from_token(var_type) {
            Ok(t) => t,
            Err(e) => {
                return Err(with_position(e, line, var_ident_column));
            },
        };
        let name = var_name.clone();
        symbol_insert(
            stack_symbols,
            var_name,
            Symbol::Variable { vtype, name, value: None, size: vtype.get_size() },
        );
        Ok(())
    }

    pub(crate) fn assign_variable(
        &self,
        var_name: String,
        new_value: Box<Expr>,
        line: usize,
        var_ident_column: usize,
        assignment_column: usize,
        stack_symbols: &mut IndexMap<String, Symbol>,
        allocator: &mut HeapAllocator,
    ) -> (r: Result<(), Error>)
        requires
            unique_keys(symbol_entries(*old(stack_symbols))),
            sized_pointers(symbol_entries(*old(stack_symbols))),
            old(allocator).partitioned(),
        ensures
            unique_keys(symbol_entries(*final(stack_symbols))),
            sized_pointers(symbol_entries(*final(stack_symbols))),
            final(allocator).partitioned(),
            assign_variable_outcome(
                var_name@,
                *new_value,
                line,
                var_ident_column,
                assignment_column,
                symbol_entries(*old(stack_symbols)),
                symbol_entries(*final(stack_symbols)),
                *old(allocator),
                *final(allocator),
                r,
            ),
    {
        let is_pointer = match symbol_get(stack_symbols, &var_name) {
            Some(Symbol::Pointer { .. }) => true,
            _ => false,
        };
        if is_pointer {
            return self.copy_pointer(
                var_name,
                new_value,
                line,
                var_ident_column,
                assignment_column,
                stack_symbols,
                allocator,
            );
        }
        let (vtype, name, size) = match symbol_get(stack_symbols, &var_name) {
            Some(Symbol::Variable { vtype, name, size, .. }) => (*vtype, name.clone(), *size),
            Some(_) => {
                return Err(
                    Error::AnalyzerError(
                        concat3(
                            "Invalid use case of assignment operator for symbol `",
                            var_name.as_str(),
                            "`",
                        ),
                        line,
                        assignment_column,
                    ),
                );
            },
            None => {
                return Err(
                    Error::AnalyzerError(
                        concat3("Variable `", var_name.as_str(), "` not found!"),
                        line,
                        var_ident_column,
                    ),
                );
            },
        };
        let value = match validate_variable_assignment(
            new_value,
            var_name.as_str(),
            &vtype,
            stack_symbols,
            line,
            var_ident_column,
        ) {
            Ok(v) => v,
            Err(e) => {
                return Err(e);
            },
        };
        symbol_insert(stack_symbols, var_name, Symbol::Variable { vtype, name, value, size });
        Ok(())
    }

    pub(crate) fn declare_pointer(
        &self,
        base_type: TokenKind,
        pointer_name: String,
        value: Box<Expr>,
        line: usize,
        pointer_ident_column: usize,
        stack_symbols: &mut IndexMap<String, Symbol>,
    ) -> (r: Result<(), Error>)
        requires
            unique_keys(symbol_entries(*old(stack_symbols))),
            sized_pointers(symbol_entries(*old(stack_symbols))),
        ensures
            unique_keys(symbol_entries(*final(stack_symbols))),
            sized_pointers(symbol_entries(*final(stack_symbols))),
            declare_pointer_outcome(
                base_type,
                pointer_name@,
                *value,
                line,
                pointer_ident_column,
                symbol_entries(*old(stack_symbols)),
                symbol_entries(*final(stack_symbols)),
                r,
            ),
    {
        if symbol_contains(stack_symbols, &pointer_name) {
            return Err(
                Error::AnalyzerError(
                    concat3("Pointer `", pointer_name.as_str(), "` already declared!"),
                    line,
                    pointer_ident_column,
                ),
            );
        }
        let value = match validate_pointer_assignment(
            value,
            stack_symbols,
            line,
            pointer_ident_column,
        ) {
            Ok(v) => v,
            Err(e) => {
                return Err(e);
            },
        };
        let ptype = match Type::from_token(base_type) {
            Ok(t) => t,
            Err(e) => {
                return Err(with_position(e, line, pointer_ident_column));
            },
        };
        let name = pointer_name.clone();
        symbol_insert(
            stack_symbols,
            pointer_name,
            Symbol::Pointer {
                ptype,
                name,
                value,
                allocation_type: AllocationType::Stack,
                heap_pointer: None,
                pointer_size: 4,
                value_size: ptype.get_size(),
            },
        );
        Ok(())
    }

    pub(crate) fn declare_null(
        &self,
        base_type: TokenKind,
        pointer_name: String,
        line: usize,
        pointer_ident_column: usize,
        stack_symbols: &mut IndexMap<String, Symbol>,
    ) -> (r: Result<(), Error>)
        requires
            unique_keys(symbol_entries(*old(stack_symbols))),
            sized_pointers(symbol_entries(*old(stack_symbols))),
        ensures
            unique_keys(symbol_entries(*final(stack_symbols))),
            sized_pointers(symbol_entries(*final(stack_symbols))),
            declare_null_outcome(
                base_type,
                pointer_name@,
                line,
                pointer_ident_column,
                symbol_entries(*old(stack_symbols)),
                symbol_entries(*final(stack_symbols)),
                r,
            ),
    {
        if symbol_contains(stack_symbols, &pointer_name) {
            return Err(
                Error::AnalyzerError(
                    concat3("Pointer `", pointer_name.as_str(), "` already declared!"),
                    line,
                    pointer_ident_column,
                ),
            );
        }
        let ptype = match Type::from_token(base_type) {
            Ok(t) => t,
            Err(e) => {
                return Err(with_position(e, line, pointer_ident_column));
            },
        };
        let name = pointer_name.clone();
        symbol_insert(
            stack_symbols,
            pointer_name,
            Symbol::Pointer {
                ptype,
                name,
                value: None,
                allocation_type: AllocationType::Null,
                heap_pointer: None,
                pointer_size: 4,
                value_size: ptype.get_size(),
            },
        );
        Ok(())
    }
}

/// The record of a unit of a leaked block.
pub open spec fn leaked_unit(dangling: Option<Seq<Seq<char>>>, n: usize, a: usize) -> HeapBlockView {
    HeapBlockView {
        state: HeapBlockState::Leaked,
        owner: Some(leaked_text()),
        dangling,
        size: n,
        metadata: leaked_text(),
        pointer: a,
    }
}

/// Whether a pointer can give up what it points at: a live heap block must
/// still be allocated, and the block of a dangling pointer must lie in the
/// heap.
pub open spec fn release_ok(
    allocation_type: AllocationType,
    heap_pointer: Option<usize>,
    n: usize,
    a0: HeapAllocator,
) -> bool {
    match heap_pointer {
        None => true,
        Some(a) => if allocation_type != AllocationType::Dangling {
            a0.reserved(a as int, n as int)
        } else {
            a0.block_in_bounds(a as int)
        },
    }
}

/// What giving up the target does to the heap: a live block is leaked; the
/// block of a dangling pointer forgets the pointer's name.
pub open spec fn released(
    name: Seq<char>,
    allocation_type: AllocationType,
    heap_pointer: Option<usize>,
    n: usize,
    a0: HeapAllocator,
    a1: HeapAllocator,
) -> bool {
    &&& a1.partitioned()
    &&& a1.free_ranges() == a0.free_ranges()
    &&& a1.capacity() == a0.capacity()
    &&& a1.same_settings(&a0)
    &&& match heap_pointer {
        None => a1 == a0,
        Some(a) => if allocation_type != AllocationType::Dangling {
            forall|u: int|
                0 <= u < a1.capacity() ==> #[trigger] a1.units()[u] == if a <= u < a + n {
                    leaked_unit(a0.units()[a as int].dangling, n, a)
                } else {
                    a0.units()[u]
                }
        } else {
            forall|u: int|
                0 <= u < a1.capacity() ==> #[trigger] a1.units()[u] == updated_unit(
                    a0.units(),
                    a as int,
                    u,
                    without_dangling(a0.units()[u], name),
                )
        },
    }
}

/// The error given when the target cannot be given up.
pub open spec fn release_error(
    r: Result<(), Error>,
    name: Seq<char>,
    allocation_type: AllocationType,
    line: usize,
    col: usize,
) -> bool {
    if allocation_type != AllocationType::Dangling {
        is_analyzer_error(r, msg("Heap block of `", name, "` is not allocated"), line, col)
    } else {
        is_analyzer_error(
            r,
            "Invalid dangling pointers update operation: out of bounds"@,
            line,
            col,
        )
    }
}

/// Whether an allocation of `n` units succeeds on `a`: some free range is
/// wide enough, or the heap may grow by enough.
pub open spec fn can_allocate(a: HeapAllocator, n: nat) -> bool {
    fits_somewhere(a.free_ranges(), n) || (a.grows() && grown_size(
        a.capacity(),
        a.growth(),
        n,
        a.limit(),
    ) >= a.capacity() + n)
}

/// `[addr, addr + n)` is a block allocated to `name`, all of whose units were
/// free before (or new).
pub open spec fn owned_block(a0: HeapAllocator, a1: HeapAllocator, addr: usize, n: usize, name: Seq<char>) -> bool {
    &&& addr + n <= a1.capacity()
    &&& forall|u: int|
        addr <= u < addr + n ==> {
            &&& (#[trigger] a1.units()[u]).state == HeapBlockState::Allocated
            &&& a1.units()[u].owner == Some(name)
            &&& a1.units()[u].size == n
            &&& a1.units()[u].pointer == addr
            &&& (u >= a0.capacity() || a0.is_free(u))
        }
}

/// After `T* p = new T;`: `p` is the last symbol, a heap pointer at `addr`
/// showing `T`'s zero value; the block at `addr` is `p`'s; the hint for `p`
/// is kept where it could be used, and set to `addr` otherwise.
pub open spec fn heap_declared(
    pointer_name: Seq<char>,
    pt: Type,
    addr: usize,
    t0: Table,
    t1: Table,
    a0: HeapAllocator,
    a1: HeapAllocator,
    h0: Seq<(Seq<char>, usize)>,
    h1: Seq<(Seq<char>, usize)>,
) -> bool {
    &&& t1 == t0.push(
        (
            pointer_name,
            pointer_view(
                pt,
                pointer_name,
                Some(Box::new(SymbolView::Literal { value: pt.garbage_text() })),
                Some(addr),
                AllocationType::Heap,
            ),
        ),
    )
    &&& owned_block(a0, a1, addr, pt.size() as usize, pointer_name)
    &&& (hint_usable(h0, pointer_name, a0.free_ranges(), pt.size()) ==> lookup(
        h0,
        pointer_name,
    ) == Some(addr))
    &&& h1 == if hint_usable(h0, pointer_name, a0.free_ranges(), pt.size()) {
        h0
    } else {
        upsert(h0, pointer_name, addr)
    }
}

/// `int* p = new int;`: the name must be new; a block of the type's size is
/// allocated to it, at the remembered address when that is still free.
pub open spec fn declare_heap_outcome(
    base_type: TokenKind,
    pointer_name: Seq<char>,
    line: usize,
    col: usize,
    t0: Table,
    t1: Table,
    a0: HeapAllocator,
    a1: HeapAllocator,
    h0: Seq<(Seq<char>, usize)>,
    h1: Seq<(Seq<char>, usize)>,
    r: Result<(), Error>,
) -> bool {
    if has_key(t0, pointer_name) {
        is_analyzer_error(r, msg("Pointer `", pointer_name, "` already declared!"), line, col) && t1
            == t0 && a1 == a0 && h1 == h0
    } else {
        match type_of_token(base_type) {
            None => is_analyzer_error(r, "Invalid Type"@, line, col) && t1 == t0 && a1 == a0 && h1
                == h0,
            Some(pt) => {
                &&& (r is Ok <==> can_allocate(a0, pt.size()))
                &&& r is Err ==> is_analyzer_error(
                    r,
                    "Error: "@ + allocate_error(
                        a0.grows(),
                        a0.capacity(),
                        grown_size(a0.capacity(), a0.growth(), pt.size(), a0.limit()),
                        pt.size(),
                    ),
                    line,
                    col,
                ) && t1 == t0 && a1 == a0 && h1 == h0
                &&& r is Ok ==> exists|addr: usize|
                    #[trigger] heap_declared(pointer_name, pt, addr, t0, t1, a0, a1, h0, h1)
            },
        }
    }
}

/// `p = &x;`: `p` gives up its target and points at `x`.
pub open spec fn assign_pointer_outcome(
    pointer_name: Seq<char>,
    new_value: Expr,
    line: usize,
    col: usize,
    t0: Table,
    t1: Table,
    a0: HeapAllocator,
    a1: HeapAllocator,
    r: Result<(), Error>,
) -> bool {
    match pointee(new_value, t0) {
        Err(m) => is_analyzer_error(r, m, line, col) && t1 == t0 && a1 == a0,
        Ok(p) => match lookup(t0, pointer_name) {
            None => is_analyzer_error(r, msg("Pointer `", pointer_name, "` not found!"), line, col)
                && t1 == t0 && a1 == a0,
            Some(
                SymbolView::Pointer {
                    ptype,
                    name,
                    value,
                    heap_pointer,
                    allocation_type,
                    pointer_size,
                    value_size,
                },
            ) => if release_ok(allocation_type, heap_pointer, value_size, a0) {
                &&& r is Ok
                &&& released(pointer_name, allocation_type, heap_pointer, value_size, a0, a1)
                &&& t1 == upsert(
                    t0,
                    pointer_name,
                    SymbolView::Pointer {
                        ptype,
                        name,
                        value: Some(Box::new(p)),
                        heap_pointer: None,
                        allocation_type: AllocationType::Stack,
                        pointer_size,
                        value_size,
                    },
                )
            } else {
                release_error(r, pointer_name, allocation_type, line, col) && t1 == t0 && a1 == a0
            },
            Some(_) => is_analyzer_error(
                r,
                msg("Invalid use case of assignment operator for symbol `", pointer_name, "`"),
                line,
                col,
            ) && t1 == t0 && a1 == a0,
        },
    }
}

/// `p = nullptr;`: `p` gives up its target and points nowhere.
pub open spec fn assign_null_outcome(
    pointer_name: Seq<char>,
    line: usize,
    col: usize,
    t0: Table,
    t1: Table,
    a0: HeapAllocator,
    a1: HeapAllocator,
    r: Result<(), Error>,
) -> bool {
    match lookup(t0, pointer_name) {
        None => is_analyzer_error(r, msg("Pointer `", pointer_name, "` not found!"), line, col) && t1
            == t0 && a1 == a0,
        Some(
            SymbolView::Pointer {
                ptype,
                name,
                value,
                heap_pointer,
                allocation_type,
                pointer_size,
                value_size,
            },
        ) => if release_ok(allocation_type, heap_pointer, value_size, a0) {
            &&& r is Ok
            &&& released(pointer_name, allocation_type, heap_pointer, value_size, a0, a1)
            &&& t1 == upsert(
                t0,
                pointer_name,
                SymbolView::Pointer {
                    ptype,
                    name,
                    value: None,
                    heap_pointer: None,
                    allocation_type: AllocationType::Null,
                    pointer_size,
                    value_size,
                },
            )
        } else {
            release_error(r, pointer_name, allocation_type, line, col) && t1 == t0 && a1 == a0
        },
        Some(_) => is_analyzer_error(r, msg("Symbol `", pointer_name, "` is not a pointer!"), line, col) && t1 == t0 && a1
            == a0,
    }
}

/// `p = new int;`: the type must be the pointer's; `p` gives up its target
/// (a live block is leaked) and a new block is allocated to it.
pub open spec fn assign_heap_outcome(
    pointer_name: Seq<char>,
    new_type: TokenKind,
    line: usize,
    col: usize,
    new_type_column: usize,
    t0: Table,
    t1: Table,
    a0: HeapAllocator,
    a1: HeapAllocator,
    h0: Seq<(Seq<char>, usize)>,
    h1: Seq<(Seq<char>, usize)>,
    r: Result<(), Error>,
) -> bool {
    match lookup(t0, pointer_name) {
        None => is_analyzer_error(r, msg("Pointer `", pointer_name, "` not found!"), line, col) && t1
            == t0 && a1 == a0 && h1 == h0,
        Some(
            SymbolView::Pointer {
                ptype,
                name,
                value,
                heap_pointer,
                allocation_type,
                pointer_size,
                value_size,
            },
        ) => if type_of_token(new_type) != Some(ptype) {
            is_analyzer_error(
                r,
                msg("Cannot assign `", new_type.text(), "` to pointer `") + pointer_name
                    + "` (incorrect type)"@,
                line,
                new_type_column,
            ) && t1 == t0 && a1 == a0 && h1 == h0
        } else if !release_ok(allocation_type, heap_pointer, value_size, a0) {
            release_error(r, pointer_name, allocation_type, line, col) && t1 == t0 && a1 == a0 && h1
                == h0
        } else {
            &&& (r is Ok <==> can_allocate(a0, value_size as nat))
            &&& a1.partitioned()
            &&& (allocation_type != AllocationType::Dangling && heap_pointer is Some) ==> forall|u: int|
                heap_pointer->0 <= u < heap_pointer->0 + value_size ==> (#[trigger] a1.units()[u]).state
                    == HeapBlockState::Leaked
            &&& r is Err ==> is_analyzer_error(
                r,
                "Error: "@ + allocate_error(
                    a0.grows(),
                    a0.capacity(),
                    grown_size(a0.capacity(), a0.growth(), value_size as nat, a0.limit()),
                    value_size as nat,
                ),
                line,
                col,
            ) && t1 == t0 && h1 == h0
            &&& r is Ok ==> exists|addr: usize|
                {
                    &&& t1 == upsert(
                        t0,
                        pointer_name,
                        SymbolView::Pointer {
                            ptype,
                            name,
                            value: Some(Box::new(SymbolView::Literal { value: Seq::empty() })),
                            heap_pointer: Some(addr),
                            allocation_type: AllocationType::Heap,
                            pointer_size,
                            value_size,
                        },
                    )
                    &&& owned_block(a0, a1, addr, value_size, pointer_name)
                    &&& h1 == if hint_usable(h0, pointer_name, a0.free_ranges(), value_size as nat) {
                        h0
                    } else {
                        upsert(h0, pointer_name, addr)
                    }
                }
        },
        Some(_) => is_analyzer_error(r, msg("Symbol `", pointer_name, "` is not a pointer!"), line, col) && t1 == t0 && a1 == a0
            && h1 == h0,
    }
}

/// `delete p;`: only a pointer to a live heap block may be deleted; its
/// block is freed, keeps the pointer's name as a dangling reference, and the
/// pointer becomes dangling.
pub open spec fn delete_outcome(
    pointer_name: Seq<char>,
    line: usize,
    col: usize,
    t0: Table,
    t1: Table,
    a0: HeapAllocator,
    a1: HeapAllocator,
    r: Result<(), Error>,
) -> bool {
    match lookup(t0, pointer_name) {
        None => is_analyzer_error(r, msg("Pointer `", pointer_name, "` not found!"), line, col) && t1
            == t0 && a1 == a0,
        Some(
            SymbolView::Pointer {
                ptype,
                name,
                value,
                heap_pointer,
                allocation_type,
                pointer_size,
                value_size,
            },
        ) => {
            let dangling = SymbolView::Pointer {
                ptype,
                name,
                value,
                heap_pointer,
                allocation_type: AllocationType::Dangling,
                pointer_size,
                value_size,
            };
            if allocation_type == AllocationType::Stack {
                is_analyzer_error(r, msg("Cannot delete stack pointer `", pointer_name, "`"), line, col)
                    && t1 == t0 && a1 == a0
            } else if allocation_type == AllocationType::Null {
                is_analyzer_error(r, msg("Cannot delete null pointer `", pointer_name, "`"), line, col)
                    && t1 == t0 && a1 == a0
            } else if allocation_type == AllocationType::Dangling {
                is_analyzer_error(
                    r,
                    msg("Cannot delete dangling pointer `", pointer_name, "`"),
                    line,
                    col,
                ) && t1 == t0 && a1 == a0
            } else {
                match heap_pointer {
                    None => r is Ok && t1 == upsert(t0, pointer_name, dangling) && a1 == a0,
                    Some(a) => if !a0.reserved(a as int, value_size as int) {
                        is_analyzer_error(
                            r,
                            msg("Heap block of `", pointer_name, "` is not allocated"),
                            line,
                            col,
                        ) && t1 == t0 && a1 == a0
                    } else {
                        &&& r is Ok
                        &&& t1 == upsert(t0, pointer_name, dangling)
                        &&& a1.partitioned()
                        &&& a1.capacity() == a0.capacity()
                        &&& a1.free_ranges().contains((a, (a + value_size - 1) as usize))
                        &&& forall|u: int| #[trigger]
                            a1.is_free(u) <==> (a0.is_free(u) || (a <= u < a + value_size))
                        &&& forall|u: int|
                            0 <= u < a1.capacity() ==> #[trigger] a1.units()[u] == if a <= u < a
                                + value_size {
                                HeapBlockView {
                                    state: HeapBlockState::Free,
                                    owner: None,
                                    dangling: Some(
                                        match a0.units()[a as int].dangling {
                                            Some(v) => v.push(pointer_name),
                                            None => seq![pointer_name],
                                        },
                                    ),
                                    size: value_size,
                                    metadata: free_text(),
                                    pointer: a,
                                }
                            } else {
                                a0.units()[u]
                            }
                    },
                }
            }
        },
        Some(_) => is_analyzer_error(r, msg("Symbol `", pointer_name, "` is not a pointer!"), line, col) && t1 == t0 && a1
            == a0,
    }
}

impl Analyzer {
    /// Gives up what the pointer `name` points at: a live heap block is
    /// leaked, and the block of a dangling pointer forgets its name.
    fn release(
        &self,
        name: &String,
        allocation_type: AllocationType,
        heap_pointer: Option<usize>,
        value_size: usize,
        allocator: &mut HeapAllocator,
        line: usize,
        col: usize,
    ) -> (r: Result<(), Error>)
        requires
            old(allocator).partitioned(),
        ensures
            release_ok(allocation_type, heap_pointer, value_size, *old(allocator)) ==> r is Ok
                && released(
                name@,
                allocation_type,
                heap_pointer,
                value_size,
                *old(allocator),
                *final(allocator),
            ),
            !release_ok(allocation_type, heap_pointer, value_size, *old(allocator))
                ==> release_error(r, name@, allocation_type, line, col) && *final(allocator) == *old(
                allocator,
            ),
    {
        if let Some(hp) = heap_pointer {
            if allocation_type != AllocationType::Dangling {
                if !allocator.is_reserved(hp, value_size) {
                    return Err(
                        Error::AnalyzerError(
                            concat3("Heap block of `", name.as_str(), "` is not allocated"),
                            line,
                            col,
                        ),
                    );
                }
                allocator.leak(hp, value_size);
            } else {
                match allocator.remove_dangling_pointer(hp, name.clone()) {
                    Ok(()) => {},
                    Err(e) => {
                        return Err(with_position(e, line, col));
                    },
                }
            }
        }
        Ok(())
    }

    fn copy_pointer(
        &self,
        var_name: String,
        new_value: Box<Expr>,
        line: usize,
        col: usize,
        assignment_column: usize,
        stack_symbols: &mut IndexMap<String, Symbol>,
        allocator: &mut HeapAllocator,
    ) -> (r: Result<(), Error>)
        requires
            unique_keys(symbol_entries(*old(stack_symbols))),
            sized_pointers(symbol_entries(*old(stack_symbols))),
            old(allocator).partitioned(),
        ensures
            unique_keys(symbol_entries(*final(stack_symbols))),
            sized_pointers(symbol_entries(*final(stack_symbols))),
            final(allocator).partitioned(),
            copy_pointer_outcome(
                var_name@,
                *new_value,
                line,
                col,
                assignment_column,
                symbol_entries(*old(stack_symbols)),
                symbol_entries(*final(stack_symbols)),
                *old(allocator),
                *final(allocator),
                r,
            ),
    {
        let (ptype, name, heap_pointer, allocation_type, pointer_size, value_size) = match symbol_get(
            stack_symbols,
            &var_name,
        ) {
            Some(
                Symbol::Pointer {
                    ptype,
                    name,
                    heap_pointer,
                    allocation_type,
                    pointer_size,
                    value_size,
                    ..
                },
            ) => (*ptype, name.clone(), *heap_pointer, *allocation_type, *pointer_size, *value_size),
            _ => {
                return Ok(());
            },
        };
        let invalid = concat3(
            "Invalid use case of assignment operator for symbol `",
            var_name.as_str(),
            "`",
        );
        let id = match *new_value {
            Expr::Ident(id) => id,
            _ => {
                return Err(Error::AnalyzerError(invalid, line, assignment_column));
            },
        };
        let (qt, qv, qh, qa) = match symbol_get(stack_symbols, &id) {
            Some(Symbol::Pointer { ptype, value, heap_pointer, allocation_type, .. }) => {
                let v = match value {
                    Some(b) => Some(Box::new((**b).duplicate())),
                    None => None,
                };
                (*ptype, v, *heap_pointer, *allocation_type)
            },
            _ => {
                return Err(Error::AnalyzerError(invalid, line, assignment_column));
            },
        };
        proof {
            reveal_with_fuel(crate::symbol::symbol_view, 2);
        }
        if id == var_name {
            return Ok(());
        }
        if qt != ptype {
            let head = concat3("Cannot assign `", id.as_str(), "` to pointer `");
            return Err(
                Error::AnalyzerError(
                    concat3(head.as_str(), var_name.as_str(), "` (incorrect type)"),
                    line,
                    col,
                ),
            );
        }
        match self.release(&var_name, allocation_type, heap_pointer, value_size, allocator, line, col) {
            Ok(()) => {},
            Err(e) => {
                return Err(e);
            },
        }
        symbol_insert(
            stack_symbols,
            var_name,
            Symbol::Pointer {
                ptype,
                name,
                value: qv,
                heap_pointer: qh,
                allocation_type: qa,
                pointer_size,
                value_size,
            },
        );
        Ok(())
    }

    pub(crate) fn declare_heap(
        &self,
        base_type: TokenKind,
        pointer_name: String,
        line: usize,
        pointer_ident_column: usize,
        stack_symbols: &mut IndexMap<String, Symbol>,
        allocator: &mut HeapAllocator,
        starting_pointers: &mut IndexMap<String, usize>,
    ) -> (r: Result<(), Error>)
        requires
            unique_keys(symbol_entries(*old(stack_symbols))),
            sized_pointers(symbol_entries(*old(stack_symbols))),
            unique_keys(hint_entries(*old(starting_pointers))),
            old(allocator).partitioned(),
        ensures
            unique_keys(symbol_entries(*final(stack_symbols))),
            sized_pointers(symbol_entries(*final(stack_symbols))),
            unique_keys(hint_entries(*final(starting_pointers))),
            final(allocator).partitioned(),
            declare_heap_outcome(
                base_type,
                pointer_name@,
                line,
                pointer_ident_column,
                symbol_entries(*old(stack_symbols)),
                symbol_entries(*final(stack_symbols)),
                *old(allocator),
                *final(allocator),
                hint_entries(*old(starting_pointers)),
                hint_entries(*final(starting_pointers)),
                r,
            ),
    {
        if symbol_contains(stack_symbols, &pointer_name) {
            return Err(
                Error::AnalyzerError(
                    concat3("Pointer `", pointer_name.as_str(), "` already declared!"),
                    line,
                    pointer_ident_column,
                ),
            );
        }
        let ptype = match Type::from_token(base_type) {
            Ok(t) => t,
            Err(e) => {
                return Err(with_position(e, line, pointer_ident_column));
            },
        };
        let ghost t0 = symbol_entries(*stack_symbols);
        let ghost a0 = *allocator;
        let ghost h0 = hint_entries(*starting_pointers);
        let res = allocator.allocate_and_write(&pointer_name, ptype.get_size(), starting_pointers);
        let addr = match res {
            Ok(a) => a,
            Err(e) => {
                return Err(
                    Error::AnalyzerError(
                        concat2("Error: ", e.message().as_str()),
                        line,
                        pointer_ident_column,
                    ),
                );
            },
        };
        let name = pointer_name.clone();
        let garbage = ptype.get_garbage_value();
        symbol_insert(
            stack_symbols,
            pointer_name,
            Symbol::Pointer {
                ptype,
                name,
                value: Some(Box::new(Symbol::Literal { value: garbage })),
                heap_pointer: Some(addr),
                allocation_type: AllocationType::Heap,
                pointer_size: 4,
                value_size: ptype.get_size(),
            },
        );
        proof {
            reveal_with_fuel(crate::symbol::symbol_view, 2);
            let n = ptype.size() as usize;
            assert(owned_block(a0, *allocator, addr, n, pointer_name@)) by {
                assert forall|u: int| addr <= u < addr + n implies {
                    &&& (#[trigger] allocator.units()[u]).state == HeapBlockState::Allocated
                    &&& allocator.units()[u].owner == Some(pointer_name@)
                    &&& allocator.units()[u].size == n
                    &&& allocator.units()[u].pointer == addr
                    &&& (u >= a0.capacity() || a0.is_free(u))
                } by {
                }
            }
            assert(symbol_entries(*stack_symbols) == t0.push(
                (
                    pointer_name@,
                    pointer_view(
                        ptype,
                        pointer_name@,
                        Some(Box::new(SymbolView::Literal { value: ptype.garbage_text() })),
                        Some(addr),
                        AllocationType::Heap,
                    ),
                ),
            ));
            assert(hint_entries(*starting_pointers) == if hint_usable(
                h0,
                pointer_name@,
                a0.free_ranges(),
                ptype.size(),
            ) {
                h0
            } else {
                upsert(h0, pointer_name@, addr)
            });
            assert(heap_declared(
                pointer_name@,
                ptype,
                addr,
                t0,
                symbol_entries(*stack_symbols),
                a0,
                *allocator,
                h0,
                hint_entries(*starting_pointers),
            ));
        }
        Ok(())
    }

    pub(crate) fn assign_pointer(
        &self,
        pointer_name: String,
        new_value: Box<Expr>,
        line: usize,
        pointer_ident_column: usize,
        stack_symbols: &mut IndexMap<String, Symbol>,
        allocator: &mut HeapAllocator,
    ) -> (r: Result<(), Error>)
        requires
            unique_keys(symbol_entries(*old(stack_symbols))),
            sized_pointers(symbol_entries(*old(stack_symbols))),
            old(allocator).partitioned(),
        ensures
            unique_keys(symbol_entries(*final(stack_symbols))),
            sized_pointers(symbol_entries(*final(stack_symbols))),
            final(allocator).partitioned(),
            assign_pointer_outcome(
                pointer_name@,
                *new_value,
                line,
                pointer_ident_column,
                symbol_entries(*old(stack_symbols)),
                symbol_entries(*final(stack_symbols)),
                *old(allocator),
                *final(allocator),
                r,
            ),
    {
        let new_value = match validate_pointer_assignment(
            new_value,
            stack_symbols,
            line,
            pointer_ident_column,
        ) {
            Ok(v) => v,
            Err(e) => {
                return Err(e);
            },
        };
        let (ptype, name, heap_pointer, allocation_type, pointer_size, value_size) = match symbol_get(
            stack_symbols,
            &pointer_name,
        ) {
            Some(
                Symbol::Pointer {
                    ptype,
                    name,
                    heap_pointer,
                    allocation_type,
                    pointer_size,
                    value_size,
                    ..
                },
            ) => (*ptype, name.clone(), *heap_pointer, *allocation_type, *pointer_size, *value_size),
            Some(_) => {
                return Err(
                    Error::AnalyzerError(
                        concat3(
                            "Invalid use case of assignment operator for symbol `",
                            pointer_name.as_str(),
                            "`",
                        ),
                        line,
                        pointer_ident_column,
                    ),
                );
            },
            None => {
                return Err(
                    Error::AnalyzerError(
                        concat3("Pointer `", pointer_name.as_str(), "` not found!"),
                        line,
                        pointer_ident_column,
                    ),
                );
            },
        };
        match self.release(
            &pointer_name,
            allocation_type,
            heap_pointer,
            value_size,
            allocator,
            line,
            pointer_ident_column,
        ) {
            Ok(()) => {},
            Err(e) => {
                return Err(e);
            },
        }
        symbol_insert(
            stack_symbols,
            pointer_name,
            Symbol::Pointer {
                ptype,
                name,
                value: new_value,
                heap_pointer: None,
                allocation_type: AllocationType::Stack,
                pointer_size,
                value_size,
            },
        );
        Ok(())
    }

    pub(crate) fn assign_null(
        &self,
        pointer_name: String,
        line: usize,
        pointer_ident_column: usize,
        stack_symbols: &mut IndexMap<String, Symbol>,
        allocator: &mut HeapAllocator,
    ) -> (r: Result<(), Error>)
        requires
            unique_keys(symbol_entries(*old(stack_symbols))),
            sized_pointers(symbol_entries(*old(stack_symbols))),
            old(allocator).partitioned(),
        ensures
            unique_keys(symbol_entries(*final(stack_symbols))),
            sized_pointers(symbol_entries(*final(stack_symbols))),
            final(allocator).partitioned(),
            assign_null_outcome(
                pointer_name@,
                line,
                pointer_ident_column,
                symbol_entries(*old(stack_symbols)),
                symbol_entries(*final(stack_symbols)),
                *old(allocator),
                *final(allocator),
                r,
            ),
    {
        let (ptype, name, heap_pointer, allocation_type, pointer_size, value_size) = match symbol_get(
            stack_symbols,
            &pointer_name,
        ) {
            Some(
                Symbol::Pointer {
                    ptype,
                    name,
                    heap_pointer,
                    allocation_type,
                    pointer_size,
                    value_size,
                    ..
                },
            ) => (*ptype, name.clone(), *heap_pointer, *allocation_type, *pointer_size, *value_size),
            Some(_) => {
                return Err(
                    Error::AnalyzerError(
                        concat3("Symbol `", pointer_name.as_str(), "` is not a pointer!"),
                        line,
                        pointer_ident_column,
                    ),
                );
            },
            None => {
                return Err(
                    Error::AnalyzerError(
                        concat3("Pointer `", pointer_name.as_str(), "` not found!"),
                        line,
                        pointer_ident_column,
                    ),
                );
            },
        };
        match self.release(
            &pointer_name,
            allocation_type,
            heap_pointer,
            value_size,
            allocator,
            line,
            pointer_ident_column,
        ) {
            Ok(()) => {},
            Err(e) => {
                return Err(e);
            },
        }
        symbol_insert(
            stack_symbols,
            pointer_name,
            Symbol::Pointer {
                ptype,
                name,
                value: None,
                heap_pointer: None,
                allocation_type: AllocationType::Null,
                pointer_size,
                value_size,
            },
        );
        Ok(())
    }

    pub(crate) fn assign_heap(
        &self,
        pointer_name: String,
        new_type: TokenKind,
        line: usize,
        pointer_ident_column: usize,
        new_type_column: usize,
        stack_symbols: &mut IndexMap<String, Symbol>,
        allocator: &mut HeapAllocator,
        starting_pointers: &mut IndexMap<String, usize>,
    ) -> (r: Result<(), Error>)
        requires
            unique_keys(symbol_entries(*old(stack_symbols))),
            sized_pointers(symbol_entries(*old(stack_symbols))),
            unique_keys(hint_entries(*old(starting_pointers))),
            old(allocator).partitioned(),
        ensures
            unique_keys(symbol_entries(*final(stack_symbols))),
            sized_pointers(symbol_entries(*final(stack_symbols))),
            unique_keys(hint_entries(*final(starting_pointers))),
            final(allocator).partitioned(),
            assign_heap_outcome(
                pointer_name@,
                new_type,
                line,
                pointer_ident_column,
                new_type_column,
                symbol_entries(*old(stack_symbols)),
                symbol_entries(*final(stack_symbols)),
                *old(allocator),
                *final(allocator),
                hint_entries(*old(starting_pointers)),
                hint_entries(*final(starting_pointers)),
                r,
            ),
    {
        let (ptype, name, heap_pointer, allocation_type, pointer_size, value_size) = match symbol_get(
            stack_symbols,
            &pointer_name,
        ) {
            Some(
                Symbol::Pointer {
                    ptype,
                    name,
                    heap_pointer,
                    allocation_type,
                    pointer_size,
                    value_size,
                    ..
                },
            ) => (*ptype, name.clone(), *heap_pointer, *allocation_type, *pointer_size, *value_size),
            Some(_) => {
                return Err(
                    Error::AnalyzerError(
                        concat3("Symbol `", pointer_name.as_str(), "` is not a pointer!"),
                        line,
                        pointer_ident_column,
                    ),
                );
            },
            None => {
                return Err(
                    Error::AnalyzerError(
                        concat3("Pointer `", pointer_name.as_str(), "` not found!"),
                        line,
                        pointer_ident_column,
                    ),
                );
            },
        };
        if !ptype.is_type(new_type) {
            let t = new_type.to_string();
            let head = concat3("Cannot assign `", t.as_str(), "` to pointer `");
            return Err(
                Error::AnalyzerError(
                    concat3(head.as_str(), pointer_name.as_str(), "` (incorrect type)"),
                    line,
                    new_type_column,
                ),
            );
        }
        let ghost a0 = *allocator;
        match self.release(
            &pointer_name,
            allocation_type,
            heap_pointer,
            value_size,
            allocator,
            line,
            pointer_ident_column,
        ) {
            Ok(()) => {},
            Err(e) => {
                return Err(e);
            },
        }
        let ghost mid = *allocator;
        let ghost t0 = symbol_entries(*stack_symbols);
        let res = allocator.allocate_and_write(&pointer_name, value_size, starting_pointers);
        proof {
            if allocation_type != AllocationType::Dangling && heap_pointer is Some {
                let a = heap_pointer->0;
                assert forall|u: int| a <= u < a + value_size implies (
                #[trigger] allocator.units()[u]).state == HeapBlockState::Leaked by {
                    assert(mid.units()[u] == leaked_unit(a0.units()[a as int].dangling, value_size, a));
                    assert(!mid.is_free(u));
                    if let Ok(b) = res {
                        if b <= u < b + value_size {
                            assert(u >= mid.capacity() || mid.is_free(u));
                        }
                    }
                }
            }
        }
        let addr = match res {
            Ok(a) => a,
            Err(e) => {
                return Err(
                    Error::AnalyzerError(
                        concat2("Error: ", e.message().as_str()),
                        line,
                        pointer_ident_column,
                    ),
                );
            },
        };
        symbol_insert(
            stack_symbols,
            pointer_name,
            Symbol::Pointer {
                ptype,
                name,
                value: Some(Box::new(Symbol::Literal { value: String::new() })),
                heap_pointer: Some(addr),
                allocation_type: AllocationType::Heap,
                pointer_size,
                value_size,
            },
        );
        proof {
            reveal_with_fuel(crate::symbol::symbol_view, 2);
            assert(symbol_entries(*stack_symbols) == upsert(
                t0,
                pointer_name@,
                SymbolView::Pointer {
                    ptype,
                    name: name@,
                    value: Some(Box::new(SymbolView::Literal { value: Seq::empty() })),
                    heap_pointer: Some(addr),
                    allocation_type: AllocationType::Heap,
                    pointer_size,
                    value_size,
                },
            ));
            assert(owned_block(a0, *allocator, addr, value_size, pointer_name@)) by {
                assert forall|u: int| addr <= u < addr + value_size implies {
                    &&& (#[trigger] allocator.units()[u]).state == HeapBlockState::Allocated
                    &&& allocator.units()[u].owner == Some(pointer_name@)
                    &&& allocator.units()[u].size == value_size
                    &&& allocator.units()[u].pointer == addr
                    &&& (u >= a0.capacity() || a0.is_free(u))
                } by {
                    assert(u >= mid.capacity() || mid.is_free(u));
                    if u < mid.capacity() {
                        assert(mid.is_free(u) == a0.is_free(u));
                    }
                }
            }
        }
        Ok(())
    }

    pub(crate) fn delete(
        &self,
        pointer_name: String,
        line: usize,
        pointer_ident_column: usize,
        stack_symbols: &mut IndexMap<String, Symbol>,
        allocator: &mut HeapAllocator,
    ) -> (r: Result<(), Error>)
        requires
            unique_keys(symbol_entries(*old(stack_symbols))),
            sized_pointers(symbol_entries(*old(stack_symbols))),
            old(allocator).partitioned(),
        ensures
            unique_keys(symbol_entries(*final(stack_symbols))),
            sized_pointers(symbol_entries(*final(stack_symbols))),
            final(allocator).partitioned(),
            delete_outcome(
                pointer_name@,
                line,
                pointer_ident_column,
                symbol_entries(*old(stack_symbols)),
                symbol_entries(*final(stack_symbols)),
                *old(allocator),
                *final(allocator),
                r,
            ),
    {
        let (ptype, name, value, heap_pointer, allocation_type, pointer_size, value_size) =
            match symbol_get(stack_symbols, &pointer_name) {
            Some(
                Symbol::Pointer {
                    ptype,
                    name,
                    value,
                    heap_pointer,
                    allocation_type,
                    pointer_size,
                    value_size,
                },
            ) => {
                let v = match value {
                    Some(b) => Some(Box::new((**b).duplicate())),
                    None => None,
                };
                (*ptype, name.clone(), v, *heap_pointer, *allocation_type, *pointer_size, *value_size)
            },
            Some(_) => {
                return Err(
                    Error::AnalyzerError(
                        concat3("Symbol `", pointer_name.as_str(), "` is not a pointer!"),
                        line,
                        pointer_ident_column,
                    ),
                );
            },
            None => {
                return Err(
                    Error::AnalyzerError(
                        concat3("Pointer `", pointer_name.as_str(), "` not found!"),
                        line,
                        pointer_ident_column,
                    ),
                );
            },
        };
        if allocation_type == AllocationType::Stack {
            return Err(
                Error::AnalyzerError(
                    concat3("Cannot delete stack pointer `", pointer_name.as_str(), "`"),
                    line,
                    pointer_ident_column,
                ),
            );
        }
        if allocation_type == AllocationType::Null {
            return Err(
                Error::AnalyzerError(
                    concat3("Cannot delete null pointer `", pointer_name.as_str(), "`"),
                    line,
                    pointer_ident_column,
                ),
            );
        }
        if allocation_type == AllocationType::Dangling {
            return Err(
                Error::AnalyzerError(
                    concat3("Cannot delete dangling pointer `", pointer_name.as_str(), "`"),
                    line,
                    pointer_ident_column,
                ),
            );
        }
        if let Some(hp) = heap_pointer {
            if !allocator.is_reserved(hp, value_size) {
                return Err(
                    Error::AnalyzerError(
                        concat3("Heap block of `", pointer_name.as_str(), "` is not allocated"),
                        line,
                        pointer_ident_column,
                    ),
                );
            }
            allocator.free(hp, value_size);
            let ins = allocator.insert_dangling_pointer(hp, pointer_name.clone());
            proof {
                assert(ins is Ok);
            }
        }
        symbol_insert(
            stack_symbols,
            pointer_name,
            Symbol::Pointer {
                ptype,
                name,
                value,
                heap_pointer,
                allocation_type: AllocationType::Dangling,
                pointer_size,
                value_size,
            },
        );
        Ok(())
    }
}

/// What `*p = v;` writes through a pointer to `ptype` named `pname`, or
/// `Err(m)` for an analysis error with message `m`: among them a stored
/// value that reads as no literal, and a value that is neither a literal
/// nor a name.
pub open spec fn deref_text(new_value: Expr, ptype: Type, pname: Seq<char>, t: Table) -> Result<
    Seq<char>,
    Seq<char>,
> {
    match new_value {
        Expr::Ident(id) => match lookup(t, id@) {
            None => Err(msg("Variable `", id@, "` not found!")),
            Some(SymbolView::Variable { value: Some(v), .. }) => match classify_spec(v) {
                None => Err("Invalid literal"@),
                Some(k) => if ptype.accepts(k) {
                    Ok(v)
                } else {
                    Err(msg("Cannot assign `", v, "` to pointer `") + pname + "` (incorrect type)"@)
                },
            },
            Some(SymbolView::Variable { value: None, .. }) => Err(msg("Variable `", id@, "` not initialized!")),
            Some(_) => Err("Can only assign variables to pointers!"@),
        },
        Expr::Literal(lit) => if ptype.accepts(lit.kind()) {
            Ok(lit.text())
        } else {
            Err(msg("Cannot assign `", lit.text(), "` to pointer `") + pname + "` (incorrect type)"@)
        },
        e => Err(msg("Expected a identifier or literal but found `", e.text(), "`")),
    }
}

/// The table after `txt` is written to the variable a stack pointer points
/// at, when that variable is still in the table.
pub open spec fn write_through_stack(t: Table, pointee: Option<Box<SymbolView>>, txt: Seq<char>) -> Table {
    match pointee {
        Some(b) => match *b {
            SymbolView::Variable { name: vn, .. } => match lookup(t, vn) {
                Some(SymbolView::Variable { vtype, name, size, .. }) => upsert(
                    t,
                    vn,
                    SymbolView::Variable { vtype, name, value: Some(txt), size },
                ),
                _ => t,
            },
            _ => t,
        },
        None => t,
    }
}

/// `*p = v;`: not through a null pointer; a heap pointer, dangling or not,
/// shows the value and writes it to its block; a stack pointer writes it to
/// the variable it points at.
pub open spec fn deref_outcome(
    pointer_name: Seq<char>,
    new_value: Expr,
    line: usize,
    col: usize,
    new_value_column: usize,
    t0: Table,
    t1: Table,
    a0: HeapAllocator,
    a1: HeapAllocator,
    r: Result<(), Error>,
) -> bool {
    match lookup(t0, pointer_name) {
        None => is_analyzer_error(r, msg("Pointer `", pointer_name, "` not found!"), line, col) && t1
            == t0 && a1 == a0,
        Some(
            SymbolView::Pointer {
                ptype,
                name,
                value,
                heap_pointer,
                allocation_type,
                pointer_size,
                value_size,
            },
        ) => if allocation_type == AllocationType::Null {
            is_analyzer_error(r, msg("Cannot dereference null pointer `", pointer_name, "`"), line, col)
                && t1 == t0 && a1 == a0
        } else {
            match deref_text(new_value, ptype, pointer_name, t0) {
                Err(m) => is_analyzer_error(r, m, line, new_value_column) && t1 == t0 && a1
                    == a0,
                Ok(txt) => if allocation_type == AllocationType::Stack {
                    r is Ok && a1 == a0 && t1 == write_through_stack(t0, value, txt)
                } else {
                    &&& t1 == upsert(
                        t0,
                        pointer_name,
                        SymbolView::Pointer {
                            ptype,
                            name,
                            value: Some(Box::new(SymbolView::Literal { value: txt })),
                            heap_pointer,
                            allocation_type,
                            pointer_size,
                            value_size,
                        },
                    )
                    &&& match heap_pointer {
                        None => is_analyzer_error(
                            r,
                            msg("Heap pointer not found for `", pointer_name, "`"),
                            line,
                            col,
                        ) && a1 == a0,
                        Some(a) => if a0.block_in_bounds(a as int) {
                            &&& r is Ok
                            &&& a1.partitioned()
                            &&& a1.free_ranges() == a0.free_ranges()
                            &&& a1.capacity() == a0.capacity()
                            &&& forall|u: int|
                                0 <= u < a1.capacity() ==> #[trigger] a1.units()[u] == updated_unit(
                                    a0.units(),
                                    a as int,
                                    u,
                                    with_metadata(a0.units()[u], txt),
                                )
                        } else {
                            is_analyzer_error(
                                r,
                                "Invalid metadata update operation: out of bounds"@,
                                line,
                                col,
                            )
                                && a1 == a0
                        },
                    }
                },
            }
        },
        Some(_) => is_analyzer_error(r, msg("Symbol `", pointer_name, "` is not a pointer!"), line, col) && t1 == t0 && a1
            == a0,
    }
}

impl Analyzer {
    pub(crate) fn deref(
        &self,
        pointer_name: String,
        new_value: Box<Expr>,
        line: usize,
        pointer_ident_column: usize,
        new_value_column: usize,
        stack_symbols: &mut IndexMap<String, Symbol>,
        allocator: &mut HeapAllocator,
    ) -> (r: Result<(), Error>)
        requires
            unique_keys(symbol_entries(*old(stack_symbols))),
            sized_pointers(symbol_entries(*old(stack_symbols))),
            old(allocator).partitioned(),
        ensures
            unique_keys(symbol_entries(*final(stack_symbols))),
            sized_pointers(symbol_entries(*final(stack_symbols))),
            final(allocator).partitioned(),
            deref_outcome(
                pointer_name@,
                *new_value,
                line,
                pointer_ident_column,
                new_value_column,
                symbol_entries(*old(stack_symbols)),
                symbol_entries(*final(stack_symbols)),
                *old(allocator),
                *final(allocator),
                r,
            ),
    {
        let ghost t0 = symbol_entries(*stack_symbols);
        let (ptype, name, pointee, heap_pointer, allocation_type, pointer_size, value_size) =
            match symbol_get(stack_symbols, &pointer_name) {
            Some(
                Symbol::Pointer {
                    ptype,
                    name,
                    value,
                    heap_pointer,
                    allocation_type,
                    pointer_size,
                    value_size,
                },
            ) => {
                let v = match value {
                    Some(b) => Some(Box::new((**b).duplicate())),
                    None => None,
                };
                (*ptype, name.clone(), v, *heap_pointer, *allocation_type, *pointer_size, *value_size)
            },
            Some(_) => {
                return Err(
                    Error::AnalyzerError(
                        concat3("Symbol `", pointer_name.as_str(), "` is not a pointer!"),
                        line,
                        pointer_ident_column,
                    ),
                );
            },
            None => {
                return Err(
                    Error::AnalyzerError(
                        concat3("Pointer `", pointer_name.as_str(), "` not found!"),
                        line,
                        pointer_ident_column,
                    ),
                );
            },
        };
        proof {
            reveal_with_fuel(crate::symbol::symbol_view, 2);
        }
        if allocation_type == AllocationType::Null {
            return Err(
                Error::AnalyzerError(
                    concat3("Cannot dereference null pointer `", pointer_name.as_str(), "`"),
                    line,
                    pointer_ident_column,
                ),
            );
        }
        let text = match *new_value {
            Expr::Ident(new_ident) => {
                let v = match symbol_get(stack_symbols, &new_ident) {
                    Some(Symbol::Variable { value, .. }) => match value {
                        Some(v) => v.clone(),
                        None => {
                            return Err(
                                Error::AnalyzerError(
                                    concat3(
                                        "Variable `",
                                        new_ident.as_str(),
                                        "` not initialized!",
                                    ),
                                    line,
                                    new_value_column,
                                ),
                            );
                        },
                    },
                    Some(_) => {
                        return Err(
                            Error::AnalyzerError(
                                String::from_str("Can only assign variables to pointers!"),
                                line,
                                new_value_column,
                            ),
                        );
                    },
                    None => {
                        return Err(
                            Error::AnalyzerError(
                                concat3("Variable `", new_ident.as_str(), "` not found!"),
                                line,
                                new_value_column,
                            ),
                        );
                    },
                };
                let lit = match Lit::from_str(v.as_str()) {
                    Ok(l) => l,
                    Err(e) => {
                        return Err(with_position(e, line, new_value_column));
                    },
                };
                if !ptype.is_correct_literal(&lit) {
                    let head = concat3("Cannot assign `", v.as_str(), "` to pointer `");
                    return Err(
                        Error::AnalyzerError(
                            concat3(head.as_str(), pointer_name.as_str(), "` (incorrect type)"),
                            line,
                            new_value_column,
                        ),
                    );
                }
                v
            },
            Expr::Literal(lit) => {
                if !ptype.is_correct_literal(&lit) {
                    let l = lit.to_string();
                    let head = concat3("Cannot assign `", l.as_str(), "` to pointer `");
                    return Err(
                        Error::AnalyzerError(
                            concat3(head.as_str(), pointer_name.as_str(), "` (incorrect type)"),
                            line,
                            new_value_column,
                        ),
                    );
                }
                lit.to_string()
            },
            other => {
                let e = other.to_string();
                return Err(
                    Error::AnalyzerError(
                        concat3("Expected a identifier or literal but found `", e.as_str(), "`"),
                        line,
                        new_value_column,
                    ),
                );
            },
        };
        if allocation_type == AllocationType::Stack {
            let ghost t = symbol_entries(*stack_symbols);
            if let Some(b) = &pointee {
                if let Symbol::Variable { name: vn, .. } = &**b {
                    let target = match symbol_get(stack_symbols, vn) {
                        Some(Symbol::Variable { vtype, name, size, .. }) => Some(
                            (*vtype, name.clone(), *size),
                        ),
                        _ => None,
                    };
                    if let Some((vtype, tname, size)) = target {
                        symbol_insert(
                            stack_symbols,
                            vn.clone(),
                            Symbol::Variable { vtype, name: tname, value: Some(text), size },
                        );
                    }
                }
            }
            return Ok(());
        }
        let shown = text.clone();
        symbol_insert(
            stack_symbols,
            pointer_name.clone(),
            Symbol::Pointer {
                ptype,
                name,
                value: Some(Box::new(Symbol::Literal { value: shown })),
                heap_pointer,
                allocation_type,
                pointer_size,
                value_size,
            },
        );
        match heap_pointer {
            Some(hp) => match allocator.update_metadata(hp, text) {
                Ok(()) => Ok(()),
                Err(e) => Err(with_position(e, line, pointer_ident_column)),
            },
            None => Err(
                Error::AnalyzerError(
                    concat3("Heap pointer not found for `", pointer_name.as_str(), "`"),
                    line,
                    pointer_ident_column,
                ),
            ),
        }
    }

    /// Applies one statement to the symbol table, the heap and the address
    /// hints. On an error nothing that the statement had still to do is done.
    pub(crate) fn analyze_statement(
        &self,
        statement: Statement,
        stack_symbols: &mut IndexMap<String, Symbol>,
        allocator: &mut HeapAllocator,
        starting_pointers: &mut IndexMap<String, usize>,
    ) -> (r: Result<(), Error>)
        requires
            unique_keys(symbol_entries(*old(stack_symbols))),
            sized_pointers(symbol_entries(*old(stack_symbols))),
            unique_keys(hint_entries(*old(starting_pointers))),
            old(allocator).partitioned(),
        ensures
            unique_keys(symbol_entries(*final(stack_symbols))),
            sized_pointers(symbol_entries(*final(stack_symbols))),
            unique_keys(hint_entries(*final(starting_pointers))),
            final(allocator).partitioned(),
            statement_outcome(
                statement,
                symbol_entries(*old(stack_symbols)),
                symbol_entries(*final(stack_symbols)),
                *old(allocator),
                *final(allocator),
                hint_entries(*old(starting_pointers)),
                hint_entries(*final(starting_pointers)),
                r,
            ),
    {
        match statement {
            Statement::VariableDeclaration { var_type, var_name, value, line, var_ident_column } => {
                self.declare_variable(var_type, var_name, value, line, var_ident_column, stack_symbols)
            },
            Statement::VariableDeclarationWithoutAssignment {
                var_type,
                var_name,
                line,
                var_ident_column,
            } => self.declare_uninitialised(var_type, var_name, line, var_ident_column, stack_symbols),
            Statement::VariableAssignment {
                var_name,
                new_value,
                line,
                var_ident_column,
                assignment_column,
            } => self.assign_variable(
                var_name,
                new_value,
                line,
                var_ident_column,
                assignment_column,
                stack_symbols,
                allocator,
            ),
            Statement::PointerDeclaration {
                base_type,
                pointer_name,
                value,
                line,
                pointer_ident_column,
            } => self.declare_pointer(
                base_type,
                pointer_name,
                value,
                line,
                pointer_ident_column,
                stack_symbols,
            ),
            Statement::PointerDeclarationHeap {
                base_type,
                pointer_name,
                line,
                pointer_ident_column,
            } => self.declare_heap(
                base_type,
                pointer_name,
                line,
                pointer_ident_column,
                stack_symbols,
                allocator,
                starting_pointers,
            ),
            Statement::PointerDeclarationNull {
                base_type,
                pointer_name,
                line,
                pointer_ident_column,
            } => self.declare_null(base_type, pointer_name, line, pointer_ident_column, stack_symbols),
            Statement::PointerAssignment { pointer_name, new_value, line, pointer_ident_column } => {
                self.assign_pointer(
                    pointer_name,
                    new_value,
                    line,
                    pointer_ident_column,
                    stack_symbols,
                    allocator,
                )
            },
            Statement::PointerAssignmentHeap {
                pointer_name,
                new_type,
                line,
                pointer_ident_column,
                new_type_column,
            } => self.assign_heap(
                pointer_name,
                new_type,
                line,
                pointer_ident_column,
                new_type_column,
                stack_symbols,
                allocator,
                starting_pointers,
            ),
            Statement::PointerAssignmentNull { pointer_name, line, pointer_ident_column } => {
                self.assign_null(pointer_name, line, pointer_ident_column, stack_symbols, allocator)
            },
            Statement::Deref {
                pointer_name,
                new_value,
                line,
                pointer_ident_column,
                new_value_column,
            } => self.deref(
                pointer_name,
                new_value,
                line,
                pointer_ident_column,
                new_value_column,
                stack_symbols,
                allocator,
            ),
            Statement::Delete { pointer_name, line, pointer_ident_column } => {
                self.delete(pointer_name, line, pointer_ident_column, stack_symbols, allocator)
            },
        }
    }
}

/// What one statement does, by its kind; statements that do not touch the
/// heap leave the allocator as it was.
pub open spec fn statement_outcome(
    statement: Statement,
    t0: Table,
    t1: Table,
    a0: HeapAllocator,
    a1: HeapAllocator,
    h0: Seq<(Seq<char>, usize)>,
    h1: Seq<(Seq<char>, usize)>,
    r: Result<(), Error>,
) -> bool {
    &&& (!(statement is PointerDeclarationHeap || statement is PointerAssignmentHeap) ==> h1 == h0)
    &&& match statement {
        Statement::VariableDeclaration { var_type, var_name, value, line, var_ident_column } => {
            declare_variable_outcome(var_type, var_name@, *value, line, var_ident_column, t0, t1, r)
                && a1 == a0
        },
        Statement::VariableDeclarationWithoutAssignment {
            var_type,
            var_name,
            line,
            var_ident_column,
        } => declare_uninitialised_outcome(var_type, var_name@, line, var_ident_column, t0, t1, r)
            && a1 == a0,
        Statement::VariableAssignment {
            var_name,
            new_value,
            line,
            var_ident_column,
            assignment_column,
        } => assign_variable_outcome(
            var_name@,
            *new_value,
            line,
            var_ident_column,
            assignment_column,
            t0,
            t1,
            a0,
            a1,
            r,
        ),
        Statement::PointerDeclaration { base_type, pointer_name, value, line, pointer_ident_column } => {
            declare_pointer_outcome(
                base_type,
                pointer_name@,
                *value,
                line,
                pointer_ident_column,
                t0,
                t1,
                r,
            ) && a1 == a0
        },
        Statement::PointerDeclarationHeap { base_type, pointer_name, line, pointer_ident_column } => {
            declare_heap_outcome(
                base_type,
                pointer_name@,
                line,
                pointer_ident_column,
                t0,
                t1,
                a0,
                a1,
                h0,
                h1,
                r,
            )
        },
        Statement::PointerDeclarationNull { base_type, pointer_name, line, pointer_ident_column } => {
            declare_null_outcome(base_type, pointer_name@, line, pointer_ident_column, t0, t1, r) && a1
                == a0
        },
        Statement::PointerAssignment { pointer_name, new_value, line, pointer_ident_column } => {
            assign_pointer_outcome(
                pointer_name@,
                *new_value,
                line,
                pointer_ident_column,
                t0,
                t1,
                a0,
                a1,
                r,
            )
        },
        Statement::PointerAssignmentHeap {
            pointer_name,
            new_type,
            line,
            pointer_ident_column,
            new_type_column,
        } => assign_heap_outcome(
            pointer_name@,
            new_type,
            line,
            pointer_ident_column,
            new_type_column,
            t0,
            t1,
            a0,
            a1,
            h0,
            h1,
            r,
        ),
        Statement::PointerAssignmentNull { pointer_name, line, pointer_ident_column } => {
            assign_null_outcome(pointer_name@, line, pointer_ident_column, t0, t1, a0, a1, r)
        },
        Statement::Deref { pointer_name, new_value, line, pointer_ident_column, new_value_column } => {
            deref_outcome(
                pointer_name@,
                *new_value,
                line,
                pointer_ident_column,
                new_value_column,
                t0,
                t1,
                a0,
                a1,
                r,
            )
        },
        Statement::Delete { pointer_name, line, pointer_ident_column } => {
            delete_outcome(pointer_name@, line, pointer_ident_column, t0, t1, a0, a1, r)
        },
    }
}

/// The name of a variable or a pointer.
pub open spec fn symbol_name(s: SymbolView) -> Option<Seq<char>> {
    match s {
        SymbolView::Variable { name, .. } => Some(name),
        SymbolView::Pointer { name, .. } => Some(name),
        SymbolView::Literal { .. } => None,
    }
}

/// The hints whose name is that of a variable or a pointer of `syms`, in
/// their order.
pub open spec fn kept_hints(h: Seq<(Seq<char>, usize)>, syms: Seq<SymbolView>) -> Seq<
    (Seq<char>, usize),
> {
    h.filter(|e: (Seq<char>, usize)| names_symbol(syms, e.0))
}

/// Some symbol of `syms` is a variable or a pointer named `k`.
pub open spec fn names_symbol(syms: Seq<SymbolView>, k: Seq<char>) -> bool {
    exists|i: int| 0 <= i < syms.len() && symbol_name(#[trigger] syms[i]) == Some(k)
}

pub open spec fn symbols_view(v: Seq<Symbol>) -> Seq<SymbolView> {
    v.map_values(|s: Symbol| s@)
}

/// A heap as each analysis starts with it: 20 blank units, free as one
/// range, growing by a factor of 2 without limit.
pub open spec fn fresh_heap(a: HeapAllocator) -> bool {
    &&& a.partitioned()
    &&& a.capacity() == 20
    &&& a.free_ranges() == seq![(0usize, 19usize)]
    &&& forall|u: int| 0 <= u < 20 ==> #[trigger] a.units()[u] == blank_unit()
    &&& a.grows()
    &&& a.growth() == 2
    &&& a.limit() is None
}

/// Statements `0..n` of `stmts` each succeeded, taking table `ts[i]`, heap
/// `hs[i]` and hints `ps[i]` to the next ones.
pub open spec fn trace_ok(
    stmts: Seq<Statement>,
    ts: Seq<Table>,
    hs: Seq<HeapAllocator>,
    ps: Seq<Seq<(Seq<char>, usize)>>,
    n: int,
) -> bool {
    &&& ts.len() > n
    &&& hs.len() > n
    &&& ps.len() > n
    &&& ts[0] == Seq::<(Seq<char>, SymbolView)>::empty()
    &&& fresh_heap(hs[0])
    &&& forall|i: int|
        0 <= i < n ==> #[trigger] statement_outcome(
            stmts[i],
            ts[i],
            ts[i + 1],
            hs[i],
            hs[i + 1],
            ps[i],
            ps[i + 1],
            Ok(()),
        )
}

/// Some statement `k` of `stmts` gave error `e` after those before it
/// succeeded, starting from hints `h0`.
pub open spec fn failed_at(stmts: Seq<Statement>, h0: Seq<(Seq<char>, usize)>, e: Error) -> bool {
    exists|ts: Seq<Table>, hs: Seq<HeapAllocator>, ps: Seq<Seq<(Seq<char>, usize)>>, k: int|
        {
            &&& 0 <= k < stmts.len()
            &&& #[trigger] trace_ok(stmts, ts, hs, ps, k)
            &&& ps[0] == h0
            &&& ts.len() > k + 1
            &&& hs.len() > k + 1
            &&& ps.len() > k + 1
            &&& statement_outcome(
                stmts[k],
                ts[k],
                ts[k + 1],
                hs[k],
                hs[k + 1],
                ps[k],
                ps[k + 1],
                Err(e),
            )
        }
}

impl Analyzer {
    /// Drops the hints whose name is no longer that of a variable or a
    /// pointer in `stack_symbols_vec`.
    pub fn clean_starting_pointers(
        &self,
        starting_pointers: &mut IndexMap<String, usize>,
        stack_symbols_vec: &Vec<Symbol>,
    )
        ensures
            unique_keys(hint_entries(*final(starting_pointers))),
            hint_entries(*final(starting_pointers)) == kept_hints(
                hint_entries(*old(starting_pointers)),
                symbols_view(stack_symbols_vec@),
            ),
            forall|k: Seq<char>|
                #[trigger] lookup(hint_entries(*final(starting_pointers)), k) == if names_symbol(
                    symbols_view(stack_symbols_vec@),
                    k,
                ) {
                    lookup(hint_entries(*old(starting_pointers)), k)
                } else {
                    None
                },
    {
        let keys = hint_keys(starting_pointers);
        let ghost h0 = hint_entries(*starting_pointers);
        let ghost kv = keys@.map_values(|s: String| s@);
        let ghost syms = symbols_view(stack_symbols_vec@);
        proof {
            crate::ordered::lemma_unique_from_keys(h0, kv);
            assert(kv.len() == h0.len()) by {
                assert(kv.len() == h0.map_values(|e: (Seq<char>, usize)| e.0).len());
            }
        }
        proof {
            assert(h0.subrange(0, 0) =~= Seq::<(Seq<char>, usize)>::empty());
            reveal(Seq::filter);
            assert(h0.subrange(0, h0.len() as int) =~= h0);
        }
        let mut i: usize = 0;
        while i < keys.len()
            invariant
                i <= keys.len(),
                kv == keys@.map_values(|s: String| s@),
                kv == h0.map_values(|e: (Seq<char>, usize)| e.0),
                unique_keys(h0),
                unique_keys(hint_entries(*starting_pointers)),
                syms == symbols_view(stack_symbols_vec@),
                hint_entries(*starting_pointers) == kept_hints(h0.subrange(0, i as int), syms)
                    + h0.subrange(i as int, h0.len() as int),
                forall|k: Seq<char>|
                    #[trigger] lookup(hint_entries(*starting_pointers), k) == if (exists|j: int|
                        0 <= j < i && kv[j] == k) && !names_symbol(syms, k) {
                        None
                    } else {
                        lookup(h0, k)
                    },
            decreases keys.len() - i,
        {
            let key = &keys[i];
            let mut present = false;
            let mut j: usize = 0;
            while j < stack_symbols_vec.len()
                invariant
                    j <= stack_symbols_vec.len(),
                    syms == symbols_view(stack_symbols_vec@),
                    present == exists|x: int| 0 <= x < j && symbol_name(#[trigger] syms[x]) == Some(key@),
                decreases stack_symbols_vec.len() - j,
            {
                let same = match &stack_symbols_vec[j] {
                    Symbol::Variable { name, .. } => *name == *key,
                    Symbol::Pointer { name, .. } => *name == *key,
                    Symbol::Literal { .. } => false,
                };
                proof {
                    reveal_with_fuel(crate::symbol::symbol_view, 1);
                    assert(same == (symbol_name(syms[j as int]) == Some(key@)));
                }
                present = present || same;
                j = j + 1;
            }
            let ghost before = hint_entries(*starting_pointers);
            if !present {
                hint_remove(starting_pointers, key);
            }
            proof {
                assert(kv[i as int] == key@);
                assert(present ==> names_symbol(syms, key@));
                assert(!present ==> !names_symbol(syms, key@));
                assert forall|k: Seq<char>| #[trigger] lookup(hint_entries(*starting_pointers), k)
                    == if (exists|j: int| 0 <= j < i + 1 && kv[j] == k) && !names_symbol(syms, k) {
                    None
                } else {
                    lookup(h0, k)
                } by {
                    if k == key@ {
                        assert(0 <= i < i + 1 && kv[i as int] == k);
                    } else {
                        if exists|j: int| 0 <= j < i + 1 && kv[j] == k {
                            let w = choose|j: int| 0 <= j < i + 1 && kv[j] == k;
                            assert(0 <= w < i && kv[w] == k);
                        }
                        if exists|j: int| 0 <= j < i && kv[j] == k {
                            let w = choose|j: int| 0 <= j < i && kv[j] == k;
                            assert(0 <= w < i + 1 && kv[w] == k);
                        }
                    }
                    if !present {
                        crate::ordered::lemma_remove_key(before, key@, k);
                    }
                }
                let f = kept_hints(h0.subrange(0, i as int), syms);
                let rest = h0.subrange(i as int, h0.len() as int);
                let m = f.len() as int;
                assert(kv.len() == keys@.len());
                assert(h0.len() == kv.len());
                assert(i < h0.len());
                assert(before == f + rest);
                assert(before[m] == rest[0]);
                assert(rest[0] == h0[i as int]);
                assert(h0[i as int].0 == kv[i as int]);
                crate::ordered::lemma_lookup_at(before, m);
                reveal(Seq::filter);
                assert(h0.subrange(0, i + 1).drop_last() =~= h0.subrange(0, i as int));
                assert(h0.subrange(0, i + 1).last() == h0[i as int]);
                if !present {
                    assert(before.remove(m) =~= f + h0.subrange(i + 1, h0.len() as int));
                    assert(kept_hints(h0.subrange(0, i + 1), syms) == f);
                } else {
                    assert(before =~= f.push(h0[i as int]) + h0.subrange(i + 1, h0.len() as int));
                    assert(kept_hints(h0.subrange(0, i + 1), syms) == f.push(h0[i as int]));
                }
            }
            i = i + 1;
        }
        proof {
            assert(h0.subrange(0, h0.len() as int) =~= h0);
            assert(h0.subrange(h0.len() as int, h0.len() as int) =~= Seq::<(Seq<char>, usize)>::empty());
            assert(hint_entries(*starting_pointers) =~= kept_hints(h0, syms));
            assert forall|k: Seq<char>| #[trigger] lookup(hint_entries(*starting_pointers), k)
                == if names_symbol(syms, k) {
                lookup(h0, k)
            } else {
                None
            } by {
                if !names_symbol(syms, k) && crate::ordered::has_key(h0, k) {
                    let j = crate::ordered::key_index(h0, k);
                    assert(kv[j] == k);
                }
            }
        }
    }

    /// Runs the statements in order, from an empty table and a fresh heap,
    /// consulting and updating the address hints. On success it gives the
    /// symbols in declaration order, the heap's blocks, and the hints of the
    /// names still declared; on the first error it stops and gives that
    /// error.
    pub fn analyze_statements(
        &self,
        statements: Vec<Statement>,
        starting_pointers: IndexMap<String, usize>,
    ) -> (r: Result<(Vec<Symbol>, Vec<HeapBlock>, IndexMap<String, usize>), Error>)
        ensures
            r matches Ok((syms, heap, hints)) ==> exists|
                ts: Seq<Table>,
                hs: Seq<HeapAllocator>,
                ps: Seq<Seq<(Seq<char>, usize)>>,
            |
                {
                    &&& #[trigger] trace_ok(statements@, ts, hs, ps, statements@.len() as int)
                    &&& ps[0] == hint_entries(starting_pointers)
                    &&& symbols_view(syms@) == ts[statements@.len() as int].map_values(
                        |e: (Seq<char>, SymbolView)| e.1,
                    )
                    &&& blocks_view(heap@) == snapshot(hs[statements@.len() as int].units())
                    &&& hint_entries(hints) == kept_hints(
                        ps[statements@.len() as int],
                        symbols_view(syms@),
                    )
                    &&& forall|k: Seq<char>|
                        #[trigger] lookup(hint_entries(hints), k) == if names_symbol(
                            symbols_view(syms@),
                            k,
                        ) {
                            lookup(ps[statements@.len() as int], k)
                        } else {
                            None
                        }
                },
            r matches Err(e) ==> failed_at(statements@, hint_entries(starting_pointers), e),
    {
        let ghost h_init = hint_entries(starting_pointers);
        let keys = hint_keys(&starting_pointers);
        proof {
            crate::ordered::lemma_unique_from_keys(h_init, keys@.map_values(|s: String| s@));
        }
        let mut hints = starting_pointers;
        let mut stack_symbols = new_symbol_table();
        let mut allocator = HeapAllocator::new_infinite(20, 2, None);
        let ghost stmts = statements@;
        let n = statements.len();
        let ghost mut ts: Seq<Table> = seq![symbol_entries(stack_symbols)];
        let ghost mut hs: Seq<HeapAllocator> = seq![allocator];
        let ghost mut ps: Seq<Seq<(Seq<char>, usize)>> = seq![hint_entries(hints)];
        let mut rest = statements;
        proof {
            assert(rest@ == stmts.subrange(0, n as int));
        }
        let mut i: usize = 0;
        while i < n
            invariant
                i <= n,
                n == stmts.len(),
                rest@ == stmts.subrange(i as int, n as int),
                trace_ok(stmts, ts, hs, ps, i as int),
                ts.len() == i + 1,
                hs.len() == i + 1,
                ps.len() == i + 1,
                ts[i as int] == symbol_entries(stack_symbols),
                hs[i as int] == allocator,
                ps[i as int] == hint_entries(hints),
                ps[0] == h_init,
                h_init == hint_entries(starting_pointers),
                stmts == statements@,
                unique_keys(symbol_entries(stack_symbols)),
                sized_pointers(symbol_entries(stack_symbols)),
                unique_keys(hint_entries(hints)),
                allocator.partitioned(),
            decreases n - i,
        {
            let statement = rest.remove(0);
            proof {
                assert(statement == stmts[i as int]);
            }
            let res = self.analyze_statement(
                statement,
                &mut stack_symbols,
                &mut allocator,
                &mut hints,
            );
            let ghost ts0 = ts;
            let ghost hs0 = hs;
            let ghost ps0 = ps;
            proof {
                ts = ts.push(symbol_entries(stack_symbols));
                hs = hs.push(allocator);
                ps = ps.push(hint_entries(hints));
                assert forall|j: int| 0 <= j < i implies #[trigger] statement_outcome(
                    stmts[j],
                    ts[j],
                    ts[j + 1],
                    hs[j],
                    hs[j + 1],
                    ps[j],
                    ps[j + 1],
                    Ok(()),
                ) by {
                    assert(ts[j] == ts0[j] && ts[j + 1] == ts0[j + 1]);
                    assert(hs[j] == hs0[j] && hs[j + 1] == hs0[j + 1]);
                    assert(ps[j] == ps0[j] && ps[j + 1] == ps0[j + 1]);
                    assert(statement_outcome(
                        stmts[j],
                        ts0[j],
                        ts0[j + 1],
                        hs0[j],
                        hs0[j + 1],
                        ps0[j],
                        ps0[j + 1],
                        Ok(()),
                    ));
                }
            }
            match res {
                Ok(()) => {},
                Err(e) => {
                    proof {
                        assert(trace_ok(stmts, ts, hs, ps, i as int));
                        assert(statement_outcome(
                            stmts[i as int],
                            ts[i as int],
                            ts[i + 1],
                            hs[i as int],
                            hs[i + 1],
                            ps[i as int],
                            ps[i + 1],
                            Err(e),
                        ));
                        assert(failed_at(stmts, h_init, e)) by {
                            assert(trace_ok(stmts, ts, hs, ps, i as int));
                        }
                    }
                    return Err(e);
                },
            }
            proof {
                assert(rest@ =~= stmts.subrange(i + 1, n as int));
                assert(statement_outcome(
                    stmts[i as int],
                    ts[i as int],
                    ts[i + 1],
                    hs[i as int],
                    hs[i + 1],
                    ps[i as int],
                    ps[i + 1],
                    Ok(()),
                ));
                assert(trace_ok(stmts, ts, hs, ps, i + 1));
            }
            i = i + 1;
        }
        let stack_symbols_vec = symbol_values(stack_symbols);
        self.clean_starting_pointers(&mut hints, &stack_symbols_vec);
        let heap = allocator.get_heap();
        Ok((stack_symbols_vec, heap, hints))
    }
}

/// Deleting a pointer that points at the stack, at nothing, or at a block
/// already deleted fails, each with its own message, and leaves the symbol
/// table and the heap exactly as they were.
pub proof fn lemma_delete_refusal(
    pointer_name: Seq<char>,
    line: usize,
    col: usize,
    t0: Table,
    t1: Table,
    a0: HeapAllocator,
    a1: HeapAllocator,
    r: Result<(), Error>,
)
    requires
        delete_outcome(pointer_name, line, col, t0, t1, a0, a1, r),
        lookup(t0, pointer_name) matches Some(SymbolView::Pointer { allocation_type, .. })
            && allocation_type != AllocationType::Heap,
    ensures
        r is Err,
        t1 == t0,
        a1 == a0,
        lookup(t0, pointer_name) matches Some(SymbolView::Pointer { allocation_type, .. }) && (
        allocation_type == AllocationType::Stack ==> is_analyzer_error(
            r,
            msg("Cannot delete stack pointer `", pointer_name, "`"),
            line,
            col,
        )) && (allocation_type == AllocationType::Null ==> is_analyzer_error(
            r,
            msg("Cannot delete null pointer `", pointer_name, "`"),
            line,
            col,
        )) && (allocation_type == AllocationType::Dangling ==> is_analyzer_error(
            r,
            msg("Cannot delete dangling pointer `", pointer_name, "`"),
            line,
            col,
        )),
{
}

/// Giving a heap pointer a new block without deleting the old one leaves
/// the old block leaked, and the new block shares no unit with it.
pub proof fn lemma_reassign_leaks(
    pointer_name: Seq<char>,
    new_type: TokenKind,
    line: usize,
    col: usize,
    new_type_column: usize,
    t0: Table,
    t1: Table,
    a0: HeapAllocator,
    a1: HeapAllocator,
    h0: Seq<(Seq<char>, usize)>,
    h1: Seq<(Seq<char>, usize)>,
    r: Result<(), Error>,
    old_block: usize,
    n: usize,
    new_block: usize,
)
    requires
        assign_heap_outcome(
            pointer_name,
            new_type,
            line,
            col,
            new_type_column,
            t0,
            t1,
            a0,
            a1,
            h0,
            h1,
            r,
        ),
        r is Ok,
        lookup(t0, pointer_name) matches Some(
            SymbolView::Pointer { allocation_type, heap_pointer, value_size, .. },
        ) && allocation_type == AllocationType::Heap && heap_pointer == Some(old_block)
            && value_size == n,
        owned_block(a0, a1, new_block, n, pointer_name),
    ensures
        forall|u: int|
            old_block <= u < old_block + n ==> (#[trigger] a1.units()[u]).state
                == HeapBlockState::Leaked,
        new_block + n <= old_block || old_block + n <= new_block,
{
    if !(new_block + n <= old_block || old_block + n <= new_block) {
        let u: int = if new_block <= old_block {
            old_block as int
        } else {
            new_block as int
        };
        assert(a0.reserved(old_block as int, n as int));
        assert(a1.units()[u].state == HeapBlockState::Allocated);
        assert(u >= a0.capacity() || a0.is_free(u));
    }
}

} // verus!
