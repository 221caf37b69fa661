//! The entries of the symbol table.
use crate::types::Type;
use vstd::prelude::*;

verus! {

/// Where a pointer points: a stack symbol, a live heap block, a heap block
/// that was deleted, or nowhere.
#[derive(Debug, Clone, Copy, PartialEq, Eq, Structural)]
pub enum AllocationType {
    Stack,
    Heap,
    Dangling,
    Null,
}

/// A variable, a pointer, or a bare literal value.
#[derive(Debug)]
pub enum Symbol {
    Variable { vtype: Type, name: String, value: Option<String>, size: usize },
    Pointer {
        ptype: Type,
        name: String,
        value: Option<Box<Symbol>>,
        heap_pointer: Option<usize>,
        allocation_type: AllocationType,
        pointer_size: usize,
        value_size: usize,
    },
    Literal { value: String },
}

/// A symbol seen as plain values.
pub enum SymbolView {
    Variable { vtype: Type, name: Seq<char>, value: Option<Seq<char>>, size: usize },
    Pointer {
        ptype: Type,
        name: Seq<char>,
        value: Option<Box<SymbolView>>,
        heap_pointer: Option<usize>,
        allocation_type: AllocationType,
        pointer_size: usize,
        value_size: usize,
    },
    Literal { value: Seq<char> },
}

pub open spec fn text_view(s: Option<String>) -> Option<Seq<char>> {
    match s {
        Some(t) => Some(t@),
        None => None,
    }
}

pub open spec fn symbol_view(s: Symbol) -> SymbolView
    decreases s,
{
    match s {
        Symbol::Variable { vtype, name, value, size } => SymbolView::Variable {
            vtype,
            name: name@,
            value: text_view(value),
            size,
        },
        Symbol::Pointer {
            ptype,
            name,
            value,
            heap_pointer,
            allocation_type,
            pointer_size,
            value_size,
        } => SymbolView::Pointer {
            ptype,
            name: name@,
            value: match value {
                Some(b) => Some(Box::new(symbol_view(*b))),
                None => None,
            },
            heap_pointer,
            allocation_type,
            pointer_size,
            value_size,
        },
        Symbol::Literal { value } => SymbolView::Literal { value: value@ },
    }
}

impl View for Symbol {
    type V = SymbolView;

    open spec fn view(&self) -> SymbolView {
        symbol_view(*self)
    }
}

pub fn copy_text(s: &Option<String>) -> (r: Option<String>)
    ensures
        text_view(r) == text_view(*s),
{
    match s {
        Some(t) => Some(t.clone()),
        None => None,
    }
}

impl Symbol {
    /// A copy of the symbol.
    pub fn duplicate(&self) -> (r: Symbol)
        ensures
            r@ == self@,
        decreases self,
    {
        match self {
            Symbol::Variable { vtype, name, value, size } => Symbol::Variable {
                vtype: *vtype,
                name: name.clone(),
                value: copy_text(value),
                size: *size,
            },
            Symbol::Pointer {
                ptype,
                name,
                value,
                heap_pointer,
                allocation_type,
                pointer_size,
                value_size,
            } => {
                let v = match value {
                    Some(b) => Some(Box::new((**b).duplicate())),
                    None => None,
                };
                Symbol::Pointer {
                    ptype: *ptype,
                    name: name.clone(),
                    value: v,
                    heap_pointer: *heap_pointer,
                    allocation_type: *allocation_type,
                    pointer_size: *pointer_size,
                    value_size: *value_size,
                }
            },
            Symbol::Literal { value } => Symbol::Literal { value: value.clone() },
        }
    }
}

} // verus!
