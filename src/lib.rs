//! Step-by-step model of the stack and heap effects of a small C-like
//! program: typed variables, pointers, `new`, `delete` and writes through
//! pointers, over a simulated heap allocator.

pub mod analyzer;
pub mod ast;
pub mod error;
pub mod heap;
pub mod lexer;
pub mod symbol;
pub mod ordered;
pub mod parser;
pub mod text;
pub mod token;
pub mod types;
pub mod updates;
