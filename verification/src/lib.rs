//! A verified lexer and recursive-descent parser for a small in-world command
//! language: slash-prefixed commands, `@`-selector targets with parameter
//! tables, numeric ranges, inline maps, prefix operators, typed literals and
//! line comments.
//!
//! Source text goes in as bytes; out comes either a [`ast::Function`] syntax
//! tree or a structured parse failure, and nothing else. Every parsing
//! procedure is specified against a mathematical description of the grammar,
//! so parsing is provably deterministic and every reported [`span::Span`]
//! provably lies inside the input.

use vstd::prelude::*;

pub mod ast;
pub mod error;
pub mod parser;
pub mod span;
pub mod token;

verus! {

/// Adds two counters.
pub fn add(left: u64, right: u64) -> (r: u64)
    requires
        left + right <= u64::MAX,
    ensures
        r == left + right,
{
    left + right
}

} // verus!
