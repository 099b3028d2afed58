//! Lexical front end for a small C-style scripting language.
//!
//! The scanner turns raw source text into an ordered sequence of typed
//! tokens with line and span information, collecting diagnostics for
//! malformed input (unterminated strings, unrecognized characters)
//! instead of aborting on the first error.

use vstd::prelude::*;

pub mod ast;
pub mod laws;
pub mod parser;
pub mod report;
pub mod scanner;
pub mod token;

verus! {

/// Adds one to the number given.
pub fn add_one(x: i32) -> (r: i32)
    requires
        x < i32::MAX,
    ensures
        r == x + 1,
{
    x + 1
}

} // verus!
