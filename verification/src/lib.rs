#![verifier::loop_isolation(false)]

use vstd::prelude::*;

pub mod ast;
pub mod errors;
pub mod evaluator;
pub mod laws;
pub mod lexer;
pub mod num;
pub mod parser;
pub mod scope;
pub mod semantics;
pub mod value;
pub mod span;
pub mod tokens;

verus! {

} // verus!
