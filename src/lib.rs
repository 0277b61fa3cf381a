//! An interactive command interpreter: parsing a line into a `Command`,
//! dispatching builtins, and resolving external programs on a search path.
use vstd::prelude::*;

pub mod builtins;
pub mod command;
pub mod executor;
pub mod parser;
pub mod prompt;
pub mod utils;

verus! {

} // verus!
