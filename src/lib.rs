//! Progressive reveal of stored text in a terminal: the decisions of the
//! presentation engine (session flags, dismissal, pacing, lookup, arguments),
//! each stated and proved; the program around it performs the terminal work.
use vstd::prelude::*;

pub mod args;
pub mod catalog;
pub mod driver;
pub mod input;
pub mod session;
pub mod text;
pub mod timed;
pub mod typewriter;

verus! {

} // verus!
