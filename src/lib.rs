//! Solver for seven-letter "spelling bee" puzzles, with the rules that pick
//! and score the words of a dictionary and the policy that loads it.
use vstd::prelude::*;

pub mod dataset;
pub mod input;
pub mod loader;
pub mod solver;
pub mod word;

pub use dataset::{convert_to_dataset, Dataset};
pub use input::{Input, InputError};
pub use loader::{step, FetchError, LoadAction, LoadEvent, LoadState, PersistError};
pub use solver::{is_solution, points, solve, Solution};
pub use word::Word;

verus! {

/// How many letters a puzzle has.
pub const REQUIRED_LETTERS_COUNT: usize = 7;

} // verus!
