//! Search over language-model completions: prompt construction, candidate
//! scoring with a value cache, selection policies, and the word-grid
//! constraint state machine.

pub mod grid;
pub mod parse;
pub mod prompts;
pub mod reward;
pub mod search;
pub mod select;
pub mod task;
pub mod text;
pub mod usage;
pub mod value;
