//! Grading results: exact fractions in place of measured rates.

use vstd::prelude::*;

verus! {

/// The fraction `num / den`.
#[derive(Clone, Copy, Debug, PartialEq, Eq, Structural)]
pub struct Ratio {
    pub num: u64,
    pub den: u64,
}

impl Ratio {
    /// The fraction `0 / 1`.
    pub fn zero() -> (r: Ratio)
        ensures
            r == (Ratio { num: 0, den: 1 }),
    {
        Ratio { num: 0, den: 1 }
    }
}

/// What grading one finished solution yields: the share of grid cells and grid
/// slots that match, whether the grid is solved, the headline reward `r`, and the
/// individual scores a judge gave.
#[derive(Clone, Debug)]
pub struct TOutput {
    pub r_letter: Ratio,
    pub r_word: Ratio,
    pub r_game: bool,
    pub r: Ratio,
    pub rs: Vec<u32>,
}

impl TOutput {
    /// A result with every reward at zero.
    pub fn new() -> (r: TOutput)
        ensures
            r.r_letter == (Ratio { num: 0, den: 1 }),
            r.r_word == (Ratio { num: 0, den: 1 }),
            !r.r_game,
            r.r == (Ratio { num: 0, den: 1 }),
            r.rs@.len() == 0,
    {
        TOutput { r_letter: Ratio::zero(), r_word: Ratio::zero(), r_game: false, r: Ratio::zero(), rs: Vec::new() }
    }
}

} // verus!
