//! A terminal trivia game library: a roster of players (name and jersey
//! number) is parsed from comma-delimited lines, quiz rounds are drawn at
//! random from the roster, and a small state machine sequences question
//! presentation, guess validation and feedback.

pub mod config;
pub mod game;
pub mod numeric;
pub mod roster;

use vstd::prelude::*;

verus! {

/// The number of choices shown per round must be at least two and no larger
/// than the roster itself.
pub fn validate_option_count(num_options: usize, roster_size: usize) -> (ok: bool)
    ensures
        ok == (2 <= num_options && num_options <= roster_size),
{
    2 <= num_options && num_options <= roster_size
}

} // verus!
