//! The interactive game controller: a four-state machine that sequences
//! question presentation, guess collection and feedback.
//!
//! `Home` and `AwaitingGuess` wait for one line of input; `NewRound` and
//! `Evaluating` advance on their own. Every user-visible message is returned
//! as an [`Effect`], so a driver owning the terminal performs the printing
//! and reading while the transitions themselves are verified.

use crate::numeric::digits_only;
use crate::numeric::is_numeral;
use crate::numeric::parse_decimal;
use crate::numeric::spec_decimal;
use crate::roster::Player;
use crate::roster::Solution;
use crate::roster::player_eq;
use crate::roster::str_chars;
use vstd::prelude::*;
use vstd::string::StrSliceExecFns;

verus! {

/// The phase the game is in.
#[derive(Clone, Copy, Debug, PartialEq, Eq, Structural)]
pub enum GameState {
    /// The menu: waiting for `n` (new round) or `q` (quit).
    Home,
    /// A fresh round is drawn and presented; advances on its own.
    NewRound,
    /// Waiting for a guess: a 1-based option number.
    AwaitingGuess,
    /// The guess is compared against the correct answer; advances on its own.
    Evaluating,
}

/// What the driver should show the user after a step.
#[derive(Clone, Copy, Debug, PartialEq, Eq, Structural)]
pub enum Effect {
    /// Nothing to print.
    Silent,
    /// The menu input was neither `n` nor `q`.
    InvalidOption,
    /// Present the current round: the asked number and the numbered choices.
    ShowQuestion,
    /// The guess was a number outside `1..=option count`.
    GuessOutOfRange,
    /// The guess was not a number.
    GuessNotNumeric,
    /// The guess named the correct player; announce name and number.
    CorrectAnswer,
    /// The guess named the wrong player.
    WrongAnswer,
}

/// A guess line that names one of the displayed choices: a decimal numeral
/// between 1 and the option count.
pub open spec fn spec_guess_in_range(s: Seq<char>, num_options: int) -> bool {
    is_numeral(s) && 1 <= spec_decimal(s) <= num_options
}

/// The whole game: the roster it draws from, the configured option count,
/// the live round, and the machine's phase.
pub struct Game {
    pub roster: Vec<Player>,
    pub num_options: usize,
    pub solution: Solution,
    pub guess_idx: Option<usize>,
    pub state: GameState,
    pub running: bool,
}

impl Game {
    /// The game's invariant: the option count fits the roster, the live
    /// round is well formed, and a guess is recorded whenever one is about
    /// to be evaluated.
    pub open spec fn wf(self) -> bool {
        &&& 2 <= self.num_options <= self.roster@.len()
        &&& self.solution.wf(self.num_options as int)
        &&& (self.state is Evaluating ==> self.guess_idx is Some && (self.guess_idx->0 as int)
            < self.num_options)
    }

    /// The machine waits for a line of input exactly in these two states.
    pub open spec fn spec_awaits_input(self) -> bool {
        self.state is Home || self.state is AwaitingGuess
    }

    /// Whether the driver must read a line before the next step.
    pub fn awaits_input(&self) -> (b: bool)
        ensures
            b == self.spec_awaits_input(),
    {
        match self.state {
            GameState::Home => true,
            GameState::AwaitingGuess => true,
            _ => false,
        }
    }

    /// Starts a game at the menu. The first round is drawn right away, so a
    /// live round is always in memory; it is only shown once the user asks
    /// for a new round.
    pub fn new(roster: Vec<Player>, num_options: usize) -> (g: Game)
        requires
            2 <= num_options <= roster@.len(),
        ensures
            g.wf(),
            g.state is Home,
            g.running,
            g.num_options == num_options,
            g.roster@.len() == roster@.len(),
            g.roster@.to_multiset() == roster@.to_multiset(),
    {
        let mut roster = roster;
        let solution = Player::generate_new_player(&mut roster, num_options);
        Game {
            roster,
            num_options,
            solution,
            guess_idx: None,
            state: GameState::Home,
            running: true,
        }
    }

    /// One transition of the state machine. `input` carries the user's line
    /// exactly when the current state waits for one. The returned effect is
    /// everything the driver must show; the next state, the live round and
    /// the quit flag are all pinned down case by case.
    pub fn step(&mut self, input: Option<&str>) -> (eff: Effect)
        requires
            old(self).wf(),
            old(self).running,
            input is Some <==> old(self).spec_awaits_input(),
        ensures
            final(self).wf(),
            final(self).num_options == old(self).num_options,
            final(self).roster@.len() == old(self).roster@.len(),
            final(self).roster@.to_multiset() == old(self).roster@.to_multiset(),
            match old(self).state {
                GameState::Home => {
                    let line = input->0@;
                    &&& final(self).roster == old(self).roster
                    &&& final(self).solution == old(self).solution
                    &&& (line == seq!['q'] ==> !final(self).running && final(self).state
                        is Home && eff is Silent)
                    &&& (line == seq!['n'] ==> final(self).running && final(self).state
                        is NewRound && eff is Silent)
                    &&& (line != seq!['q'] && line != seq!['n'] ==> final(self).running
                        && final(self).state is Home && eff is InvalidOption)
                },
                GameState::NewRound => {
                    &&& final(self).running
                    &&& final(self).state is AwaitingGuess
                    &&& eff is ShowQuestion
                    &&& final(self).solution.wf(old(self).num_options as int)
                    &&& final(self).solution.correct_player == final(self).roster@[0]
                    &&& final(self).solution.option_list@.to_multiset()
                        == final(self).roster@.subrange(0, old(self).num_options as int).to_multiset()
                },
                GameState::AwaitingGuess => {
                    let line = input->0@;
                    &&& final(self).roster == old(self).roster
                    &&& final(self).solution == old(self).solution
                    &&& final(self).running
                    &&& if spec_guess_in_range(line, old(self).num_options as int) {
                        &&& final(self).state is Evaluating
                        &&& final(self).guess_idx == Some((spec_decimal(line) - 1) as usize)
                        &&& eff is Silent
                    } else if is_numeral(line) {
                        final(self).state is AwaitingGuess && eff
                            is GuessOutOfRange
                    } else {
                        final(self).state is AwaitingGuess && eff
                            is GuessNotNumeric
                    }
                },
                GameState::Evaluating => {
                    let g = old(self).guess_idx->0 as int;
                    &&& final(self).roster == old(self).roster
                    &&& final(self).solution == old(self).solution
                    &&& final(self).running
                    &&& if player_eq(
                        old(self).solution.option_list@[g],
                        old(self).solution.correct_player,
                    ) {
                        final(self).state is Home && eff is CorrectAnswer
                    } else {
                        final(self).state is AwaitingGuess && eff is WrongAnswer
                    }
                },
            },
    {
        match self.state {
            GameState::Home => {
                let line: &str = input.unwrap();
                proof {
                    assert(seq!['q'] != seq!['n']) by {
                        assert(seq!['q'][0] == 'q');
                        assert(seq!['n'][0] == 'n');
                    }
                }
                if str_is_char(line, 'q') {
                    self.running = false;
                    Effect::Silent
                } else if str_is_char(line, 'n') {
                    self.state = GameState::NewRound;
                    Effect::Silent
                } else {
                    Effect::InvalidOption
                }
            },
            GameState::NewRound => {
                self.solution = Player::generate_new_player(&mut self.roster, self.num_options);
                self.state = GameState::AwaitingGuess;
                Effect::ShowQuestion
            },
            GameState::AwaitingGuess => {
                let line: &str = input.unwrap();
                let chars: Vec<char> = str_chars(line);
                assert(chars@.subrange(0, chars@.len() as int) =~= chars@);
                if !digits_only(&chars, 0, chars.len()) {
                    Effect::GuessNotNumeric
                } else {
                    let cap: u64 = self.num_options as u64;
                    match parse_decimal(&chars, 0, chars.len(), cap) {
                        Some(value) => {
                            if value >= 1 {
                                self.guess_idx = Some((value - 1) as usize);
                                self.state = GameState::Evaluating;
                                Effect::Silent
                            } else {
                                Effect::GuessOutOfRange
                            }
                        },
                        None => Effect::GuessOutOfRange,
                    }
                }
            },
            GameState::Evaluating => {
                let g: usize = self.guess_idx.unwrap();
                let guessed: &Player = &self.solution.option_list[g];
                if *guessed == self.solution.correct_player {
                    self.state = GameState::Home;
                    Effect::CorrectAnswer
                } else {
                    self.state = GameState::AwaitingGuess;
                    Effect::WrongAnswer
                }
            },
        }
    }
}

/// True iff the line consists of the single character `c`.
fn str_is_char(s: &str, c: char) -> (r: bool)
    ensures
        r == (s@ == seq![c]),
{
    let n = s.unicode_len();
    if n != 1 {
        proof {
            assert(s@ != seq![c]) by {
                assert(seq![c].len() == 1);
            }
        }
        false
    } else {
        let first = s.get_char(0);
        proof {
            if first == c {
                assert(s@ =~= seq![c]);
            }
        }
        first == c
    }
}

} // verus!
