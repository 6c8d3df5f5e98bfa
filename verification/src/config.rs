//! Startup configuration: the roster file path and the number of choices
//! per round, both taken from the program's argument list.

use crate::numeric::is_numeral;
use crate::numeric::parse_decimal;
use crate::numeric::spec_decimal;
use crate::roster::str_chars;
use vstd::prelude::*;

verus! {

/// Why the argument list was rejected.
#[derive(Clone, Copy, Debug, PartialEq, Eq, Structural)]
pub enum ConfigError {
    /// No roster file path was given.
    MissingFilePath,
    /// No option count was given.
    MissingOptionCount,
    /// The option count is not a decimal numeral that fits in `usize`.
    InvalidOptionCount,
}

/// The option-count argument is a decimal numeral whose value fits in
/// `usize`.
pub open spec fn spec_count_ok(s: Seq<char>) -> bool {
    is_numeral(s) && spec_decimal(s) <= usize::MAX
}

/// What the game needs to start: where the roster lives and how many
/// choices each round shows.
pub struct Config {
    pub file_path: String,
    pub num_options: usize,
}

impl Config {
    /// Reads the configuration from the argument list. The first argument
    /// is the program's own name and is skipped; the second is the roster
    /// file path; the third is the option count, a decimal numeral. Any
    /// further arguments are ignored.
    pub fn build(args: &Vec<String>) -> (r: Result<Config, ConfigError>)
        ensures
            match r {
                Ok(c) => {
                    &&& args@.len() >= 3
                    &&& spec_count_ok(args@[2]@)
                    &&& c.file_path@ == args@[1]@
                    &&& c.num_options == spec_decimal(args@[2]@)
                },
                Err(e) => match e {
                    ConfigError::MissingFilePath => args@.len() < 2,
                    ConfigError::MissingOptionCount => args@.len() == 2,
                    ConfigError::InvalidOptionCount => args@.len() >= 3 && !spec_count_ok(
                        args@[2]@,
                    ),
                },
            },
    {
        if args.len() < 2 {
            return Err(ConfigError::MissingFilePath);
        }
        if args.len() < 3 {
            return Err(ConfigError::MissingOptionCount);
        }
        let file_path: String = args[1].clone();
        let chars: Vec<char> = str_chars(args[2].as_str());
        assert(chars@.subrange(0, chars@.len() as int) =~= chars@);
        let max: u64 = usize::MAX as u64;
        match parse_decimal(&chars, 0, chars.len(), max) {
            Some(value) => Ok(Config { file_path, num_options: value as usize }),
            None => Err(ConfigError::InvalidOptionCount),
        }
    }
}

} // verus!
