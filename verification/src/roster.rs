//! Player records, roster-line parsing, and quiz-round generation.
//!
//! A roster line has the shape `name,number[,ignored...]`: the name is the
//! text before the first comma, taken verbatim, and the number is the second
//! comma-delimited field, a decimal numeral no larger than 255. Extra fields
//! are ignored.

use crate::numeric::is_numeral;
use crate::numeric::parse_decimal;
use crate::numeric::spec_decimal;
use rand::seq::SliceRandom;
use vstd::prelude::*;
use vstd::string::StrSliceExecFns;

verus! {

/// One roster entry: a player's name and jersey number.
#[derive(Debug)]
pub struct Player {
    pub name: String,
    pub number: u8,
}

/// Field-wise equality of players, as the game compares a guess against the
/// correct answer.
pub open spec fn player_eq(a: Player, b: Player) -> bool {
    a.name@ == b.name@ && a.number == b.number
}

impl Clone for Player {
    /// Cloning keeps both fields.
    fn clone(&self) -> (res: Self)
        ensures
            res == *self,
    {
        Player { name: self.name.clone(), number: self.number }
    }
}

impl PartialEq for Player {
    fn eq(&self, other: &Player) -> (r: bool) {
        self.name == other.name && self.number == other.number
    }
}

impl vstd::std_specs::cmp::PartialEqSpecImpl for Player {
    open spec fn obeys_eq_spec() -> bool {
        true
    }

    open spec fn eq_spec(&self, other: &Player) -> bool {
        player_eq(*self, *other)
    }
}

/// One quiz round: the correct answer and the list of displayed choices.
pub struct Solution {
    pub correct_player: Player,
    pub option_list: Vec<Player>,
}

impl Solution {
    /// A well-formed round shows exactly `num_options` choices and the
    /// correct answer stands somewhere among them.
    pub open spec fn wf(self, num_options: int) -> bool {
        &&& self.option_list@.len() == num_options
        &&& exists|i: int|
            0 <= i < self.option_list@.len() && self.option_list@[i] == self.correct_player
    }
}

/// Why a roster line was rejected.
#[derive(Clone, Copy, Debug, PartialEq, Eq, Structural)]
pub enum ParseError {
    /// Fewer than two comma-separated fields.
    MalformedLine,
    /// The second field is not a decimal numeral, or its value exceeds 255.
    InvalidNumber,
}

/// The line has at least two comma-separated fields.
pub open spec fn has_comma(s: Seq<char>) -> bool {
    s.contains(',')
}

/// The first field: everything before the first comma.
pub open spec fn spec_name_field(s: Seq<char>) -> Seq<char>
    recommends
        has_comma(s),
{
    s.subrange(0, s.index_of_first(',')->0)
}

/// Everything after the first comma.
pub open spec fn spec_after_name(s: Seq<char>) -> Seq<char>
    recommends
        has_comma(s),
{
    s.subrange(s.index_of_first(',')->0 + 1, s.len() as int)
}

/// The second field: the remainder up to the next comma, if any.
pub open spec fn spec_number_field(s: Seq<char>) -> Seq<char>
    recommends
        has_comma(s),
{
    let rest = spec_after_name(s);
    match rest.index_of_first(',') {
        Some(j) => rest.subrange(0, j),
        None => rest,
    }
}

/// The second field is a decimal numeral whose value fits in a `u8`.
pub open spec fn spec_valid_number(s: Seq<char>) -> bool {
    &&& is_numeral(spec_number_field(s))
    &&& spec_decimal(spec_number_field(s)) <= 255
}

/// The line yields a player record.
pub open spec fn line_parses(s: Seq<char>) -> bool {
    has_comma(s) && spec_valid_number(s)
}

/// The error a rejected line is reported with.
pub open spec fn spec_line_error(s: Seq<char>) -> ParseError {
    if !has_comma(s) {
        ParseError::MalformedLine
    } else {
        ParseError::InvalidNumber
    }
}

/// The characters of a string slice, one per element.
pub(crate) fn str_chars(s: &str) -> (v: Vec<char>)
    ensures
        v@ == s@,
{
    let n = s.unicode_len();
    let mut v: Vec<char> = Vec::new();
    let mut i: usize = 0;
    while i < n
        invariant
            i <= n == s@.len(),
            v@ =~= s@.subrange(0, i as int),
        decreases n - i,
    {
        v.push(s.get_char(i));
        assert(v@ =~= s@.subrange(0, i + 1));
        i += 1;
    }
    assert(v@ =~= s@);
    v
}

/// The index of the first comma at or after `from`, if any.
fn find_comma(v: &Vec<char>, from: usize) -> (r: Option<usize>)
    requires
        from <= v.len(),
    ensures
        match r {
            Some(i) => from <= i < v.len() && v@[i as int] == ',' && (forall|j: int|
                from <= j < i ==> v@[j] != ','),
            None => forall|j: int| from <= j < v@.len() ==> v@[j] != ',',
        },
{
    let mut i: usize = from;
    while i < v.len()
        invariant
            from <= i <= v.len(),
            forall|j: int| from <= j < i ==> v@[j] != ',',
        decreases v.len() - i,
    {
        if v[i] == ',' {
            return Some(i);
        }
        i += 1;
    }
    None
}

/// A witness of a first occurrence pins down `index_of_first`.
proof fn lemma_first_comma(s: Seq<char>, i: int)
    requires
        0 <= i < s.len(),
        s[i] == ',',
        forall|j: int| 0 <= j < i ==> s[j] != ',',
    ensures
        s.index_of_first(',') == Some(i),
{
    s.index_of_first_ensures(',');
    assert(s.contains(','));
}

/// A sequence without commas has no first comma.
proof fn lemma_no_comma(s: Seq<char>)
    requires
        forall|j: int| 0 <= j < s.len() ==> s[j] != ',',
    ensures
        s.index_of_first(',') is None,
{
    s.index_of_first_ensures(',');
    if s.index_of_first(',') is Some {
        let k = s.index_of_first(',')->0;
        assert(s[k] == ',');
    }
}

impl Player {
    /// Splits one roster line on commas and builds the record: the first
    /// field is the name, taken verbatim; the second must be a decimal
    /// numeral no larger than 255. Extra fields are ignored.
    pub fn parse_player_line(player_line: String) -> (r: Result<Player, ParseError>)
        ensures
            match r {
                Ok(p) => {
                    &&& line_parses(player_line@)
                    &&& p.name@ == spec_name_field(player_line@)
                    &&& p.number == spec_decimal(spec_number_field(player_line@))
                },
                Err(e) => {
                    &&& !line_parses(player_line@)
                    &&& e == spec_line_error(player_line@)
                },
            },
    {
        let s: &str = player_line.as_str();
        let chars: Vec<char> = str_chars(s);
        let c1 = match find_comma(&chars, 0) {
            Some(c1) => c1,
            None => {
                proof {
                    assert(!has_comma(player_line@));
                }
                return Err(ParseError::MalformedLine);
            },
        };
        proof {
            lemma_first_comma(player_line@, c1 as int);
        }
        let name: String = s.substring_char(0, c1).to_owned();
        let ghost rest = spec_after_name(player_line@);
        let end: usize = match find_comma(&chars, c1 + 1) {
            Some(c2) => {
                proof {
                    assert(rest[c2 - c1 - 1] == player_line@[c2 as int]);
                    assert(forall|j: int|
                        0 <= j < c2 - c1 - 1 ==> rest[j] == player_line@[j + c1 + 1] && rest[j]
                            != ',');
                    lemma_first_comma(rest, c2 - c1 - 1);
                    assert(spec_number_field(player_line@) =~= player_line@.subrange(
                        c1 + 1,
                        c2 as int,
                    ));
                }
                c2
            },
            None => {
                proof {
                    assert(forall|j: int|
                        0 <= j < rest.len() ==> rest[j] == player_line@[j + c1 + 1] && rest[j]
                            != ',');
                    lemma_no_comma(rest);
                    assert(spec_number_field(player_line@) =~= player_line@.subrange(
                        c1 + 1,
                        player_line@.len() as int,
                    ));
                }
                chars.len()
            },
        };
        match parse_decimal(&chars, c1 + 1, end, 255) {
            Some(value) => Ok(Player { name, number: value as u8 }),
            None => Err(ParseError::InvalidNumber),
        }
    }

    /// Draws one quiz round from the roster: the roster is shuffled in
    /// place, the player now at the front becomes the correct answer, the
    /// first `num_options` players (which include that answer) become the
    /// choices, and the choices are shuffled once more so the answer's
    /// position gives nothing away.
    pub fn generate_new_player(roster: &mut Vec<Player>, num_options: usize) -> (sol: Solution)
        requires
            2 <= num_options <= old(roster).len(),
        ensures
            final(roster)@.len() == old(roster)@.len(),
            final(roster)@.to_multiset() == old(roster)@.to_multiset(),
            sol.correct_player == final(roster)@[0],
            sol.option_list@.to_multiset() == final(roster)@.subrange(
                0,
                num_options as int,
            ).to_multiset(),
            sol.wf(num_options as int),
    {
        broadcast use vstd::seq_lib::group_to_multiset_ensures;

        shuffle_players(roster);
        let random_player: Player = (&roster[0]).clone();
        let ghost shuffled = roster@;
        let mut options: Vec<Player> = Vec::new();
        let mut i: usize = 0;
        while i < num_options
            invariant
                i <= num_options <= shuffled.len(),
                roster@ == shuffled,
                options@ =~= shuffled.subrange(0, i as int),
            decreases num_options - i,
        {
            let next: Player = (&roster[i]).clone();
            options.push(next);
            assert(options@ =~= shuffled.subrange(0, i + 1));
            i += 1;
        }
        let ghost drawn = shuffled.subrange(0, num_options as int);
        assert(options@ =~= drawn);
        shuffle_players(&mut options);
        proof {
            assert(drawn[0] == shuffled[0]);
            assert(drawn.contains(shuffled[0]));
            assert(drawn.to_multiset().count(shuffled[0]) > 0);
            assert(options@.to_multiset().count(shuffled[0]) > 0);
            assert(options@.contains(shuffled[0]));
        }
        Solution { correct_player: random_player, option_list: options }
    }
}

/// Relies on rand's `SliceRandom::shuffle`: it reorders the slice in place
/// (a Fisher-Yates shuffle), so the new contents are a rearrangement of the
/// old ones and nothing is added or removed.
#[verifier::external_body]
fn shuffle_players(roster: &mut Vec<Player>)
    ensures
        final(roster)@.len() == old(roster)@.len(),
        final(roster)@.to_multiset() == old(roster)@.to_multiset(),
{
    roster.shuffle(&mut rand::rng());
}

/// Parses every roster line in order; the first rejected line stops the
/// load and is reported with its index and error.
pub fn parse_roster(lines: &Vec<String>) -> (r: Result<Vec<Player>, (usize, ParseError)>)
    ensures
        match r {
            Ok(players) => {
                &&& players@.len() == lines@.len()
                &&& forall|i: int|
                    0 <= i < lines@.len() ==> line_parses(#[trigger] lines@[i]@)
                &&& forall|i: int|
                    0 <= i < lines@.len() ==> (#[trigger] players@[i]).name@ == spec_name_field(
                        lines@[i]@,
                    ) && players@[i].number == spec_decimal(spec_number_field(lines@[i]@))
            },
            Err((idx, e)) => {
                &&& idx < lines@.len()
                &&& !line_parses(lines@[idx as int]@)
                &&& e == spec_line_error(lines@[idx as int]@)
                &&& forall|j: int| 0 <= j < idx ==> line_parses(#[trigger] lines@[j]@)
            },
        },
{
    let mut players: Vec<Player> = Vec::new();
    let mut i: usize = 0;
    while i < lines.len()
        invariant
            i <= lines@.len(),
            players@.len() == i,
            forall|j: int| 0 <= j < i ==> line_parses(#[trigger] lines@[j]@),
            forall|j: int|
                0 <= j < i ==> (#[trigger] players@[j]).name@ == spec_name_field(lines@[j]@)
                    && players@[j].number == spec_decimal(spec_number_field(lines@[j]@)),
        decreases lines@.len() - i,
    {
        let line: String = lines[i].clone();
        match Player::parse_player_line(line) {
            Ok(p) => {
                players.push(p);
            },
            Err(e) => {
                return Err((i, e));
            },
        }
        i += 1;
    }
    Ok(players)
}

} // verus!
