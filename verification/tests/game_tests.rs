use roster_quiz::game::{Effect, Game, GameState};
use roster_quiz::roster::{Player, Solution};

fn sample_roster() -> Vec<Player> {
    vec![
        Player { name: String::from("josh"), number: 11 },
        Player { name: String::from("claudia"), number: 17 },
        Player { name: String::from("lucas"), number: 1 },
        Player { name: String::from("izzy"), number: 12 },
    ]
}

fn names_sorted(players: &[Player]) -> Vec<String> {
    let mut names: Vec<String> = players.iter().map(|p| p.name.clone()).collect();
    names.sort();
    names
}

fn correct_position(solution: &Solution) -> usize {
    solution
        .option_list
        .iter()
        .position(|p| *p == solution.correct_player)
        .expect("the correct answer must stand among the options")
}

#[test]
fn generate_draws_the_requested_options() {
    let mut roster = sample_roster();
    let solution = Player::generate_new_player(&mut roster, 3);
    assert_eq!(solution.option_list.len(), 3);
    assert!(solution.option_list.iter().any(|p| *p == solution.correct_player));
    // the roster is only rearranged, never grown or shrunk
    assert_eq!(roster.len(), 4);
    assert_eq!(names_sorted(&roster), names_sorted(&sample_roster()));
    // every option comes from the roster
    for option in &solution.option_list {
        assert!(roster.iter().any(|p| *p == *option));
    }
}

#[test]
fn generate_includes_correct_answer_for_every_count() {
    for option_count in 2..=4 {
        let mut roster = sample_roster();
        let solution = Player::generate_new_player(&mut roster, option_count);
        assert_eq!(solution.option_list.len(), option_count);
        assert!(solution.option_list.iter().any(|p| *p == solution.correct_player));
    }
}

#[test]
fn generate_spreads_the_correct_position() {
    // Over many rounds the correct answer's slot should look uniform; an
    // unshuffled draw would leave it at one fixed position every time.
    let mut roster = sample_roster();
    let trials = 2000;
    let mut counts = [0usize; 4];
    for _ in 0..trials {
        let solution = Player::generate_new_player(&mut roster, 4);
        counts[correct_position(&solution)] += 1;
    }
    // expected 500 per slot; allow a wide margin
    for &c in &counts {
        assert!(c > 300, "correct-answer positions are far from uniform: {:?}", counts);
    }
}

#[test]
fn quit_from_home_stops_the_loop() {
    let mut game = Game::new(sample_roster(), 2);
    assert!(game.running);
    assert_eq!(game.state, GameState::Home);
    let eff = game.step(Some("q"));
    assert_eq!(eff, Effect::Silent);
    assert!(!game.running);
    assert_eq!(game.state, GameState::Home);
}

#[test]
fn invalid_menu_input_stays_home() {
    let mut game = Game::new(sample_roster(), 2);
    let eff = game.step(Some("x"));
    assert_eq!(eff, Effect::InvalidOption);
    assert_eq!(game.state, GameState::Home);
    assert!(game.running);
}

#[test]
fn correct_guess_returns_home() {
    let mut game = Game::new(sample_roster(), 3);
    assert_eq!(game.step(Some("n")), Effect::Silent);
    assert_eq!(game.state, GameState::NewRound);
    assert_eq!(game.step(None), Effect::ShowQuestion);
    assert_eq!(game.state, GameState::AwaitingGuess);

    let guess = format!("{}", correct_position(&game.solution) + 1);
    assert_eq!(game.step(Some(&guess)), Effect::Silent);
    assert_eq!(game.state, GameState::Evaluating);
    assert_eq!(game.step(None), Effect::CorrectAnswer);
    assert_eq!(game.state, GameState::Home);
    assert!(game.running);
}

#[test]
fn wrong_guess_keeps_the_round() {
    // distinct numbers so exactly one option equals the correct answer
    let mut game = Game::new(sample_roster(), 4);
    game.step(Some("n"));
    game.step(None);
    let right = correct_position(&game.solution);
    let wrong = if right == 0 { 1 } else { 0 };
    let correct_before = game.solution.correct_player.clone();

    let guess = format!("{}", wrong + 1);
    assert_eq!(game.step(Some(&guess)), Effect::Silent);
    assert_eq!(game.step(None), Effect::WrongAnswer);
    assert_eq!(game.state, GameState::AwaitingGuess);
    // the same round persists: the correct answer did not change
    assert_eq!(game.solution.correct_player, correct_before);

    // the user may now guess right on the same round
    let guess = format!("{}", correct_position(&game.solution) + 1);
    assert_eq!(game.step(Some(&guess)), Effect::Silent);
    assert_eq!(game.step(None), Effect::CorrectAnswer);
    assert_eq!(game.state, GameState::Home);
}

#[test]
fn out_of_range_guess_reprompts() {
    let mut game = Game::new(sample_roster(), 3);
    game.step(Some("n"));
    game.step(None);
    assert_eq!(game.state, GameState::AwaitingGuess);

    assert_eq!(game.step(Some("0")), Effect::GuessOutOfRange);
    assert_eq!(game.state, GameState::AwaitingGuess);

    assert_eq!(game.step(Some("4")), Effect::GuessOutOfRange);
    assert_eq!(game.state, GameState::AwaitingGuess);

    assert_eq!(game.step(Some("300")), Effect::GuessOutOfRange);
    assert_eq!(game.state, GameState::AwaitingGuess);
}

#[test]
fn non_numeric_guess_reprompts() {
    let mut game = Game::new(sample_roster(), 3);
    game.step(Some("n"));
    game.step(None);

    assert_eq!(game.step(Some("abc")), Effect::GuessNotNumeric);
    assert_eq!(game.state, GameState::AwaitingGuess);

    assert_eq!(game.step(Some("")), Effect::GuessNotNumeric);
    assert_eq!(game.state, GameState::AwaitingGuess);

    assert_eq!(game.step(Some("1a")), Effect::GuessNotNumeric);
    assert_eq!(game.state, GameState::AwaitingGuess);
}

#[test]
fn awaits_input_only_at_suspension_points() {
    let mut game = Game::new(sample_roster(), 2);
    assert!(game.awaits_input());
    game.step(Some("n"));
    assert!(!game.awaits_input());
    game.step(None);
    assert!(game.awaits_input());
}
