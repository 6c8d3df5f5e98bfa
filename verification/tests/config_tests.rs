use roster_quiz::config::{Config, ConfigError};
use roster_quiz::validate_option_count;

#[test]
fn build_needs_a_file_path() {
    let none: Vec<String> = vec![];
    assert!(matches!(Config::build(&none), Err(ConfigError::MissingFilePath)));

    let only_program = vec![String::from("quiz")];
    assert!(matches!(Config::build(&only_program), Err(ConfigError::MissingFilePath)));
}

#[test]
fn build_needs_an_option_count() {
    let args = vec![String::from("quiz"), String::from("roster.csv")];
    assert!(matches!(Config::build(&args), Err(ConfigError::MissingOptionCount)));
}

#[test]
fn build_rejects_non_numeric_option_count() {
    let args = vec![String::from("quiz"), String::from("roster.csv"), String::from("four")];
    assert!(matches!(Config::build(&args), Err(ConfigError::InvalidOptionCount)));

    let empty = vec![String::from("quiz"), String::from("roster.csv"), String::new()];
    assert!(matches!(Config::build(&empty), Err(ConfigError::InvalidOptionCount)));
}

#[test]
fn build_reads_path_and_count() {
    let args = vec![String::from("quiz"), String::from("roster.csv"), String::from("4")];
    let config = Config::build(&args).unwrap();
    assert_eq!(config.file_path, "roster.csv");
    assert_eq!(config.num_options, 4);
}

#[test]
fn build_ignores_extra_arguments() {
    let args = vec![
        String::from("quiz"),
        String::from("roster.csv"),
        String::from("3"),
        String::from("ignored"),
    ];
    let config = Config::build(&args).unwrap();
    assert_eq!(config.num_options, 3);
}

#[test]
fn option_count_must_fit_roster() {
    assert!(!validate_option_count(2, 1));
    assert!(!validate_option_count(1, 5));
    assert!(!validate_option_count(6, 5));
    assert!(validate_option_count(2, 2));
    assert!(validate_option_count(3, 10));
}
