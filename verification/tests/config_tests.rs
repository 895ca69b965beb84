use minigrep::Config;
use minigrep::ConfigError;

fn args(tokens: &[&str]) -> Vec<String> {
    tokens.iter().map(|t| t.to_string()).collect()
}

#[test]
fn build_three_args_defaults_case_insensitive() {
    let config = Config::build(&args(&["prog", "needle", "notes.txt"])).unwrap();
    assert_eq!(config.query, "needle");
    assert_eq!(config.filename, "notes.txt");
    assert!(!config.case_sensitive);
}

#[test]
fn build_too_few_arguments() {
    assert_eq!(
        Config::build(&args(&["prog"])).unwrap_err(),
        ConfigError::TooFewArguments
    );
    assert_eq!(
        Config::build(&args(&["prog", "needle"])).unwrap_err(),
        ConfigError::TooFewArguments
    );
}

#[test]
fn build_too_many_arguments() {
    assert_eq!(
        Config::build(&args(&["prog", "needle", "notes.txt", "yes", "extra"])).unwrap_err(),
        ConfigError::TooManyArguments
    );
}

#[test]
fn parse_flag_truthy_tokens() {
    for token in ["TRUE", "Yes", "Y", "true", "yes", "y"] {
        assert_eq!(Config::parse_final_arg(token.to_string()), Ok(true));
    }
}

#[test]
fn parse_flag_falsy_tokens() {
    for token in ["False", "NO", "n", "false", "no", "N"] {
        assert_eq!(Config::parse_final_arg(token.to_string()), Ok(false));
    }
}

#[test]
fn parse_flag_rejects_other_tokens() {
    assert_eq!(
        Config::parse_final_arg("maybe".to_string()),
        Err(ConfigError::InvalidFlagValue("maybe".to_string()))
    );
}

#[test]
fn build_flag_sets_case_sensitivity() {
    let on = Config::build(&args(&["prog", "needle", "notes.txt", "yes"])).unwrap();
    assert!(on.case_sensitive);
    let off = Config::build(&args(&["prog", "needle", "notes.txt", "FALSE"])).unwrap();
    assert!(!off.case_sensitive);
}

#[test]
fn build_flag_error_carries_token() {
    assert_eq!(
        Config::build(&args(&["prog", "needle", "notes.txt", "perhaps"])).unwrap_err(),
        ConfigError::InvalidFlagValue("perhaps".to_string())
    );
}

#[test]
fn parse_args_three_tokens() {
    let config = Config::parse_args(&args(&["prog", "a", "b.txt"])).unwrap();
    assert_eq!(config.query, "a");
    assert_eq!(config.filename, "b.txt");
    assert!(!config.case_sensitive);
}
