use minigrep::config::{Argument, Config, ConfigError};

#[test]
fn config_build_with_valid_args() {
    let args = vec![
        "program".to_string(),
        "query".to_string(),
        "file.txt".to_string(),
    ];
    let config = Config::build(&args, false).unwrap();

    assert_eq!(config.query, "query");
    assert_eq!(config.file_path, "file.txt");
    assert!(!config.ignore_case);
}

#[test]
fn config_build_with_not_enough_args() {
    let args = vec!["program".to_string(), "query".to_string()];
    let config = Config::build(&args, false);

    assert!(config.is_err());
    assert_eq!(config.unwrap_err().message(), "Didn't get a file path");
}

#[test]
fn config_build_with_ignore_case() {
    let args = vec![
        "program".to_string(),
        "query".to_string(),
        "file.txt".to_string(),
    ];
    let config = Config::build(&args, true).unwrap();

    assert!(config.ignore_case);
}

#[test]
fn config_build_missing_file_path_is_named() {
    let args = vec!["program".to_string(), "query".to_string()];
    let err = Config::build(&args, false).unwrap_err();

    assert_eq!(err, ConfigError::MissingArgument(Argument::FilePath));
}

#[test]
fn config_build_without_query() {
    let only_program = vec!["program".to_string()];
    let err = Config::build(&only_program, false).unwrap_err();
    assert_eq!(err, ConfigError::MissingArgument(Argument::Query));
    assert_eq!(err.message(), "Didn't get a query string");

    let nothing: Vec<String> = Vec::new();
    let err = Config::build(&nothing, true).unwrap_err();
    assert_eq!(err, ConfigError::MissingArgument(Argument::Query));
}

#[test]
fn config_build_ignores_extra_args() {
    let args = vec![
        "program".to_string(),
        "needle".to_string(),
        "haystack.txt".to_string(),
        "extra".to_string(),
    ];
    let config = Config::build(&args, false).unwrap();

    assert_eq!(config.query, "needle");
    assert_eq!(config.file_path, "haystack.txt");
    assert!(!config.ignore_case);
}
