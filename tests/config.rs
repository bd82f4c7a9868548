use grep_remake::{Config, ConfigError};

fn strings(args: &[&str]) -> Vec<String> {
    args.iter().map(|a| a.to_string()).collect()
}

#[test]
fn missing_filename_is_an_error() {
    let args = strings(&["grep", "query"]);
    assert_eq!(Config::new(&args, false).err(), Some(ConfigError::MissingArguments));
    assert_eq!(Config::new(&strings(&["grep"]), true).err(), Some(ConfigError::MissingArguments));
    assert_eq!(Config::new(&[], false).err(), Some(ConfigError::MissingArguments));
}

#[test]
fn error_message() {
    assert_eq!(ConfigError::MissingArguments.message(), "Some arguments appear to be missing");
}

#[test]
fn arguments_are_taken_in_order() {
    let args = strings(&["grep", "needle", "hay.txt", "extra"]);
    let config = Config::new(&args, false).ok().unwrap();
    assert_eq!(config.query, "needle");
    assert_eq!(config.filename, "hay.txt");
    assert!(config.case_sensitive);
}

#[test]
fn insensitive_flag_turns_case_sensitivity_off() {
    let args = strings(&["grep", "needle", "hay.txt"]);
    let config = Config::new(&args, true).ok().unwrap();
    assert!(!config.case_sensitive);
}
