use cmdbench::config::{BenchmarkConfig, ConfigError};
use cmdbench::options::from_args;

fn strings(items: &[&str]) -> Vec<String> {
    items.iter().map(|s| s.to_string()).collect()
}

fn read(items: &[&str]) -> Result<BenchmarkConfig, ConfigError> {
    from_args(&strings(items))
}

#[test]
fn a_bare_command_gets_the_defaults() {
    let config = read(&["true"]).unwrap();
    assert_eq!(config.command(), "true");
    assert!(config.arguments().is_empty());
    assert_eq!(config.run_count(), 5);
    assert!(!config.verbose());
    assert!(!config.debug());
}

#[test]
fn short_options_are_read() {
    let config = read(&["-n", "3", "-d", "echo", "hi", "there"]).unwrap();
    assert_eq!(config.command(), "echo");
    assert_eq!(config.arguments(), &strings(&["hi", "there"]));
    assert_eq!(config.run_count(), 3);
    assert!(config.debug());
    assert!(!config.verbose());
}

#[test]
fn long_options_are_read() {
    let config = read(&["--number", "12", "--verbose", "sleep", "1"]).unwrap();
    assert_eq!(config.command(), "sleep");
    assert_eq!(config.arguments(), &strings(&["1"]));
    assert_eq!(config.run_count(), 12);
    assert!(config.verbose());
    assert!(!config.debug());
}

#[test]
fn a_value_may_be_attached_to_its_option() {
    assert_eq!(read(&["-n7", "true"]).unwrap().run_count(), 7);
    assert_eq!(read(&["--number=8", "true"]).unwrap().run_count(), 8);
}

#[test]
fn flags_may_be_clustered() {
    let config = read(&["-dv", "true"]).unwrap();
    assert!(config.debug());
    assert!(config.verbose());
    let config = read(&["-vdn2", "true"]).unwrap();
    assert!(config.debug());
    assert!(config.verbose());
    assert_eq!(config.run_count(), 2);
}

#[test]
fn options_may_follow_the_command() {
    let config = read(&["echo", "-v", "hi", "-n", "2"]).unwrap();
    assert_eq!(config.command(), "echo");
    assert_eq!(config.arguments(), &strings(&["hi"]));
    assert!(config.verbose());
    assert_eq!(config.run_count(), 2);
}

#[test]
fn a_double_dash_ends_the_options() {
    let config = read(&["-d", "--", "ls", "-l", "--verbose", "-n", "9"]).unwrap();
    assert_eq!(config.command(), "ls");
    assert_eq!(config.arguments(), &strings(&["-l", "--verbose", "-n", "9"]));
    assert!(config.debug());
    assert!(!config.verbose());
    assert_eq!(config.run_count(), 5);
}

#[test]
fn a_single_dash_is_a_free_argument() {
    let config = read(&["cat", "-"]).unwrap();
    assert_eq!(config.command(), "cat");
    assert_eq!(config.arguments(), &strings(&["-"]));
}

#[test]
fn an_unknown_option_is_a_usage_error() {
    assert_eq!(
        read(&["-x", "true"]),
        Err(ConfigError::Usage("Unrecognized option: 'x'".to_string()))
    );
    assert_eq!(
        read(&["--nope", "true"]),
        Err(ConfigError::Usage("Unrecognized option: 'nope'".to_string()))
    );
}

#[test]
fn a_count_option_without_value_is_a_usage_error() {
    assert_eq!(
        read(&["true", "-n"]),
        Err(ConfigError::Usage("Argument to option 'n' missing".to_string()))
    );
}

#[test]
fn a_repeated_option_is_a_usage_error() {
    assert_eq!(
        read(&["-d", "--debug", "true"]),
        Err(ConfigError::Usage("Option 'debug' given more than once".to_string()))
    );
    assert_eq!(
        read(&["-n", "1", "-n", "2", "true"]),
        Err(ConfigError::Usage("Option 'number' given more than once".to_string()))
    );
}

#[test]
fn a_value_for_a_flag_is_a_usage_error() {
    assert_eq!(
        read(&["--debug=yes", "true"]),
        Err(ConfigError::Usage("Option 'debug' does not take an argument".to_string()))
    );
}

#[test]
fn a_usage_error_comes_before_the_other_checks() {
    assert_eq!(
        read(&["-n", "zero", "-x"]),
        Err(ConfigError::Usage("Unrecognized option: 'x'".to_string()))
    );
}

#[test]
fn a_bad_run_count_is_rejected() {
    assert_eq!(read(&["-n", "0", "true"]), Err(ConfigError::InvalidRunCount));
    assert_eq!(read(&["-n", "many", "true"]), Err(ConfigError::InvalidRunCount));
    assert_eq!(read(&["--number=-4", "true"]), Err(ConfigError::InvalidRunCount));
    assert_eq!(read(&["--number=", "true"]), Err(ConfigError::InvalidRunCount));
    assert_eq!(read(&["-n", "4294967296", "true"]), Err(ConfigError::InvalidRunCount));
}

#[test]
fn a_bad_run_count_comes_before_a_missing_command() {
    assert_eq!(read(&["-n", "0"]), Err(ConfigError::InvalidRunCount));
}

#[test]
fn a_missing_command_is_rejected() {
    assert_eq!(read(&[]), Err(ConfigError::MissingCommand));
    assert_eq!(read(&["-d", "-v"]), Err(ConfigError::MissingCommand));
    assert_eq!(read(&["-n", "3"]), Err(ConfigError::MissingCommand));
    assert_eq!(read(&["--"]), Err(ConfigError::MissingCommand));
    assert_eq!(read(&["", "x"]), Err(ConfigError::MissingCommand));
}

#[test]
fn the_next_argument_is_taken_as_the_count_whatever_it_is() {
    assert_eq!(read(&["-n", "-d", "true"]), Err(ConfigError::InvalidRunCount));
    assert_eq!(read(&["-n", "true"]), Err(ConfigError::InvalidRunCount));
}

#[test]
fn reading_twice_gives_the_same_configuration() {
    let line = strings(&["-v", "-n", "4", "make", "-j", "8"]);
    assert_eq!(from_args(&line), from_args(&line));
}
