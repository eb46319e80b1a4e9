use tenki::cli::{parse_args, Command};

fn args(list: &[&str]) -> Vec<String> {
    list.iter().map(|s| s.to_string()).collect()
}

fn run_at(list: &[&str]) -> Option<(String, String)> {
    match parse_args(&args(list)) {
        Ok(Command::Run(at)) => at,
        other => panic!("unexpected: {other:?}"),
    }
}

#[test]
fn no_arguments_means_run_where_we_are() {
    assert_eq!(run_at(&[]), None);
}

#[test]
fn coordinates_come_in_pairs() {
    assert_eq!(
        run_at(&["--lat", "35.72", "--lon", "140.65"]),
        Some(("35.72".to_string(), "140.65".to_string()))
    );
    assert_eq!(
        parse_args(&args(&["--lat", "35.72"])).unwrap_err(),
        "--lat and --lon must be given together"
    );
}

#[test]
fn bad_values_are_named() {
    assert_eq!(parse_args(&args(&["--lat"])).unwrap_err(), "--lat requires a value");
    assert_eq!(parse_args(&args(&["--lon", "east"])).unwrap_err(), "invalid longitude: east");
    assert_eq!(
        parse_args(&args(&["--lat", "abc", "--bogus"])).unwrap_err(),
        "invalid latitude: abc"
    );
    assert_eq!(parse_args(&args(&["--bogus"])).unwrap_err(), "unknown argument: --bogus");
}

#[test]
fn help_version_and_forget_stop_the_reading() {
    assert!(matches!(parse_args(&args(&["-h", "--bogus"])), Ok(Command::Help)));
    assert!(matches!(parse_args(&args(&["--version"])), Ok(Command::Version)));
    assert!(matches!(parse_args(&args(&["--forget", "--lat"])), Ok(Command::Forget)));
    assert!(matches!(parse_args(&args(&["--bogus", "-h"])), Err(_)));
}
