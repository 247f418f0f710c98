use export_findmy::options::{
    log_filters, parse_args, resolve_apple_id, CommandLine, Options, USAGE,
};

fn command(args: &[&str]) -> CommandLine {
    let mut all = vec!["export_findmy".to_string()];
    all.extend(args.iter().map(|a| a.to_string()));
    parse_args(&all)
}

fn options(args: &[&str]) -> Options {
    match command(args) {
        CommandLine::Run(options) => options,
        _ => panic!("no run"),
    }
}

#[test]
fn defaults_hold_without_arguments() {
    let o = options(&[]);
    assert_eq!(o.apple_id, "");
    assert_eq!(o.anisette_url, "https://ani.sidestore.io");
    assert_eq!(o.output_dir, ".");
    assert!(!o.cleanup_fake_bottles);
    assert!(!o.assume_yes);
    assert!(matches!(parse_args(&vec![]), CommandLine::Run(_)));
}

#[test]
fn every_option_is_read() {
    let o = options(&[
        "--apple-id", "me@example.com", "--anisette-url", "http://localhost", "--output-dir",
        "out", "--cleanup-fake-bottles", "--yes",
    ]);
    assert_eq!(o.apple_id, "me@example.com");
    assert_eq!(o.anisette_url, "http://localhost");
    assert_eq!(o.output_dir, "out");
    assert!(o.cleanup_fake_bottles);
    assert!(o.assume_yes);
    assert!(options(&["-y"]).assume_yes);
}

#[test]
fn the_last_value_wins() {
    let o = options(&["--output-dir", "a", "--output-dir", "b"]);
    assert_eq!(o.output_dir, "b");
}

#[test]
fn a_value_may_look_like_an_option() {
    assert_eq!(options(&["--apple-id", "--help"]).apple_id, "--help");
}

#[test]
fn help_is_recognised() {
    assert!(matches!(command(&["--help"]), CommandLine::Help));
    assert!(matches!(command(&["-h", "--nonsense"]), CommandLine::Help));
    assert!(USAGE.starts_with("Usage: export_findmy [OPTIONS]\n"));
    assert!(USAGE.ends_with("WARNING: Output plist files contain private key material."));
    assert_eq!(USAGE.lines().count(), 10);
}

#[test]
fn the_first_unknown_argument_is_named() {
    match command(&["--yes", "--nonsense", "--help"]) {
        CommandLine::UnknownArgument(arg) => assert_eq!(arg, "--nonsense"),
        _ => panic!("not refused"),
    }
    assert!(matches!(command(&["--Yes"]), CommandLine::UnknownArgument(_)));
    assert!(matches!(command(&[""]), CommandLine::UnknownArgument(_)));
}

#[test]
fn an_option_without_its_value_is_named() {
    for flag in ["--apple-id", "--anisette-url", "--output-dir"] {
        match command(&["-y", flag]) {
            CommandLine::MissingValue(arg) => assert_eq!(arg, flag),
            _ => panic!("not refused"),
        }
    }
}

#[test]
fn the_apple_id_is_asked_for_where_none_is_given() {
    assert_eq!(resolve_apple_id(String::new(), " me@example.com\n"), "me@example.com");
    assert_eq!(resolve_apple_id("you@example.com".to_string(), "me"), "you@example.com");
}

#[test]
fn log_filters_come_from_the_environment() {
    assert_eq!(log_filters(Some("debug".to_string())), "debug");
    assert_eq!(log_filters(Some(String::new())), "");
    assert_eq!(log_filters(None), "info");
}
