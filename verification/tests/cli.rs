use coclash::cli::{help_text, Cli};

fn args(list: &[&str]) -> Vec<String> {
    list.iter().map(|s| s.to_string()).collect()
}

#[test]
fn test_empty_args_is_tui() {
    assert_eq!(Cli::parse(args(&[])), Cli::Tui);
}

#[test]
fn test_unknown_arg_falls_back_to_tui() {
    assert_eq!(Cli::parse(args(&["--wat"])), Cli::Tui);
}

#[test]
fn test_core_collects_rest_verbatim() {
    assert_eq!(
        Cli::parse(args(&["core", "-d", "/tmp/x", "-f", "config.yaml"])),
        Cli::Core(args(&["-d", "/tmp/x", "-f", "config.yaml"]))
    );
    assert_eq!(Cli::parse(args(&["core"])), Cli::Core(vec![]));
    assert_eq!(
        Cli::parse(args(&["core", "--help"])),
        Cli::Core(args(&["--help"]))
    );
}

#[test]
fn test_core_alias() {
    assert_eq!(Cli::parse(args(&["--core", "-v"])), Cli::Core(args(&["-v"])));
}

#[test]
fn test_help() {
    assert_eq!(Cli::parse(args(&["help"])), Cli::Help);
    assert_eq!(Cli::parse(args(&["-h"])), Cli::Help);
    assert_eq!(Cli::parse(args(&["--help"])), Cli::Help);
    assert!(help_text().contains("coclash core"));
    assert!(help_text().starts_with("coclash 0.1.0 - "));
}
