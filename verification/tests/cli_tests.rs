use lewrep::cli::{decide, parse_extensions, stdin_switches, Command, Config};

fn args(list: &[&str]) -> Vec<String> {
    list.iter().map(|s| s.to_string()).collect()
}

fn search(list: &[&str]) -> (Config, Vec<String>) {
    match decide(&args(list), true) {
        Command::Search { config, paths } => (config, paths),
        Command::Fail { message } => panic!("failed: {}", message),
        _ => panic!("not a search"),
    }
}

fn failure(list: &[&str], terminal: bool) -> String {
    match decide(&args(list), terminal) {
        Command::Fail { message } => message,
        _ => panic!("expected a failure"),
    }
}

#[test]
fn help_wins_everywhere() {
    assert!(matches!(decide(&args(&["lewrep2", "-i", "x", "--help"]), true), Command::Help));
    assert!(matches!(decide(&args(&["lewrep2", "--manpage", "--help"]), false), Command::Help));
    assert!(matches!(decide(&args(&["lewrep2", "--manpage"]), true), Command::Manpage));
}

#[test]
fn time_alone() {
    assert!(matches!(decide(&args(&["lewrep2", "--time"]), true), Command::TimeOnly));
    assert!(matches!(decide(&args(&["lewrep2", "-t"]), false), Command::TimeOnly));
    let (config, _) = search(&["lewrep2", "--time", "pat"]);
    assert!(config.switches.show_time);
}

#[test]
fn piped_input() {
    match decide(&args(&["lewrep2", "needle", "-n"]), false) {
        Command::Stdin { pattern } => assert_eq!(pattern, "needle"),
        _ => panic!("expected stdin mode"),
    }
    assert_eq!(failure(&["lewrep2"], false), "Error: Pattern required for standard input piping.");
    assert_eq!(stdin_switches(&args(&["lewrep2", "x", "-o", "--line-number"])), (true, true));
    assert_eq!(stdin_switches(&args(&["lewrep2", "x", "-on"])), (false, false));
    assert_eq!(stdin_switches(&args(&["lewrep2", "x", "--only-matching"])), (true, false));
}

#[test]
fn usage_without_arguments() {
    assert_eq!(failure(&["lewrep2"], true), "Usage: lewrep2 [FLAGS] <PATTERN> [PATHS...]");
}

#[test]
fn pattern_and_default_path() {
    let (config, paths) = search(&["lewrep2", "struct Config"]);
    assert_eq!(config.pattern, "struct Config");
    assert_eq!(paths, vec!["."]);
    let (config, paths) = search(&["lewrep2", "TODO", "src/", "docs"]);
    assert_eq!(config.pattern, "TODO");
    assert_eq!(paths, vec!["src/", "docs"]);
}

#[test]
fn bundled_switches() {
    let (a, _) = search(&["lewrep2", "-in", "TODO", "src/"]);
    let (b, _) = search(&["lewrep2", "-i", "-n", "TODO", "src/"]);
    assert_eq!(a.switches, b.switches);
    assert!(a.switches.ignore_case && a.switches.line_numbers);
    assert!(!a.switches.invert_match);
    let (c, _) = search(&["lewrep2", "-vlIcXhwTdjto", "p"]);
    let s = c.switches;
    assert!(s.invert_match && s.filenames_only && s.explicit_ignore && s.count_only);
    assert!(s.explain_mode && s.no_filename && s.word_regexp && s.tree_view);
    assert!(s.delete_colour && s.json_mode && s.show_time && s.only_matching);
}

#[test]
fn unrestricted_levels_count() {
    assert_eq!(search(&["lewrep2", "-u", "p"]).0.switches.unrestricted_level, 1);
    assert_eq!(search(&["lewrep2", "-uu", "p"]).0.switches.unrestricted_level, 2);
    assert_eq!(search(&["lewrep2", "-uuu", "-u", "p"]).0.switches.unrestricted_level, 4);
}

#[test]
fn long_switches() {
    let (c, paths) = search(&["lewrep2", "--cat", "--Hide", "--vscode", "p", "dir"]);
    assert!(c.switches.cat_mode && c.switches.hide_all && c.switches.vscode_include);
    assert_eq!(paths, vec!["dir"]);
}

#[test]
fn unknown_long_option_is_positional() {
    let (c, paths) = search(&["lewrep2", "--json", "p"]);
    assert_eq!(c.pattern, "--json");
    assert_eq!(paths, vec!["p"]);
}

#[test]
fn context_options() {
    let (c, _) = search(&["lewrep2", "-A", "3", "-B", "2", "p"]);
    assert_eq!((c.context_after, c.context_before), (3, 2));
    let (c, _) = search(&["lewrep2", "-C", "5", "p"]);
    assert_eq!((c.context_after, c.context_before), (5, 5));
    let (c, _) = search(&["lewrep2", "-A", "lots", "p"]);
    assert_eq!(c.context_after, 0);
    assert_eq!(c.pattern, "p");
    let (c, _) = search(&["lewrep2", "p", "-A"]);
    assert_eq!(c.context_after, 0);
}

#[test]
fn extension_lists() {
    assert_eq!(parse_extensions("rs"), vec!["rs"]);
    assert_eq!(parse_extensions("c|h"), vec!["c", "h"]);
    assert_eq!(parse_extensions(" .CPP | hpp||.cc.|"), vec!["cpp", "hpp", "cc."]);
    assert_eq!(parse_extensions("|"), Vec::<String>::new());
    let (c, _) = search(&["lewrep2", "-x", "rs|TOML", "p"]);
    assert_eq!(c.extensions, vec!["rs", "toml"]);
}

#[test]
fn argument_errors() {
    assert_eq!(
        failure(&["lewrep2", "p", "-x"], true),
        "Error: -x requires a pipe-separated extension list (-x \"rs\" or -x \"c|cpp\")"
    );
    assert_eq!(failure(&["lewrep2", "-iz", "p"], true), "Error: Unknown flag '-z'");
    assert_eq!(failure(&["lewrep2", "-A5", "p"], true), "Error: Unknown flag '-A'");
    assert_eq!(failure(&["lewrep2", "-i"], true), "Error: Missing search pattern target.");
    assert_eq!(failure(&["lewrep2", "", "-n"], true), "Error: Missing search pattern target.");
}

#[test]
fn lone_dash_is_positional() {
    let (c, paths) = search(&["lewrep2", "-", "x"]);
    assert_eq!(c.pattern, "-");
    assert_eq!(paths, vec!["x"]);
}
