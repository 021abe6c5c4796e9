use lewrep::cli::{decide, Command, Config};
use lewrep::walk::{
    file_is_selected, file_plan, looks_binary, search_pattern, vscode_entry_allowed, walk_settings, FilePlan,
};

fn config(list: &[&str]) -> Config {
    let args: Vec<String> = list.iter().map(|s| s.to_string()).collect();
    match decide(&args, true) {
        Command::Search { config, .. } => config,
        _ => panic!("not a search"),
    }
}

#[test]
fn default_walk_hides_and_honours_gitignore() {
    let w = walk_settings(&config(&["lewrep2", "p"]).switches);
    assert!(w.skip_hidden && w.git_ignore && !w.vscode_filter);
    assert_eq!(w.read_parent_ignores, None);
}

#[test]
fn unrestricted_levels_lift_restrictions() {
    let w = walk_settings(&config(&["lewrep2", "-u", "p"]).switches);
    assert!(!w.skip_hidden && w.git_ignore);
    let w = walk_settings(&config(&["lewrep2", "-uu", "p"]).switches);
    assert!(!w.skip_hidden && !w.git_ignore);
    let w = walk_settings(&config(&["lewrep2", "-I", "p"]).switches);
    assert!(w.skip_hidden && !w.git_ignore);
}

#[test]
fn hide_overrides_unrestricted() {
    let a = walk_settings(&config(&["lewrep2", "--Hide", "-uuI", "--vscode", "p"]).switches);
    let b = walk_settings(&config(&["lewrep2", "--Hide", "p"]).switches);
    assert_eq!(a, b);
    assert!(a.skip_hidden && a.git_ignore && !a.vscode_filter);
    assert_eq!(a.read_parent_ignores, Some(true));
}

#[test]
fn vscode_filter_entries() {
    let comps = |list: &[&str]| list.iter().map(|s| s.to_string()).collect::<Vec<String>>();
    assert!(vscode_entry_allowed(Some(".vscode"), 1, &comps(&[".", ".vscode"])));
    assert!(vscode_entry_allowed(Some(".settings"), 2, &comps(&[".", ".vscode", ".settings"])));
    assert!(!vscode_entry_allowed(Some(".git"), 1, &comps(&[".", ".git"])));
    assert!(vscode_entry_allowed(Some("src"), 1, &comps(&[".", "src"])));
    assert!(vscode_entry_allowed(None, 1, &comps(&["."])));
    assert!(!vscode_entry_allowed(Some(".vscode2"), 0, &comps(&[".vscode"])));
}

#[test]
fn extension_filter_lowercases() {
    let c = config(&["lewrep2", "-x", "rs|c", "p"]);
    assert!(file_is_selected(&c, Some("rs")));
    assert!(file_is_selected(&c, Some("RS")));
    assert!(file_is_selected(&c, Some("C")));
    assert!(!file_is_selected(&c, Some("h")));
    assert!(!file_is_selected(&c, None));
    let all = config(&["lewrep2", "p"]);
    assert!(file_is_selected(&all, None));
    assert!(file_is_selected(&all, Some("exe")));
}

#[test]
fn hide_skips_binary_extensions() {
    let c = config(&["lewrep2", "--Hide", "p"]);
    for e in ["bin", "exe", "o", "a"] {
        assert!(!file_is_selected(&c, Some(e)));
    }
    assert!(file_is_selected(&c, Some("EXE")));
    assert!(file_is_selected(&c, Some("rs")));
    assert!(file_is_selected(&c, None));
}

#[test]
fn binary_sniffing() {
    assert!(looks_binary(&[1, 2, 0, 3]));
    assert!(!looks_binary(b"plain text"));
    assert!(!looks_binary(&[]));
}

#[test]
fn word_regexp_wraps_pattern() {
    assert_eq!(search_pattern(&config(&["lewrep2", "-w", "foo"])), r"\b(?:foo)\b");
    assert_eq!(search_pattern(&config(&["lewrep2", "-w", "foo|bar"])), r"\b(?:foo|bar)\b");
    assert_eq!(search_pattern(&config(&["lewrep2", "fo+"])), "fo+");
}

#[test]
fn file_plans() {
    let plain = config(&["lewrep2", "p"]).switches;
    assert_eq!(file_plan(&plain, true), FilePlan::Search { banner: false });
    let hide = config(&["lewrep2", "--Hide", "--cat", "p"]).switches;
    assert_eq!(file_plan(&hide, true), FilePlan::Skip);
    assert_eq!(file_plan(&hide, false), FilePlan::Cat);
    let timed = config(&["lewrep2", "--time", "p"]).switches;
    assert_eq!(file_plan(&timed, false), FilePlan::Search { banner: true });
    let cat_timed = config(&["lewrep2", "--cat", "--time", "p"]).switches;
    assert_eq!(file_plan(&cat_timed, false), FilePlan::Cat);
}
