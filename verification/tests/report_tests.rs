use lewrep::cli::{decide, Command, Config};
use lewrep::report::{
    cat_header, cat_line, first_match_text, help_screen, manpage_screen, push_explanation, search_banner,
    stdin_line, time_banner, MatchSink,
};

const RULE: &str = "──────────────────────────────────────────────────────────";

fn config(list: &[&str]) -> Config {
    let args: Vec<String> = list.iter().map(|s| s.to_string()).collect();
    match decide(&args, true) {
        Command::Search { config, .. } => config,
        _ => panic!("not a search"),
    }
}

fn sink(flags: &[&str], pattern: &str) -> MatchSink {
    let mut list = vec!["lewrep2"];
    list.extend_from_slice(flags);
    list.push(pattern);
    list.push(".");
    MatchSink::new("a.txt", &config(&list))
}

#[test]
fn plain_match_shows_name_and_line() {
    let mut s = sink(&[], "foo");
    let (out, go_on) = s.on_match(b"has foo here\r\n", Some(3));
    assert_eq!(out, "\x1b[35ma.txt\x1b[0m: \x1b[38;5;208mhas foo here\x1b[0m\n");
    assert!(go_on);
    assert_eq!(s.match_count, 0);
    assert!(s.buffered.is_empty());
}

#[test]
fn line_numbers_in_match_lines() {
    let mut s = sink(&["-n"], "foo");
    let (out, _) = s.on_match(b"has foo here\n", Some(3));
    assert_eq!(out, "\x1b[35ma.txt\x1b[0m:\x1b[1;35m3\x1b[0m: \x1b[38;5;208mhas foo here\x1b[0m\n");
    let (out, go_on) = s.on_match(b"has foo here\n", None);
    assert_eq!(out, "");
    assert!(go_on);
}

#[test]
fn no_filename_leaves_out_the_name() {
    let mut s = sink(&["-h", "-n"], "foo");
    let (out, _) = s.on_match(b"foo\n", Some(12));
    assert_eq!(out, "\x1b[1;35m12\x1b[0m: \x1b[38;5;208mfoo\x1b[0m\n");
    let mut s = sink(&["-h"], "foo");
    let (out, _) = s.on_match(b"foo\n", Some(12));
    assert_eq!(out, "\x1b[38;5;208mfoo\x1b[0m\n");
}

#[test]
fn delete_colour_uses_reset_codes() {
    let mut s = sink(&["-d"], "foo");
    let (out, _) = s.on_match(b"has foo\n", Some(1));
    assert_eq!(out, "\x1b[0ma.txt\x1b[0m: \x1b[0mhas foo\x1b[0m\n");
}

#[test]
fn only_matching_shows_the_matched_text() {
    let mut s = sink(&["-o"], "foo");
    let (out, _) = s.on_match(b"x = foo(bar) baz\n", Some(2));
    assert_eq!(out, "\x1b[35ma.txt\x1b[0m: \x1b[38;5;208mfoo\x1b[0m\n");
    let mut s = sink(&["-o", "-h"], "foo");
    let (out, _) = s.on_match(b"xx foobar yy\n", Some(1));
    assert_eq!(out, "\x1b[38;5;208mfoo\x1b[0m\n");
    let mut s = sink(&["-o", "-n"], "foo");
    let (out, _) = s.on_match(b"  \"foo:bar\",\n", Some(9));
    assert_eq!(out, "\x1b[35ma.txt\x1b[0m:\x1b[1;35m9\x1b[0m: \x1b[38;5;208mfoo\x1b[0m\n");
    let (out, _) = s.on_match(b"foo\n", None);
    assert_eq!(out, "\x1b[38;5;208mfoo\x1b[0m\n");
}

#[test]
fn only_matching_follows_the_regex() {
    let mut s = sink(&["-o", "-h"], "f.o");
    let (out, go_on) = s.on_match(b"a fao b\n", Some(1));
    assert_eq!(out, "\x1b[38;5;208mfao\x1b[0m\n");
    assert!(go_on);
    let mut s = sink(&["-o", "-h", "-i"], "FOO");
    let (out, _) = s.on_match(b"a Foo\n", Some(1));
    assert_eq!(out, "\x1b[38;5;208mFoo\x1b[0m\n");
    let mut s = sink(&["-o", "-h", "-w"], "foo|bar");
    let (out, _) = s.on_match(b"xbar bar\n", Some(1));
    assert_eq!(out, "\x1b[38;5;208mbar\x1b[0m\n");
    let mut s = sink(&["-o", "-h", "-v"], "foo");
    let (out, _) = s.on_match(b"nothing here\n", Some(1));
    assert_eq!(out, "");
}

#[test]
fn files_with_matches_prints_name_and_stops() {
    let mut s = sink(&["-l"], "foo");
    let (out, go_on) = s.on_match(b"foo\n", Some(1));
    assert_eq!(out, "a.txt\n");
    assert!(!go_on);
}

#[test]
fn count_mode_counts_silently() {
    let mut s = sink(&["-c"], "foo");
    assert_eq!(s.on_match(b"foo\n", Some(1)), (String::new(), true));
    assert_eq!(s.on_match(b"foo foo\n", Some(2)), (String::new(), true));
    assert_eq!(s.on_context(b"bar\n", Some(3)), "");
    assert_eq!(s.match_count, 2);
    assert_eq!(s.finish(), "\x1b[35ma.txt\x1b[0m:2\n");
}

#[test]
fn count_mode_variants() {
    let mut s = sink(&["-c", "-h"], "foo");
    s.on_match(b"foo\n", Some(1));
    assert_eq!(s.finish(), "1\n");
    let mut s = sink(&["-c", "-d"], "foo");
    s.on_match(b"foo\n", Some(1));
    assert_eq!(s.finish(), "\x1b[38;2;255;255;255ma.txt\x1b[0m:1\n");
    let s = sink(&["-c"], "foo");
    assert_eq!(s.finish(), "");
}

#[test]
fn json_records_escape_quotes_and_backslashes() {
    let mut s = MatchSink::new("d\\\"q.txt", &config(&["lewrep2", "-j", "hi", "."]));
    let (out, go_on) = s.on_match(b"say \"hi\" \\ok\r\n", Some(7));
    assert_eq!(
        out,
        "{\"type\":\"match\",\"path\":\"d\\\\\\\"q.txt\",\"line_number\":7,\"text\":\"say \\\"hi\\\" \\\\ok\"}\n"
    );
    assert!(go_on);
    let (out, _) = s.on_match(b"hi\n", None);
    assert_eq!(out, "{\"type\":\"match\",\"path\":\"d\\\\\\\"q.txt\",\"line_number\":0,\"text\":\"hi\"}\n");
    let ctx = s.on_context(b"before\nafter", Some(6));
    assert_eq!(ctx, "{\"type\":\"context\",\"path\":\"d\\\\\\\"q.txt\",\"line_number\":6,\"text\":\"before\"}\n");
}

#[test]
fn json_records_escape_control_characters() {
    let mut s = MatchSink::new("f.txt", &config(&["lewrep2", "-j", "a", "."]));
    let (out, _) = s.on_match(b"a\tb\x1b[31m\x01\n", Some(3));
    assert_eq!(out, "{\"type\":\"match\",\"path\":\"f.txt\",\"line_number\":3,\"text\":\"a\\tb\\u001b[31m\\u0001\"}\n");
}

#[test]
fn json_mode_leaves_out_explanations() {
    let mut s = MatchSink::new("f.txt", &config(&["lewrep2", "-j", "-X", "(a)", "."]));
    let (out, go_on) = s.on_match(b"xa\n", Some(1));
    assert_eq!(out, "{\"type\":\"match\",\"path\":\"f.txt\",\"line_number\":1,\"text\":\"xa\"}\n");
    assert!(go_on);
}

#[test]
fn tree_view_buffers_then_draws() {
    let mut s = sink(&["-T"], "line");
    assert_eq!(s.on_match(b"line one\n", Some(1)), (String::new(), true));
    assert_eq!(s.on_match(b"line two\r\n", Some(4)), (String::new(), true));
    assert_eq!(s.buffered, vec![(1u64, "line one".to_string()), (4u64, "line two".to_string())]);
    assert_eq!(
        s.finish(),
        "\x1b[36m📄 \x1b[0m\x1b[1;35ma.txt\x1b[0m\n├── \x1b[38;5;208mline one\x1b[0m\n└── \x1b[38;5;208mline two\x1b[0m\n\n"
    );
}

#[test]
fn tree_view_with_numbers_and_without_colour() {
    let mut s = sink(&["-T", "-n", "-d"], "x");
    s.on_match(b"x\n", Some(5));
    s.on_match(b"xx\n", None);
    assert_eq!(
        s.finish(),
        "\x1b[1;38;2;255;255;255ma.txt\x1b[0m\n├── [\x1b[1;38;2;255;255;255m5\x1b[0m] \x1b[38;2;255;255;255mx\x1b[0m\n└── \x1b[38;2;255;255;255mxx\x1b[0m\n\n"
    );
    let s = sink(&["-T"], "x");
    assert_eq!(s.finish(), "");
}

#[test]
fn context_lines() {
    let s = sink(&[], "foo");
    assert_eq!(s.on_context(b"ctx line\nmore", Some(2)), "\x1b[35ma.txt\x1b[0m- \x1b[38;5;208mctx line\x1b[0m\n");
    let s = sink(&["-n"], "foo");
    assert_eq!(
        s.on_context(b"ctx\r\n", Some(2)),
        "\x1b[35ma.txt\x1b[0m-\x1b[1;35m2\x1b[0m- \x1b[38;5;208mctx\x1b[0m\n"
    );
    assert_eq!(s.on_context(b"ctx\n", None), "");
    let s = sink(&["-d", "-h"], "foo");
    assert_eq!(s.on_context(b"ctx\n", Some(2)), "\x1b[38;2;255;255;255mctx\x1b[0m\n");
    let s = sink(&["-d", "-n"], "foo");
    assert_eq!(
        s.on_context(b"ctx\n", Some(2)),
        "\x1b[38;2;255;255;255ma.txt\x1b[0m-\x1b[1;38;2;255;255;255m2\x1b[0m- \x1b[38;2;255;255;255mctx\x1b[0m\n"
    );
}

const EXPLAIN_HEAD: &str = "  \x1b[1;36m[EXPLAIN]\x1b[0m\n    Full Match: '";

#[test]
fn explanation_lists_groups() {
    let mut out = String::from(">");
    push_explanation(&mut out, "(?P<word>f)(o+)", false, "xfoo");
    let expected = format!(
        ">{}\x1b[33mfoo\x1b[0m\n    => Group \x1b[32m1\x1b[0m\x1b[34m (word)\x1b[0m: '\x1b[38;2;255;135;0mf\x1b[0m' (at bytes 1-2)\n    => Group \x1b[32m2\x1b[0m\x1b[34m\x1b[0m: '\x1b[38;2;255;135;0moo\x1b[0m' (at bytes 2-4)\n",
        EXPLAIN_HEAD
    );
    assert_eq!(out, expected);
}

#[test]
fn explanation_skips_unmatched_groups_and_bad_patterns() {
    let mut out = String::new();
    push_explanation(&mut out, "a(b)?(c)", false, "ac");
    let expected = format!(
        "{}\x1b[33mac\x1b[0m\n    => Group \x1b[32m2\x1b[0m\x1b[34m\x1b[0m: '\x1b[38;2;255;135;0mc\x1b[0m' (at bytes 1-2)\n",
        EXPLAIN_HEAD
    );
    assert_eq!(out, expected);
    let mut out = String::new();
    push_explanation(&mut out, "(", false, "(");
    assert_eq!(out, "");
    push_explanation(&mut out, "zzz", false, "abc");
    assert_eq!(out, "");
}

#[test]
fn explanation_honours_ignore_case() {
    let mut out = String::new();
    push_explanation(&mut out, "FOO", true, "a foo");
    assert_eq!(out, format!("{}\x1b[33mfoo\x1b[0m\n", EXPLAIN_HEAD));
    let mut out = String::new();
    push_explanation(&mut out, "FOO", false, "a foo");
    assert_eq!(out, "");
}

#[test]
fn explain_mode_follows_match_line() {
    let mut s = sink(&["-X"], "o+");
    let (out, _) = s.on_match(b"foo\n", Some(1));
    let expected =
        format!("\x1b[35ma.txt\x1b[0m: \x1b[38;5;208mfoo\x1b[0m\n{}\x1b[33moo\x1b[0m\n", EXPLAIN_HEAD);
    assert_eq!(out, expected);
}

#[test]
fn help_and_manpage_are_trimmed_and_coloured() {
    let help = help_screen();
    assert!(help.starts_with("\x1b[32m=====") && help.ends_with("=====\x1b[0m\n"));
    assert!(help.contains("LEWREP2 HELP"));
    let man = manpage_screen();
    assert!(man.starts_with("\x1b[36mLEWREP2(1)"));
    assert!(man.ends_with("Written by xlewis1.\x1b[0m\n"));
}

#[test]
fn time_banner_layout() {
    assert_eq!(
        time_banner("T"),
        format!("[\x1b[1;36mTIMO RUNTIME\x1b[0m] \x1b[38;2;255;135;0mT\x1b[0m\n{}\n", RULE)
    );
}

#[test]
fn search_banner_layouts() {
    assert_eq!(search_banner("T", 2, 1500, true), format!("[TIMO RUNTIME] T\n{}\n", RULE));
    assert_eq!(
        search_banner("T", 2, 1500, false),
        format!(
            "[\x1b[1;36mTIMO RUNTIME\x1b[0m] \x1b[38;2;255;135;0mT\x1b[0m\n[\x1b[1;32mSTORAGE INSIGHTS\x1b[0m] Scanned Files: \x1b[33m2\x1b[0m | Aggregate Volume: \x1b[33m1.5 KB\x1b[0m | Average Size: \x1b[33m750 B\x1b[0m\n{}\n",
            RULE
        )
    );
    let none = search_banner("T", 0, 0, false);
    assert!(none.contains("Scanned Files: \x1b[33m0\x1b[0m | Aggregate Volume: \x1b[33m0 B\x1b[0m | Average Size: \x1b[33m0 B\x1b[0m"));
}

#[test]
fn cat_header_and_lines() {
    assert_eq!(
        cat_header("src/a.rs", false),
        format!("\x1b[1;36m📂 Cat View: \x1b[0m\x1b[1;35msrc/a.rs\x1b[0m\n{}\n", RULE)
    );
    assert_eq!(cat_header("src/a.rs", true), "");
    assert_eq!(cat_line(0, "abc", true, true), "\x1b[1;35m1\x1b[0m: abc\n");
    assert_eq!(cat_line(9, "abc", true, false), "\x1b[1;35m10\x1b[0m: \x1b[38;5;208mabc\x1b[0m\n");
    assert_eq!(cat_line(4, "abc", false, true), "abc\n");
    assert_eq!(cat_line(4, "abc", false, false), "\x1b[38;5;208mabc\x1b[0m\n");
}

#[test]
fn stdin_lines() {
    assert_eq!(stdin_line("a foo b", 2, "foo", false, true), "\x1b[1;35m3\x1b[0m: \x1b[38;2;255;135;0ma foo b\x1b[0m\n");
    assert_eq!(stdin_line("a foo b", 2, "foo", false, false), "\x1b[38;2;255;135;0ma foo b\x1b[0m\n");
    assert_eq!(stdin_line("a foobar, b", 0, "foo", true, false), "\x1b[38;2;255;135;0mfoo\x1b[0m\n");
    assert_eq!(stdin_line("a foo b", 4, "foo", true, true), "\x1b[1;35m5\x1b[0m: \x1b[38;2;255;135;0mfoo\x1b[0m\n");
    assert_eq!(stdin_line("a fao b", 0, "f.o", false, true), "");
}

#[test]
fn first_match_texts() {
    assert_eq!(first_match_text("foo", false, "let x = (foobar);"), Some("foo".to_string()));
    assert_eq!(first_match_text("v[a-z]+", false, "key=value: here"), Some("value".to_string()));
    assert_eq!(first_match_text("z", false, "abc"), None);
    assert_eq!(first_match_text("(", false, "("), None);
    assert_eq!(first_match_text("B", true, "abc"), Some("b".to_string()));
    assert_eq!(first_match_text(r"\b(?:foo|bar)\b", false, "foobar"), None);
}
