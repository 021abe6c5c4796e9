use vstd::prelude::*;

use crate::text::{
    chars_of, lemma_split_on_nonempty, list_contains, lowercase_of, parse_usize, parsed_usize, split_on, str_equals, string_of, strip_both,
    strip_front, to_lowercase, trim_class, trim_start_class, push_char, CharClass,
};

verus! {

/// The on/off switches of a search, and how far the hidden-file restrictions are lifted.
#[derive(Clone, Copy, Debug, PartialEq, Eq)]
pub struct Switches {
    pub ignore_case: bool,
    pub line_numbers: bool,
    pub invert_match: bool,
    pub filenames_only: bool,
    pub explicit_ignore: bool,
    pub count_only: bool,
    pub unrestricted_level: usize,
    pub explain_mode: bool,
    pub no_filename: bool,
    pub word_regexp: bool,
    pub tree_view: bool,
    pub delete_colour: bool,
    pub hide_all: bool,
    pub vscode_include: bool,
    pub json_mode: bool,
    pub cat_mode: bool,
    pub show_time: bool,
    pub only_matching: bool,
}

/// What the search is asked to do, as read from the command line.
pub struct Config {
    pub pattern: String,
    pub context_after: usize,
    pub context_before: usize,
    pub extensions: Vec<String>,
    pub switches: Switches,
}

/// The mathematical content of a `Config`.
pub ghost struct ConfigView {
    pub pattern: Seq<char>,
    pub context_after: nat,
    pub context_before: nat,
    pub extensions: Seq<Seq<char>>,
    pub switches: Switches,
}

impl View for Config {
    type V = ConfigView;

    open spec fn view(&self) -> ConfigView {
        ConfigView {
            pattern: self.pattern@,
            context_after: self.context_after as nat,
            context_before: self.context_before as nat,
            extensions: self.extensions.deep_view(),
            switches: self.switches,
        }
    }
}

/// One entry of a `-x` list, normalised: surrounding whitespace and leading dots removed,
/// then lowercased.
pub open spec fn normalized_extension(piece: Seq<char>) -> Seq<char> {
    lowercase_of(strip_front(strip_both(piece, CharClass::Whitespace), CharClass::Dot))
}

/// The normalised, non-empty entries of `pieces`, in order.
pub open spec fn normalized_extensions(pieces: Seq<Seq<char>>) -> Seq<Seq<char>>
    decreases pieces.len(),
{
    if pieces.len() == 0 {
        Seq::empty()
    } else {
        let rest = normalized_extensions(pieces.drop_last());
        let e = normalized_extension(pieces.last());
        if e.len() > 0 {
            rest.push(e)
        } else {
            rest
        }
    }
}

/// The extensions that a `-x` argument such as `"c|.H| rs"` selects.
pub open spec fn extension_list(arg: Seq<char>) -> Seq<Seq<char>> {
    normalized_extensions(split_on(arg, '|'))
}

/// Normalises one `-x` entry, `v[from..to]`.
fn normalize_piece(v: &Vec<char>, from: usize, to: usize) -> (e: String)
    requires
        from <= to <= v.len(),
    ensures
        e@ == normalized_extension(v@.subrange(from as int, to as int)),
{
    let trimmed = trim_class(&string_chars(v, from, to), CharClass::Whitespace);
    let undotted = trim_start_class(&chars_of(trimmed.as_str()), CharClass::Dot);
    to_lowercase(undotted.as_str())
}

/// The characters `v[from..to]` as a vector of their own.
fn string_chars(v: &Vec<char>, from: usize, to: usize) -> (w: Vec<char>)
    requires
        from <= to <= v.len(),
    ensures
        w@ == v@.subrange(from as int, to as int),
{
    let s = string_of(v, from, to);
    chars_of(s.as_str())
}

/// Reads a `-x` argument: a `|`-separated list of extensions.
pub fn parse_extensions(arg: &str) -> (exts: Vec<String>)
    ensures
        exts.deep_view() == extension_list(arg@),
{
    let v = chars_of(arg);
    let mut exts: Vec<String> = Vec::new();
    let mut start: usize = 0;
    let mut i: usize = 0;
    let ghost mut done: Seq<Seq<char>> = Seq::empty();
    assert(v@.subrange(0, 0) =~= Seq::<char>::empty());
    assert(split_on(Seq::<char>::empty(), '|') =~= done.push(Seq::<char>::empty()));
    while i < v.len()
        invariant
            v@ == arg@,
            start <= i <= v.len(),
            split_on(v@.subrange(0, i as int), '|') == done.push(v@.subrange(start as int, i as int)),
            exts.deep_view() == normalized_extensions(done),
        decreases v.len() - i,
    {
        let ghost prefix = v@.subrange(0, i as int);
        assert(v@.subrange(0, i + 1).drop_last() =~= prefix);
        if v[i] == '|' {
            let e = normalize_piece(&v, start, i);
            proof {
                let old_done = done;
                done = done.push(v@.subrange(start as int, i as int));
                assert(done.drop_last() =~= old_done);
            }
            if !e.as_str().is_empty() {
                exts.push(e);
            }
            assert(exts.deep_view() =~= normalized_extensions(done));
            start = i + 1;
            i += 1;
            assert(v@.subrange(start as int, i as int) =~= Seq::<char>::empty());
        } else {
            assert(v@.subrange(start as int, i + 1) =~= v@.subrange(start as int, i as int).push(v@[i as int]));
            i += 1;
            proof {
                lemma_split_on_nonempty(prefix, '|');
            }
            assert(split_on(v@.subrange(0, i as int), '|') =~= done.push(v@.subrange(start as int, i as int)));
        }
    }
    assert(v@.subrange(0, v.len() as int) =~= v@);
    let e = normalize_piece(&v, start, v.len());
    let ghost last_done = done;
    proof {
        done = done.push(v@.subrange(start as int, v.len() as int));
        assert(done.drop_last() =~= last_done);
    }
    if !e.as_str().is_empty() {
        exts.push(e);
    }
    assert(exts.deep_view() =~= normalized_extensions(done));
    exts
}

} // verus!

verus! {

/// Every switch off.
pub open spec fn initial_switches() -> Switches {
    Switches {
        ignore_case: false,
        line_numbers: false,
        invert_match: false,
        filenames_only: false,
        explicit_ignore: false,
        count_only: false,
        unrestricted_level: 0,
        explain_mode: false,
        no_filename: false,
        word_regexp: false,
        tree_view: false,
        delete_colour: false,
        hide_all: false,
        vscode_include: false,
        json_mode: false,
        cat_mode: false,
        show_time: false,
        only_matching: false,
    }
}

/// The configuration before any argument is read: every switch off, no context, no filter.
pub open spec fn initial_config() -> ConfigView {
    ConfigView {
        pattern: Seq::empty(),
        context_after: 0,
        context_before: 0,
        extensions: Seq::empty(),
        switches: initial_switches(),
    }
}

/// Whether `ch` is a one-letter switch of a bundle such as `-inw`.
pub open spec fn is_flag_char(ch: char) -> bool {
    ch == 'i' || ch == 'n' || ch == 'v' || ch == 'l' || ch == 'I' || ch == 'c' || ch == 'u' || ch == 'X'
        || ch == 'h' || ch == 'w' || ch == 'T' || ch == 'd' || ch == 'j' || ch == 't' || ch == 'o'
}

/// The switches after the one-letter switch `ch` of a bundle such as `-inw`: the switch
/// that `ch` names is turned on, and `u` counts up (staying put at `usize::MAX`); `None` if
/// `ch` is no known switch.
pub open spec fn apply_flag(s: Switches, ch: char) -> Option<Switches> {
    if !is_flag_char(ch) {
        None
    } else {
        Some(
            Switches {
                ignore_case: s.ignore_case || ch == 'i',
                line_numbers: s.line_numbers || ch == 'n',
                invert_match: s.invert_match || ch == 'v',
                filenames_only: s.filenames_only || ch == 'l',
                explicit_ignore: s.explicit_ignore || ch == 'I',
                count_only: s.count_only || ch == 'c',
                unrestricted_level: if ch == 'u' && s.unrestricted_level < usize::MAX {
                    (s.unrestricted_level + 1) as usize
                } else {
                    s.unrestricted_level
                },
                explain_mode: s.explain_mode || ch == 'X',
                no_filename: s.no_filename || ch == 'h',
                word_regexp: s.word_regexp || ch == 'w',
                tree_view: s.tree_view || ch == 'T',
                delete_colour: s.delete_colour || ch == 'd',
                json_mode: s.json_mode || ch == 'j',
                cat_mode: s.cat_mode,
                show_time: s.show_time || ch == 't',
                only_matching: s.only_matching || ch == 'o',
                hide_all: s.hide_all,
                vscode_include: s.vscode_include,
            },
        )
    }
}

/// The configuration after the switches `chars`, left to right; the first unknown switch
/// is the error.
pub open spec fn apply_flags(s: Switches, chars: Seq<char>) -> Result<Switches, char>
    decreases chars.len(),
{
    if chars.len() == 0 {
        Ok(s)
    } else {
        match apply_flag(s, chars[0]) {
            Some(s2) => apply_flags(s2, chars.drop_first()),
            None => Err(chars[0]),
        }
    }
}

/// Whether `arg` is a bundle of one-letter switches: a single dash and at least one more
/// character.
pub open spec fn is_short_bundle(arg: Seq<char>) -> bool {
    arg.len() > 1 && arg[0] == '-' && arg[1] != '-'
}

/// The message for an unknown one-letter switch.
pub open spec fn unknown_flag_message(ch: char) -> Seq<char> {
    "Error: Unknown flag '-"@ + seq![ch] + "'"@
}

/// The message when `-x` has no list after it.
pub open spec fn missing_extensions_message() -> Seq<char> {
    "Error: -x requires a pipe-separated extension list (-x \"rs\" or -x \"c|cpp\")"@
}

/// The number that follows `-A`, `-B` or `-C`; anything that is not a `usize` counts as 0.
pub open spec fn count_argument(s: Seq<char>) -> nat {
    match parsed_usize(s) {
        Some(n) => n,
        None => 0,
    }
}

/// What reading one argument does: go on at a later index with a new configuration and
/// path list, or stop with a message.
pub ghost enum Step {
    Next(int, ConfigView, Seq<Seq<char>>),
    Stop(Seq<char>),
}

/// The switches after the long switch `arg` (`--cat`, `--time`, `--Hide`, `--vscode`);
/// `None` if `arg` is none of them.
pub open spec fn long_switch(arg: Seq<char>, s: Switches) -> Option<Switches> {
    if arg == "--cat"@ || arg == "--time"@ || arg == "--Hide"@ || arg == "--vscode"@ {
        Some(
            Switches {
                ignore_case: s.ignore_case,
                line_numbers: s.line_numbers,
                invert_match: s.invert_match,
                filenames_only: s.filenames_only,
                explicit_ignore: s.explicit_ignore,
                count_only: s.count_only,
                unrestricted_level: s.unrestricted_level,
                explain_mode: s.explain_mode,
                no_filename: s.no_filename,
                word_regexp: s.word_regexp,
                tree_view: s.tree_view,
                delete_colour: s.delete_colour,
                json_mode: s.json_mode,
                cat_mode: s.cat_mode || arg == "--cat"@,
                show_time: s.show_time || arg == "--time"@,
                only_matching: s.only_matching,
                hide_all: s.hide_all || arg == "--Hide"@,
                vscode_include: s.vscode_include || arg == "--vscode"@,
            },
        )
    } else {
        None
    }
}

/// Reads the bundle or count option `args[i]` (`is_short_bundle` holds of it): the index
/// to go on at and the new configuration, or the message to stop with.
pub open spec fn short_option_step(args: Seq<Seq<char>>, i: int, c: ConfigView) -> Result<(int, ConfigView), Seq<char>> {
    let arg = args[i];
    let has_next = i + 1 < args.len();
    if arg == "-A"@ {
        if has_next {
            Ok((i + 2, ConfigView { context_after: count_argument(args[i + 1]), ..c }))
        } else {
            Ok((i + 1, c))
        }
    } else if arg == "-B"@ {
        if has_next {
            Ok((i + 2, ConfigView { context_before: count_argument(args[i + 1]), ..c }))
        } else {
            Ok((i + 1, c))
        }
    } else if arg == "-C"@ {
        if has_next {
            let n = count_argument(args[i + 1]);
            Ok((i + 2, ConfigView { context_after: n, context_before: n, ..c }))
        } else {
            Ok((i + 1, c))
        }
    } else {
        match apply_flags(c.switches, arg.drop_first()) {
            Ok(s2) => Ok((i + 1, ConfigView { switches: s2, ..c })),
            Err(ch) => Err(unknown_flag_message(ch)),
        }
    }
}

/// Reads the argument `args[i]` (with the one after it, for `-x`, `-A`, `-B`, `-C`).
#[verifier::opaque]
pub open spec fn parse_step(args: Seq<Seq<char>>, i: int, c: ConfigView, paths: Seq<Seq<char>>) -> Step {
    let arg = args[i];
    match long_switch(arg, c.switches) {
        Some(s2) => Step::Next(i + 1, ConfigView { switches: s2, ..c }, paths),
        None => if arg == "-x"@ {
            if i + 1 < args.len() {
                Step::Next(i + 2, ConfigView { extensions: extension_list(args[i + 1]), ..c }, paths)
            } else {
                Step::Stop(missing_extensions_message())
            }
        } else if is_short_bundle(arg) {
            match short_option_step(args, i, c) {
                Ok((j, c2)) => Step::Next(j, c2, paths),
                Err(m) => Step::Stop(m),
            }
        } else if c.pattern.len() == 0 {
            Step::Next(i + 1, ConfigView { pattern: arg, ..c }, paths)
        } else {
            Step::Next(i + 1, c, paths.push(arg))
        },
    }
}

/// Reads `args[i..]` on top of the configuration `c` and the paths seen so far.
pub open spec fn parse_from(
    args: Seq<Seq<char>>,
    i: int,
    c: ConfigView,
    paths: Seq<Seq<char>>,
) -> Result<(ConfigView, Seq<Seq<char>>), Seq<char>>
    decreases args.len() - i,
{
    if i < 0 || i >= args.len() {
        Ok((c, paths))
    } else {
        match parse_step(args, i, c, paths) {
            Step::Next(j, c2, p2) => if i < j <= args.len() {
                parse_from(args, j, c2, p2)
            } else {
                Ok((c2, p2))
            },
            Step::Stop(msg) => Err(msg),
        }
    }
}

} // verus!

verus! {

/// The message when no pattern was given.
pub open spec fn missing_pattern_message() -> Seq<char> {
    "Error: Missing search pattern target."@
}

/// The search that `args` (program name first) asks for: the configuration and the paths
/// to search (`.` when none is named), or the message to stop with.
pub open spec fn search_request(args: Seq<Seq<char>>) -> Result<(ConfigView, Seq<Seq<char>>), Seq<char>> {
    match parse_from(args, 1, initial_config(), Seq::empty()) {
        Err(msg) => Err(msg),
        Ok((c, paths)) => if c.pattern.len() == 0 {
            Err(missing_pattern_message())
        } else if paths.len() == 0 {
            Ok((c, seq!["."@]))
        } else {
            Ok((c, paths))
        },
    }
}

fn initial() -> (c: Config)
    ensures
        c@ == initial_config(),
{
    let switches = Switches {
        ignore_case: false,
        line_numbers: false,
        invert_match: false,
        filenames_only: false,
        explicit_ignore: false,
        count_only: false,
        unrestricted_level: 0,
        explain_mode: false,
        no_filename: false,
        word_regexp: false,
        tree_view: false,
        delete_colour: false,
        hide_all: false,
        vscode_include: false,
        json_mode: false,
        cat_mode: false,
        show_time: false,
        only_matching: false,
    };
    let c = Config {
        pattern: String::new(),
        context_after: 0,
        context_before: 0,
        extensions: Vec::new(),
        switches,
    };
    assert(c.extensions.deep_view() =~= Seq::<Seq<char>>::empty());
    c
}

/// The switches after `ch`; `None` if it is no known switch.
#[verifier::rlimit(60)]
fn apply_flag_to(s: Switches, ch: char) -> (r: Option<Switches>)
    ensures
        r == apply_flag(s, ch),
{
    let known = ch == 'i' || ch == 'n' || ch == 'v' || ch == 'l' || ch == 'I' || ch == 'c' || ch == 'u'
        || ch == 'X' || ch == 'h' || ch == 'w' || ch == 'T' || ch == 'd' || ch == 'j' || ch == 't' || ch
        == 'o';
    if !known {
        return None;
    }
    let level = if ch == 'u' && s.unrestricted_level < usize::MAX {
        s.unrestricted_level + 1
    } else {
        s.unrestricted_level
    };
    Some(
        Switches {
            ignore_case: s.ignore_case || ch == 'i',
            line_numbers: s.line_numbers || ch == 'n',
            invert_match: s.invert_match || ch == 'v',
            filenames_only: s.filenames_only || ch == 'l',
            explicit_ignore: s.explicit_ignore || ch == 'I',
            count_only: s.count_only || ch == 'c',
            unrestricted_level: level,
            explain_mode: s.explain_mode || ch == 'X',
            no_filename: s.no_filename || ch == 'h',
            word_regexp: s.word_regexp || ch == 'w',
            tree_view: s.tree_view || ch == 'T',
            delete_colour: s.delete_colour || ch == 'd',
            json_mode: s.json_mode || ch == 'j',
            cat_mode: s.cat_mode,
            show_time: s.show_time || ch == 't',
            only_matching: s.only_matching || ch == 'o',
            hide_all: s.hide_all,
            vscode_include: s.vscode_include,
        },
    )
}

/// Applies the switches of the bundle `v[1..]` to `s`; the first unknown one is the error.
fn apply_bundle(s: Switches, v: &Vec<char>) -> (r: Result<Switches, char>)
    requires
        v.len() >= 1,
    ensures
        r == apply_flags(s, v@.drop_first()),
{
    let mut cur = s;
    let mut i: usize = 1;
    while i < v.len()
        invariant
            1 <= i <= v.len(),
            apply_flags(s, v@.drop_first()) == apply_flags(cur, v@.subrange(i as int, v.len() as int)),
        decreases v.len() - i,
    {
        let ghost rest = v@.subrange(i as int, v.len() as int);
        assert(rest.drop_first() =~= v@.subrange(i + 1, v.len() as int));
        match apply_flag_to(cur, v[i]) {
            Some(next) => cur = next,
            None => return Err(v[i]),
        }
        i += 1;
    }
    Ok(cur)
}

} // verus!

verus! {

/// `Ok` of what `search_request` gives, in executable form.
pub open spec fn request_matches(
    r: Result<(Config, Vec<String>), String>,
    spec_r: Result<(ConfigView, Seq<Seq<char>>), Seq<char>>,
) -> bool {
    match (r, spec_r) {
        (Ok((c, p)), Ok((sc, sp))) => c@ == sc && p.deep_view() == sp,
        (Err(m), Err(sm)) => m@ == sm,
        _ => false,
    }
}

/// Reads the count option or switch bundle `args[i]` (`v` holds its characters).
fn short_option(args: &Vec<String>, i: usize, v: &Vec<char>, c: &mut Config) -> (r: Result<usize, String>)
    requires
        i < args.len(),
        v@ == args@[i as int]@,
        is_short_bundle(v@),
    ensures
        match short_option_step(args.deep_view(), i as int, old(c)@) {
            Ok((j, c2)) => r matches Ok(k) && k == j && final(c)@ == c2,
            Err(m) => r matches Err(msg) && msg@ == m,
        },
{
    let ghost a = args.deep_view();
    let arg = args[i].as_str();
    assert(a[i as int] == arg@);
    let has_next = i + 1 < args.len();
    if has_next {
        assert(a[i + 1] == args[i + 1]@);
    }
    if str_equals(arg, "-A") {
        if has_next {
            c.context_after = count_of(args[i + 1].as_str());
            Ok(i + 2)
        } else {
            Ok(i + 1)
        }
    } else if str_equals(arg, "-B") {
        if has_next {
            c.context_before = count_of(args[i + 1].as_str());
            Ok(i + 2)
        } else {
            Ok(i + 1)
        }
    } else if str_equals(arg, "-C") {
        if has_next {
            let n = count_of(args[i + 1].as_str());
            c.context_after = n;
            c.context_before = n;
            Ok(i + 2)
        } else {
            Ok(i + 1)
        }
    } else {
        match apply_bundle(c.switches, v) {
            Ok(s2) => {
                c.switches = s2;
                Ok(i + 1)
            },
            Err(ch) => {
                let mut msg = String::from_str("Error: Unknown flag '-");
                push_char(&mut msg, ch);
                msg.append("'");
                assert(msg@ =~= unknown_flag_message(ch));
                Err(msg)
            },
        }
    }
}

/// The switches after the long switch `arg`, if it is one.
fn apply_long_switch(arg: &str, s: Switches) -> (r: Option<Switches>)
    ensures
        r == long_switch(arg@, s),
{
    let cat = str_equals(arg, "--cat");
    let time = str_equals(arg, "--time");
    let hide = str_equals(arg, "--Hide");
    let vscode = str_equals(arg, "--vscode");
    if !(cat || time || hide || vscode) {
        return None;
    }
    Some(
        Switches {
            ignore_case: s.ignore_case,
            line_numbers: s.line_numbers,
            invert_match: s.invert_match,
            filenames_only: s.filenames_only,
            explicit_ignore: s.explicit_ignore,
            count_only: s.count_only,
            unrestricted_level: s.unrestricted_level,
            explain_mode: s.explain_mode,
            no_filename: s.no_filename,
            word_regexp: s.word_regexp,
            tree_view: s.tree_view,
            delete_colour: s.delete_colour,
            json_mode: s.json_mode,
            cat_mode: s.cat_mode || cat,
            show_time: s.show_time || time,
            only_matching: s.only_matching,
            hide_all: s.hide_all || hide,
            vscode_include: s.vscode_include || vscode,
        },
    )
}

/// Reads `args[i]` (and the argument after it where the option takes one).
fn parse_one(args: &Vec<String>, i: usize, c: &mut Config, paths: &mut Vec<String>) -> (r: Result<usize, String>)
    requires
        i < args.len(),
    ensures
        match parse_step(args.deep_view(), i as int, old(c)@, old(paths).deep_view()) {
            Step::Next(j, c2, p2) => r matches Ok(k) && k == j && final(c)@ == c2
                && final(paths).deep_view() == p2,
            Step::Stop(m) => r matches Err(msg) && msg@ == m,
        },
        r matches Ok(k) ==> i < k <= args.len(),
{
    reveal(parse_step);
    let ghost a = args.deep_view();
    let arg = args[i].as_str();
    assert(a[i as int] == arg@);
    if let Some(s2) = apply_long_switch(arg, c.switches) {
        c.switches = s2;
        Ok(i + 1)
    } else if str_equals(arg, "-x") {
        if i + 1 < args.len() {
            assert(a[i + 1] == args[i + 1]@);
            c.extensions = parse_extensions(args[i + 1].as_str());
            Ok(i + 2)
        } else {
            Err(
                String::from_str(
                    "Error: -x requires a pipe-separated extension list (-x \"rs\" or -x \"c|cpp\")",
                ),
            )
        }
    } else {
        let v = chars_of(arg);
        if v.len() > 1 && v[0] == '-' && v[1] != '-' {
            short_option(args, i, &v, c)
        } else if c.pattern.as_str().is_empty() {
            c.pattern = args[i].clone();
            Ok(i + 1)
        } else {
            let ghost old_paths = paths.deep_view();
            paths.push(args[i].clone());
            assert(paths.deep_view() =~= old_paths.push(a[i as int]));
            Ok(i + 1)
        }
    }
}

/// Reads the search flags, pattern and paths from `args` (program name first).
pub fn parse_search_args(args: &Vec<String>) -> (r: Result<(Config, Vec<String>), String>)
    ensures
        request_matches(r, search_request(args.deep_view())),
{
    let ghost a = args.deep_view();
    let mut c = initial();
    let mut paths: Vec<String> = Vec::new();
    let mut i: usize = 1;
    assert(paths.deep_view() =~= Seq::<Seq<char>>::empty());
    while i < args.len()
        invariant
            a == args.deep_view(),
            1 <= i,
            parse_from(a, 1, initial_config(), Seq::empty()) == parse_from(a, i as int, c@, paths.deep_view()),
        decreases args.len() - i,
    {
        match parse_one(args, i, &mut c, &mut paths) {
            Ok(j) => i = j,
            Err(msg) => return Err(msg),
        }
    }
    if c.pattern.as_str().is_empty() {
        return Err(String::from_str("Error: Missing search pattern target."));
    }
    if paths.len() == 0 {
        paths.push(String::from_str("."));
        assert(paths.deep_view() =~= seq!["."@]);
    }
    Ok((c, paths))
}

/// The number after `-A`, `-B` or `-C`, 0 if it is not one.
fn count_of(s: &str) -> (n: usize)
    ensures
        n as nat == count_argument(s@),
{
    match parse_usize(s) {
        Some(n) => n,
        None => 0,
    }
}

} // verus!

verus! {

/// What a run of the program does, as decided from its arguments.
pub enum Command {
    /// Print the help text and stop with success.
    Help,
    /// Print the manual page and stop with success.
    Manpage,
    /// Print the current time and stop with status 1.
    TimeOnly,
    /// Filter standard input for the pattern.
    Stdin { pattern: String },
    /// Search the paths with the configuration.
    Search { config: Config, paths: Vec<String> },
    /// Print the message on standard error and stop with status 1.
    Fail { message: String },
}

/// The mathematical content of a `Command`.
pub ghost enum CommandView {
    Help,
    Manpage,
    TimeOnly,
    Stdin(Seq<char>),
    Search(ConfigView, Seq<Seq<char>>),
    Fail(Seq<char>),
}

impl View for Command {
    type V = CommandView;

    open spec fn view(&self) -> CommandView {
        match self {
            Command::Help => CommandView::Help,
            Command::Manpage => CommandView::Manpage,
            Command::TimeOnly => CommandView::TimeOnly,
            Command::Stdin { pattern } => CommandView::Stdin(pattern@),
            Command::Search { config, paths } => CommandView::Search(config@, paths.deep_view()),
            Command::Fail { message } => CommandView::Fail(message@),
        }
    }
}

/// Whether some argument (the program name included) is `lit`.
pub open spec fn has_arg(args: Seq<Seq<char>>, lit: Seq<char>) -> bool {
    exists|k: int| 0 <= k < args.len() && args[k] == lit
}

/// The message when standard input is piped in but no pattern is given.
pub open spec fn missing_stdin_pattern_message() -> Seq<char> {
    "Error: Pattern required for standard input piping."@
}

/// The message when the program is run with no argument at all.
pub open spec fn usage_message() -> Seq<char> {
    "Usage: lewrep2 [FLAGS] <PATTERN> [PATHS...]"@
}

/// What the program does for `args` (program name first), given whether standard input is
/// a terminal. `--help` wins over everything, then `--manpage`; `--time` or `-t` alone
/// prints the time; piped input is filtered for the first argument; otherwise the
/// arguments describe a search.
pub open spec fn command_for(args: Seq<Seq<char>>, stdin_is_terminal: bool) -> CommandView {
    if has_arg(args, "--help"@) {
        CommandView::Help
    } else if has_arg(args, "--manpage"@) {
        CommandView::Manpage
    } else if args.len() < 3 && (has_arg(args, "--time"@) || has_arg(args, "-t"@)) {
        CommandView::TimeOnly
    } else if !stdin_is_terminal {
        if args.len() < 2 {
            CommandView::Fail(missing_stdin_pattern_message())
        } else {
            CommandView::Stdin(args[1])
        }
    } else if args.len() < 2 {
        CommandView::Fail(usage_message())
    } else {
        match search_request(args) {
            Ok((c, paths)) => CommandView::Search(c, paths),
            Err(m) => CommandView::Fail(m),
        }
    }
}

/// Whether some element of `args` is `lit`.
fn any_arg(args: &Vec<String>, lit: &str) -> (b: bool)
    ensures
        b == has_arg(args.deep_view(), lit@),
{
    list_contains(args, lit)
}

/// Decides what the program does for `args` (program name first).
pub fn decide(args: &Vec<String>, stdin_is_terminal: bool) -> (r: Command)
    ensures
        r@ == command_for(args.deep_view(), stdin_is_terminal),
{
    let ghost a = args.deep_view();
    if any_arg(args, "--help") {
        return Command::Help;
    }
    if any_arg(args, "--manpage") {
        return Command::Manpage;
    }
    if args.len() < 3 {
        let t1 = any_arg(args, "--time");
        let t2 = any_arg(args, "-t");
        if t1 || t2 {
            return Command::TimeOnly;
        }
    }
    if !stdin_is_terminal {
        if args.len() < 2 {
            return Command::Fail {
                message: String::from_str("Error: Pattern required for standard input piping."),
            };
        }
        assert(a[1] == args[1]@);
        return Command::Stdin { pattern: args[1].clone() };
    }
    if args.len() < 2 {
        return Command::Fail { message: String::from_str("Usage: lewrep2 [FLAGS] <PATTERN> [PATHS...]") };
    }
    match parse_search_args(args) {
        Ok((config, paths)) => Command::Search { config, paths },
        Err(message) => Command::Fail { message },
    }
}

} // verus!

verus! {

/// Whether piped input shows only the matched text (`-o` or `--only-matching` given as an
/// argument of its own).
pub open spec fn stdin_only_matching(args: Seq<Seq<char>>) -> bool {
    has_arg(args, "-o"@) || has_arg(args, "--only-matching"@)
}

/// Whether piped input shows line numbers (`-n` or `--line-number` given as an argument of
/// its own).
pub open spec fn stdin_line_numbers(args: Seq<Seq<char>>) -> bool {
    has_arg(args, "-n"@) || has_arg(args, "--line-number"@)
}

/// The two switches that filtering piped input honours: only-matching and line numbers.
pub fn stdin_switches(args: &Vec<String>) -> (r: (bool, bool))
    ensures
        r.0 == stdin_only_matching(args.deep_view()),
        r.1 == stdin_line_numbers(args.deep_view()),
{
    let o1 = any_arg(args, "-o");
    let o2 = any_arg(args, "--only-matching");
    let n1 = any_arg(args, "-n");
    let n2 = any_arg(args, "--line-number");
    (o1 || o2, n1 || n2)
}

} // verus!

verus! {

/// A bundle of one-letter switches means the same as its parts given one after the other:
/// `-in` reads as `-i` followed by `-n`.
pub proof fn lemma_bundle_splits(s: Switches, a: Seq<char>, b: Seq<char>)
    ensures
        apply_flags(s, a + b) == match apply_flags(s, a) {
            Ok(s2) => apply_flags(s2, b),
            Err(ch) => Err(ch),
        },
    decreases a.len(),
{
    if a.len() == 0 {
        assert(a + b =~= b);
    } else {
        assert((a + b)[0] == a[0]);
        assert((a + b).drop_first() =~= a.drop_first() + b);
        match apply_flag(s, a[0]) {
            Some(s2) => lemma_bundle_splits(s2, a.drop_first(), b),
            None => {},
        }
    }
}

/// The switches after the one-letter switch `f` (a known one).
pub open spec fn flagged(s: Switches, f: char) -> Switches {
    apply_flag(s, f).unwrap()
}

/// A search request with the one-letter switch `f` applied; an error stays as it is.
pub open spec fn with_flag(
    r: Result<(ConfigView, Seq<Seq<char>>), Seq<char>>,
    f: char,
) -> Result<(ConfigView, Seq<Seq<char>>), Seq<char>> {
    match r {
        Ok((c, paths)) => Ok((ConfigView { switches: flagged(c.switches, f), ..c }, paths)),
        Err(m) => Err(m),
    }
}

/// Whether `arg` is an option that takes the argument after it as its value.
pub open spec fn takes_value(arg: Seq<char>) -> bool {
    arg == "-A"@ || arg == "-B"@ || arg == "-C"@ || arg == "-x"@
}

/// Whether `t` is `s` with the one-letter switch `f` applied, field by field.
spec fn flag_rel(s: Switches, t: Switches, f: char) -> bool {
    &&& t.ignore_case == (s.ignore_case || f == 'i')
    &&& t.line_numbers == (s.line_numbers || f == 'n')
    &&& t.invert_match == (s.invert_match || f == 'v')
    &&& t.filenames_only == (s.filenames_only || f == 'l')
    &&& t.explicit_ignore == (s.explicit_ignore || f == 'I')
    &&& t.count_only == (s.count_only || f == 'c')
    &&& t.unrestricted_level == (if f == 'u' && s.unrestricted_level < usize::MAX {
        (s.unrestricted_level + 1) as usize
    } else {
        s.unrestricted_level
    })
    &&& t.explain_mode == (s.explain_mode || f == 'X')
    &&& t.no_filename == (s.no_filename || f == 'h')
    &&& t.word_regexp == (s.word_regexp || f == 'w')
    &&& t.tree_view == (s.tree_view || f == 'T')
    &&& t.delete_colour == (s.delete_colour || f == 'd')
    &&& t.json_mode == (s.json_mode || f == 'j')
    &&& t.cat_mode == s.cat_mode
    &&& t.show_time == (s.show_time || f == 't')
    &&& t.only_matching == (s.only_matching || f == 'o')
    &&& t.hide_all == s.hide_all
    &&& t.vscode_include == s.vscode_include
}

proof fn lemma_flagged_of_rel(s: Switches, t: Switches, f: char)
    requires
        is_flag_char(f),
        flag_rel(s, t, f),
    ensures
        t == flagged(s, f),
{
}

proof fn lemma_rel_of_flagged(s: Switches, f: char)
    requires
        is_flag_char(f),
    ensures
        flag_rel(s, flagged(s, f), f),
{
}

proof fn lemma_flag_keeps_rel(s: Switches, t: Switches, f: char, ch: char)
    requires
        flag_rel(s, t, f),
    ensures
        (apply_flag(s, ch) is Some) == (apply_flag(t, ch) is Some),
        apply_flag(s, ch) is Some ==> flag_rel(apply_flag(s, ch).unwrap(), apply_flag(t, ch).unwrap(), f),
{
    if is_flag_char(ch) {
        let s2 = apply_flag(s, ch).unwrap();
        let t2 = apply_flag(t, ch).unwrap();
        assert(t2.unrestricted_level == (if f == 'u' && s2.unrestricted_level < usize::MAX {
            (s2.unrestricted_level + 1) as usize
        } else {
            s2.unrestricted_level
        }));
        assert(t2.ignore_case == (s2.ignore_case || f == 'i'));
        assert(t2.line_numbers == (s2.line_numbers || f == 'n'));
    }
}

proof fn lemma_flags_keep_rel(s: Switches, t: Switches, f: char, chars: Seq<char>)
    requires
        flag_rel(s, t, f),
    ensures
        (apply_flags(s, chars) is Ok) == (apply_flags(t, chars) is Ok),
        apply_flags(s, chars) matches Ok(s2) ==> flag_rel(s2, apply_flags(t, chars)->Ok_0, f),
        apply_flags(s, chars) matches Err(ch) ==> apply_flags(t, chars) == Err::<Switches, char>(ch),
    decreases chars.len(),
{
    if chars.len() > 0 {
        lemma_flag_keeps_rel(s, t, f, chars[0]);
        if apply_flag(s, chars[0]) is Some {
            lemma_flags_keep_rel(apply_flag(s, chars[0]).unwrap(), apply_flag(t, chars[0]).unwrap(), f, chars.drop_first());
        }
    }
}

proof fn lemma_step_advances(args: Seq<Seq<char>>, i: int, c: ConfigView, paths: Seq<Seq<char>>)
    requires
        0 <= i < args.len(),
    ensures
        parse_step(args, i, c, paths) matches Step::Next(j, _, _) ==> i < j <= args.len(),
{
    reveal(parse_step);
}

/// Whether `d` is `c` with the one-letter switch `f` applied.
spec fn config_rel(c: ConfigView, d: ConfigView, f: char) -> bool {
    &&& c.pattern == d.pattern
    &&& c.context_after == d.context_after
    &&& c.context_before == d.context_before
    &&& c.extensions == d.extensions
    &&& flag_rel(c.switches, d.switches, f)
}

/// Whether the second request is the first with the switch `f` applied (or the same error).
spec fn requests_rel(
    r1: Result<(ConfigView, Seq<Seq<char>>), Seq<char>>,
    r2: Result<(ConfigView, Seq<Seq<char>>), Seq<char>>,
    f: char,
) -> bool {
    match (r1, r2) {
        (Ok((c, p)), Ok((d, q))) => config_rel(c, d, f) && p == q,
        (Err(m), Err(n)) => m == n,
        _ => false,
    }
}

proof fn lemma_long_switch_keeps_rel(arg: Seq<char>, s: Switches, t: Switches, f: char)
    requires
        flag_rel(s, t, f),
    ensures
        (long_switch(arg, s) is Some) == (long_switch(arg, t) is Some),
        long_switch(arg, s) is Some ==> flag_rel(long_switch(arg, s).unwrap(), long_switch(arg, t).unwrap(), f),
{
}

proof fn lemma_short_step_keeps_rel(args: Seq<Seq<char>>, i: int, c: ConfigView, d: ConfigView, f: char)
    requires
        0 <= i < args.len(),
        config_rel(c, d, f),
    ensures
        match (short_option_step(args, i, c), short_option_step(args, i, d)) {
            (Ok((j1, c1)), Ok((j2, d1))) => j1 == j2 && config_rel(c1, d1, f),
            (Err(m1), Err(m2)) => m1 == m2,
            _ => false,
        },
{
    let arg = args[i];
    if !(arg == "-A"@ || arg == "-B"@ || arg == "-C"@) {
        lemma_flags_keep_rel(c.switches, d.switches, f, arg.drop_first());
    }
}

proof fn lemma_step_keeps_rel(args: Seq<Seq<char>>, i: int, c: ConfigView, d: ConfigView, paths: Seq<Seq<char>>, f: char)
    requires
        0 <= i < args.len(),
        config_rel(c, d, f),
    ensures
        match (parse_step(args, i, c, paths), parse_step(args, i, d, paths)) {
            (Step::Next(j1, c1, p1), Step::Next(j2, d1, p2)) => j1 == j2 && config_rel(c1, d1, f) && p1 == p2,
            (Step::Stop(m1), Step::Stop(m2)) => m1 == m2,
            _ => false,
        },
{
    reveal(parse_step);
    let arg = args[i];
    lemma_long_switch_keeps_rel(arg, c.switches, d.switches, f);
    if long_switch(arg, c.switches) is None && arg != "-x"@ && is_short_bundle(arg) {
        lemma_short_step_keeps_rel(args, i, c, d, f);
    }
}

proof fn lemma_parse_keeps_rel(args: Seq<Seq<char>>, i: int, c: ConfigView, d: ConfigView, paths: Seq<Seq<char>>, f: char)
    requires
        config_rel(c, d, f),
    ensures
        requests_rel(parse_from(args, i, c, paths), parse_from(args, i, d, paths), f),
    decreases args.len() - i,
{
    if 0 <= i < args.len() {
        lemma_step_keeps_rel(args, i, c, d, paths, f);
        lemma_step_advances(args, i, c, paths);
        match parse_step(args, i, c, paths) {
            Step::Next(j, c1, p1) => {
                match parse_step(args, i, d, paths) {
                    Step::Next(_, d1, _) => {
                        if j > i && j <= args.len() {
                            lemma_parse_keeps_rel(args, j, c1, d1, p1, f);
                        }
                    },
                    Step::Stop(_) => {},
                }
            },
            Step::Stop(_) => {},
        }
    }
}

proof fn lemma_parse_shifted(
    args: Seq<Seq<char>>,
    more: Seq<Seq<char>>,
    k: int,
    j: int,
    c: ConfigView,
    paths: Seq<Seq<char>>,
)
    requires
        1 <= k <= j,
        more.len() == args.len() + 1,
        forall|m: int| k <= m < args.len() ==> more[m + 1] == args[m],
    ensures
        parse_from(more, j + 1, c, paths) == parse_from(args, j, c, paths),
    decreases args.len() - j,
{
    if j < args.len() {
        assert(more[j + 1] == args[j]);
        if j + 1 < args.len() {
            assert(more[j + 2] == args[j + 1]);
        }
        lemma_step_advances(args, j, c, paths);
        match parse_step(args, j, c, paths) {
            Step::Next(n, c2, p2) => {
                assert(parse_step(more, j + 1, c, paths) == Step::Next(n + 1, c2, p2)) by {
                    reveal(parse_step);
                }
                if n > j && n <= args.len() {
                    lemma_parse_shifted(args, more, k, n, c2, p2);
                }
            },
            Step::Stop(m) => {
                assert(parse_step(more, j + 1, c, paths) == Step::Stop(m)) by {
                    reveal(parse_step);
                }
            },
        }
    }
}

proof fn lemma_single_flag(s: Switches, f: char)
    requires
        is_flag_char(f),
    ensures
        apply_flags(s, seq![f]) == Ok::<Switches, char>(flagged(s, f)),
{
    assert(seq![f].drop_first() =~= Seq::<char>::empty());
    assert(seq![f][0] == f);
    reveal_with_fuel(apply_flags, 2);
}

proof fn lemma_single_flag_step(args: Seq<Seq<char>>, i: int, c: ConfigView, paths: Seq<Seq<char>>, f: char)
    requires
        0 <= i < args.len(),
        is_flag_char(f),
        args[i] == seq!['-', f],
    ensures
        parse_step(args, i, c, paths) == Step::Next(i + 1, ConfigView { switches: flagged(c.switches, f), ..c }, paths),
{
    reveal(parse_step);
    reveal_strlit("-x");
    reveal_strlit("-A");
    reveal_strlit("-B");
    reveal_strlit("-C");
    reveal_strlit("--cat");
    reveal_strlit("--time");
    reveal_strlit("--Hide");
    reveal_strlit("--vscode");
    assert(args[i].drop_first() =~= seq![f]);
    assert(args[i] != "-x"@ && args[i] != "-A"@ && args[i] != "-B"@ && args[i] != "-C"@) by {
        assert(args[i][1] == f);
    }
    lemma_single_flag(c.switches, f);
}

proof fn lemma_flag_at_insertion(args: Seq<Seq<char>>, k: int, c: ConfigView, paths: Seq<Seq<char>>, f: char)
    requires
        1 <= k <= args.len(),
        is_flag_char(f),
    ensures
        requests_rel(parse_from(args, k, c, paths), parse_from(args.insert(k, seq!['-', f]), k, c, paths), f),
{
    let more = args.insert(k, seq!['-', f]);
    args.insert_ensures(k, seq!['-', f]);
    let d = ConfigView { switches: flagged(c.switches, f), ..c };
    lemma_single_flag_step(more, k, c, paths, f);
    lemma_parse_shifted(args, more, k, k, d, paths);
    lemma_rel_of_flagged(c.switches, f);
    lemma_parse_keeps_rel(args, k, c, d, paths, f);
}

proof fn lemma_parse_with_inserted_flag(
    args: Seq<Seq<char>>,
    k: int,
    i: int,
    c: ConfigView,
    paths: Seq<Seq<char>>,
    f: char,
)
    requires
        1 <= i <= k <= args.len(),
        k == 1 || !takes_value(args[k - 1]),
        is_flag_char(f),
    ensures
        requests_rel(parse_from(args, i, c, paths), parse_from(args.insert(k, seq!['-', f]), i, c, paths), f),
    decreases k - i,
{
    let more = args.insert(k, seq!['-', f]);
    args.insert_ensures(k, seq!['-', f]);
    reveal_strlit("-x");
    reveal_strlit("-A");
    reveal_strlit("-B");
    reveal_strlit("-C");
    if i == k {
        lemma_flag_at_insertion(args, k, c, paths, f);
    } else {
        assert(more[i] == args[i]);
        if i + 1 < k {
            assert(more[i + 1] == args[i + 1]);
        }
        lemma_step_advances(args, i, c, paths);
        match parse_step(args, i, c, paths) {
            Step::Next(j, c2, p2) => {
                assert(parse_step(more, i, c, paths) == Step::Next(j, c2, p2) && j <= k) by {
                    reveal(parse_step);
                }
                lemma_parse_with_inserted_flag(args, k, j, c2, p2, f);
            },
            Step::Stop(m) => {
                assert(parse_step(more, i, c, paths) == Step::Stop(m)) by {
                    reveal(parse_step);
                }
            },
        }
    }
}

/// A switch is a switch wherever it stands: putting a one-letter switch such as `-n`
/// anywhere after the program name (but not as the value of `-A`, `-B`, `-C` or `-x`) gives
/// the same search, pattern and paths alike, with that switch applied, or the same error.
pub proof fn lemma_switch_anywhere(args: Seq<Seq<char>>, k: int, f: char)
    requires
        1 <= k <= args.len(),
        k == 1 || !takes_value(args[k - 1]),
        is_flag_char(f),
    ensures
        search_request(args.insert(k, seq!['-', f])) == with_flag(search_request(args), f),
{
    lemma_parse_with_inserted_flag(args, k, 1, initial_config(), Seq::empty(), f);
    let r1 = parse_from(args, 1, initial_config(), Seq::empty());
    let r2 = parse_from(args.insert(k, seq!['-', f]), 1, initial_config(), Seq::empty());
    match (r1, r2) {
        (Ok((c, p)), Ok((d, q))) => {
            lemma_flagged_of_rel(c.switches, d.switches, f);
            assert(d == (ConfigView { switches: flagged(c.switches, f), ..c }));
        },
        _ => {},
    }
}

} // verus!
