use vstd::prelude::*;

use crate::cli::{Config, ConfigView, Switches};
use crate::text::{chars_of, list_contains, lowercase_of, str_equals, to_lowercase};

verus! {

/// How the directory walk is set up: whether hidden entries and git-ignored entries are
/// skipped, whether ignore files of parent directories are read (`None`: left at the
/// walker's default), and whether only the `.vscode` part of the hidden tree is let in.
#[derive(Clone, Copy, Debug, PartialEq, Eq)]
pub struct WalkSettings {
    pub skip_hidden: bool,
    pub git_ignore: bool,
    pub read_parent_ignores: Option<bool>,
    pub vscode_filter: bool,
}

/// The walk set up for the switches `s`. `--Hide` skips hidden and ignored entries and
/// reads parent ignore files; otherwise one `-u` shows hidden entries, and two `-u` or `-I`
/// stop honouring `.gitignore`. `--vscode` (without `--Hide`) filters entries.
pub open spec fn settings_for(s: Switches) -> WalkSettings {
    if s.hide_all {
        WalkSettings {
            skip_hidden: true,
            git_ignore: true,
            read_parent_ignores: Some(true),
            vscode_filter: false,
        }
    } else {
        WalkSettings {
            skip_hidden: s.unrestricted_level < 1,
            git_ignore: !(s.unrestricted_level >= 2 || s.explicit_ignore),
            read_parent_ignores: None,
            vscode_filter: s.vscode_include,
        }
    }
}

/// The walk settings for a search with the switches `s`.
pub fn walk_settings(s: &Switches) -> (w: WalkSettings)
    ensures
        w == settings_for(*s),
{
    if s.hide_all {
        WalkSettings {
            skip_hidden: true,
            git_ignore: true,
            read_parent_ignores: Some(true),
            vscode_filter: false,
        }
    } else {
        WalkSettings {
            skip_hidden: s.unrestricted_level < 1,
            git_ignore: !(s.unrestricted_level >= 2 || s.explicit_ignore),
            read_parent_ignores: None,
            vscode_filter: s.vscode_include,
        }
    }
}

/// Whether the `--vscode` filter lets an entry through: the `.vscode` directory itself,
/// anything below it, and every entry whose name does not start with a dot.
pub open spec fn vscode_allows(name: Option<Seq<char>>, depth: nat, components: Seq<Seq<char>>) -> bool {
    ||| name == Some(".vscode"@)
    ||| depth > 0 && components.contains(".vscode"@)
    ||| !(name matches Some(n) && n.len() > 0 && n[0] == '.')
}

/// The `--vscode` filter on one entry: its file name (if it is valid UTF-8), its depth in
/// the walk, and the components of its path.
pub fn vscode_entry_allowed(name: Option<&str>, depth: usize, components: &Vec<String>) -> (b: bool)
    ensures
        b == vscode_allows(
            match name {
                Some(n) => Some(n@),
                None => None,
            },
            depth as nat,
            components.deep_view(),
        ),
{
    if let Some(n) = name {
        if str_equals(n, ".vscode") {
            return true;
        }
    }
    if depth > 0 && list_contains(components, ".vscode") {
        return true;
    }
    match name {
        Some(n) => {
            let v = chars_of(n);
            !(v.len() > 0 && v[0] == '.')
        },
        None => true,
    }
}

/// Whether a file with extension `ext` (`None`: no extension, or one that is not UTF-8) is
/// searched under `c`: with a `-x` list its lowercased extension must be on the list, and
/// with `--Hide` the binary extensions `bin`, `exe`, `o` and `a` are left out.
pub open spec fn file_selected(c: ConfigView, ext: Option<Seq<char>>) -> bool {
    &&& c.extensions.len() > 0 ==> (ext matches Some(e) && c.extensions.contains(lowercase_of(e)))
    &&& c.switches.hide_all ==> !(ext matches Some(e) && (e == "bin"@ || e == "exe"@ || e == "o"@
        || e == "a"@))
}

/// Whether a file with the extension `ext` is searched under `config`.
pub fn file_is_selected(config: &Config, ext: Option<&str>) -> (b: bool)
    ensures
        b == file_selected(
            config@,
            match ext {
                Some(e) => Some(e@),
                None => None,
            },
        ),
{
    if config.extensions.len() > 0 {
        match ext {
            None => return false,
            Some(e) => {
                let lower = to_lowercase(e);
                let found = list_contains(&config.extensions, lower.as_str());
                if !found {
                    return false;
                }
            },
        }
    }
    if config.switches.hide_all {
        if let Some(e) = ext {
            if str_equals(e, "bin") || str_equals(e, "exe") || str_equals(e, "o") || str_equals(e, "a") {
                return false;
            }
        }
    }
    true
}

/// Whether the first bytes of a file mark it as binary: they hold a zero byte.
pub open spec fn binary_prefix(prefix: Seq<u8>) -> bool {
    prefix.contains(0u8)
}

/// Whether the bytes read from the start of a file mark it as binary.
pub fn looks_binary(prefix: &[u8]) -> (b: bool)
    ensures
        b == binary_prefix(prefix@),
{
    let mut k: usize = 0;
    while k < prefix.len()
        invariant
            k <= prefix.len(),
            forall|m: int| 0 <= m < k ==> prefix@[m] != 0u8,
        decreases prefix.len() - k,
    {
        if prefix[k] == 0 {
            assert(prefix@[k as int] == 0u8);
            return true;
        }
        k += 1;
    }
    false
}

/// What is done with one file of the walk, in the order the steps are tried: skipped when
/// `--Hide` finds it binary, printed whole with `--cat`, otherwise searched, after the time
/// banner if `--time` is given.
#[derive(Clone, Copy, Debug, PartialEq, Eq)]
pub enum FilePlan {
    Skip,
    Cat,
    Search { banner: bool },
}

/// The plan for a file under the switches `s`, given whether its first bytes look binary.
pub open spec fn plan_for(s: Switches, binary: bool) -> FilePlan {
    if s.hide_all && binary {
        FilePlan::Skip
    } else if s.cat_mode {
        FilePlan::Cat
    } else {
        FilePlan::Search { banner: s.show_time }
    }
}

/// Decides what is done with a file under the switches `s`; `binary` tells whether its
/// first bytes look binary (only read with `--Hide`).
pub fn file_plan(s: &Switches, binary: bool) -> (p: FilePlan)
    ensures
        p == plan_for(*s, binary),
{
    if s.hide_all && binary {
        FilePlan::Skip
    } else if s.cat_mode {
        FilePlan::Cat
    } else {
        FilePlan::Search { banner: s.show_time }
    }
}

/// `pattern` as a whole-word regular expression: the pattern grouped without capturing
/// (so that an alternation such as `foo|bar` stays inside) between word boundaries.
pub open spec fn whole_word_regex(pattern: Seq<char>) -> Seq<char> {
    "\\b(?:"@ + pattern + ")\\b"@
}

/// The regular expression a search runs: with `-w` the pattern must match whole words.
pub open spec fn search_regex(c: ConfigView) -> Seq<char> {
    if c.switches.word_regexp {
        whole_word_regex(c.pattern)
    } else {
        c.pattern
    }
}

/// `pattern` as a whole-word regular expression.
pub fn whole_word(pattern: &str) -> (p: String)
    ensures
        p@ == whole_word_regex(pattern@),
{
    let mut p = String::from_str("\\b(?:");
    p.append(pattern);
    p.append(")\\b");
    p
}

/// The regular expression that the search for `config` runs.
pub fn search_pattern(config: &Config) -> (p: String)
    ensures
        p@ == search_regex(config@),
{
    if config.switches.word_regexp {
        whole_word(config.pattern.as_str())
    } else {
        config.pattern.clone()
    }
}

} // verus!

verus! {

/// `--Hide` wins over `-u` and `-I`: with it, the walk is set up the same way whatever else
/// is given.
pub proof fn lemma_hide_overrides_unrestricted(a: Switches, b: Switches)
    requires
        a.hide_all,
        b.hide_all,
    ensures
        settings_for(a) == settings_for(b),
        settings_for(a).skip_hidden && settings_for(a).git_ignore,
{
}

/// Without `--Hide`, `-u` only ever lifts restrictions: one `-u` shows hidden entries, two
/// or more stop honouring `.gitignore` (as does `-I`), and giving more `-u` never puts a
/// restriction back.
pub proof fn lemma_unrestricted_only_lifts(s: Switches, more: usize)
    requires
        !s.hide_all,
        s.unrestricted_level <= more,
    ensures
        s.unrestricted_level >= 1 ==> !settings_for(s).skip_hidden,
        s.unrestricted_level >= 2 || s.explicit_ignore ==> !settings_for(s).git_ignore,
        s.unrestricted_level == 0 ==> settings_for(s).skip_hidden,
        s.unrestricted_level <= 1 && !s.explicit_ignore ==> settings_for(s).git_ignore,
        settings_for(Switches { unrestricted_level: more, ..s }).skip_hidden ==> settings_for(s).skip_hidden,
        settings_for(Switches { unrestricted_level: more, ..s }).git_ignore ==> settings_for(s).git_ignore,
{
}

} // verus!
