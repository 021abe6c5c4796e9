use vstd::prelude::*;

use crate::colour::{bold_style, plain_style, rendered, write_coloured, Colour, Style};
use crate::cli::{Config, Switches};
use crate::walk::{whole_word, whole_word_regex};
use crate::text::{
    chars_of, decimal, lemma_first_occurrence, occurs_at, find_chars, first_line, first_line_of, first_occurrence, json_escape, lossy_utf8,
    push_decimal, push_json_escaped, strip_back, strip_both, trim_class, trim_end_class, utf8_lossy, CharClass,
};

verus! {

/// One capture group of a match: its text, its start and end byte offsets in the searched
/// line, and its name if the group is named.
pub type CaptureGroup = (String, usize, usize, Option<String>);

/// The capture groups of the first match of `pattern` (case-insensitively if
/// `ignore_case`) in `haystack`, group 0 first; `None` when the pattern does not compile
/// or does not match. A group that took no part in the match is `None`.
pub uninterp spec fn regex_captures(
    pattern: Seq<char>,
    ignore_case: bool,
    haystack: Seq<char>,
) -> Option<Seq<Option<(Seq<char>, usize, usize, Option<Seq<char>>)>>>;

/// Compiles `pattern` with `regex::RegexBuilder` (case-insensitive if asked) and returns
/// the capture groups of its first match in `haystack` (`Regex::captures`, with the names
/// from `Regex::capture_names`). What the groups hold is left to the regex crate and only
/// named here; stated is that a match has group 0, which always takes part.
#[verifier::external_body]
fn first_captures(pattern: &str, ignore_case: bool, haystack: &str) -> (r: Option<Vec<Option<CaptureGroup>>>)
    ensures
        r.deep_view() == regex_captures(pattern@, ignore_case, haystack@),
        r matches Some(groups) ==> groups.len() >= 1 && groups@[0] is Some,
{
    let re = regex::RegexBuilder::new(pattern).case_insensitive(ignore_case).build().ok()?;
    let caps = re.captures(haystack)?;
    let names: Vec<Option<&str>> = re.capture_names().collect();
    Some(
        (0..caps.len()).map(
            |i| caps.get(i).map(|m| (m.as_str().to_string(), m.start(), m.end(), names[i].map(|n| n.to_string())))
        ).collect(),
    )
}

/// The size text that `fsize_core::format_size` gives for `bytes` in decimal units.
pub uninterp spec fn formatted_size(bytes: u128) -> Seq<char>;

/// `fsize_core::format_size(bytes, None, false)`: the size in the largest decimal unit it
/// reaches. Below 1000 bytes the source shows the count and ` B`; larger sizes go through
/// floating point and are only named here.
#[verifier::external_body]
fn format_size(bytes: u128) -> (s: String)
    ensures
        s@ == formatted_size(bytes),
        bytes < 1000 ==> s@ == decimal(bytes as nat) + " B"@,
{
    fsize_core::format_size(bytes, None, false)
}

/// The orange used for piped matches, explanations and the time summary.
pub open spec fn amber() -> Colour {
    Colour::Rgb(255, 135, 0)
}

/// The label after a group number: ` (name)` for a named group, nothing otherwise.
pub open spec fn group_label(name: Option<Seq<char>>) -> Seq<char> {
    match name {
        Some(n) => " ("@ + n + ")"@,
        None => Seq::empty(),
    }
}

/// The explanation line of capture group `i`, if it took part in the match.
pub open spec fn group_line(i: nat, g: Option<(Seq<char>, usize, usize, Option<Seq<char>>)>) -> Seq<char> {
    match g {
        Some((text, start, end, name)) => "    => Group "@ + rendered(Colour::Green, plain_style(), decimal(i))
            + rendered(Colour::Blue, plain_style(), group_label(name)) + ": '"@ + rendered(
            amber(),
            plain_style(),
            text,
        ) + "' (at bytes "@ + decimal(start as nat) + "-"@ + decimal(end as nat) + ")\n"@,
        None => Seq::empty(),
    }
}

/// The explanation lines of groups `1..k`.
pub open spec fn group_lines(groups: Seq<Option<(Seq<char>, usize, usize, Option<Seq<char>>)>>, k: nat) -> Seq<char>
    decreases k,
{
    if k <= 1 {
        Seq::empty()
    } else {
        group_lines(groups, (k - 1) as nat) + group_line((k - 1) as nat, groups[k - 1])
    }
}

/// What `-X` prints for a line: a header, the whole match, then one line per capture group
/// that took part; nothing if the pattern does not compile or does not match.
pub open spec fn explanation(pattern: Seq<char>, ignore_case: bool, line: Seq<char>) -> Seq<char> {
    match regex_captures(pattern, ignore_case, line) {
        None => Seq::empty(),
        Some(groups) => {
            let full = match groups[0] {
                Some((t, _, _, _)) => t,
                None => Seq::empty(),
            };
            "  "@ + rendered(Colour::Cyan, bold_style(), "[EXPLAIN]"@) + "\n"@ + "    Full Match: '"@
                + rendered(Colour::Yellow, plain_style(), full) + "\n"@ + group_lines(
                groups,
                groups.len(),
            )
        },
    }
}

/// Appends the explanation line of capture group `i` to `out`.
fn push_group_line(out: &mut String, i: usize, group: &Option<CaptureGroup>)
    ensures
        final(out)@ == old(out)@ + group_line(i as nat, group.deep_view()),
{
    match group {
        Some(grp) => {
            out.append("    => Group ");
            let mut num = String::new();
            push_decimal(&mut num, i as u64);
            write_coloured(out, num.as_str(), Colour::Green, Style::new());
            let mut label = String::new();
            match &grp.3 {
                Some(name) => {
                    label.append(" (");
                    label.append(name.as_str());
                    label.append(")");
                },
                None => {},
            }
            write_coloured(out, label.as_str(), Colour::Blue, Style::new());
            out.append(": '");
            write_coloured(out, grp.0.as_str(), Colour::Rgb(255, 135, 0), Style::new());
            out.append("' (at bytes ");
            push_decimal(out, grp.1 as u64);
            out.append("-");
            push_decimal(out, grp.2 as u64);
            out.append(")\n");
        },
        None => {},
    }
}

/// Appends the explanation of `line` under `pattern` to `out`.
pub fn push_explanation(out: &mut String, pattern: &str, ignore_case: bool, line: &str)
    ensures
        final(out)@ == old(out)@ + explanation(pattern@, ignore_case, line@),
{
    let caps = first_captures(pattern, ignore_case, line);
    let ghost start = out@;
    match caps {
        None => {},
        Some(groups) => {
            let ghost g = groups.deep_view();
            out.append("  ");
            write_coloured(out, "[EXPLAIN]", Colour::Cyan, Style::bold());
            out.append("\n");
            out.append("    Full Match: '");
            match &groups[0] {
                Some(full) => write_coloured(out, full.0.as_str(), Colour::Yellow, Style::new()),
                None => write_coloured(out, "", Colour::Yellow, Style::new()),
            }
            out.append("\n");
            let ghost head = out@;
            let mut i: usize = 1;
            assert(group_lines(g, 1) =~= Seq::<char>::empty());
            while i < groups.len()
                invariant
                    g == groups.deep_view(),
                    1 <= i <= groups.len(),
                    out@ == head + group_lines(g, i as nat),
                decreases groups.len() - i,
            {
                push_group_line(out, i, &groups[i]);
                i += 1;
            }
        },
    }
}

} // verus!

verus! {

/// The colour of file names in match lines: none with `-d`, purple otherwise.
pub open spec fn name_colour(delete_colour: bool) -> Colour {
    if delete_colour { Colour::Reset } else { Colour::Purple }
}

/// The colour of line numbers in match lines: none with `-d`, magenta otherwise.
pub open spec fn number_colour(delete_colour: bool) -> Colour {
    if delete_colour { Colour::Reset } else { Colour::Magenta }
}

/// The colour of matched text: none with `-d`, orange otherwise.
pub open spec fn match_colour(delete_colour: bool) -> Colour {
    if delete_colour { Colour::Reset } else { Colour::Orange }
}

/// The colour of context text: white with `-d`, orange otherwise.
pub open spec fn context_colour(delete_colour: bool) -> Colour {
    if delete_colour { Colour::Rgb(255, 255, 255) } else { Colour::Orange }
}

/// The colour of file names in context lines: white with `-d`, purple otherwise.
pub open spec fn context_name_colour(delete_colour: bool) -> Colour {
    if delete_colour { white() } else { Colour::Purple }
}

/// The colour of line numbers in context lines and the tree view: white with `-d`, magenta
/// otherwise.
pub open spec fn context_number_colour(delete_colour: bool) -> Colour {
    if delete_colour { white() } else { Colour::Magenta }
}

/// `n` in decimal, shown bold in `colour`.
pub open spec fn bold_number(colour: Colour, n: nat) -> Seq<char> {
    rendered(colour, bold_style(), decimal(n))
}

/// The white used in place of colours with `-d`.
pub open spec fn white() -> Colour {
    Colour::Rgb(255, 255, 255)
}

/// The text that the first match of `pattern` (case-insensitively if `ignore_case`) covers
/// in `line`, which is what `-o` shows; `None` if the pattern does not compile or does not
/// match.
pub open spec fn match_text(pattern: Seq<char>, ignore_case: bool, line: Seq<char>) -> Option<Seq<char>> {
    match regex_captures(pattern, ignore_case, line) {
        Some(groups) => match groups[0] {
            Some((t, _, _, _)) => Some(t),
            None => None,
        },
        None => None,
    }
}

/// One JSON line of the `-j` output.
pub open spec fn json_record(kind: Seq<char>, path: Seq<char>, line_number: u64, text: Seq<char>) -> Seq<char> {
    "{\"type\":\""@ + kind + "\",\"path\":\""@ + json_escape(path) + "\",\"line_number\":"@ + decimal(
        line_number as nat,
    ) + ",\"text\":\""@ + json_escape(text) + "\"}\n"@
}

/// The text of a matched line: decoded, with trailing carriage returns and line feeds removed.
pub open spec fn clean_match_line(bytes: Seq<u8>) -> Seq<char> {
    strip_back(lossy_utf8(bytes), CharClass::LineEnd)
}

/// The text of a context line: the first line of the decoded bytes.
pub open spec fn clean_context_line(bytes: Seq<u8>) -> Seq<char> {
    first_line(lossy_utf8(bytes))
}

/// The state of the search of one file: what it reports on and how, how many lines matched
/// (with `-c`), and the lines kept for the tree view (with `-T`).
pub struct MatchSink {
    pub file_name: String,
    pub pattern: String,
    pub switches: Switches,
    pub match_count: usize,
    pub buffered: Vec<(u64, String)>,
}

/// The regular expression that the search of a sink's file runs: with `-w` its pattern as
/// a whole word.
pub open spec fn sink_regex(sink: MatchSink) -> Seq<char> {
    if sink.switches.word_regexp {
        whole_word_regex(sink.pattern@)
    } else {
        sink.pattern@
    }
}

/// What a match prints in the plain layout (neither `-c`, `-l`, `-j` nor `-T`): the file name
/// unless `-h`, the line number with `-n`, then the line (or with `-o` the text the pattern
/// matched). With `-n`, a match whose line number is unknown prints only the `-o` text, or
/// nothing.
pub open spec fn plain_match_output(sink: MatchSink, clean: Seq<char>, line_number: Option<u64>) -> Seq<char> {
    let text = |shown: Seq<char>|
        rendered(match_colour(sink.switches.delete_colour), plain_style(), shown) + "\n"@;
    if sink.switches.only_matching {
        match match_text(sink_regex(sink), sink.switches.ignore_case, clean) {
            None => Seq::empty(),
            Some(tok) => match match_head(sink, line_number) {
                Some(head) => head + text(tok),
                None => text(tok),
            },
        }
    } else {
        match match_head(sink, line_number) {
            Some(head) => head + text(clean),
            None => Seq::empty(),
        }
    }
}

/// What comes before the text of a match line: the file name unless `-h`, then with `-n`
/// the line number; `None` with `-n` when the line number is unknown.
pub open spec fn match_head(sink: MatchSink, line_number: Option<u64>) -> Option<Seq<char>> {
    let sw = sink.switches;
    let name_part = |sep: Seq<char>|
        if sw.no_filename {
            Seq::<char>::empty()
        } else {
            rendered(name_colour(sw.delete_colour), plain_style(), sink.file_name@) + sep
        };
    if sw.line_numbers {
        match line_number {
            Some(n) => Some(name_part(":"@) + bold_number(number_colour(sw.delete_colour), n as nat) + ": "@),
            None => None,
        }
    } else {
        Some(name_part(": "@))
    }
}

/// The explanation that `-X` adds for the matched `bytes`.
pub open spec fn explained(sink: MatchSink, bytes: Seq<u8>) -> Seq<char> {
    if sink.switches.explain_mode {
        explanation(sink.pattern@, sink.switches.ignore_case, lossy_utf8(bytes))
    } else {
        Seq::empty()
    }
}

/// Whether a match is kept for the tree view rather than printed.
pub open spec fn buffers_match(sw: Switches) -> bool {
    !sw.count_only && !sw.filenames_only && !sw.json_mode && sw.tree_view
}

/// What a match prints, and whether the search of the file goes on. With `-c` nothing is
/// printed; with `-l` the file name is printed and the search of the file stops; with `-j`
/// a JSON record and nothing else; with `-T` the line is kept for later; otherwise the plain
/// layout. The `-X` explanation follows, except with `-o` and `-j`.
pub open spec fn match_reply(sink: MatchSink, bytes: Seq<u8>, line_number: Option<u64>) -> (Seq<char>, bool) {
    let sw = sink.switches;
    let clean = clean_match_line(bytes);
    if sw.count_only {
        (Seq::empty(), true)
    } else if sw.filenames_only {
        (sink.file_name@ + "\n"@, false)
    } else if sw.json_mode {
        (
            json_record(
                "match"@,
                sink.file_name@,
                match line_number {
                    Some(n) => n,
                    None => 0,
                },
                clean,
            ),
            true,
        )
    } else if sw.tree_view {
        (explained(sink, bytes), true)
    } else if sw.only_matching {
        (plain_match_output(sink, clean, line_number), true)
    } else {
        (plain_match_output(sink, clean, line_number) + explained(sink, bytes), true)
    }
}

/// What a context line (from `-A`, `-B`, `-C`) prints: nothing with `-c`; a JSON record with
/// `-j`; otherwise the file name unless `-h` and the line number with `-n`, separated by `-`,
/// in purple and magenta, or all in white with `-d`.
pub open spec fn context_output(sink: MatchSink, bytes: Seq<u8>, line_number: Option<u64>) -> Seq<char> {
    let sw = sink.switches;
    let file = sink.file_name@;
    let clean = clean_context_line(bytes);
    let line = rendered(context_colour(sw.delete_colour), plain_style(), clean) + "\n"@;
    let name_part = |sep: Seq<char>|
        if sw.no_filename {
            Seq::<char>::empty()
        } else {
            rendered(context_name_colour(sw.delete_colour), plain_style(), file) + sep
        };
    if sw.count_only {
        Seq::empty()
    } else if sw.json_mode {
        json_record(
            "context"@,
            file,
            match line_number {
                Some(n) => n,
                None => 0,
            },
            clean,
        )
    } else if sw.line_numbers {
        match line_number {
            Some(n) => name_part("-"@) + bold_number(context_number_colour(sw.delete_colour), n as nat)
                + "- "@ + line,
            None => Seq::empty(),
        }
    } else {
        name_part("- "@) + line
    }
}

} // verus!

verus! {

/// Appends `n` in decimal, bold in `colour`.
fn push_bold_number(out: &mut String, colour: Colour, n: u64)
    ensures
        final(out)@ == old(out)@ + bold_number(colour, n as nat),
{
    let mut num = String::new();
    push_decimal(&mut num, n);
    write_coloured(out, num.as_str(), colour, Style::bold());
}

/// Appends the file name in `colour` followed by `sep`, unless names are left out.
fn push_name(out: &mut String, no_filename: bool, file: &str, colour: Colour, sep: &str)
    ensures
        final(out)@ == old(out)@ + if no_filename {
            Seq::<char>::empty()
        } else {
            rendered(colour, plain_style(), file@) + sep@
        },
{
    if !no_filename {
        write_coloured(out, file, colour, Style::new());
        out.append(sep);
    }
}

/// The text that the first match of `pattern` covers in `line` (what `-o` shows).
pub fn first_match_text(pattern: &str, ignore_case: bool, line: &str) -> (r: Option<String>)
    ensures
        match match_text(pattern@, ignore_case, line@) {
            Some(t) => r matches Some(s) && s@ == t,
            None => r is None,
        },
{
    match first_captures(pattern, ignore_case, line) {
        None => None,
        Some(groups) => {
            assert(groups.deep_view()[0] == groups@[0].deep_view());
            match &groups[0] {
                Some(full) => Some(full.0.clone()),
                None => None,
            }
        },
    }
}

/// Appends one JSON record of the `-j` output.
fn push_json_record(out: &mut String, kind: &str, path: &str, line_number: u64, text: &str)
    ensures
        final(out)@ == old(out)@ + json_record(kind@, path@, line_number, text@),
{
    out.append("{\"type\":\"");
    out.append(kind);
    out.append("\",\"path\":\"");
    push_json_escaped(out, path);
    out.append("\",\"line_number\":");
    push_decimal(out, line_number);
    out.append(",\"text\":\"");
    push_json_escaped(out, text);
    out.append("\"}\n");
}

impl MatchSink {
    /// The state at the start of the search of `file_name` under `config`.
    pub fn new(file_name: &str, config: &Config) -> (s: Self)
        ensures
            s.file_name@ == file_name@,
            s.pattern@ == config.pattern@,
            s.switches == config.switches,
            s.match_count == 0,
            s.buffered@.len() == 0,
    {
        MatchSink {
            file_name: String::from_str(file_name),
            pattern: config.pattern.clone(),
            switches: config.switches,
            match_count: 0,
            buffered: Vec::new(),
        }
    }

    /// The regular expression that the search of the sink's file runs.
    fn regex(&self) -> (p: String)
        ensures
            p@ == sink_regex(*self),
    {
        if self.switches.word_regexp {
            whole_word(self.pattern.as_str())
        } else {
            self.pattern.clone()
        }
    }

    /// Appends the head of a match line, if there is one; tells whether there was.
    fn push_match_head(&self, out: &mut String, line_number: Option<u64>) -> (b: bool)
        ensures
            b == match_head(*self, line_number) is Some,
            final(out)@ == old(out)@ + match match_head(*self, line_number) {
                Some(h) => h,
                None => Seq::<char>::empty(),
            },
    {
        let sw = self.switches;
        let file = self.file_name.as_str();
        if sw.line_numbers {
            match line_number {
                Some(n) => {
                    push_name(out, sw.no_filename, file, name_colour_of(sw.delete_colour), ":");
                    push_bold_number(out, number_colour_of(sw.delete_colour), n);
                    out.append(": ");
                    true
                },
                None => {
                    assert(old(out)@ + Seq::<char>::empty() =~= old(out)@);
                    false
                },
            }
        } else {
            push_name(out, sw.no_filename, file, name_colour_of(sw.delete_colour), ": ");
            true
        }
    }

    /// Appends the text of a match line.
    fn push_match_text(&self, out: &mut String, shown: &str)
        ensures
            final(out)@ == old(out)@ + rendered(match_colour(self.switches.delete_colour), plain_style(), shown@)
                + "\n"@,
    {
        write_coloured(out, shown, match_colour_of(self.switches.delete_colour), Style::new());
        out.append("\n");
    }

    /// Appends the plain layout of a match.
    fn push_plain_match(&self, out: &mut String, clean: &str, line_number: Option<u64>)
        ensures
            final(out)@ == old(out)@ + plain_match_output(*self, clean@, line_number),
    {
        if self.switches.only_matching {
            let regex = self.regex();
            match first_match_text(regex.as_str(), self.switches.ignore_case, clean) {
                None => {},
                Some(tok) => {
                    let ghost start = out@;
                    self.push_match_head(out, line_number);
                    self.push_match_text(out, tok.as_str());
                    assert(out@ =~= start + plain_match_output(*self, clean@, line_number));
                },
            }
        } else {
            let ghost start = out@;
            let mut line = String::new();
            if self.push_match_head(&mut line, line_number) {
                self.push_match_text(&mut line, clean);
                out.append(line.as_str());
            }
            assert(out@ =~= start + plain_match_output(*self, clean@, line_number));
        }
    }

    /// Appends the `-X` explanation of the matched `bytes`, if asked for.
    fn push_explained(&self, out: &mut String, bytes: &[u8])
        ensures
            final(out)@ == old(out)@ + explained(*self, bytes@),
    {
        if self.switches.explain_mode {
            let text = utf8_lossy(bytes);
            push_explanation(out, self.pattern.as_str(), self.switches.ignore_case, text.as_str());
        }
    }

    /// Handles one matching line (`bytes`, with its number if known): returns what to print
    /// and whether to go on searching the file.
    pub fn on_match(&mut self, bytes: &[u8], line_number: Option<u64>) -> (r: (String, bool))
        requires
            old(self).switches.count_only ==> old(self).match_count < usize::MAX,
        ensures
            (r.0@, r.1) == match_reply(*old(self), bytes@, line_number),
            final(self).file_name == old(self).file_name,
            final(self).pattern == old(self).pattern,
            final(self).switches == old(self).switches,
            final(self).match_count == if old(self).switches.count_only {
                (old(self).match_count + 1) as usize
            } else {
                old(self).match_count
            },
            final(self).buffered.deep_view() == if buffers_match(old(self).switches) {
                old(self).buffered.deep_view().push(
                    (
                        match line_number {
                            Some(n) => n,
                            None => 0,
                        },
                        clean_match_line(bytes@),
                    ),
                )
            } else {
                old(self).buffered.deep_view()
            },
    {
        let sw = self.switches;
        let mut out = String::new();
        if sw.count_only {
            self.match_count = self.match_count + 1;
            return (out, true);
        }
        if sw.filenames_only {
            out.append(self.file_name.as_str());
            out.append("\n");
            return (out, false);
        }
        let decoded = utf8_lossy(bytes);
        let clean = trim_end_class(&chars_of(decoded.as_str()), CharClass::LineEnd);
        let n = match line_number {
            Some(n) => n,
            None => 0,
        };
        if sw.json_mode {
            push_json_record(&mut out, "match", self.file_name.as_str(), n, clean.as_str());
            return (out, true);
        }
        if sw.tree_view {
            let ghost before = self.buffered.deep_view();
            self.buffered.push((n, clean));
            assert(self.buffered.deep_view() =~= before.push((n, clean_match_line(bytes@))));
            self.push_explained(&mut out, bytes);
            return (out, true);
        }
        self.push_plain_match(&mut out, clean.as_str(), line_number);
        if !sw.only_matching {
            self.push_explained(&mut out, bytes);
        }
        (out, true)
    }

    /// What to print for one context line (`bytes`, with its number if known).
    pub fn on_context(&self, bytes: &[u8], line_number: Option<u64>) -> (out: String)
        ensures
            out@ == context_output(*self, bytes@, line_number),
    {
        let sw = self.switches;
        let file = self.file_name.as_str();
        let mut out = String::new();
        if sw.count_only {
            return out;
        }
        let decoded = utf8_lossy(bytes);
        let clean = first_line_of(&chars_of(decoded.as_str()));
        if sw.json_mode {
            let n = match line_number {
                Some(n) => n,
                None => 0,
            };
            push_json_record(&mut out, "context", file, n, clean.as_str());
            return out;
        }
        let colour = if sw.delete_colour { Colour::Rgb(255, 255, 255) } else { Colour::Orange };
        let name_colour = if sw.delete_colour { Colour::Rgb(255, 255, 255) } else { Colour::Purple };
        let number_colour = if sw.delete_colour { Colour::Rgb(255, 255, 255) } else { Colour::Magenta };
        if sw.line_numbers {
            match line_number {
                Some(n) => {
                    push_name(&mut out, sw.no_filename, file, name_colour, "-");
                    push_bold_number(&mut out, number_colour, n);
                    out.append("- ");
                    write_coloured(&mut out, clean.as_str(), colour, Style::new());
                    out.append("\n");
                },
                None => {},
            }
        } else {
            push_name(&mut out, sw.no_filename, file, name_colour, "- ");
            write_coloured(&mut out, clean.as_str(), colour, Style::new());
            out.append("\n");
        }
        out
    }
}

fn name_colour_of(delete_colour: bool) -> (c: Colour)
    ensures
        c == name_colour(delete_colour),
{
    if delete_colour { Colour::Reset } else { Colour::Purple }
}

fn number_colour_of(delete_colour: bool) -> (c: Colour)
    ensures
        c == number_colour(delete_colour),
{
    if delete_colour { Colour::Reset } else { Colour::Magenta }
}

fn match_colour_of(delete_colour: bool) -> (c: Colour)
    ensures
        c == match_colour(delete_colour),
{
    if delete_colour { Colour::Reset } else { Colour::Orange }
}

} // verus!

verus! {

/// The help text shown by `--help`.
pub const HELP_TEXT: &'static str = r#"
================================================================================
LEWREP2 HELP
================================================================================
Usage:
lewrep2 [FLAGS] [PATTERN] [PATH...]

A parallel grep utility designed to quickly scan directories using regular expressions.

FLAGS:
    --help                      Display the help manual document layout.
    --manpage                   Display the comprehensive manual document layout.
    -i, --ignore-case           Perform case-insensitive text evaluation.
    -n, --line-number           Prefix each match line with its 1-based sequential line index.
    -v, --invert-match          Invert query matching selection properties.
    -l, --files-with-matches    Print only names of target files matching specifications.
    -c, --count                 Print exclusively total matching record line metrics per file.
    -h                          doesn't print filenames, just the files text.
    -o                          matches only the specific pattern you searched.
    -w, --word-regexp           Bound regular expression to validate complete word sequences.
    -T, --tree                  Format match visual layout structural mappings hierarchically.
    -d, --delete-colour         Strip text styling components before output execution.
    -j, --json                  Stream structural data components formatted as raw JSON.
    -X, --explain               Interactively clarify capture group structural properties.
    -A <NUM>                    Append context detailing trailing data lines.
    -B <NUM>                    Print Num lines of trailing context before matching lines.
    -C <NUM>                    Print Num lines of trailing context before and after matching lines.
    -x <EXT|EXT|...>            Limit target evaluation queries to a pipe-separated list of
                                file extensions ( -x "rs", -x "c|h", -x "cpp|hpp|cc|cxx").
    --Hide                      Omit structured path matching binary formatting properties.
    --vscode                    Override defaults to scan structural .vscode tracking areas.
    -u, -uu and -uuu            Shows .gitignore, hidden files and binaries.
    --Hide                      Does the opposite to "-u" and hides hidden files,
                                binaries and .gitignore.
    --cat                       prints cat-style text prints.
    --time                      shows the time via my Timo date/time library crate.

Examples:
    lewrep2 "struct Config" .
    lewrep2 -in "TODO" src/
================================================================================
"#;

/// The manual page shown by `--manpage`.
pub const MANPAGE: &'static str = r#"
LEWREP2(1)                User Commands               LEWREP2(1)

NAME
       lewrep2 - A high-performance parallel grep-class utility.

SYNOPSIS
       lewrep2 [FLAGS] [PATTERN] [PATH...]

DESCRIPTION
       lewrep2 searches for PATTERN in each PATH. It automatically
       respects .gitignore rules, avoids hidden directories, and
       utilizes multi-threaded directory traversal.

FLAGS
       -j, --json
             Enable JSON streaming mode. Outputs matches as clean,
             un-styled JSON objects for tool interoperability.

       -i, --ignore-case
             Perform case-insensitive matching.

       -n, --line-number
             Prefix each line of output with its 1-based line number.

       -v, --invert-match
              Invert matching: select non-matching lines.

       -l, --files-with-matches
             Only print the name of each file that contains matches.

       -u, --Unrestricted mode
             include hidden files.

       -uu, --include hidden
             includes hidden directories.

       -uuu, --show everything
             include binary files and all normally excluded content.

       -c, --count
             Only print a count of matching lines per file.

       -h, --no filename
              removes filename and just returns the files text.

       -w, --word-regexp
             Match only whole words matching PATTERN.

       -T, --tree
             Display results in a structured hierarchical visual tree.

       -d, --delete-colour
             Strip all color output styling.

       -X, --explain
             Explain regular expression match captures interactively.
        
       -o, --Matching only
             Matches only the pattern you searched not the full text.

       -A <NUM>
             Print NUM lines of trailing context after matching lines.

       -B <NUM>
             Print Num lines of trailing context before matching lines.

       -C <NUM>
             Print Num lines of trailing context before and after matching lines.

       -x <EXT|EXT|...>
             Limit search to files matching a pipe-separated list of
             extensions. Examples: -x "rs", -x "c|h", -x "cpp|hpp|cc|cxx".

       --Hide
             Hide structural paths matching binary format signatures.

       --vscode
             Explicitly allow indexing of hidden .vscode directories.

       --manpage
             Display this manual page and exit.

AUTHOR
       Written by xlewis1.
"#;

/// The rule drawn under headers.
pub open spec fn rule() -> Seq<char> {
    "──────────────────────────────────────────────────────────"@
}

/// What `--help` prints: the help text without surrounding whitespace, in green.
pub open spec fn help_screen_text() -> Seq<char> {
    rendered(Colour::Green, plain_style(), strip_both(HELP_TEXT@, CharClass::Whitespace)) + "\n"@
}

/// What `--manpage` prints: the manual page without surrounding whitespace, in cyan.
pub open spec fn manpage_screen_text() -> Seq<char> {
    rendered(Colour::Cyan, plain_style(), strip_both(MANPAGE@, CharClass::Whitespace)) + "\n"@
}

/// The text of `--help`.
pub fn help_screen() -> (s: String)
    ensures
        s@ == help_screen_text(),
{
    let mut out = String::new();
    let text = trim_class(&chars_of(HELP_TEXT), CharClass::Whitespace);
    write_coloured(&mut out, text.as_str(), Colour::Green, Style::new());
    out.append("\n");
    out
}

/// The text of `--manpage`.
pub fn manpage_screen() -> (s: String)
    ensures
        s@ == manpage_screen_text(),
{
    let mut out = String::new();
    let text = trim_class(&chars_of(MANPAGE), CharClass::Whitespace);
    write_coloured(&mut out, text.as_str(), Colour::Cyan, Style::new());
    out.append("\n");
    out
}

/// The time banner: `[TIMO RUNTIME] ` and the time summary, then a rule.
pub open spec fn time_banner_text(summary: Seq<char>) -> Seq<char> {
    "["@ + rendered(Colour::Cyan, bold_style(), "TIMO RUNTIME"@) + "] "@ + rendered(amber(), plain_style(), summary)
        + "\n"@ + rule() + "\n"@
}

/// The banner printed by `--time` on its own.
pub fn time_banner(summary: &str) -> (s: String)
    ensures
        s@ == time_banner_text(summary@),
{
    let mut out = String::new();
    out.append("[");
    write_coloured(&mut out, "TIMO RUNTIME", Colour::Cyan, Style::bold());
    out.append("] ");
    write_coloured(&mut out, summary, Colour::Rgb(255, 135, 0), Style::new());
    out.append("\n");
    out.append("──────────────────────────────────────────────────────────");
    out.append("\n");
    out
}

/// The average file size: total bytes over files, 0 when no file was counted.
pub open spec fn average_size(bytes: u64, files: u64) -> u64 {
    if files > 0 { (bytes / files) as u64 } else { 0 }
}

/// The banner printed before each file with `--time`: the time summary and, unless `-d`,
/// how many files the walk counted, their total size and their average size.
pub open spec fn search_banner_text(summary: Seq<char>, files: u64, bytes: u64, delete_colour: bool) -> Seq<char> {
    if delete_colour {
        "[TIMO RUNTIME] "@ + summary + "\n"@ + rule() + "\n"@
    } else {
        "["@ + rendered(Colour::Cyan, bold_style(), "TIMO RUNTIME"@) + "] "@ + rendered(amber(), plain_style(), summary)
            + "\n["@ + rendered(Colour::Green, bold_style(), "STORAGE INSIGHTS"@) + "] Scanned Files: "@
            + rendered(Colour::Yellow, plain_style(), decimal(files as nat)) + " | Aggregate Volume: "@
            + rendered(Colour::Yellow, plain_style(), formatted_size(bytes as u128)) + " | Average Size: "@
            + rendered(Colour::Yellow, plain_style(), formatted_size(average_size(bytes, files) as u128))
            + "\n"@ + rule() + "\n"@
    }
}

/// The banner printed before a file's results with `--time`.
pub fn search_banner(summary: &str, files: u64, bytes: u64, delete_colour: bool) -> (s: String)
    ensures
        s@ == search_banner_text(summary@, files, bytes, delete_colour),
{
    let mut out = String::new();
    if delete_colour {
        out.append("[TIMO RUNTIME] ");
        out.append(summary);
        out.append("\n");
        out.append("──────────────────────────────────────────────────────────");
        out.append("\n");
        return out;
    }
    let total = format_size(bytes as u128);
    let avg: u64 = if files > 0 { bytes / files } else { 0 };
    let average = format_size(avg as u128);
    let mut count = String::new();
    push_decimal(&mut count, files);
    out.append("[");
    write_coloured(&mut out, "TIMO RUNTIME", Colour::Cyan, Style::bold());
    out.append("] ");
    write_coloured(&mut out, summary, Colour::Rgb(255, 135, 0), Style::new());
    out.append("\n[");
    write_coloured(&mut out, "STORAGE INSIGHTS", Colour::Green, Style::bold());
    out.append("] Scanned Files: ");
    write_coloured(&mut out, count.as_str(), Colour::Yellow, Style::new());
    out.append(" | Aggregate Volume: ");
    write_coloured(&mut out, total.as_str(), Colour::Yellow, Style::new());
    out.append(" | Average Size: ");
    write_coloured(&mut out, average.as_str(), Colour::Yellow, Style::new());
    out.append("\n");
    out.append("──────────────────────────────────────────────────────────");
    out.append("\n");
    out
}

/// The header of `--cat` output: the path under a rule, unless `-h`.
pub open spec fn cat_header_text(path: Seq<char>, no_filename: bool) -> Seq<char> {
    if no_filename {
        Seq::empty()
    } else {
        rendered(Colour::Cyan, bold_style(), "📂 Cat View: "@) + rendered(Colour::Purple, bold_style(), path)
            + "\n"@ + rule() + "\n"@
    }
}

/// The header printed before a file with `--cat`.
pub fn cat_header(path: &str, no_filename: bool) -> (s: String)
    ensures
        s@ == cat_header_text(path@, no_filename),
{
    let mut out = String::new();
    if !no_filename {
        write_coloured(&mut out, "📂 Cat View: ", Colour::Cyan, Style::bold());
        write_coloured(&mut out, path, Colour::Purple, Style::bold());
        out.append("\n");
        out.append("──────────────────────────────────────────────────────────");
        out.append("\n");
    }
    out
}

/// One line of `--cat` output (the line at index `idx`): its number with `-n`, then the
/// line, in orange or, with `-d`, plain.
pub open spec fn cat_line_text(idx: nat, line: Seq<char>, line_numbers: bool, delete_colour: bool) -> Seq<char> {
    (if line_numbers {
        bold_number(Colour::Magenta, idx + 1) + ": "@
    } else {
        Seq::empty()
    }) + (if delete_colour {
        line
    } else {
        rendered(Colour::Orange, plain_style(), line)
    }) + "\n"@
}

/// What `--cat` prints for the line at index `idx`.
pub fn cat_line(idx: usize, line: &str, line_numbers: bool, delete_colour: bool) -> (s: String)
    requires
        idx < u64::MAX,
    ensures
        s@ == cat_line_text(idx as nat, line@, line_numbers, delete_colour),
{
    let mut out = String::new();
    if line_numbers {
        push_bold_number(&mut out, Colour::Magenta, idx as u64 + 1);
        out.append(": ");
    }
    if delete_colour {
        out.append(line);
    } else {
        write_coloured(&mut out, line, Colour::Orange, Style::new());
    }
    out.append("\n");
    out
}

} // verus!

verus! {

/// The branch drawn before a tree entry.
pub open spec fn tree_branch(last: bool) -> Seq<char> {
    if last { "└── "@ } else { "├── "@ }
}

/// One entry of the tree view: branch, `[number]` with `-n` when the number is known, and
/// the line; number and line in magenta and orange, or in white with `-d`.
pub open spec fn tree_line(entry: (u64, Seq<char>), last: bool, line_numbers: bool, delete_colour: bool) -> Seq<char> {
    tree_branch(last) + (if line_numbers && entry.0 > 0 {
        "["@ + bold_number(context_number_colour(delete_colour), entry.0 as nat) + "] "@
    } else {
        Seq::empty()
    }) + rendered(context_colour(delete_colour), plain_style(), entry.1) + "\n"@
}

/// The first `k` entries of the tree view.
pub open spec fn tree_lines(entries: Seq<(u64, Seq<char>)>, k: nat, line_numbers: bool, delete_colour: bool) -> Seq<char>
    decreases k,
{
    if k == 0 {
        Seq::empty()
    } else {
        tree_lines(entries, (k - 1) as nat, line_numbers, delete_colour) + tree_line(
            entries[k - 1],
            k == entries.len(),
            line_numbers,
            delete_colour,
        )
    }
}

/// The tree view of a file's matches: nothing if none was kept; otherwise the file name
/// (after an icon unless `-d`), one branch per match, and a blank line.
pub open spec fn tree_output(file: Seq<char>, entries: Seq<(u64, Seq<char>)>, line_numbers: bool, delete_colour: bool) -> Seq<char> {
    if entries.len() == 0 {
        Seq::empty()
    } else {
        (if delete_colour {
            Seq::empty()
        } else {
            rendered(Colour::Cyan, plain_style(), "📄 "@)
        }) + rendered(
            if delete_colour { Colour::Rgb(255, 255, 255) } else { Colour::Purple },
            bold_style(),
            file,
        ) + "\n"@ + tree_lines(entries, entries.len(), line_numbers, delete_colour) + "\n"@
    }
}

/// The `-c` line of a file: the file name unless `-h`, then the count; nothing for a file
/// without matches.
pub open spec fn count_output(file: Seq<char>, count: nat, no_filename: bool, delete_colour: bool) -> Seq<char> {
    if count == 0 {
        Seq::empty()
    } else {
        (if no_filename {
            Seq::empty()
        } else {
            rendered(
                if delete_colour { Colour::Rgb(255, 255, 255) } else { Colour::Purple },
                plain_style(),
                file,
            ) + ":"@
        }) + decimal(count) + "\n"@
    }
}

/// What is printed once the search of a file is over: its tree view with `-T`, its count
/// with `-c`.
pub open spec fn finish_output(sink: MatchSink) -> Seq<char> {
    let sw = sink.switches;
    (if sw.tree_view {
        tree_output(sink.file_name@, sink.buffered.deep_view(), sw.line_numbers, sw.delete_colour)
    } else {
        Seq::empty()
    }) + (if sw.count_only {
        count_output(sink.file_name@, sink.match_count as nat, sw.no_filename, sw.delete_colour)
    } else {
        Seq::empty()
    })
}

/// Appends one entry of the tree view.
fn push_tree_line(out: &mut String, entry: &(u64, String), last: bool, line_numbers: bool, delete_colour: bool)
    ensures
        final(out)@ == old(out)@ + tree_line(entry.deep_view(), last, line_numbers, delete_colour),
{
    if last {
        out.append("└── ");
    } else {
        out.append("├── ");
    }
    if line_numbers && entry.0 > 0 {
        out.append("[");
        let number_colour = if delete_colour { Colour::Rgb(255, 255, 255) } else { Colour::Magenta };
        push_bold_number(out, number_colour, entry.0);
        out.append("] ");
    }
    let colour = if delete_colour { Colour::Rgb(255, 255, 255) } else { Colour::Orange };
    write_coloured(out, entry.1.as_str(), colour, Style::new());
    out.append("\n");
}

impl MatchSink {
    /// What to print once the search of the file is over.
    pub fn finish(&self) -> (out: String)
        ensures
            out@ == finish_output(*self),
    {
        let sw = self.switches;
        let mut out = String::new();
        let ghost entries = self.buffered.deep_view();
        if sw.tree_view && self.buffered.len() > 0 {
            if !sw.delete_colour {
                write_coloured(&mut out, "📄 ", Colour::Cyan, Style::new());
            }
            let colour = if sw.delete_colour { Colour::Rgb(255, 255, 255) } else { Colour::Purple };
            write_coloured(&mut out, self.file_name.as_str(), colour, Style::bold());
            out.append("\n");
            let ghost head = out@;
            let mut i: usize = 0;
            while i < self.buffered.len()
                invariant
                    entries == self.buffered.deep_view(),
                    i <= self.buffered.len(),
                    out@ == head + tree_lines(entries, i as nat, sw.line_numbers, sw.delete_colour),
                decreases self.buffered.len() - i,
            {
                let last = i == self.buffered.len() - 1;
                push_tree_line(&mut out, &self.buffered[i], last, sw.line_numbers, sw.delete_colour);
                i += 1;
            }
            out.append("\n");
        }
        if sw.count_only && self.match_count > 0 {
            if !sw.no_filename {
                let colour = if sw.delete_colour { Colour::Rgb(255, 255, 255) } else { Colour::Purple };
                write_coloured(&mut out, self.file_name.as_str(), colour, Style::new());
                out.append(":");
            }
            push_decimal(&mut out, self.match_count as u64);
            out.append("\n");
        }
        out
    }
}

/// What piped input prints for the line at index `idx`: nothing unless the (literal)
/// pattern occurs in it; then the line number with `-n`, and the line (or with `-o` the
/// pattern itself, the text that matched) in orange.
pub open spec fn stdin_line_text(line: Seq<char>, idx: nat, pattern: Seq<char>, only_matching: bool, line_numbers: bool) -> Seq<char> {
    let number = if line_numbers {
        bold_number(Colour::Magenta, idx + 1) + ": "@
    } else {
        Seq::empty()
    };
    if first_occurrence(line, pattern) is None {
        Seq::empty()
    } else if only_matching {
        number + rendered(amber(), plain_style(), pattern) + "\n"@
    } else {
        number + rendered(amber(), plain_style(), line) + "\n"@
    }
}

/// What piped input prints for `line`, the line at index `idx`.
pub fn stdin_line(line: &str, idx: usize, pattern: &str, only_matching: bool, line_numbers: bool) -> (s: String)
    requires
        idx < u64::MAX,
    ensures
        s@ == stdin_line_text(line@, idx as nat, pattern@, only_matching, line_numbers),
{
    let mut out = String::new();
    let v = chars_of(line);
    let p = chars_of(pattern);
    if find_chars(&v, &p).is_none() {
        return out;
    }
    if line_numbers {
        push_bold_number(&mut out, Colour::Magenta, idx as u64 + 1);
        out.append(": ");
    }
    let shown = if only_matching { pattern } else { line };
    write_coloured(&mut out, shown, Colour::Rgb(255, 135, 0), Style::new());
    out.append("\n");
    out
}

} // verus!

verus! {

/// With `-c`, matches and context lines print nothing and the search goes on; the count is
/// printed once the file is done.
pub proof fn lemma_count_mode_is_silent(sink: MatchSink, bytes: Seq<u8>, line_number: Option<u64>)
    requires
        sink.switches.count_only,
    ensures
        match_reply(sink, bytes, line_number) == (Seq::<char>::empty(), true),
        context_output(sink, bytes, line_number) == Seq::<char>::empty(),
{
}

/// With `-l` (and not `-c`), the first match prints the file name alone and stops the
/// search of that file.
pub proof fn lemma_files_with_matches_stops(sink: MatchSink, bytes: Seq<u8>, line_number: Option<u64>)
    requires
        !sink.switches.count_only,
        sink.switches.filenames_only,
    ensures
        match_reply(sink, bytes, line_number) == (sink.file_name@ + "\n"@, false),
{
}

/// With `-h`, what a match or context line prints does not depend on the file's name
/// (outside `-l` and `-j`, whose output is the name or names it as a field).
pub proof fn lemma_no_filename_hides_name(
    a: MatchSink,
    b: MatchSink,
    bytes: Seq<u8>,
    line_number: Option<u64>,
)
    requires
        a.switches == b.switches,
        a.pattern@ == b.pattern@,
        a.switches.no_filename,
        !a.switches.filenames_only,
        !a.switches.json_mode,
    ensures
        match_reply(a, bytes, line_number) == match_reply(b, bytes, line_number),
        context_output(a, bytes, line_number) == context_output(b, bytes, line_number),
{
    let clean = clean_match_line(bytes);
    assert(plain_match_output(a, clean, line_number) == plain_match_output(b, clean, line_number));
    assert(explained(a, bytes) == explained(b, bytes));
}

/// Whether `s` holds no escape character.
pub open spec fn unstyled(s: Seq<char>) -> bool {
    !s.contains('\x1b')
}

proof fn lemma_unstyled_concat(a: Seq<char>, b: Seq<char>)
    requires
        unstyled(a),
        unstyled(b),
    ensures
        unstyled(a + b),
{
    if (a + b).contains('\x1b') {
        let i = choose|i: int| 0 <= i < (a + b).len() && (a + b)[i] == '\x1b';
        if i < a.len() {
            assert(a[i] == '\x1b');
        } else {
            assert(b[i - a.len()] == '\x1b');
        }
    }
}

proof fn lemma_escape_char_unstyled(c: char)
    ensures
        unstyled(crate::text::json_escape_char(c)),
{
    let e = crate::text::json_escape_char(c);
    if e.contains('\x1b') {
        let i = choose|i: int| 0 <= i < e.len() && e[i] == '\x1b';
        if c == '\x1b' {
            crate::text::lemma_hex_digit_is_hex(((c as u32) / 16) as nat);
            crate::text::lemma_hex_digit_is_hex(((c as u32) % 16) as nat);
        }
    }
}

/// JSON-escaped text carries no escape character: an escape character itself is written as
/// `\u001b`.
proof fn lemma_escape_unstyled(s: Seq<char>)
    ensures
        unstyled(json_escape(s)),
    decreases s.len(),
{
    if s.len() > 0 {
        lemma_escape_unstyled(s.drop_last());
        lemma_escape_char_unstyled(s.last());
        lemma_unstyled_concat(json_escape(s.drop_last()), crate::text::json_escape_char(s.last()));
    }
}

proof fn lemma_decimal_unstyled(n: nat)
    ensures
        unstyled(decimal(n)),
{
    crate::text::lemma_decimal_digits(n);
    if decimal(n).contains('\x1b') {
        let i = choose|i: int| 0 <= i < decimal(n).len() && decimal(n)[i] == '\x1b';
        assert(crate::text::is_digit(decimal(n)[i]));
    }
}

proof fn lemma_literal_unstyled(s: Seq<char>)
    requires
        forall|i: int| 0 <= i < s.len() ==> s[i] != '\x1b',
    ensures
        unstyled(s),
{
}

/// A `-j` record is plain JSON: it carries no terminal escape sequence, whatever the file
/// name and the line hold.
pub proof fn lemma_json_record_unstyled(kind: Seq<char>, path: Seq<char>, line_number: u64, text: Seq<char>)
    requires
        unstyled(kind),
    ensures
        unstyled(json_record(kind, path, line_number, text)),
{
    reveal_strlit("{\"type\":\"");
    reveal_strlit("\",\"path\":\"");
    reveal_strlit("\",\"line_number\":");
    reveal_strlit(",\"text\":\"");
    reveal_strlit("\"}\n");
    lemma_literal_unstyled("{\"type\":\""@);
    lemma_literal_unstyled("\",\"path\":\""@);
    lemma_literal_unstyled("\",\"line_number\":"@);
    lemma_literal_unstyled(",\"text\":\""@);
    lemma_literal_unstyled("\"}\n"@);
    lemma_escape_unstyled(path);
    lemma_escape_unstyled(text);
    lemma_decimal_unstyled(line_number as nat);
    let p1 = "{\"type\":\""@ + kind;
    lemma_unstyled_concat("{\"type\":\""@, kind);
    lemma_unstyled_concat(p1, "\",\"path\":\""@);
    let p2 = p1 + "\",\"path\":\""@;
    lemma_unstyled_concat(p2, json_escape(path));
    let p3 = p2 + json_escape(path);
    lemma_unstyled_concat(p3, "\",\"line_number\":"@);
    let p4 = p3 + "\",\"line_number\":"@;
    lemma_unstyled_concat(p4, decimal(line_number as nat));
    let p5 = p4 + decimal(line_number as nat);
    lemma_unstyled_concat(p5, ",\"text\":\""@);
    let p6 = p5 + ",\"text\":\""@;
    lemma_unstyled_concat(p6, json_escape(text));
    let p7 = p6 + json_escape(text);
    lemma_unstyled_concat(p7, "\"}\n"@);
}

/// With `-j` (and neither `-c` nor `-l`), everything a match or a context line prints is
/// un-styled JSON: no terminal escape sequence, and no `-X` explanation mixed in.
pub proof fn lemma_json_mode_is_unstyled(sink: MatchSink, bytes: Seq<u8>, line_number: Option<u64>)
    requires
        sink.switches.json_mode,
        !sink.switches.count_only,
        !sink.switches.filenames_only,
    ensures
        unstyled(match_reply(sink, bytes, line_number).0),
        match_reply(sink, bytes, line_number).1,
        unstyled(context_output(sink, bytes, line_number)),
{
    reveal_strlit("match");
    reveal_strlit("context");
    lemma_literal_unstyled("match"@);
    lemma_literal_unstyled("context"@);
    let n = match line_number {
        Some(n) => n,
        None => 0,
    };
    lemma_json_record_unstyled("match"@, sink.file_name@, n, clean_match_line(bytes));
    lemma_json_record_unstyled("context"@, sink.file_name@, n, clean_context_line(bytes));
}

/// Whether `s` holds no line feed.
pub open spec fn single_line(s: Seq<char>) -> bool {
    forall|i: int| 0 <= i < s.len() ==> s[i] != '\n'
}

proof fn lemma_single_line_concat(a: Seq<char>, b: Seq<char>)
    requires
        single_line(a),
        single_line(b),
    ensures
        single_line(a + b),
{
    assert forall|i: int| 0 <= i < (a + b).len() implies (a + b)[i] != '\n' by {
        if i < a.len() {
            assert((a + b)[i] == a[i]);
        } else {
            assert((a + b)[i] == b[i - a.len()]);
        }
    }
}

proof fn lemma_rendered_single_line(colour: Colour, style: Style, text: Seq<char>)
    requires
        single_line(text),
    ensures
        single_line(rendered(colour, style, text)),
        rendered(colour, style, text).len() >= text.len() + 3,
{
    crate::colour::lemma_prefix_shape(colour, style);
    let p = crate::colour::colour_prefix(colour, style);
    assert forall|i: int| 0 <= i < p.len() implies p[i] != '\n' by {
        if 2 <= i < p.len() - 1 {
            assert(p.subrange(2, p.len() - 1)[i - 2] == p[i]);
            assert(crate::colour::param_char(p.subrange(2, p.len() - 1)[i - 2]));
        }
    }
    reveal_strlit("\x1b[0m");
    assert(single_line(crate::colour::reset_sequence()));
    lemma_single_line_concat(p, text);
    lemma_single_line_concat(p + text, crate::colour::reset_sequence());
}

proof fn lemma_number_single_line(colour: Colour, n: nat)
    ensures
        single_line(bold_number(colour, n)),
{
    crate::text::lemma_decimal_digits(n);
    assert forall|i: int| 0 <= i < decimal(n).len() implies decimal(n)[i] != '\n' by {
        assert(crate::text::is_digit(decimal(n)[i]));
    }
    lemma_rendered_single_line(colour, bold_style(), decimal(n));
}

/// `--cat` shows every line of the file, an empty one included, as exactly one output line:
/// what it prints for a line without line feed holds the line's text, ends in a line feed
/// and holds no other.
pub proof fn lemma_cat_line_is_one_line(idx: nat, line: Seq<char>, line_numbers: bool, delete_colour: bool)
    requires
        single_line(line),
    ensures
        cat_line_text(idx, line, line_numbers, delete_colour).len() >= 1,
        cat_line_text(idx, line, line_numbers, delete_colour).last() == '\n',
        single_line(cat_line_text(idx, line, line_numbers, delete_colour).drop_last()),
        exists|k: int| #[trigger] occurs_at(cat_line_text(idx, line, line_numbers, delete_colour), line, k),
{
    let number = if line_numbers {
        bold_number(Colour::Magenta, idx + 1) + ": "@
    } else {
        Seq::empty()
    };
    let shown = if delete_colour {
        line
    } else {
        rendered(Colour::Orange, plain_style(), line)
    };
    reveal_strlit(": ");
    reveal_strlit("\n");
    lemma_number_single_line(Colour::Magenta, idx + 1);
    lemma_single_line_concat(bold_number(Colour::Magenta, idx + 1), ": "@);
    assert(single_line(number));
    lemma_rendered_single_line(Colour::Orange, plain_style(), line);
    assert(single_line(shown));
    lemma_single_line_concat(number, shown);
    let t = cat_line_text(idx, line, line_numbers, delete_colour);
    assert(t == (number + shown) + "\n"@);
    assert(t.drop_last() =~= number + shown);
    let p = crate::colour::colour_prefix(Colour::Orange, plain_style());
    let k: int = if delete_colour { number.len() as int } else { (number.len() + p.len()) as int };
    assert(t.subrange(k, k + line.len()) =~= line);
    assert(occurs_at(t, line, k));
}

/// Piped input prints a line exactly when the pattern occurs somewhere in it; what it
/// prints then is one output line that shows the whole line (with `-o`, the pattern).
pub proof fn lemma_stdin_prints_matching_lines(
    line: Seq<char>,
    idx: nat,
    pattern: Seq<char>,
    only_matching: bool,
    line_numbers: bool,
)
    ensures
        (stdin_line_text(line, idx, pattern, only_matching, line_numbers).len() == 0) <==> (forall|i: int|
            !occurs_at(line, pattern, i)),
        stdin_line_text(line, idx, pattern, only_matching, line_numbers).len() > 0 ==> ({
            let t = stdin_line_text(line, idx, pattern, only_matching, line_numbers);
            &&& t.last() == '\n'
            &&& only_matching ==> exists|k: int| #[trigger] occurs_at(t, pattern, k)
            &&& !only_matching ==> exists|k: int| #[trigger] occurs_at(t, line, k)
        }),
{
    lemma_first_occurrence(line, pattern);
    let t = stdin_line_text(line, idx, pattern, only_matching, line_numbers);
    if first_occurrence(line, pattern) is Some {
        let number = if line_numbers {
            bold_number(Colour::Magenta, idx + 1) + ": "@
        } else {
            Seq::empty()
        };
        let shown = if only_matching { pattern } else { line };
        let p = crate::colour::colour_prefix(amber(), plain_style());
        let r = crate::colour::reset_sequence();
        crate::colour::lemma_prefix_shape(amber(), plain_style());
        reveal_strlit("\n");
        assert(t == number + (p + shown + r) + "\n"@);
        let k: int = (number.len() + p.len()) as int;
        assert(t.subrange(k, k + shown.len()) =~= shown);
        assert(occurs_at(t, shown, k));
        assert("\n"@ =~= seq!['\n']);
        assert(t.last() == '\n');
    }
}

} // verus!
