use vstd::prelude::*;

use crate::text::{decimal, push_char, push_decimal};

verus! {

/// A terminal foreground colour.
#[derive(Debug, Clone, Copy, PartialEq, Eq)]
pub enum Colour {
    Purple,
    Orange,
    Red,
    Green,
    Blue,
    Yellow,
    Cyan,
    Magenta,
    Black,
    White,
    Rgb(u8, u8, u8),
    Reset,
}

/// Text attributes that go with a colour.
#[derive(Debug, Clone, Copy, PartialEq, Eq)]
pub struct Style {
    pub bold: bool,
    pub underline: bool,
    pub dim: bool,
}

/// A piece of text together with the colour and style it is shown in.
#[derive(Debug, Clone, Copy)]
pub struct Coloured<'a> {
    pub colour: Colour,
    pub style: Style,
    pub text: &'a str,
}

/// The SGR parameter that selects `colour` (for `Reset`, the parameter that clears all).
pub open spec fn colour_code(colour: Colour) -> Seq<char> {
    match colour {
        Colour::Purple => "35"@,
        Colour::Orange => "38;5;208"@,
        Colour::Red => "31"@,
        Colour::Green => "32"@,
        Colour::Blue => "34"@,
        Colour::Yellow => "33"@,
        Colour::Cyan => "36"@,
        Colour::Magenta => "35"@,
        Colour::Black => "30"@,
        Colour::White => "37"@,
        Colour::Rgb(r, g, b) => "38;2;"@ + decimal(r as nat) + ";"@ + decimal(g as nat) + ";"@
            + decimal(b as nat),
        Colour::Reset => "0"@,
    }
}

/// The SGR parameters of the attributes that `style` turns on, in the order bold, dim, underline.
pub open spec fn style_codes(style: Style) -> Seq<Seq<char>> {
    (if style.bold { seq![seq!['1']] } else { Seq::empty() }) + (if style.dim {
        seq![seq!['2']]
    } else {
        Seq::empty()
    }) + (if style.underline { seq![seq!['4']] } else { Seq::empty() })
}

/// `parts` joined with `;` between neighbours.
pub open spec fn joined(parts: Seq<Seq<char>>) -> Seq<char>
    decreases parts.len(),
{
    if parts.len() == 0 {
        Seq::empty()
    } else if parts.len() == 1 {
        parts[0]
    } else {
        joined(parts.drop_last()) + seq![';'] + parts.last()
    }
}

/// The escape sequence that switches the terminal to `colour` in `style`:
/// `ESC [`, the style parameters and the colour parameter joined by `;`, then `m`.
/// `Reset` appends its `0` with no separator.
pub open spec fn colour_prefix(colour: Colour, style: Style) -> Seq<char> {
    let codes = style_codes(style);
    let params = match colour {
        Colour::Reset => joined(codes) + colour_code(colour),
        _ => joined(codes.push(colour_code(colour))),
    };
    seq!['\x1b', '['] + params + seq!['m']
}

/// The escape sequence that restores the terminal's default rendition.
pub open spec fn reset_sequence() -> Seq<char> {
    "\x1b[0m"@
}

/// `text` shown in `colour` and `style`: the prefix, the text itself, then the reset sequence.
pub open spec fn rendered(colour: Colour, style: Style, text: Seq<char>) -> Seq<char> {
    colour_prefix(colour, style) + text + reset_sequence()
}

/// The plain style: no attribute set.
pub open spec fn plain_style() -> Style {
    Style { bold: false, underline: false, dim: false }
}

/// The style with only bold set.
pub open spec fn bold_style() -> Style {
    Style { bold: true, underline: false, dim: false }
}

impl Style {
    pub fn new() -> (s: Self)
        ensures
            s == plain_style(),
    {
        Self { bold: false, underline: false, dim: false }
    }

    pub fn bold() -> (s: Self)
        ensures
            s == bold_style(),
    {
        Self { bold: true, underline: false, dim: false }
    }

    pub fn underline() -> (s: Self)
        ensures
            s == (Style { bold: false, underline: true, dim: false }),
    {
        Self { bold: false, underline: true, dim: false }
    }

    pub fn dim() -> (s: Self)
        ensures
            s == (Style { bold: false, underline: false, dim: true }),
    {
        Self { bold: false, underline: false, dim: true }
    }
}

impl<'a> Coloured<'a> {
    pub fn new(text: &'a str, colour: Colour) -> (c: Self)
        ensures
            c.colour == colour,
            c.style == plain_style(),
            c.text == text,
    {
        Self { colour, style: Style::new(), text }
    }

    pub fn with_style(text: &'a str, colour: Colour, style: Style) -> (c: Self)
        ensures
            c.colour == colour,
            c.style == style,
            c.text == text,
    {
        Self { colour, style, text }
    }

    /// Appends the coloured text to `w`.
    pub fn write_to(&self, w: &mut String)
        ensures
            final(w)@ == old(w)@ + rendered(self.colour, self.style, self.text@),
    {
        write_colour_prefix(w, self.colour, self.style);
        w.append(self.text);
        write_reset(w);
    }
}

/// Appends `text` in `colour` and `style` to `w`.
pub fn write_coloured(w: &mut String, text: &str, colour: Colour, style: Style)
    ensures
        final(w)@ == old(w)@ + rendered(colour, style, text@),
{
    Coloured::with_style(text, colour, style).write_to(w)
}

proof fn lemma_joined_push(parts: Seq<Seq<char>>, x: Seq<char>)
    ensures
        joined(parts.push(x)) == if parts.len() == 0 {
            x
        } else {
            joined(parts) + seq![';'] + x
        },
{
    assert(parts.push(x).drop_last() =~= parts);
}


/// Appends the escape sequence that selects `colour` in `style` to `w`.
pub fn write_colour_prefix(w: &mut String, colour: Colour, style: Style)
    ensures
        final(w)@ == old(w)@ + colour_prefix(colour, style),
{
    let ghost start = w@;
    push_char(w, '\x1b');
    push_char(w, '[');
    let ghost mut parts: Seq<Seq<char>> = Seq::empty();
    let mut first = true;
    if style.bold {
        proof { lemma_joined_push(parts, seq!['1']); }
        push_char(w, '1');
        proof { parts = parts.push(seq!['1']); }
        first = false;
    }
    if style.dim {
        proof { lemma_joined_push(parts, seq!['2']); }
        if !first { push_char(w, ';'); }
        push_char(w, '2');
        proof { parts = parts.push(seq!['2']); }
        first = false;
    }
    if style.underline {
        proof { lemma_joined_push(parts, seq!['4']); }
        if !first { push_char(w, ';'); }
        push_char(w, '4');
        proof { parts = parts.push(seq!['4']); }
        first = false;
    }
    assert(w@ == start + seq!['\x1b', '['] + joined(parts));
    assert(parts == style_codes(style));
    match colour {
        Colour::Reset => {
            w.append("0");
        },
        _ => {
            proof { lemma_joined_push(parts, colour_code(colour)); }
            if !first { push_char(w, ';'); }
            write_colour_code(w, colour);
        },
    }
    push_char(w, 'm');
}

/// Appends the SGR parameter of a colour other than `Reset`.
fn write_colour_code(w: &mut String, colour: Colour)
    requires
        !(colour is Reset),
    ensures
        final(w)@ == old(w)@ + colour_code(colour),
{
    match colour {
        Colour::Purple => w.append("35"),
        Colour::Orange => w.append("38;5;208"),
        Colour::Red => w.append("31"),
        Colour::Green => w.append("32"),
        Colour::Blue => w.append("34"),
        Colour::Yellow => w.append("33"),
        Colour::Cyan => w.append("36"),
        Colour::Magenta => w.append("35"),
        Colour::Black => w.append("30"),
        Colour::White => w.append("37"),
        Colour::Rgb(r, g, b) => {
            w.append("38;2;");
            push_decimal(w, r as u64);
            w.append(";");
            push_decimal(w, g as u64);
            w.append(";");
            push_decimal(w, b as u64);
        },
        Colour::Reset => {},
    }
}

/// Appends the escape sequence that restores the default rendition to `w`.
pub fn write_reset(w: &mut String)
    ensures
        final(w)@ == old(w)@ + reset_sequence(),
{
    w.append("\x1b[0m");
}

pub fn purple_bold<'a>(text: &'a str) -> (c: Coloured<'a>)
    ensures
        c == (Coloured { colour: Colour::Purple, style: bold_style(), text }),
{
    Coloured::with_style(text, Colour::Purple, Style::bold())
}

pub fn orange_bold<'a>(text: &'a str) -> (c: Coloured<'a>)
    ensures
        c == (Coloured { colour: Colour::Orange, style: bold_style(), text }),
{
    Coloured::with_style(text, Colour::Orange, Style::bold())
}

pub fn red_bold<'a>(text: &'a str) -> (c: Coloured<'a>)
    ensures
        c == (Coloured { colour: Colour::Red, style: bold_style(), text }),
{
    Coloured::with_style(text, Colour::Red, Style::bold())
}

pub fn white_bold<'a>(text: &'a str) -> (c: Coloured<'a>)
    ensures
        c == (Coloured { colour: Colour::White, style: bold_style(), text }),
{
    Coloured::with_style(text, Colour::White, Style::bold())
}

pub fn black_bold<'a>(text: &'a str) -> (c: Coloured<'a>)
    ensures
        c == (Coloured { colour: Colour::Black, style: bold_style(), text }),
{
    Coloured::with_style(text, Colour::Black, Style::bold())
}

} // verus!

verus! {

/// Whether `c` may stand among the parameters of an escape sequence: a digit or `;`.
pub open spec fn param_char(c: char) -> bool {
    ('0' <= c && c <= '9') || c == ';'
}

/// Whether all characters of `s` may stand among escape-sequence parameters.
pub open spec fn all_params(s: Seq<char>) -> bool {
    forall|i: int| 0 <= i < s.len() ==> param_char(#[trigger] s[i])
}

proof fn lemma_all_params_concat(a: Seq<char>, b: Seq<char>)
    requires
        all_params(a),
        all_params(b),
    ensures
        all_params(a + b),
{
    assert forall|i: int| 0 <= i < (a + b).len() implies param_char(#[trigger] (a + b)[i]) by {
        if i < a.len() {
            assert((a + b)[i] == a[i]);
        } else {
            assert((a + b)[i] == b[i - a.len()]);
        }
    }
}

proof fn lemma_decimal_params(n: nat)
    ensures
        all_params(decimal(n)),
{
    crate::text::lemma_decimal_digits(n);
    assert forall|i: int| 0 <= i < decimal(n).len() implies param_char(#[trigger] decimal(n)[i]) by {
        assert(crate::text::is_digit(decimal(n)[i]));
    }
}

proof fn lemma_colour_code_params(colour: Colour)
    ensures
        all_params(colour_code(colour)),
        colour_code(colour).len() > 0,
{
    reveal_strlit("35");
    reveal_strlit("38;5;208");
    reveal_strlit("31");
    reveal_strlit("32");
    reveal_strlit("34");
    reveal_strlit("33");
    reveal_strlit("36");
    reveal_strlit("30");
    reveal_strlit("37");
    reveal_strlit("0");
    reveal_strlit("38;2;");
    reveal_strlit(";");
    match colour {
        Colour::Rgb(r, g, b) => {
            lemma_decimal_params(r as nat);
            lemma_decimal_params(g as nat);
            lemma_decimal_params(b as nat);
            lemma_all_params_concat("38;2;"@, decimal(r as nat));
            lemma_all_params_concat("38;2;"@ + decimal(r as nat), ";"@);
            lemma_all_params_concat("38;2;"@ + decimal(r as nat) + ";"@, decimal(g as nat));
            lemma_all_params_concat("38;2;"@ + decimal(r as nat) + ";"@ + decimal(g as nat), ";"@);
            lemma_all_params_concat(
                "38;2;"@ + decimal(r as nat) + ";"@ + decimal(g as nat) + ";"@,
                decimal(b as nat),
            );
        },
        _ => {},
    }
}

proof fn lemma_joined_params(parts: Seq<Seq<char>>)
    requires
        forall|k: int| 0 <= k < parts.len() ==> all_params(#[trigger] parts[k]),
    ensures
        all_params(joined(parts)),
    decreases parts.len(),
{
    if parts.len() == 1 {
    } else if parts.len() > 1 {
        lemma_joined_params(parts.drop_last());
        assert(parts.last() == parts[parts.len() - 1]);
        lemma_all_params_concat(joined(parts.drop_last()), seq![';']);
        lemma_all_params_concat(joined(parts.drop_last()) + seq![';'], parts.last());
    }
}

/// Every colour prefix is `ESC [`, then only digits and `;`, then `m`: a terminal ends the
/// sequence at that `m`, so the text that follows is shown as it is.
pub proof fn lemma_prefix_shape(colour: Colour, style: Style)
    ensures
        colour_prefix(colour, style).len() >= 3,
        colour_prefix(colour, style)[0] == '\x1b',
        colour_prefix(colour, style)[1] == '[',
        colour_prefix(colour, style).last() == 'm',
        all_params(colour_prefix(colour, style).subrange(2, colour_prefix(colour, style).len() - 1)),
{
    let codes = style_codes(style);
    assert forall|k: int| 0 <= k < codes.len() implies all_params(#[trigger] codes[k]) by {}
    lemma_colour_code_params(colour);
    let params = match colour {
        Colour::Reset => joined(codes) + colour_code(colour),
        _ => joined(codes.push(colour_code(colour))),
    };
    match colour {
        Colour::Reset => {
            lemma_joined_params(codes);
            lemma_all_params_concat(joined(codes), colour_code(colour));
        },
        _ => {
            let pushed = codes.push(colour_code(colour));
            assert forall|k: int| 0 <= k < pushed.len() implies all_params(#[trigger] pushed[k]) by {
                if k < codes.len() {
                    assert(pushed[k] == codes[k]);
                }
            }
            lemma_joined_params(pushed);
            lemma_joined_push(codes, colour_code(colour));
        },
    }
    let p = colour_prefix(colour, style);
    assert(p == seq!['\x1b', '['] + params + seq!['m']);
    assert(p.subrange(2, p.len() - 1) =~= params);
}

} // verus!
