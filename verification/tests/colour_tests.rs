use lewrep::colour::{
    black_bold, orange_bold, purple_bold, red_bold, white_bold, write_colour_prefix, write_coloured,
    write_reset, Colour, Coloured, Style,
};

fn prefix(colour: Colour, style: Style) -> String {
    let mut s = String::new();
    write_colour_prefix(&mut s, colour, style);
    s
}

#[test]
fn style_constructors_set_one_flag() {
    assert_eq!(Style::new(), Style { bold: false, underline: false, dim: false });
    assert_eq!(Style::bold(), Style { bold: true, underline: false, dim: false });
    assert_eq!(Style::underline(), Style { bold: false, underline: true, dim: false });
    assert_eq!(Style::dim(), Style { bold: false, underline: false, dim: true });
}

#[test]
fn plain_colour_codes() {
    assert_eq!(prefix(Colour::Purple, Style::new()), "\x1b[35m");
    assert_eq!(prefix(Colour::Orange, Style::new()), "\x1b[38;5;208m");
    assert_eq!(prefix(Colour::Red, Style::new()), "\x1b[31m");
    assert_eq!(prefix(Colour::Green, Style::new()), "\x1b[32m");
    assert_eq!(prefix(Colour::Blue, Style::new()), "\x1b[34m");
    assert_eq!(prefix(Colour::Yellow, Style::new()), "\x1b[33m");
    assert_eq!(prefix(Colour::Cyan, Style::new()), "\x1b[36m");
    assert_eq!(prefix(Colour::Magenta, Style::new()), "\x1b[35m");
    assert_eq!(prefix(Colour::Black, Style::new()), "\x1b[30m");
    assert_eq!(prefix(Colour::White, Style::new()), "\x1b[37m");
    assert_eq!(prefix(Colour::Reset, Style::new()), "\x1b[0m");
}

#[test]
fn rgb_colour_code() {
    assert_eq!(prefix(Colour::Rgb(255, 135, 0), Style::new()), "\x1b[38;2;255;135;0m");
    assert_eq!(prefix(Colour::Rgb(7, 42, 100), Style::bold()), "\x1b[1;38;2;7;42;100m");
}

#[test]
fn style_codes_are_joined_in_order() {
    assert_eq!(prefix(Colour::Red, Style::bold()), "\x1b[1;31m");
    assert_eq!(prefix(Colour::Red, Style::dim()), "\x1b[2;31m");
    assert_eq!(prefix(Colour::Red, Style::underline()), "\x1b[4;31m");
    let all = Style { bold: true, underline: true, dim: true };
    assert_eq!(prefix(Colour::Green, all), "\x1b[1;2;4;32m");
}

#[test]
fn reset_with_style_has_no_separator() {
    assert_eq!(prefix(Colour::Reset, Style::bold()), "\x1b[10m");
    let all = Style { bold: true, underline: true, dim: true };
    assert_eq!(prefix(Colour::Reset, all), "\x1b[1;2;40m");
}

#[test]
fn write_reset_appends_reset() {
    let mut s = String::from("x");
    write_reset(&mut s);
    assert_eq!(s, "x\x1b[0m");
}

#[test]
fn write_to_wraps_text() {
    let mut s = String::from(">");
    Coloured::new("hello", Colour::Blue).write_to(&mut s);
    assert_eq!(s, ">\x1b[34mhello\x1b[0m");
    let mut t = String::new();
    Coloured::with_style("héllo wörld", Colour::Yellow, Style::underline()).write_to(&mut t);
    assert_eq!(t, "\x1b[4;33mhéllo wörld\x1b[0m");
}

#[test]
fn write_coloured_matches_coloured_write_to() {
    let mut a = String::new();
    write_coloured(&mut a, "text", Colour::Cyan, Style::dim());
    let mut b = String::new();
    Coloured::with_style("text", Colour::Cyan, Style::dim()).write_to(&mut b);
    assert_eq!(a, b);
    assert_eq!(a, "\x1b[2;36mtext\x1b[0m");
}

#[test]
fn coloured_new_is_plain() {
    let c = Coloured::new("t", Colour::Red);
    assert_eq!(c.colour, Colour::Red);
    assert_eq!(c.style, Style::new());
    assert_eq!(c.text, "t");
}

#[test]
fn bold_shortcuts() {
    let cases = [
        (purple_bold("a"), Colour::Purple),
        (orange_bold("a"), Colour::Orange),
        (red_bold("a"), Colour::Red),
        (white_bold("a"), Colour::White),
        (black_bold("a"), Colour::Black),
    ];
    for (c, colour) in cases.iter() {
        assert_eq!(c.colour, *colour);
        assert_eq!(c.style, Style::bold());
        assert_eq!(c.text, "a");
    }
    let mut s = String::new();
    orange_bold("hit").write_to(&mut s);
    assert_eq!(s, "\x1b[1;38;5;208mhit\x1b[0m");
}

#[test]
fn prefix_shape_law_on_examples() {
    for colour in [Colour::Orange, Colour::Rgb(1, 2, 3), Colour::Reset, Colour::Purple] {
        for style in [Style::new(), Style::bold(), Style { bold: true, underline: true, dim: true }] {
            let p = prefix(colour, style);
            assert!(p.starts_with("\x1b["));
            assert!(p.ends_with('m'));
            let inner = &p[2..p.len() - 1];
            assert!(inner.chars().all(|c| c.is_ascii_digit() || c == ';'));
        }
    }
}
