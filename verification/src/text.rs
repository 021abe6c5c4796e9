use vstd::prelude::*;

verus! {

/// The character that stands for the decimal digit `d` (`0 <= d < 10`).
pub open spec fn digit_char(d: nat) -> char {
    if d == 0 { '0' }
    else if d == 1 { '1' }
    else if d == 2 { '2' }
    else if d == 3 { '3' }
    else if d == 4 { '4' }
    else if d == 5 { '5' }
    else if d == 6 { '6' }
    else if d == 7 { '7' }
    else if d == 8 { '8' }
    else { '9' }
}

/// The decimal rendering of `n`, with no sign and no leading zeros.
pub open spec fn decimal(n: nat) -> Seq<char>
    decreases n,
{
    if n < 10 {
        seq![digit_char(n)]
    } else {
        decimal(n / 10).push(digit_char(n % 10))
    }
}

/// Appends `c` to `s` (`String::push`).
#[verifier::external_body]
pub(crate) fn push_char(s: &mut String, c: char)
    ensures
        final(s)@ == old(s)@.push(c),
{
    s.push(c);
}

fn digit_of(d: u64) -> (c: char)
    requires
        d < 10,
    ensures
        c == digit_char(d as nat),
{
    if d == 0 { '0' }
    else if d == 1 { '1' }
    else if d == 2 { '2' }
    else if d == 3 { '3' }
    else if d == 4 { '4' }
    else if d == 5 { '5' }
    else if d == 6 { '6' }
    else if d == 7 { '7' }
    else if d == 8 { '8' }
    else { '9' }
}

/// Appends the decimal rendering of `n` to `out`.
pub fn push_decimal(out: &mut String, n: u64)
    ensures
        final(out)@ == old(out)@ + decimal(n as nat),
    decreases n,
{
    if n >= 10 {
        push_decimal(out, n / 10);
    }
    push_char(out, digit_of(n % 10));
}

} // verus!

verus! {

/// The characters of `s`, in order.
pub(crate) fn chars_of(s: &str) -> (v: Vec<char>)
    ensures
        v@ == s@,
{
    broadcast use vstd::string::axiom_spec_iter;

    let mut v: Vec<char> = Vec::new();
    for c in it: s.chars()
        invariant
            v@ == it.seq().take(it.index() as int),
    {
        v.push(c);
        assert(v@ =~= it.seq().take(it.index() + 1));
    }
    assert(v@ =~= s@);
    v
}

/// Whether two string slices hold the same text (`str == str`).
#[verifier::external_body]
pub(crate) fn str_equals(a: &str, b: &str) -> (r: bool)
    ensures
        r == (a@ == b@),
{
    a == b
}

/// Whether `c` has the Unicode `White_Space` property: tab to carriage return, space, next
/// line, no-break space, ogham space mark, the spaces U+2000 to U+200A, the line and
/// paragraph separators, narrow no-break space, medium mathematical space and ideographic
/// space.
pub open spec fn unicode_white_space(c: char) -> bool {
    let n = c as u32;
    ||| 0x9 <= n <= 0xd
    ||| n == 0x20
    ||| n == 0x85
    ||| n == 0xa0
    ||| n == 0x1680
    ||| 0x2000 <= n <= 0x200a
    ||| n == 0x2028
    ||| n == 0x2029
    ||| n == 0x202f
    ||| n == 0x205f
    ||| n == 0x3000
}

/// Whether `c` is white space in the sense of `char::is_whitespace` (the `White_Space`
/// property).
pub(crate) fn is_whitespace(c: char) -> (b: bool)
    ensures
        b == unicode_white_space(c),
{
    let n = c as u32;
    (0x9 <= n && n <= 0xd) || n == 0x20 || n == 0x85 || n == 0xa0 || n == 0x1680 || (0x2000 <= n
        && n <= 0x200a) || n == 0x2028 || n == 0x2029 || n == 0x202f || n == 0x205f || n == 0x3000
}

/// The Unicode lowercase mapping of a string.
pub uninterp spec fn lowercase_of(s: Seq<char>) -> Seq<char>;

/// Whether every character of `s` is ASCII.
pub open spec fn all_ascii(s: Seq<char>) -> bool {
    forall|i: int| 0 <= i < s.len() ==> (s[i] as u32) < 128
}

/// The ASCII lowercase of `c` (other characters unchanged).
pub open spec fn ascii_lower(c: char) -> char {
    if 'A' <= c && c <= 'Z' {
        ((c as u32) + 32) as char
    } else {
        c
    }
}

/// `str::to_lowercase`. On ASCII text it lowers `A`..`Z` and keeps every other character.
#[verifier::external_body]
pub(crate) fn to_lowercase(s: &str) -> (r: String)
    ensures
        r@ == lowercase_of(s@),
        all_ascii(s@) ==> r@ == s@.map_values(|c: char| ascii_lower(c)),
{
    s.to_lowercase()
}

/// The text that `String::from_utf8_lossy` makes of `bytes`.
pub uninterp spec fn lossy_utf8(bytes: Seq<u8>) -> Seq<char>;

/// `String::from_utf8_lossy`, owned. Valid UTF-8 is decoded as it stands; each invalid
/// sequence becomes U+FFFD.
#[verifier::external_body]
pub(crate) fn utf8_lossy(bytes: &[u8]) -> (r: String)
    ensures
        r@ == lossy_utf8(bytes@),
        vstd::utf8::valid_utf8(bytes@) ==> r@ == vstd::utf8::decode_utf8(bytes@),
{
    String::from_utf8_lossy(bytes).into_owned()
}

/// A `String` holding `v[from..to]`.
pub fn string_of(v: &Vec<char>, from: usize, to: usize) -> (s: String)
    requires
        from <= to <= v.len(),
    ensures
        s@ == v@.subrange(from as int, to as int),
{
    let mut s = String::new();
    let mut i = from;
    while i < to
        invariant
            from <= i <= to <= v.len(),
            s@ == v@.subrange(from as int, i as int),
        decreases to - i,
    {
        push_char(&mut s, v[i]);
        i += 1;
        assert(s@ =~= v@.subrange(from as int, i as int));
    }
    s
}

} // verus!

verus! {

/// A set of characters that trimming and splitting remove or stop at.
#[derive(Clone, Copy, PartialEq, Eq)]
pub enum CharClass {
    /// Characters with the Unicode `White_Space` property.
    Whitespace,
    /// The character `.`.
    Dot,
    /// Carriage return and line feed.
    LineEnd,
    /// Line feed alone.
    LineFeed,
}

/// Whether `c` belongs to `class`.
pub open spec fn in_class(class: CharClass, c: char) -> bool {
    match class {
        CharClass::Whitespace => unicode_white_space(c),
        CharClass::Dot => c == '.',
        CharClass::LineEnd => c == '\r' || c == '\n',
        CharClass::LineFeed => c == '\n',
    }
}

/// Whether `c` belongs to `class`.
pub fn char_in_class(class: CharClass, c: char) -> (b: bool)
    ensures
        b == in_class(class, c),
{
    match class {
        CharClass::Whitespace => is_whitespace(c),
        CharClass::Dot => c == '.',
        CharClass::LineEnd => c == '\r' || c == '\n',
        CharClass::LineFeed => c == '\n',
    }
}

/// `s` without its leading characters of `class`.
pub open spec fn strip_front(s: Seq<char>, class: CharClass) -> Seq<char>
    decreases s.len(),
{
    if s.len() > 0 && in_class(class, s[0]) {
        strip_front(s.drop_first(), class)
    } else {
        s
    }
}

/// `s` without its trailing characters of `class`.
pub open spec fn strip_back(s: Seq<char>, class: CharClass) -> Seq<char>
    decreases s.len(),
{
    if s.len() > 0 && in_class(class, s.last()) {
        strip_back(s.drop_last(), class)
    } else {
        s
    }
}

/// `s` without the characters of `class` at either end.
pub open spec fn strip_both(s: Seq<char>, class: CharClass) -> Seq<char> {
    strip_back(strip_front(s, class), class)
}

/// The index of the first character of `v[from..to]` outside `class` (`to` if none).
fn skip_class_forward(v: &Vec<char>, from: usize, to: usize, class: CharClass) -> (i: usize)
    requires
        from <= to <= v.len(),
    ensures
        from <= i <= to,
        strip_front(v@.subrange(from as int, to as int), class) == v@.subrange(i as int, to as int),
{
    let mut i = from;
    while i < to && char_in_class(class, v[i])
        invariant
            from <= i <= to <= v.len(),
            strip_front(v@.subrange(from as int, to as int), class) == strip_front(
                v@.subrange(i as int, to as int),
                class,
            ),
        decreases to - i,
    {
        assert(v@.subrange(i as int, to as int).drop_first() =~= v@.subrange(i + 1, to as int));
        i += 1;
    }
    i
}

/// The index just past the last character of `v[from..to]` outside `class` (`from` if none).
fn skip_class_backward(v: &Vec<char>, from: usize, to: usize, class: CharClass) -> (j: usize)
    requires
        from <= to <= v.len(),
    ensures
        from <= j <= to,
        strip_back(v@.subrange(from as int, to as int), class) == v@.subrange(from as int, j as int),
{
    let mut j = to;
    while j > from && char_in_class(class, v[j - 1])
        invariant
            from <= j <= to <= v.len(),
            strip_back(v@.subrange(from as int, to as int), class) == strip_back(
                v@.subrange(from as int, j as int),
                class,
            ),
        decreases j - from,
    {
        assert(v@.subrange(from as int, j as int).drop_last() =~= v@.subrange(from as int, j - 1));
        j -= 1;
    }
    j
}

/// The bounds of `v[from..to]` with the characters of `class` removed at both ends.
pub fn trim_bounds(v: &Vec<char>, from: usize, to: usize, class: CharClass) -> (r: (usize, usize))
    requires
        from <= to <= v.len(),
    ensures
        from <= r.0 <= r.1 <= to,
        strip_both(v@.subrange(from as int, to as int), class) == v@.subrange(r.0 as int, r.1 as int),
{
    let i = skip_class_forward(v, from, to, class);
    let j = skip_class_backward(v, i, to, class);
    (i, j)
}

/// `s` with the characters of `class` removed at the end only.
pub fn trim_end_class(v: &Vec<char>, class: CharClass) -> (s: String)
    ensures
        s@ == strip_back(v@, class),
{
    let j = skip_class_backward(v, 0, v.len(), class);
    assert(v@.subrange(0, v.len() as int) =~= v@);
    string_of(v, 0, j)
}

/// `s` with the characters of `class` removed at the start only.
pub fn trim_start_class(v: &Vec<char>, class: CharClass) -> (s: String)
    ensures
        s@ == strip_front(v@, class),
{
    let i = skip_class_forward(v, 0, v.len(), class);
    assert(v@.subrange(0, v.len() as int) =~= v@);
    string_of(v, i, v.len())
}

/// `s` with the characters of `class` removed at both ends.
pub fn trim_class(v: &Vec<char>, class: CharClass) -> (s: String)
    ensures
        s@ == strip_both(v@, class),
{
    let (i, j) = trim_bounds(v, 0, v.len(), class);
    assert(v@.subrange(0, v.len() as int) =~= v@);
    string_of(v, i, j)
}

} // verus!

verus! {

/// The leading characters of `s` up to (not including) its first character of `class`.
pub open spec fn take_until(s: Seq<char>, class: CharClass) -> Seq<char>
    decreases s.len(),
{
    if s.len() == 0 || in_class(class, s[0]) {
        Seq::empty()
    } else {
        seq![s[0]] + take_until(s.drop_first(), class)
    }
}

/// The index of the first character of `class` in `v[from..]` (`v.len()` if none).
fn find_class(v: &Vec<char>, from: usize, class: CharClass) -> (j: usize)
    requires
        from <= v.len(),
    ensures
        from <= j <= v.len(),
        take_until(v@.subrange(from as int, v.len() as int), class) == v@.subrange(
            from as int,
            j as int,
        ),
{
    let mut j = from;
    while j < v.len() && !char_in_class(class, v[j])
        invariant
            from <= j <= v.len(),
            take_until(v@.subrange(from as int, v.len() as int), class) == v@.subrange(
                from as int,
                j as int,
            ) + take_until(v@.subrange(j as int, v.len() as int), class),
        decreases v.len() - j,
    {
        let ghost rest = v@.subrange(j as int, v.len() as int);
        assert(rest.drop_first() =~= v@.subrange(j + 1, v.len() as int));
        assert(v@.subrange(from as int, j + 1) =~= v@.subrange(from as int, j as int) + seq![
            v@[j as int],
        ]);
        j += 1;
    }
    assert(v@.subrange(from as int, j as int) + Seq::<char>::empty() =~= v@.subrange(
        from as int,
        j as int,
    ));
    j
}

/// Whether `needle` occurs in `hay` starting at index `i`.
pub open spec fn occurs_at(hay: Seq<char>, needle: Seq<char>, i: int) -> bool {
    0 <= i && i + needle.len() <= hay.len() && hay.subrange(i, i + needle.len()) == needle
}

/// The first index at or after `i` where `needle` occurs in `hay`.
pub open spec fn first_occurrence_from(hay: Seq<char>, needle: Seq<char>, i: int) -> Option<int>
    decreases hay.len() + 1 - i,
{
    if i < 0 || i + needle.len() > hay.len() {
        None
    } else if occurs_at(hay, needle, i) {
        Some(i)
    } else {
        first_occurrence_from(hay, needle, i + 1)
    }
}

/// The first index where `needle` occurs in `hay` (`str::find`, counted in characters).
pub open spec fn first_occurrence(hay: Seq<char>, needle: Seq<char>) -> Option<int> {
    first_occurrence_from(hay, needle, 0)
}

proof fn lemma_first_occurrence_from_is_first(hay: Seq<char>, needle: Seq<char>, i: int)
    requires
        0 <= i,
    ensures
        first_occurrence_from(hay, needle, i) matches Some(k) ==> i <= k && occurs_at(hay, needle, k)
            && forall|j: int| i <= j < k ==> !occurs_at(hay, needle, j),
        first_occurrence_from(hay, needle, i) is None ==> forall|j: int|
            i <= j ==> !occurs_at(hay, needle, j),
    decreases hay.len() + 1 - i,
{
    if i + needle.len() > hay.len() {
    } else if occurs_at(hay, needle, i) {
    } else {
        lemma_first_occurrence_from_is_first(hay, needle, i + 1);
    }
}

/// Characterises `first_occurrence`: the least index where `needle` occurs, if any.
pub proof fn lemma_first_occurrence(hay: Seq<char>, needle: Seq<char>)
    ensures
        first_occurrence(hay, needle) matches Some(k) ==> occurs_at(hay, needle, k) && forall|j: int|
            0 <= j < k ==> !occurs_at(hay, needle, j),
        first_occurrence(hay, needle) is None ==> forall|j: int| !occurs_at(hay, needle, j),
{
    lemma_first_occurrence_from_is_first(hay, needle, 0);
}

/// Whether `needle` occurs in `hay` at `i`.
fn matches_at(hay: &Vec<char>, needle: &Vec<char>, i: usize) -> (b: bool)
    requires
        i + needle.len() <= hay.len(),
    ensures
        b == occurs_at(hay@, needle@, i as int),
{
    let mut k: usize = 0;
    while k < needle.len()
        invariant
            i + needle.len() <= hay.len(),
            k <= needle.len(),
            forall|m: int| 0 <= m < k ==> hay@[i + m] == needle@[m],
        decreases needle.len() - k,
    {
        if hay[i + k] != needle[k] {
            assert(hay@.subrange(i as int, i + needle.len())[k as int] != needle@[k as int]);
            return false;
        }
        k += 1;
    }
    assert(hay@.subrange(i as int, i + needle.len()) =~= needle@);
    true
}

/// The first index where `needle` occurs in `hay`, in characters.
pub fn find_chars(hay: &Vec<char>, needle: &Vec<char>) -> (r: Option<usize>)
    ensures
        r matches Some(i) ==> first_occurrence(hay@, needle@) == Some(i as int),
        r is None ==> first_occurrence(hay@, needle@) is None,
{
    if needle.len() > hay.len() {
        return None;
    }
    let last = hay.len() - needle.len();
    let mut i: usize = 0;
    while i <= last
        invariant
            last == hay.len() - needle.len(),
            needle.len() <= hay.len(),
            i <= last + 1,
            first_occurrence(hay@, needle@) == first_occurrence_from(hay@, needle@, i as int),
        decreases last + 1 - i,
    {
        if matches_at(hay, needle, i) {
            return Some(i);
        }
        if i == last {
            return None;
        }
        i += 1;
    }
    None
}

/// The lowercase hexadecimal digit for `d` (`0 <= d < 16`).
pub open spec fn hex_digit(d: nat) -> char {
    if d < 10 {
        digit_char(d)
    } else if d == 10 {
        'a'
    } else if d == 11 {
        'b'
    } else if d == 12 {
        'c'
    } else if d == 13 {
        'd'
    } else if d == 14 {
        'e'
    } else {
        'f'
    }
}

/// Whether `c` is a control character that JSON does not allow raw inside a string.
pub open spec fn is_control(c: char) -> bool {
    (c as u32) < 0x20
}

/// The JSON string-body form of one character: backslash and double quote escaped by a
/// backslash, line feed, carriage return and tab as `\n`, `\r`, `\t`, any other control
/// character as `\u00XX`; every other character as it is.
pub open spec fn json_escape_char(c: char) -> Seq<char> {
    if c == '\\' {
        seq!['\\', '\\']
    } else if c == '"' {
        seq!['\\', '"']
    } else if c == '\n' {
        seq!['\\', 'n']
    } else if c == '\r' {
        seq!['\\', 'r']
    } else if c == '\t' {
        seq!['\\', 't']
    } else if is_control(c) {
        seq!['\\', 'u', '0', '0', hex_digit(((c as u32) / 16) as nat), hex_digit(((c as u32) % 16) as nat)]
    } else {
        seq![c]
    }
}

/// `s` as the body of a JSON string: each character in its JSON string-body form.
pub open spec fn json_escape(s: Seq<char>) -> Seq<char>
    decreases s.len(),
{
    if s.len() == 0 {
        Seq::empty()
    } else {
        json_escape(s.drop_last()) + json_escape_char(s.last())
    }
}

fn hex_digit_of(d: u32) -> (c: char)
    requires
        d < 16,
    ensures
        c == hex_digit(d as nat),
{
    if d == 0 { '0' }
    else if d == 1 { '1' }
    else if d == 2 { '2' }
    else if d == 3 { '3' }
    else if d == 4 { '4' }
    else if d == 5 { '5' }
    else if d == 6 { '6' }
    else if d == 7 { '7' }
    else if d == 8 { '8' }
    else if d == 9 { '9' }
    else if d == 10 { 'a' }
    else if d == 11 { 'b' }
    else if d == 12 { 'c' }
    else if d == 13 { 'd' }
    else if d == 14 { 'e' }
    else { 'f' }
}

/// Appends the JSON string-body form of `c` to `out`.
fn push_json_char(out: &mut String, c: char)
    ensures
        final(out)@ == old(out)@ + json_escape_char(c),
{
    let ghost start = out@;
    if c == '\\' {
        push_char(out, '\\');
        push_char(out, '\\');
    } else if c == '"' {
        push_char(out, '\\');
        push_char(out, '"');
    } else if c == '\n' {
        push_char(out, '\\');
        push_char(out, 'n');
    } else if c == '\r' {
        push_char(out, '\\');
        push_char(out, 'r');
    } else if c == '\t' {
        push_char(out, '\\');
        push_char(out, 't');
    } else if (c as u32) < 0x20 {
        let n = c as u32;
        push_char(out, '\\');
        push_char(out, 'u');
        push_char(out, '0');
        push_char(out, '0');
        push_char(out, hex_digit_of(n / 16));
        push_char(out, hex_digit_of(n % 16));
    } else {
        push_char(out, c);
    }
    assert(out@ =~= start + json_escape_char(c));
}

/// Appends `s` to `out` as the body of a JSON string.
pub fn push_json_escaped(out: &mut String, s: &str)
    ensures
        final(out)@ == old(out)@ + json_escape(s@),
{
    let v = chars_of(s);
    let ghost start = out@;
    let mut i: usize = 0;
    while i < v.len()
        invariant
            i <= v.len(),
            v@ == s@,
            out@ == start + json_escape(v@.subrange(0, i as int)),
        decreases v.len() - i,
    {
        push_json_char(out, v[i]);
        assert(v@.subrange(0, i + 1).drop_last() =~= v@.subrange(0, i as int));
        i += 1;
        assert(out@ =~= start + json_escape(v@.subrange(0, i as int)));
    }
    assert(v@.subrange(0, v.len() as int) =~= v@);
}

} // verus!

verus! {

/// The first line of `s` as `str::lines` yields it: up to the first line feed, without a
/// carriage return just before that line feed; nothing if `s` is empty.
pub open spec fn first_line(s: Seq<char>) -> Seq<char> {
    let t = take_until(s, CharClass::LineFeed);
    if t.len() < s.len() && t.len() > 0 && t.last() == '\r' {
        t.drop_last()
    } else {
        t
    }
}

/// The first line of `v`, as `str::lines().next().unwrap_or("")` gives it.
pub fn first_line_of(v: &Vec<char>) -> (s: String)
    ensures
        s@ == first_line(v@),
{
    let j = find_class(v, 0, CharClass::LineFeed);
    assert(v@.subrange(0, v.len() as int) =~= v@);
    if j < v.len() && j > 0 && v[j - 1] == '\r' {
        string_of(v, 0, j - 1)
    } else {
        string_of(v, 0, j)
    }
}

/// The pieces of `s` between occurrences of `sep` (`str::split` with a character),
/// empty pieces included; always at least one piece.
pub open spec fn split_on(s: Seq<char>, sep: char) -> Seq<Seq<char>>
    decreases s.len(),
{
    if s.len() == 0 {
        seq![Seq::empty()]
    } else {
        let p = split_on(s.drop_last(), sep);
        if s.last() == sep {
            p.push(Seq::empty())
        } else {
            p.update(p.len() - 1, p.last().push(s.last()))
        }
    }
}

/// Splitting never yields an empty list of pieces.
pub proof fn lemma_split_on_nonempty(s: Seq<char>, sep: char)
    ensures
        split_on(s, sep).len() >= 1,
    decreases s.len(),
{
    if s.len() > 0 {
        lemma_split_on_nonempty(s.drop_last(), sep);
    }
}

/// Whether `c` is an ASCII decimal digit.
pub open spec fn is_digit(c: char) -> bool {
    '0' <= c && c <= '9'
}

/// The value of the decimal digits `s`.
pub open spec fn digits_value(s: Seq<char>) -> nat
    decreases s.len(),
{
    if s.len() == 0 {
        0
    } else {
        digits_value(s.drop_last()) * 10 + ((s.last() as u32) - ('0' as u32)) as nat
    }
}

/// Whether `s` is made of ASCII decimal digits only.
pub open spec fn all_digits(s: Seq<char>) -> bool {
    forall|i: int| 0 <= i < s.len() ==> is_digit(#[trigger] s[i])
}

/// What `str::parse::<usize>` gives for `s`: an optional `+`, then one or more ASCII
/// digits whose value fits in a `usize`.
pub open spec fn parsed_usize(s: Seq<char>) -> Option<nat> {
    let d = if s.len() > 0 && s[0] == '+' {
        s.drop_first()
    } else {
        s
    };
    if d.len() == 0 || !all_digits(d) || digits_value(d) > usize::MAX {
        None
    } else {
        Some(digits_value(d))
    }
}

proof fn lemma_digits_value_grows(s: Seq<char>, i: int)
    requires
        0 <= i <= s.len(),
        all_digits(s),
    ensures
        digits_value(s.subrange(0, i)) <= digits_value(s),
    decreases s.len() - i,
{
    if i < s.len() {
        lemma_digits_value_grows(s, i + 1);
        assert(s.subrange(0, i + 1).drop_last() =~= s.subrange(0, i));
        assert(is_digit(s[i]));
        assert(s.subrange(0, i + 1).last() == s[i]);
    } else {
        assert(s.subrange(0, i) =~= s);
    }
}

/// Parses `s` as `str::parse::<usize>` does.
pub fn parse_usize(s: &str) -> (r: Option<usize>)
    ensures
        r matches Some(n) ==> parsed_usize(s@) == Some(n as nat),
        r is None ==> parsed_usize(s@) is None,
{
    let v = chars_of(s);
    let start: usize = if v.len() > 0 && v[0] == '+' { 1 } else { 0 };
    let ghost d = if s@.len() > 0 && s@[0] == '+' { s@.drop_first() } else { s@ };
    assert(d =~= v@.subrange(start as int, v.len() as int));
    if start == v.len() {
        return None;
    }
    let mut value: usize = 0;
    let mut i = start;
    while i < v.len()
        invariant
            start <= i <= v.len(),
            v@ == s@,
            d == (if s@.len() > 0 && s@[0] == '+' { s@.drop_first() } else { s@ }),
            d == v@.subrange(start as int, v.len() as int),
            all_digits(v@.subrange(start as int, i as int)),
            value as nat == digits_value(v@.subrange(start as int, i as int)),
        decreases v.len() - i,
    {
        let c = v[i];
        if !('0' <= c && c <= '9') {
            assert(d[i - start] == c);
            assert(!is_digit(d[i - start]));
            assert(!all_digits(d));
            assert(parsed_usize(s@) is None);
            return None;
        }
        let dv = (c as u32 - '0' as u32) as usize;
        assert(v@.subrange(start as int, i + 1).drop_last() =~= v@.subrange(start as int, i as int));
        assert(v@.subrange(start as int, i + 1).last() == c);
        assert(digits_value(v@.subrange(start as int, i + 1)) == value * 10 + dv);
        assert(all_digits(v@.subrange(start as int, i + 1)));
        if value > (usize::MAX - dv) / 10 {
            assert(value * 10 + dv > usize::MAX) by (nonlinear_arith)
                requires
                    value > (usize::MAX - dv) / 10,
                    dv <= 9,
            ;
            proof {
                let rest = v@.subrange(start as int, v.len() as int);
                let k = (i + 1 - start) as int;
                assert(rest.subrange(0, k) =~= v@.subrange(start as int, i + 1));
                if all_digits(rest) {
                    lemma_digits_value_grows(rest, k);
                }
            }
            return None;
        }
        assert(value * 10 + dv <= usize::MAX) by (nonlinear_arith)
            requires
                value <= (usize::MAX - dv) / 10,
                dv <= 9,
        ;
        value = value * 10 + dv;
        i += 1;
    }
    Some(value)
}

/// A decimal rendering is read back to the same number.
pub proof fn lemma_decimal_parses_back(n: nat)
    requires
        n <= usize::MAX,
    ensures
        parsed_usize(decimal(n)) == Some(n),
{
    lemma_decimal_digits(n);
}

/// A decimal rendering is a non-empty run of digits whose value is the number.
pub proof fn lemma_decimal_digits(n: nat)
    ensures
        all_digits(decimal(n)),
        digits_value(decimal(n)) == n,
        decimal(n).len() >= 1,
        decimal(n)[0] != '+',
    decreases n,
{
    lemma_digit_char((n % 10) as nat);
    assert(decimal(n).last() == digit_char((n % 10) as nat));
    if n < 10 {
        assert(decimal(n).drop_last() =~= Seq::<char>::empty());
        assert(digits_value(Seq::<char>::empty()) == 0);
        assert(digits_value(decimal(n)) == digits_value(decimal(n).drop_last()) * 10 + ((decimal(n).last() as u32) - ('0' as u32)) as nat);
    } else {
        lemma_decimal_digits(n / 10);
        assert(decimal(n).drop_last() =~= decimal(n / 10));
        assert(decimal(n)[0] == decimal(n / 10)[0]);
        assert(n == (n / 10) * 10 + n % 10) by (nonlinear_arith);
        assert(digits_value(decimal(n)) == digits_value(decimal(n / 10)) * 10 + ((decimal(n).last() as u32) - ('0' as u32)) as nat);
    }
}

proof fn lemma_digit_char(d: nat)
    requires
        d < 10,
    ensures
        is_digit(digit_char(d)),
        (digit_char(d) as u32) - ('0' as u32) == d,
        digit_char(d) != '+',
{
}

} // verus!

verus! {

/// Whether one of the strings in `list` is `s`.
pub fn list_contains(list: &Vec<String>, s: &str) -> (b: bool)
    ensures
        b == list.deep_view().contains(s@),
{
    let ghost l = list.deep_view();
    let mut k: usize = 0;
    while k < list.len()
        invariant
            l == list.deep_view(),
            k <= list.len(),
            forall|m: int| 0 <= m < k ==> l[m] != s@,
        decreases list.len() - k,
    {
        if str_equals(list[k].as_str(), s) {
            assert(l[k as int] == s@);
            return true;
        }
        k += 1;
    }
    false
}

} // verus!

verus! {

/// The value of the hexadecimal digit `c` (0 for anything else).
pub open spec fn hex_value(c: char) -> nat {
    if '0' <= c && c <= '9' {
        ((c as u32) - ('0' as u32)) as nat
    } else if 'a' <= c && c <= 'f' {
        ((c as u32) - ('a' as u32) + 10) as nat
    } else if 'A' <= c && c <= 'F' {
        ((c as u32) - ('A' as u32) + 10) as nat
    } else {
        0
    }
}

/// The character that the escape `\uABCD` stands for, its four digits given.
pub open spec fn unicode_escape_char(a: char, b: char, c: char, d: char) -> char {
    (hex_value(a) * 4096 + hex_value(b) * 256 + hex_value(c) * 16 + hex_value(d)) as char
}

/// Reads JSON string-body text back: `\n`, `\r`, `\t` and `\uXXXX` stand for the characters
/// they name, and a backslash before any other character stands for that character.
pub open spec fn json_unescape(s: Seq<char>) -> Seq<char>
    decreases s.len(),
{
    if s.len() == 0 {
        Seq::empty()
    } else if s[0] == '\\' && s.len() >= 6 && s[1] == 'u' {
        seq![unicode_escape_char(s[2], s[3], s[4], s[5])] + json_unescape(s.skip(6))
    } else if s[0] == '\\' && s.len() >= 2 {
        seq![
            if s[1] == 'n' {
                '\n'
            } else if s[1] == 'r' {
                '\r'
            } else if s[1] == 't' {
                '\t'
            } else {
                s[1]
            },
        ] + json_unescape(s.skip(2))
    } else {
        seq![s[0]] + json_unescape(s.drop_first())
    }
}

proof fn lemma_json_escape_append(a: Seq<char>, b: Seq<char>)
    ensures
        json_escape(a + b) == json_escape(a) + json_escape(b),
    decreases b.len(),
{
    if b.len() == 0 {
        assert(a + b =~= a);
        assert(json_escape(a) + json_escape(b) =~= json_escape(a));
    } else {
        lemma_json_escape_append(a, b.drop_last());
        assert((a + b).drop_last() =~= a + b.drop_last());
        assert((a + b).last() == b.last());
        assert(json_escape(a) + json_escape(b) =~= json_escape(a) + json_escape(b.drop_last())
            + json_escape_char(b.last()));
    }
}

/// A hexadecimal digit is an ASCII digit or letter.
pub(crate) proof fn lemma_hex_digit_is_hex(d: nat)
    ensures
        ('0' <= hex_digit(d) <= '9') || ('a' <= hex_digit(d) <= 'f'),
{
}

proof fn lemma_hex_round_trip(d: nat)
    requires
        d < 16,
    ensures
        hex_value(hex_digit(d)) == d,
{
}

proof fn lemma_control_round_trip(c: char)
    requires
        is_control(c),
    ensures
        unicode_escape_char('0', '0', hex_digit(((c as u32) / 16) as nat), hex_digit(((c as u32) % 16) as nat)) == c,
{
    let n = c as u32;
    lemma_hex_round_trip((n / 16) as nat);
    lemma_hex_round_trip((n % 16) as nat);
    assert(hex_value('0') == 0);
    assert((n / 16) * 16 + n % 16 == n);
    assert(((n as int) as char) == c);
}

proof fn lemma_unescape_one(c: char, t: Seq<char>)
    ensures
        json_unescape(json_escape_char(c) + t) == seq![c] + json_unescape(t),
{
    let e = json_escape_char(c) + t;
    if c == '\\' || c == '"' || c == '\n' || c == '\r' || c == '\t' {
        assert(e.skip(2) =~= t);
        assert(e[0] == '\\');
        assert(e[1] != 'u');
    } else if is_control(c) {
        lemma_control_round_trip(c);
        assert(e.skip(6) =~= t);
        assert(e[0] == '\\' && e[1] == 'u');
    } else {
        assert(e.drop_first() =~= t);
        assert(e[0] == c);
    }
}

/// Escaped text reads back as the original text: a JSON reader recovers every file name and
/// line exactly, whatever quotes, backslashes and control characters they hold.
pub proof fn lemma_json_escape_round_trip(s: Seq<char>)
    ensures
        json_unescape(json_escape(s)) == s,
    decreases s.len(),
{
    if s.len() > 0 {
        let c = s[0];
        let rest = s.drop_first();
        assert(s =~= seq![c] + rest);
        lemma_json_escape_append(seq![c], rest);
        assert(seq![c].drop_last() =~= Seq::<char>::empty());
        assert(seq![c].last() == c);
        assert(json_escape(Seq::<char>::empty()) =~= Seq::<char>::empty());
        assert(json_escape(seq![c]) =~= json_escape(seq![c].drop_last()) + json_escape_char(c));
        assert(json_escape(seq![c]) =~= json_escape_char(c));
        lemma_json_escape_round_trip(rest);
        lemma_unescape_one(c, json_escape(rest));
        assert(seq![c] + rest =~= s);
    }
}

} // verus!
