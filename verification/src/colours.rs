//! Terminal colours and styles, painted with ANSI escape sequences.
//!
//! There are eight standard colours, and 256 fixed ones. The first eight
//! (and their bold variants) are user-definable and can look different on
//! different terminals, but the other 256 have their values fixed.

use vstd::prelude::*;

use crate::text::push_char;

verus! {

/// A terminal colour.
#[derive(PartialEq, Eq, Debug, Copy, Clone)]
pub enum Colour {
    Black,
    Red,
    Green,
    Yellow,
    Blue,
    Purple,
    Cyan,
    White,
    Fixed(u8),
}

/// There are only three different styles: plain (no formatting), only
/// a foreground colour, and a catch-all for anything more complicated
/// than that.
#[derive(PartialEq, Eq, Debug, Copy, Clone)]
pub enum Style {
    Plain,
    Foreground(Colour),
    Style(StyleStruct),
}

/// A foreground colour with an optional background colour, bold, and
/// underline.
#[derive(PartialEq, Eq, Debug, Copy, Clone)]
pub struct StyleStruct {
    pub foreground: Colour,
    pub background: Option<Colour>,
    pub bold: bool,
    pub underline: bool,
}

/// The decimal digits of a number.
pub open spec fn decimal(n: nat) -> Seq<char>
    decreases n,
{
    if n < 10 {
        seq![digit_char(n)]
    } else {
        decimal(n / 10).push(digit_char(n % 10))
    }
}

/// The character of a decimal digit.
pub open spec fn digit_char(d: nat) -> char {
    (d + 48) as char
}

/// Writes out the decimal digits of a byte.
pub fn u8_decimal(n: u8) -> (r: String)
    ensures
        r@ == decimal(n as nat),
{
    let mut s = String::new();
    proof { reveal_with_fuel(decimal, 3); }
    if n >= 100 {
        push_char(&mut s, ((n / 100) + 48) as char);
        push_char(&mut s, (((n / 10) % 10) + 48) as char);
        push_char(&mut s, ((n % 10) + 48) as char);
        assert(decimal(n as nat / 10) == decimal((n / 100) as nat).push(digit_char((n / 10 % 10) as nat)));
        assert(s@ =~= decimal(n as nat));
    } else if n >= 10 {
        push_char(&mut s, ((n / 10) + 48) as char);
        push_char(&mut s, ((n % 10) + 48) as char);
        assert(s@ =~= decimal(n as nat));
    } else {
        push_char(&mut s, (n + 48) as char);
        assert(s@ =~= decimal(n as nat));
    }
    s
}

/// Appends the decimal digits of a number.
pub fn push_decimal(s: &mut String, n: u64)
    ensures
        final(s)@ == old(s)@ + decimal(n as nat),
    decreases n,
{
    if n >= 10 {
        push_decimal(s, n / 10);
    }
    let d: u64 = n % 10;
    push_char(s, ((d as u8) + 48) as char);
    proof {
        assert(digit_char(d as nat) == (((d as u8) + 48) as char));
    }
    assert(s@ =~= old(s)@ + decimal(n as nat)) by {
        if n >= 10 {
            assert(decimal(n as nat) == decimal((n / 10) as nat).push(digit_char(d as nat)));
        }
    }
}

/// The escape code that starts a style.
pub open spec fn csi() -> Seq<char> {
    "\x1B["@
}

/// The escape code that resets the style.
pub open spec fn reset() -> Seq<char> {
    "\x1B[0m"@
}

impl Colour {
    /// The numeric code that selects this colour as the foreground.
    pub open spec fn spec_foreground_code(self) -> Seq<char> {
        match self {
            Colour::Black => "30"@,
            Colour::Red => "31"@,
            Colour::Green => "32"@,
            Colour::Yellow => "33"@,
            Colour::Blue => "34"@,
            Colour::Purple => "35"@,
            Colour::Cyan => "36"@,
            Colour::White => "37"@,
            Colour::Fixed(n) => "38;5;"@ + decimal(n as nat),
        }
    }

    /// The numeric code that selects this colour as the background.
    pub open spec fn spec_background_code(self) -> Seq<char> {
        match self {
            Colour::Black => "40"@,
            Colour::Red => "41"@,
            Colour::Green => "42"@,
            Colour::Yellow => "43"@,
            Colour::Blue => "44"@,
            Colour::Purple => "45"@,
            Colour::Cyan => "46"@,
            Colour::White => "47"@,
            Colour::Fixed(n) => "48;5;"@ + decimal(n as nat),
        }
    }

    /// The numeric code that selects this colour as the foreground.
    pub fn foreground_code(&self) -> (r: String)
        ensures
            r@ == self.spec_foreground_code(),
    {
        match *self {
            Colour::Black => String::from_str("30"),
            Colour::Red => String::from_str("31"),
            Colour::Green => String::from_str("32"),
            Colour::Yellow => String::from_str("33"),
            Colour::Blue => String::from_str("34"),
            Colour::Purple => String::from_str("35"),
            Colour::Cyan => String::from_str("36"),
            Colour::White => String::from_str("37"),
            Colour::Fixed(num) => {
                let s = String::from_str("38;5;");
                let d = u8_decimal(num);
                s.concat(d.as_str())
            },
        }
    }

    /// The numeric code that selects this colour as the background.
    pub fn background_code(&self) -> (r: String)
        ensures
            r@ == self.spec_background_code(),
    {
        match *self {
            Colour::Black => String::from_str("40"),
            Colour::Red => String::from_str("41"),
            Colour::Green => String::from_str("42"),
            Colour::Yellow => String::from_str("43"),
            Colour::Blue => String::from_str("44"),
            Colour::Purple => String::from_str("45"),
            Colour::Cyan => String::from_str("46"),
            Colour::White => String::from_str("47"),
            Colour::Fixed(num) => {
                let s = String::from_str("48;5;");
                let d = u8_decimal(num);
                s.concat(d.as_str())
            },
        }
    }

    /// This colour as a foreground, around the input.
    pub open spec fn spec_paint(self, input: Seq<char>) -> Seq<char> {
        csi() + self.spec_foreground_code() + "m"@ + input + reset()
    }

    /// Paints the input in this colour. This is a short-cut so there is no
    /// need to turn the colour into a style first.
    pub fn paint(&self, input: &str) -> (r: String)
        ensures
            r@ == self.spec_paint(input@),
    {
        let s = String::from_str("\x1B[");
        let code = self.foreground_code();
        let s = s.concat(code.as_str());
        let s = s.concat("m");
        let s = s.concat(input);
        s.concat("\x1B[0m")
    }

    /// This colour as an underlined foreground.
    pub fn underline(&self) -> (r: Style)
        ensures
            r == Style::Style(StyleStruct { foreground: *self, background: None, bold: false, underline: true }),
    {
        Style::Style(StyleStruct { foreground: *self, background: None, bold: false, underline: true })
    }

    /// This colour as a bold foreground.
    pub fn bold(&self) -> (r: Style)
        ensures
            r == Style::Style(StyleStruct { foreground: *self, background: None, bold: true, underline: false }),
    {
        Style::Style(StyleStruct { foreground: *self, background: None, bold: true, underline: false })
    }

    /// This colour as a plain foreground.
    pub fn normal(&self) -> (r: Style)
        ensures
            r == Style::Style(StyleStruct { foreground: *self, background: None, bold: false, underline: false }),
    {
        Style::Style(StyleStruct { foreground: *self, background: None, bold: false, underline: false })
    }

    /// This colour as a foreground, on the given background.
    pub fn on(&self, background: Colour) -> (r: Style)
        ensures
            r == Style::Style(StyleStruct { foreground: *self, background: Some(background), bold: false, underline: false }),
    {
        Style::Style(StyleStruct { foreground: *self, background: Some(background), bold: false, underline: false })
    }
}

impl StyleStruct {
    /// The escape codes of this style, around the input.
    pub open spec fn spec_paint(self, input: Seq<char>) -> Seq<char> {
        let bo = if self.bold { "1;"@ } else { Seq::<char>::empty() };
        let un = if self.underline { "4;"@ } else { Seq::<char>::empty() };
        let bg = match self.background {
            Some(c) => c.spec_background_code() + ";"@,
            None => Seq::<char>::empty(),
        };
        csi() + bo + un + bg + self.foreground.spec_foreground_code() + "m"@ + input + reset()
    }
}

impl Style {
    /// The input, painted in this style.
    pub open spec fn spec_paint(self, input: Seq<char>) -> Seq<char> {
        match self {
            Style::Plain => input,
            Style::Foreground(c) => c.spec_paint(input),
            Style::Style(s) => s.spec_paint(input),
        }
    }

    /// Paints the input in this style.
    pub fn paint(&self, input: &str) -> (r: String)
        ensures
            r@ == self.spec_paint(input@),
    {
        match *self {
            Style::Plain => String::from_str(input),
            Style::Foreground(c) => c.paint(input),
            Style::Style(s) => {
                let mut painted = String::from_str("\x1B[");
                if s.bold {
                    painted.append("1;");
                }
                if s.underline {
                    painted.append("4;");
                }
                match s.background {
                    Some(c) => {
                        let code = c.background_code();
                        painted.append(code.as_str());
                        painted.append(";");
                    },
                    None => {},
                }
                let fg = s.foreground.foreground_code();
                painted.append(fg.as_str());
                painted.append("m");
                painted.append(input);
                painted.append("\x1B[0m");
                painted
            },
        }
    }

    /// This style, made bold. The underline is dropped.
    pub fn bold(&self) -> (r: Style)
        ensures
            r == (match *self {
                Style::Plain => Style::Style(StyleStruct { foreground: Colour::White, background: None, bold: true, underline: false }),
                Style::Foreground(c) => Style::Style(StyleStruct { foreground: c, background: None, bold: true, underline: false }),
                Style::Style(st) => Style::Style(StyleStruct { foreground: st.foreground, background: st.background, bold: true, underline: false }),
            }),
    {
        match *self {
            Style::Plain => Style::Style(StyleStruct { foreground: Colour::White, background: None, bold: true, underline: false }),
            Style::Foreground(c) => Style::Style(StyleStruct { foreground: c, background: None, bold: true, underline: false }),
            Style::Style(st) => Style::Style(StyleStruct { foreground: st.foreground, background: st.background, bold: true, underline: false }),
        }
    }

    /// This style, underlined. The boldness is dropped.
    pub fn underline(&self) -> (r: Style)
        ensures
            r == (match *self {
                Style::Plain => Style::Style(StyleStruct { foreground: Colour::White, background: None, bold: false, underline: true }),
                Style::Foreground(c) => Style::Style(StyleStruct { foreground: c, background: None, bold: false, underline: true }),
                Style::Style(st) => Style::Style(StyleStruct { foreground: st.foreground, background: st.background, bold: false, underline: true }),
            }),
    {
        match *self {
            Style::Plain => Style::Style(StyleStruct { foreground: Colour::White, background: None, bold: false, underline: true }),
            Style::Foreground(c) => Style::Style(StyleStruct { foreground: c, background: None, bold: false, underline: true }),
            Style::Style(st) => Style::Style(StyleStruct { foreground: st.foreground, background: st.background, bold: false, underline: true }),
        }
    }

    /// This style, on the given background. Boldness and underline are
    /// dropped.
    pub fn on(&self, background: Colour) -> (r: Style)
        ensures
            r == (match *self {
                Style::Plain => Style::Style(StyleStruct { foreground: Colour::White, background: Some(background), bold: false, underline: false }),
                Style::Foreground(c) => Style::Style(StyleStruct { foreground: c, background: Some(background), bold: false, underline: false }),
                Style::Style(st) => Style::Style(StyleStruct { foreground: st.foreground, background: Some(background), bold: false, underline: false }),
            }),
    {
        match *self {
            Style::Plain => Style::Style(StyleStruct { foreground: Colour::White, background: Some(background), bold: false, underline: false }),
            Style::Foreground(c) => Style::Style(StyleStruct { foreground: c, background: Some(background), bold: false, underline: false }),
            Style::Style(st) => Style::Style(StyleStruct { foreground: st.foreground, background: Some(background), bold: false, underline: false }),
        }
    }
}

/// The pattern of the escape sequences that paint text: an ESC, a `[`, at
/// least one character, and the nearest `m` after it.
pub const ESCAPE_PATTERN: &'static str = "\x1B\\[.+?m";

/// The index of the first `m` in `s` at or after `k`, if any.
pub open spec fn first_m(s: Seq<char>, k: int) -> Option<int>
    decreases s.len() - k,
{
    if k < 0 || k >= s.len() {
        None
    } else if s[k] == 'm' {
        Some(k)
    } else {
        first_m(s, k + 1)
    }
}

/// Where an escape sequence that starts `s` ends (just after its `m`), if
/// `s` starts with one: an ESC and a `[`, then at least one character and
/// the nearest `m` after it, with no newline before that `m` (the pattern's
/// `.` does not match a newline).
pub open spec fn escape_end(s: Seq<char>) -> Option<int> {
    if s.len() >= 2 && s[0] == '\x1B' && s[1] == '[' {
        match first_m(s, 3) {
            Some(j) => if forall|k: int| 2 <= k < j ==> s[k] != '\n' {
                Some(j + 1)
            } else {
                None
            },
            None => None,
        }
    } else {
        None
    }
}

/// The text with every escape sequence removed, from left to right: where
/// one starts it is dropped whole, and the search goes on after it.
pub open spec fn ansi_stripped(s: Seq<char>) -> Seq<char>
    decreases s.len(),
{
    if s.len() == 0 {
        Seq::empty()
    } else {
        match escape_end(s) {
            Some(e) => if 0 < e <= s.len() {
                ansi_stripped(s.subrange(e, s.len() as int))
            } else {
                Seq::empty()
            },
            None => seq![s[0]] + ansi_stripped(s.drop_first()),
        }
    }
}

/// Compiles `pattern` with `regex::Regex::new` and replaces every match in
/// `input` with nothing, using `Regex::replace_all`. The pattern is the
/// escape pattern, which compiles. As the `regex` crate documents, matches
/// are found leftmost first, a lazy `+?` takes as few characters as it can,
/// `.` matches anything but a newline, and the search goes on after each
/// match: the result is `ansi_stripped` of the input.
#[verifier::external_body]
fn regex_strip_escapes(pattern: &str, input: &str) -> (r: String)
    requires
        pattern@ == ESCAPE_PATTERN@,
    ensures
        r@ == ansi_stripped(input@),
{
    let re = regex::Regex::new(pattern).unwrap();
    re.replace_all(input, "").into_owned()
}

/// Removes the colour escape sequences from a string.
pub fn strip_formatting(input: &String) -> (r: String)
    ensures
        r@ == ansi_stripped(input@),
{
    regex_strip_escapes(ESCAPE_PATTERN, input.as_str())
}

/// Whether a text holds no ESC character.
pub open spec fn no_escape_char(t: Seq<char>) -> bool {
    forall|i: int| 0 <= i < t.len() ==> t[i] != '\x1B'
}

/// Whether an escape code holds neither an `m` nor a newline, so that the
/// escape around it ends at the `m` that follows it.
pub open spec fn plain_code(s: Seq<char>) -> bool {
    forall|i: int| 0 <= i < s.len() ==> s[i] != 'm' && s[i] != '\n'
}

proof fn lemma_plain_concat(a: Seq<char>, b: Seq<char>)
    requires
        plain_code(a),
        plain_code(b),
    ensures
        plain_code(a + b),
{
    assert forall|i: int| 0 <= i < (a + b).len() implies (a + b)[i] != 'm' && (a + b)[i] != '\n' by {
        if i < a.len() {
            assert((a + b)[i] == a[i]);
        } else {
            assert((a + b)[i] == b[i - a.len()]);
        }
    }
}

proof fn lemma_decimal_plain(n: nat)
    ensures
        plain_code(decimal(n)),
        decimal(n).len() >= 1,
    decreases n,
{
    if n >= 10 {
        lemma_decimal_plain(n / 10);
        let d = decimal(n / 10);
        assert forall|i: int| 0 <= i < decimal(n).len() implies decimal(n)[i] != 'm' && decimal(n)[i] != '\n' by {
            if i < d.len() {
                assert(decimal(n)[i] == d[i]);
            }
        }
    }
}

/// The codes of a colour hold no `m` and no newline, and the foreground
/// code is not empty.
proof fn lemma_colour_codes(c: Colour)
    ensures
        plain_code(c.spec_foreground_code()),
        c.spec_foreground_code().len() >= 1,
        plain_code(c.spec_background_code()),
{
    reveal_strlit("30");
    reveal_strlit("31");
    reveal_strlit("32");
    reveal_strlit("33");
    reveal_strlit("34");
    reveal_strlit("35");
    reveal_strlit("36");
    reveal_strlit("37");
    reveal_strlit("40");
    reveal_strlit("41");
    reveal_strlit("42");
    reveal_strlit("43");
    reveal_strlit("44");
    reveal_strlit("45");
    reveal_strlit("46");
    reveal_strlit("47");
    reveal_strlit("38;5;");
    reveal_strlit("48;5;");
    match c {
        Colour::Fixed(n) => {
            lemma_decimal_plain(n as nat);
            lemma_plain_concat("38;5;"@, decimal(n as nat));
            lemma_plain_concat("48;5;"@, decimal(n as nat));
        },
        _ => {},
    }
}

proof fn lemma_first_m(s: Seq<char>, k: int, j: int)
    requires
        0 <= k <= j < s.len(),
        s[j] == 'm',
        forall|i: int| k <= i < j ==> s[i] != 'm',
    ensures
        first_m(s, k) == Some(j),
    decreases j - k,
{
    if k < j {
        lemma_first_m(s, k + 1, j);
    }
}

/// Text with no ESC in it is kept as it is.
proof fn lemma_strip_plain(t: Seq<char>, rest: Seq<char>)
    requires
        no_escape_char(t),
    ensures
        ansi_stripped(t + rest) == t + ansi_stripped(rest),
    decreases t.len(),
{
    if t.len() == 0 {
        assert(t + rest =~= rest);
        assert(t + ansi_stripped(rest) =~= ansi_stripped(rest));
    } else {
        let s = t + rest;
        assert(s[0] == t[0]);
        assert(escape_end(s) is None);
        lemma_strip_plain(t.drop_first(), rest);
        assert(s.drop_first() =~= t.drop_first() + rest);
        assert(seq![t[0]] + (t.drop_first() + ansi_stripped(rest)) =~= t + ansi_stripped(rest));
    }
}

/// An escape sequence around a code with no `m` or newline in it is
/// dropped whole.
proof fn lemma_strip_escape(code: Seq<char>, rest: Seq<char>)
    requires
        code.len() >= 1,
        plain_code(code),
    ensures
        ansi_stripped(csi() + code + "m"@ + rest) == ansi_stripped(rest),
{
    reveal_strlit("\x1B[");
    reveal_strlit("m");
    let s = csi() + code + "m"@ + rest;
    let j: int = 2 + code.len() as int;
    assert(s[0] == '\x1B' && s[1] == '[');
    assert forall|i: int| 2 <= i < j implies s[i] == code[i - 2] by {}
    assert(s[j] == 'm');
    lemma_first_m(s, 3, j);
    assert(escape_end(s) == Some(j + 1));
    assert(s.subrange(j + 1, s.len() as int) =~= rest);
}

/// The reset escape is dropped whole.
proof fn lemma_strip_reset()
    ensures
        ansi_stripped(reset()) == Seq::<char>::empty(),
{
    reveal_strlit("\x1B[0m");
    reveal_strlit("\x1B[");
    reveal_strlit("m");
    reveal_strlit("0");
    assert(reset() =~= csi() + "0"@ + "m"@ + Seq::<char>::empty());
    lemma_strip_escape("0"@, Seq::<char>::empty());
}

/// Stripping a colour's painting from text with no ESC in it gives the
/// text back.
proof fn lemma_strip_painted(code: Seq<char>, t: Seq<char>)
    requires
        code.len() >= 1,
        plain_code(code),
        no_escape_char(t),
    ensures
        ansi_stripped(csi() + code + "m"@ + t + reset()) == t,
{
    assert(csi() + code + "m"@ + t + reset() =~= csi() + code + "m"@ + (t + reset()));
    lemma_strip_escape(code, t + reset());
    lemma_strip_plain(t, reset());
    lemma_strip_reset();
    assert(t + Seq::<char>::empty() =~= t);
}

/// Stripping the formatting undoes painting: text with no ESC in it,
/// painted in any style or colour, comes back as it was.
pub proof fn law_strip_undoes_paint(style: Style, colour: Colour, t: Seq<char>)
    requires
        no_escape_char(t),
    ensures
        ansi_stripped(style.spec_paint(t)) == t,
        ansi_stripped(colour.spec_paint(t)) == t,
{
    lemma_colour_codes(colour);
    lemma_strip_painted(colour.spec_foreground_code(), t);
    match style {
        Style::Plain => {
            lemma_strip_plain(t, Seq::<char>::empty());
            assert(t + Seq::<char>::empty() =~= t);
        },
        Style::Foreground(c) => {
            lemma_colour_codes(c);
            lemma_strip_painted(c.spec_foreground_code(), t);
        },
        Style::Style(st) => {
            reveal_strlit("1;");
            reveal_strlit("4;");
            reveal_strlit(";");
            let bo = if st.bold { "1;"@ } else { Seq::<char>::empty() };
            let un = if st.underline { "4;"@ } else { Seq::<char>::empty() };
            let bg = match st.background {
                Some(c) => c.spec_background_code() + ";"@,
                None => Seq::<char>::empty(),
            };
            lemma_colour_codes(st.foreground);
            match st.background {
                Some(c) => {
                    lemma_colour_codes(c);
                    lemma_plain_concat(c.spec_background_code(), ";"@);
                },
                None => {},
            }
            assert(plain_code(bo));
            assert(plain_code(un));
            assert(plain_code(bg));
            let fg = st.foreground.spec_foreground_code();
            lemma_plain_concat(bo, un);
            lemma_plain_concat(bo + un, bg);
            lemma_plain_concat(bo + un + bg, fg);
            let code = bo + un + bg + fg;
            assert(csi() + bo + un + bg + fg + "m"@ + t + reset() =~= csi() + code + "m"@ + t + reset());
            lemma_strip_painted(code, t);
        },
    }
}

/// Each named colour is painted with its own ANSI code: 30 plus its place
/// among black, red, green, yellow, blue, purple, cyan and white for the
/// foreground, 40 plus that place for the background.
pub proof fn law_named_colour_codes()
    ensures
        Colour::Black.spec_foreground_code() == seq!['3', '0'],
        Colour::Black.spec_background_code() == seq!['4', '0'],
        Colour::Red.spec_foreground_code() == seq!['3', '1'],
        Colour::Red.spec_background_code() == seq!['4', '1'],
        Colour::Green.spec_foreground_code() == seq!['3', '2'],
        Colour::Green.spec_background_code() == seq!['4', '2'],
        Colour::Yellow.spec_foreground_code() == seq!['3', '3'],
        Colour::Yellow.spec_background_code() == seq!['4', '3'],
        Colour::Blue.spec_foreground_code() == seq!['3', '4'],
        Colour::Blue.spec_background_code() == seq!['4', '4'],
        Colour::Purple.spec_foreground_code() == seq!['3', '5'],
        Colour::Purple.spec_background_code() == seq!['4', '5'],
        Colour::Cyan.spec_foreground_code() == seq!['3', '6'],
        Colour::Cyan.spec_background_code() == seq!['4', '6'],
        Colour::White.spec_foreground_code() == seq!['3', '7'],
        Colour::White.spec_background_code() == seq!['4', '7'],
{
    reveal_strlit("30");
    reveal_strlit("40");
    reveal_strlit("31");
    reveal_strlit("41");
    reveal_strlit("32");
    reveal_strlit("42");
    reveal_strlit("33");
    reveal_strlit("43");
    reveal_strlit("34");
    reveal_strlit("44");
    reveal_strlit("35");
    reveal_strlit("45");
    reveal_strlit("36");
    reveal_strlit("46");
    reveal_strlit("37");
    reveal_strlit("47");
}

/// A single digit's character tells the digit.
proof fn lemma_digit_char_injective(a: nat, b: nat)
    requires
        a < 10,
        b < 10,
        digit_char(a) == digit_char(b),
    ensures
        a == b,
{
    assert((digit_char(a) as u32) == a + 48);
    assert((digit_char(b) as u32) == b + 48);
}

/// Different numbers are written with different decimal digits.
proof fn lemma_decimal_injective(a: nat, b: nat)
    requires
        decimal(a) == decimal(b),
    ensures
        a == b,
    decreases a,
{
    lemma_decimal_plain(a);
    lemma_decimal_plain(b);
    if a < 10 && b < 10 {
        assert(decimal(a)[0] == digit_char(a));
        assert(decimal(b)[0] == digit_char(b));
        lemma_digit_char_injective(a, b);
    } else if a >= 10 && b >= 10 {
        let da = decimal(a / 10);
        let db = decimal(b / 10);
        assert(decimal(a).last() == digit_char(a % 10));
        assert(decimal(b).last() == digit_char(b % 10));
        lemma_digit_char_injective(a % 10, b % 10);
        assert(decimal(a).drop_last() =~= da);
        assert(decimal(b).drop_last() =~= db);
        lemma_decimal_injective(a / 10, b / 10);
    } else {
        lemma_decimal_plain(a / 10);
        lemma_decimal_plain(b / 10);
        assert(decimal(a).len() != decimal(b).len());
    }
}

/// Different colours are painted with different codes, as foreground and
/// as background.
pub proof fn law_colour_codes_differ(a: Colour, b: Colour)
    requires
        a != b,
    ensures
        a.spec_foreground_code() != b.spec_foreground_code(),
        a.spec_background_code() != b.spec_background_code(),
        a.spec_paint(seq![]) != b.spec_paint(seq![]),
{
    law_named_colour_codes();
    reveal_strlit("38;5;");
    reveal_strlit("48;5;");
    reveal_strlit("\x1B[");
    reveal_strlit("m");
    reveal_strlit("\x1B[0m");
    match (a, b) {
        (Colour::Fixed(x), Colour::Fixed(y)) => {
            if a.spec_foreground_code() == b.spec_foreground_code() {
                assert(a.spec_foreground_code().subrange(5, a.spec_foreground_code().len() as int) =~= decimal(x as nat));
                assert(b.spec_foreground_code().subrange(5, b.spec_foreground_code().len() as int) =~= decimal(y as nat));
                lemma_decimal_injective(x as nat, y as nat);
            }
            if a.spec_background_code() == b.spec_background_code() {
                assert(a.spec_background_code().subrange(5, a.spec_background_code().len() as int) =~= decimal(x as nat));
                assert(b.spec_background_code().subrange(5, b.spec_background_code().len() as int) =~= decimal(y as nat));
                lemma_decimal_injective(x as nat, y as nat);
            }
        },
        (Colour::Fixed(x), _) => {
            lemma_decimal_plain(x as nat);
            assert(a.spec_foreground_code().len() > 2);
            assert(a.spec_background_code().len() > 2);
        },
        (_, Colour::Fixed(y)) => {
            lemma_decimal_plain(y as nat);
            assert(b.spec_foreground_code().len() > 2);
            assert(b.spec_background_code().len() > 2);
        },
        _ => {
            assert(a.spec_foreground_code()[1] != b.spec_foreground_code()[1]);
            assert(a.spec_background_code()[1] != b.spec_background_code()[1]);
        },
    }
    if a.spec_paint(seq![]) == b.spec_paint(seq![]) {
        let ca = a.spec_foreground_code();
        let cb = b.spec_foreground_code();
        lemma_colour_codes(a);
        lemma_colour_codes(b);
        let pa = a.spec_paint(seq![]);
        assert(pa =~= csi() + ca + "m"@ + seq![] + reset());
        assert(b.spec_paint(seq![]) =~= csi() + cb + "m"@ + seq![] + reset());
        assert(pa.len() == 2 + ca.len() + 1 + 4);
        assert(ca.len() == cb.len());
        assert forall|i: int| 0 <= i < ca.len() implies ca[i] == cb[i] by {
            assert(pa[2 + i] == ca[i]);
            assert(b.spec_paint(seq![])[2 + i] == cb[i]);
        }
        assert(ca =~= cb);
    }
}

} // verus!
