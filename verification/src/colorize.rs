//! ANSI colours for terminal output: escape codes, colour names, and colouring of text.
use vstd::prelude::*;
use vstd::string::*;
use crate::text::{
    decimal, push_decimal, text_eq, digits_value, digit_value, is_digit, lemma_decimal_digits,
    lemma_decimal_injective, lemma_split_at_separator,
};

verus! {

/// A terminal colour.
#[derive(Debug, Clone, Copy, PartialEq, Eq)]
pub enum Color {
    Black,
    Red,
    Green,
    Yellow,
    Blue,
    Magenta,
    Cyan,
    White,
    BrightBlack,
    BrightRed,
    BrightGreen,
    BrightYellow,
    BrightBlue,
    BrightMagenta,
    BrightCyan,
    BrightWhite,
    TrueColor { r: u8, g: u8, b: u8 },
    Reset,
}

/// The SGR parameters that select `c` as the foreground colour.
pub open spec fn fg_code(c: Color) -> Seq<char> {
    match c {
        Color::Black => "30"@,
        Color::Red => "31"@,
        Color::Green => "32"@,
        Color::Yellow => "33"@,
        Color::Blue => "34"@,
        Color::Magenta => "35"@,
        Color::Cyan => "36"@,
        Color::White => "37"@,
        Color::BrightBlack => "90"@,
        Color::BrightRed => "91"@,
        Color::BrightGreen => "92"@,
        Color::BrightYellow => "93"@,
        Color::BrightBlue => "94"@,
        Color::BrightMagenta => "95"@,
        Color::BrightCyan => "96"@,
        Color::BrightWhite => "97"@,
        Color::TrueColor { r, g, b } => true_color_code("38;2;"@, r, g, b),
        Color::Reset => "0"@,
    }
}

/// The SGR parameters that select `c` as the background colour.
pub open spec fn bg_code(c: Color) -> Seq<char> {
    match c {
        Color::Black => "40"@,
        Color::Red => "41"@,
        Color::Green => "42"@,
        Color::Yellow => "43"@,
        Color::Blue => "44"@,
        Color::Magenta => "45"@,
        Color::Cyan => "46"@,
        Color::White => "47"@,
        Color::BrightBlack => "100"@,
        Color::BrightRed => "101"@,
        Color::BrightGreen => "102"@,
        Color::BrightYellow => "103"@,
        Color::BrightBlue => "104"@,
        Color::BrightMagenta => "105"@,
        Color::BrightCyan => "106"@,
        Color::BrightWhite => "107"@,
        Color::TrueColor { r, g, b } => true_color_code("48;2;"@, r, g, b),
        Color::Reset => "0"@,
    }
}

/// `prefix` followed by the three channels in decimal, separated by `;`.
pub open spec fn true_color_code(prefix: Seq<char>, r: u8, g: u8, b: u8) -> Seq<char> {
    prefix + decimal(r as nat) + ";"@ + decimal(g as nat) + ";"@ + decimal(b as nat)
}

/// The escape sequence `ESC [ code m`.
pub open spec fn sgr(code: Seq<char>) -> Seq<char> {
    "\u{001b}["@ + code + "m"@
}

/// What a colour prints as: the escape sequence that selects it as foreground colour.
pub open spec fn color_escape(c: Color) -> Seq<char> {
    sgr(fg_code(c))
}

/// The escape sequence that resets all attributes.
pub open spec fn reset_escape() -> Seq<char> {
    sgr("0"@)
}

/// The colour that a lower-case colour name stands for.
pub open spec fn named_color(name: Seq<char>) -> Option<Color> {
    if name == "black"@ {
        Some(Color::Black)
    } else if name == "red"@ {
        Some(Color::Red)
    } else if name == "green"@ {
        Some(Color::Green)
    } else if name == "yellow"@ {
        Some(Color::Yellow)
    } else if name == "blue"@ {
        Some(Color::Blue)
    } else if name == "magenta"@ || name == "purple"@ {
        Some(Color::Magenta)
    } else if name == "cyan"@ {
        Some(Color::Cyan)
    } else if name == "white"@ {
        Some(Color::White)
    } else if name == "bright black"@ {
        Some(Color::BrightBlack)
    } else if name == "bright red"@ {
        Some(Color::BrightRed)
    } else if name == "bright green"@ {
        Some(Color::BrightGreen)
    } else if name == "bright yellow"@ {
        Some(Color::BrightYellow)
    } else if name == "bright blue"@ {
        Some(Color::BrightBlue)
    } else if name == "bright magenta"@ {
        Some(Color::BrightMagenta)
    } else if name == "bright cyan"@ {
        Some(Color::BrightCyan)
    } else if name == "bright white"@ {
        Some(Color::BrightWhite)
    } else {
        None
    }
}

/// What `str::to_lowercase` returns for a string holding the characters `s`.
pub uninterp spec fn lowercase(s: Seq<char>) -> Seq<char>;

/// The result of parsing `s`: the colour its lower-case form names, if any.
pub open spec fn parse_spec(s: Seq<char>) -> Result<Color, ()> {
    match named_color(lowercase(s)) {
        Some(c) => Ok(c),
        None => Err(()),
    }
}

/// The colour a string converts to: the one it names, white when it names none.
pub open spec fn from_name_spec(s: Seq<char>) -> Color {
    match named_color(lowercase(s)) {
        Some(c) => c,
        None => Color::White,
    }
}

/// Calls `str::to_lowercase`, which maps every character to its Unicode lower-case form.
/// The contract only names the result (`lowercase`): the Unicode case tables are not restated.
#[verifier::external_body]
fn to_lowercase(s: &str) -> (r: String)
    ensures
        r@ == lowercase(s@),
{
    s.to_lowercase()
}

/// Appends `prefix` and the three channels in decimal, separated by `;`.
fn push_true_color(out: &mut String, prefix: &str, r: u8, g: u8, b: u8)
    ensures
        final(out)@ == old(out)@ + true_color_code(prefix@, r, g, b),
{
    out.append(prefix);
    push_decimal(out, r as u64);
    out.append(";");
    push_decimal(out, g as u64);
    out.append(";");
    push_decimal(out, b as u64);
    assert(final(out)@ =~= old(out)@ + true_color_code(prefix@, r, g, b));
}

impl Color {
    /// The SGR parameters that select this colour as the foreground colour.
    pub fn to_fg_str(&self) -> (s: String)
        ensures
            s@ == fg_code(*self),
    {
        match *self {
            Color::Black => "30".to_owned(),
            Color::Red => "31".to_owned(),
            Color::Green => "32".to_owned(),
            Color::Yellow => "33".to_owned(),
            Color::Blue => "34".to_owned(),
            Color::Magenta => "35".to_owned(),
            Color::Cyan => "36".to_owned(),
            Color::White => "37".to_owned(),
            Color::BrightBlack => "90".to_owned(),
            Color::BrightRed => "91".to_owned(),
            Color::BrightGreen => "92".to_owned(),
            Color::BrightYellow => "93".to_owned(),
            Color::BrightBlue => "94".to_owned(),
            Color::BrightMagenta => "95".to_owned(),
            Color::BrightCyan => "96".to_owned(),
            Color::BrightWhite => "97".to_owned(),
            Color::TrueColor { r, g, b } => {
                let mut s = String::new();
                push_true_color(&mut s, "38;2;", r, g, b);
                assert(s@ =~= fg_code(*self));
                s
            },
            Color::Reset => "0".to_owned(),
        }
    }

    /// The SGR parameters that select this colour as the background colour.
    pub fn to_bg_str(&self) -> (s: String)
        ensures
            s@ == bg_code(*self),
    {
        match *self {
            Color::Black => "40".to_owned(),
            Color::Red => "41".to_owned(),
            Color::Green => "42".to_owned(),
            Color::Yellow => "43".to_owned(),
            Color::Blue => "44".to_owned(),
            Color::Magenta => "45".to_owned(),
            Color::Cyan => "46".to_owned(),
            Color::White => "47".to_owned(),
            Color::BrightBlack => "100".to_owned(),
            Color::BrightRed => "101".to_owned(),
            Color::BrightGreen => "102".to_owned(),
            Color::BrightYellow => "103".to_owned(),
            Color::BrightBlue => "104".to_owned(),
            Color::BrightMagenta => "105".to_owned(),
            Color::BrightCyan => "106".to_owned(),
            Color::BrightWhite => "107".to_owned(),
            Color::TrueColor { r, g, b } => {
                let mut s = String::new();
                push_true_color(&mut s, "48;2;", r, g, b);
                assert(s@ =~= bg_code(*self));
                s
            },
            Color::Reset => "0".to_owned(),
        }
    }

    /// What the colour prints as: `ESC [ <foreground code> m`.
    pub fn to_string(&self) -> (s: String)
        ensures
            s@ == color_escape(*self),
    {
        let mut s = "\u{001b}[".to_owned();
        let code = self.to_fg_str();
        s.append(code.as_str());
        s.append("m");
        assert(s@ =~= color_escape(*self));
        s
    }

    /// The colour named by `name`, which is compared as it stands (already in lower case).
    pub fn from_lowercase_name(name: &str) -> (c: Option<Color>)
        ensures
            c == named_color(name@),
    {
        if text_eq(name, "black") {
            Some(Color::Black)
        } else if text_eq(name, "red") {
            Some(Color::Red)
        } else if text_eq(name, "green") {
            Some(Color::Green)
        } else if text_eq(name, "yellow") {
            Some(Color::Yellow)
        } else if text_eq(name, "blue") {
            Some(Color::Blue)
        } else if text_eq(name, "magenta") || text_eq(name, "purple") {
            Some(Color::Magenta)
        } else if text_eq(name, "cyan") {
            Some(Color::Cyan)
        } else if text_eq(name, "white") {
            Some(Color::White)
        } else if text_eq(name, "bright black") {
            Some(Color::BrightBlack)
        } else if text_eq(name, "bright red") {
            Some(Color::BrightRed)
        } else if text_eq(name, "bright green") {
            Some(Color::BrightGreen)
        } else if text_eq(name, "bright yellow") {
            Some(Color::BrightYellow)
        } else if text_eq(name, "bright blue") {
            Some(Color::BrightBlue)
        } else if text_eq(name, "bright magenta") {
            Some(Color::BrightMagenta)
        } else if text_eq(name, "bright cyan") {
            Some(Color::BrightCyan)
        } else if text_eq(name, "bright white") {
            Some(Color::BrightWhite)
        } else {
            None
        }
    }

    /// Parses a colour name, ignoring case; `purple` is another name of magenta.
    pub fn parse(src: &str) -> (r: Result<Color, ()>)
        ensures
            r == parse_spec(src@),
    {
        let lower = to_lowercase(src);
        match Color::from_lowercase_name(lower.as_str()) {
            Some(c) => Ok(c),
            None => Err(()),
        }
    }

    /// The colour `src` names, or white when it names none.
    pub fn from_name(src: &str) -> (c: Color)
        ensures
            c == from_name_spec(src@),
    {
        match Color::parse(src) {
            Ok(c) => c,
            Err(()) => Color::White,
        }
    }
}

impl<'a> From<&'a str> for Color {
    fn from(src: &'a str) -> (c: Color) {
        Color::from_name(src)
    }
}

impl<'a> vstd::std_specs::convert::FromSpecImpl<&'a str> for Color {
    open spec fn obeys_from_spec() -> bool {
        true
    }

    open spec fn from_spec(src: &'a str) -> Color {
        from_name_spec(src@)
    }
}

impl From<String> for Color {
    fn from(src: String) -> (c: Color) {
        Color::from_name(src.as_str())
    }
}

impl vstd::std_specs::convert::FromSpecImpl<String> for Color {
    open spec fn obeys_from_spec() -> bool {
        true
    }

    open spec fn from_spec(src: String) -> Color {
        from_name_spec(src@)
    }
}

impl core::str::FromStr for Color {
    type Err = ();

    fn from_str(src: &str) -> (r: Result<Color, ()>)
        ensures
            r == parse_spec(src@),
    {
        Color::parse(src)
    }
}

/// Colouring of text: the text between the escape of a colour and the reset escape.
pub trait Colorize: Sized {
    /// The characters of the text.
    spec fn text_view(&self) -> Seq<char>;

    /// The text as a string slice.
    fn text(&self) -> (t: &str)
        ensures
            t@ == self.text_view(),
    ;

    /// The text in `color`, followed by the reset escape.
    fn colorize(self, color: Color) -> (s: String)
        ensures
            s@ == color_escape(color) + self.text_view() + reset_escape(),
    {
        let mut s = color.to_string();
        s.append(self.text());
        let reset = Color::Reset.to_string();
        s.append(reset.as_str());
        assert(s@ =~= color_escape(color) + self.text_view() + reset_escape());
        s
    }
}

impl Colorize for String {
    open spec fn text_view(&self) -> Seq<char> {
        self@
    }

    fn text(&self) -> (t: &str) {
        self.as_str()
    }
}

/// The bare foreground code of `c` (not an escape sequence), then `text`, then the reset escape.
pub open spec fn code_then_text_spec(c: Color, text: Seq<char>) -> Seq<char> {
    fg_code(c) + text + reset_escape()
}

/// The bare foreground code of `color`, then `text`, then the reset escape.
pub fn code_then_text(color: Color, text: &str) -> (s: String)
    ensures
        s@ == code_then_text_spec(color, text@),
{
    let mut s = color.to_fg_str();
    s.append(text);
    let reset = Color::Reset.to_string();
    s.append(reset.as_str());
    assert(s@ =~= code_then_text_spec(color, text@));
    s
}

/// One method per colour, named after it, for strings: each writes the colour's bare
/// foreground code before the text and the reset escape after it.
pub trait ColorizeString {
    /// The characters of the text.
    spec fn content_view(&self) -> Seq<char>;

    /// The text as a string slice.
    fn content(&self) -> (t: &str)
        ensures
            t@ == self.content_view(),
    ;

    /// The text after the `Black` foreground code, followed by the reset escape.
    fn black(&self) -> (s: String)
        ensures
            s@ == code_then_text_spec(Color::Black, self.content_view()),
    {
        code_then_text(Color::Black, self.content())
    }

    /// The text after the `Red` foreground code, followed by the reset escape.
    fn red(&self) -> (s: String)
        ensures
            s@ == code_then_text_spec(Color::Red, self.content_view()),
    {
        code_then_text(Color::Red, self.content())
    }

    /// The text after the `Green` foreground code, followed by the reset escape.
    fn green(&self) -> (s: String)
        ensures
            s@ == code_then_text_spec(Color::Green, self.content_view()),
    {
        code_then_text(Color::Green, self.content())
    }

    /// The text after the `Yellow` foreground code, followed by the reset escape.
    fn yellow(&self) -> (s: String)
        ensures
            s@ == code_then_text_spec(Color::Yellow, self.content_view()),
    {
        code_then_text(Color::Yellow, self.content())
    }

    /// The text after the `Blue` foreground code, followed by the reset escape.
    fn blue(&self) -> (s: String)
        ensures
            s@ == code_then_text_spec(Color::Blue, self.content_view()),
    {
        code_then_text(Color::Blue, self.content())
    }

    /// The text after the `Magenta` foreground code, followed by the reset escape.
    fn magenta(&self) -> (s: String)
        ensures
            s@ == code_then_text_spec(Color::Magenta, self.content_view()),
    {
        code_then_text(Color::Magenta, self.content())
    }

    /// The text after the `Cyan` foreground code, followed by the reset escape.
    fn cyan(&self) -> (s: String)
        ensures
            s@ == code_then_text_spec(Color::Cyan, self.content_view()),
    {
        code_then_text(Color::Cyan, self.content())
    }

    /// The text after the `White` foreground code, followed by the reset escape.
    fn white(&self) -> (s: String)
        ensures
            s@ == code_then_text_spec(Color::White, self.content_view()),
    {
        code_then_text(Color::White, self.content())
    }

    /// The text after the `BrightBlack` foreground code, followed by the reset escape.
    fn bright_black(&self) -> (s: String)
        ensures
            s@ == code_then_text_spec(Color::BrightBlack, self.content_view()),
    {
        code_then_text(Color::BrightBlack, self.content())
    }

    /// The text after the `BrightRed` foreground code, followed by the reset escape.
    fn bright_red(&self) -> (s: String)
        ensures
            s@ == code_then_text_spec(Color::BrightRed, self.content_view()),
    {
        code_then_text(Color::BrightRed, self.content())
    }

    /// The text after the `BrightGreen` foreground code, followed by the reset escape.
    fn bright_green(&self) -> (s: String)
        ensures
            s@ == code_then_text_spec(Color::BrightGreen, self.content_view()),
    {
        code_then_text(Color::BrightGreen, self.content())
    }

    /// The text after the `BrightYellow` foreground code, followed by the reset escape.
    fn bright_yellow(&self) -> (s: String)
        ensures
            s@ == code_then_text_spec(Color::BrightYellow, self.content_view()),
    {
        code_then_text(Color::BrightYellow, self.content())
    }

    /// The text after the `BrightBlue` foreground code, followed by the reset escape.
    fn bright_blue(&self) -> (s: String)
        ensures
            s@ == code_then_text_spec(Color::BrightBlue, self.content_view()),
    {
        code_then_text(Color::BrightBlue, self.content())
    }

    /// The text after the `BrightMagenta` foreground code, followed by the reset escape.
    fn bright_magenta(&self) -> (s: String)
        ensures
            s@ == code_then_text_spec(Color::BrightMagenta, self.content_view()),
    {
        code_then_text(Color::BrightMagenta, self.content())
    }

    /// The text after the `BrightCyan` foreground code, followed by the reset escape.
    fn bright_cyan(&self) -> (s: String)
        ensures
            s@ == code_then_text_spec(Color::BrightCyan, self.content_view()),
    {
        code_then_text(Color::BrightCyan, self.content())
    }

    /// The text after the `BrightWhite` foreground code, followed by the reset escape.
    fn bright_white(&self) -> (s: String)
        ensures
            s@ == code_then_text_spec(Color::BrightWhite, self.content_view()),
    {
        code_then_text(Color::BrightWhite, self.content())
    }

    /// The text after the true-colour foreground code of `(r, g, b)`, followed by the reset
    /// escape.
    fn true_color(&self, r: u8, g: u8, b: u8) -> (s: String)
        ensures
            s@ == code_then_text_spec(Color::TrueColor { r, g, b }, self.content_view()),
    {
        code_then_text(Color::TrueColor { r, g, b }, self.content())
    }

    /// The text after the reset code, followed by the reset escape.
    fn reset(&self) -> (s: String)
        ensures
            s@ == code_then_text_spec(Color::Reset, self.content_view()),
    {
        code_then_text(Color::Reset, self.content())
    }
}

impl<'a> ColorizeString for &'a str {
    open spec fn content_view(&self) -> Seq<char> {
        (*self)@
    }

    fn content(&self) -> (t: &str) {
        *self
    }
}

impl ColorizeString for String {
    open spec fn content_view(&self) -> Seq<char> {
        self@
    }

    fn content(&self) -> (t: &str) {
        self.as_str()
    }
}

/// The number the foreground code of a named colour stands for (0 for the reset).
pub open spec fn fg_number(c: Color) -> nat {
    match c {
        Color::Black => 30,
        Color::Red => 31,
        Color::Green => 32,
        Color::Yellow => 33,
        Color::Blue => 34,
        Color::Magenta => 35,
        Color::Cyan => 36,
        Color::White => 37,
        Color::BrightBlack => 90,
        Color::BrightRed => 91,
        Color::BrightGreen => 92,
        Color::BrightYellow => 93,
        Color::BrightBlue => 94,
        Color::BrightMagenta => 95,
        Color::BrightCyan => 96,
        Color::BrightWhite => 97,
        Color::TrueColor { .. } => 0,
        Color::Reset => 0,
    }
}

proof fn lemma_digits2(a: char, b: char)
    ensures
        digits_value(seq![a, b]) == digit_value(a) * 10 + digit_value(b),
{
    assert(seq![a, b].drop_last() =~= seq![a]);
    assert(seq![a].drop_last() =~= Seq::<char>::empty());
    assert(seq![a, b].last() == b);
    assert(seq![a].last() == a);
    assert(digits_value(seq![a]) == digits_value(Seq::<char>::empty()) * 10 + digit_value(a));
    assert(digits_value(seq![a, b]) == digits_value(seq![a]) * 10 + digit_value(b));
}

proof fn lemma_digits3(a: char, b: char, c: char)
    ensures
        digits_value(seq![a, b, c]) == (digit_value(a) * 10 + digit_value(b)) * 10 + digit_value(c),
{
    assert(seq![a, b, c].drop_last() =~= seq![a, b]);
    assert(seq![a, b, c].last() == c);
    lemma_digits2(a, b);
    assert(digits_value(seq![a, b, c]) == digits_value(seq![a, b]) * 10 + digit_value(c));
}

/// The codes of a colour that is not a true colour: its foreground code is one or two
/// digits standing for `fg_number`, and its background code stands for ten more (both are `0`
/// for the reset).
pub proof fn lemma_named_codes(c: Color)
    requires
        !(c is TrueColor),
    ensures
        1 <= fg_code(c).len() <= 2,
        forall|i: int| 0 <= i < fg_code(c).len() ==> is_digit(#[trigger] fg_code(c)[i]),
        digits_value(fg_code(c)) == fg_number(c),
        c != Color::Reset ==> digits_value(bg_code(c)) == fg_number(c) + 10,
        c == Color::Reset ==> bg_code(c) == fg_code(c) && fg_code(c) == seq!['0'],
{
    match c {
        Color::Black => {
            reveal_strlit("30");
            reveal_strlit("40");
            assert(fg_code(c) =~= seq!['3', '0']);
            assert(bg_code(c) =~= seq!['4', '0']);
            lemma_digits2('3', '0');
            lemma_digits2('4', '0');
        },
        Color::Red => {
            reveal_strlit("31");
            reveal_strlit("41");
            assert(fg_code(c) =~= seq!['3', '1']);
            assert(bg_code(c) =~= seq!['4', '1']);
            lemma_digits2('3', '1');
            lemma_digits2('4', '1');
        },
        Color::Green => {
            reveal_strlit("32");
            reveal_strlit("42");
            assert(fg_code(c) =~= seq!['3', '2']);
            assert(bg_code(c) =~= seq!['4', '2']);
            lemma_digits2('3', '2');
            lemma_digits2('4', '2');
        },
        Color::Yellow => {
            reveal_strlit("33");
            reveal_strlit("43");
            assert(fg_code(c) =~= seq!['3', '3']);
            assert(bg_code(c) =~= seq!['4', '3']);
            lemma_digits2('3', '3');
            lemma_digits2('4', '3');
        },
        Color::Blue => {
            reveal_strlit("34");
            reveal_strlit("44");
            assert(fg_code(c) =~= seq!['3', '4']);
            assert(bg_code(c) =~= seq!['4', '4']);
            lemma_digits2('3', '4');
            lemma_digits2('4', '4');
        },
        Color::Magenta => {
            reveal_strlit("35");
            reveal_strlit("45");
            assert(fg_code(c) =~= seq!['3', '5']);
            assert(bg_code(c) =~= seq!['4', '5']);
            lemma_digits2('3', '5');
            lemma_digits2('4', '5');
        },
        Color::Cyan => {
            reveal_strlit("36");
            reveal_strlit("46");
            assert(fg_code(c) =~= seq!['3', '6']);
            assert(bg_code(c) =~= seq!['4', '6']);
            lemma_digits2('3', '6');
            lemma_digits2('4', '6');
        },
        Color::White => {
            reveal_strlit("37");
            reveal_strlit("47");
            assert(fg_code(c) =~= seq!['3', '7']);
            assert(bg_code(c) =~= seq!['4', '7']);
            lemma_digits2('3', '7');
            lemma_digits2('4', '7');
        },
        Color::BrightBlack => {
            reveal_strlit("90");
            reveal_strlit("100");
            assert(fg_code(c) =~= seq!['9', '0']);
            assert(bg_code(c) =~= seq!['1', '0', '0']);
            lemma_digits2('9', '0');
            lemma_digits3('1', '0', '0');
        },
        Color::BrightRed => {
            reveal_strlit("91");
            reveal_strlit("101");
            assert(fg_code(c) =~= seq!['9', '1']);
            assert(bg_code(c) =~= seq!['1', '0', '1']);
            lemma_digits2('9', '1');
            lemma_digits3('1', '0', '1');
        },
        Color::BrightGreen => {
            reveal_strlit("92");
            reveal_strlit("102");
            assert(fg_code(c) =~= seq!['9', '2']);
            assert(bg_code(c) =~= seq!['1', '0', '2']);
            lemma_digits2('9', '2');
            lemma_digits3('1', '0', '2');
        },
        Color::BrightYellow => {
            reveal_strlit("93");
            reveal_strlit("103");
            assert(fg_code(c) =~= seq!['9', '3']);
            assert(bg_code(c) =~= seq!['1', '0', '3']);
            lemma_digits2('9', '3');
            lemma_digits3('1', '0', '3');
        },
        Color::BrightBlue => {
            reveal_strlit("94");
            reveal_strlit("104");
            assert(fg_code(c) =~= seq!['9', '4']);
            assert(bg_code(c) =~= seq!['1', '0', '4']);
            lemma_digits2('9', '4');
            lemma_digits3('1', '0', '4');
        },
        Color::BrightMagenta => {
            reveal_strlit("95");
            reveal_strlit("105");
            assert(fg_code(c) =~= seq!['9', '5']);
            assert(bg_code(c) =~= seq!['1', '0', '5']);
            lemma_digits2('9', '5');
            lemma_digits3('1', '0', '5');
        },
        Color::BrightCyan => {
            reveal_strlit("96");
            reveal_strlit("106");
            assert(fg_code(c) =~= seq!['9', '6']);
            assert(bg_code(c) =~= seq!['1', '0', '6']);
            lemma_digits2('9', '6');
            lemma_digits3('1', '0', '6');
        },
        Color::BrightWhite => {
            reveal_strlit("97");
            reveal_strlit("107");
            assert(fg_code(c) =~= seq!['9', '7']);
            assert(bg_code(c) =~= seq!['1', '0', '7']);
            lemma_digits2('9', '7');
            lemma_digits3('1', '0', '7');
        },
        Color::Reset => {
            reveal_strlit("0");
            assert(fg_code(c) =~= seq!['0']);
            assert(bg_code(c) =~= seq!['0']);
            assert(seq!['0'].drop_last() =~= Seq::<char>::empty());
            assert(digits_value(seq!['0']) == digits_value(Seq::<char>::empty()) * 10 + digit_value('0'));
        },
        Color::TrueColor { .. } => {},
    }
}

/// The background code of a colour is its foreground code moved up by ten: ten more for a
/// named colour, `48` in place of `38` for a true colour, and `0` for both of the reset.
pub proof fn lemma_bg_code_from_fg(c: Color)
    ensures
        !(c is TrueColor) && c != Color::Reset ==> digits_value(bg_code(c)) == digits_value(
            fg_code(c),
        ) + 10,
        c is TrueColor ==> bg_code(c) == "48"@ + fg_code(c).skip(2),
        c == Color::Reset ==> bg_code(c) == fg_code(c),
{
    match c {
        Color::TrueColor { r, g, b } => {
            reveal_strlit("38;2;");
            reveal_strlit("48;2;");
            reveal_strlit("48");
            let rest = decimal(r as nat) + ";"@ + decimal(g as nat) + ";"@ + decimal(b as nat);
            assert(fg_code(c) =~= "38;2;"@ + rest);
            assert(bg_code(c) =~= "48;2;"@ + rest);
            assert(bg_code(c) =~= "48"@ + fg_code(c).skip(2));
        },
        _ => {
            lemma_named_codes(c);
        },
    }
}

/// The true-colour code with `prefix`, taken apart: the prefix, then the three channels in
/// decimal with `;` after the first two.
proof fn lemma_true_color_shape(prefix: Seq<char>, r: u8, g: u8, b: u8)
    ensures
        true_color_code(prefix, r, g, b) == prefix + (decimal(r as nat) + seq![';'] + (decimal(
            g as nat,
        ) + seq![';'] + decimal(b as nat))),
{
    reveal_strlit(";");
    assert(true_color_code(prefix, r, g, b) =~= prefix + (decimal(r as nat) + seq![';'] + (decimal(
        g as nat,
    ) + seq![';'] + decimal(b as nat))));
}

/// Every foreground code is made of decimal digits and `;` only.
pub proof fn lemma_fg_code_charset(c: Color)
    ensures
        forall|i: int|
            0 <= i < fg_code(c).len() ==> is_digit(#[trigger] fg_code(c)[i]) || fg_code(c)[i] == ';',
{
    match c {
        Color::TrueColor { r, g, b } => {
            reveal_strlit("38;2;");
            lemma_true_color_shape("38;2;"@, r, g, b);
            lemma_decimal_digits(r as nat);
            lemma_decimal_digits(g as nat);
            lemma_decimal_digits(b as nat);
            let p = "38;2;"@;
            let dr = decimal(r as nat);
            let dg = decimal(g as nat);
            let db = decimal(b as nat);
            let s = fg_code(c);
            assert forall|i: int| 0 <= i < s.len() implies is_digit(#[trigger] s[i]) || s[i] == ';' by {
                if i < 5 {
                    assert(s[i] == p[i]);
                } else if i < 5 + dr.len() {
                    assert(s[i] == dr[i - 5]);
                } else if i == 5 + dr.len() {
                    assert(s[i] == ';');
                } else if i < 6 + dr.len() + dg.len() {
                    assert(s[i] == dg[i - 6 - dr.len()]);
                } else if i == 6 + dr.len() + dg.len() {
                    assert(s[i] == ';');
                } else {
                    assert(s[i] == db[i - 7 - dr.len() - dg.len()]);
                }
            }
        },
        _ => {
            lemma_named_codes(c);
        },
    }
}

/// No decimal representation holds a `;`.
proof fn lemma_decimal_no_separator(n: nat)
    ensures
        forall|i: int| 0 <= i < decimal(n).len() ==> #[trigger] decimal(n)[i] != ';',
{
    lemma_decimal_digits(n);
    assert forall|i: int| 0 <= i < decimal(n).len() implies #[trigger] decimal(n)[i] != ';' by {
        assert(is_digit(decimal(n)[i]));
    }
}

/// Different colours have different foreground codes.
pub proof fn lemma_fg_code_injective(c1: Color, c2: Color)
    requires
        fg_code(c1) == fg_code(c2),
    ensures
        c1 == c2,
{
    match (c1, c2) {
        (Color::TrueColor { r: r1, g: g1, b: b1 }, Color::TrueColor { r: r2, g: g2, b: b2 }) => {
            reveal_strlit("38;2;");
            let p = "38;2;"@;
            lemma_true_color_shape(p, r1, g1, b1);
            lemma_true_color_shape(p, r2, g2, b2);
            let t1 = decimal(r1 as nat) + seq![';'] + (decimal(g1 as nat) + seq![';'] + decimal(b1 as nat));
            let t2 = decimal(r2 as nat) + seq![';'] + (decimal(g2 as nat) + seq![';'] + decimal(b2 as nat));
            assert(t1 =~= (p + t1).skip(5));
            assert(t2 =~= (p + t2).skip(5));
            lemma_decimal_no_separator(r1 as nat);
            lemma_decimal_no_separator(r2 as nat);
            lemma_decimal_no_separator(g1 as nat);
            lemma_decimal_no_separator(g2 as nat);
            lemma_split_at_separator(
                decimal(r1 as nat),
                decimal(g1 as nat) + seq![';'] + decimal(b1 as nat),
                decimal(r2 as nat),
                decimal(g2 as nat) + seq![';'] + decimal(b2 as nat),
                ';',
            );
            lemma_split_at_separator(decimal(g1 as nat), decimal(b1 as nat), decimal(g2 as nat), decimal(b2 as nat), ';');
            lemma_decimal_injective(r1 as nat, r2 as nat);
            lemma_decimal_injective(g1 as nat, g2 as nat);
            lemma_decimal_injective(b1 as nat, b2 as nat);
        },
        (Color::TrueColor { r, g, b }, _) => {
            reveal_strlit("38;2;");
            lemma_true_color_shape("38;2;"@, r, g, b);
            lemma_decimal_digits(r as nat);
            lemma_named_codes(c2);
        },
        (_, Color::TrueColor { r, g, b }) => {
            reveal_strlit("38;2;");
            lemma_true_color_shape("38;2;"@, r, g, b);
            lemma_decimal_digits(r as nat);
            lemma_named_codes(c1);
        },
        _ => {
            lemma_named_codes(c1);
            lemma_named_codes(c2);
        },
    }
}

/// The `i`-th of the eight basic colours, in SGR order (black is 0, white is 7).
pub open spec fn basic_color(i: int) -> Color {
    if i == 0 {
        Color::Black
    } else if i == 1 {
        Color::Red
    } else if i == 2 {
        Color::Green
    } else if i == 3 {
        Color::Yellow
    } else if i == 4 {
        Color::Blue
    } else if i == 5 {
        Color::Magenta
    } else if i == 6 {
        Color::Cyan
    } else {
        Color::White
    }
}

/// The bright variant of the `i`-th basic colour.
pub open spec fn bright_color(i: int) -> Color {
    if i == 0 {
        Color::BrightBlack
    } else if i == 1 {
        Color::BrightRed
    } else if i == 2 {
        Color::BrightGreen
    } else if i == 3 {
        Color::BrightYellow
    } else if i == 4 {
        Color::BrightBlue
    } else if i == 5 {
        Color::BrightMagenta
    } else if i == 6 {
        Color::BrightCyan
    } else {
        Color::BrightWhite
    }
}

/// The name of the `i`-th basic colour.
pub open spec fn base_name(i: int) -> Seq<char> {
    if i == 0 {
        "black"@
    } else if i == 1 {
        "red"@
    } else if i == 2 {
        "green"@
    } else if i == 3 {
        "yellow"@
    } else if i == 4 {
        "blue"@
    } else if i == 5 {
        "magenta"@
    } else if i == 6 {
        "cyan"@
    } else {
        "white"@
    }
}

/// The SGR codes: the basic colours are 30 to 37 in order as foreground and 40 to 47 as
/// background; their bright variants are 90 to 97 and 100 to 107.
pub proof fn lemma_color_codes()
    ensures
        forall|i: int| 0 <= i < 8 ==> fg_code(#[trigger] basic_color(i)) == decimal((30 + i) as nat),
        forall|i: int| 0 <= i < 8 ==> bg_code(#[trigger] basic_color(i)) == decimal((40 + i) as nat),
        forall|i: int| 0 <= i < 8 ==> fg_code(#[trigger] bright_color(i)) == decimal((90 + i) as nat),
        forall|i: int| 0 <= i < 8 ==> bg_code(#[trigger] bright_color(i)) == decimal((100 + i) as nat),
{
    reveal_with_fuel(decimal, 3);
    reveal_strlit("30");
    assert(decimal(30) =~= seq!['3', '0']);
    assert(fg_code(Color::Black) =~= decimal(30));
    reveal_strlit("40");
    assert(decimal(40) =~= seq!['4', '0']);
    assert(bg_code(Color::Black) =~= decimal(40));
    reveal_strlit("90");
    assert(decimal(90) =~= seq!['9', '0']);
    assert(fg_code(Color::BrightBlack) =~= decimal(90));
    reveal_strlit("100");
    assert(decimal(100) =~= seq!['1', '0', '0']);
    assert(bg_code(Color::BrightBlack) =~= decimal(100));
    reveal_strlit("31");
    assert(decimal(31) =~= seq!['3', '1']);
    assert(fg_code(Color::Red) =~= decimal(31));
    reveal_strlit("41");
    assert(decimal(41) =~= seq!['4', '1']);
    assert(bg_code(Color::Red) =~= decimal(41));
    reveal_strlit("91");
    assert(decimal(91) =~= seq!['9', '1']);
    assert(fg_code(Color::BrightRed) =~= decimal(91));
    reveal_strlit("101");
    assert(decimal(101) =~= seq!['1', '0', '1']);
    assert(bg_code(Color::BrightRed) =~= decimal(101));
    reveal_strlit("32");
    assert(decimal(32) =~= seq!['3', '2']);
    assert(fg_code(Color::Green) =~= decimal(32));
    reveal_strlit("42");
    assert(decimal(42) =~= seq!['4', '2']);
    assert(bg_code(Color::Green) =~= decimal(42));
    reveal_strlit("92");
    assert(decimal(92) =~= seq!['9', '2']);
    assert(fg_code(Color::BrightGreen) =~= decimal(92));
    reveal_strlit("102");
    assert(decimal(102) =~= seq!['1', '0', '2']);
    assert(bg_code(Color::BrightGreen) =~= decimal(102));
    reveal_strlit("33");
    assert(decimal(33) =~= seq!['3', '3']);
    assert(fg_code(Color::Yellow) =~= decimal(33));
    reveal_strlit("43");
    assert(decimal(43) =~= seq!['4', '3']);
    assert(bg_code(Color::Yellow) =~= decimal(43));
    reveal_strlit("93");
    assert(decimal(93) =~= seq!['9', '3']);
    assert(fg_code(Color::BrightYellow) =~= decimal(93));
    reveal_strlit("103");
    assert(decimal(103) =~= seq!['1', '0', '3']);
    assert(bg_code(Color::BrightYellow) =~= decimal(103));
    reveal_strlit("34");
    assert(decimal(34) =~= seq!['3', '4']);
    assert(fg_code(Color::Blue) =~= decimal(34));
    reveal_strlit("44");
    assert(decimal(44) =~= seq!['4', '4']);
    assert(bg_code(Color::Blue) =~= decimal(44));
    reveal_strlit("94");
    assert(decimal(94) =~= seq!['9', '4']);
    assert(fg_code(Color::BrightBlue) =~= decimal(94));
    reveal_strlit("104");
    assert(decimal(104) =~= seq!['1', '0', '4']);
    assert(bg_code(Color::BrightBlue) =~= decimal(104));
    reveal_strlit("35");
    assert(decimal(35) =~= seq!['3', '5']);
    assert(fg_code(Color::Magenta) =~= decimal(35));
    reveal_strlit("45");
    assert(decimal(45) =~= seq!['4', '5']);
    assert(bg_code(Color::Magenta) =~= decimal(45));
    reveal_strlit("95");
    assert(decimal(95) =~= seq!['9', '5']);
    assert(fg_code(Color::BrightMagenta) =~= decimal(95));
    reveal_strlit("105");
    assert(decimal(105) =~= seq!['1', '0', '5']);
    assert(bg_code(Color::BrightMagenta) =~= decimal(105));
    reveal_strlit("36");
    assert(decimal(36) =~= seq!['3', '6']);
    assert(fg_code(Color::Cyan) =~= decimal(36));
    reveal_strlit("46");
    assert(decimal(46) =~= seq!['4', '6']);
    assert(bg_code(Color::Cyan) =~= decimal(46));
    reveal_strlit("96");
    assert(decimal(96) =~= seq!['9', '6']);
    assert(fg_code(Color::BrightCyan) =~= decimal(96));
    reveal_strlit("106");
    assert(decimal(106) =~= seq!['1', '0', '6']);
    assert(bg_code(Color::BrightCyan) =~= decimal(106));
    reveal_strlit("37");
    assert(decimal(37) =~= seq!['3', '7']);
    assert(fg_code(Color::White) =~= decimal(37));
    reveal_strlit("47");
    assert(decimal(47) =~= seq!['4', '7']);
    assert(bg_code(Color::White) =~= decimal(47));
    reveal_strlit("97");
    assert(decimal(97) =~= seq!['9', '7']);
    assert(fg_code(Color::BrightWhite) =~= decimal(97));
    reveal_strlit("107");
    assert(decimal(107) =~= seq!['1', '0', '7']);
    assert(bg_code(Color::BrightWhite) =~= decimal(107));
}

/// Each colour name names its colour: the `i`-th basic name gives the `i`-th basic colour,
/// whose foreground code is `30 + i`; `bright` and a space before it give the bright variant,
/// whose code is `90 + i`; `purple` is magenta.
pub proof fn lemma_color_names()
    ensures
        forall|i: int|
            0 <= i < 8 ==> named_color(#[trigger] base_name(i)) == Some(basic_color(i)),
        forall|i: int|
            0 <= i < 8 ==> named_color("bright "@ + #[trigger] base_name(i)) == Some(bright_color(i)),
        forall|i: int|
            0 <= i < 8 ==> fg_code(named_color(#[trigger] base_name(i))->0) == decimal((30 + i) as nat),
        forall|i: int|
            0 <= i < 8 ==> fg_code(named_color("bright "@ + #[trigger] base_name(i))->0) == decimal(
                (90 + i) as nat,
            ),
        named_color("purple"@) == Some(Color::Magenta),
{
    lemma_color_codes();
    reveal_strlit("bright ");
    reveal_strlit("purple");
    assert("purple"@[0] == 'p');
    reveal_strlit("black");
    assert("black"@[0] == 'b');
    reveal_strlit("red");
    assert("red"@[0] == 'r');
    reveal_strlit("green");
    assert("green"@[0] == 'g');
    reveal_strlit("yellow");
    assert("yellow"@[0] == 'y');
    reveal_strlit("blue");
    assert("blue"@[0] == 'b');
    reveal_strlit("magenta");
    assert("magenta"@[0] == 'm');
    reveal_strlit("cyan");
    assert("cyan"@[0] == 'c');
    reveal_strlit("white");
    assert("white"@[0] == 'w');
    reveal_strlit("purple");
    assert("purple"@[0] == 'p');
    reveal_strlit("bright black");
    assert("bright black"@[0] == 'b');
    assert("bright black"@[7] == 'b');
    reveal_strlit("bright red");
    assert("bright red"@[0] == 'b');
    assert("bright red"@[7] == 'r');
    reveal_strlit("bright green");
    assert("bright green"@[0] == 'b');
    assert("bright green"@[7] == 'g');
    reveal_strlit("bright yellow");
    assert("bright yellow"@[0] == 'b');
    assert("bright yellow"@[7] == 'y');
    reveal_strlit("bright blue");
    assert("bright blue"@[0] == 'b');
    assert("bright blue"@[7] == 'b');
    reveal_strlit("bright magenta");
    assert("bright magenta"@[0] == 'b');
    assert("bright magenta"@[7] == 'm');
    reveal_strlit("bright cyan");
    assert("bright cyan"@[0] == 'b');
    assert("bright cyan"@[7] == 'c');
    reveal_strlit("bright white");
    assert("bright white"@[0] == 'b');
    assert("bright white"@[7] == 'w');
    assert("bright "@ + "black"@ =~= "bright black"@);
    assert("bright "@ + "red"@ =~= "bright red"@);
    assert("bright "@ + "green"@ =~= "bright green"@);
    assert("bright "@ + "yellow"@ =~= "bright yellow"@);
    assert("bright "@ + "blue"@ =~= "bright blue"@);
    assert("bright "@ + "magenta"@ =~= "bright magenta"@);
    assert("bright "@ + "cyan"@ =~= "bright cyan"@);
    assert("bright "@ + "white"@ =~= "bright white"@);
    assert forall|i: int| 0 <= i < 8 implies fg_code(named_color(#[trigger] base_name(i))->0) == decimal(
        (30 + i) as nat,
    ) by {
        assert(named_color(base_name(i)) == Some(basic_color(i)));
        assert(fg_code(basic_color(i)) == decimal((30 + i) as nat));
    }
    assert forall|i: int| 0 <= i < 8 implies fg_code(named_color("bright "@ + #[trigger] base_name(i))->0)
        == decimal((90 + i) as nat) by {
        assert(named_color("bright "@ + base_name(i)) == Some(bright_color(i)));
        assert(fg_code(bright_color(i)) == decimal((90 + i) as nat));
    }
}

/// Only the colour names name a colour: a name that gives a colour is one of the eight basic
/// names, one of them after `bright` and a space, or `purple`.
pub proof fn lemma_named_color_only(name: Seq<char>)
    ensures
        named_color(name) is Some ==> name == "purple"@ || exists|i: int|
            0 <= i < 8 && (#[trigger] base_name(i) == name || "bright "@ + base_name(i) == name),
{
    reveal_strlit("bright ");
    reveal_strlit("black");
    reveal_strlit("bright black");
    reveal_strlit("red");
    reveal_strlit("bright red");
    reveal_strlit("green");
    reveal_strlit("bright green");
    reveal_strlit("yellow");
    reveal_strlit("bright yellow");
    reveal_strlit("blue");
    reveal_strlit("bright blue");
    reveal_strlit("magenta");
    reveal_strlit("bright magenta");
    reveal_strlit("cyan");
    reveal_strlit("bright cyan");
    reveal_strlit("white");
    reveal_strlit("bright white");
    if named_color(name) is Some && name != "purple"@ {
        if name == "black"@ {
            assert(base_name(0) == name);
        } else if name == "red"@ {
            assert(base_name(1) == name);
        } else if name == "green"@ {
            assert(base_name(2) == name);
        } else if name == "yellow"@ {
            assert(base_name(3) == name);
        } else if name == "blue"@ {
            assert(base_name(4) == name);
        } else if name == "magenta"@ {
            assert(base_name(5) == name);
        } else if name == "cyan"@ {
            assert(base_name(6) == name);
        } else if name == "white"@ {
            assert(base_name(7) == name);
        } else if name == "bright black"@ {
            assert("bright "@ + "black"@ =~= "bright black"@);
            assert("bright "@ + base_name(0) == name);
        } else if name == "bright red"@ {
            assert("bright "@ + "red"@ =~= "bright red"@);
            assert("bright "@ + base_name(1) == name);
        } else if name == "bright green"@ {
            assert("bright "@ + "green"@ =~= "bright green"@);
            assert("bright "@ + base_name(2) == name);
        } else if name == "bright yellow"@ {
            assert("bright "@ + "yellow"@ =~= "bright yellow"@);
            assert("bright "@ + base_name(3) == name);
        } else if name == "bright blue"@ {
            assert("bright "@ + "blue"@ =~= "bright blue"@);
            assert("bright "@ + base_name(4) == name);
        } else if name == "bright magenta"@ {
            assert("bright "@ + "magenta"@ =~= "bright magenta"@);
            assert("bright "@ + base_name(5) == name);
        } else if name == "bright cyan"@ {
            assert("bright "@ + "cyan"@ =~= "bright cyan"@);
            assert("bright "@ + base_name(6) == name);
        } else if name == "bright white"@ {
            assert("bright "@ + "white"@ =~= "bright white"@);
            assert("bright "@ + base_name(7) == name);
        }
    }
}

/// An SGR escape is the escape character, `[`, the code, and `m`; the reset escape is
/// `ESC [ 0 m`.
pub proof fn lemma_sgr_shape(code: Seq<char>)
    ensures
        sgr(code).len() == code.len() + 3,
        sgr(code)[0] == '\u{001b}',
        sgr(code)[1] == '[',
        sgr(code).subrange(2, code.len() + 2int) == code,
        sgr(code)[code.len() + 2int] == 'm',
        reset_escape() == seq!['\u{001b}', '[', '0', 'm'],
{
    reveal_strlit("\u{001b}[");
    reveal_strlit("m");
    reveal_strlit("0");
    assert(sgr(code).subrange(2, code.len() + 2int) =~= code);
    assert(reset_escape() =~= seq!['\u{001b}', '[', '0', 'm']);
}

/// A true colour's codes: `38`, `2` and the three channels red, green, blue in decimal, all
/// separated by `;`, as foreground; the same after `48` as background.
pub proof fn lemma_true_color_codes(r: u8, g: u8, b: u8)
    ensures
        fg_code(Color::TrueColor { r, g, b }) == seq!['3', '8', ';', '2', ';'] + decimal(r as nat)
            + seq![';'] + decimal(g as nat) + seq![';'] + decimal(b as nat),
        bg_code(Color::TrueColor { r, g, b }) == seq!['4', '8', ';', '2', ';'] + decimal(r as nat)
            + seq![';'] + decimal(g as nat) + seq![';'] + decimal(b as nat),
{
    reveal_strlit("38;2;");
    reveal_strlit("48;2;");
    reveal_strlit(";");
    assert(fg_code(Color::TrueColor { r, g, b }) =~= seq!['3', '8', ';', '2', ';'] + decimal(r as nat)
        + seq![';'] + decimal(g as nat) + seq![';'] + decimal(b as nat));
    assert(bg_code(Color::TrueColor { r, g, b }) =~= seq!['4', '8', ';', '2', ';'] + decimal(r as nat)
        + seq![';'] + decimal(g as nat) + seq![';'] + decimal(b as nat));
}

/// Converting a string gives the colour it names when it names one and white otherwise;
/// parsing succeeds exactly when the lower-case form is a colour name.
pub proof fn lemma_from_name(s: Seq<char>)
    ensures
        from_name_spec(s) == (match parse_spec(s) {
            Ok(c) => c,
            Err(_) => Color::White,
        }),
        parse_spec(s) is Ok <==> named_color(lowercase(s)) is Some,
        parse_spec(s) is Ok ==> Some(parse_spec(s)->Ok_0) == named_color(lowercase(s)),
{
}

/// Colouring text: the colour's escape, the text, and `ESC [ 0 m`; the string methods put the
/// bare code before the text instead.
pub proof fn lemma_colorize_shape(c: Color, text: Seq<char>)
    ensures
        color_escape(c) + text + reset_escape() == color_escape(c) + text + seq!['\u{001b}', '[', '0', 'm'],
        code_then_text_spec(c, text) == fg_code(c) + text + seq!['\u{001b}', '[', '0', 'm'],
{
    lemma_sgr_shape("0"@);
}

} // verus!
