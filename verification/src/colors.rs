//! The basic terminal colours, with bright variants given as bold.
use vstd::prelude::*;
use vstd::string::*;
use crate::colorize::sgr;
use crate::text::{decimal, lemma_decimal_injective};

verus! {

/// A basic terminal colour.
#[derive(Debug, Clone, Copy, PartialEq, Eq)]
pub enum Colors {
    Black,
    Red,
    Green,
    Yellow,
    Blue,
    Magenta,
    Cyan,
    White,
    BrightBlack,
    BrightRed,
    BrightGreen,
    BrightYellow,
    BrightBlue,
    BrightMagenta,
    BrightCyan,
    BrightWhite,
    Reset,
}

/// The SGR parameters of a colour: bright colours are the plain ones made bold (`;1`).
pub open spec fn colors_code(c: Colors) -> Seq<char> {
    match c {
        Colors::Black => "30"@,
        Colors::Red => "31"@,
        Colors::Green => "32"@,
        Colors::Yellow => "33"@,
        Colors::Blue => "34"@,
        Colors::Magenta => "35"@,
        Colors::Cyan => "36"@,
        Colors::White => "37"@,
        Colors::BrightBlack => "30;1"@,
        Colors::BrightRed => "31;1"@,
        Colors::BrightGreen => "32;1"@,
        Colors::BrightYellow => "33;1"@,
        Colors::BrightBlue => "34;1"@,
        Colors::BrightMagenta => "35;1"@,
        Colors::BrightCyan => "36;1"@,
        Colors::BrightWhite => "37;1"@,
        Colors::Reset => "0"@,
    }
}

/// What a colour prints as: `ESC [ <code> m`.
pub open spec fn colors_escape(c: Colors) -> Seq<char> {
    sgr(colors_code(c))
}

impl Colors {
    /// The SGR parameters of this colour.
    pub fn get_code(&self) -> (code: &'static str)
        ensures
            code@ == colors_code(*self),
    {
        match self {
            Colors::Black => "30",
            Colors::Red => "31",
            Colors::Green => "32",
            Colors::Yellow => "33",
            Colors::Blue => "34",
            Colors::Magenta => "35",
            Colors::Cyan => "36",
            Colors::White => "37",
            Colors::BrightBlack => "30;1",
            Colors::BrightRed => "31;1",
            Colors::BrightGreen => "32;1",
            Colors::BrightYellow => "33;1",
            Colors::BrightBlue => "34;1",
            Colors::BrightMagenta => "35;1",
            Colors::BrightCyan => "36;1",
            Colors::BrightWhite => "37;1",
            Colors::Reset => "0",
        }
    }

    /// What the colour prints as: `ESC [ <code> m`.
    pub fn to_string(&self) -> (s: String)
        ensures
            s@ == colors_escape(*self),
    {
        let mut s = "\u{001b}[".to_owned();
        s.append(self.get_code());
        s.append("m");
        assert(s@ =~= colors_escape(*self));
        s
    }
}

/// Colouring of text with a basic colour: the colour's escape, the text, the reset escape.
pub trait Colorize: Sized {
    /// The characters of the text.
    spec fn text_view(&self) -> Seq<char>;

    /// The text as a string slice.
    fn text(&self) -> (t: &str)
        ensures
            t@ == self.text_view(),
    ;

    /// The text in `color`, followed by the reset escape.
    fn colorize(self, color: Colors) -> (s: String)
        ensures
            s@ == colors_escape(color) + self.text_view() + colors_escape(Colors::Reset),
    {
        let mut s = color.to_string();
        s.append(self.text());
        let reset = Colors::Reset.to_string();
        s.append(reset.as_str());
        assert(s@ =~= colors_escape(color) + self.text_view() + colors_escape(Colors::Reset));
        s
    }
}

impl Colorize for String {
    open spec fn text_view(&self) -> Seq<char> {
        self@
    }

    fn text(&self) -> (t: &str) {
        self.as_str()
    }
}

/// The `i`-th of the eight basic colours, in SGR order (black is 0, white is 7).
pub open spec fn basic_colors(i: int) -> Colors {
    if i == 0 {
        Colors::Black
    } else if i == 1 {
        Colors::Red
    } else if i == 2 {
        Colors::Green
    } else if i == 3 {
        Colors::Yellow
    } else if i == 4 {
        Colors::Blue
    } else if i == 5 {
        Colors::Magenta
    } else if i == 6 {
        Colors::Cyan
    } else {
        Colors::White
    }
}

/// The bright variant of the `i`-th basic colour.
pub open spec fn bright_colors(i: int) -> Colors {
    if i == 0 {
        Colors::BrightBlack
    } else if i == 1 {
        Colors::BrightRed
    } else if i == 2 {
        Colors::BrightGreen
    } else if i == 3 {
        Colors::BrightYellow
    } else if i == 4 {
        Colors::BrightBlue
    } else if i == 5 {
        Colors::BrightMagenta
    } else if i == 6 {
        Colors::BrightCyan
    } else {
        Colors::BrightWhite
    }
}

/// The codes of the basic colours are the SGR numbers 30 to 37 in order, all different; a
/// bright colour's code is its basic colour's code followed by `;1` (bold); the reset's is `0`.
pub proof fn lemma_colors_codes()
    ensures
        forall|i: int| 0 <= i < 8 ==> colors_code(#[trigger] basic_colors(i)) == decimal((30 + i) as nat),
        forall|i: int| 0 <= i < 8 ==> colors_code(#[trigger] bright_colors(i)) == decimal((30 + i) as nat) + ";1"@,
        forall|i: int, j: int| 0 <= i < 8 && 0 <= j < 8 && i != j ==> colors_code(#[trigger] basic_colors(i))
            != colors_code(#[trigger] basic_colors(j)),
        colors_code(Colors::Reset) == "0"@,
{
    reveal_strlit(";1");
    reveal_with_fuel(decimal, 2);
    reveal_strlit("30");
    reveal_strlit("30;1");
    assert(decimal(30) =~= seq!['3', '0']);
    assert(colors_code(Colors::Black) =~= decimal(30));
    assert(colors_code(Colors::BrightBlack) =~= decimal(30) + ";1"@);
    reveal_strlit("31");
    reveal_strlit("31;1");
    assert(decimal(31) =~= seq!['3', '1']);
    assert(colors_code(Colors::Red) =~= decimal(31));
    assert(colors_code(Colors::BrightRed) =~= decimal(31) + ";1"@);
    reveal_strlit("32");
    reveal_strlit("32;1");
    assert(decimal(32) =~= seq!['3', '2']);
    assert(colors_code(Colors::Green) =~= decimal(32));
    assert(colors_code(Colors::BrightGreen) =~= decimal(32) + ";1"@);
    reveal_strlit("33");
    reveal_strlit("33;1");
    assert(decimal(33) =~= seq!['3', '3']);
    assert(colors_code(Colors::Yellow) =~= decimal(33));
    assert(colors_code(Colors::BrightYellow) =~= decimal(33) + ";1"@);
    reveal_strlit("34");
    reveal_strlit("34;1");
    assert(decimal(34) =~= seq!['3', '4']);
    assert(colors_code(Colors::Blue) =~= decimal(34));
    assert(colors_code(Colors::BrightBlue) =~= decimal(34) + ";1"@);
    reveal_strlit("35");
    reveal_strlit("35;1");
    assert(decimal(35) =~= seq!['3', '5']);
    assert(colors_code(Colors::Magenta) =~= decimal(35));
    assert(colors_code(Colors::BrightMagenta) =~= decimal(35) + ";1"@);
    reveal_strlit("36");
    reveal_strlit("36;1");
    assert(decimal(36) =~= seq!['3', '6']);
    assert(colors_code(Colors::Cyan) =~= decimal(36));
    assert(colors_code(Colors::BrightCyan) =~= decimal(36) + ";1"@);
    reveal_strlit("37");
    reveal_strlit("37;1");
    assert(decimal(37) =~= seq!['3', '7']);
    assert(colors_code(Colors::White) =~= decimal(37));
    assert(colors_code(Colors::BrightWhite) =~= decimal(37) + ";1"@);
    assert forall|i: int, j: int| 0 <= i < 8 && 0 <= j < 8 && i != j implies colors_code(#[trigger] basic_colors(i))
        != colors_code(#[trigger] basic_colors(j)) by {
        if colors_code(basic_colors(i)) == colors_code(basic_colors(j)) {
            lemma_decimal_injective((30 + i) as nat, (30 + j) as nat);
        }
    }
}

} // verus!
