use libkernel::colorize::{code_then_text, Color, Colorize, ColorizeString};
use libkernel::colors::{Colors, Colorize as ColorsColorize};

#[test]
fn fg_codes_of_named_colors() {
    assert_eq!(Color::Black.to_fg_str(), "30");
    assert_eq!(Color::White.to_fg_str(), "37");
    assert_eq!(Color::BrightBlack.to_fg_str(), "90");
    assert_eq!(Color::BrightWhite.to_fg_str(), "97");
    assert_eq!(Color::Reset.to_fg_str(), "0");
}

#[test]
fn bg_codes_of_named_colors() {
    assert_eq!(Color::Black.to_bg_str(), "40");
    assert_eq!(Color::Cyan.to_bg_str(), "46");
    assert_eq!(Color::BrightBlack.to_bg_str(), "100");
    assert_eq!(Color::BrightWhite.to_bg_str(), "107");
    assert_eq!(Color::Reset.to_bg_str(), "0");
}

#[test]
fn true_color_codes() {
    let c = Color::TrueColor { r: 128, g: 7, b: 255 };
    assert_eq!(c.to_fg_str(), "38;2;128;7;255");
    assert_eq!(c.to_bg_str(), "48;2;128;7;255");
    let z = Color::TrueColor { r: 0, g: 10, b: 99 };
    assert_eq!(z.to_fg_str(), "38;2;0;10;99");
}

#[test]
fn color_prints_as_escape() {
    assert_eq!(Color::Red.to_string(), "\u{1b}[31m");
    assert_eq!(Color::Reset.to_string(), "\u{1b}[0m");
    assert_eq!(Color::TrueColor { r: 1, g: 2, b: 3 }.to_string(), "\u{1b}[38;2;1;2;3m");
}

#[test]
fn parse_ignores_case() {
    assert_eq!(Color::parse("RED"), Ok(Color::Red));
    assert_eq!(Color::parse("Bright Blue"), Ok(Color::BrightBlue));
    assert_eq!(Color::parse("green"), Ok(Color::Green));
}

#[test]
fn parse_purple_is_magenta() {
    assert_eq!(Color::parse("purple"), Ok(Color::Magenta));
    assert_eq!(Color::parse("magenta"), Ok(Color::Magenta));
}

#[test]
fn parse_unknown_is_error() {
    assert_eq!(Color::parse("orange"), Err(()));
    assert_eq!(Color::parse(""), Err(()));
    assert_eq!(Color::parse("brightred"), Err(()));
    assert_eq!(Color::parse(" red"), Err(()));
}

#[test]
fn parse_uses_unicode_lowercase() {
    // The Kelvin sign lower-cases to an ASCII 'k'.
    assert_eq!(Color::parse("blac\u{212A}"), Ok(Color::Black));
}

#[test]
fn from_lowercase_name_is_exact() {
    assert_eq!(Color::from_lowercase_name("bright white"), Some(Color::BrightWhite));
    assert_eq!(Color::from_lowercase_name("Red"), None);
}

#[test]
fn from_str_trait_parses() {
    let c: Result<Color, ()> = "Yellow".parse();
    assert_eq!(c, Ok(Color::Yellow));
}

#[test]
fn from_defaults_to_white() {
    assert_eq!(Color::from("CYAN"), Color::Cyan);
    assert_eq!(Color::from("no such colour"), Color::White);
    assert_eq!(Color::from(String::from("Bright Red")), Color::BrightRed);
    assert_eq!(Color::from(String::from("x")), Color::White);
}

#[test]
fn colorize_wraps_text() {
    let s = Colorize::colorize(String::from("hello"), Color::Green);
    assert_eq!(s, "\u{1b}[32mhello\u{1b}[0m");
}

#[test]
fn colorize_string_methods_use_bare_codes() {
    assert_eq!("hi".red(), "31hi\u{1b}[0m");
    assert_eq!(String::from("x").bright_cyan(), "96x\u{1b}[0m");
    assert_eq!("t".true_color(1, 22, 255), "38;2;1;22;255t\u{1b}[0m");
    assert_eq!("".reset(), "0\u{1b}[0m");
    assert_eq!(code_then_text(Color::Blue, "b"), "34b\u{1b}[0m");
}

#[test]
fn colors_codes() {
    assert_eq!(Colors::Black.get_code(), "30");
    assert_eq!(Colors::BrightRed.get_code(), "31;1");
    assert_eq!(Colors::BrightWhite.get_code(), "37;1");
    assert_eq!(Colors::Reset.get_code(), "0");
    assert_eq!(Colors::BrightGreen.to_string(), "\u{1b}[32;1m");
}

#[test]
fn colors_colorize_wraps_text() {
    let s = ColorsColorize::colorize(String::from("warn"), Colors::Yellow);
    assert_eq!(s, "\u{1b}[33mwarn\u{1b}[0m");
}

#[test]
fn bg_code_is_fg_code_plus_ten() {
    let named = [
        Color::Black, Color::Red, Color::Green, Color::Yellow, Color::Blue, Color::Magenta,
        Color::Cyan, Color::White, Color::BrightBlack, Color::BrightRed, Color::BrightGreen,
        Color::BrightYellow, Color::BrightBlue, Color::BrightMagenta, Color::BrightCyan,
        Color::BrightWhite,
    ];
    for c in named {
        let fg: u32 = c.to_fg_str().parse().unwrap();
        let bg: u32 = c.to_bg_str().parse().unwrap();
        assert_eq!(bg, fg + 10);
    }
    let t = Color::TrueColor { r: 9, g: 99, b: 199 };
    assert_eq!(t.to_bg_str(), format!("48{}", &t.to_fg_str()[2..]));
    assert_eq!(Color::Reset.to_bg_str(), Color::Reset.to_fg_str());
}

#[test]
fn fg_codes_are_distinct() {
    let colors = [
        Color::Black, Color::Red, Color::BrightBlack, Color::Reset,
        Color::TrueColor { r: 1, g: 11, b: 1 }, Color::TrueColor { r: 11, g: 1, b: 1 },
        Color::TrueColor { r: 1, g: 1, b: 11 },
    ];
    for (i, a) in colors.iter().enumerate() {
        for (j, b) in colors.iter().enumerate() {
            assert_eq!(a.to_fg_str() == b.to_fg_str(), i == j);
        }
        assert!(a.to_fg_str().chars().all(|ch| ch.is_ascii_digit() || ch == ';'));
    }
}
