//! Printing: what goes to the console for a print, for a log line and for the kernel's
//! messages about its drivers and its version.
use vstd::prelude::*;
use vstd::string::*;
use crate::colorize::{Color, color_escape, reset_escape};
use crate::text::{
    decimal, pad_left, push_decimal, push_padded, decimal_string, digits_value, is_digit,
    lemma_decimal_digits, lemma_decimal_len, pow10, lemma_pad_left, lemma_leading_zeros_value,
};

verus! {

/// What a print of `text` sends: the text, then the reset escape, so that no colour outlives
/// the print.
pub open spec fn print_spec(text: Seq<char>) -> Seq<char> {
    text + reset_escape()
}

/// What a print of `text` sends to the console.
pub fn print_payload(text: &str) -> (s: String)
    ensures
        s@ == print_spec(text@),
{
    let mut s = text.to_owned();
    let reset = Color::Reset.to_string();
    s.append(reset.as_str());
    assert(s@ =~= print_spec(text@));
    s
}

/// The kind of a log line.
#[derive(Debug, Clone, Copy, PartialEq, Eq)]
pub enum LogLevel {
    Info,
    Warn,
    Debug,
}

/// The one-character tag of a log line. A warning is tagged `W` when its message is a plain
/// string and left untagged when it is formatted from arguments.
pub open spec fn log_prefix_spec(level: LogLevel, formatted: bool) -> Seq<char> {
    match level {
        LogLevel::Info => " "@,
        LogLevel::Warn => if formatted { " "@ } else { "W"@ },
        LogLevel::Debug => "D"@,
    }
}

/// The colour of a log line's message.
pub open spec fn log_color_spec(level: LogLevel) -> Color {
    match level {
        LogLevel::Info => Color::Reset,
        LogLevel::Warn => Color::Yellow,
        LogLevel::Debug => Color::TrueColor { r: 128, g: 128, b: 128 },
    }
}

/// The one-character tag of a log line.
pub fn log_prefix(level: LogLevel, formatted: bool) -> (p: &'static str)
    ensures
        p@ == log_prefix_spec(level, formatted),
{
    match level {
        LogLevel::Info => " ",
        LogLevel::Warn => if formatted {
            " "
        } else {
            "W"
        },
        LogLevel::Debug => "D",
    }
}

/// The colour of a log line's message.
pub fn log_color(level: LogLevel) -> (c: Color)
    ensures
        c == log_color_spec(level),
{
    match level {
        LogLevel::Info => Color::Reset,
        LogLevel::Warn => Color::Yellow,
        LogLevel::Debug => Color::TrueColor { r: 128, g: 128, b: 128 },
    }
}

/// A time stamp: the seconds right-aligned in three columns, a dot, and the microseconds in
/// six digits with leading zeros.
pub open spec fn timestamp_spec(secs: u64, micros: u32) -> Seq<char> {
    pad_left(decimal(secs as nat), 3, ' ') + "."@ + pad_left(decimal(micros as nat), 6, '0')
}

/// A log line: `[<prefix> <timestamp>] <colour escape><message>` and a newline.
pub open spec fn log_line_spec(prefix: Seq<char>, secs: u64, micros: u32, color: Color, message: Seq<char>) -> Seq<char> {
    "["@ + prefix + " "@ + timestamp_spec(secs, micros) + "] "@ + color_escape(color) + message
        + "\n"@
}

/// Appends the time stamp of `secs` seconds and `micros` microseconds.
fn push_timestamp(out: &mut String, secs: u64, micros: u32)
    ensures
        final(out)@ == old(out)@ + timestamp_spec(secs, micros),
{
    proof {
        reveal_strlit(" ");
        reveal_strlit("0");
    }
    let s = decimal_string(secs);
    push_padded(out, s.as_str(), 3, " ");
    out.append(".");
    let m = decimal_string(micros as u64);
    push_padded(out, m.as_str(), 6, "0");
    assert(final(out)@ =~= old(out)@ + timestamp_spec(secs, micros));
}

/// A log line with the given tag, time stamp, colour and message (before the print adds the
/// reset escape).
pub fn log_line(prefix: &str, secs: u64, micros: u32, color: Color, message: &str) -> (s: String)
    ensures
        s@ == log_line_spec(prefix@, secs, micros, color, message@),
{
    let mut s = "[".to_owned();
    s.append(prefix);
    s.append(" ");
    push_timestamp(&mut s, secs, micros);
    s.append("] ");
    let esc = color.to_string();
    s.append(esc.as_str());
    s.append(message);
    s.append("\n");
    assert(s@ =~= log_line_spec(prefix@, secs, micros, color, message@));
    s
}

/// The line of a log message of `level` at `secs.micros`, as the console receives it.
pub fn log_message(level: LogLevel, formatted: bool, secs: u64, micros: u32, message: &str) -> (s: String)
    ensures
        s@ == print_spec(
            log_line_spec(log_prefix_spec(level, formatted), secs, micros, log_color_spec(level), message@),
        ),
{
    let line = log_line(log_prefix(level, formatted), secs, micros, log_color(level), message);
    print_payload(line.as_str())
}

/// The line that lists driver number `index` (counting from zero): six spaces, the number
/// counting from one, a dot, and the driver's name.
pub fn driver_line(index: usize, name: &str) -> (s: String)
    requires
        index < usize::MAX,
    ensures
        s@ == "      "@ + decimal((index + 1) as nat) + ". "@ + name@,
{
    let mut s = "      ".to_owned();
    push_decimal(&mut s, (index + 1) as u64);
    s.append(". ");
    s.append(name);
    assert(s@ =~= "      "@ + decimal((index + 1) as nat) + ". "@ + name@);
    s
}

/// The message of a driver that failed to start.
pub fn driver_error_message(name: &str, error: &str) -> (s: String)
    ensures
        s@ == "Error loading driver: "@ + name@ + ": "@ + error@,
{
    let mut s = "Error loading driver: ".to_owned();
    s.append(name);
    s.append(": ");
    s.append(error);
    assert(s@ =~= "Error loading driver: "@ + name@ + ": "@ + error@);
    s
}

/// The colours of log lines: an info line carries the reset escape (no colour) before its
/// message, a warning the yellow escape, a debug line the grey true-colour escape; and the
/// tags: blank for info and for a warning formatted from arguments, `W` for a plain warning,
/// `D` for debug.
pub proof fn lemma_log_colors(formatted: bool)
    ensures
        color_escape(log_color_spec(LogLevel::Info)) == "\u{001b}[0m"@,
        color_escape(log_color_spec(LogLevel::Warn)) == "\u{001b}[33m"@,
        color_escape(log_color_spec(LogLevel::Debug)) == "\u{001b}[38;2;128;128;128m"@,
        log_prefix_spec(LogLevel::Info, formatted) == " "@,
        log_prefix_spec(LogLevel::Warn, false) == "W"@,
        log_prefix_spec(LogLevel::Warn, true) == " "@,
        log_prefix_spec(LogLevel::Debug, formatted) == "D"@,
{
    reveal_strlit("\u{001b}[");
    reveal_strlit("m");
    reveal_strlit("0");
    reveal_strlit("33");
    reveal_strlit("38;2;");
    reveal_strlit(";");
    reveal_strlit("\u{001b}[0m");
    reveal_strlit("\u{001b}[33m");
    reveal_strlit("\u{001b}[38;2;128;128;128m");
    reveal_with_fuel(decimal, 3);
    assert(color_escape(Color::Reset) =~= "\u{001b}[0m"@);
    assert(color_escape(Color::Yellow) =~= "\u{001b}[33m"@);
    assert(decimal(128) =~= seq!['1', '2', '8']);
    assert(color_escape(Color::TrueColor { r: 128, g: 128, b: 128 }) =~= "\u{001b}[38;2;128;128;128m"@);
}

/// An info line is the uncoloured log line: its message comes right after the reset escape.
pub proof fn lemma_info_line_uncoloured(formatted: bool, secs: u64, micros: u32, message: Seq<char>)
    ensures
        log_line_spec(log_prefix_spec(LogLevel::Info, formatted), secs, micros, log_color_spec(LogLevel::Info), message)
            == "[  "@ + timestamp_spec(secs, micros) + "] "@ + "\u{001b}[0m"@ + message + "\n"@,
{
    lemma_log_colors(formatted);
    reveal_strlit("[");
    reveal_strlit(" ");
    reveal_strlit("[  ");
    assert(log_line_spec(log_prefix_spec(LogLevel::Info, formatted), secs, micros, log_color_spec(LogLevel::Info), message)
        =~= "[  "@ + timestamp_spec(secs, micros) + "] "@ + "\u{001b}[0m"@ + message + "\n"@);
}

/// A time stamp of less than 1000 seconds is ten characters: the seconds right-aligned in three
/// columns (spaces, then their digits), a dot, and six digits that stand for the microseconds.
pub proof fn lemma_timestamp(secs: u64, micros: u32)
    requires
        secs < 1000,
        micros < 1_000_000,
    ensures
        ({
            let t = timestamp_spec(secs, micros);
            let k = 3 - decimal(secs as nat).len();
            &&& t.len() == 10
            &&& t[3] == '.'
            &&& 0 <= k <= 2
            &&& forall|i: int| 0 <= i < k ==> #[trigger] t[i] == ' '
            &&& forall|i: int| k <= i < 3 ==> is_digit(#[trigger] t[i])
            &&& digits_value(t.subrange(k, 3)) == secs
            &&& forall|i: int| 4 <= i < 10 ==> is_digit(#[trigger] t[i])
            &&& digits_value(t.subrange(4, 10)) == micros
        }),
{
    reveal_strlit(".");
    let ds = decimal(secs as nat);
    let dm = decimal(micros as nat);
    lemma_decimal_digits(secs as nat);
    lemma_decimal_digits(micros as nat);
    assert(pow10(3) == 1000) by {
        reveal_with_fuel(pow10, 4);
    }
    assert(pow10(6) == 1_000_000) by {
        reveal_with_fuel(pow10, 7);
    }
    lemma_decimal_len(secs as nat, 3);
    lemma_decimal_len(micros as nat, 6);
    lemma_pad_left(ds, 3, ' ');
    lemma_pad_left(dm, 6, '0');
    let ps = pad_left(ds, 3, ' ');
    let pm = pad_left(dm, 6, '0');
    let t = timestamp_spec(secs, micros);
    let k = 3 - ds.len();
    assert(t =~= ps + "."@ + pm);
    assert(t.subrange(k, 3) =~= ds);
    assert(t.subrange(4, 10) =~= pm);
    if dm.len() < 6 {
        assert(pm =~= Seq::new((6 - dm.len()) as nat, |i: int| '0') + dm);
        lemma_leading_zeros_value((6 - dm.len()) as nat, dm);
    }
    assert forall|i: int| 4 <= i < 10 implies is_digit(#[trigger] t[i]) by {
        assert(t[i] == pm[i - 4]);
        if i - 4 < 6 - dm.len() {
        } else {
            assert(pm[i - 4] == dm[i - 4 - (6 - dm.len())]);
        }
    }
    assert forall|i: int| k <= i < 3 implies is_digit(#[trigger] t[i]) by {
        assert(t[i] == ps[i]);
        assert(ps[i] == ds[i - k]);
    }
    assert forall|i: int| 0 <= i < k implies #[trigger] t[i] == ' ' by {
        assert(t[i] == ps[i]);
    }
}

/// A print sends the text followed by `ESC [ 0 m`.
pub proof fn lemma_print_shape(text: Seq<char>)
    ensures
        print_spec(text) == text + seq!['\u{001b}', '[', '0', 'm'],
        print_spec(text).subrange(0, text.len() as int) == text,
{
    crate::colorize::lemma_sgr_shape("0"@);
    assert(print_spec(text).subrange(0, text.len() as int) =~= text);
}

} // verus!
