use libkernel::vga::{ColorCode, ScreenChar, Writer, BUFFER_HEIGHT, BUFFER_WIDTH};

fn blank() -> Vec<ScreenChar> {
    vec![ScreenChar { ascii_character: b' ', color_code: ColorCode(0) }; BUFFER_HEIGHT * BUFFER_WIDTH]
}

#[test]
fn write_str_fills_bottom_row() {
    let mut w = Writer::new(ColorCode(0x1F), blank());
    w.write_str("Hi\n");
    assert_eq!(w.column_position(), 3);
    assert_eq!(w.screen_char(24, 0), ScreenChar { ascii_character: b'H', color_code: ColorCode(0x1F) });
    assert_eq!(w.screen_char(24, 1).ascii_character, b'i');
    assert_eq!(w.screen_char(24, 2).ascii_character, b'\r');
    assert_eq!(w.screen_char(24, 3).ascii_character, b' ');
    assert_eq!(w.screen_char(23, 0).ascii_character, b' ');
}

#[test]
fn write_char_truncates_to_byte() {
    let mut w = Writer::new(ColorCode(7), blank());
    w.write_char('\u{141}');
    assert_eq!(w.screen_char(24, 0).ascii_character, 0x41);
    assert_eq!(w.column_position(), 1);
}

#[test]
fn writes_compose() {
    let mut a = Writer::new(ColorCode(7), blank());
    a.write_str("ab");
    a.write_str("cd");
    let mut b = Writer::new(ColorCode(7), blank());
    b.write_str("abcd");
    for col in 0..BUFFER_WIDTH {
        assert_eq!(a.screen_char(24, col), b.screen_char(24, col));
    }
    assert_eq!(a.column_position(), b.column_position());
}

#[test]
fn write_fills_whole_row() {
    let mut w = Writer::new(ColorCode(7), blank());
    let line: String = std::iter::repeat('x').take(BUFFER_WIDTH).collect();
    w.write_str(&line);
    assert_eq!(w.column_position(), BUFFER_WIDTH);
    assert_eq!(w.screen_char(24, BUFFER_WIDTH - 1).ascii_character, b'x');
}
