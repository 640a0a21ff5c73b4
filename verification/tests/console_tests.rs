use libkernel::console::QEMUOutputInner;
use libkernel::print::print_payload;

#[test]
fn newline_sends_carriage_return_first() {
    let mut c = QEMUOutputInner::new();
    let bytes = c.write_str("a\nb");
    assert_eq!(bytes, vec![b'a', b'\r', b'\n', b'b']);
    assert_eq!(c.chars_written, 4);
}

#[test]
fn print_counts_reset_escape() {
    // Printing "OK1234" sends the six characters and the four of the reset escape.
    let mut c = QEMUOutputInner::new();
    let text = print_payload("OK1234");
    c.write_str(&text);
    assert_eq!(c.chars_written, 10);
}

#[test]
fn console_writes_compose() {
    let mut a = QEMUOutputInner::new();
    let mut out = a.write_str("x\n");
    out.extend(a.write_str("y"));
    let mut b = QEMUOutputInner::new();
    assert_eq!(out, b.write_str("x\ny"));
    assert_eq!(a.chars_written, b.chars_written);
}

#[test]
fn write_char_counts_one() {
    let mut c = QEMUOutputInner::new();
    assert_eq!(c.write_char('Z'), b'Z');
    assert_eq!(c.chars_written, 1);
}
