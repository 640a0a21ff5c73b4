use libkernel::framebuffer::{vga_color, FrameBuffer, PixelWrite};
use libkernel::kernel_framebuffer::{self as kfb, Font};
use libkernel::mail::{MBOX_TAG_GETFB, MBOX_TAG_LAST, MBOX_TAG_SETPHYWH};

fn fb() -> FrameBuffer {
    FrameBuffer { width: 10, height: 10, is_rgb: true, pitch: 100, fb: 0x1000 }
}

#[test]
fn mailbox_request_layout() {
    let m = FrameBuffer::mailbox_request(640, 480);
    assert_eq!(m.len(), 35);
    assert_eq!(m[0], 140);
    assert_eq!(m[2], MBOX_TAG_SETPHYWH);
    assert_eq!(m[5], 1920);
    assert_eq!(m[6], 1080);
    assert_eq!(m[10], 640);
    assert_eq!(m[11], 480);
    assert_eq!(m[20], 32);
    assert_eq!(m[24], 1);
    assert_eq!(m[25], MBOX_TAG_GETFB);
    assert_eq!(m[28], 4096);
    assert_eq!(m[34], MBOX_TAG_LAST);
}

fn buffer_of(message: &[usize]) -> Vec<usize> {
    let mut b = vec![0usize; 36];
    b[..message.len()].copy_from_slice(message);
    b
}

#[test]
fn from_mailbox_reads_reply() {
    let sent = buffer_of(&FrameBuffer::mailbox_request(640, 480));
    let mut reply = sent.clone();
    reply[10] = 800;
    reply[11] = 600;
    reply[24] = 0;
    reply[28] = 0xC000_1000;
    reply[33] = 3200;
    let f = FrameBuffer::from_mailbox(&sent, true, &mut reply).unwrap();
    assert_eq!(reply[28], 0x1000);
    assert_eq!(f.width, 800);
    assert_eq!(f.height, 600);
    assert!(!f.is_rgb);
    assert_eq!(f.fb, 0x1000);
    assert_eq!(f.pitch, 3200);
}

#[test]
fn from_mailbox_failed_call() {
    let sent = buffer_of(&FrameBuffer::mailbox_request(640, 480));
    let mut reply = sent.clone();
    reply[28] = 0xC000_1000;
    assert!(FrameBuffer::from_mailbox(&sent, false, &mut reply).is_none());
    assert_eq!(reply[28], 0xC000_1000);
    let mut bad = sent.clone();
    bad[20] = 16;
    assert!(FrameBuffer::from_mailbox(&bad, true, &mut reply).is_none());
    let mut null = sent.clone();
    null[28] = 0;
    assert!(FrameBuffer::from_mailbox(&null, true, &mut reply).is_none());
    assert_eq!(reply[28], 0xC000_1000);
}

#[test]
fn draw_pixel_address_and_colour() {
    let f = fb();
    assert_eq!(f.draw_pixel(2, 3, '\u{1}'), PixelWrite { address: 0x1000 + 300 + 8, value: 0xFFFFFF });
    assert_eq!(f.draw_pixel(0, 0, '\u{0}'), PixelWrite { address: 0x1000, value: 0 });
    assert_eq!(vga_color(1), 0x0000AA);
}

#[test]
fn draw_rect_outline_is_top_row_and_left_column() {
    let f = fb();
    let ws = f.draw_rect(1, 1, 4, 3, '\u{1}', false);
    // cells (1,1),(2,1),(3,1) on the first row, (1,2) on the second.
    let addrs: Vec<usize> = ws.iter().map(|w| w.address).collect();
    assert_eq!(addrs, vec![0x1000 + 100 + 4, 0x1000 + 100 + 8, 0x1000 + 100 + 12, 0x1000 + 200 + 4]);
    assert!(ws.iter().all(|w| w.value == 0xFFFFFF));
}

#[test]
fn draw_rect_filled_uses_high_nibble() {
    let f = fb();
    let ws = f.draw_rect(0, 0, 2, 2, '\u{1}', true);
    assert_eq!(ws.len(), 4);
    assert_eq!(ws[3], PixelWrite { address: 0x1000 + 100 + 4, value: 0 });
    assert_eq!(ws[0].value, 0xFFFFFF);
}

#[test]
fn draw_rect_empty() {
    let f = fb();
    assert!(f.draw_rect(5, 5, 5, 9, '\u{1}', true).is_empty());
    assert!(f.draw_rect(5, 5, 3, 3, '\u{1}', true).is_empty());
}

fn kfb_with_pitch(pitch: isize) -> kfb::FrameBuffer {
    kfb::FrameBuffer {
        width: 10, height: 10, vwidth: 10, vheight: 10, bytes: 0, depth: 24,
        ignorex: 0, ignorey: 0, size: 0, pitch,
    }
}

#[test]
fn kernel_draw_pixel_offset() {
    let f = kfb_with_pitch(640);
    assert_eq!(f.draw_pixel(3, 2, 4), kfb::PixelWrite { offset: 1283, value: 0xAA0000 });
    assert_eq!(f.draw_pixel(-1, 0, 15), kfb::PixelWrite { offset: -1, value: 0xFFFFFF });
}

#[test]
fn kernel_draw_rect_fill_colours() {
    let f = kfb_with_pitch(10);
    let ws = f.draw_rect(0, 0, 3, 3, 0x0A, true);
    assert_eq!(ws.len(), 9);
    assert_eq!(ws[0], kfb::PixelWrite { offset: 0, value: vga_color(10) });
    // Inside, the colour is the high nibble of the border colour.
    assert_eq!(ws[4], kfb::PixelWrite { offset: 11, value: vga_color(0) });
    let outline = f.draw_rect(0, 0, 3, 3, 0x0A, false);
    let offs: Vec<isize> = outline.iter().map(|w| w.offset).collect();
    assert_eq!(offs, vec![0, 1, 2, 10, 20]);
}

#[test]
fn kernel_draw_demo_square() {
    let f = kfb_with_pitch(1000);
    let ws = f.draw_demo();
    assert_eq!(ws.len(), 10000);
    assert_eq!(ws[0], kfb::PixelWrite { offset: 100 * 1000 + 100, value: 0x0000AA });
    assert_eq!(ws[1].offset, 101 * 1000 + 100);
    assert_eq!(ws[100].offset, 100 * 1000 + 101);
    assert_eq!(ws[9999].offset, 199 * 1000 + 199);
}

#[test]
fn kernel_draw_char_glyph() {
    let f = kfb_with_pitch(100);
    let font = Font { glyphs: vec![vec![0u8; 4], vec![0b11, 0b10, 0, 0]], height: 2, width: 3 };
    let ws = f.draw_char(&font, '\u{1}', 5, 7, 0x4E);
    // rows hi = 0, 1; columns wi = 0, 1, 2 (the font width is 3).
    assert_eq!(ws.len(), 6);
    let offs: Vec<isize> = ws.iter().map(|w| w.offset).collect();
    assert_eq!(offs, vec![705, 706, 707, 805, 806, 807]);
    // hi = 0: mask 0 never matches, so the background nibble (4).
    assert!(ws[..3].iter().all(|w| w.value == vga_color(4)));
    // hi = 1: mask 1 << wi: column 0 has bit 0 of 0b11, column 1 has bit 1 of 0b10.
    assert_eq!(ws[3].value, vga_color(14));
    assert_eq!(ws[4].value, vga_color(14));
    assert_eq!(ws[5].value, vga_color(4));
}

#[test]
fn kernel_draw_char_short_glyph() {
    let f = kfb_with_pitch(100);
    let font = Font { glyphs: vec![vec![1u8]], height: 1, width: 8 };
    let ws = f.draw_char(&font, '\u{0}', 0, 0, 0x12);
    assert_eq!(ws, vec![kfb::PixelWrite { offset: 0, value: vga_color(1) }]);
}

#[test]
fn kernel_new_descriptor() {
    let f = kfb::FrameBuffer::new(1920, 1080);
    assert_eq!((f.width, f.height, f.vwidth, f.vheight), (1920, 1080, 1920, 1080));
    assert_eq!(f.depth, 24);
    assert_eq!((f.bytes, f.ignorex, f.ignorey, f.size, f.pitch), (0, 0, 0, 0, 0));
}

#[test]
fn rect_counts() {
    let f = fb();
    assert_eq!(f.draw_rect(1, 2, 5, 5, '\u{1}', false).len(), 4 + 3 - 1);
    assert_eq!(f.draw_rect(1, 2, 5, 5, '\u{1}', true).len(), 4 * 3);
    let k = kfb_with_pitch(100);
    let ws = k.draw_rect(-2, -1, 3, 2, 5, false);
    assert_eq!(ws.len(), 5 + 3 - 1);
    let mut offs: Vec<isize> = ws.iter().map(|w| w.offset).collect();
    offs.sort();
    offs.dedup();
    assert_eq!(offs.len(), ws.len());
}
