//! The framebuffer set up through the VideoCore mailbox: the request that asks for it, the
//! reading of the reply, and the pixel writes that drawing makes.
use vstd::prelude::*;
use crate::grid::{
    grid_cells, row_cells, lemma_row_step, lemma_grid_step, positions, keep_cell, rect_keep, before,
    lemma_grid_as_positions, lemma_positions_ordered, lemma_rect_count,
};
use crate::mail::{
    MBOX_REQUEST, MBOX_TAG_SETPHYWH, MBOX_TAG_SETVIRTWH, MBOX_TAG_SETVIRTOFF, MBOX_TAG_SETDEPTH,
    MBOX_TAG_SETPXLORDR, MBOX_TAG_GETFB, MBOX_TAG_GETPITCH, MBOX_TAG_LAST,
};

verus! {

/// The 16-colour VGA palette, as 24-bit RGB values.
pub open spec fn vga_palette(i: nat) -> u32 {
    if i == 0 {
        0x000000
    } else if i == 1 {
        0x0000AA
    } else if i == 2 {
        0x00AA00
    } else if i == 3 {
        0x00AAAA
    } else if i == 4 {
        0xAA0000
    } else if i == 5 {
        0xAA00AA
    } else if i == 6 {
        0xAA5500
    } else if i == 7 {
        0xAAAAAA
    } else if i == 8 {
        0x555555
    } else if i == 9 {
        0x5555FF
    } else if i == 10 {
        0x55FF55
    } else if i == 11 {
        0x55FFFF
    } else if i == 12 {
        0xFF5555
    } else if i == 13 {
        0xFF55FF
    } else if i == 14 {
        0xFFFF55
    } else {
        0xFFFFFF
    }
}

/// The VGA palette: for colours 0 to 7 each of blue, green and red (bits 0, 1, 2 of the
/// number) is 0xAA when its bit is set and 0 otherwise, except the green of brown (6), which is
/// 0x55; colours 8 to 15 are the bright ones, with 0xFF for a set bit and 0x55 otherwise.
pub proof fn lemma_vga_palette()
    ensures
        forall|i: nat|
            i < 16 ==> {
                let v = #[trigger] vga_palette(i);
                let lo: int = if i < 8 { 0 } else { 0x55 };
                let hi: int = if i < 8 { 0xAA } else { 0xFF };
                &&& v % 256 == (if i % 2 == 1 { hi } else { lo })
                &&& (v / 256) % 256 == (if i == 6 { 0x55 } else if (i / 2) % 2 == 1 { hi } else { lo })
                &&& v / 65536 == (if (i / 4) % 2 == 1 { hi } else { lo })
            },
{
    assert forall|i: nat| i < 16 implies ({
        let v = #[trigger] vga_palette(i);
        let lo: int = if i < 8 { 0 } else { 0x55 };
        let hi: int = if i < 8 { 0xAA } else { 0xFF };
        &&& v % 256 == (if i % 2 == 1 { hi } else { lo })
        &&& (v / 256) % 256 == (if i == 6 { 0x55 } else if (i / 2) % 2 == 1 { hi } else { lo })
        &&& v / 65536 == (if (i / 4) % 2 == 1 { hi } else { lo })
    }) by {
        if i == 0 {
            assert(vga_palette(i) == 0x0);
        } else if i == 1 {
            assert(vga_palette(i) == 0xaa);
        } else if i == 2 {
            assert(vga_palette(i) == 0xaa00);
        } else if i == 3 {
            assert(vga_palette(i) == 0xaaaa);
        } else if i == 4 {
            assert(vga_palette(i) == 0xaa0000);
        } else if i == 5 {
            assert(vga_palette(i) == 0xaa00aa);
        } else if i == 6 {
            assert(vga_palette(i) == 0xaa5500);
        } else if i == 7 {
            assert(vga_palette(i) == 0xaaaaaa);
        } else if i == 8 {
            assert(vga_palette(i) == 0x555555);
        } else if i == 9 {
            assert(vga_palette(i) == 0x5555ff);
        } else if i == 10 {
            assert(vga_palette(i) == 0x55ff55);
        } else if i == 11 {
            assert(vga_palette(i) == 0x55ffff);
        } else if i == 12 {
            assert(vga_palette(i) == 0xff5555);
        } else if i == 13 {
            assert(vga_palette(i) == 0xff55ff);
        } else if i == 14 {
            assert(vga_palette(i) == 0xffff55);
        } else if i == 15 {
            assert(vga_palette(i) == 0xffffff);
        }
    }
}

/// Entry `i` of the VGA palette.
pub fn vga_color(i: usize) -> (c: u32)
    requires
        i < 16,
    ensures
        c == vga_palette(i as nat),
{
    if i == 0 {
        0x000000
    } else if i == 1 {
        0x0000AA
    } else if i == 2 {
        0x00AA00
    } else if i == 3 {
        0x00AAAA
    } else if i == 4 {
        0xAA0000
    } else if i == 5 {
        0xAA00AA
    } else if i == 6 {
        0xAA5500
    } else if i == 7 {
        0xAAAAAA
    } else if i == 8 {
        0x555555
    } else if i == 9 {
        0x5555FF
    } else if i == 10 {
        0x55FF55
    } else if i == 11 {
        0x55FFFF
    } else if i == 12 {
        0xFF5555
    } else if i == 13 {
        0xFF55FF
    } else if i == 14 {
        0xFFFF55
    } else {
        0xFFFFFF
    }
}

/// One 32-bit store into framebuffer memory.
#[derive(Debug, Clone, Copy, PartialEq, Eq)]
pub struct PixelWrite {
    /// The address written.
    pub address: usize,
    /// The colour stored there.
    pub value: u32,
}

/// A framebuffer granted by the VideoCore.
pub struct FrameBuffer {
    /// Display width
    pub width: usize,
    /// Display height
    pub height: usize,
    /// Is the display RGB
    pub is_rgb: bool,
    /// Number of bytes per line
    pub pitch: usize,
    /// Address of the first pixel
    pub fb: usize,
}

/// The words of the mailbox message that asks for a `width` x `height` virtual framebuffer of
/// 32 bits per pixel, in RGB order, on a 1920 x 1080 display, and for its address and pitch.
pub open spec fn request_message(width: usize, height: usize) -> Seq<usize> {
    seq![
        140usize, MBOX_REQUEST,
        MBOX_TAG_SETPHYWH, 8, 0, 1920, 1080,
        MBOX_TAG_SETVIRTWH, 8, 8, width, height,
        MBOX_TAG_SETVIRTOFF, 8, 8, 0, 0,
        MBOX_TAG_SETDEPTH, 4, 4, 32,
        MBOX_TAG_SETPXLORDR, 4, 4, 1,
        MBOX_TAG_GETFB, 8, 8, 4096, 0,
        MBOX_TAG_GETPITCH, 4, 4, 0,
        MBOX_TAG_LAST,
    ]
}

/// Where the `k`-th tag of a property message stands: the first at word 2, each next one after
/// the previous tag's three header words (tag, value buffer size in bytes, request code) and its
/// value buffer.
pub open spec fn tag_index(m: Seq<usize>, k: nat) -> int
    decreases k,
{
    if k == 0 {
        2
    } else {
        let t = tag_index(m, (k - 1) as nat);
        t + 3 + m[t + 1] / 4
    }
}

/// The framebuffer request is a property message of 35 words whose first word is its size in
/// bytes and whose second is the request code; walking its tags by their buffer sizes finds, in
/// order: the physical size with 1920 x 1080, the virtual size with `width` x `height`, the
/// virtual offset with 0, 0, the depth with 32 bits per pixel, the pixel order with 1 (RGB), the
/// framebuffer allocation with alignment 4096, the pitch, and the end tag in the last word. The
/// value words are those the reply is read from: the virtual width and height words 10 and 11,
/// the depth word 20, the pixel order word 24, the framebuffer address word 28 and the pitch
/// word 33.
pub proof fn lemma_request_tags(width: usize, height: usize)
    ensures
        ({
            let m = request_message(width, height);
            &&& m.len() == 35
            &&& m[0] == 4 * m.len()
            &&& m[1] == MBOX_REQUEST
            &&& m[tag_index(m, 0)] == MBOX_TAG_SETPHYWH
            &&& m[tag_index(m, 0) + 3] == 1920 && m[tag_index(m, 0) + 4] == 1080
            &&& m[tag_index(m, 1)] == MBOX_TAG_SETVIRTWH
            &&& m[tag_index(m, 1) + 3] == width && m[tag_index(m, 1) + 4] == height
            &&& m[tag_index(m, 2)] == MBOX_TAG_SETVIRTOFF
            &&& m[tag_index(m, 2) + 3] == 0 && m[tag_index(m, 2) + 4] == 0
            &&& m[tag_index(m, 3)] == MBOX_TAG_SETDEPTH
            &&& m[tag_index(m, 3) + 3] == 32
            &&& m[tag_index(m, 4)] == MBOX_TAG_SETPXLORDR
            &&& m[tag_index(m, 4) + 3] == 1
            &&& m[tag_index(m, 5)] == MBOX_TAG_GETFB
            &&& m[tag_index(m, 5) + 3] == 4096
            &&& m[tag_index(m, 6)] == MBOX_TAG_GETPITCH
            &&& tag_index(m, 7) == m.len() - 1
            &&& m[tag_index(m, 7)] == MBOX_TAG_LAST
            &&& tag_index(m, 1) + 3 == 10 && tag_index(m, 1) + 4 == 11
            &&& tag_index(m, 3) + 3 == 20
            &&& tag_index(m, 4) + 3 == 24
            &&& tag_index(m, 5) + 3 == 28
            &&& tag_index(m, 6) + 3 == 33
        }),
{
    let m = request_message(width, height);
    assert(m[3] == 8 && m[8] == 8 && m[13] == 8 && m[18] == 4 && m[22] == 4 && m[26] == 8
        && m[31] == 4);
    assert(tag_index(m, 0) == 2);
    assert(tag_index(m, 1) == 7);
    assert(tag_index(m, 2) == 12);
    assert(tag_index(m, 3) == 17);
    assert(tag_index(m, 4) == 21);
    assert(tag_index(m, 5) == 25);
    assert(tag_index(m, 6) == 30);
    assert(tag_index(m, 7) == 34);
}

impl FrameBuffer {
    /// The mailbox message that asks for a framebuffer (35 words, the first holding its length
    /// in bytes).
    pub fn mailbox_request(width: usize, height: usize) -> (m: Vec<usize>)
        ensures
            m@ == request_message(width, height),
    {
        let m = vec![
            35 * 4, MBOX_REQUEST,
            MBOX_TAG_SETPHYWH, 8, 0, 1920, 1080,
            MBOX_TAG_SETVIRTWH, 8, 8, width, height,
            MBOX_TAG_SETVIRTOFF, 8, 8, 0, 0,
            MBOX_TAG_SETDEPTH, 4, 4, 32,
            MBOX_TAG_SETPXLORDR, 4, 4, 1,
            MBOX_TAG_GETFB, 8, 8, 4096, 0,
            MBOX_TAG_GETPITCH, 4, 4, 0,
            MBOX_TAG_LAST,
        ];
        assert(m@ =~= request_message(width, height));
        m
    }

    /// The framebuffer that the mailbox granted. `sent` is the mailbox buffer as it stood
    /// before the call, `call_ok` what the call reported, `mailbox` the buffer after it. There
    /// is a framebuffer when the call succeeded and the sent buffer asked for 32 bits per pixel
    /// and a non-null framebuffer. Then the framebuffer address in word 28 of the mailbox is
    /// turned from a GPU address into an ARM address (its top two bits cleared), in the
    /// buffer itself, and the framebuffer is read from the buffer; otherwise the buffer is left
    /// as it is.
    pub fn from_mailbox(sent: &[usize], call_ok: bool, mailbox: &mut [usize]) -> (r: Option<FrameBuffer>)
        requires
            sent@.len() == 36,
            old(mailbox)@.len() == 36,
        ensures
            r.is_some() <==> call_ok && sent@[20] == 32 && sent@[28] != 0,
            r.is_some() ==> final(mailbox)@ == old(mailbox)@.update(28, old(mailbox)@[28] & 0x3FFFFFFF),
            r.is_none() ==> final(mailbox)@ == old(mailbox)@,
            r matches Some(f) ==> {
                &&& f.width == old(mailbox)@[10]
                &&& f.height == old(mailbox)@[11]
                &&& f.pitch == old(mailbox)@[33]
                &&& f.is_rgb == (old(mailbox)@[24] != 0)
                &&& f.fb == old(mailbox)@[28] & 0x3FFFFFFF
            },
    {
        let fbinfo_ptr = sent[28];
        let bbl = sent[20];
        if call_ok && bbl == 32 && fbinfo_ptr != 0 {
            let arm_address = mailbox[28] & 0x3FFFFFFF;
            mailbox[28] = arm_address;
            Some(FrameBuffer {
                width: mailbox[10],
                height: mailbox[11],
                pitch: mailbox[33],
                is_rgb: mailbox[24] != 0,
                fb: mailbox[28],
            })
        } else {
            None
        }
    }

    /// Whether the pixel at `(x, y)` lies at an address that fits in a `usize` and palette
    /// slot `index * 15` exists.
    pub open spec fn pixel_ok(&self, x: int, y: int, index: nat) -> bool {
        &&& self.fb + y * self.pitch + x * 4 <= usize::MAX
        &&& index * 15 < 16
    }

    /// The store that draws the pixel at `(x, y)` with palette slot `index * 15`: at
    /// `y * pitch + x * 4` bytes from the base.
    pub open spec fn pixel_spec(&self, x: int, y: int, index: nat) -> PixelWrite {
        PixelWrite {
            address: (self.fb + y * self.pitch + x * 4) as usize,
            value: vga_palette(index * 15),
        }
    }

    /// Pixels are 32-bit words: the next pixel of a line is 4 bytes further, the same pixel of
    /// the next line `pitch` bytes further; colour 0 is black and colour 1 white.
    pub proof fn lemma_pixel_layout(&self, x: int, y: int, index: nat)
        requires
            self.pixel_ok(x, y, index),
            0 <= x,
            0 <= y,
        ensures
            self.pixel_ok(x + 1, y, index) ==> self.pixel_spec(x + 1, y, index).address
                == self.pixel_spec(x, y, index).address + 4,
            self.pixel_ok(x, y + 1, index) ==> self.pixel_spec(x, y + 1, index).address
                == self.pixel_spec(x, y, index).address + self.pitch,
            self.pixel_spec(x, y, index).address == self.fb + y * self.pitch + x * 4,
            index == 0 ==> self.pixel_spec(x, y, index).value == 0,
            index == 1 ==> self.pixel_spec(x, y, index).value == 0xFFFFFF,
    {
        assert((y + 1) * self.pitch == y * self.pitch + self.pitch) by (nonlinear_arith);
        vstd::arithmetic::mul::lemma_mul_nonnegative(y, self.pitch as int);
        vstd::arithmetic::mul::lemma_mul_nonnegative(y + 1, self.pitch as int);
    }

    /// A filled rectangle's inside is drawn in the colour of bits 4 to 7 of `attr`: its high
    /// nibble.
    pub proof fn lemma_fill_nibble(attr: char)
        ensures
            (((attr as u32) & 0xf0) >> 4) as nat == ((attr as u32) / 16) % 16,
    {
        let a = attr as u32;
        assert((a & 0xf0) >> 4 == (a / 16) % 16) by (bit_vector);
    }

    /// The store that draws a pixel whose colour is `attr`.
    pub fn draw_pixel(&self, x: usize, y: usize, attr: char) -> (w: PixelWrite)
        requires
            self.pixel_ok(x as int, y as int, attr as nat),
        ensures
            w == self.pixel_spec(x as int, y as int, attr as nat),
    {
        self.pixel_at(x, y, attr as usize)
    }

    fn pixel_at(&self, x: usize, y: usize, index: usize) -> (w: PixelWrite)
        requires
            self.pixel_ok(x as int, y as int, index as nat),
        ensures
            w == self.pixel_spec(x as int, y as int, index as nat),
    {
        proof {
            vstd::arithmetic::mul::lemma_mul_nonnegative(y as int, self.pitch as int);
        }
        let offs = (y * self.pitch) + (x * 4);
        PixelWrite { address: self.fb + offs, value: vga_color(index * 0x0F) }
    }

    /// The palette index a rectangle cell `(r, c)` is drawn with, if it is drawn: the border
    /// colour on the first row and the first column (the cells at `y1` or `x1`), the fill
    /// colour (bits 4 to 7 of `attr`) inside when `fill` is set.
    pub open spec fn rect_index(x1: usize, y1: usize, x2: usize, y2: usize, attr: char, fill: bool,
        r: int, c: int) -> Option<nat> {
        if c == 0 || r == 0 {
            Some(attr as nat)
        } else if fill {
            Some((((attr as u32) & 0xf0) >> 4) as nat)
        } else {
            None
        }
    }

    /// The stores a rectangle cell `(r, c)` makes.
    pub open spec fn rect_cell(&self, x1: usize, y1: usize, x2: usize, y2: usize, attr: char,
        fill: bool) -> spec_fn(int, int) -> Seq<PixelWrite> {
        |r: int, c: int|
            match Self::rect_index(x1, y1, x2, y2, attr, fill, r, c) {
                Some(i) => seq![self.pixel_spec(x1 + c, y1 + r, i)],
                None => Seq::empty(),
            }
    }

    /// Whether every pixel that drawing the rectangle stores can be drawn.
    pub open spec fn rect_ok(&self, x1: usize, y1: usize, x2: usize, y2: usize, attr: char,
        fill: bool) -> bool {
        forall|r: int, c: int|
            0 <= r < y2 - y1 && 0 <= c < x2 - x1 ==>
            match #[trigger] Self::rect_index(x1, y1, x2, y2, attr, fill, r, c) {
                Some(i) => self.pixel_ok(x1 + c, y1 + r, i),
                None => true,
            }
    }

    /// The store that draws kept rectangle cell `p` (row, column).
    pub open spec fn rect_write(&self, x1: usize, y1: usize, x2: usize, y2: usize, attr: char, fill: bool)
        -> spec_fn((int, int)) -> PixelWrite {
        |p: (int, int)|
            self.pixel_spec(x1 + p.1, y1 + p.0, Self::rect_index(x1, y1, x2, y2, attr, fill, p.0, p.1)->0)
    }

    /// What drawing a rectangle does: it draws the cells of the first row and the first column,
    /// and all the others too when `fill` is set, each once, row by row; so it draws nothing
    /// exactly when `x1 >= x2` or `y1 >= y2`, `(x2 - x1) * (y2 - y1)` pixels when filled, and
    /// `(x2 - x1) + (y2 - y1) - 1` otherwise.
    pub proof fn lemma_rect_drawing(&self, x1: usize, y1: usize, x2: usize, y2: usize, attr: char, fill: bool)
        ensures
            ({
                let rows: nat = if y1 < y2 { (y2 - y1) as nat } else { 0 };
                let cols: nat = if x1 < x2 { (x2 - x1) as nat } else { 0 };
                let ws = grid_cells(rows, cols, self.rect_cell(x1, y1, x2, y2, attr, fill));
                let cells = positions(rows, cols, rect_keep(fill));
                &&& ws == cells.map_values(self.rect_write(x1, y1, x2, y2, attr, fill))
                &&& ws.len() == (if x1 >= x2 || y1 >= y2 {
                    0
                } else if fill {
                    (rows * cols) as int
                } else {
                    rows + cols - 1
                })
                &&& (ws.len() == 0 <==> (x1 >= x2 || y1 >= y2))
                &&& forall|i: int|
                    0 <= i < cells.len() ==> {
                        let q = #[trigger] cells[i];
                        &&& 0 <= q.0 < rows
                        &&& 0 <= q.1 < cols
                        &&& (q.0 == 0 || q.1 == 0 || fill)
                    }
                &&& forall|i: int, j: int|
                    0 <= i < j < cells.len() ==> #[trigger] cells[i] != #[trigger] cells[j]
            }),
    {
        let rows: nat = if y1 < y2 { (y2 - y1) as nat } else { 0 };
        let cols: nat = if x1 < x2 { (x2 - x1) as nat } else { 0 };
        let cell = self.rect_cell(x1, y1, x2, y2, attr, fill);
        let keep = rect_keep(fill);
        let f = self.rect_write(x1, y1, x2, y2, attr, fill);
        assert forall|r: int, c: int| #[trigger] cell(r, c) == keep_cell(keep)(r, c).map_values(f) by {
            assert(cell(r, c) =~= keep_cell(keep)(r, c).map_values(f));
        }
        lemma_grid_as_positions(rows, cols, keep, cell, f);
        lemma_positions_ordered(rows, cols, keep);
        lemma_rect_count(rows, cols, fill);
        let cells = positions(rows, cols, keep);
        assert forall|i: int, j: int| 0 <= i < j < cells.len() implies #[trigger] cells[i] != #[trigger] cells[j] by {
            assert(before(cells[i], cells[j]));
        }
        if x1 < x2 && y1 < y2 {
            assert(rows * cols > 0) by (nonlinear_arith)
                requires
                    rows > 0,
                    cols > 0,
            ;
        }
    }

    /// Draw a rectangle to the framebuffer: the stores, row by row, that draw the cells
    /// `x1 <= x < x2`, `y1 <= y < y2`.
    pub fn draw_rect(&self, x1: usize, y1: usize, x2: usize, y2: usize, attr: char, fill: bool)
        -> (ws: Vec<PixelWrite>)
        requires
            self.rect_ok(x1, y1, x2, y2, attr, fill),
        ensures
            ws@ == grid_cells(
                if y1 < y2 { (y2 - y1) as nat } else { 0 },
                if x1 < x2 { (x2 - x1) as nat } else { 0 },
                self.rect_cell(x1, y1, x2, y2, attr, fill),
            ),
    {
        let ghost cell = self.rect_cell(x1, y1, x2, y2, attr, fill);
        let ghost cols: nat = if x1 < x2 { (x2 - x1) as nat } else { 0 };
        let mut ws: Vec<PixelWrite> = Vec::new();
        let mut y = y1;
        while y < y2
            invariant
                y1 <= y,
                y1 < y2 ==> y <= y2,
                y1 >= y2 ==> y == y1,
                self.rect_ok(x1, y1, x2, y2, attr, fill),
                cell == self.rect_cell(x1, y1, x2, y2, attr, fill),
                cols == (if x1 < x2 { (x2 - x1) as nat } else { 0nat }),
                ws@ == grid_cells((y - y1) as nat, cols, cell),
            decreases y2 - y,
        {
            let mut x = x1;
            while x < x2
                invariant
                    y1 <= y < y2,
                    x1 <= x,
                    x1 < x2 ==> x <= x2,
                    x1 >= x2 ==> x == x1,
                    self.rect_ok(x1, y1, x2, y2, attr, fill),
                    cell == self.rect_cell(x1, y1, x2, y2, attr, fill),
                    cols == (if x1 < x2 { (x2 - x1) as nat } else { 0nat }),
                    ws@ == grid_cells((y - y1) as nat, cols, cell) + row_cells(
                        y - y1,
                        (x - x1) as nat,
                        cell,
                    ),
                decreases x2 - x,
            {
                let ghost r = y - y1;
                let ghost c = x - x1;
                let ghost before = ws@;
                proof {
                    lemma_row_step(grid_cells((y - y1) as nat, cols, cell), r, c as nat, cell);
                    assert(Self::rect_index(x1, y1, x2, y2, attr, fill, r, c) is Some ==>
                        self.pixel_ok(x as int, y as int,
                            Self::rect_index(x1, y1, x2, y2, attr, fill, r, c)->0));
                }
                if (x == x1 || x == x2) || (y == y1 || y == y2) {
                    let w = self.draw_pixel(x, y, attr);
                    ws.push(w);
                } else if fill {
                    let code = attr as u32;
                    let index = (code & 0xf0) >> 4;
                    assert((code & 0xf0) >> 4 <= 15) by (bit_vector);
                    let w = self.pixel_at(x, y, index as usize);
                    ws.push(w);
                }
                assert(ws@ =~= before + cell(r, c));
                x += 1;
            }
            proof {
                lemma_grid_step((y - y1) as nat, cols, cell);
            }
            y += 1;
        }
        ws
    }
}

} // verus!
