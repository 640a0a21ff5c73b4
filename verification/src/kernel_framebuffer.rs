//! The kernel's framebuffer: the pixel stores that drawing a demo square, a rectangle or a
//! character of a bitmap font makes, as offsets in 32-bit words from the framebuffer's base.
use vstd::prelude::*;
use crate::framebuffer::{vga_palette, vga_color};
use crate::grid::{
    grid_cells, row_cells, lemma_row_step, lemma_grid_step, positions, keep_cell, rect_keep, before,
    lemma_grid_as_positions, lemma_positions_ordered, lemma_rect_count,
};

verus! {

/// One 32-bit store into framebuffer memory.
#[derive(Debug, Clone, Copy, PartialEq, Eq)]
pub struct PixelWrite {
    /// Offset from the framebuffer's base, in 32-bit words.
    pub offset: isize,
    /// The colour stored there.
    pub value: u32,
}

/// A bitmap font: one glyph per character code, each glyph a row of bit masks.
pub struct Font {
    /// The glyph of character code `i` is `glyphs[i]`.
    pub glyphs: Vec<Vec<u8>>,
    /// Glyph height in pixels.
    pub height: usize,
    /// Glyph width in pixels.
    pub width: usize,
}

/// The structure for interaction with the framebuffer
pub struct FrameBuffer {
    /// Display width
    pub width: u32,
    /// Display height
    pub height: u32,
    pub vwidth: u32,
    pub vheight: u32,
    pub bytes: u32,
    pub depth: u32,
    pub ignorex: u32,
    pub ignorey: u32,
    pub size: u32,
    /// Number of 32-bit words per line
    pub pitch: isize,
}

/// Whether `v` fits in an `isize`.
pub open spec fn in_isize(v: int) -> bool {
    isize::MIN <= v <= isize::MAX
}

/// The columns of a glyph that are drawn: the font width, or fewer when the glyph is shorter.
pub open spec fn glyph_cols(font: &Font, glyph: Seq<u8>) -> nat {
    if font.width < glyph.len() {
        font.width as nat
    } else {
        glyph.len()
    }
}

impl FrameBuffer {
    /// Initialize a new framebuffer: the descriptor of a `width` x `height` display, with the
    /// virtual size equal to it and 24 bits per pixel. Pitch, size and byte count are 0 until
    /// the GPU grants the buffer.
    pub fn new(width: u32, height: u32) -> (fb: FrameBuffer)
        ensures
            fb.width == width,
            fb.height == height,
            fb.vwidth == width,
            fb.vheight == height,
            fb.depth == 24,
            fb.bytes == 0,
            fb.ignorex == 0,
            fb.ignorey == 0,
            fb.size == 0,
            fb.pitch == 0,
    {
        FrameBuffer {
            width,
            height,
            vwidth: width,
            vheight: height,
            depth: 24,
            bytes: 0,
            ignorex: 0,
            ignorey: 0,
            size: 0,
            pitch: 0,
        }
    }

    /// Whether the pixel at `(x, y)` has an offset that fits in an `isize` and `attr` names a
    /// palette entry.
    pub open spec fn pixel_ok(&self, x: int, y: int, attr: nat) -> bool {
        &&& in_isize(y * self.pitch)
        &&& in_isize(y * self.pitch + x)
        &&& attr < 16
    }

    /// The store that draws the pixel at `(x, y)` in palette colour `attr`.
    pub open spec fn pixel_spec(&self, x: int, y: int, attr: nat) -> PixelWrite {
        PixelWrite { offset: (y * self.pitch + x) as isize, value: vga_palette(attr) }
    }

    /// Pixels are words: the next pixel of a line is one word further, the same pixel of the
    /// next line `pitch` words further; the colour is palette entry `attr`.
    pub proof fn lemma_pixel_layout(&self, x: int, y: int, attr: nat)
        ensures
            self.pixel_ok(x, y, attr) && self.pixel_ok(x + 1, y, attr) ==> self.pixel_spec(x + 1, y, attr).offset
                == self.pixel_spec(x, y, attr).offset + 1,
            self.pixel_ok(x, y, attr) && self.pixel_ok(x, y + 1, attr) ==> self.pixel_spec(x, y + 1, attr).offset
                == self.pixel_spec(x, y, attr).offset + self.pitch,
            self.pixel_ok(x, y, attr) ==> self.pixel_spec(x, y, attr).offset == y * self.pitch + x,
            self.pixel_spec(x, y, attr).value == vga_palette(attr),
    {
        assert((y + 1) * self.pitch == y * self.pitch + self.pitch) by (nonlinear_arith);
    }

    /// The demo square is 10000 pixels in colour 1 (dark blue), 100 columns of 100: store
    /// `100 * r + c` draws the pixel at `(100 + r, 100 + c)`.
    pub proof fn lemma_demo_square(&self)
        ensures
            grid_cells(100, 100, self.demo_cell()).len() == 10000,
            forall|r: int, c: int|
                0 <= r < 100 && 0 <= c < 100 ==> #[trigger] grid_cells(100, 100, self.demo_cell())[r * 100 + c]
                    == self.pixel_spec(100 + r, 100 + c, 1),
            vga_palette(1) == 0x0000AA,
    {
        let cell = self.demo_cell();
        assert forall|r: int, c: int| 0 <= r < 100 && 0 <= c < 100 implies #[trigger] cell(r, c).len() == 1 by {}
        crate::grid::lemma_grid_unit(100, 100, cell);
    }

    /// A rectangle's fill colour is the high nibble of `attr`; a glyph pixel is drawn in the
    /// low nibble of `attr` where its column's glyph byte shares a bit with `hi << wi`, and in
    /// the high nibble elsewhere.
    pub proof fn lemma_attr_nibbles(attr: usize, glyph: Seq<u8>, hi: int, wi: int)
        ensures
            ((attr & 0xf0) >> 4) as nat == (attr / 16) % 16,
            (attr & 0x0F) as nat == attr % 16,
            Self::glyph_attr(glyph, attr, hi, wi) == (if (glyph[wi] as usize) & ((hi as usize) << (wi as usize)) == 0 {
                (attr / 16) % 16
            } else {
                attr % 16
            }),
    {
        assert((attr & 0xf0) >> 4 == (attr / 16) % 16) by (bit_vector);
        assert(attr & 0x0F == attr % 16) by (bit_vector);
    }

    /// Draw a pixel to the framebuffer: the store that does it.
    pub fn draw_pixel(&self, x: isize, y: isize, attr: usize) -> (w: PixelWrite)
        requires
            self.pixel_ok(x as int, y as int, attr as nat),
        ensures
            w == self.pixel_spec(x as int, y as int, attr as nat),
    {
        let offs = (y * self.pitch) + x;
        PixelWrite { offset: offs, value: vga_color(attr) }
    }

    /// The stores of the demo square, column `r` of it, row `c`.
    pub open spec fn demo_cell(&self) -> spec_fn(int, int) -> Seq<PixelWrite> {
        |r: int, c: int| seq![self.pixel_spec(100 + r, 100 + c, 1)]
    }

    /// Whether every pixel of the demo square can be drawn.
    pub open spec fn demo_ok(&self) -> bool {
        forall|r: int, c: int| 0 <= r < 100 && 0 <= c < 100 ==> #[trigger] self.pixel_ok(100 + r, 100 + c, 1)
    }

    /// Test that it works: the stores that fill the square `100 <= x, y < 200` with palette
    /// colour 1, column by column.
    pub fn draw_demo(&self) -> (ws: Vec<PixelWrite>)
        requires
            self.demo_ok(),
        ensures
            ws@ == grid_cells(100, 100, self.demo_cell()),
    {
        let ghost cell = self.demo_cell();
        let mut ws: Vec<PixelWrite> = Vec::new();
        let mut x: isize = 100;
        while x < 200
            invariant
                100 <= x <= 200,
                self.demo_ok(),
                cell == self.demo_cell(),
                ws@ == grid_cells((x - 100) as nat, 100, cell),
            decreases 200 - x,
        {
            let mut y: isize = 100;
            while y < 200
                invariant
                    100 <= x < 200,
                    100 <= y <= 200,
                    self.demo_ok(),
                    cell == self.demo_cell(),
                    ws@ == grid_cells((x - 100) as nat, 100, cell) + row_cells(
                        x - 100,
                        (y - 100) as nat,
                        cell,
                    ),
                decreases 200 - y,
            {
                let ghost before = ws@;
                proof {
                    lemma_row_step(grid_cells((x - 100) as nat, 100, cell), x - 100, (y - 100) as nat, cell);
                    assert(self.pixel_ok(100 + (x - 100), 100 + (y - 100), 1));
                }
                let w = self.draw_pixel(x, y, 1);
                ws.push(w);
                assert(ws@ =~= before + cell(x - 100, y - 100));
                y += 1;
            }
            proof {
                lemma_grid_step((x - 100) as nat, 100, cell);
            }
            x += 1;
        }
        ws
    }

    /// The palette colour a rectangle cell `(r, c)` is drawn with, if it is drawn: `attr` on
    /// the first row and the first column (the cells at `y1` or `x1`), bits 4 to 7 of `attr`
    /// inside when `fill` is set.
    pub open spec fn rect_attr(x1: isize, y1: isize, x2: isize, y2: isize, attr: usize, fill: bool,
        r: int, c: int) -> Option<nat> {
        if c == 0 || r == 0 {
            Some(attr as nat)
        } else if fill {
            Some(((attr & 0xf0) >> 4) as nat)
        } else {
            None
        }
    }

    /// The stores a rectangle cell `(r, c)` makes.
    pub open spec fn rect_cell(&self, x1: isize, y1: isize, x2: isize, y2: isize, attr: usize,
        fill: bool) -> spec_fn(int, int) -> Seq<PixelWrite> {
        |r: int, c: int|
            match Self::rect_attr(x1, y1, x2, y2, attr, fill, r, c) {
                Some(a) => seq![self.pixel_spec(x1 + c, y1 + r, a)],
                None => Seq::empty(),
            }
    }

    /// Whether every pixel that drawing the rectangle stores can be drawn.
    pub open spec fn rect_ok(&self, x1: isize, y1: isize, x2: isize, y2: isize, attr: usize,
        fill: bool) -> bool {
        forall|r: int, c: int|
            0 <= r < y2 - y1 && 0 <= c < x2 - x1 ==>
            match #[trigger] Self::rect_attr(x1, y1, x2, y2, attr, fill, r, c) {
                Some(a) => self.pixel_ok(x1 + c, y1 + r, a),
                None => true,
            }
    }

    /// The store that draws kept rectangle cell `p` (row, column).
    pub open spec fn rect_write(&self, x1: isize, y1: isize, x2: isize, y2: isize, attr: usize, fill: bool)
        -> spec_fn((int, int)) -> PixelWrite {
        |p: (int, int)|
            self.pixel_spec(x1 + p.1, y1 + p.0, Self::rect_attr(x1, y1, x2, y2, attr, fill, p.0, p.1)->0)
    }

    /// What drawing a rectangle does: it draws the cells of the first row and the first column,
    /// and all the others too when `fill` is set, each once, row by row; so it draws nothing
    /// exactly when `x1 >= x2` or `y1 >= y2`, `(x2 - x1) * (y2 - y1)` pixels when filled, and
    /// `(x2 - x1) + (y2 - y1) - 1` otherwise.
    pub proof fn lemma_rect_drawing(&self, x1: isize, y1: isize, x2: isize, y2: isize, attr: usize, fill: bool)
        ensures
            ({
                let rows: nat = if y1 < y2 { (y2 - y1) as nat } else { 0 };
                let cols: nat = if x1 < x2 { (x2 - x1) as nat } else { 0 };
                let ws = grid_cells(rows, cols, self.rect_cell(x1, y1, x2, y2, attr, fill));
                let cells = positions(rows, cols, rect_keep(fill));
                &&& ws == cells.map_values(self.rect_write(x1, y1, x2, y2, attr, fill))
                &&& ws.len() == (if x1 >= x2 || y1 >= y2 {
                    0
                } else if fill {
                    (rows * cols) as int
                } else {
                    rows + cols - 1
                })
                &&& (ws.len() == 0 <==> (x1 >= x2 || y1 >= y2))
                &&& forall|i: int|
                    0 <= i < cells.len() ==> {
                        let q = #[trigger] cells[i];
                        &&& 0 <= q.0 < rows
                        &&& 0 <= q.1 < cols
                        &&& (q.0 == 0 || q.1 == 0 || fill)
                    }
                &&& forall|i: int, j: int|
                    0 <= i < j < cells.len() ==> #[trigger] cells[i] != #[trigger] cells[j]
            }),
    {
        let rows: nat = if y1 < y2 { (y2 - y1) as nat } else { 0 };
        let cols: nat = if x1 < x2 { (x2 - x1) as nat } else { 0 };
        let cell = self.rect_cell(x1, y1, x2, y2, attr, fill);
        let keep = rect_keep(fill);
        let f = self.rect_write(x1, y1, x2, y2, attr, fill);
        assert forall|r: int, c: int| #[trigger] cell(r, c) == keep_cell(keep)(r, c).map_values(f) by {
            assert(cell(r, c) =~= keep_cell(keep)(r, c).map_values(f));
        }
        lemma_grid_as_positions(rows, cols, keep, cell, f);
        lemma_positions_ordered(rows, cols, keep);
        lemma_rect_count(rows, cols, fill);
        let cells = positions(rows, cols, keep);
        assert forall|i: int, j: int| 0 <= i < j < cells.len() implies #[trigger] cells[i] != #[trigger] cells[j] by {
            assert(before(cells[i], cells[j]));
        }
        if x1 < x2 && y1 < y2 {
            assert(rows * cols > 0) by (nonlinear_arith)
                requires
                    rows > 0,
                    cols > 0,
            ;
        }
    }

    /// Draw a rectangle to the framebuffer: the stores, row by row, that draw the cells
    /// `x1 <= x < x2`, `y1 <= y < y2`.
    pub fn draw_rect(&self, x1: isize, y1: isize, x2: isize, y2: isize, attr: usize, fill: bool)
        -> (ws: Vec<PixelWrite>)
        requires
            self.rect_ok(x1, y1, x2, y2, attr, fill),
        ensures
            ws@ == grid_cells(
                if y1 < y2 { (y2 - y1) as nat } else { 0 },
                if x1 < x2 { (x2 - x1) as nat } else { 0 },
                self.rect_cell(x1, y1, x2, y2, attr, fill),
            ),
    {
        let ghost cell = self.rect_cell(x1, y1, x2, y2, attr, fill);
        let ghost cols: nat = if x1 < x2 { (x2 - x1) as nat } else { 0 };
        let mut ws: Vec<PixelWrite> = Vec::new();
        let mut y = y1;
        while y < y2
            invariant
                y1 <= y,
                y1 < y2 ==> y <= y2,
                y1 >= y2 ==> y == y1,
                self.rect_ok(x1, y1, x2, y2, attr, fill),
                cell == self.rect_cell(x1, y1, x2, y2, attr, fill),
                cols == (if x1 < x2 { (x2 - x1) as nat } else { 0nat }),
                ws@ == grid_cells((y - y1) as nat, cols, cell),
            decreases y2 - y,
        {
            let mut x = x1;
            while x < x2
                invariant
                    y1 <= y < y2,
                    x1 <= x,
                    x1 < x2 ==> x <= x2,
                    x1 >= x2 ==> x == x1,
                    self.rect_ok(x1, y1, x2, y2, attr, fill),
                    cell == self.rect_cell(x1, y1, x2, y2, attr, fill),
                    cols == (if x1 < x2 { (x2 - x1) as nat } else { 0nat }),
                    ws@ == grid_cells((y - y1) as nat, cols, cell) + row_cells(
                        y - y1,
                        (x - x1) as nat,
                        cell,
                    ),
                decreases x2 - x,
            {
                let ghost r = y - y1;
                let ghost c = x - x1;
                let ghost before = ws@;
                proof {
                    lemma_row_step(grid_cells((y - y1) as nat, cols, cell), r, c as nat, cell);
                    assert(Self::rect_attr(x1, y1, x2, y2, attr, fill, r, c) is Some ==>
                        self.pixel_ok(x as int, y as int,
                            Self::rect_attr(x1, y1, x2, y2, attr, fill, r, c)->0));
                }
                if (x == x1 || x == x2) || (y == y1 || y == y2) {
                    let w = self.draw_pixel(x, y, attr);
                    ws.push(w);
                } else if fill {
                    let w = self.draw_pixel(x, y, (attr & 0xf0) >> 4);
                    ws.push(w);
                }
                assert(ws@ =~= before + cell(r, c));
                x += 1;
            }
            proof {
                lemma_grid_step((y - y1) as nat, cols, cell);
            }
            y += 1;
        }
        ws
    }

    /// The palette colour of glyph pixel `(hi, wi)`: the low nibble of `attr` where the glyph
    /// byte of column `wi` has the bits of `hi << wi` set, the high nibble elsewhere.
    pub open spec fn glyph_attr(glyph: Seq<u8>, attr: usize, hi: int, wi: int) -> nat {
        let pixel = glyph[wi] as usize;
        let mask = (hi as usize) << (wi as usize);
        if pixel & mask == 0 {
            ((attr & 0xF0) >> 4) as nat
        } else {
            (attr & 0x0F) as nat
        }
    }

    /// The store glyph pixel `(hi, wi)` makes, drawn at `(x + wi, y + hi)`.
    pub open spec fn char_cell(&self, glyph: Seq<u8>, x: isize, y: isize, attr: usize) -> spec_fn(
        int,
        int,
    ) -> Seq<PixelWrite> {
        |hi: int, wi: int|
            seq![
                self.pixel_spec(
                    x + (wi as isize),
                    y + (hi as isize),
                    Self::glyph_attr(glyph, attr, hi, wi),
                ),
            ]
    }

    /// Whether glyph pixel `(hi, wi)` can be drawn: its coordinates and its offset fit.
    pub open spec fn char_pixel_ok(&self, glyph: Seq<u8>, x: isize, y: isize, attr: usize, hi: int,
        wi: int) -> bool {
        &&& in_isize(x + (wi as isize))
        &&& in_isize(y + (hi as isize))
        &&& self.pixel_ok(
            x + (wi as isize),
            y + (hi as isize),
            Self::glyph_attr(glyph, attr, hi, wi),
        )
    }

    /// Whether `character` can be drawn from `font` at `(x, y)`: the font has its glyph, the
    /// column shifts stay below the word size, and every pixel can be drawn.
    pub open spec fn char_ok(&self, font: &Font, character: char, x: isize, y: isize, attr: usize) -> bool {
        &&& (character as nat) < font.glyphs@.len()
        &&& {
            let glyph = font.glyphs@[character as int]@;
            &&& (font.height > 0 ==> glyph_cols(font, glyph) <= usize::BITS)
            &&& forall|hi: int, wi: int|
                0 <= hi < font.height && 0 <= wi < glyph_cols(font, glyph) ==>
                #[trigger] self.char_pixel_ok(glyph, x, y, attr, hi, wi)
        }
    }

    /// Draw a character to the framebuffer: the stores, line by line of the glyph, that draw
    /// `character` with its top left corner at `(x, y)`.
    pub fn draw_char(&self, font: &Font, character: char, x: isize, y: isize, attr: usize) -> (ws: Vec<PixelWrite>)
        requires
            self.char_ok(font, character, x, y, attr),
        ensures
            ws@ == grid_cells(
                font.height as nat,
                glyph_cols(font, font.glyphs@[character as int]@),
                self.char_cell(font.glyphs@[character as int]@, x, y, attr),
            ),
    {
        let char_usize = character as usize;
        let glyph = &font.glyphs[char_usize];
        let ghost g = glyph@;
        let ghost cols = glyph_cols(font, g);
        let ghost cell = self.char_cell(g, x, y, attr);
        let mut ws: Vec<PixelWrite> = Vec::new();
        let mut hi: usize = 0;
        while hi < font.height
            invariant
                hi <= font.height,
                self.char_ok(font, character, x, y, attr),
                g == font.glyphs@[character as int]@,
                glyph@ == g,
                cols == glyph_cols(font, g),
                cell == self.char_cell(g, x, y, attr),
                ws@ == grid_cells(hi as nat, cols, cell),
            decreases font.height - hi,
        {
            let mut wi: usize = 0;
            while wi < font.width && wi < glyph.len()
                invariant
                    hi < font.height,
                    wi <= cols,
                    self.char_ok(font, character, x, y, attr),
                    g == font.glyphs@[character as int]@,
                    glyph@ == g,
                    cols == glyph_cols(font, g),
                    cell == self.char_cell(g, x, y, attr),
                    ws@ == grid_cells(hi as nat, cols, cell) + row_cells(hi as int, wi as nat, cell),
                decreases glyph.len() - wi,
            {
                let ghost before = ws@;
                proof {
                    lemma_row_step(grid_cells(hi as nat, cols, cell), hi as int, wi as nat, cell);
                    assert(self.char_pixel_ok(g, x, y, attr, hi as int, wi as int));
                }
                let pixel = glyph[wi] as usize;
                let mask: usize = hi << wi;
                let col: usize = if pixel & mask == 0 {
                    (attr & 0xF0) >> 4
                } else {
                    attr & 0x0F
                };
                let w = self.draw_pixel(x + wi as isize, y + hi as isize, col);
                ws.push(w);
                assert(ws@ =~= before + cell(hi as int, wi as int));
                wi += 1;
            }
            proof {
                lemma_grid_step(hi as nat, cols, cell);
            }
            hi += 1;
        }
        ws
    }
}

} // verus!
